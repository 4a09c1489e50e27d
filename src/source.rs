//! The source registry: platform identifiers, sources and profiles.

use vstd::prelude::*;
use crate::filters::{Filters, FiltersView, is_empty_view};
use crate::resolve::{decimal, decimal_text};

verus! {

/// Where a source lives: a platform and a project key, optionally pinned to
/// an exact file, version or asset.
#[derive(Debug)]
pub enum SourceId {
    Curseforge(i32),
    Modrinth(String),
    Github(String, String),
    PinnedCurseforge(i32, i32),
    PinnedModrinth(String, String),
    PinnedGithub((String, String), i32),
}

impl SourceId {
    pub open spec fn pinned(&self) -> bool {
        ||| self is PinnedCurseforge
        ||| self is PinnedModrinth
        ||| self is PinnedGithub
    }

    /// Returns whether this identifier names an exact artifact.
    pub fn is_pinned(&self) -> (r: bool)
        ensures
            r == self.pinned(),
    {
        match self {
            SourceId::PinnedCurseforge(..) | SourceId::PinnedModrinth(..)
            | SourceId::PinnedGithub(..) => true,
            _ => false,
        }
    }

    /// A copy of this identifier.
    pub fn duplicate(&self) -> (r: SourceId)
        ensures
            r == *self,
    {
        match self {
            SourceId::Curseforge(id) => SourceId::Curseforge(*id),
            SourceId::Modrinth(id) => SourceId::Modrinth(id.clone()),
            SourceId::Github(owner, repo) => SourceId::Github(owner.clone(), repo.clone()),
            SourceId::PinnedCurseforge(id, pin) => SourceId::PinnedCurseforge(*id, *pin),
            SourceId::PinnedModrinth(id, pin) => SourceId::PinnedModrinth(id.clone(), pin.clone()),
            SourceId::PinnedGithub((owner, repo), pin) => SourceId::PinnedGithub(
                (owner.clone(), repo.clone()),
                *pin,
            ),
        }
    }
}

/// A source: an identifier with the filters that apply to it alone.
pub struct Source {
    pub id: SourceId,
    pub filters: Filters,
}

pub ghost struct SourceView {
    pub id: SourceId,
    pub filters: FiltersView,
}

impl View for Source {
    type V = SourceView;

    open spec fn view(&self) -> SourceView {
        SourceView { id: self.id, filters: self.filters@ }
    }
}

impl Source {
    pub fn from_id(id: SourceId, filters: Filters) -> (r: Source)
        ensures
            r.id == id,
            r.filters@ == filters@,
    {
        Source { id, filters }
    }

    pub fn curseforge(project_id: i32, filters: Filters) -> (r: Source)
        ensures
            r.id == SourceId::Curseforge(project_id),
            r.filters@ == filters@,
    {
        Source { id: SourceId::Curseforge(project_id), filters }
    }

    pub fn modrinth(project_id: String, filters: Filters) -> (r: Source)
        ensures
            r.id == SourceId::Modrinth(project_id),
            r.filters@ == filters@,
    {
        Source { id: SourceId::Modrinth(project_id), filters }
    }

    /// A copy of this source.
    pub fn duplicate(&self) -> (r: Source)
        ensures
            r@ == self@,
    {
        Source { id: self.id.duplicate(), filters: self.filters.duplicate() }
    }
}

/// The four categories of content a profile holds.
#[derive(Clone, Copy, Debug, PartialEq, Eq, Structural)]
pub enum SourceKind {
    Mods,
    Resourcepacks,
    Shaders,
    Modpacks,
}

impl SourceKind {
    /// The directory, relative to the game directory, that holds this kind of content.
    pub fn directory(&self) -> (r: &'static str)
        ensures
            r@ == match *self {
                SourceKind::Mods => "mods"@,
                SourceKind::Resourcepacks => "resourcepacks"@,
                SourceKind::Shaders => "shaderpacks"@,
                SourceKind::Modpacks => "modpacks"@,
            },
    {
        match self {
            SourceKind::Mods => "mods",
            SourceKind::Resourcepacks => "resourcepacks",
            SourceKind::Shaders => "shaderpacks",
            SourceKind::Modpacks => "modpacks",
        }
    }

    /// Whether files that fell out of the resolved set are kept in a backup
    /// directory rather than deleted; only mods are.
    pub fn backs_up(&self) -> (r: bool)
        ensures
            r == (*self == SourceKind::Mods),
    {
        match self {
            SourceKind::Mods => true,
            _ => false,
        }
    }
}

pub open spec fn is_ascii_upper(c: char) -> bool {
    'A' <= c <= 'Z'
}

/// The code point of `c` with ASCII upper-case letters lowered.
pub open spec fn folded(c: char) -> u32 {
    if is_ascii_upper(c) {
        (c as u32 + 32) as u32
    } else {
        c as u32
    }
}

/// Two characters that are equal once ASCII letters are lower-cased.
pub open spec fn same_char_ignoring_case(a: char, b: char) -> bool {
    folded(a) == folded(b)
}

pub open spec fn same_name(a: Seq<char>, b: Seq<char>) -> bool {
    &&& a.len() == b.len()
    &&& forall|i: int| 0 <= i < a.len() ==> same_char_ignoring_case(#[trigger] a[i], b[i])
}

fn chars_match_ignoring_case(a: char, b: char) -> (r: bool)
    ensures
        r == same_char_ignoring_case(a, b),
{
    let x: u32 = if 'A' <= a && a <= 'Z' { a as u32 + 32 } else { a as u32 };
    let y: u32 = if 'A' <= b && b <= 'Z' { b as u32 + 32 } else { b as u32 };
    x == y
}

/// Returns whether `a` and `b` are equal once ASCII letters are lower-cased.
pub fn eq_ignore_ascii_case(a: &str, b: &str) -> (r: bool)
    ensures
        r == same_name(a@, b@),
{
    let n = a.unicode_len();
    if n != b.unicode_len() {
        return false;
    }
    let mut i: usize = 0;
    while i < n
        invariant
            n == a@.len(),
            n == b@.len(),
            i <= n,
            forall|k: int| 0 <= k < i ==> same_char_ignoring_case(#[trigger] a@[k], b@[k]),
        decreases n - i,
    {
        if !chars_match_ignoring_case(a.get_char(i), b.get_char(i)) {
            return false;
        }
        i = i + 1;
    }
    true
}

/// A source under its user-facing name.
pub struct NamedSource {
    pub name: String,
    pub source: Source,
}

/// No two entries have names that differ only in ASCII case.
pub open spec fn names_distinct(entries: Seq<NamedSource>) -> bool {
    forall|i: int, j: int|
        0 <= i < entries.len() && 0 <= j < entries.len() && i != j ==> !same_name(
            #[trigger] entries[i].name@,
            #[trigger] entries[j].name@,
        )
}

pub open spec fn find_name(entries: Seq<NamedSource>, name: Seq<char>) -> Option<int> {
    if exists|i: int| 0 <= i < entries.len() && same_name(#[trigger] entries[i].name@, name) {
        Some(choose|i: int| 0 <= i < entries.len() && same_name(#[trigger] entries[i].name@, name))
    } else {
        None
    }
}

/// The position of the entry named `name`, ignoring ASCII case.
pub fn position_of(entries: &Vec<NamedSource>, name: &str) -> (r: Option<usize>)
    ensures
        match r {
            Some(i) => i < entries@.len() && same_name(entries@[i as int].name@, name@),
            None => forall|i: int| 0 <= i < entries@.len() ==> !same_name(#[trigger] entries@[i].name@, name@),
        },
{
    let mut i: usize = 0;
    while i < entries.len()
        invariant
            i <= entries.len(),
            forall|k: int| 0 <= k < i ==> !same_name(#[trigger] entries@[k].name@, name@),
        decreases entries.len() - i,
    {
        if eq_ignore_ascii_case(entries[i].name.as_str(), name) {
            return Some(i);
        }
        i = i + 1;
    }
    None
}

/// The profile could not take a source under a name that it already holds.
#[derive(Debug, PartialEq, Eq)]
pub struct DuplicateName;

/// The profile holds no mods, resourcepacks or shaders.
#[derive(Debug, PartialEq, Eq)]
pub struct EmptyProfile;

/// A user's desired content: a baseline of filters and, for each kind, the
/// sources under their names. Names are unique within a kind, ignoring case.
pub struct Profile {
    filters: Filters,
    mods: Vec<NamedSource>,
    resourcepacks: Vec<NamedSource>,
    shaders: Vec<NamedSource>,
    modpacks: Vec<NamedSource>,
}

impl Profile {
    pub closed spec fn entries(&self, kind: SourceKind) -> Seq<NamedSource> {
        match kind {
            SourceKind::Mods => self.mods@,
            SourceKind::Resourcepacks => self.resourcepacks@,
            SourceKind::Shaders => self.shaders@,
            SourceKind::Modpacks => self.modpacks@,
        }
    }

    /// Names are distinct, ignoring case, within each kind.
    pub open spec fn wf(&self) -> bool {
        &&& names_distinct(self.entries(SourceKind::Mods))
        &&& names_distinct(self.entries(SourceKind::Resourcepacks))
        &&& names_distinct(self.entries(SourceKind::Shaders))
        &&& names_distinct(self.entries(SourceKind::Modpacks))
    }

    /// The profile-wide baseline filters.
    pub closed spec fn baseline(&self) -> Filters {
        self.filters
    }

    /// The profile-wide baseline filters.
    pub fn filters(&self) -> (r: &Filters)
        ensures
            *r == self.baseline(),
    {
        &self.filters
    }


    /// An empty profile with the given baseline filters.
    pub fn new(filters: Filters) -> (r: Profile)
        ensures
            r.wf(),
            r.baseline() == filters,
            r.entries(SourceKind::Mods).len() == 0,
            r.entries(SourceKind::Resourcepacks).len() == 0,
            r.entries(SourceKind::Shaders).len() == 0,
            r.entries(SourceKind::Modpacks).len() == 0,
    {
        Profile {
            filters,
            mods: Vec::new(),
            resourcepacks: Vec::new(),
            shaders: Vec::new(),
            modpacks: Vec::new(),
        }
    }

    /// Replaces the baseline filters.
    pub fn set_filters(&mut self, filters: Filters)
        requires
            old(self).wf(),
        ensures
            final(self).wf(),
            final(self).baseline() == filters,
            forall|k: SourceKind| final(self).entries(k) == old(self).entries(k),
    {
        self.filters = filters;
    }

    /// The sources of one kind.
    pub fn sources(&self, kind: SourceKind) -> (r: &Vec<NamedSource>)
        ensures
            r@ == self.entries(kind),
    {
        match kind {
            SourceKind::Mods => &self.mods,
            SourceKind::Resourcepacks => &self.resourcepacks,
            SourceKind::Shaders => &self.shaders,
            SourceKind::Modpacks => &self.modpacks,
        }
    }

    /// Adds `source` under `name`, unless the kind already holds that name
    /// (ignoring case).
    pub fn add(&mut self, kind: SourceKind, name: String, source: Source) -> (r: Result<(), DuplicateName>)
        requires
            old(self).wf(),
        ensures
            final(self).wf(),
            final(self).baseline() == old(self).baseline(),
            r is Err <==> exists|i: int|
                0 <= i < old(self).entries(kind).len() && same_name(
                    #[trigger] old(self).entries(kind)[i].name@,
                    name@,
                ),
            r is Err ==> final(self).entries(kind) == old(self).entries(kind),
            r is Ok ==> final(self).entries(kind) == old(self).entries(kind).push(
                NamedSource { name, source },
            ),
            forall|k: SourceKind| k != kind ==> final(self).entries(k) == old(self).entries(k),
    {
        let entry = NamedSource { name, source };
        match kind {
            SourceKind::Mods => add_entry(&mut self.mods, entry),
            SourceKind::Resourcepacks => add_entry(&mut self.resourcepacks, entry),
            SourceKind::Shaders => add_entry(&mut self.shaders, entry),
            SourceKind::Modpacks => add_entry(&mut self.modpacks, entry),
        }
    }

    /// Puts `source` under `name`: where the kind already holds that name
    /// (ignoring case) its source is replaced and its name kept, otherwise
    /// the entry is appended.
    pub fn insert(&mut self, kind: SourceKind, name: String, source: Source)
        requires
            old(self).wf(),
        ensures
            final(self).wf(),
            final(self).baseline() == old(self).baseline(),
            ({
                let before = old(self).entries(kind);
                let after = final(self).entries(kind);
                match find_name(before, name@) {
                    Some(i) => after == before.update(
                        i,
                        NamedSource { name: before[i].name, source },
                    ),
                    None => after == before.push(NamedSource { name, source }),
                }
            }),
            forall|k: SourceKind| k != kind ==> final(self).entries(k) == old(self).entries(k),
    {
        match kind {
            SourceKind::Mods => insert_entry(&mut self.mods, name, source),
            SourceKind::Resourcepacks => insert_entry(&mut self.resourcepacks, name, source),
            SourceKind::Shaders => insert_entry(&mut self.shaders, name, source),
            SourceKind::Modpacks => insert_entry(&mut self.modpacks, name, source),
        }
    }

    /// Removes and returns the source named `name` (ignoring case), if any.
    pub fn remove(&mut self, kind: SourceKind, name: &str) -> (r: Option<Source>)
        requires
            old(self).wf(),
        ensures
            final(self).wf(),
            final(self).baseline() == old(self).baseline(),
            ({
                let before = old(self).entries(kind);
                match find_name(before, name@) {
                    Some(i) => r == Some(before[i].source) && final(self).entries(kind)
                        == before.remove(i),
                    None => r is None && final(self).entries(kind) == before,
                }
            }),
            forall|k: SourceKind| k != kind ==> final(self).entries(k) == old(self).entries(k),
    {
        match kind {
            SourceKind::Mods => remove_entry(&mut self.mods, name),
            SourceKind::Resourcepacks => remove_entry(&mut self.resourcepacks, name),
            SourceKind::Shaders => remove_entry(&mut self.shaders, name),
            SourceKind::Modpacks => remove_entry(&mut self.modpacks, name),
        }
    }
}

proof fn lemma_find_unique(entries: Seq<NamedSource>, name: Seq<char>, i: int)
    requires
        names_distinct(entries),
        0 <= i < entries.len(),
        same_name(entries[i].name@, name),
    ensures
        find_name(entries, name) == Some(i),
{
    let j = choose|j: int| 0 <= j < entries.len() && same_name(#[trigger] entries[j].name@, name);
    if j != i {
        assert(same_name(entries[i].name@, entries[j].name@)) by {
            assert forall|k: int| 0 <= k < entries[i].name@.len() implies same_char_ignoring_case(
                #[trigger] entries[i].name@[k],
                entries[j].name@[k],
            ) by {
                assert(same_char_ignoring_case(entries[i].name@[k], name[k]));
                assert(same_char_ignoring_case(entries[j].name@[k], name[k]));
            }
        }
        assert(!same_name(entries[i].name@, entries[j].name@));
    }
}

fn add_entry(entries: &mut Vec<NamedSource>, entry: NamedSource) -> (r: Result<(), DuplicateName>)
    requires
        names_distinct(old(entries)@),
    ensures
        names_distinct(final(entries)@),
        r is Err <==> exists|i: int|
            0 <= i < old(entries)@.len() && same_name(#[trigger] old(entries)@[i].name@, entry.name@),
        r is Err ==> final(entries)@ == old(entries)@,
        r is Ok ==> final(entries)@ == old(entries)@.push(entry),
{
    match position_of(entries, entry.name.as_str()) {
        Some(i) => {
            assert(same_name(old(entries)@[i as int].name@, entry.name@));
            Err(DuplicateName)
        },
        None => {
            proof { lemma_same_name_symmetric_all(entries@, entry.name@); }
            entries.push(entry);
            Ok(())
        },
    }
}

proof fn lemma_same_name_symmetric_all(entries: Seq<NamedSource>, name: Seq<char>)
    requires
        forall|i: int| 0 <= i < entries.len() ==> !same_name(#[trigger] entries[i].name@, name),
    ensures
        forall|i: int| 0 <= i < entries.len() ==> !same_name(name, #[trigger] entries[i].name@),
{
    assert forall|i: int| 0 <= i < entries.len() implies !same_name(name, #[trigger] entries[i].name@) by {
        if same_name(name, entries[i].name@) {
            assert forall|k: int| 0 <= k < entries[i].name@.len() implies same_char_ignoring_case(
                #[trigger] entries[i].name@[k],
                name[k],
            ) by {
                assert(same_char_ignoring_case(name[k], entries[i].name@[k]));
            }
        }
    }
}

fn insert_entry(entries: &mut Vec<NamedSource>, name: String, source: Source)
    requires
        names_distinct(old(entries)@),
    ensures
        names_distinct(final(entries)@),
        ({
            let before = old(entries)@;
            match find_name(before, name@) {
                Some(i) => final(entries)@ == before.update(
                    i,
                    NamedSource { name: before[i].name, source },
                ),
                None => final(entries)@ == before.push(NamedSource { name, source }),
            }
        }),
{
    match position_of(entries, name.as_str()) {
        Some(i) => {
            proof { lemma_find_unique(entries@, name@, i as int); }
            let mut old_entry = entries.remove(i);
            old_entry.source = source;
            entries.insert(i, old_entry);
            proof {
                assert(entries@ =~= old(entries)@.update(
                    i as int,
                    NamedSource { name: old(entries)@[i as int].name, source },
                ));
            }
        },
        None => {
            proof { lemma_same_name_symmetric_all(entries@, name@); }
            entries.push(NamedSource { name, source });
        },
    }
}

fn remove_entry(entries: &mut Vec<NamedSource>, name: &str) -> (r: Option<Source>)
    requires
        names_distinct(old(entries)@),
    ensures
        names_distinct(final(entries)@),
        ({
            let before = old(entries)@;
            match find_name(before, name@) {
                Some(i) => r == Some(before[i].source) && final(entries)@ == before.remove(i),
                None => r is None && final(entries)@ == before,
            }
        }),
{
    match position_of(entries, name) {
        Some(i) => {
            proof { lemma_find_unique(entries@, name@, i as int); }
            let removed = remove_index(entries, i);
            Some(removed.source)
        },
        None => None,
    }
}

/// Fails when the profile holds no mods, no resourcepacks and no shaders.
pub fn check_empty_profile(profile: &Profile) -> (r: Result<(), EmptyProfile>)
    ensures
        r is Err <==> (profile.entries(SourceKind::Mods).len() == 0 && profile.entries(
            SourceKind::Resourcepacks,
        ).len() == 0 && profile.entries(SourceKind::Shaders).len() == 0),
{
    if profile.mods.len() == 0 && profile.resourcepacks.len() == 0 && profile.shaders.len() == 0 {
        Err(EmptyProfile)
    } else {
        Ok(())
    }
}

/// The platform preferred where a project is on both.
#[derive(Clone, Copy, Debug, Default, PartialEq, Eq, Structural)]
pub enum Platform {
    #[default]
    Modrinth,
    Curseforge,
}

impl Platform {
    /// The platform's name as shown to users.
    pub fn as_str(&self) -> (r: &'static str)
        ensures
            r@ == match *self {
                Platform::Modrinth => "modrinth"@,
                Platform::Curseforge => "curseforge"@,
            },
    {
        match self {
            Platform::Modrinth => "modrinth",
            Platform::Curseforge => "curseforge",
        }
    }
}

/// Whether `query` names identifier `id`: a CurseForge project by its number,
/// a Modrinth project by its id, a GitHub repository as `owner/repo` in any case.
pub open spec fn id_matches(id: SourceId, query: Seq<char>) -> bool {
    match id {
        SourceId::Curseforge(p) => decimal(p as int) == query,
        SourceId::PinnedCurseforge(p, _) => decimal(p as int) == query,
        SourceId::Modrinth(p) => p@ == query,
        SourceId::PinnedModrinth(p, _) => p@ == query,
        SourceId::Github(owner, repo) => same_name(owner@ + "/"@ + repo@, query),
        SourceId::PinnedGithub(r, _) => same_name(r.0@ + "/"@ + r.1@, query),
    }
}

/// Whether `query` names the entry, by its name in any case or by its identifier.
pub open spec fn entry_matches(e: NamedSource, query: Seq<char>) -> bool {
    same_name(e.name@, query) || id_matches(e.source.id, query)
}

fn repo_matches(owner: &String, repo: &String, query: &str) -> (r: bool)
    ensures
        r == same_name(owner@ + "/"@ + repo@, query@),
{
    let mut full = owner.clone();
    full.append("/");
    full.append(repo.as_str());
    eq_ignore_ascii_case(full.as_str(), query)
}

/// Returns whether `a` and `b` hold the same characters.
pub fn same_text(a: &str, b: &str) -> (r: bool)
    ensures
        r == (a@ == b@),
{
    let n = a.unicode_len();
    if n != b.unicode_len() {
        return false;
    }
    let mut i: usize = 0;
    while i < n
        invariant
            n == a@.len(),
            n == b@.len(),
            i <= n,
            forall|k: int| 0 <= k < i ==> #[trigger] a@[k] == b@[k],
        decreases n - i,
    {
        if a.get_char(i) != b.get_char(i) {
            return false;
        }
        i = i + 1;
    }
    assert(a@ =~= b@);
    true
}

/// Returns whether `query` names identifier `id`.
pub fn matches_id(id: &SourceId, query: &str) -> (r: bool)
    ensures
        r == id_matches(*id, query@),
{
    match id {
        SourceId::Curseforge(p) | SourceId::PinnedCurseforge(p, _) => {
            let t = decimal_text(*p);
            same_text(t.as_str(), query)
        },
        SourceId::Modrinth(p) | SourceId::PinnedModrinth(p, _) => same_text(p.as_str(), query),
        SourceId::Github(owner, repo) | SourceId::PinnedGithub((owner, repo), _) => repo_matches(owner, repo, query),
    }
}

impl Profile {
    /// The position of the first source of `kind` that `query` names, by name
    /// (ignoring case) or by identifier.
    pub fn find_source(&self, kind: SourceKind, query: &str) -> (r: Option<usize>)
        ensures
            match r {
                Some(i) => i < self.entries(kind).len() && entry_matches(self.entries(kind)[i as int], query@)
                    && forall|k: int| 0 <= k < i ==> !entry_matches(#[trigger] self.entries(kind)[k], query@),
                None => forall|k: int| 0 <= k < self.entries(kind).len() ==> !entry_matches(#[trigger] self.entries(kind)[k], query@),
            },
    {
        let entries = self.sources(kind);
        let mut i: usize = 0;
        while i < entries.len()
            invariant
                entries@ == self.entries(kind),
                i <= entries@.len(),
                forall|k: int| 0 <= k < i ==> !entry_matches(#[trigger] entries@[k], query@),
            decreases entries@.len() - i,
        {
            let e = &entries[i];
            if eq_ignore_ascii_case(e.name.as_str(), query) || matches_id(&e.source.id, query) {
                return Some(i);
            }
            i = i + 1;
        }
        None
    }

    /// Removes and returns the source at `index` of `kind`.
    pub fn remove_at(&mut self, kind: SourceKind, index: usize) -> (r: NamedSource)
        requires
            old(self).wf(),
            index < old(self).entries(kind).len(),
        ensures
            final(self).wf(),
            final(self).baseline() == old(self).baseline(),
            r == old(self).entries(kind)[index as int],
            final(self).entries(kind) == old(self).entries(kind).remove(index as int),
            forall|k: SourceKind| k != kind ==> final(self).entries(k) == old(self).entries(k),
    {
        match kind {
            SourceKind::Mods => remove_index(&mut self.mods, index),
            SourceKind::Resourcepacks => remove_index(&mut self.resourcepacks, index),
            SourceKind::Shaders => remove_index(&mut self.shaders, index),
            SourceKind::Modpacks => remove_index(&mut self.modpacks, index),
        }
    }
}

fn remove_index(entries: &mut Vec<NamedSource>, index: usize) -> (r: NamedSource)
    requires
        names_distinct(old(entries)@),
        index < old(entries)@.len(),
    ensures
        names_distinct(final(entries)@),
        r == old(entries)@[index as int],
        final(entries)@ == old(entries)@.remove(index as int),
{
    let r = entries.remove(index);
    proof {
        let before = old(entries)@;
        assert forall|a: int, b: int|
            0 <= a < entries@.len() && 0 <= b < entries@.len() && a != b implies !same_name(
            #[trigger] entries@[a].name@,
            #[trigger] entries@[b].name@,
        ) by {
            let a0 = if a < index { a } else { a + 1 };
            let b0 = if b < index { b } else { b + 1 };
            assert(entries@[a] == before[a0]);
            assert(entries@[b] == before[b0]);
        }
    }
    r
}

} // verus!
