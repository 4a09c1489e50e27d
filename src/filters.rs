//! Compatibility filters: which artifacts of a platform a source may use.

use vstd::prelude::*;

verus! {

/// A mod loader that an artifact is built for.
#[derive(Clone, Copy, Debug, PartialEq, Eq, Structural)]
pub enum ModLoader {
    Quilt,
    Fabric,
    Forge,
    NeoForge,
}

/// The release channel of an artifact.
#[derive(Clone, Copy, Debug, PartialEq, Eq, Structural)]
pub enum ReleaseChannel {
    Release,
    Beta,
    Alpha,
}

/// Independently optional compatibility constraints. A field that is `None`
/// constrains nothing; the text fields hold regular expressions that are
/// searched for, not matched whole.
pub struct Filters {
    pub versions: Option<Vec<String>>,
    pub mod_loaders: Option<Vec<ModLoader>>,
    pub release_channels: Option<Vec<ReleaseChannel>>,
    pub filename: Option<String>,
    pub title: Option<String>,
    pub description: Option<String>,
}

pub ghost struct FiltersView {
    pub versions: Option<Seq<Seq<char>>>,
    pub mod_loaders: Option<Seq<ModLoader>>,
    pub release_channels: Option<Seq<ReleaseChannel>>,
    pub filename: Option<Seq<char>>,
    pub title: Option<Seq<char>>,
    pub description: Option<Seq<char>>,
}

/// What a platform says of one of its artifacts, as far as filters read it.
pub struct Candidate {
    pub game_versions: Vec<String>,
    pub loaders: Vec<ModLoader>,
    pub channel: ReleaseChannel,
    pub filename: String,
    pub title: String,
    pub description: String,
}

pub ghost struct CandidateView {
    pub game_versions: Seq<Seq<char>>,
    pub loaders: Seq<ModLoader>,
    pub channel: ReleaseChannel,
    pub filename: Seq<char>,
    pub title: Seq<char>,
    pub description: Seq<char>,
}

pub open spec fn strings_view(v: Seq<String>) -> Seq<Seq<char>> {
    v.map_values(|s: String| s@)
}

pub open spec fn opt_strings_view(o: Option<Vec<String>>) -> Option<Seq<Seq<char>>> {
    match o {
        Some(v) => Some(strings_view(v@)),
        None => None,
    }
}

pub open spec fn opt_seq_view<T>(o: Option<Vec<T>>) -> Option<Seq<T>> {
    match o {
        Some(v) => Some(v@),
        None => None,
    }
}

pub open spec fn opt_string_view(o: Option<String>) -> Option<Seq<char>> {
    match o {
        Some(s) => Some(s@),
        None => None,
    }
}

impl View for Filters {
    type V = FiltersView;

    open spec fn view(&self) -> FiltersView {
        FiltersView {
            versions: opt_strings_view(self.versions),
            mod_loaders: opt_seq_view(self.mod_loaders),
            release_channels: opt_seq_view(self.release_channels),
            filename: opt_string_view(self.filename),
            title: opt_string_view(self.title),
            description: opt_string_view(self.description),
        }
    }
}

impl View for Candidate {
    type V = CandidateView;

    open spec fn view(&self) -> CandidateView {
        CandidateView {
            game_versions: strings_view(self.game_versions@),
            loaders: self.loaders@,
            channel: self.channel,
            filename: self.filename@,
            title: self.title@,
            description: self.description@,
        }
    }
}

/// Whether `pattern` compiles as a regular expression.
pub uninterp spec fn regex_valid(pattern: Seq<char>) -> bool;

/// Whether the regular expression `pattern` occurs anywhere in `haystack`.
pub uninterp spec fn regex_found(pattern: Seq<char>, haystack: Seq<char>) -> bool;

/// Relies on `regex::Regex::new`, which compiles `pattern` or refuses it, and on
/// `regex::Regex::is_match`, an unanchored search of `haystack`.
#[verifier::external_body]
fn regex_search(pattern: &str, haystack: &str) -> (r: Option<bool>)
    ensures
        r is Some <==> regex_valid(pattern@),
        r matches Some(found) ==> found == regex_found(pattern@, haystack@),
{
    match regex::Regex::new(pattern) {
        Ok(re) => Some(re.is_match(haystack)),
        Err(_) => None,
    }
}

/// Returns whether `pattern` compiles as a regular expression.
pub fn pattern_is_valid(pattern: &str) -> (r: bool)
    ensures
        r == regex_valid(pattern@),
{
    regex_search(pattern, "").is_some()
}

/// Whether an artifact built for `actual` is acceptable where `wanted` is asked for.
/// Quilt runs Fabric artifacts; nothing else is interchangeable.
pub open spec fn loader_accepts(wanted: ModLoader, actual: ModLoader) -> bool {
    wanted == actual || (wanted == ModLoader::Quilt && actual == ModLoader::Fabric)
}

pub open spec fn shares_version(wanted: Seq<Seq<char>>, offered: Seq<Seq<char>>) -> bool {
    exists|i: int, j: int|
        0 <= i < wanted.len() && 0 <= j < offered.len() && #[trigger] wanted[i] == #[trigger] offered[j]
}

pub open spec fn shares_loader(wanted: Seq<ModLoader>, offered: Seq<ModLoader>) -> bool {
    exists|i: int, j: int|
        0 <= i < wanted.len() && 0 <= j < offered.len() && loader_accepts(
            #[trigger] wanted[i],
            #[trigger] offered[j],
        )
}

pub open spec fn pattern_allows(pattern: Option<Seq<char>>, text: Seq<char>) -> bool {
    match pattern {
        None => true,
        Some(p) => regex_valid(p) && regex_found(p, text),
    }
}

/// Every constraint that is present has at least one match in the candidate.
pub open spec fn filter_matches(f: FiltersView, c: CandidateView) -> bool {
    &&& (f.versions matches Some(w) ==> shares_version(w, c.game_versions))
    &&& (f.mod_loaders matches Some(w) ==> shares_loader(w, c.loaders))
    &&& (f.release_channels matches Some(w) ==> w.contains(c.channel))
    &&& pattern_allows(f.filename, c.filename)
    &&& pattern_allows(f.title, c.title)
    &&& pattern_allows(f.description, c.description)
}

/// The right-biased merge: each field of `over` that is present wins.
pub open spec fn concat_view(base: FiltersView, over: FiltersView) -> FiltersView {
    FiltersView {
        versions: if over.versions is Some { over.versions } else { base.versions },
        mod_loaders: if over.mod_loaders is Some { over.mod_loaders } else { base.mod_loaders },
        release_channels: if over.release_channels is Some {
            over.release_channels
        } else {
            base.release_channels
        },
        filename: if over.filename is Some { over.filename } else { base.filename },
        title: if over.title is Some { over.title } else { base.title },
        description: if over.description is Some { over.description } else { base.description },
    }
}

pub open spec fn is_empty_view(f: FiltersView) -> bool {
    &&& f.versions is None
    &&& f.mod_loaders is None
    &&& f.release_channels is None
    &&& f.filename is None
    &&& f.title is None
    &&& f.description is None
}

/// Returns whether an artifact built for `actual` satisfies a request for `wanted`.
pub fn accepts_loader(wanted: ModLoader, actual: ModLoader) -> (r: bool)
    ensures
        r == loader_accepts(wanted, actual),
{
    match (wanted, actual) {
        (ModLoader::Quilt, ModLoader::Quilt) => true,
        (ModLoader::Quilt, ModLoader::Fabric) => true,
        (ModLoader::Fabric, ModLoader::Fabric) => true,
        (ModLoader::Forge, ModLoader::Forge) => true,
        (ModLoader::NeoForge, ModLoader::NeoForge) => true,
        _ => false,
    }
}

/// Copies a list of strings.
pub fn copy_strings(v: &Vec<String>) -> (r: Vec<String>)
    ensures
        strings_view(r@) == strings_view(v@),
{
    let mut r: Vec<String> = Vec::new();
    let mut i: usize = 0;
    while i < v.len()
        invariant
            i <= v.len(),
            r@.len() == i,
            forall|k: int| 0 <= k < i ==> (#[trigger] r@[k])@ == v@[k]@,
        decreases v.len() - i,
    {
        r.push(v[i].clone());
        i = i + 1;
    }
    assert(strings_view(r@) =~= strings_view(v@));
    r
}

/// Copies a list of plain values.
pub fn copy_values<T: Copy>(v: &Vec<T>) -> (r: Vec<T>)
    ensures
        r@ == v@,
{
    let mut r: Vec<T> = Vec::new();
    let mut i: usize = 0;
    while i < v.len()
        invariant
            i <= v.len(),
            r@ == v@.subrange(0, i as int),
        decreases v.len() - i,
    {
        r.push(v[i]);
        i = i + 1;
    }
    r
}

fn copy_opt_string(o: &Option<String>) -> (r: Option<String>)
    ensures
        opt_string_view(r) == opt_string_view(*o),
{
    match o {
        Some(s) => Some(s.clone()),
        None => None,
    }
}

impl Filters {
    pub open spec fn empty_view() -> FiltersView {
        FiltersView {
            versions: None,
            mod_loaders: None,
            release_channels: None,
            filename: None,
            title: None,
            description: None,
        }
    }

    /// Filters that constrain nothing.
    pub fn empty() -> (r: Filters)
        ensures
            is_empty_view(r@),
            r@ == Filters::empty_view(),
    {
        Filters {
            versions: None,
            mod_loaders: None,
            release_channels: None,
            filename: None,
            title: None,
            description: None,
        }
    }

    /// Returns whether no field is present.
    pub fn is_empty(&self) -> (r: bool)
        ensures
            r == is_empty_view(self@),
    {
        self.versions.is_none() && self.mod_loaders.is_none() && self.release_channels.is_none()
            && self.filename.is_none() && self.title.is_none() && self.description.is_none()
    }

    /// A copy of these filters.
    pub fn duplicate(&self) -> (r: Filters)
        ensures
            r@ == self@,
    {
        Filters {
            versions: match &self.versions {
                Some(v) => Some(copy_strings(v)),
                None => None,
            },
            mod_loaders: match &self.mod_loaders {
                Some(v) => Some(copy_values(v)),
                None => None,
            },
            release_channels: match &self.release_channels {
                Some(v) => Some(copy_values(v)),
                None => None,
            },
            filename: copy_opt_string(&self.filename),
            title: copy_opt_string(&self.title),
            description: copy_opt_string(&self.description),
        }
    }

    /// Merges `over` into these filters: each field present in `over` replaces
    /// this one's wholesale; the others are kept.
    pub fn concat(self, over: Filters) -> (r: Filters)
        ensures
            r@ == concat_view(self@, over@),
    {
        Filters {
            versions: if over.versions.is_some() { over.versions } else { self.versions },
            mod_loaders: if over.mod_loaders.is_some() { over.mod_loaders } else { self.mod_loaders },
            release_channels: if over.release_channels.is_some() {
                over.release_channels
            } else {
                self.release_channels
            },
            filename: if over.filename.is_some() { over.filename } else { self.filename },
            title: if over.title.is_some() { over.title } else { self.title },
            description: if over.description.is_some() { over.description } else { self.description },
        }
    }
}

fn any_shared_version(wanted: &Vec<String>, offered: &Vec<String>) -> (r: bool)
    ensures
        r == shares_version(strings_view(wanted@), strings_view(offered@)),
{
    let ghost w = strings_view(wanted@);
    let ghost o = strings_view(offered@);
    let mut i: usize = 0;
    while i < wanted.len()
        invariant
            i <= wanted.len(),
            w == strings_view(wanted@),
            o == strings_view(offered@),
            forall|a: int, b: int| 0 <= a < i && 0 <= b < o.len() ==> #[trigger] w[a] != #[trigger] o[b],
        decreases wanted.len() - i,
    {
        let mut j: usize = 0;
        while j < offered.len()
            invariant
                i < wanted.len(),
                j <= offered.len(),
                w == strings_view(wanted@),
                o == strings_view(offered@),
                forall|a: int, b: int|
                    0 <= a < i && 0 <= b < o.len() ==> #[trigger] w[a] != #[trigger] o[b],
                forall|b: int| 0 <= b < j ==> w[i as int] != #[trigger] o[b],
            decreases offered.len() - j,
        {
            if wanted[i] == offered[j] {
                assert(w[i as int] == o[j as int]);
                return true;
            }
            j = j + 1;
        }
        i = i + 1;
    }
    false
}

fn any_accepted_loader(wanted: &Vec<ModLoader>, offered: &Vec<ModLoader>) -> (r: bool)
    ensures
        r == shares_loader(wanted@, offered@),
{
    let mut i: usize = 0;
    while i < wanted.len()
        invariant
            i <= wanted.len(),
            forall|a: int, b: int|
                0 <= a < i && 0 <= b < offered@.len() ==> !loader_accepts(
                    #[trigger] wanted@[a],
                    #[trigger] offered@[b],
                ),
        decreases wanted.len() - i,
    {
        let mut j: usize = 0;
        while j < offered.len()
            invariant
                i < wanted.len(),
                j <= offered.len(),
                forall|a: int, b: int|
                    0 <= a < i && 0 <= b < offered@.len() ==> !loader_accepts(
                        #[trigger] wanted@[a],
                        #[trigger] offered@[b],
                    ),
                forall|b: int| 0 <= b < j ==> !loader_accepts(wanted@[i as int], #[trigger] offered@[b]),
            decreases offered.len() - j,
        {
            if accepts_loader(wanted[i], offered[j]) {
                return true;
            }
            j = j + 1;
        }
        i = i + 1;
    }
    false
}

fn channel_listed(wanted: &Vec<ReleaseChannel>, channel: ReleaseChannel) -> (r: bool)
    ensures
        r == wanted@.contains(channel),
{
    let mut i: usize = 0;
    while i < wanted.len()
        invariant
            i <= wanted.len(),
            forall|a: int| 0 <= a < i ==> #[trigger] wanted@[a] != channel,
        decreases wanted.len() - i,
    {
        if wanted[i] == channel {
            return true;
        }
        i = i + 1;
    }
    false
}

fn text_allowed(pattern: &Option<String>, text: &String) -> (r: bool)
    ensures
        r == pattern_allows(opt_string_view(*pattern), text@),
{
    match pattern {
        None => true,
        Some(p) => match regex_search(p.as_str(), text.as_str()) {
            Some(found) => found,
            None => false,
        },
    }
}

/// Returns whether `candidate` satisfies every constraint that `filters` holds.
/// A text pattern that does not compile matches nothing.
pub fn matches(candidate: &Candidate, filters: &Filters) -> (r: bool)
    ensures
        r == filter_matches(filters@, candidate@),
{
    let versions_ok = match &filters.versions {
        Some(w) => any_shared_version(w, &candidate.game_versions),
        None => true,
    };
    let loaders_ok = match &filters.mod_loaders {
        Some(w) => any_accepted_loader(w, &candidate.loaders),
        None => true,
    };
    let channels_ok = match &filters.release_channels {
        Some(w) => channel_listed(w, candidate.channel),
        None => true,
    };
    versions_ok && loaders_ok && channels_ok && text_allowed(&filters.filename, &candidate.filename)
        && text_allowed(&filters.title, &candidate.title) && text_allowed(
        &filters.description,
        &candidate.description,
    )
}

/// Returns whether `candidate` satisfies every one of `filters`: a list of
/// filter sets is read as their conjunction.
pub fn matches_all(candidate: &Candidate, filters: &Vec<Filters>) -> (r: bool)
    ensures
        r == forall|i: int| 0 <= i < filters@.len() ==> filter_matches(#[trigger] filters@[i]@, candidate@),
{
    let mut i: usize = 0;
    while i < filters.len()
        invariant
            i <= filters.len(),
            forall|a: int| 0 <= a < i ==> filter_matches(#[trigger] filters@[a]@, candidate@),
        decreases filters.len() - i,
    {
        if !matches(candidate, &filters[i]) {
            return false;
        }
        i = i + 1;
    }
    true
}

/// A filter that is present holds exactly when it has a match, and one that is
/// absent never rejects: the candidate matches when every present field has a
/// match, and does not when some present field has none.
pub proof fn lemma_matching_fieldwise(f: FiltersView, c: CandidateView)
    ensures
        filter_matches(f, c) <==> {
            &&& (f.versions matches Some(w) ==> shares_version(w, c.game_versions))
            &&& (f.mod_loaders matches Some(w) ==> shares_loader(w, c.loaders))
            &&& (f.release_channels matches Some(w) ==> w.contains(c.channel))
            &&& (f.filename matches Some(p) ==> regex_valid(p) && regex_found(p, c.filename))
            &&& (f.title matches Some(p) ==> regex_valid(p) && regex_found(p, c.title))
            &&& (f.description matches Some(p) ==> regex_valid(p) && regex_found(
                p,
                c.description,
            ))
        },
        is_empty_view(f) ==> filter_matches(f, c),
{
}

/// A request that lists Quilt accepts an artifact built for Fabric; a request
/// for Fabric alone rejects an artifact built only for Quilt.
pub proof fn lemma_quilt_runs_fabric(f: FiltersView, c: CandidateView)
    ensures
        (f.mod_loaders matches Some(w) && w.contains(ModLoader::Quilt) && c.loaders.contains(
            ModLoader::Fabric,
        )) ==> shares_loader(f.mod_loaders->0, c.loaders),
        (f.mod_loaders == Some(seq![ModLoader::Fabric]) && c.loaders == seq![ModLoader::Quilt])
            ==> !filter_matches(f, c),
{
    if f.mod_loaders is Some && f.mod_loaders->0.contains(ModLoader::Quilt) && c.loaders.contains(
        ModLoader::Fabric,
    ) {
        let w = f.mod_loaders->0;
        let i = choose|i: int| 0 <= i < w.len() && w[i] == ModLoader::Quilt;
        let j = choose|j: int| 0 <= j < c.loaders.len() && c.loaders[j] == ModLoader::Fabric;
        assert(loader_accepts(w[i], c.loaders[j]));
    }
}

/// Merging is right-biased: a field present in `b` comes from `b`, and a field
/// absent from `b` comes from `a`.
pub proof fn lemma_concat_right_biased(a: FiltersView, b: FiltersView)
    ensures
        ({
            let r = concat_view(a, b);
            &&& (b.versions is Some ==> r.versions == b.versions)
            &&& (b.versions is None ==> r.versions == a.versions)
            &&& (b.mod_loaders is Some ==> r.mod_loaders == b.mod_loaders)
            &&& (b.mod_loaders is None ==> r.mod_loaders == a.mod_loaders)
            &&& (b.release_channels is Some ==> r.release_channels == b.release_channels)
            &&& (b.release_channels is None ==> r.release_channels == a.release_channels)
            &&& (b.filename is Some ==> r.filename == b.filename)
            &&& (b.filename is None ==> r.filename == a.filename)
            &&& (b.title is Some ==> r.title == b.title)
            &&& (b.title is None ==> r.title == a.title)
            &&& (b.description is Some ==> r.description == b.description)
            &&& (b.description is None ==> r.description == a.description)
        }),
{
}

/// For a version requirement, the minor and patch components of each of its
/// comparators; `None` when `text` is not a version requirement.
pub uninterp spec fn requirement_precision(text: Seq<char>) -> Option<Seq<(Option<u64>, Option<u64>)>>;

/// Relies on `semver::VersionReq::parse`: reads `text` as a version
/// requirement and gives, for each of its comparators, the optional minor and
/// patch components.
#[verifier::external_body]
pub(crate) fn parse_requirement(text: &str) -> (r: Option<Vec<(Option<u64>, Option<u64>)>>)
    ensures
        r is Some <==> requirement_precision(text@) is Some,
        r matches Some(v) ==> requirement_precision(text@) == Some(v@),
{
    match semver::VersionReq::parse(text) {
        Ok(req) => Some(req.comparators.iter().map(|c| (c.minor, c.patch)).collect()),
        Err(_) => None,
    }
}

/// Some comparator names both a minor and a patch version.
pub open spec fn pins_patch(precision: Seq<(Option<u64>, Option<u64>)>) -> bool {
    exists|k: int| 0 <= k < precision.len() && (#[trigger] precision[k]).0 is Some && precision[k].1 is Some
}

/// A version that narrows the game down to a single release.
pub open spec fn strict_version(text: Seq<char>) -> bool {
    requirement_precision(text) matches Some(p) && pins_patch(p)
}

/// The mod loaders that can run the same artifacts form one family.
pub open spec fn loader_family(l: ModLoader) -> int {
    match l {
        ModLoader::Quilt | ModLoader::Fabric => 0,
        ModLoader::Forge => 1,
        ModLoader::NeoForge => 2,
    }
}

pub open spec fn mixed_loaders(ls: Seq<ModLoader>) -> bool {
    exists|i: int, j: int| 0 <= i < ls.len() && 0 <= j < ls.len() && loader_family(#[trigger] ls[i]) != loader_family(#[trigger] ls[j])
}

/// Warnings about filters that may let in more than was meant.
pub struct FilterWarnings {
    /// Versions are given, but none of them names an exact patch release.
    pub lax_versions: bool,
    /// Loaders of more than one family are allowed.
    pub mixed_loaders: bool,
}

/// Returns whether some comparator of a parsed requirement names both a minor
/// and a patch version.
pub fn pins_exact_patch(precision: &Vec<(Option<u64>, Option<u64>)>) -> (r: bool)
    ensures
        r == pins_patch(precision@),
{
    let mut k: usize = 0;
    while k < precision.len()
        invariant
            k <= precision@.len(),
            forall|j: int| 0 <= j < k ==> !((#[trigger] precision@[j]).0 is Some && precision@[j].1 is Some),
        decreases precision@.len() - k,
    {
        if precision[k].0.is_some() && precision[k].1.is_some() {
            assert((precision@[k as int]).0 is Some && precision@[k as int].1 is Some);
            return true;
        }
        k = k + 1;
    }
    false
}

fn family(l: ModLoader) -> (r: u8)
    ensures
        r as int == loader_family(l),
{
    match l {
        ModLoader::Quilt | ModLoader::Fabric => 0,
        ModLoader::Forge => 1,
        ModLoader::NeoForge => 2,
    }
}

fn any_strict(vs: &Vec<String>) -> (r: bool)
    ensures
        r == exists|i: int| 0 <= i < vs@.len() && strict_version(#[trigger] strings_view(vs@)[i]),
{
    let mut i: usize = 0;
    while i < vs.len()
        invariant
            i <= vs@.len(),
            forall|k: int| 0 <= k < i ==> !strict_version(#[trigger] strings_view(vs@)[k]),
        decreases vs@.len() - i,
    {
        if let Some(p) = parse_requirement(vs[i].as_str()) {
            if pins_exact_patch(&p) {
                assert(strict_version(strings_view(vs@)[i as int]));
                return true;
            }
        }
        i = i + 1;
    }
    false
}

fn any_mixed(ls: &Vec<ModLoader>) -> (r: bool)
    ensures
        r == mixed_loaders(ls@),
{
    if ls.len() == 0 {
        return false;
    }
    let first = family(ls[0]);
    let mut i: usize = 1;
    while i < ls.len()
        invariant
            1 <= i <= ls@.len(),
            first as int == loader_family(ls@[0]),
            forall|k: int| 0 <= k < i ==> loader_family(#[trigger] ls@[k]) == first as int,
        decreases ls@.len() - i,
    {
        if family(ls[i]) != first {
            assert(loader_family(ls@[i as int]) != loader_family(ls@[0]));
            return true;
        }
        i = i + 1;
    }
    assert forall|a: int, b: int| 0 <= a < ls@.len() && 0 <= b < ls@.len() implies loader_family(#[trigger] ls@[a]) == loader_family(#[trigger] ls@[b]) by {
        assert(loader_family(ls@[a]) == first as int);
        assert(loader_family(ls@[b]) == first as int);
    }
    false
}

/// Checks `filters` for constraints that are potentially too lax.
pub fn check_unstrict_filter(filters: &Filters) -> (r: FilterWarnings)
    ensures
        r.lax_versions == (filters@.versions matches Some(vs) && forall|i: int|
            0 <= i < vs.len() ==> !strict_version(#[trigger] vs[i])),
        r.mixed_loaders == (filters@.mod_loaders matches Some(ls) && mixed_loaders(ls)),
{
    let lax_versions = match &filters.versions {
        Some(vs) => {
            let strict = any_strict(vs);
            assert(filters@.versions == Some(strings_view(vs@)));
            assert(!strict <==> forall|i: int| 0 <= i < strings_view(vs@).len() ==> !strict_version(#[trigger] strings_view(vs@)[i]));
            !strict
        },
        None => false,
    };
    let mixed = match &filters.mod_loaders {
        Some(ls) => any_mixed(ls),
        None => false,
    };
    FilterWarnings { lax_versions, mixed_loaders: mixed }
}

/// Filters as given on the command line.
pub struct FilterArguments {
    pub mod_loaders: Option<Vec<ModLoader>>,
    pub game_versions: Option<Vec<String>>,
    pub release_channels: Option<Vec<ReleaseChannel>>,
    pub filename: Option<String>,
    pub title: Option<String>,
    pub description: Option<String>,
}

pub open spec fn filters_of_arguments(a: FilterArguments) -> Filters {
    Filters {
        versions: a.game_versions,
        mod_loaders: a.mod_loaders,
        release_channels: a.release_channels,
        filename: a.filename,
        title: a.title,
        description: a.description,
    }
}

impl From<FilterArguments> for Filters {
    fn from(a: FilterArguments) -> Filters {
        Filters {
            versions: a.game_versions,
            mod_loaders: a.mod_loaders,
            release_channels: a.release_channels,
            filename: a.filename,
            title: a.title,
            description: a.description,
        }
    }
}

impl vstd::std_specs::convert::FromSpecImpl<FilterArguments> for Filters {
    open spec fn obeys_from_spec() -> bool {
        true
    }

    open spec fn from_spec(a: FilterArguments) -> Filters {
        filters_of_arguments(a)
    }
}

} // verus!
