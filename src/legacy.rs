//! The configuration format of earlier versions, and its migration.

use vstd::prelude::*;
use crate::config;
use crate::filters::{
    self, Filters, FiltersView, ReleaseChannel, copy_strings, opt_string_view, regex_valid,
    requirement_precision, strings_view,
};
use crate::source::{NamedSource, Profile as SourceProfile, Source, SourceId, SourceKind, same_name, same_text};

verus! {

/// A configuration of the earlier format.
pub struct Config {
    pub active_profile: usize,
    pub profiles: Vec<Profile>,
    pub active_modpack: usize,
    pub modpacks: Vec<Modpack>,
}

/// Whether a count is zero; such a field is left out when written.
pub fn is_zero(n: &usize) -> (r: bool)
    ensures
        r == (*n == 0),
{
    *n == 0
}

/// Whether a flag is off; such a field is left out when written.
pub fn is_false(b: &bool) -> (r: bool)
    ensures
        r == !*b,
{
    !*b
}

pub struct Modpack {
    pub name: String,
    pub output_dir: String,
    pub install_overrides: bool,
    pub identifier: ModpackIdentifier,
}

#[derive(Debug)]
pub enum ModpackIdentifier {
    CurseForgeModpack(i32),
    ModrinthModpack(String),
}

/// A filter of the earlier format.
#[derive(Debug)]
pub enum Filter {
    ModLoaderPrefer(Vec<ModLoader>),
    ModLoaderAny(Vec<ModLoader>),
    GameVersionStrict(Vec<String>),
    GameVersionMinor(Vec<String>),
    ReleaseChannel(ReleaseChannel),
    Filename(String),
    Title(String),
    Description(String),
}

pub struct Profile {
    pub name: String,
    /// The directory mod files were downloaded to.
    pub output_dir: String,
    pub filters: Vec<Filter>,
    pub mods: Vec<Mod>,
    /// Kept from the format before filters existed.
    pub game_version: Option<String>,
    pub mod_loader: Option<ModLoader>,
}

pub struct Mod {
    pub name: String,
    pub identifier: ModIdentifier,
    pub slug: Option<String>,
    /// Filters that apply to this mod alone.
    pub filters: Vec<Filter>,
    /// Whether the filters above replace the profile's or apply with them.
    pub override_filters: bool,
    pub check_game_version: Option<bool>,
    pub check_mod_loader: Option<bool>,
}

#[derive(Debug)]
pub enum ModIdentifier {
    CurseForgeProject(i32),
    ModrinthProject(String),
    GitHubRepository(String, String),
    PinnedCurseForgeProject(i32, i32),
    PinnedModrinthProject(String, String),
    PinnedGitHubRepository((String, String), i32),
}

#[derive(Clone, Copy, Debug, PartialEq, Eq, Structural)]
pub enum ModLoader {
    Quilt,
    Fabric,
    Forge,
    NeoForge,
}

/// The given string is not a recognised mod loader.
#[derive(Debug, PartialEq, Eq)]
pub struct ModLoaderParseError;

/// Why a legacy configuration could not be migrated.
#[derive(Debug)]
pub enum MigrateError {
    /// A game version that is not a version requirement.
    Semver(String),
    /// A text filter that is not a regular expression.
    Regex(String),
}

pub open spec fn modern_loader(l: ModLoader) -> filters::ModLoader {
    match l {
        ModLoader::Quilt => filters::ModLoader::Quilt,
        ModLoader::Fabric => filters::ModLoader::Fabric,
        ModLoader::Forge => filters::ModLoader::Forge,
        ModLoader::NeoForge => filters::ModLoader::NeoForge,
    }
}

impl From<ModLoader> for filters::ModLoader {
    fn from(l: ModLoader) -> filters::ModLoader {
        match l {
            ModLoader::Quilt => filters::ModLoader::Quilt,
            ModLoader::Fabric => filters::ModLoader::Fabric,
            ModLoader::Forge => filters::ModLoader::Forge,
            ModLoader::NeoForge => filters::ModLoader::NeoForge,
        }
    }
}

impl vstd::std_specs::convert::FromSpecImpl<ModLoader> for filters::ModLoader {
    open spec fn obeys_from_spec() -> bool {
        true
    }

    open spec fn from_spec(l: ModLoader) -> filters::ModLoader {
        modern_loader(l)
    }
}

pub open spec fn source_id_of(id: ModIdentifier) -> SourceId {
    match id {
        ModIdentifier::CurseForgeProject(p) => SourceId::Curseforge(p),
        ModIdentifier::ModrinthProject(p) => SourceId::Modrinth(p),
        ModIdentifier::GitHubRepository(owner, repo) => SourceId::Github(owner, repo),
        ModIdentifier::PinnedCurseForgeProject(p, pin) => SourceId::PinnedCurseforge(p, pin),
        ModIdentifier::PinnedModrinthProject(p, pin) => SourceId::PinnedModrinth(p, pin),
        ModIdentifier::PinnedGitHubRepository(repo, pin) => SourceId::PinnedGithub(repo, pin),
    }
}

impl From<ModIdentifier> for SourceId {
    fn from(id: ModIdentifier) -> SourceId {
        match id {
            ModIdentifier::CurseForgeProject(p) => SourceId::Curseforge(p),
            ModIdentifier::ModrinthProject(p) => SourceId::Modrinth(p),
            ModIdentifier::GitHubRepository(owner, repo) => SourceId::Github(owner, repo),
            ModIdentifier::PinnedCurseForgeProject(p, pin) => SourceId::PinnedCurseforge(p, pin),
            ModIdentifier::PinnedModrinthProject(p, pin) => SourceId::PinnedModrinth(p, pin),
            ModIdentifier::PinnedGitHubRepository(repo, pin) => SourceId::PinnedGithub(repo, pin),
        }
    }
}

impl vstd::std_specs::convert::FromSpecImpl<ModIdentifier> for SourceId {
    open spec fn obeys_from_spec() -> bool {
        true
    }

    open spec fn from_spec(id: ModIdentifier) -> SourceId {
        source_id_of(id)
    }
}

pub open spec fn modpack_source_id(id: ModpackIdentifier) -> SourceId {
    match id {
        ModpackIdentifier::CurseForgeModpack(p) => SourceId::Curseforge(p),
        ModpackIdentifier::ModrinthModpack(p) => SourceId::Modrinth(p),
    }
}

impl ModpackIdentifier {
    /// The source of this modpack, with no filters of its own.
    pub fn into_source(self) -> (r: Source)
        ensures
            r.id == modpack_source_id(self),
            r.filters@ == Filters::empty_view(),
    {
        match self {
            ModpackIdentifier::CurseForgeModpack(id) => Source::curseforge(id, Filters::empty()),
            ModpackIdentifier::ModrinthModpack(id) => Source::modrinth(id, Filters::empty()),
        }
    }
}

/// The loader named `n`, which is already trimmed and lower-cased.
pub open spec fn loader_named(n: Seq<char>) -> Option<ModLoader> {
    if n == "quilt"@ {
        Some(ModLoader::Quilt)
    } else if n == "fabric"@ {
        Some(ModLoader::Fabric)
    } else if n == "forge"@ {
        Some(ModLoader::Forge)
    } else if n == "neoforge"@ {
        Some(ModLoader::NeoForge)
    } else {
        None
    }
}

pub open spec fn parse_result(n: Seq<char>) -> Result<ModLoader, ModLoaderParseError> {
    match loader_named(n) {
        Some(l) => Ok(l),
        None => Err(ModLoaderParseError),
    }
}

/// `s` without leading and trailing whitespace.
pub uninterp spec fn trimmed(s: Seq<char>) -> Seq<char>;

/// `s` with every character lower-cased.
pub uninterp spec fn lowercased(s: Seq<char>) -> Seq<char>;

/// Relies on `str::trim`, which drops leading and trailing whitespace.
#[verifier::external_body]
fn trim(s: &str) -> (r: &str)
    ensures
        r@ == trimmed(s@),
{
    s.trim()
}

/// Relies on `str::to_lowercase`, which lower-cases every character.
#[verifier::external_body]
fn to_lowercase(s: &str) -> (r: String)
    ensures
        r@ == lowercased(s@),
{
    s.to_lowercase()
}

impl ModLoader {
    /// Reads a loader from a name that is already trimmed and lower-cased.
    pub fn from_normalized(n: &str) -> (r: Result<ModLoader, ModLoaderParseError>)
        ensures
            r == parse_result(n@),
    {
        if same_text(n, "quilt") {
            Ok(ModLoader::Quilt)
        } else if same_text(n, "fabric") {
            Ok(ModLoader::Fabric)
        } else if same_text(n, "forge") {
            Ok(ModLoader::Forge)
        } else if same_text(n, "neoforge") {
            Ok(ModLoader::NeoForge)
        } else {
            Err(ModLoaderParseError)
        }
    }

    /// Reads a loader by name, ignoring case and surrounding whitespace.
    pub fn parse(s: &str) -> (r: Result<ModLoader, ModLoaderParseError>)
        ensures
            r == parse_result(lowercased(trimmed(s@))),
    {
        let lower = to_lowercase(trim(s));
        ModLoader::from_normalized(lower.as_str())
    }
}

impl std::str::FromStr for ModLoader {
    type Err = ModLoaderParseError;

    fn from_str(s: &str) -> Result<ModLoader, ModLoaderParseError> {
        ModLoader::parse(s)
    }
}

/// The channels a legacy channel filter lets through: it and the more stable ones.
pub open spec fn channels_from(c: ReleaseChannel) -> Seq<ReleaseChannel> {
    match c {
        ReleaseChannel::Release => seq![ReleaseChannel::Release],
        ReleaseChannel::Beta => seq![ReleaseChannel::Release, ReleaseChannel::Beta],
        ReleaseChannel::Alpha => seq![ReleaseChannel::Release, ReleaseChannel::Beta, ReleaseChannel::Alpha],
    }
}

pub open spec fn all_requirements(vs: Seq<String>) -> bool {
    forall|i: int| 0 <= i < vs.len() ==> (#[trigger] requirement_precision(vs[i]@)) is Some
}

/// A legacy filter that carries over: its versions are version requirements
/// and its pattern compiles.
pub open spec fn filter_ok(f: Filter) -> bool {
    match f {
        Filter::GameVersionStrict(vs) => all_requirements(vs@),
        Filter::GameVersionMinor(vs) => all_requirements(vs@),
        Filter::Filename(p) => regex_valid(p@),
        Filter::Title(p) => regex_valid(p@),
        Filter::Description(p) => regex_valid(p@),
        _ => true,
    }
}

pub open spec fn is_version_filter(f: Filter) -> bool {
    f is GameVersionStrict || f is GameVersionMinor
}

/// `acc` with the field that `f` constrains set from `f`.
pub open spec fn apply_filter(acc: FiltersView, f: Filter) -> FiltersView {
    match f {
        Filter::ModLoaderPrefer(ls) => FiltersView { mod_loaders: Some(ls@.map_values(|l: ModLoader| modern_loader(l))), ..acc },
        Filter::ModLoaderAny(ls) => FiltersView { mod_loaders: Some(ls@.map_values(|l: ModLoader| modern_loader(l))), ..acc },
        Filter::GameVersionStrict(vs) => FiltersView { versions: Some(strings_view(vs@)), ..acc },
        Filter::GameVersionMinor(vs) => FiltersView { versions: Some(strings_view(vs@)), ..acc },
        Filter::ReleaseChannel(c) => FiltersView { release_channels: Some(channels_from(c)), ..acc },
        Filter::Filename(p) => FiltersView { filename: Some(p@), ..acc },
        Filter::Title(p) => FiltersView { title: Some(p@), ..acc },
        Filter::Description(p) => FiltersView { description: Some(p@), ..acc },
    }
}

/// The filters a list of legacy filters amounts to, later ones winning.
pub open spec fn migrated_filters(fs: Seq<Filter>) -> FiltersView
    decreases fs.len(),
{
    if fs.len() == 0 {
        Filters::empty_view()
    } else {
        apply_filter(migrated_filters(fs.drop_last()), fs.last())
    }
}

fn modern_loaders(ls: &Vec<ModLoader>) -> (r: Vec<filters::ModLoader>)
    ensures
        r@ == ls@.map_values(|l: ModLoader| modern_loader(l)),
{
    let mut r: Vec<filters::ModLoader> = Vec::new();
    let mut i: usize = 0;
    while i < ls.len()
        invariant
            i <= ls@.len(),
            r@ == ls@.subrange(0, i as int).map_values(|l: ModLoader| modern_loader(l)),
        decreases ls@.len() - i,
    {
        r.push(filters::ModLoader::from(ls[i]));
        assert(ls@.subrange(0, i + 1).map_values(|l: ModLoader| modern_loader(l)) =~= ls@.subrange(0, i as int).map_values(|l: ModLoader| modern_loader(l)).push(modern_loader(ls@[i as int])));
        i = i + 1;
    }
    assert(ls@.subrange(0, i as int) =~= ls@);
    r
}

fn channels(c: ReleaseChannel) -> (r: Vec<ReleaseChannel>)
    ensures
        r@ == channels_from(c),
{
    let mut r: Vec<ReleaseChannel> = Vec::new();
    r.push(ReleaseChannel::Release);
    match c {
        ReleaseChannel::Release => {},
        ReleaseChannel::Beta => {
            r.push(ReleaseChannel::Beta);
        },
        ReleaseChannel::Alpha => {
            r.push(ReleaseChannel::Beta);
            r.push(ReleaseChannel::Alpha);
        },
    }
    assert(r@ =~= channels_from(c));
    r
}

/// The first version in `vs` that is not a version requirement, if any.
fn first_bad_version(vs: &Vec<String>) -> (r: Option<usize>)
    ensures
        r is None <==> all_requirements(vs@),
        r matches Some(i) ==> i < vs@.len(),
{
    let mut i: usize = 0;
    while i < vs.len()
        invariant
            i <= vs@.len(),
            forall|k: int| 0 <= k < i ==> (#[trigger] requirement_precision(vs@[k]@)) is Some,
        decreases vs@.len() - i,
    {
        if filters::parse_requirement(vs[i].as_str()).is_none() {
            return Some(i);
        }
        i = i + 1;
    }
    None
}

/// Converts legacy filters, later ones winning where two constrain the same
/// field. Fails on the first filter that does not carry over.
pub fn migrate_filters(fs: &Vec<Filter>) -> (r: Result<Filters, MigrateError>)
    ensures
        r is Ok <==> forall|i: int| 0 <= i < fs@.len() ==> filter_ok(#[trigger] fs@[i]),
        r matches Ok(f) ==> f@ == migrated_filters(fs@),
        r matches Err(e) ==> exists|i: int| {
            &&& 0 <= i < fs@.len()
            &&& !filter_ok(#[trigger] fs@[i])
            &&& forall|j: int| 0 <= j < i ==> filter_ok(#[trigger] fs@[j])
            &&& (e is Semver <==> is_version_filter(fs@[i]))
        },
{
    let mut acc = Filters::empty();
    let mut i: usize = 0;
    while i < fs.len()
        invariant
            i <= fs@.len(),
            forall|k: int| 0 <= k < i ==> filter_ok(#[trigger] fs@[k]),
            acc@ == migrated_filters(fs@.subrange(0, i as int)),
        decreases fs@.len() - i,
    {
        let ghost before = acc@;
        assert(fs@.subrange(0, i + 1).drop_last() =~= fs@.subrange(0, i as int));
        match &fs[i] {
            Filter::ModLoaderPrefer(ls) | Filter::ModLoaderAny(ls) => {
                acc.mod_loaders = Some(modern_loaders(ls));
            },
            Filter::GameVersionStrict(vs) | Filter::GameVersionMinor(vs) => {
                if let Some(bad) = first_bad_version(vs) {
                    return Err(MigrateError::Semver(vs[bad].clone()));
                }
                acc.versions = Some(copy_strings(vs));
            },
            Filter::ReleaseChannel(c) => {
                acc.release_channels = Some(channels(*c));
            },
            Filter::Filename(p) => {
                if !filters::pattern_is_valid(p.as_str()) {
                    return Err(MigrateError::Regex(p.clone()));
                }
                acc.filename = Some(p.clone());
            },
            Filter::Title(p) => {
                if !filters::pattern_is_valid(p.as_str()) {
                    return Err(MigrateError::Regex(p.clone()));
                }
                acc.title = Some(p.clone());
            },
            Filter::Description(p) => {
                if !filters::pattern_is_valid(p.as_str()) {
                    return Err(MigrateError::Regex(p.clone()));
                }
                acc.description = Some(p.clone());
            },
        }
        assert(acc@ == apply_filter(before, fs@[i as int]));
        i = i + 1;
    }
    assert(fs@.subrange(0, i as int) =~= fs@);
    Ok(acc)
}

impl Mod {
    /// The source this mod becomes: its identifier, under its filters converted.
    pub fn into_source(self) -> (r: Result<Source, MigrateError>)
        ensures
            r is Ok <==> forall|i: int| 0 <= i < self.filters@.len() ==> filter_ok(#[trigger] self.filters@[i]),
            r matches Ok(s) ==> s.id == source_id_of(self.identifier) && s.filters@ == migrated_filters(self.filters@),
    {
        let filters = migrate_filters(&self.filters)?;
        Ok(Source::from_id(SourceId::from(self.identifier), filters))
    }
}

/// The names of the mods that carry per-mod check overrides, in order.
pub open spec fn overridden_checks(ms: Seq<Mod>) -> Seq<Seq<char>>
    decreases ms.len(),
{
    if ms.len() == 0 {
        Seq::empty()
    } else {
        let p = overridden_checks(ms.drop_last());
        if ms.last().check_game_version is Some || ms.last().check_mod_loader is Some {
            p.push(ms.last().name@)
        } else {
            p
        }
    }
}

impl Profile {
    /// Turns the game version and mod loader of the format before filters
    /// into filters, when both are present (Quilt also admitting Fabric), and
    /// clears both. Returns the names of the mods with per-mod check
    /// overrides, which do not carry over and deserve a warning.
    pub fn backwards_compat(&mut self) -> (warn: Vec<String>)
        ensures
            final(self).game_version is None,
            final(self).mod_loader is None,
            final(self).name == old(self).name,
            final(self).output_dir == old(self).output_dir,
            final(self).mods == old(self).mods,
            (old(self).game_version is Some && old(self).mod_loader is Some) ==> {
                &&& final(self).filters@.len() == 2
                &&& final(self).filters@[0] matches Filter::ModLoaderPrefer(ls) && ls@ == (if old(self).mod_loader == Some(ModLoader::Quilt) {
                    seq![ModLoader::Quilt, ModLoader::Fabric]
                } else {
                    seq![old(self).mod_loader->0]
                })
                &&& final(self).filters@[1] matches Filter::GameVersionStrict(vs) && vs@ == seq![old(self).game_version->0]
            },
            !(old(self).game_version is Some && old(self).mod_loader is Some) ==> final(self).filters == old(self).filters,
            strings_view(warn@) == overridden_checks(old(self).mods@),
    {
        let version = self.game_version.take();
        let loader = self.mod_loader.take();
        if let (Some(version), Some(loader)) = (version, loader) {
            let mut loaders: Vec<ModLoader> = Vec::new();
            loaders.push(loader);
            if loader == ModLoader::Quilt {
                loaders.push(ModLoader::Fabric);
            }
            let mut versions: Vec<String> = Vec::new();
            versions.push(version);
            let mut fs: Vec<Filter> = Vec::new();
            fs.push(Filter::ModLoaderPrefer(loaders));
            fs.push(Filter::GameVersionStrict(versions));
            assert(versions@ =~= seq![old(self).game_version->0]);
            self.filters = fs;
        }
        let mut warn: Vec<String> = Vec::new();
        let mut i: usize = 0;
        while i < self.mods.len()
            invariant
                i <= self.mods@.len(),
                self.mods == old(self).mods,
                strings_view(warn@) == overridden_checks(self.mods@.subrange(0, i as int)),
            decreases self.mods@.len() - i,
        {
            assert(self.mods@.subrange(0, i + 1).drop_last() =~= self.mods@.subrange(0, i as int));
            let m = &self.mods[i];
            if m.check_game_version.is_some() || m.check_mod_loader.is_some() {
                let ghost w = warn@;
                warn.push(m.name.clone());
                assert(strings_view(warn@) =~= strings_view(w).push(m.name@));
            }
            i = i + 1;
        }
        assert(self.mods@.subrange(0, i as int) =~= self.mods@);
        warn
    }
}

/// The parent of path `p`: `p` without its final component, `None` when `p`
/// is a root or empty.
pub uninterp spec fn parent_path(p: Seq<char>) -> Option<Seq<char>>;

/// Relies on `std::path::Path::parent`, which gives the path without its final
/// component, or `None` for a root or an empty path.
#[verifier::external_body]
fn path_parent(p: &str) -> (r: Option<String>)
    ensures
        r is Some <==> parent_path(p@) is Some,
        r matches Some(q) ==> parent_path(p@) == Some(q@),
{
    std::path::Path::new(p).parent().map(|q| q.to_string_lossy().into_owned())
}

/// The game directory that holds an output directory: its parent, or the
/// empty path when it has none.
pub open spec fn game_dir_of(output_dir: Seq<char>) -> Seq<char> {
    match parent_path(output_dir) {
        Some(q) => q,
        None => Seq::empty(),
    }
}

fn game_dir(output_dir: &String) -> (r: String)
    ensures
        r@ == game_dir_of(output_dir@),
{
    match path_parent(output_dir.as_str()) {
        Some(q) => q,
        None => String::new(),
    }
}

pub open spec fn mods_ok(ms: Seq<Mod>) -> bool {
    forall|k: int, i: int| 0 <= k < ms.len() && 0 <= i < ms[k].filters@.len() ==> filter_ok(#[trigger] ms[k].filters@[i])
}

/// Every filter of a legacy profile, its own and its mods', carries over.
pub open spec fn profile_ok(p: Profile) -> bool {
    &&& forall|i: int| 0 <= i < p.filters@.len() ==> filter_ok(#[trigger] p.filters@[i])
    &&& mods_ok(p.mods@)
}

/// The key a legacy mod is filed under: its slug, or its name without one.
pub open spec fn mod_key(m: Mod) -> Seq<char> {
    match m.slug {
        Some(s) => s@,
        None => m.name@,
    }
}

/// Every mod's key names an entry, ignoring case.
pub open spec fn files_every_mod(entries: Seq<NamedSource>, mods: Seq<Mod>) -> bool {
    forall|m: int| 0 <= m < mods.len() ==> exists|e: int| 0 <= e < entries.len() && same_name(entries[e].name@, mod_key(#[trigger] mods[m]))
}

/// Migrates a legacy configuration. Each legacy profile becomes an embedded
/// profile under its name, in the parent of its output directory, with its
/// filters converted and each mod filed under its slug (or name); each legacy
/// modpack becomes an embedded profile that holds just that modpack. Fails
/// when some filter does not carry over.
#[verifier::loop_isolation(false)]
pub fn migrate_legacy_config(legacy: Config) -> (r: Result<config::Config, MigrateError>)
    ensures
        r is Ok <==> forall|i: int| 0 <= i < legacy.profiles@.len() ==> profile_ok(#[trigger] legacy.profiles@[i]),
        r matches Ok(c) ==> {
            &&& c.active_profile == legacy.active_profile
            &&& c.profiles@.len() == legacy.profiles@.len() + legacy.modpacks@.len()
            &&& forall|i: int| 0 <= i < legacy.profiles@.len() ==> {
                let item = #[trigger] c.profiles@[i];
                &&& item.name@ == legacy.profiles@[i].name@
                &&& item.minecraft_dir@ == game_dir_of(legacy.profiles@[i].output_dir@)
                &&& item.profile matches config::ProfileSource::Embedded(p) && p.wf()
                    && p.baseline()@ == migrated_filters(legacy.profiles@[i].filters@)
                    && p.entries(SourceKind::Mods).len() <= legacy.profiles@[i].mods@.len()
                    && files_every_mod(p.entries(SourceKind::Mods), legacy.profiles@[i].mods@)
                    && p.entries(SourceKind::Resourcepacks).len() == 0
                    && p.entries(SourceKind::Shaders).len() == 0
                    && p.entries(SourceKind::Modpacks).len() == 0
            }
            &&& forall|j: int| 0 <= j < legacy.modpacks@.len() ==> {
                let item = #[trigger] c.profiles@[legacy.profiles@.len() + j];
                let m = legacy.modpacks@[j];
                &&& item.name@ == m.name@
                &&& item.minecraft_dir@ == game_dir_of(m.output_dir@)
                &&& item.profile matches config::ProfileSource::Embedded(p) && p.wf()
                    && p.baseline()@ == Filters::empty_view()
                    && p.entries(SourceKind::Mods).len() == 0
                    && p.entries(SourceKind::Resourcepacks).len() == 0
                    && p.entries(SourceKind::Shaders).len() == 0
                    && p.entries(SourceKind::Modpacks).len() == 1
                    && p.entries(SourceKind::Modpacks)[0].name@ == m.name@
                    && p.entries(SourceKind::Modpacks)[0].source.id == modpack_source_id(m.identifier)
            }
        },
{
    let ghost all_profiles = legacy.profiles@;
    let ghost all_modpacks = legacy.modpacks@;
    let active_profile = legacy.active_profile;
    let mut rest = legacy.profiles;
    let mut modpacks = legacy.modpacks;
    let mut profiles: Vec<config::ProfileItem> = Vec::new();
    let ghost mut i: int = 0;
    while rest.len() > 0
        invariant
            0 <= i <= all_profiles.len(),
            rest@ == all_profiles.skip(i),
            profiles@.len() == i,
            forall|k: int| 0 <= k < i ==> profile_ok(#[trigger] all_profiles[k]),
            forall|k: int| 0 <= k < i ==> {
                let item = #[trigger] profiles@[k];
                &&& item.name@ == all_profiles[k].name@
                &&& item.minecraft_dir@ == game_dir_of(all_profiles[k].output_dir@)
                &&& item.profile matches config::ProfileSource::Embedded(p) && p.wf()
                    && p.baseline()@ == migrated_filters(all_profiles[k].filters@)
                    && p.entries(SourceKind::Mods).len() <= all_profiles[k].mods@.len()
                    && files_every_mod(p.entries(SourceKind::Mods), all_profiles[k].mods@)
                    && p.entries(SourceKind::Resourcepacks).len() == 0
                    && p.entries(SourceKind::Shaders).len() == 0
                    && p.entries(SourceKind::Modpacks).len() == 0
            },
        decreases rest.len(),
    {
        let lp = rest.remove(0);
        assert(lp == all_profiles[i]);
        let filters = match migrate_filters(&lp.filters) {
            Ok(f) => f,
            Err(e) => {
                proof {
                    let f = choose|f: int| 0 <= f < lp.filters@.len() && !filter_ok(#[trigger] lp.filters@[f]);
                    assert(!profile_ok(all_profiles[i]));
                }
                return Err(e);
            },
        };
        let mut profile = SourceProfile::new(filters);
        let ghost all_mods = lp.mods@;
        let mut mods = lp.mods;
        let ghost mut k: int = 0;
        while mods.len() > 0
            invariant
                0 <= k <= all_mods.len(),
                mods@ == all_mods.skip(k),
                profile.wf(),
                profile.baseline()@ == migrated_filters(lp.filters@),
                profile.entries(SourceKind::Mods).len() <= k,
                files_every_mod(profile.entries(SourceKind::Mods), all_mods.subrange(0, k)),
                profile.entries(SourceKind::Resourcepacks).len() == 0,
                profile.entries(SourceKind::Shaders).len() == 0,
                profile.entries(SourceKind::Modpacks).len() == 0,
                forall|m: int, f: int| 0 <= m < k && 0 <= f < all_mods[m].filters@.len() ==> filter_ok(#[trigger] all_mods[m].filters@[f]),
            decreases mods.len(),
        {
            let m = mods.remove(0);
            assert(m == all_mods[k]);
            let key = match &m.slug {
                Some(s) => s.clone(),
                None => m.name.clone(),
            };
            let ghost mod_filters = m.filters@;
            let source = match m.into_source() {
                Ok(s) => s,
                Err(e) => {
                    proof {
                        let f = choose|f: int| 0 <= f < mod_filters.len() && !filter_ok(#[trigger] mod_filters[f]);
                        assert(!filter_ok(all_mods[k].filters@[f]));
                        assert(!mods_ok(lp.mods@));
                        assert(!profile_ok(all_profiles[i]));
                    }
                    return Err(e);
                },
            };
            let ghost before = profile.entries(SourceKind::Mods);
            let ghost key_view = key@;
            assert(key_view == mod_key(all_mods[k]));
            profile.insert(SourceKind::Mods, key, source);
            proof {
                let after = profile.entries(SourceKind::Mods);
                assert forall|e: int| 0 <= e < before.len() implies (#[trigger] after[e]).name@ == before[e].name@ by {}
                let prefix = all_mods.subrange(0, k + 1);
                assert forall|m: int| 0 <= m < prefix.len() implies exists|e: int| 0 <= e < after.len() && same_name(after[e].name@, mod_key(#[trigger] prefix[m])) by {
                    if m < k {
                        assert(prefix[m] == all_mods.subrange(0, k)[m]);
                        let e = choose|e: int| 0 <= e < before.len() && same_name(before[e].name@, mod_key(all_mods.subrange(0, k)[m]));
                        assert(after[e].name@ == before[e].name@);
                    } else {
                        assert(prefix[m] == all_mods[k]);
                        match crate::source::find_name(before, key_view) {
                            Some(i) => {
                                assert(after[i].name@ == before[i].name@);
                                assert(same_name(before[i].name@, key_view));
                            },
                            None => {
                                assert(after[before.len() as int].name@ == key_view);
                                assert(same_name(key_view, key_view));
                            },
                        }
                    }
                }
                k = k + 1;
            }
            assert(mods@ =~= all_mods.skip(k));
        }
        assert(all_mods.skip(0) =~= all_mods);
        let minecraft_dir = game_dir(&lp.output_dir);
        profiles.push(config::ProfileItem {
            profile: config::ProfileSource::Embedded(profile),
            name: lp.name,
            minecraft_dir,
        });
        proof {
            i = i + 1;
        }
        assert(rest@ =~= all_profiles.skip(i));
    }
    let ghost mut j: int = 0;
    while modpacks.len() > 0
        invariant
            0 <= j <= all_modpacks.len(),
            modpacks@ == all_modpacks.skip(j),
            profiles@.len() == all_profiles.len() + j,
            forall|k: int| 0 <= k < all_profiles.len() ==> profile_ok(#[trigger] all_profiles[k]),
            forall|k: int| 0 <= k < all_profiles.len() ==> {
                let item = #[trigger] profiles@[k];
                &&& item.name@ == all_profiles[k].name@
                &&& item.minecraft_dir@ == game_dir_of(all_profiles[k].output_dir@)
                &&& item.profile matches config::ProfileSource::Embedded(p) && p.wf()
                    && p.baseline()@ == migrated_filters(all_profiles[k].filters@)
                    && p.entries(SourceKind::Mods).len() <= all_profiles[k].mods@.len()
                    && files_every_mod(p.entries(SourceKind::Mods), all_profiles[k].mods@)
                    && p.entries(SourceKind::Resourcepacks).len() == 0
                    && p.entries(SourceKind::Shaders).len() == 0
                    && p.entries(SourceKind::Modpacks).len() == 0
            },
            forall|q: int| 0 <= q < j ==> {
                let item = #[trigger] profiles@[all_profiles.len() + q];
                let m = all_modpacks[q];
                &&& item.name@ == m.name@
                &&& item.minecraft_dir@ == game_dir_of(m.output_dir@)
                &&& item.profile matches config::ProfileSource::Embedded(p) && p.wf()
                    && p.baseline()@ == Filters::empty_view()
                    && p.entries(SourceKind::Mods).len() == 0
                    && p.entries(SourceKind::Resourcepacks).len() == 0
                    && p.entries(SourceKind::Shaders).len() == 0
                    && p.entries(SourceKind::Modpacks).len() == 1
                    && p.entries(SourceKind::Modpacks)[0].name@ == m.name@
                    && p.entries(SourceKind::Modpacks)[0].source.id == modpack_source_id(m.identifier)
            },
        decreases modpacks.len(),
    {
        let m = modpacks.remove(0);
        assert(m == all_modpacks[j]);
        let minecraft_dir = game_dir(&m.output_dir);
        let mut profile = SourceProfile::new(Filters::empty());
        let source = m.identifier.into_source();
        let added = profile.add(SourceKind::Modpacks, m.name.clone(), source);
        assert(added is Ok);
        profiles.push(config::ProfileItem {
            profile: config::ProfileSource::Embedded(profile),
            name: m.name,
            minecraft_dir,
        });
        proof {
            j = j + 1;
        }
        assert(modpacks@ =~= all_modpacks.skip(j));
    }
    Ok(config::Config { active_profile, profiles })
}

} // verus!
