use ferium::filters::Filters;
use ferium::source::{
    check_empty_profile, eq_ignore_ascii_case, DuplicateName, EmptyProfile, Profile, Source,
    SourceId, SourceKind,
};

fn modrinth(id: &str) -> Source {
    Source::from_id(SourceId::Modrinth(id.to_string()), Filters::empty())
}

#[test]
fn names_compare_ignoring_ascii_case() {
    assert!(eq_ignore_ascii_case("Sodium", "sODIUM"));
    assert!(!eq_ignore_ascii_case("Sodium", "Sodium "));
    assert!(!eq_ignore_ascii_case("a", "b"));
    assert!(eq_ignore_ascii_case("", ""));
}

#[test]
fn profile_refuses_duplicate_names() {
    let mut p = Profile::new(Filters::empty());
    assert_eq!(p.add(SourceKind::Mods, "Sodium".to_string(), modrinth("sodium")), Ok(()));
    assert_eq!(
        p.add(SourceKind::Mods, "SODIUM".to_string(), modrinth("other")),
        Err(DuplicateName)
    );
    assert_eq!(p.add(SourceKind::Shaders, "Sodium".to_string(), modrinth("sodium")), Ok(()));
    assert_eq!(p.sources(SourceKind::Mods).len(), 1);
    assert_eq!(p.sources(SourceKind::Shaders).len(), 1);
}

#[test]
fn insert_replaces_under_the_old_name() {
    let mut p = Profile::new(Filters::empty());
    p.insert(SourceKind::Mods, "Lithium".to_string(), modrinth("lithium"));
    p.insert(SourceKind::Mods, "lithium".to_string(), modrinth("gvQqBUqZ"));
    let mods = p.sources(SourceKind::Mods);
    assert_eq!(mods.len(), 1);
    assert_eq!(mods[0].name, "Lithium");
    assert!(matches!(&mods[0].source.id, SourceId::Modrinth(id) if id == "gvQqBUqZ"));
}

#[test]
fn remove_finds_names_ignoring_case() {
    let mut p = Profile::new(Filters::empty());
    p.insert(SourceKind::Mods, "Sodium".to_string(), modrinth("sodium"));
    assert!(p.remove(SourceKind::Mods, "sodum").is_none());
    let removed = p.remove(SourceKind::Mods, "SODIUM").unwrap();
    assert!(matches!(removed.id, SourceId::Modrinth(id) if id == "sodium"));
    assert_eq!(p.sources(SourceKind::Mods).len(), 0);
}

#[test]
fn empty_profile_is_reported() {
    let mut p = Profile::new(Filters::empty());
    assert_eq!(check_empty_profile(&p), Err(EmptyProfile));
    p.insert(SourceKind::Modpacks, "Pack".to_string(), modrinth("pack"));
    assert_eq!(check_empty_profile(&p), Err(EmptyProfile));
    p.insert(SourceKind::Resourcepacks, "Faithful".to_string(), modrinth("faithful"));
    assert_eq!(check_empty_profile(&p), Ok(()));
}

#[test]
fn kinds_have_directories() {
    assert_eq!(SourceKind::Mods.directory(), "mods");
    assert_eq!(SourceKind::Resourcepacks.directory(), "resourcepacks");
    assert_eq!(SourceKind::Shaders.directory(), "shaderpacks");
    assert_eq!(SourceKind::Modpacks.directory(), "modpacks");
    assert!(SourceKind::Mods.backs_up());
    assert!(!SourceKind::Shaders.backs_up());
}

#[test]
fn pinned_identifiers() {
    assert!(SourceId::PinnedCurseforge(1, 2).is_pinned());
    assert!(SourceId::PinnedModrinth("a".into(), "b".into()).is_pinned());
    assert!(SourceId::PinnedGithub(("o".into(), "r".into()), 3).is_pinned());
    assert!(!SourceId::Github("o".into(), "r".into()).is_pinned());
    assert!(!SourceId::Curseforge(5).is_pinned());
}

#[test]
fn platform_names() {
    assert_eq!(ferium::source::Platform::default().as_str(), "modrinth");
    assert_eq!(ferium::source::Platform::Curseforge.as_str(), "curseforge");
}

fn two_profiles_one_empty() -> Profile {
    let mut p = Profile::new(Filters::empty());
    p.insert(SourceKind::Mods, "Starlight (Fabric)".into(), modrinth("H8CaAYZC"));
    p.insert(SourceKind::Mods, "Incendium".into(), Source::from_id(SourceId::Curseforge(591388), Filters::empty()));
    p.insert(
        SourceKind::Mods,
        "Sodium".into(),
        Source::from_id(SourceId::Github("CaffeineMC".into(), "sodium".into()), Filters::empty()),
    );
    p
}

fn remove_all(p: &mut Profile, queries: &[&str]) -> Result<Vec<String>, String> {
    let mut removed = Vec::new();
    for q in queries {
        match p.find_source(SourceKind::Mods, q) {
            Some(i) => removed.push(p.remove_at(SourceKind::Mods, i).name),
            None => return Err(q.to_string()),
        }
    }
    Ok(removed)
}

#[test]
fn remove_fail() {
    let mut p = two_profiles_one_empty();
    assert_eq!(remove_all(&mut p, &["starlght (fabric)", "incendum", "sodum"]), Err("starlght (fabric)".to_string()));
    assert_eq!(p.sources(SourceKind::Mods).len(), 3);
}

#[test]
fn remove_name() {
    let mut p = two_profiles_one_empty();
    let removed = remove_all(&mut p, &["starlight (fabric)", "incendium", "sodium"]).unwrap();
    assert_eq!(removed, vec!["Starlight (Fabric)", "Incendium", "Sodium"]);
    assert!(p.sources(SourceKind::Mods).is_empty());
}

#[test]
fn remove_id() {
    let mut p = two_profiles_one_empty();
    let removed = remove_all(&mut p, &["H8CaAYZC", "591388", "caffeinemc/sodium"]).unwrap();
    assert_eq!(removed, vec!["Starlight (Fabric)", "Incendium", "Sodium"]);
    assert!(p.sources(SourceKind::Mods).is_empty());
}

#[test]
fn ids_match_exactly_or_by_repository() {
    assert!(ferium::source::matches_id(&SourceId::PinnedCurseforge(-7, 1), "-7"));
    assert!(!ferium::source::matches_id(&SourceId::Modrinth("AbC".into()), "abc"));
    assert!(ferium::source::matches_id(&SourceId::PinnedGithub(("A".into(), "B".into()), 3), "a/b"));
    assert!(!ferium::source::matches_id(&SourceId::Curseforge(591388), "591389"));
}

#[test]
fn baseline_filters_can_be_replaced() {
    let mut p = two_profiles_one_empty();
    let mut f = Filters::empty();
    f.versions = Some(vec!["1.21.4".to_string()]);
    p.set_filters(f);
    assert_eq!(p.filters().versions, Some(vec!["1.21.4".to_string()]));
    assert_eq!(p.sources(SourceKind::Mods).len(), 3);
}
