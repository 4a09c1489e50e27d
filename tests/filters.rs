use ferium::filters::{
    check_unstrict_filter, matches_all, pattern_is_valid, pins_exact_patch, Candidate,
    Filters, ModLoader, ReleaseChannel,
};

fn candidate(versions: &[&str], loaders: &[ModLoader]) -> Candidate {
    Candidate {
        game_versions: versions.iter().map(|v| v.to_string()).collect(),
        loaders: loaders.to_vec(),
        channel: ReleaseChannel::Release,
        filename: "sodium-fabric-0.5.3+mc1.20.1.jar".to_string(),
        title: "Sodium".to_string(),
        description: "A modern rendering engine".to_string(),
    }
}

fn versions(vs: &[&str]) -> Option<Vec<String>> {
    Some(vs.iter().map(|v| v.to_string()).collect())
}

#[test]
fn empty_filters_accept_everything() {
    let c = candidate(&["1.20.1"], &[ModLoader::Forge]);
    assert!(ferium::filters::matches(&c, &Filters::empty()));
    assert!(Filters::empty().is_empty());
}

#[test]
fn versions_need_an_intersection() {
    let c = candidate(&["1.20.1", "1.20.2"], &[ModLoader::Fabric]);
    let mut f = Filters::empty();
    f.versions = versions(&["1.19.4", "1.20.2"]);
    assert!(ferium::filters::matches(&c, &f));
    f.versions = versions(&["1.19.4"]);
    assert!(!ferium::filters::matches(&c, &f));
    f.versions = versions(&[]);
    assert!(!ferium::filters::matches(&c, &f));
}

#[test]
fn quilt_request_accepts_fabric_artifact() {
    let c = candidate(&["1.20.1"], &[ModLoader::Fabric]);
    let mut f = Filters::empty();
    f.mod_loaders = Some(vec![ModLoader::Quilt]);
    assert!(ferium::filters::matches(&c, &f));
}

#[test]
fn fabric_request_rejects_quilt_only_artifact() {
    let c = candidate(&["1.20.1"], &[ModLoader::Quilt]);
    let mut f = Filters::empty();
    f.mod_loaders = Some(vec![ModLoader::Fabric]);
    assert!(!ferium::filters::matches(&c, &f));
}

#[test]
fn release_channels_are_listed() {
    let mut c = candidate(&["1.20.1"], &[ModLoader::Fabric]);
    c.channel = ReleaseChannel::Beta;
    let mut f = Filters::empty();
    f.release_channels = Some(vec![ReleaseChannel::Release]);
    assert!(!ferium::filters::matches(&c, &f));
    f.release_channels = Some(vec![ReleaseChannel::Release, ReleaseChannel::Beta]);
    assert!(ferium::filters::matches(&c, &f));
}

#[test]
fn text_patterns_are_searched_not_anchored() {
    let c = candidate(&["1.20.1"], &[ModLoader::Fabric]);
    let mut f = Filters::empty();
    f.filename = Some("fabric".to_string());
    assert!(ferium::filters::matches(&c, &f));
    f.filename = Some("^fabric".to_string());
    assert!(!ferium::filters::matches(&c, &f));
    f.filename = None;
    f.title = Some("^Sod".to_string());
    assert!(ferium::filters::matches(&c, &f));
    f.description = Some("rendering\\s+engine$".to_string());
    assert!(ferium::filters::matches(&c, &f));
    f.description = Some("Rendering".to_string());
    assert!(!ferium::filters::matches(&c, &f));
}

#[test]
fn invalid_pattern_matches_nothing() {
    let c = candidate(&["1.20.1"], &[ModLoader::Fabric]);
    let mut f = Filters::empty();
    f.title = Some("(".to_string());
    assert!(!ferium::filters::matches(&c, &f));
    assert!(!pattern_is_valid("("));
    assert!(pattern_is_valid("a+b"));
}

#[test]
fn concat_is_right_biased() {
    let mut a = Filters::empty();
    a.versions = versions(&["1.20.1"]);
    a.mod_loaders = Some(vec![ModLoader::Fabric]);
    a.title = Some("a".to_string());
    let mut b = Filters::empty();
    b.mod_loaders = Some(vec![ModLoader::Forge, ModLoader::NeoForge]);
    b.filename = Some("b".to_string());
    let r = a.concat(b);
    assert_eq!(r.versions, versions(&["1.20.1"]));
    assert_eq!(r.mod_loaders, Some(vec![ModLoader::Forge, ModLoader::NeoForge]));
    assert_eq!(r.filename, Some("b".to_string()));
    assert_eq!(r.title, Some("a".to_string()));
    assert_eq!(r.description, None);
    assert_eq!(r.release_channels, None);
}

#[test]
fn filter_sets_are_anded() {
    let c = candidate(&["1.20.1"], &[ModLoader::Fabric]);
    let mut a = Filters::empty();
    a.versions = versions(&["1.20.1"]);
    let mut b = Filters::empty();
    b.mod_loaders = Some(vec![ModLoader::Forge]);
    assert!(matches_all(&c, &vec![a.duplicate()]));
    assert!(!matches_all(&c, &vec![a, b]));
    assert!(matches_all(&c, &vec![]));
}

#[test]
fn duplicate_copies_every_field() {
    let mut a = Filters::empty();
    a.versions = versions(&["1.20.1", "1.20.2"]);
    a.release_channels = Some(vec![ReleaseChannel::Alpha]);
    a.description = Some("x".to_string());
    let b = a.duplicate();
    assert_eq!(b.versions, a.versions);
    assert_eq!(b.release_channels, a.release_channels);
    assert_eq!(b.description, a.description);
    assert_eq!(b.mod_loaders, None);
}

#[test]
fn lax_versions_are_reported() {
    let mut f = Filters::empty();
    f.versions = versions(&["1.20"]);
    assert!(check_unstrict_filter(&f).lax_versions);
    f.versions = versions(&["1.20", "1.20.1"]);
    assert!(!check_unstrict_filter(&f).lax_versions);
    f.versions = versions(&["not a version"]);
    assert!(check_unstrict_filter(&f).lax_versions);
    f.versions = None;
    assert!(!check_unstrict_filter(&f).lax_versions);
}

#[test]
fn mixed_loaders_are_reported() {
    let mut f = Filters::empty();
    f.mod_loaders = Some(vec![ModLoader::Quilt, ModLoader::Fabric]);
    assert!(!check_unstrict_filter(&f).mixed_loaders);
    f.mod_loaders = Some(vec![ModLoader::Fabric, ModLoader::Forge]);
    assert!(check_unstrict_filter(&f).mixed_loaders);
    f.mod_loaders = Some(vec![ModLoader::Forge, ModLoader::Forge]);
    assert!(!check_unstrict_filter(&f).mixed_loaders);
    f.mod_loaders = Some(vec![ModLoader::Forge, ModLoader::NeoForge]);
    assert!(check_unstrict_filter(&f).mixed_loaders);
}

#[test]
fn exact_patch_needs_minor_and_patch() {
    assert!(pins_exact_patch(&vec![(Some(20), Some(1))]));
    assert!(!pins_exact_patch(&vec![(Some(20), None), (None, None)]));
    assert!(!pins_exact_patch(&vec![]));
}

#[test]
fn command_line_filters_convert() {
    let args = ferium::filters::FilterArguments {
        mod_loaders: Some(vec![ModLoader::Fabric]),
        game_versions: Some(vec!["1.21.4".to_string()]),
        release_channels: None,
        filename: None,
        title: Some("Sodium".to_string()),
        description: None,
    };
    let f = Filters::from(args);
    assert_eq!(f.versions, Some(vec!["1.21.4".to_string()]));
    assert_eq!(f.mod_loaders, Some(vec![ModLoader::Fabric]));
    assert_eq!(f.title, Some("Sodium".to_string()));
    assert!(f.filename.is_none());
}
