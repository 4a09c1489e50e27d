use ferium::config::ProfileSource;
use ferium::filters::{self, ReleaseChannel};
use ferium::legacy::{
    is_false, is_zero, migrate_filters, migrate_legacy_config, Config, Filter, MigrateError, Mod,
    ModIdentifier, ModLoader, ModLoaderParseError, Modpack, ModpackIdentifier, Profile,
};
use ferium::source::{SourceId, SourceKind};

fn legacy_mod(name: &str, slug: Option<&str>, id: ModIdentifier, filters: Vec<Filter>) -> Mod {
    Mod {
        name: name.to_string(),
        identifier: id,
        slug: slug.map(|s| s.to_string()),
        filters,
        override_filters: false,
        check_game_version: None,
        check_mod_loader: None,
    }
}

#[test]
fn loaders_parse_ignoring_case_and_spaces() {
    assert_eq!(" Fabric\n".parse::<ModLoader>(), Ok(ModLoader::Fabric));
    assert_eq!(ModLoader::parse("NEOFORGE"), Ok(ModLoader::NeoForge));
    assert_eq!(ModLoader::parse("quilt"), Ok(ModLoader::Quilt));
    assert_eq!(ModLoader::parse("Forge"), Ok(ModLoader::Forge));
    assert_eq!(ModLoader::parse("rift"), Err(ModLoaderParseError));
    assert_eq!(ModLoader::from_normalized("Forge"), Err(ModLoaderParseError));
    assert_eq!(ModLoader::from_normalized("forge"), Ok(ModLoader::Forge));
}

#[test]
fn legacy_values_convert() {
    assert_eq!(filters::ModLoader::from(ModLoader::NeoForge), filters::ModLoader::NeoForge);
    assert!(matches!(
        SourceId::from(ModIdentifier::PinnedGitHubRepository(("o".into(), "r".into()), 7)),
        SourceId::PinnedGithub((o, r), 7) if o == "o" && r == "r"
    ));
    let s = ModpackIdentifier::CurseForgeModpack(42).into_source();
    assert!(matches!(s.id, SourceId::Curseforge(42)));
    assert!(s.filters.is_empty());
    assert!(is_zero(&0) && !is_zero(&3));
    assert!(is_false(&false) && !is_false(&true));
}

#[test]
fn filters_migrate_later_ones_winning() {
    let fs = vec![
        Filter::ModLoaderPrefer(vec![ModLoader::Quilt, ModLoader::Fabric]),
        Filter::GameVersionStrict(vec!["1.20.1".into()]),
        Filter::ReleaseChannel(ReleaseChannel::Beta),
        Filter::GameVersionMinor(vec!["1.20".into(), "1.19.4".into()]),
        Filter::Title("^Sod".into()),
    ];
    let f = migrate_filters(&fs).unwrap();
    assert_eq!(f.mod_loaders, Some(vec![filters::ModLoader::Quilt, filters::ModLoader::Fabric]));
    assert_eq!(f.versions, Some(vec!["1.20".to_string(), "1.19.4".to_string()]));
    assert_eq!(f.release_channels, Some(vec![ReleaseChannel::Release, ReleaseChannel::Beta]));
    assert_eq!(f.title, Some("^Sod".to_string()));
    assert_eq!(f.filename, None);
}

#[test]
fn bad_filters_do_not_migrate() {
    let bad_version = vec![Filter::GameVersionStrict(vec!["1.20.1".into(), "latest!".into()])];
    assert!(matches!(migrate_filters(&bad_version), Err(MigrateError::Semver(v)) if v == "latest!"));
    let bad_pattern = vec![Filter::Filename("([".into())];
    assert!(matches!(migrate_filters(&bad_pattern), Err(MigrateError::Regex(p)) if p == "(["));
}

#[test]
fn old_loader_and_version_become_filters() {
    let mut p = Profile {
        name: "Old".into(),
        output_dir: "/home/me/.minecraft/mods".into(),
        filters: vec![],
        mods: vec![{
            let mut m = legacy_mod("Sodium", None, ModIdentifier::ModrinthProject("sodium".into()), vec![]);
            m.check_mod_loader = Some(false);
            m
        }],
        game_version: Some("1.20.1".into()),
        mod_loader: Some(ModLoader::Quilt),
    };
    let warn = p.backwards_compat();
    assert_eq!(warn, vec!["Sodium"]);
    assert!(p.game_version.is_none() && p.mod_loader.is_none());
    assert_eq!(p.filters.len(), 2);
    assert!(matches!(&p.filters[0], Filter::ModLoaderPrefer(ls) if *ls == vec![ModLoader::Quilt, ModLoader::Fabric]));
    assert!(matches!(&p.filters[1], Filter::GameVersionStrict(vs) if *vs == vec!["1.20.1".to_string()]));
}

#[test]
fn legacy_config_migrates() {
    let legacy = Config {
        active_profile: 0,
        profiles: vec![Profile {
            name: "Main".into(),
            output_dir: "/home/me/.minecraft/mods".into(),
            filters: vec![Filter::GameVersionStrict(vec!["1.20.1".into()])],
            mods: vec![
                legacy_mod("Sodium", Some("sodium"), ModIdentifier::ModrinthProject("AANobbMI".into()), vec![]),
                legacy_mod("JEI", None, ModIdentifier::CurseForgeProject(238222), vec![]),
            ],
            game_version: None,
            mod_loader: None,
        }],
        active_modpack: 0,
        modpacks: vec![Modpack {
            name: "Fabulously Optimized".into(),
            output_dir: "/home/me/.minecraft".into(),
            install_overrides: true,
            identifier: ModpackIdentifier::ModrinthModpack("1KVo5zza".into()),
        }],
    };
    let c = migrate_legacy_config(legacy).unwrap();
    assert_eq!(c.profiles.len(), 2);
    assert_eq!(c.profiles[0].name, "Main");
    assert_eq!(c.profiles[0].minecraft_dir, "/home/me/.minecraft");
    match &c.profiles[0].profile {
        ProfileSource::Embedded(p) => {
            let names: Vec<_> = p.sources(SourceKind::Mods).iter().map(|e| e.name.clone()).collect();
            assert_eq!(names, vec!["sodium", "JEI"]);
            assert_eq!(p.filters().versions, Some(vec!["1.20.1".to_string()]));
        }
        ProfileSource::Path(_) => panic!("expected an embedded profile"),
    }
    assert_eq!(c.profiles[1].minecraft_dir, "/home/me");
    match &c.profiles[1].profile {
        ProfileSource::Embedded(p) => {
            let packs = p.sources(SourceKind::Modpacks);
            assert_eq!(packs.len(), 1);
            assert_eq!(packs[0].name, "Fabulously Optimized");
        }
        ProfileSource::Path(_) => panic!("expected an embedded profile"),
    }
}

#[test]
fn migration_fails_on_a_bad_mod_filter() {
    let legacy = Config {
        active_profile: 0,
        profiles: vec![Profile {
            name: "Main".into(),
            output_dir: "mods".into(),
            filters: vec![],
            mods: vec![legacy_mod("X", None, ModIdentifier::CurseForgeProject(1), vec![Filter::Description("(".into())])],
            game_version: None,
            mod_loader: None,
        }],
        active_modpack: 0,
        modpacks: vec![],
    };
    assert!(matches!(migrate_legacy_config(legacy), Err(MigrateError::Regex(_))));
}
