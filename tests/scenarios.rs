use ferium::execute::{Batch, TaskOutcome};
use ferium::filters::{Candidate, Filters, ModLoader, ReleaseChannel};
use ferium::reconcile::{plan_cleanup, DirEntry};
use ferium::resolve::{DownloadData, ResolveError, Session};
use ferium::source::{Profile, Source, SourceId, SourceKind};

const SODIUM_FILE: &str = "sodium-fabric-0.5.3+mc1.20.1.jar";

/// A platform that knows one project, `sodium`, with one Fabric artifact for 1.20.1.
fn platform(id: &SourceId, filters: &Option<Filters>) -> Result<DownloadData, ResolveError> {
    match id {
        SourceId::Modrinth(slug) if slug == "sodium" => {
            let candidate = Candidate {
                game_versions: vec!["1.20.1".to_string()],
                loaders: vec![ModLoader::Fabric],
                channel: ReleaseChannel::Release,
                filename: SODIUM_FILE.to_string(),
                title: "Sodium".to_string(),
                description: "Rendering engine".to_string(),
            };
            if filters.as_ref().map_or(true, |f| ferium::filters::matches(&candidate, f)) {
                Ok(DownloadData {
                    filename: SODIUM_FILE.to_string(),
                    length: 812_000,
                    dependencies: vec![],
                    output: format!("mods/{SODIUM_FILE}"),
                    url: "https://cdn.modrinth.com/sodium.jar".to_string(),
                })
            } else {
                Err(ResolveError::NoCompatibleVersion)
            }
        }
        _ => Err(ResolveError::NotFound),
    }
}

fn profile() -> Profile {
    let mut filters = Filters::empty();
    filters.versions = Some(vec!["1.20.1".to_string()]);
    filters.mod_loaders = Some(vec![ModLoader::Fabric]);
    let mut p = Profile::new(filters);
    p.add(
        SourceKind::Mods,
        "Sodium".to_string(),
        Source::from_id(SourceId::Modrinth("sodium".to_string()), Filters::empty()),
    )
    .unwrap();
    p
}

/// Resolves, reconciles and downloads into `dir`, a list of file names, and
/// returns the number of downloads performed.
fn upgrade(dir: &mut Vec<String>, old: &mut Vec<String>) -> (usize, usize) {
    let p = profile();
    let mut s = Session::new(p.sources(SourceKind::Mods), p.filters().duplicate(), 4);
    while !s.is_finished() {
        while let Some(req) = s.next_request() {
            let result = platform(&req.id, &req.filters);
            s.complete(req.ticket, result);
        }
    }
    let resolution = s.finish().ok().unwrap();
    assert!(resolution.failures.is_empty());
    let resolved = resolution.downloads.len();
    let mut to_download = resolution.downloads;
    let listing: Vec<DirEntry> = dir.iter().map(|n| DirEntry { name: n.clone(), is_file: true }).collect();
    let plan = plan_cleanup(&listing, &mut to_download, &mut vec![], true);
    for name in &plan.archive {
        dir.retain(|n| n != name);
        old.push(name.clone());
    }
    for name in &plan.delete {
        dir.retain(|n| n != name);
    }
    let mut batch = Batch::new(to_download.len(), 4);
    let mut downloads = 0;
    while let Some(i) = batch.next_task() {
        dir.push(to_download[i].filename.clone());
        downloads += 1;
        batch.record(i, TaskOutcome::Done);
    }
    assert!(batch.is_finished());
    assert!(batch.finish().is_ok());
    (resolved, downloads)
}

#[test]
fn fresh_directory_gets_the_one_artifact() {
    let mut dir = vec![];
    let mut old = vec![];
    assert_eq!(upgrade(&mut dir, &mut old), (1, 1));
    assert_eq!(dir, vec![SODIUM_FILE]);
    assert!(old.is_empty());
}

#[test]
fn present_artifact_is_not_downloaded_again() {
    let mut dir = vec![SODIUM_FILE.to_string()];
    let mut old = vec![];
    assert_eq!(upgrade(&mut dir, &mut old), (1, 0));
    assert_eq!(dir, vec![SODIUM_FILE]);
    assert!(old.is_empty());
}

#[test]
fn stray_file_goes_to_backup() {
    let mut dir = vec!["old_mod.jar".to_string()];
    let mut old = vec![];
    assert_eq!(upgrade(&mut dir, &mut old), (1, 1));
    assert_eq!(dir, vec![SODIUM_FILE]);
    assert_eq!(old, vec!["old_mod.jar"]);
}

#[test]
fn incompatible_profile_resolves_nothing() {
    let mut filters = Filters::empty();
    filters.mod_loaders = Some(vec![ModLoader::Forge]);
    let mut p = Profile::new(filters);
    p.add(SourceKind::Mods, "Sodium".into(), Source::from_id(SourceId::Modrinth("sodium".into()), Filters::empty())).unwrap();
    let mut s = Session::new(p.sources(SourceKind::Mods), p.filters().duplicate(), 1);
    let req = s.next_request().unwrap();
    let result = platform(&req.id, &req.filters);
    s.complete(req.ticket, result);
    let res = s.finish().ok().unwrap();
    assert!(res.downloads.is_empty());
    assert!(matches!(res.failures[0].1, ResolveError::NoCompatibleVersion));
}
