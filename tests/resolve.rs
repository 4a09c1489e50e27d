use ferium::filters::{Filters, ModLoader};
use ferium::resolve::{
    decimal_text, name_dependency, DownloadData, Request, ResolveError, Session, SessionAborted,
};
use ferium::source::{NamedSource, Source, SourceId};

fn named(name: &str, id: SourceId) -> NamedSource {
    NamedSource { name: name.to_string(), source: Source::from_id(id, Filters::empty()) }
}

fn artifact(filename: &str, dependencies: Vec<SourceId>) -> DownloadData {
    DownloadData {
        filename: filename.to_string(),
        length: 10,
        dependencies,
        output: format!("mods/{filename}"),
        url: format!("https://example.invalid/{filename}"),
    }
}

/// Runs a session to its end, answering each request with `answer`, at most
/// `limit` requests outstanding, and oldest outstanding answered first.
fn drive(
    session: &mut Session,
    mut answer: impl FnMut(&Request) -> Result<DownloadData, ResolveError>,
) -> Vec<String> {
    let mut asked = Vec::new();
    let mut outstanding: Vec<(usize, Result<DownloadData, ResolveError>)> = Vec::new();
    loop {
        while let Some(req) = session.next_request() {
            asked.push(req.name.clone());
            outstanding.push((req.ticket, answer(&req)));
        }
        if session.is_finished() {
            break;
        }
        let (ticket, result) = outstanding.remove(0);
        assert!(session.is_awaiting(ticket));
        session.complete(ticket, result);
    }
    asked
}

#[test]
fn decimal_text_writes_integers() {
    assert_eq!(decimal_text(0), "0");
    assert_eq!(decimal_text(394468), "394468");
    assert_eq!(decimal_text(-123), "-123");
    assert_eq!(decimal_text(i32::MIN), "-2147483648");
    assert_eq!(decimal_text(i32::MAX), "2147483647");
}

#[test]
fn dependency_names_follow_the_parent() {
    let parent = "Sodium".to_string();
    assert_eq!(name_dependency(&parent, &SourceId::Curseforge(394468)), "Dependency of Sodium: 394468");
    assert_eq!(
        name_dependency(&parent, &SourceId::PinnedModrinth("P7dR8mSH".into(), "v1".into())),
        "Dependency of Sodium: P7dR8mSH"
    );
    assert_eq!(
        name_dependency(&parent, &SourceId::Github("CaffeineMC".into(), "sodium".into())),
        "Dependency of Sodium: CaffeineMC/sodium"
    );
}

#[test]
fn independent_sources_give_one_outcome_each() {
    let entries = vec![
        named("Sodium", SourceId::Modrinth("sodium".into())),
        named("Lithium", SourceId::Modrinth("lithium".into())),
        named("JEI", SourceId::Curseforge(238222)),
    ];
    let mut s = Session::new(&entries, Filters::empty(), 2);
    let asked = drive(&mut s, |req| {
        if req.name == "JEI" {
            Err(ResolveError::NotFound)
        } else {
            Ok(artifact(&format!("{}.jar", req.name), vec![]))
        }
    });
    assert_eq!(asked, vec!["Sodium", "Lithium", "JEI"]);
    let res = s.finish().ok().unwrap();
    let files: Vec<_> = res.downloads.iter().map(|d| d.filename.clone()).collect();
    assert_eq!(files, vec!["Sodium.jar", "Lithium.jar"]);
    assert_eq!(res.failures.len(), 1);
    assert_eq!(res.failures[0].0, "JEI");
    assert!(matches!(res.failures[0].1, ResolveError::NotFound));
}

#[test]
fn dependencies_are_resolved_too() {
    let entries = vec![named("Create", SourceId::Curseforge(328085))];
    let mut s = Session::new(&entries, Filters::empty(), 4);
    let asked = drive(&mut s, |req| match &req.id {
        SourceId::Curseforge(328085) => Ok(artifact(
            "create.jar",
            vec![SourceId::Curseforge(486392), SourceId::Modrinth("flywheel".into())],
        )),
        _ => Ok(artifact(&format!("{}.jar", req.name.len()), vec![])),
    });
    assert_eq!(
        asked,
        vec!["Create", "Dependency of Create: 486392", "Dependency of Create: flywheel"]
    );
    let res = s.finish().ok().unwrap();
    assert_eq!(res.downloads.len(), 3);
    assert!(res.failures.is_empty());
}

#[test]
fn repeated_names_are_resolved_once() {
    let entries = vec![
        named("A", SourceId::Modrinth("a".into())),
        named("B", SourceId::Modrinth("b".into())),
    ];
    let mut s = Session::new(&entries, Filters::empty(), 1);
    let asked = drive(&mut s, |req| {
        if req.name == "A" {
            let b = || SourceId::Modrinth("b".into());
            Ok(artifact("a.jar", vec![b(), b()]))
        } else {
            Ok(artifact(&format!("{}.jar", req.name), vec![]))
        }
    });
    assert_eq!(asked, vec!["A", "B", "Dependency of A: b"]);
    assert_eq!(s.finish().ok().unwrap().downloads.len(), 3);
}

#[test]
fn rate_limit_aborts_the_session() {
    let entries = vec![
        named("A", SourceId::Modrinth("a".into())),
        named("B", SourceId::Modrinth("b".into())),
        named("C", SourceId::Modrinth("c".into())),
    ];
    let mut s = Session::new(&entries, Filters::empty(), 1);
    let asked = drive(&mut s, |req| {
        if req.name == "A" {
            Err(ResolveError::RateLimited)
        } else {
            Ok(artifact("x.jar", vec![]))
        }
    });
    assert_eq!(asked, vec!["A"]);
    assert!(s.is_aborted());
    assert_eq!(s.finish().err(), Some(SessionAborted));
}

#[test]
fn in_flight_requests_are_bounded() {
    let entries = vec![
        named("A", SourceId::Modrinth("a".into())),
        named("B", SourceId::Modrinth("b".into())),
    ];
    let mut s = Session::new(&entries, Filters::empty(), 1);
    let first = s.next_request().unwrap();
    assert!(s.next_request().is_none());
    assert!(!s.is_finished());
    s.complete(first.ticket, Err(ResolveError::NetworkError("timed out".into())));
    let second = s.next_request().unwrap();
    assert_eq!(second.name, "B");
    assert!(!s.is_awaiting(first.ticket));
    s.complete(second.ticket, Ok(artifact("b.jar", vec![])));
    assert!(s.is_finished());
    let res = s.finish().ok().unwrap();
    assert_eq!(res.downloads.len(), 1);
    assert!(matches!(res.failures[0].1, ResolveError::NetworkError(_)));
}

#[test]
fn requests_carry_merged_filters_unless_pinned() {
    let mut own = Filters::empty();
    own.mod_loaders = Some(vec![ModLoader::Forge]);
    let entries = vec![
        NamedSource {
            name: "A".into(),
            source: Source::from_id(SourceId::Modrinth("a".into()), own.duplicate()),
        },
        NamedSource {
            name: "B".into(),
            source: Source::from_id(SourceId::PinnedCurseforge(1, 2), own),
        },
    ];
    let mut base = Filters::empty();
    base.versions = Some(vec!["1.20.1".to_string()]);
    base.mod_loaders = Some(vec![ModLoader::Fabric]);
    let mut s = Session::new(&entries, base, 8);
    let a = s.next_request().unwrap();
    let f = a.filters.unwrap();
    assert_eq!(f.versions, Some(vec!["1.20.1".to_string()]));
    assert_eq!(f.mod_loaders, Some(vec![ModLoader::Forge]));
    let b = s.next_request().unwrap();
    assert!(b.filters.is_none());
    assert!(matches!(b.id, SourceId::PinnedCurseforge(1, 2)));
}

#[test]
fn empty_session_is_finished_at_once() {
    let s = Session::new(&vec![], Filters::empty(), 3);
    assert!(s.is_finished());
    let res = s.finish().ok().unwrap();
    assert!(res.downloads.is_empty() && res.failures.is_empty());
}
