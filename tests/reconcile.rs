use ferium::reconcile::{evict_duplicates, is_partial, plan_cleanup, DirEntry, InstallData};
use ferium::resolve::DownloadData;

fn artifact(filename: &str, url: &str) -> DownloadData {
    DownloadData {
        filename: filename.to_string(),
        length: 1,
        dependencies: vec![],
        output: format!("mods/{filename}"),
        url: url.to_string(),
    }
}

fn file(name: &str) -> DirEntry {
    DirEntry { name: name.to_string(), is_file: true }
}

fn names(v: &[DownloadData]) -> Vec<String> {
    v.iter().map(|d| d.filename.clone()).collect()
}

#[test]
fn present_files_are_not_fetched_and_strays_archived() {
    let listing = vec![file("a.jar"), file("b.jar")];
    let mut to_download = vec![artifact("a.jar", "u1"), artifact("c.jar", "u2")];
    let mut to_install = vec![];
    let plan = plan_cleanup(&listing, &mut to_download, &mut to_install, true);
    assert_eq!(names(&to_download), vec!["c.jar"]);
    assert_eq!(plan.archive, vec!["b.jar"]);
    assert!(plan.delete.is_empty());
    assert!(plan.evicted.is_empty());
}

#[test]
fn strays_are_deleted_without_backup() {
    let listing = vec![file("a.jar"), file("b.jar")];
    let mut to_download = vec![artifact("a.jar", "u1"), artifact("c.jar", "u2")];
    let mut to_install = vec![];
    let plan = plan_cleanup(&listing, &mut to_download, &mut to_install, false);
    assert_eq!(names(&to_download), vec!["c.jar"]);
    assert!(plan.archive.is_empty());
    assert_eq!(plan.delete, vec!["b.jar"]);
}

#[test]
fn second_reconcile_after_the_first_changes_nothing() {
    let resolved = || vec![artifact("a.jar", "u1"), artifact("c.jar", "u2")];
    let mut first = resolved();
    let plan = plan_cleanup(&vec![file("a.jar"), file("b.jar")], &mut first, &mut vec![], true);
    assert_eq!(plan.archive, vec!["b.jar"]);
    let after = vec![file("a.jar"), DirEntry { name: ".old".into(), is_file: false }];
    let mut second = resolved();
    let plan = plan_cleanup(&after, &mut second, &mut vec![], true);
    assert_eq!(names(&second), names(&first));
    assert!(plan.archive.is_empty() && plan.delete.is_empty());
}

#[test]
fn later_duplicate_is_evicted_every_time() {
    for _ in 0..5 {
        let mut to_download = vec![
            artifact("x.jar", "first"),
            artifact("y.jar", "other"),
            artifact("x.jar", "second"),
        ];
        let evicted = evict_duplicates(&mut to_download);
        assert_eq!(evicted, vec!["x.jar"]);
        assert_eq!(names(&to_download), vec!["x.jar", "y.jar"]);
        assert_eq!(to_download[0].url, "first");
    }
}

#[test]
fn eviction_happens_before_cleanup() {
    let mut to_download = vec![artifact("x.jar", "1"), artifact("x.jar", "2"), artifact("x.jar", "3")];
    let plan = plan_cleanup(&vec![], &mut to_download, &mut vec![], true);
    assert_eq!(plan.evicted, vec!["x.jar", "x.jar"]);
    assert_eq!(to_download.len(), 1);
    assert_eq!(to_download[0].url, "1");
}

#[test]
fn partial_downloads_are_deleted_even_with_backup() {
    let listing = vec![file("sodium.jar.part"), file("keep.jar")];
    let mut to_download = vec![artifact("keep.jar", "u")];
    let plan = plan_cleanup(&listing, &mut to_download, &mut vec![], true);
    assert_eq!(plan.delete, vec!["sodium.jar.part"]);
    assert!(plan.archive.is_empty());
    assert!(to_download.is_empty());
    assert!(is_partial(&"x.part".to_string()));
    assert!(!is_partial(&"x.jar".to_string()));
    assert!(!is_partial(&"art".to_string()));
}

#[test]
fn installed_files_are_not_installed_again() {
    let listing = vec![file("options.txt"), file("config.json")];
    let install = |name: &str| InstallData {
        from: format!("/tmp/overrides/{name}"),
        to_dir: String::new(),
        to_name: name.to_string(),
    };
    let mut to_install = vec![install("options.txt"), install("servers.dat"), install("options.txt")];
    let plan = plan_cleanup(&listing, &mut vec![], &mut to_install, true);
    let left: Vec<_> = to_install.iter().map(|t| t.to_name.clone()).collect();
    assert_eq!(left, vec!["servers.dat", "options.txt"]);
    assert_eq!(plan.archive, vec!["config.json"]);
}

#[test]
fn directories_are_left_alone() {
    let listing = vec![DirEntry { name: "b.jar".into(), is_file: false }];
    let mut to_download = vec![artifact("b.jar", "u")];
    let plan = plan_cleanup(&listing, &mut to_download, &mut vec![], true);
    assert_eq!(to_download.len(), 1);
    assert!(plan.archive.is_empty() && plan.delete.is_empty());
}
