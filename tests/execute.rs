use ferium::execute::{install_method, modpack_file_output, Batch, InstallMethod, PathKind, TaskOutcome, UnknownInstallSource};

fn run(batch: &mut Batch, mut outcome: impl FnMut(usize) -> TaskOutcome) -> Vec<usize> {
    let mut started = Vec::new();
    let mut running: Vec<usize> = Vec::new();
    loop {
        while let Some(i) = batch.next_task() {
            started.push(i);
            running.push(i);
        }
        if batch.is_finished() {
            break;
        }
        let i = running.remove(0);
        assert!(batch.is_running(i));
        batch.record(i, outcome(i));
    }
    started
}

#[test]
fn batch_of_successes_succeeds() {
    let mut b = Batch::new(3, 2);
    let started = run(&mut b, |_| TaskOutcome::Done);
    assert_eq!(started, vec![0, 1, 2]);
    assert!(b.finish().is_ok());
}

#[test]
fn failures_do_not_stop_the_batch() {
    let mut b = Batch::new(4, 1);
    let started = run(&mut b, |i| if i == 1 { TaskOutcome::Failed("disk full".into()) } else { TaskOutcome::Done });
    assert_eq!(started, vec![0, 1, 2, 3]);
    let e = b.finish().err().unwrap();
    assert_eq!(e.failed, vec![1]);
    assert_eq!(e.not_run, 0);
}

#[test]
fn rate_limit_stops_new_tasks() {
    let mut b = Batch::new(5, 2);
    let started = run(&mut b, |i| if i == 0 { TaskOutcome::RateLimited } else { TaskOutcome::Done });
    assert_eq!(started, vec![0, 1]);
    let e = b.finish().err().unwrap();
    assert_eq!(e.failed, vec![0]);
    assert_eq!(e.not_run, 3);
}

#[test]
fn empty_batch_succeeds() {
    let mut b = Batch::new(0, 4);
    assert!(b.next_task().is_none());
    assert!(b.is_finished());
    assert!(b.finish().is_ok());
}

#[test]
fn install_sources_must_be_files_or_directories() {
    assert_eq!(install_method(PathKind::File), Ok(InstallMethod::CopyFile));
    assert_eq!(install_method(PathKind::Directory), Ok(InstallMethod::CopyDirectory));
    assert_eq!(install_method(PathKind::Neither), Err(UnknownInstallSource));
}

#[test]
fn modpack_archives_go_to_resourcepacks() {
    assert_eq!(modpack_file_output(&"Faithful.zip".to_string()), "resourcepacks/Faithful.zip");
    assert_eq!(modpack_file_output(&"pack.ZiP".to_string()), "resourcepacks/pack.ZiP");
    assert_eq!(modpack_file_output(&"sodium.jar".to_string()), "mods/sodium.jar");
    assert_eq!(modpack_file_output(&".zip".to_string()), "mods/.zip");
    assert_eq!(modpack_file_output(&"zip".to_string()), "mods/zip");
}
