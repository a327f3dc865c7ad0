use dir_cleanup::error::{CleanupError, IoStage};
use dir_cleanup::manifest::directories_to_remove;
use dir_cleanup::run::{Action, CleanupRun, Event};
use dir_cleanup::stats::DeletionStats;

fn entries(names: &[&str]) -> Vec<String> {
    names.iter().map(|n| n.to_string()).collect()
}

fn step(run: CleanupRun, event: Event) -> CleanupRun {
    assert!(run.expects(event));
    match run.advance(event) {
        Ok(next) => next,
        Err(error) => panic!("unexpected failure: {:?}", error),
    }
}

fn failure(run: CleanupRun, event: Event) -> CleanupError {
    assert!(run.expects(event));
    match run.advance(event) {
        Ok(_) => panic!("the run went on"),
        Err(error) => error,
    }
}

/// Drives a run to its end. `found[i]` is the size of entry `i` if it is an
/// existing directory. Returns the run and the entries it asked to delete.
fn drive(dry: bool, names: &[&str], found: &[Option<u64>]) -> (CleanupRun, Vec<usize>) {
    let mut run = CleanupRun::new(dry, entries(names));
    let mut deleted = Vec::new();
    loop {
        match run.next_action() {
            Action::NothingToRemove | Action::Summarize => return (run, deleted),
            Action::Inspect { index } => {
                let event = match found[index] {
                    Some(size) => Event::Directory { size },
                    None => Event::NotADirectory,
                };
                run = step(run, event);
            }
            Action::Remove { index } => {
                deleted.push(index);
                run = step(run, Event::Removed);
            }
        }
    }
}

#[test]
fn scenario_one_directory_exists_and_one_does_not() {
    let text = ["build", "", "  ", "dist"].join("\n");
    let names = directories_to_remove(&text);
    let run = CleanupRun::new(false, names);
    assert_eq!(run.next_action(), Action::Inspect { index: 0 });
    let run = step(run, Event::Directory { size: 200 });
    assert_eq!(run.next_action(), Action::Remove { index: 0 });
    let run = step(run, Event::Removed);
    assert_eq!(run.next_action(), Action::Inspect { index: 1 });
    let run = step(run, Event::NotADirectory);
    assert_eq!(run.next_action(), Action::Summarize);
    assert_eq!(run.stats(), DeletionStats { bytes_freed: 200, directories_removed: 1 });
    assert_eq!(run.entries(), &vec!["build".to_string(), "dist".to_string()]);
    assert_eq!(
        run.report(),
        vec!["Space freed: 200 Bytes".to_string(), "Directories removed 1".to_string()]
    );
}

#[test]
fn scenario_empty_manifest_has_nothing_to_remove() {
    let run = CleanupRun::new(false, directories_to_remove(""));
    assert_eq!(run.next_action(), Action::NothingToRemove);
    assert_eq!(run.report(), vec!["No directories found to remove".to_string()]);
    assert_eq!(run.stats(), DeletionStats { bytes_freed: 0, directories_removed: 0 });
    for event in [
        Event::NotADirectory,
        Event::Directory { size: 1 },
        Event::SizeUnknown,
        Event::Removed,
        Event::RemovalFailed,
    ] {
        assert!(!run.expects(event));
    }
}

#[test]
fn scenario_missing_path_is_listed_but_not_counted() {
    let (run, deleted) = drive(false, &["missing"], &[None]);
    assert_eq!(run.next_action(), Action::Summarize);
    assert_eq!(run.stats(), DeletionStats { bytes_freed: 0, directories_removed: 0 });
    assert_eq!(run.entries(), &vec!["missing".to_string()]);
    assert_eq!(deleted, Vec::<usize>::new());
    assert_eq!(
        run.report(),
        vec!["Space freed: 0 Bytes".to_string(), "Directories removed 0".to_string()]
    );
}

#[test]
fn counters_cover_exactly_the_directories_found() {
    let names = ["a", "gone", "b", "file.txt", "c"];
    let found = [Some(10), None, Some(0), None, Some(32)];
    for dry in [false, true] {
        let (run, _) = drive(dry, &names, &found);
        assert_eq!(run.stats(), DeletionStats { bytes_freed: 42, directories_removed: 3 });
        assert_eq!(run.entries().len(), 5);
        assert_eq!(run.next_action(), Action::Summarize);
    }
}

#[test]
fn dry_run_never_asks_for_a_deletion() {
    let names = ["a", "b", "c"];
    let found = [Some(1), Some(2), Some(3)];
    let (run, deleted) = drive(true, &names, &found);
    assert!(run.is_dry());
    assert_eq!(deleted, Vec::<usize>::new());
    assert_eq!(run.stats(), DeletionStats { bytes_freed: 6, directories_removed: 3 });
    assert_eq!(
        run.report(),
        vec!["Space will be freed: 6 Bytes".to_string(), "Directories will be removed 3".to_string()]
    );
}

#[test]
fn dry_run_moves_on_right_after_a_directory() {
    let run = CleanupRun::new(true, entries(&["a", "b"]));
    let run = step(run, Event::Directory { size: 5 });
    assert_eq!(run.next_action(), Action::Inspect { index: 1 });
    assert!(!run.expects(Event::Removed));
    assert!(!run.expects(Event::RemovalFailed));
}

#[test]
fn every_directory_found_is_deleted_in_manifest_order() {
    let names = ["a", "gone", "b", "c"];
    let found = [Some(1), None, Some(2), Some(3)];
    let (run, deleted) = drive(false, &names, &found);
    assert!(!run.is_dry());
    assert_eq!(deleted, vec![0, 2, 3]);
    assert_eq!(run.stats().directories_removed, 3);
}

#[test]
fn run_waits_for_the_deletion() {
    let run = CleanupRun::new(false, entries(&["a", "b"]));
    let run = step(run, Event::Directory { size: 5 });
    assert_eq!(run.next_action(), Action::Remove { index: 0 });
    assert_eq!(run.stats(), DeletionStats { bytes_freed: 5, directories_removed: 1 });
    assert!(run.expects(Event::Removed));
    assert!(run.expects(Event::RemovalFailed));
    assert!(!run.expects(Event::NotADirectory));
    assert!(!run.expects(Event::Directory { size: 1 }));
    assert!(!run.expects(Event::SizeUnknown));
}

#[test]
fn inspection_expects_a_finding() {
    let run = CleanupRun::new(false, entries(&["a"]));
    assert!(run.expects(Event::NotADirectory));
    assert!(run.expects(Event::Directory { size: 0 }));
    assert!(run.expects(Event::SizeUnknown));
    assert!(!run.expects(Event::Removed));
    assert!(!run.expects(Event::RemovalFailed));
}

#[test]
fn finished_run_expects_nothing() {
    let (run, _) = drive(false, &["a"], &[Some(1)]);
    assert_eq!(run.next_action(), Action::Summarize);
    assert!(!run.expects(Event::NotADirectory));
    assert!(!run.expects(Event::Removed));
}

#[test]
fn failed_deletion_ends_the_run() {
    let run = CleanupRun::new(false, entries(&["a", "b"]));
    let run = step(run, Event::Directory { size: 5 });
    assert_eq!(failure(run, Event::RemovalFailed), CleanupError::DeletionError);
}

#[test]
fn unknown_size_ends_the_run() {
    for dry in [false, true] {
        let run = CleanupRun::new(dry, entries(&["a", "b"]));
        let run = step(run, Event::NotADirectory);
        assert_eq!(
            failure(run, Event::SizeUnknown),
            CleanupError::IoError(IoStage::MeasuringSize)
        );
    }
}

#[test]
fn total_beyond_u64_ends_the_run() {
    let run = CleanupRun::new(true, entries(&["a", "b", "c"]));
    let run = step(run, Event::Directory { size: u64::MAX - 1 });
    let run = step(run, Event::Directory { size: 1 });
    assert_eq!(run.stats(), DeletionStats { bytes_freed: u64::MAX, directories_removed: 2 });
    assert_eq!(
        failure(run, Event::Directory { size: 1 }),
        CleanupError::IoError(IoStage::MeasuringSize)
    );
}

#[test]
fn entry_named_twice_is_handled_twice() {
    let (run, deleted) = drive(true, &["a", "a"], &[Some(7), Some(7)]);
    assert_eq!(run.stats(), DeletionStats { bytes_freed: 14, directories_removed: 2 });
    assert_eq!(deleted, Vec::<usize>::new());
    let (run, deleted) = drive(false, &["a", "a"], &[Some(7), None]);
    assert_eq!(run.stats(), DeletionStats { bytes_freed: 7, directories_removed: 1 });
    assert_eq!(deleted, vec![0]);
}

#[test]
fn counters_never_go_down() {
    let found = [Some(3), None, Some(0), Some(9), None];
    let mut run = CleanupRun::new(false, entries(&["a", "b", "c", "d", "e"]));
    let mut before = run.stats();
    loop {
        let event = match run.next_action() {
            Action::Inspect { index } => match found[index] {
                Some(size) => Event::Directory { size },
                None => Event::NotADirectory,
            },
            Action::Remove { .. } => Event::Removed,
            Action::NothingToRemove | Action::Summarize => break,
        };
        run = step(run, event);
        let now = run.stats();
        assert!(now.bytes_freed >= before.bytes_freed);
        assert!(now.directories_removed >= before.directories_removed);
        before = now;
    }
    assert_eq!(before, DeletionStats { bytes_freed: 12, directories_removed: 3 });
}
