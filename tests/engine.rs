use fsync::path_map::{find, map_path, path_file_name, path_parent, path_with_file_name, MapFault};
use fsync::{
    Action, App, AppError, Config, ConfigError, DestMeta, EventKind, EventTranslator, FsOp,
    IoFailure, RunStep, Stage, SweepEntry,
};

fn app() -> App {
    App::new(Config::build("/src".to_string(), "/dst".to_string()))
}

fn strings(v: &[&str]) -> Vec<String> {
    v.iter().map(|s| s.to_string()).collect()
}

fn entry(path: &str, is_file: bool, age_secs: u64, dest: DestMeta) -> SweepEntry {
    SweepEntry { path: path.to_string(), is_file, age_secs, dest }
}

#[test]
fn non_existing_path() {
    let _app = App::new(Config::build("./test".into(), "./test2".into()));
}

#[test]
fn config_from_args_takes_two_paths() {
    let c = Config::from_args(&strings(&["prog", "/a", "/b", "extra"])).unwrap();
    assert_eq!(c.source(), "/a");
    assert_eq!(c.destination(), "/b");
}

#[test]
fn config_from_args_too_few() {
    let r = Config::from_args(&strings(&["prog", "/a"]));
    assert!(matches!(r, Err(ConfigError::WrongArguments)));
}

#[test]
fn config_error_text() {
    assert_eq!(ConfigError::WrongArguments.as_str(), "Wrong arguments");
    assert_eq!(ConfigError::IOError.as_str(), "IO Error");
    assert_eq!(ConfigError::Other.as_str(), "Other error");
}

#[test]
fn dest_path_of_nested_file() {
    assert_eq!(app().build_dest_path("/src/x/y.txt").ok().unwrap(), "/dst/x/y.txt");
}

#[test]
fn dest_path_of_root_itself() {
    assert_eq!(app().build_dest_path("/src").ok().unwrap(), "/dst");
}

#[test]
fn dest_path_root_recurring_deeper() {
    assert_eq!(app().build_dest_path("/home/src/a").ok().unwrap(), "/dst/a");
}

#[test]
fn dest_path_outside_root() {
    match app().build_dest_path("/other/a") {
        Err(AppError::PathErr(m)) => assert_eq!(m, "/src"),
        _ => panic!("expected a path error"),
    }
}

#[test]
fn dest_path_not_on_boundary() {
    match app().build_dest_path("/srcx/a") {
        Err(AppError::StripPrefix(m)) => assert_eq!(m, "/srcx/a"),
        _ => panic!("expected a strip-prefix error"),
    }
}

#[test]
fn map_path_with_trailing_separators() {
    assert_eq!(map_path("/src/", "/dst/", "/src/a/b").ok().unwrap(), "/dst/a/b");
    assert_eq!(map_path("/src", "/dst", "/src//a").ok().unwrap(), "/dst/a");
    assert!(matches!(map_path("/src", "/dst", "/x"), Err(MapFault::RootNotFound)));
}

#[test]
fn map_round_trip_on_example() {
    let mapped = map_path("/src", "/dst", "/src/a/b.txt").ok().unwrap();
    let back = map_path("/dst", "/src", &mapped).ok().unwrap();
    assert_eq!(back, "/src/a/b.txt");
}

#[test]
fn find_first_occurrence() {
    assert_eq!(find("abcabc", "bc"), Some(1));
    assert_eq!(find("abc", ""), Some(0));
    assert_eq!(find("abc", "x"), None);
    assert_eq!(find("ab", "abc"), None);
}

#[test]
fn file_name_and_parent() {
    assert_eq!(path_file_name("/a/b.txt").unwrap(), "b.txt");
    assert!(path_file_name("/a/").is_none());
    assert!(path_file_name("/a/..").is_none());
    assert_eq!(path_with_file_name("/a/b.txt", "c.txt"), "/a/c.txt");
    assert_eq!(path_parent("/a/b").unwrap(), "/a");
    assert_eq!(path_parent("/a").unwrap(), "/");
    assert!(path_parent("/").is_none());
    assert!(path_parent("a").is_none());
}

#[test]
fn metadata_decision() {
    assert!(App::sync_by_metadata(5, DestMeta::Missing));
    assert!(App::sync_by_metadata(5, DestMeta::Present(7)));
    assert!(!App::sync_by_metadata(5, DestMeta::Present(5)));
    assert!(!App::sync_by_metadata(5, DestMeta::Unreadable));
}

#[test]
fn sweep_selects_files_needing_copy() {
    let entries = vec![
        entry("/src", false, 0, DestMeta::Present(0)),
        entry("/src/a.txt", true, 3, DestMeta::Missing),
        entry("/src/b.txt", true, 3, DestMeta::Present(3)),
        entry("/src/c.txt", true, 3, DestMeta::Present(9)),
        entry("/src/d.txt", true, 3, DestMeta::Unreadable),
        entry("/src/sub", false, 1, DestMeta::Missing),
    ];
    assert_eq!(app().initial_sync(&entries), strings(&["/src/a.txt", "/src/c.txt"]));
}

#[test]
fn sweep_of_empty_tree() {
    assert!(app().initial_sync(&Vec::new()).is_empty());
}

#[test]
fn reconcile_then_remove_scenario() {
    let a = app();
    let entries = vec![entry("/src/a.txt", true, 10, DestMeta::Missing)];
    let to_copy = a.initial_sync(&entries);
    assert_eq!(to_copy, strings(&["/src/a.txt"]));
    match a.copy(&to_copy[0], false) {
        Ok(FsOp::CopyFile(s, d)) => {
            assert_eq!(s, "/src/a.txt");
            assert_eq!(d, "/dst/a.txt");
        }
        _ => panic!("expected a file copy"),
    }
    let mut t = EventTranslator::new();
    let actions = t.handle(EventKind::Remove, strings(&["/src/a.txt"]));
    assert_eq!(actions.len(), 1);
    match &actions[0] {
        Action::Remove(p) => match a.remove(p, false) {
            Ok(FsOp::RemoveFile(d)) => assert_eq!(d, "/dst/a.txt"),
            _ => panic!("expected a file removal"),
        },
        _ => panic!("expected a remove action"),
    }
}

#[test]
fn rename_single_file_scenario() {
    let a = app();
    let mut t = EventTranslator::new();
    assert!(t.handle(EventKind::RenameFrom, strings(&["/src/old.txt"])).is_empty());
    assert!(t.awaiting_rename_target());
    let actions = t.handle(EventKind::RenameTo, strings(&["/src/new.txt"]));
    assert!(!t.awaiting_rename_target());
    assert_eq!(actions.len(), 1);
    match &actions[0] {
        Action::Rename(from, to) => match a.rename(from, to) {
            Ok(FsOp::Rename(x, y)) => {
                assert_eq!(x, "/dst/old.txt");
                assert_eq!(y, "/dst/new.txt");
            }
            _ => panic!("expected a rename"),
        },
        _ => panic!("expected a rename action"),
    }
}

#[test]
fn rename_pairs_from_the_back() {
    let mut t = EventTranslator::new();
    t.handle(EventKind::RenameFrom, strings(&["a", "b"]));
    let actions = t.handle(EventKind::RenameTo, strings(&["a2", "b2"]));
    assert_eq!(actions.len(), 2);
    assert!(matches!(&actions[0], Action::Rename(x, y) if x == "b" && y == "b2"));
    assert!(matches!(&actions[1], Action::Rename(x, y) if x == "a" && y == "a2"));
}

#[test]
fn rename_with_too_few_new_paths() {
    let mut t = EventTranslator::new();
    t.handle(EventKind::RenameFrom, strings(&["a", "b"]));
    let actions = t.handle(EventKind::RenameTo, strings(&["b2"]));
    assert_eq!(actions.len(), 2);
    assert!(matches!(&actions[0], Action::Rename(x, y) if x == "b" && y == "b2"));
    assert!(matches!(&actions[1], Action::Unmatched(x) if x == "a"));
}

#[test]
fn rename_to_while_idle_is_unhandled() {
    let mut t = EventTranslator::new();
    let actions = t.handle(EventKind::RenameTo, strings(&["x"]));
    assert_eq!(actions.len(), 1);
    assert!(matches!(actions[0], Action::Unhandled));
    assert!(!t.awaiting_rename_target());
}

#[test]
fn new_rename_from_discards_stale_one() {
    let mut t = EventTranslator::new();
    t.handle(EventKind::RenameFrom, strings(&["old1"]));
    let actions = t.handle(EventKind::RenameFrom, strings(&["old2"]));
    assert_eq!(actions.len(), 1);
    assert!(matches!(&actions[0], Action::Discarded(x) if x == "old1"));
    let actions = t.handle(EventKind::RenameTo, strings(&["new2"]));
    assert!(matches!(&actions[0], Action::Rename(x, y) if x == "old2" && y == "new2"));
}

#[test]
fn create_and_modify_copy_every_path() {
    let mut t = EventTranslator::new();
    let actions = t.handle(EventKind::Create, strings(&["/src/a", "/src/b"]));
    assert_eq!(actions.len(), 2);
    assert!(matches!(&actions[0], Action::Copy(p) if p == "/src/a"));
    assert!(matches!(&actions[1], Action::Copy(p) if p == "/src/b"));
    let actions = t.handle(EventKind::Modify, strings(&["/src/c"]));
    assert!(matches!(&actions[0], Action::Copy(p) if p == "/src/c"));
}

#[test]
fn other_kinds_are_unhandled() {
    let mut t = EventTranslator::new();
    assert!(matches!(t.handle(EventKind::Other, strings(&["/src/a"]))[0], Action::Unhandled));
    assert!(matches!(t.handle(EventKind::RenameOther, strings(&["/src/a"]))[0], Action::Unhandled));
}

#[test]
fn copy_of_directory_creates_it() {
    match app().copy("/src/sub", true) {
        Ok(FsOp::CreateDirAll(d)) => assert_eq!(d, "/dst/sub"),
        _ => panic!("expected a directory creation"),
    }
}

#[test]
fn copy_twice_asks_for_the_same_operation() {
    let a = app();
    for _ in 0..2 {
        match a.copy("/src/a.txt", false) {
            Ok(FsOp::CopyFile(s, d)) => {
                assert_eq!(s, "/src/a.txt");
                assert_eq!(d, "/dst/a.txt");
            }
            _ => panic!("expected a file copy"),
        }
    }
}

#[test]
fn copy_outside_root_fails() {
    assert!(matches!(app().copy("/elsewhere/a", false), Err(AppError::PathErr(_))));
}

#[test]
fn missing_parent_is_created_then_copy_retried() {
    let op = app().copy("/src/new/dir/f.txt", false).ok().unwrap();
    match App::copy_recovery(&op, IoFailure::NotFound) {
        Some((FsOp::CreateDirAll(p), FsOp::CopyFile(s, d))) => {
            assert_eq!(p, "/dst/new/dir");
            assert_eq!(s, "/src/new/dir/f.txt");
            assert_eq!(d, "/dst/new/dir/f.txt");
        }
        _ => panic!("expected a recovery"),
    }
}

#[test]
fn other_copy_failures_are_final() {
    let op = app().copy("/src/f.txt", false).ok().unwrap();
    assert!(App::copy_recovery(&op, IoFailure::Other).is_none());
    let dir = app().copy("/src/d", true).ok().unwrap();
    assert!(App::copy_recovery(&dir, IoFailure::NotFound).is_none());
}

#[test]
fn remove_of_directory() {
    match app().remove("/src/d", true) {
        Ok(FsOp::RemoveDir(d)) => assert_eq!(d, "/dst/d"),
        _ => panic!("expected a directory removal"),
    }
}

#[test]
fn rename_without_file_name_fails() {
    assert!(matches!(app().rename("/src/a", "/src/.."), Err(AppError::PathErr(_))));
}

#[test]
fn run_stages() {
    let a = app();
    assert!(matches!(a.run(Stage::CheckRoots, Ok(())), RunStep::Next(Stage::Reconcile)));
    assert!(matches!(a.run(Stage::Reconcile, Ok(())), RunStep::Next(Stage::Watch)));
    assert!(matches!(
        a.run(Stage::CheckRoots, Err(AppError::IoError(IoFailure::NotFound))),
        RunStep::Finish(Err(AppError::IoError(IoFailure::NotFound)))
    ));
    assert!(matches!(a.run(Stage::Reconcile, Err(AppError::SystemTime)), RunStep::Finish(Err(_))));
    assert!(matches!(
        a.run(Stage::Watch, Err(AppError::IoError(IoFailure::Other))),
        RunStep::Finish(Ok(()))
    ));
}
