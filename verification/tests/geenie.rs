use bycat_http::geenie::error::GeenieError;
use bycat_http::geenie::item::PackageItem;
use bycat_http::geenie::mount::{
    finish_mounted, mount_files, mounted_follow_ups, mounted_path, MountItem,
};
use bycat_http::geenie::process::process;
use bycat_http::geenie::result::{stops_writing, write_batches, FileList, Package, ResultBuilder};
use bycat_http::geenie::run::Geenie;

fn pkg(path: &str, content: u8) -> Package<u8> {
    Package { path: path.to_string(), content }
}

fn paths(files: &[Package<u8>]) -> Vec<String> {
    files.iter().map(|f| f.path.clone()).collect()
}

#[test]
fn duplicate_path_is_refused_and_changes_nothing() {
    let mut b: ResultBuilder<u8, ()> = ResultBuilder::new();
    assert!(b.push_file(pkg("a.rs", 1)).is_ok());
    assert!(b.contains_path(&"a.rs".to_string()));
    match b.push_file(pkg("a.rs", 2)) {
        Err(GeenieError::Duplicate { path }) => assert_eq!(path, "a.rs"),
        _ => panic!("expected a duplicate"),
    }
    let (files, cmds) = b.take_files();
    assert_eq!(files.len(), 1);
    assert_eq!(files[0].content, 1);
    assert!(cmds.is_empty());
}

#[test]
fn push_files_stops_at_first_duplicate() {
    let mut b: ResultBuilder<u8, &str> = ResultBuilder::new();
    b.push_command("cargo fmt");
    let r = b.push_files(vec![pkg("a", 1), pkg("b", 2), pkg("a", 3), pkg("c", 4)]);
    match r {
        Err(GeenieError::Duplicate { path }) => assert_eq!(path, "a"),
        _ => panic!("expected a duplicate"),
    }
    let result = b.build();
    assert_eq!(paths(&result.files), vec!["a".to_string(), "b".to_string()]);
    assert_eq!(result.commands, vec!["cargo fmt"]);
}

#[test]
fn mounted_paths() {
    assert_eq!(mounted_path("src", "main.rs"), "src/main.rs");
    assert_eq!(mounted_path("src/", "main.rs"), "src/main.rs");
    assert_eq!(mounted_path("src", "/main.rs"), "src/main.rs");
    assert_eq!(mounted_path("", "main.rs"), "main.rs");
}

#[test]
fn mount_files_places_files_under_the_mount() {
    let mut b: ResultBuilder<u8, ()> = ResultBuilder::new();
    assert!(b.push_file(pkg("Cargo.toml", 0)).is_ok());
    assert!(mount_files(&mut b, "crates/web", vec![pkg("lib.rs", 1), pkg("/mod.rs", 2)]).is_ok());
    match mount_files(&mut b, "crates", vec![pkg("web/lib.rs", 3)]) {
        Err(GeenieError::Duplicate { path }) => assert_eq!(path, "crates/web/lib.rs"),
        _ => panic!("expected a duplicate"),
    }
    let (files, _) = b.take_files();
    assert_eq!(
        paths(&files),
        vec![
            "Cargo.toml".to_string(),
            "crates/web/lib.rs".to_string(),
            "crates/web/mod.rs".to_string()
        ]
    );
}

#[test]
fn mount_item_keeps_its_mount() {
    let m = MountItem::new("docs", 1u8);
    assert_eq!(m.mount(), "docs");
    assert_eq!(PackageItem::new(pkg("x", 9)).into_file().content, 9);
}

#[test]
fn files_are_written_in_batches_of_ten() {
    assert!(write_batches(0).is_empty());
    assert_eq!(write_batches(10), vec![(0, 10)]);
    assert_eq!(write_batches(23), vec![(0, 10), (10, 20), (20, 23)]);
    assert_eq!(write_batches(3), vec![(0, 3)]);
}

#[test]
fn only_io_failures_stop_writing() {
    assert!(!stops_writing(&Ok(())));
    assert!(stops_writing(&Err(GeenieError::Io("denied".to_string()))));
    assert!(!stops_writing(&Err(GeenieError::already_exists("a".to_string()))));
}

#[test]
fn file_list_appends() {
    let mut l = FileList { files: Vec::new() };
    l.push(pkg("one", 1));
    l.push(pkg("two", 2));
    assert_eq!(paths(&l.files), vec!["one".to_string(), "two".to_string()]);
}

#[test]
fn items_run_depth_first() {
    let mut g = Geenie::new();
    g.push("a");
    g.push("b");
    let mut run = g.into_run();
    let first = run.next();
    assert_eq!(first, Some("a"));
    run.follow_up(vec!["a1", "a2"]);
    let mut order = vec![first.unwrap()];
    while let Some(it) = run.next() {
        order.push(it);
    }
    assert_eq!(order, vec!["a", "a1", "a2", "b"]);
}

#[test]
fn process_command_line() {
    let p = process("cargo").arg("add").arg("serde").output(true);
    assert_eq!(p.program(), "cargo");
    assert_eq!(p.arguments(), &vec!["add".to_string(), "serde".to_string()]);
    assert!(p.output_shown());
    assert_eq!(p.command_line(), "cargo add serde");
    assert_eq!(p.start_message(), "Executing cargo add serde");
    assert_eq!(p.done_message(), "Executed cargo add serde");
    assert_eq!(process("ls").command_line(), "ls ");
}

#[test]
fn paths_are_compared_by_components() {
    let mut b: ResultBuilder<u8, ()> = ResultBuilder::new();
    assert!(b.push_file(pkg("src/lib.rs", 1)).is_ok());
    match b.push_file(pkg("src//lib.rs/", 2)) {
        Err(GeenieError::Duplicate { path }) => assert_eq!(path, "src//lib.rs/"),
        _ => panic!("expected a duplicate"),
    }
    assert!(b.contains_path(&"/src/lib.rs".to_string()));
    assert!(!b.contains_path(&"./src/lib.rs".to_string()));
    assert!(b.push_file(pkg("./src/lib.rs", 3)).is_ok());
    assert!(b.push_file(pkg("src/../lib.rs", 4)).is_ok());
    let (files, _) = b.take_files();
    assert_eq!(files.len(), 3);
}

#[test]
fn mounted_follow_ups_stay_under_the_mount() {
    let items = mounted_follow_ups("web", vec![1u8, 2, 3]);
    assert_eq!(items.len(), 3);
    for (i, m) in items.into_iter().enumerate() {
        let (item, mount) = m.into_parts();
        assert_eq!(item as usize, i + 1);
        assert_eq!(mount, "web");
    }
}

#[test]
fn finish_mounted_adds_files_then_follow_ups() {
    let mut b: ResultBuilder<u8, ()> = ResultBuilder::new();
    match finish_mounted(&mut b, "web", vec![pkg("lib.rs", 1)], vec!["next"]) {
        Ok(items) => {
            assert_eq!(items.len(), 1);
            assert_eq!(items[0].mount(), "web");
        }
        Err(_) => panic!("expected follow-ups"),
    }
    match finish_mounted(&mut b, "web/", vec![pkg("/lib.rs", 2)], vec!["lost"]) {
        Err(GeenieError::Duplicate { path }) => assert_eq!(path, "web/lib.rs"),
        _ => panic!("expected a duplicate"),
    }
    let (files, _) = b.take_files();
    assert_eq!(paths(&files), vec!["web/lib.rs".to_string()]);
}
