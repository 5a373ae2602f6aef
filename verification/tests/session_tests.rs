use messier::listing::EntryKind;
use messier::listing::RawChild;
use messier::listing::RawDir;
use messier::listing::RawEntry;
use messier::listing::RawMeta;
use messier::navigation::FilesystemError;
use messier::navigation::Location;
use messier::navigation::NavigationError;
use messier::session::Activation;
use messier::session::ListingSession;

fn file(name: &str, size: u64) -> RawEntry {
    RawEntry {
        name: String::from(name),
        meta: Some(RawMeta::FileMeta { size, modified_secs: 0 }),
    }
}

fn folder(name: &str, children: Vec<RawChild>) -> RawEntry {
    RawEntry {
        name: String::from(name),
        meta: Some(RawMeta::FolderMeta { children, modified_secs: 0 }),
    }
}

fn location(parts: &[&str]) -> Location {
    Location { parts: parts.iter().map(|p| String::from(*p)).collect() }
}

fn sample_session() -> ListingSession {
    let raw = RawDir {
        entries: vec![file("readme.txt", 500), folder("docs", vec![])],
    };
    ListingSession::new(location(&["tmp", "x"]), false, &raw)
}

#[test]
fn location_display_forms() {
    assert_eq!(Location::root().display(), "/");
    assert_eq!(location(&["tmp"]).display(), "/tmp");
    assert_eq!(location(&["tmp", "x"]).display(), "/tmp/x");
}

#[test]
fn snapshot_exposes_location_and_rows() {
    let session = sample_session();
    let (shown, listing) = session.get_current_listing();
    assert_eq!(shown, "/tmp/x");
    assert_eq!(listing.entries.len(), 2);
    assert_eq!(listing.entries[0].name, "docs");
    assert_eq!(listing.entries[1].name, "readme.txt");
}

#[test]
fn go_up_at_root_is_rejected_without_change() {
    let raw = RawDir { entries: vec![] };
    let session = ListingSession::new(Location::root(), false, &raw);
    match session.go_up() {
        Err(e) => assert_eq!(e, NavigationError::AtRoot),
        Ok(_) => panic!("expected a rejection at the root"),
    }
    // The session still browses the root with its old listing.
    let (shown, listing) = session.get_current_listing();
    assert_eq!(shown, "/");
    assert_eq!(listing.entries.len(), 0);
}

#[test]
fn go_up_plans_the_parent() {
    let session = sample_session();
    let parent = session.go_up().unwrap();
    assert_eq!(parent.display(), "/tmp");
    // Planning alone does not move the session.
    assert_eq!(session.get_current_listing().0, "/tmp/x");
}

#[test]
fn enter_a_file_is_rejected_without_change() {
    let session = sample_session();
    match session.enter(&String::from("readme.txt")) {
        Err(e) => assert_eq!(e, NavigationError::NotAFolder),
        Ok(_) => panic!("expected a rejection of a file"),
    }
    assert_eq!(session.get_current_listing().0, "/tmp/x");
}

#[test]
fn enter_an_unknown_name_is_rejected() {
    let session = sample_session();
    match session.enter(&String::from("nowhere")) {
        Err(e) => assert_eq!(e, NavigationError::NoSuchEntry),
        Ok(_) => panic!("expected a rejection of an unknown name"),
    }
}

#[test]
fn enter_a_folder_and_commit() {
    let mut session = sample_session();
    let target = session.enter(&String::from("docs")).unwrap();
    assert_eq!(target.display(), "/tmp/x/docs");
    let inside = RawDir { entries: vec![file("guide.md", 2048)] };
    let show = session.nav.show_hidden;
    session.commit(target, show, Ok(inside)).unwrap();
    let (shown, listing) = session.get_current_listing();
    assert_eq!(shown, "/tmp/x/docs");
    assert_eq!(listing.entries.len(), 1);
    assert_eq!(listing.entries[0].name, "guide.md");
    assert_eq!(listing.entries[0].size_display, "2 kB");
}

#[test]
fn failed_enumeration_leaves_the_session_unchanged() {
    let failures = [
        FilesystemError::NotFound,
        FilesystemError::NotADirectory,
        FilesystemError::PermissionDenied,
        FilesystemError::Other,
    ];
    for failure in failures {
        let mut session = sample_session();
        let target = session.enter(&String::from("docs")).unwrap();
        let outcome = session.commit(target, false, Err(failure));
        assert_eq!(outcome, Err(failure));
        let (shown, listing) = session.get_current_listing();
        assert_eq!(shown, "/tmp/x");
        assert_eq!(listing.entries.len(), 2);
    }
}

#[test]
fn activate_a_file_yields_its_path() {
    let session = sample_session();
    match session.activate(&String::from("readme.txt")) {
        Ok(Activation::OpenFile(path)) => assert_eq!(path, "/tmp/x/readme.txt"),
        _ => panic!("expected an open request"),
    }
}

#[test]
fn activate_a_folder_plans_descent() {
    let session = sample_session();
    match session.activate(&String::from("docs")) {
        Ok(Activation::EnterFolder(l)) => assert_eq!(l.display(), "/tmp/x/docs"),
        _ => panic!("expected a descent"),
    }
}

#[test]
fn activate_an_unknown_name_is_rejected() {
    let session = sample_session();
    match session.activate(&String::from("ghost")) {
        Err(e) => assert_eq!(e, NavigationError::NoSuchEntry),
        Ok(_) => panic!("expected a rejection"),
    }
}

#[test]
fn toggle_twice_restores_the_listing() {
    let raw = RawDir {
        entries: vec![
            file("shown.txt", 100),
            file(".hidden", 5),
            folder("d", vec![RawChild { name: String::from(".h"), classified: true }]),
        ],
    };
    let mut session = ListingSession::new(location(&["tmp"]), false, &raw);
    let before: Vec<(String, EntryKind, String)> = session
        .listing
        .entries
        .iter()
        .map(|e| (e.name.clone(), e.kind, e.size_display.clone()))
        .collect();

    let flag = session.toggle_hidden();
    assert!(flag);
    let target = session.current_location();
    session
        .commit(target, flag, Ok(clone_raw(&raw)))
        .unwrap();
    assert_eq!(session.listing.entries.len(), 3);
    assert_eq!(session.listing.entries[0].size_display, "1 items");

    let flag = session.toggle_hidden();
    assert!(!flag);
    let target = session.current_location();
    session
        .commit(target, flag, Ok(clone_raw(&raw)))
        .unwrap();

    let after: Vec<(String, EntryKind, String)> = session
        .listing
        .entries
        .iter()
        .map(|e| (e.name.clone(), e.kind, e.size_display.clone()))
        .collect();
    assert_eq!(before, after);
}

fn clone_raw(raw: &RawDir) -> RawDir {
    RawDir {
        entries: raw
            .entries
            .iter()
            .map(|e| RawEntry {
                name: e.name.clone(),
                meta: match &e.meta {
                    None => None,
                    Some(RawMeta::OtherMeta) => Some(RawMeta::OtherMeta),
                    Some(RawMeta::FileMeta { size, modified_secs }) => {
                        Some(RawMeta::FileMeta { size: *size, modified_secs: *modified_secs })
                    }
                    Some(RawMeta::FolderMeta { children, modified_secs }) => {
                        Some(RawMeta::FolderMeta {
                            children: children
                                .iter()
                                .map(|c| RawChild { name: c.name.clone(), classified: c.classified })
                                .collect(),
                            modified_secs: *modified_secs,
                        })
                    }
                },
            })
            .collect(),
    }
}
