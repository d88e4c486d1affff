use datarace::loader::{
    is_plugin_file, LocationAnswer, LocationKind, LocationRequest, PluginLocationIter,
};

#[test]
fn plugin_files_have_the_library_extension() {
    assert!(is_plugin_file("/usr/lib/DataRace/libsample.so", true, false));
    assert!(!is_plugin_file("/usr/lib/DataRace/libsample.so", false, false));
    assert!(!is_plugin_file("/usr/lib/DataRace/readme.txt", true, false));
    assert!(!is_plugin_file("/usr/lib/DataRace/.so", true, false));
    assert!(is_plugin_file("/x/a.b.so", true, false));
    assert!(!is_plugin_file("/x.so/plain", true, false));
    assert!(!is_plugin_file("C:\\Plugins\\sample.so", true, true));
    assert!(is_plugin_file("C:\\Plugins\\sample.dll", true, true));
    assert!(!is_plugin_file("..", true, false));
    assert!(!is_plugin_file("lib.so.1", true, false));
}

#[test]
fn locations_are_searched_in_order() {
    let mut it = PluginLocationIter::new(vec![
        "/plugins".to_string(),
        "/single/lib.so".to_string(),
        "/missing".to_string(),
        "/locked".to_string(),
    ]);
    let mut found = Vec::new();
    assert!(matches!(it.request(), Some(LocationRequest::Inspect(p)) if p == "/plugins"));
    assert_eq!(it.next(LocationAnswer::Location(LocationKind::Directory), false), None);
    assert!(matches!(it.request(), Some(LocationRequest::NextEntry)));
    found.push(it.next(LocationAnswer::Entry(Some(Ok(("/plugins/a.so".to_string(), true)))), false));
    found.push(it.next(LocationAnswer::Entry(Some(Ok(("/plugins/notes.txt".to_string(), true)))), false));
    found.push(it.next(LocationAnswer::Entry(Some(Err("denied".to_string()))), false));
    found.push(it.next(LocationAnswer::Entry(None), false));
    assert!(matches!(it.request(), Some(LocationRequest::Inspect(p)) if p == "/single/lib.so"));
    found.push(it.next(LocationAnswer::Location(LocationKind::File), false));
    found.push(it.next(LocationAnswer::Location(LocationKind::Missing), false));
    found.push(it.next(LocationAnswer::Location(LocationKind::UnreadableDirectory("no access".to_string())), false));
    assert!(it.request().is_none());
    assert_eq!(
        found,
        vec![
            Some(Ok("/plugins/a.so".to_string())),
            None,
            Some(Err("denied".to_string())),
            None,
            Some(Ok("/single/lib.so".to_string())),
            Some(Err("/missing Does Not Exist!".to_string())),
            Some(Err("Unable to read folder no access".to_string())),
        ]
    );
}
