use datarace::config::{
    create_dashboard_folder, create_ip_matcher, create_plugin_settings_folder,
    default_master_config, default_settings_ip_whitelist, get_master_config_path, read_config,
    serde_default_server_ip, serde_default_server_port, settle_master_config,
    validate_master_config_permissions, FolderStep, InitConfig, MasterConfig, PathRoot,
    PathString, PlatformDefaults, UserConfig,
};

fn strings(v: &[&str]) -> Vec<String> {
    v.iter().map(|s| s.to_string()).collect()
}

fn linux_defaults() -> PlatformDefaults {
    PlatformDefaults {
        dashboard_path: "~/.config/DataRace/Dashboards".to_string(),
        plugin_settings_path: "~/.config/DataRace/PluginSettings".to_string(),
        master_plugin_locations: strings(&["/usr/lib/DataRace"]),
        user_plugin_locations: strings(&["~/.local/share/DataRace/Plugins"]),
    }
}

#[test]
fn server_defaults() {
    assert_eq!(serde_default_server_ip(), "0.0.0.0");
    assert_eq!(serde_default_server_port(), 3939);
    assert_eq!(default_settings_ip_whitelist(), strings(&["localhost"]));
    assert_eq!(get_master_config_path(), "/etc/DataRace/MasterConfig.toml");
}

#[test]
fn master_config_must_be_root_owned_and_read_only() {
    assert!(validate_master_config_permissions(0, 0, 0o100644));
    assert!(!validate_master_config_permissions(0, 0, 0o100646));
    assert!(!validate_master_config_permissions(1000, 0, 0o100644));
    assert!(!validate_master_config_permissions(0, 1000, 0o100644));
}

#[test]
fn ip_whitelists() {
    assert_eq!(create_ip_matcher(true, strings(&["a"]), strings(&["b"]), true), Some(None));
    assert_eq!(create_ip_matcher(false, strings(&["a"]), strings(&[]), true), None);
    assert_eq!(
        create_ip_matcher(false, strings(&["a"]), strings(&["b"]), true),
        Some(Some(strings(&["b"])))
    );
    assert_eq!(
        create_ip_matcher(false, strings(&["a"]), strings(&["b"]), false),
        Some(Some(strings(&["a", "b"])))
    );
}

#[test]
fn generated_master_config() {
    let d = linux_defaults();
    let m = default_master_config(&d);
    assert!(!m.disable_web_server);
    assert_eq!(m.web_settings_ip_whitelist, strings(&["localhost"]));
    assert_eq!(m.plugin_locations, strings(&["/usr/lib/DataRace"]));
}

#[test]
fn unreadable_master_config_stops_release_builds() {
    assert!(settle_master_config(Err("missing".to_string()), false).is_none());
    let (m, errors) = settle_master_config(Err("missing".to_string()), true).unwrap();
    assert!(errors);
    assert!(m.plugin_locations.is_empty());
    let (_, errors) = settle_master_config(Ok(MasterConfig::default()), false).unwrap();
    assert!(!errors);
}

#[test]
fn configs_merge() {
    let d = linux_defaults();
    let mut master = MasterConfig::default();
    master.plugin_locations = strings(&["/opt/a"]);
    let mut user = UserConfig::with_defaults(&d);
    user.plugin_locations = strings(&["/home/b"]);
    user.web_server_port = 8080;
    let init = InitConfig { dashboards_folder: Some("/tmp/dash".to_string()), plugin_settings_folder: None, local_dev: false };
    let (plan, errors) = read_config(master, false, Ok(user), init, false, &d).unwrap();
    assert!(!errors);
    assert_eq!(plan.web_server_port, 8080);
    assert_eq!(plan.plugin_locations, strings(&["/opt/a", "/home/b"]));
    assert_eq!(plan.dashboards_location, "/tmp/dash");
    assert_eq!(plan.plugin_settings_location, "~/.config/DataRace/PluginSettings");
    assert_eq!(plan.web_settings_whitelist, Some(strings(&["localhost"])));
}

#[test]
fn master_config_can_disable_user_locations_and_server() {
    let d = linux_defaults();
    let mut master = MasterConfig::default();
    master.disable_user_plugin_locations = true;
    master.disable_web_server = true;
    master.plugin_locations = strings(&["/opt/a"]);
    let init = InitConfig { dashboards_folder: None, plugin_settings_folder: None, local_dev: true };
    let (plan, errors) = read_config(master, false, Err("broken".to_string()), init, true, &d).unwrap();
    assert!(errors);
    assert!(plan.disable_web_server);
    assert_eq!(plan.web_ip_whitelist, None);
    assert_eq!(plan.plugin_locations, strings(&["./Plugins", "/opt/a"]));
}

#[test]
fn forced_empty_whitelist_stops_the_launch() {
    let d = linux_defaults();
    let mut master = MasterConfig::default();
    master.web_force_ip_whitelist = true;
    let init = InitConfig { dashboards_folder: None, plugin_settings_folder: None, local_dev: false };
    assert!(read_config(master, false, Ok(UserConfig::with_defaults(&d)), init, false, &d).is_none());
}

#[test]
fn path_roots_on_linux() {
    let p = PathString("~/Plugins".to_string());
    assert_eq!(p.path_root(false), (PathRoot::Home, "Plugins".to_string()));
    assert_eq!(PathString("./x\\y".to_string()).path_root(false), (PathRoot::CurrentDir, "x/y".to_string()));
    assert_eq!(PathString(":/Plugins".to_string()).path_root(false), (PathRoot::InstallDir, "Plugins".to_string()));
    assert_eq!(PathString("/usr/lib".to_string()).path_root(false), (PathRoot::AsWritten, "/usr/lib".to_string()));
}

#[test]
fn path_roots_on_windows() {
    assert_eq!(PathString(":\\Plugins".to_string()).path_root(true), (PathRoot::CurrentDir, "Plugins".to_string()));
    assert_eq!(PathString("~/a/b".to_string()).path_root(true), (PathRoot::Home, "a\\b".to_string()));
    assert_eq!(PathString("C:/x".to_string()).path_root(true), (PathRoot::AsWritten, "C./x".to_string()));
}

#[test]
fn folder_search_falls_back_once() {
    let d = linux_defaults();
    let mut errors = false;
    let mut s = create_dashboard_folder("/bad".to_string(), &d);
    assert_eq!(s.create_thing_folder(false, &mut errors), FolderStep::Attempt("~/.config/DataRace/Dashboards".to_string()));
    assert!(errors);
    assert_eq!(s.create_thing_folder(true, &mut errors), FolderStep::Found("~/.config/DataRace/Dashboards".to_string()));
    let mut t = create_plugin_settings_folder("/bad".to_string(), &d);
    t.create_thing_folder(false, &mut errors);
    assert_eq!(t.create_thing_folder(false, &mut errors), FolderStep::Failed);
}
