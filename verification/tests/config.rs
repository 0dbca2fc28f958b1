use sysmon::config::{config_file_name, config_location, ConfigLocation};

fn parts(location: ConfigLocation) -> Option<Vec<String>> {
    match location {
        ConfigLocation::WorkingDirectory => None,
        ConfigLocation::UserDirectory(p) => Some(p),
    }
}

#[test]
fn local_config_comes_first() {
    let loc = config_location(true, false, None, Some("/home/ada".to_string()));
    assert!(parts(loc).is_none());
    assert_eq!(config_file_name(), "config.lua");
}

#[test]
fn unix_config_lives_under_dot_config() {
    let loc = config_location(false, false, Some("C:/x".to_string()), Some("/home/ada".to_string()));
    assert_eq!(parts(loc).unwrap(), vec!["/home/ada", ".config", "sysmon"]);
    let loc = config_location(false, false, None, None);
    assert_eq!(parts(loc).unwrap(), vec![".", ".config", "sysmon"]);
}

#[test]
fn windows_config_lives_under_appdata() {
    let loc = config_location(false, true, Some("C:/Users/ada/AppData".to_string()), None);
    assert_eq!(parts(loc).unwrap(), vec!["C:/Users/ada/AppData", "sysmon"]);
    let loc = config_location(false, true, None, Some("/home/ada".to_string()));
    assert_eq!(parts(loc).unwrap(), vec![".", "sysmon"]);
}
