use core_dump_agent::config::{
    command_of, core_dir, deployed_files, env_file_text, flag_enabled, load_config,
    parse_interval, region_choice, same_text, vendor_from_lowered, Command, ConfigError,
    RegionChoice, Settings, Vendor, DEFAULT_INTERVAL_MS,
};

fn unset() -> Settings {
    Settings {
        host_dir: None,
        suid_dumpable: None,
        interval: None,
        deploy_crio_config: None,
        deploy_crio_exe: None,
        vendor: None,
    }
}

#[test]
fn interval_parsing() {
    assert_eq!(parse_interval("60000"), Ok(60000));
    assert_eq!(parse_interval("+15"), Ok(15));
    assert_eq!(parse_interval("0"), Ok(0));
    assert_eq!(parse_interval("18446744073709551615"), Ok(u64::MAX));
    assert_eq!(parse_interval("18446744073709551616"), Err(ConfigError::IntervalTooLarge));
    assert_eq!(parse_interval(""), Err(ConfigError::BadInterval));
    assert_eq!(parse_interval("+"), Err(ConfigError::BadInterval));
    assert_eq!(parse_interval("-5"), Err(ConfigError::BadInterval));
    assert_eq!(parse_interval("12s"), Err(ConfigError::BadInterval));
}

#[test]
fn defaults_when_nothing_is_set() {
    let c = load_config(&unset()).unwrap();
    assert_eq!(c.host_dir, "/var/mnt/core-dump-handler");
    assert_eq!(c.suid_dumpable, "2");
    assert_eq!(c.interval_ms, DEFAULT_INTERVAL_MS);
    assert!(!c.deploy_crio_config);
    assert!(!c.deploy_crio_exe);
    assert_eq!(c.vendor, Vendor::Default);
}

#[test]
fn settings_are_taken_over() {
    let mut s = unset();
    s.host_dir = Some("/mnt/h".to_string());
    s.suid_dumpable = Some("1".to_string());
    s.interval = Some("500".to_string());
    s.deploy_crio_config = Some("TRUE".to_string());
    s.deploy_crio_exe = Some("yes".to_string());
    s.vendor = Some("RHEL7".to_string());
    let c = load_config(&s).unwrap();
    assert_eq!(c.host_dir, "/mnt/h");
    assert_eq!(c.suid_dumpable, "1");
    assert_eq!(c.interval_ms, 500);
    assert!(c.deploy_crio_config);
    assert!(!c.deploy_crio_exe);
    assert_eq!(c.vendor, Vendor::Rhel7);
    assert_eq!(c.vendor.composer_source(), "./vendor/rhel7/cdc");
    assert_eq!(Vendor::Default.composer_source(), "./vendor/default/cdc");
}

#[test]
fn config_errors() {
    let mut s = unset();
    s.interval = Some("soon".to_string());
    assert_eq!(load_config(&s).err(), Some(ConfigError::BadInterval));
    s.interval = Some("99999999999999999999".to_string());
    assert_eq!(load_config(&s).err(), Some(ConfigError::IntervalTooLarge));
    s.interval = None;
    s.vendor = Some("acme".to_string());
    assert_eq!(load_config(&s).err(), Some(ConfigError::UnknownVendor));
}

#[test]
fn flags_and_vendor_names() {
    assert!(flag_enabled("true"));
    assert!(flag_enabled("True"));
    assert!(!flag_enabled("false"));
    assert!(!flag_enabled(""));
    assert_eq!(vendor_from_lowered("default"), Some(Vendor::Default));
    assert_eq!(vendor_from_lowered("rhel7"), Some(Vendor::Rhel7));
    assert_eq!(vendor_from_lowered("RHEL7"), None);
    assert!(same_text("abc", "abc"));
    assert!(!same_text("abc", "abd"));
}

#[test]
fn command_selection() {
    assert_eq!(command_of(Some("remove")), Command::Remove);
    assert_eq!(command_of(Some("install")), Command::Install);
    assert_eq!(command_of(Some("")), Command::Install);
    assert_eq!(command_of(None), Command::Install);
}

#[test]
fn env_file_lowercases_the_flags() {
    assert_eq!(
        env_file_text("error", "TRUE", "img", "False"),
        "LOG_LEVEL=error\nIGNORE_CRIO=true\nCRIO_IMAGE_CMD=img\nUSE_CRIO_CONF=false\n"
    );
}

#[test]
fn region_choice_prefers_custom_endpoint() {
    match region_choice("eu-west-1".to_string(), String::new()) {
        RegionChoice::Named(n) => assert_eq!(n, "eu-west-1"),
        RegionChoice::Custom { .. } => panic!("expected a named region"),
    }
    match region_choice("local".to_string(), "http://minio:9000".to_string()) {
        RegionChoice::Custom { region, endpoint } => {
            assert_eq!(region, "local");
            assert_eq!(endpoint, "http://minio:9000");
        }
        RegionChoice::Named(_) => panic!("expected a custom endpoint"),
    }
}

#[test]
fn paths_under_the_managed_directory() {
    assert_eq!(core_dir("/h"), "/h/core");
    let files: Vec<(String, bool)> =
        deployed_files("/h").into_iter().map(|f| (f.path, f.required)).collect();
    assert_eq!(
        files,
        vec![
            ("/h/cdc".to_string(), true),
            ("/h/.env".to_string(), true),
            ("/h/crictl".to_string(), false),
            ("/h/crictl.yaml".to_string(), false),
            ("/h/composer.log".to_string(), false),
        ]
    );
}
