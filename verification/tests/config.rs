use pihole_api::env::{Config, Env, Files, General, PiholeFile, WebConfig};
use pihole_api::util::ErrorKind;

#[test]
fn valid_config() {
    let config = Config::default();
    assert!(config.is_valid());
}

/// The defaults of the config
#[test]
fn default_config_values() {
    let config = Config::default();
    assert_eq!(config.general.address, "0.0.0.0");
    assert_eq!(config.general.port, 80);
    assert_eq!(config.web.path, "/admin");
    assert!(config.web.enabled);
    assert!(config.web.root_redirect);
    assert_eq!(config.file_locations.whitelist, "/etc/pihole/whitelist.txt");
    assert_eq!(config.file_locations.ftl_config, "/etc/pihole/pihole-FTL.conf");
}

/// A port which does not exist, a relative path or an empty address make a config invalid
#[test]
fn invalid_configs() {
    let mut config = Config::default();
    config.general.port = 65536;
    assert!(!config.is_valid());
    config.general.port = 65535;
    assert!(config.is_valid());

    let general = General { address: String::new(), port: 80 };
    assert!(!general.is_valid());

    let mut files = Files::default();
    assert!(files.is_valid());
    files.regexlist = "regex.list".to_owned();
    assert!(!files.is_valid());

    let web = WebConfig { enabled: true, path: "admin".to_owned(), root_redirect: true };
    assert!(!web.is_valid());
    let web = WebConfig { enabled: true, path: String::new(), root_redirect: true };
    assert!(!web.is_valid());
}

/// The API is mounted under the web path, and the root leads on unless the
/// web interface is at the root or is off
#[test]
fn web_mounts() {
    let web = WebConfig::default();
    assert_eq!(web.api_mount_path(), "/admin/api");
    assert!(web.root_redirect_enabled());

    let at_root = WebConfig { enabled: true, path: "/".to_owned(), root_redirect: true };
    assert_eq!(at_root.api_mount_path(), "/api");
    assert!(!at_root.root_redirect_enabled());

    let off = WebConfig { enabled: false, path: "/admin".to_owned(), root_redirect: true };
    assert!(!off.root_redirect_enabled());
    let no_redirect = WebConfig { enabled: true, path: "/admin".to_owned(), root_redirect: false };
    assert!(!no_redirect.root_redirect_enabled());
}

/// The environment holds the files by their lines
#[test]
fn env_files() {
    let env = Env::test(Config::default());
    assert!(env.is_test());
    assert!(!env.file_exists(PiholeFile::Whitelist));
    assert_eq!(
        env.read_file_lines(PiholeFile::Whitelist).unwrap_err().kind(),
        ErrorKind::FileRead
    );
    assert_eq!(env.file_location(PiholeFile::SetupVars), "/etc/pihole/setupVars.conf");

    let mut env = env.file(PiholeFile::Whitelist, "a\n\nb");
    assert!(env.file_exists(PiholeFile::Whitelist));
    assert!(!env.file_exists(PiholeFile::Blacklist));
    assert_eq!(
        env.read_file_lines(PiholeFile::Whitelist).unwrap(),
        &vec!["a".to_owned(), String::new(), "b".to_owned()]
    );
    env.write_file_lines(PiholeFile::Blacklist, vec!["c".to_owned()]);
    assert_eq!(env.take_file_lines(PiholeFile::Blacklist), Some(vec!["c".to_owned()]));
    assert!(!env.file_exists(PiholeFile::Blacklist));
    assert!(!Env::production(Config::default()).is_test());
}
