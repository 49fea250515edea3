use pihole_api::databases::common::{
    load_ftl_db_config, load_gravity_db_config, CustomDBConfig, DatabaseService,
    FakeDatabaseService,
};
use pihole_api::env::{Config, Env, PiholeFile};
use pihole_api::routes::settings::ftl::{get_ftl, FtlSettingsReply};
use pihole_api::routes::settings::network::{network_settings, strip_prefix_length, NetworkSettings};
use pihole_api::settings::{
    find_setting, parse_privacy_level, FtlConfEntry, FtlPrivacyLevel, SetupVarsEntry,
};
use pihole_api::text::{
    parse_byte, parse_integer, parse_unsigned, split_lines, split_text, text_equal,
};
use pihole_api::util::ErrorKind;

fn env(file: PiholeFile, content: &str) -> Env {
    Env::test(Config::default()).file(file, content)
}

/// Test that correct settings are reported from populated file
#[test]
fn test_get_ftl_populated() {
    let env = env(
        PiholeFile::FtlConfig,
        "SOCKET_LISTENING=all\n\
         QUERY_DISPLAY=no\n\
         AAAA_QUERY_ANALYSIS=no\n\
         RESOLVE_IPV6=no\n\
         RESOLVE_IPV4=no\n\
         MAXDBDAYS=30\n\
         DBINTERVAL=3.0\n\
         DBFILE=/etc/pihole/test/pihole-FTL.db\n\
         MAXLOGAGE=48.0\n\
         FTLPORT=38911\n\
         PRIVACYLEVEL=2\n\
         IGNORE_LOCALHOST=yes\n\
         BLOCKINGMODE=NXDOMAIN\n\
         REGEX_DEBUGMODE=true\n",
    );
    let settings = get_ftl(&env).unwrap();
    assert_eq!(settings.db_interval.parse::<f32>(), Ok(3.0));
    assert_eq!(settings.max_log_age.parse::<f32>(), Ok(48.0));
    assert_eq!(
        settings,
        FtlSettingsReply {
            socket_listening: "all".to_owned(),
            query_display: "no".to_owned(),
            aaaa_query_analysis: "no".to_owned(),
            resolve_ipv6: "no".to_owned(),
            resolve_ipv4: "no".to_owned(),
            max_db_days: 30,
            db_interval: "3.0".to_owned(),
            db_file: "/etc/pihole/test/pihole-FTL.db".to_owned(),
            max_log_age: "48.0".to_owned(),
            ftl_port: 38911,
            privacy_level: 2,
            ignore_local_host: "yes".to_owned(),
            blocking_mode: "NXDOMAIN".to_owned(),
            regex_debug_mode: true,
        }
    );
    assert_eq!(FtlConfEntry::SocketListening.read(&env), "all");
    assert_eq!(FtlConfEntry::QueryDisplay.read(&env), "no");
    assert_eq!(FtlConfEntry::AaaaQueryAnalysis.read(&env), "no");
    assert_eq!(FtlConfEntry::ResolveIpv6.read(&env), "no");
    assert_eq!(FtlConfEntry::ResolveIpv4.read(&env), "no");
    assert_eq!(FtlConfEntry::MaxDbDays.read(&env).parse::<i32>(), Ok(30));
    assert_eq!(FtlConfEntry::DbInterval.read(&env).parse::<f32>(), Ok(3.0));
    assert_eq!(FtlConfEntry::DbFile.read(&env), "/etc/pihole/test/pihole-FTL.db");
    assert_eq!(FtlConfEntry::MaxLogAge.read(&env).parse::<f32>(), Ok(48.0));
    assert_eq!(FtlConfEntry::FtlPort.read(&env).parse::<usize>(), Ok(38911));
    assert_eq!(
        FtlConfEntry::read_privacy_level(&env).map(|level| level.to_number()),
        Ok(2)
    );
    assert_eq!(FtlConfEntry::IgnoreLocalHost.read(&env), "yes");
    assert_eq!(FtlConfEntry::BlockingMode.read(&env), "NXDOMAIN");
    assert_eq!(FtlConfEntry::RegexDebugMode.read(&env).parse::<bool>(), Ok(true));
}

/// Test that default settings are reported if not present
#[test]
fn test_get_ftl_default() {
    let env = env(PiholeFile::FtlConfig, "");
    let settings = get_ftl(&env).unwrap();
    assert_eq!(settings.db_interval.parse::<f32>(), Ok(1.0));
    assert_eq!(settings.max_log_age.parse::<f32>(), Ok(24.0));
    assert_eq!(
        settings,
        FtlSettingsReply {
            socket_listening: "localonly".to_owned(),
            query_display: "yes".to_owned(),
            aaaa_query_analysis: "yes".to_owned(),
            resolve_ipv6: "yes".to_owned(),
            resolve_ipv4: "yes".to_owned(),
            max_db_days: 365,
            db_interval: "1.0".to_owned(),
            db_file: "/etc/pihole/pihole-FTL.db".to_owned(),
            max_log_age: "24.0".to_owned(),
            ftl_port: 4711,
            privacy_level: 0,
            ignore_local_host: "no".to_owned(),
            blocking_mode: "NULL".to_owned(),
            regex_debug_mode: false,
        }
    );
    assert_eq!(FtlConfEntry::SocketListening.read(&env), "localonly");
    assert_eq!(FtlConfEntry::QueryDisplay.read(&env), "yes");
    assert_eq!(FtlConfEntry::AaaaQueryAnalysis.read(&env), "yes");
    assert_eq!(FtlConfEntry::ResolveIpv6.read(&env), "yes");
    assert_eq!(FtlConfEntry::ResolveIpv4.read(&env), "yes");
    assert_eq!(FtlConfEntry::MaxDbDays.read(&env).parse::<i32>(), Ok(365));
    assert_eq!(FtlConfEntry::DbInterval.read(&env).parse::<f32>(), Ok(1.0));
    assert_eq!(FtlConfEntry::DbFile.read(&env), "/etc/pihole/pihole-FTL.db");
    assert_eq!(FtlConfEntry::MaxLogAge.read(&env).parse::<f32>(), Ok(24.0));
    assert_eq!(FtlConfEntry::FtlPort.read(&env).parse::<usize>(), Ok(4711));
    assert_eq!(
        FtlConfEntry::read_privacy_level(&env).map(|level| level.to_number()),
        Ok(0)
    );
    assert_eq!(FtlConfEntry::IgnoreLocalHost.read(&env), "no");
    assert_eq!(FtlConfEntry::BlockingMode.read(&env), "NULL");
    assert_eq!(FtlConfEntry::RegexDebugMode.read(&env).parse::<bool>(), Ok(false));
}

/// Basic test for reported settings
#[test]
fn test_get_network() {
    let env = env(
        PiholeFile::SetupVars,
        "IPV4_ADDRESS=192.168.1.205/24\n\
         IPV6_ADDRESS=fd06:fb62:d251:9033:0:0:0:33\n\
         PIHOLE_INTERFACE=eth0\n",
    );
    assert_eq!(
        network_settings(&env),
        NetworkSettings {
            interface: "eth0".to_owned(),
            ipv4_address: "192.168.1.205".to_owned(),
            ipv6_address: "fd06:fb62:d251:9033:0:0:0:33".to_owned(),
        }
    );
}

/// Test for common configuration of ipv4 only (no ipv6)
#[test]
fn test_get_network_ipv4only() {
    let env = env(
        PiholeFile::SetupVars,
        "IPV4_ADDRESS=192.168.1.205/24\n\
         IPV6_ADDRESS=\n\
         PIHOLE_INTERFACE=eth0\n",
    );
    assert_eq!(
        network_settings(&env),
        NetworkSettings {
            interface: "eth0".to_owned(),
            ipv4_address: "192.168.1.205".to_owned(),
            ipv6_address: "".to_owned(),
        }
    );
}

/// An address without the length of its network
#[test]
fn prefix_length_is_stripped() {
    assert_eq!(strip_prefix_length("192.168.1.205/24"), "192.168.1.205");
    assert_eq!(strip_prefix_length("192.168.1.205"), "192.168.1.205");
    assert_eq!(strip_prefix_length("/24"), "");
    assert_eq!(strip_prefix_length(""), "");
    assert_eq!(strip_prefix_length("a/b/c"), "a");
}

/// The first line which sets a key gives its value
#[test]
fn settings_lines() {
    let lines = |content: &str| split_lines(content);
    assert_eq!(find_setting(&lines("A=1\nB=2\nA=3"), "A"), Some("1".to_owned()));
    assert_eq!(find_setting(&lines("A=1\nB=2\nA=3"), "B"), Some("2".to_owned()));
    assert_eq!(find_setting(&lines("A=1\nB=2\nA=3"), "C"), None);
    assert_eq!(find_setting(&lines("AB=1\n A=2\nA"), "A"), None);
    assert_eq!(find_setting(&lines("A="), "A"), Some(String::new()));
    // The value ends at the next equals sign
    assert_eq!(find_setting(&lines("A=b=c"), "A"), Some("b".to_owned()));
    assert_eq!(find_setting(&lines(""), "A"), None);
}

/// The keys and the defaults of the entries
#[test]
fn entry_keys() {
    assert_eq!(FtlConfEntry::PrivacyLevel.key(), "PRIVACYLEVEL");
    assert_eq!(FtlConfEntry::PrivacyLevel.get_default(), "0");
    assert_eq!(FtlConfEntry::PrivacyLevel.file(), PiholeFile::FtlConfig);
    assert_eq!(FtlConfEntry::GravityDb.key(), "GRAVITYDB");
    assert_eq!(SetupVarsEntry::ApiExcludeClients.key(), "API_EXCLUDE_CLIENTS");
    assert_eq!(SetupVarsEntry::ApiExcludeClients.get_default(), "");
    assert_eq!(SetupVarsEntry::WebPassword.file(), PiholeFile::SetupVars);
    // Without the file the default holds
    let env = Env::test(Config::default());
    assert_eq!(SetupVarsEntry::ApiQueryLogShow.read(&env), "all");
    assert_eq!(FtlConfEntry::FtlPort.read(&env), "4711");
}

/// The privacy level of the settings
#[test]
fn privacy_level_setting() {
    assert_eq!(parse_privacy_level("0"), Some(FtlPrivacyLevel::ShowAll));
    assert_eq!(parse_privacy_level("1"), Some(FtlPrivacyLevel::HideDomains));
    assert_eq!(parse_privacy_level("2"), Some(FtlPrivacyLevel::HideDomainsAndClients));
    assert_eq!(parse_privacy_level("3"), Some(FtlPrivacyLevel::Maximum));
    assert_eq!(parse_privacy_level("4"), None);
    assert_eq!(parse_privacy_level(""), None);
    assert_eq!(parse_privacy_level("02"), None);
    assert_eq!(
        FtlConfEntry::read_privacy_level(&env(PiholeFile::FtlConfig, "PRIVACYLEVEL=3")),
        Ok(FtlPrivacyLevel::Maximum)
    );
    assert_eq!(
        FtlConfEntry::read_privacy_level(&env(PiholeFile::FtlConfig, "PRIVACYLEVEL=high"))
            .unwrap_err()
            .kind(),
        ErrorKind::InvalidSettingValue
    );
}

/// The texts are split where the mark stands
#[test]
fn text_helpers() {
    assert_eq!(split_text("a,b,,c", ','), vec!["a", "b", "", "c"]);
    assert_eq!(split_text("", ','), vec![""]);
    assert_eq!(split_text(",", ','), vec!["", ""]);
    assert_eq!(split_text("äö,ü", ','), vec!["äö", "ü"]);
    assert_eq!(split_lines("a\nb\n"), vec!["a", "b"]);
    assert_eq!(split_lines("a\nb"), vec!["a", "b"]);
    assert_eq!(split_lines("a\n\n"), vec!["a", ""]);
    assert_eq!(split_lines(""), Vec::<String>::new());
    assert_eq!(split_lines("\n"), vec![""]);
    assert_eq!(split_lines("a\r\nb\r\n"), vec!["a", "b"]);
    assert_eq!(split_lines("a\r\nb\r"), vec!["a", "b\r"]);
    assert_eq!(split_lines("\r\n\r"), vec!["", "\r"]);
    assert_eq!(split_lines("a\r\r\n"), vec!["a\r"]);
    assert!(text_equal("abc", "abc"));
    assert!(!text_equal("abc", "abd"));
    assert!(!text_equal("abc", "ab"));
    assert!(text_equal("", ""));
    assert_eq!(parse_byte("0"), Some(0));
    assert_eq!(parse_byte("255"), Some(255));
    assert_eq!(parse_byte("256"), None);
    assert_eq!(parse_byte("0255"), Some(255));
    assert_eq!(parse_byte("+5"), Some(5));
    assert_eq!(parse_byte("+255"), Some(255));
    assert_eq!(parse_byte("+256"), None);
    assert_eq!(parse_byte("+000"), Some(0));
    assert_eq!(parse_byte("+"), None);
    assert_eq!(parse_byte("++5"), None);
    assert_eq!(parse_byte("5+"), None);
    assert_eq!(parse_byte("-0"), None);
    assert_eq!(parse_byte("-1"), None);
    assert_eq!(parse_byte(" 5"), None);
    assert_eq!(parse_byte(""), None);
    assert_eq!(parse_byte("1a"), None);
    assert_eq!(parse_byte("99999999999999999999"), None);
}

/// The databases are where the settings of the daemon say
#[test]
fn database_configs() {
    let defaults = Env::test(Config::default());
    assert_eq!(
        load_gravity_db_config(&defaults).unwrap(),
        CustomDBConfig {
            url: "/etc/pihole/gravity.db".to_owned(),
            pool_size: 8,
            test_schema: None
        }
    );
    assert_eq!(
        load_ftl_db_config(&defaults).unwrap(),
        CustomDBConfig {
            url: "/etc/pihole/pihole-FTL.db".to_owned(),
            pool_size: 8,
            test_schema: None
        }
    );
    let env = env(PiholeFile::FtlConfig, "GRAVITYDB=/tmp/gravity.db\nDBFILE=/tmp/ftl.db\n");
    assert_eq!(load_gravity_db_config(&env).unwrap().url, "/tmp/gravity.db");
    assert_eq!(load_ftl_db_config(&env).unwrap().url, "/tmp/ftl.db");
    let service = FakeDatabaseService;
    let connection: Result<u8, _> = service.get_connection();
    assert_eq!(connection.unwrap_err().kind(), ErrorKind::Unknown);
}

/// Settings which are no numbers of their kind
#[test]
fn invalid_ftl_settings() {
    for content in [
        "MAXDBDAYS=many",
        "MAXDBDAYS=2147483648",
        "MAXDBDAYS=",
        "MAXDBDAYS=+",
        "FTLPORT=-1",
        "FTLPORT=-0",
        "FTLPORT=18446744073709551616",
        "FTLPORT=4711 ",
        "PRIVACYLEVEL=high",
        "PRIVACYLEVEL=2147483648",
        "PRIVACYLEVEL=1.5",
    ] {
        assert_eq!(
            get_ftl(&env(PiholeFile::FtlConfig, content)).unwrap_err().kind(),
            ErrorKind::InvalidSettingValue
        );
    }
    let settings = get_ftl(&env(
        PiholeFile::FtlConfig,
        "MAXDBDAYS=-2147483648\nFTLPORT=65535\nREGEX_DEBUGMODE=TRUE\nDBINTERVAL=x",
    ))
    .unwrap();
    assert_eq!(settings.max_db_days, i32::MIN);
    assert_eq!(settings.ftl_port, 65535);
    assert!(!settings.regex_debug_mode);
    assert_eq!(settings.db_interval, "x");
    // Numbers with a sign, and numbers beyond the ports and the levels
    let settings = get_ftl(&env(
        PiholeFile::FtlConfig,
        "MAXDBDAYS=+365\nFTLPORT=+4711\nPRIVACYLEVEL=-1",
    ))
    .unwrap();
    assert_eq!(settings.max_db_days, 365);
    assert_eq!(settings.ftl_port, 4711);
    assert_eq!(settings.privacy_level, -1);
    let settings =
        get_ftl(&env(PiholeFile::FtlConfig, "FTLPORT=65536\nPRIVACYLEVEL=4")).unwrap();
    assert_eq!(settings.ftl_port, 65536);
    assert_eq!(settings.privacy_level, 4);
    assert_eq!(
        FtlConfEntry::FtlPort.read_natural(&env(PiholeFile::FtlConfig, "FTLPORT=+007"), 7),
        Ok(7)
    );
    assert_eq!(
        FtlConfEntry::FtlPort
            .read_natural(&env(PiholeFile::FtlConfig, "FTLPORT=8"), 7)
            .unwrap_err()
            .kind(),
        ErrorKind::InvalidSettingValue
    );
    assert!(FtlConfEntry::RegexDebugMode.is_true(&env(PiholeFile::FtlConfig, "REGEX_DEBUGMODE=true")));
    assert_eq!(
        FtlConfEntry::MaxDbDays.read_number(&env(PiholeFile::FtlConfig, "MAXDBDAYS=7"), 0, 7),
        Ok(7)
    );
    assert_eq!(
        FtlConfEntry::MaxDbDays
            .read_number(&env(PiholeFile::FtlConfig, "MAXDBDAYS=8"), 0, 7)
            .unwrap_err()
            .kind(),
        ErrorKind::InvalidSettingValue
    );
}

/// Numbers from zero on in decimal digits
#[test]
fn unsigned_numbers() {
    assert_eq!(parse_unsigned("0"), Some(0));
    assert_eq!(parse_unsigned("+0"), Some(0));
    assert_eq!(parse_unsigned("-0"), None);
    assert_eq!(parse_unsigned("0042"), Some(42));
    assert_eq!(parse_unsigned("18446744073709551615"), Some(u64::MAX));
    assert_eq!(parse_unsigned("+18446744073709551615"), Some(u64::MAX));
    assert_eq!(parse_unsigned("18446744073709551616"), None);
    assert_eq!(parse_unsigned("184467440737095516150"), None);
    assert_eq!(parse_unsigned(""), None);
    assert_eq!(parse_unsigned("+"), None);
    assert_eq!(parse_unsigned("1 "), None);
    assert_eq!(parse_unsigned("\u{661}"), None);
    // The readers agree with the readers of the standard library
    for text in ["", "+", "-", "+5", "-5", "-0", "+0", "007", "256", "1e3", "0x10", "\u{661}"] {
        assert_eq!(parse_unsigned(text), text.parse::<u64>().ok());
        assert_eq!(parse_byte(text), text.parse::<u8>().ok());
        assert_eq!(parse_integer(text), text.parse::<i64>().ok());
    }
}

/// Whole numbers in decimal digits
#[test]
fn whole_numbers() {
    assert_eq!(parse_integer("0"), Some(0));
    assert_eq!(parse_integer("-0"), Some(0));
    assert_eq!(parse_integer("007"), Some(7));
    assert_eq!(parse_integer("-12"), Some(-12));
    assert_eq!(parse_integer("9223372036854775807"), Some(i64::MAX));
    assert_eq!(parse_integer("9223372036854775808"), None);
    assert_eq!(parse_integer("-9223372036854775808"), Some(i64::MIN));
    assert_eq!(parse_integer("-9223372036854775809"), None);
    assert_eq!(parse_integer("99999999999999999999999"), None);
    assert_eq!(parse_integer(""), None);
    assert_eq!(parse_integer("-"), None);
    assert_eq!(parse_integer("+1"), Some(1));
    assert_eq!(parse_integer("+0"), Some(0));
    assert_eq!(parse_integer("+9223372036854775807"), Some(i64::MAX));
    assert_eq!(parse_integer("+9223372036854775808"), None);
    assert_eq!(parse_integer("+"), None);
    assert_eq!(parse_integer("+-1"), None);
    assert_eq!(parse_integer("-+1"), None);
    assert_eq!(parse_integer("++1"), None);
    assert_eq!(parse_integer("1-"), None);
    assert_eq!(parse_integer("--1"), None);
    assert_eq!(parse_integer("1.0"), None);
    assert_eq!(parse_integer(" 1"), None);
}
