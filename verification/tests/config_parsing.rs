use github::settings;
use github::settings::Config;
use github::startup::parse_memory;
use github::startup::parse_usize_str;
use github::startup::trim;
use github::startup::validate_vars;

fn sample_config(token: &str, source: &str) -> Config {
    Config {
        authorization: token.to_string(),
        github_source: source.to_string(),
        debug: settings::default_debug(),
        utc_logging: settings::default_utc_logging(),
        server_host: settings::default_server_host(),
        server_port: settings::default_server_port(),
        workers: 3,
        max_connections: settings::default_max_connections(),
        max_payload_size: settings::default_max_payload_size(),
        websites: settings::default_websites(),
        key_file: settings::default_ssl(),
        cert_file: settings::default_ssl(),
    }
}

#[test]
fn defaults_have_documented_values() {
    assert!(!settings::default_debug());
    assert!(settings::default_utc_logging());
    assert_eq!(settings::default_ssl(), "");
    assert_eq!(settings::default_server_host(), "localhost");
    assert_eq!(settings::default_server_port(), 8000);
    assert_eq!(settings::default_max_connections(), 3);
    assert_eq!(settings::default_max_payload_size(), 100 * 1024 * 1024);
    assert!(settings::default_websites().is_empty());
}

#[test]
fn memory_sizes_parse_exactly() {
    assert_eq!(parse_memory("100 MB"), Some(104857600));
    assert_eq!(parse_memory("1 kb"), Some(1024));
    assert_eq!(parse_memory("2 GB"), Some(2147483648));
    assert_eq!(parse_memory("5 tb"), Some(5 * 1099511627776));
    assert_eq!(parse_memory("3 zb"), Some(3 * 1125899906842624));
    assert_eq!(parse_memory("  7 Mb  "), Some(7340032));
}

#[test]
fn memory_sizes_reject_bad_shapes() {
    // The space between count and unit is required.
    assert_eq!(parse_memory("100MB"), None);
    assert_eq!(parse_memory("100  MB"), None);
    assert_eq!(parse_memory("x MB"), None);
    assert_eq!(parse_memory("1 xb"), None);
    assert_eq!(parse_memory("1 Mx"), None);
    assert_eq!(parse_memory("1"), None);
    assert_eq!(parse_memory(""), None);
    assert_eq!(parse_memory(" MB"), None);
    // Too large for the platform word.
    assert_eq!(parse_memory("99999999 zb"), None);
}

#[test]
fn unsigned_integers_parse_like_literals() {
    assert_eq!(parse_usize_str("123"), Some(123));
    assert_eq!(parse_usize_str("+7"), Some(7));
    assert_eq!(parse_usize_str("0"), Some(0));
    assert_eq!(parse_usize_str("007"), Some(7));
    assert_eq!(parse_usize_str(""), None);
    assert_eq!(parse_usize_str("+"), None);
    assert_eq!(parse_usize_str("12a"), None);
    assert_eq!(parse_usize_str("-3"), None);
    assert_eq!(parse_usize_str("99999999999999999999999999"), None);
}

#[test]
fn trimming_strips_both_ends() {
    assert_eq!(trim("  100 MB \t"), "100 MB");
    assert_eq!(trim("plain"), "plain");
    assert_eq!(trim("   "), "");
}

#[test]
fn validate_vars_accepts_good_config() {
    let config = sample_config("t0ken", "/data/github");
    match validate_vars(config, true) {
        Ok(c) => assert_eq!(c.authorization, "t0ken"),
        Err(e) => panic!("unexpected rejection: {e}"),
    }
}

#[test]
fn validate_vars_rejects_missing_directory() {
    let config = sample_config("t0ken", "/no/such/dir");
    match validate_vars(config, false) {
        Ok(_) => panic!("should have been rejected"),
        Err(e) => {
            assert!(e.contains("github_source"));
            assert!(e.contains("/no/such/dir"));
            assert!(e.contains("not a valid directory"));
        },
    }
}

#[test]
fn validate_vars_rejects_short_token() {
    let config = sample_config("abc", "/data/github");
    match validate_vars(config, true) {
        Ok(_) => panic!("should have been rejected"),
        Err(e) => assert!(e.contains("at least 4 or more characters")),
    }
}
