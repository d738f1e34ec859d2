use routerway::config::{
    size_from_lowercase, ApiConfig, Config, ConfigError, ServerConfig, StaticConfig,
};
use std::path::PathBuf;

fn config(max_cache_size: &str) -> Config {
    Config {
        server: ServerConfig {
            port: 8080,
            name: "RouterWay".to_string(),
            max_cache_size: max_cache_size.to_string(),
            cache_enabled: true,
            max_connections: 512,
        },
        static_config: StaticConfig {
            root_directory: PathBuf::from("./Public"),
            error_pages_directory: PathBuf::from("./Public/Errors"),
        },
        api: vec![
            ApiConfig {
                name: "users".to_string(),
                from: "/api".to_string(),
                to: "http://backend/v1".to_string(),
            },
            ApiConfig {
                name: "auth".to_string(),
                from: "/auth".to_string(),
                to: "http://auth:9000".to_string(),
            },
        ],
    }
}

fn parsed(value: &str) -> Option<u64> {
    Config::parse_cache_size(value).ok()
}

fn the_reading_by_strip_trim_and_parse(value: &str) -> Option<u64> {
    let value = value.to_lowercase();
    let units: [(&str, u64); 6] = [
        ("kb", 1024),
        ("mb", 1024 * 1024),
        ("gb", 1024 * 1024 * 1024),
        ("k", 1024),
        ("m", 1024 * 1024),
        ("g", 1024 * 1024 * 1024),
    ];
    for (unit, factor) in units {
        if let Some(stripped) = value.strip_suffix(unit) {
            let amount: u64 = stripped.trim().parse().ok()?;
            return amount.checked_mul(factor);
        }
    }
    value.trim().parse().ok()
}

#[test]
fn getters_return_the_configured_values() {
    let c = config("64MB");
    assert_eq!(c.get_port(), 8080);
    assert_eq!(c.get_server_name(), "RouterWay");
    assert_eq!(c.get_root_directory(), &PathBuf::from("./Public"));
    assert_eq!(c.get_error_pages_directory(), &PathBuf::from("./Public/Errors"));
    assert!(c.is_cache_enabled());
    assert_eq!(c.get_max_connections(), 512);
    assert_eq!(c.get_api_configs().len(), 2);
    assert_eq!(c.get_api_configs()[0].name, "users");
    assert_eq!(c.get_api_configs()[1].from, "/auth");
    assert_eq!(c.get_api_configs()[1].to, "http://auth:9000");
    assert_eq!(c.get_max_cache_size().unwrap(), 64 * 1024 * 1024);
}

#[test]
fn a_bare_number_counts_bytes() {
    assert_eq!(parsed("0"), Some(0));
    assert_eq!(parsed("1024"), Some(1024));
    assert_eq!(parsed("  42 "), Some(42));
    assert_eq!(parsed("+7"), Some(7));
    assert_eq!(parsed("007"), Some(7));
    assert_eq!(parsed("18446744073709551615"), Some(u64::MAX));
}

#[test]
fn units_count_in_powers_of_1024() {
    assert_eq!(parsed("1k"), Some(1024));
    assert_eq!(parsed("10kb"), Some(10 * 1024));
    assert_eq!(parsed("5m"), Some(5 * 1024 * 1024));
    assert_eq!(parsed("5mb"), Some(5 * 1024 * 1024));
    assert_eq!(parsed("2g"), Some(2 * 1024 * 1024 * 1024));
    assert_eq!(parsed("2gb"), Some(2 * 1024 * 1024 * 1024));
    assert_eq!(parsed("0gb"), Some(0));
}

#[test]
fn units_are_read_in_either_case() {
    assert_eq!(parsed("10KB"), Some(10 * 1024));
    assert_eq!(parsed("10Kb"), Some(10 * 1024));
    assert_eq!(parsed("3M"), Some(3 * 1024 * 1024));
    assert_eq!(parsed("3Mb"), Some(3 * 1024 * 1024));
    assert_eq!(parsed("1G"), Some(1024 * 1024 * 1024));
    assert_eq!(parsed("1gB"), Some(1024 * 1024 * 1024));
    assert_eq!(parsed("1\u{212A}"), Some(1024));
}

#[test]
fn white_space_around_the_number_is_ignored() {
    assert_eq!(parsed("10 mb"), Some(10 * 1024 * 1024));
    assert_eq!(parsed("  10\tkb"), Some(10 * 1024));
    assert_eq!(parsed("\u{3000}8\u{a0}g"), Some(8 * 1024 * 1024 * 1024));
    assert_eq!(parsed(" \n12\r\n"), Some(12));
}

#[test]
fn white_space_behind_the_unit_is_an_error() {
    assert_eq!(parsed("10mb "), None);
    assert_eq!(parsed("10k\n"), None);
}

#[test]
fn what_is_not_a_number_is_refused() {
    for bad in ["", " ", "abc", "k", "mb", "-1", "1.5m", "1 0", "10kbb", "++1", "+", "1_000",
        "10 b", "0x10", "١٢"]
    {
        match Config::parse_cache_size(bad) {
            Err(ConfigError::InvalidCacheSize { value }) => assert_eq!(value, bad.to_lowercase()),
            other => panic!("{:?} gave {:?}", bad, other),
        }
    }
}

#[test]
fn a_number_that_does_not_fit_is_refused() {
    match Config::parse_cache_size("18446744073709551616") {
        Err(ConfigError::InvalidCacheSize { value }) => assert_eq!(value, "18446744073709551616"),
        other => panic!("gave {:?}", other),
    }
    match Config::parse_cache_size("99999999999999999999999999x") {
        Err(ConfigError::InvalidCacheSize { .. }) => {}
        other => panic!("gave {:?}", other),
    }
}

#[test]
fn a_product_that_does_not_fit_is_refused() {
    assert_eq!(parsed("18014398509481983K"), Some(18014398509481983 * 1024));
    match Config::parse_cache_size("18014398509481984K") {
        Err(ConfigError::CacheSizeTooLarge { value }) => assert_eq!(value, "18014398509481984k"),
        other => panic!("gave {:?}", other),
    }
    assert_eq!(parsed("17179869183GB"), Some(17179869183 * 1024 * 1024 * 1024));
    assert!(matches!(
        Config::parse_cache_size("17179869184GB"),
        Err(ConfigError::CacheSizeTooLarge { .. })
    ));
    assert!(matches!(
        Config::parse_cache_size("17592186044416 mb"),
        Err(ConfigError::CacheSizeTooLarge { .. })
    ));
}

#[test]
fn the_reading_of_text_in_lower_case_is_case_sensitive() {
    assert_eq!(size_from_lowercase("4kb").ok(), Some(4096));
    assert!(matches!(size_from_lowercase("4KB"), Err(ConfigError::InvalidCacheSize { .. })));
    assert!(matches!(size_from_lowercase("4M"), Err(ConfigError::InvalidCacheSize { .. })));
}

#[test]
fn readings_agree_with_trim_and_parse_of_the_standard_library() {
    let samples = [
        "0", "1", "12", "123kb", "123 kb", " 123 kb", "123k b", "1m", "1mm", "1gg", "9g", "g9",
        "+9g", "+ 9g", "9 +g", "00012M", "\t5\u{b}k", "\u{85}5", "5\u{2028}", "\u{1680}5\u{2003}gb",
        "5\u{200b}", "\u{feff}5", "5\u{180e}", "18446744073709551615", "18446744073709551616",
        "1844674407370955161k", "4G", "4Gb", "4 GB", "4GB ", "١", "5K", "5\u{212A}b", "", " ", "b",
        "kb", "攻m", "12\u{2000}\u{2001}\u{2002}\u{200a}m", "12\u{202f}\u{205f}",
    ];
    for sample in samples {
        assert_eq!(parsed(sample), the_reading_by_strip_trim_and_parse(sample), "reading {:?}", sample);
    }
}

#[test]
fn the_message_names_the_text() {
    let e = Config::parse_cache_size("Lots").unwrap_err();
    assert_eq!(e.message(), "无效的缓存大小: lots");
    let e = Config::parse_cache_size("18014398509481984K").unwrap_err();
    assert_eq!(e.message(), "缓存大小超出范围: 18014398509481984k");
}

#[test]
fn an_unreadable_budget_fails_the_getter() {
    assert!(matches!(
        config("plenty").get_max_cache_size(),
        Err(ConfigError::InvalidCacheSize { .. })
    ));
    assert_eq!(config("1k").get_max_cache_size().unwrap(), 1024);
}
