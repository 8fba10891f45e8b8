use ohabench::cli::{Args, AuthType, HttpMethod, RampingMode};
use ohabench::config::{
    choose_downloads_dir, get_unique_report_paths, BenchmarkConfig, DownloadPlaces, Place,
    ThresholdConfig,
};
use ohabench::decimal::Decimal;
use ohabench::menu::{
    config_from_args, default_benchmark_name, ensure_protocol, index_to_cooldown,
    index_to_duration, index_to_method, index_to_ramping_mode, index_to_warmup, method_index,
    parse_header_list, parse_url_list, url_to_safe_name, SessionState,
};
use ohabench::output::{
    format_duration, format_error_codes, format_latency, format_number, format_one_place,
    format_plain, format_two_places,
};
use ohabench::user_agent::{get_preset_names, resolve_user_agent, user_agent_presets};

fn dec(whole: u64, millionths: u64) -> Decimal {
    Decimal { micros: whole * 1_000_000 + millionths }
}

#[test]
fn numbers_with_commas() {
    assert_eq!(format_number(0), "0");
    assert_eq!(format_number(999), "999");
    assert_eq!(format_number(1000), "1,000");
    assert_eq!(format_number(1_002_003), "1,002,003");
    assert_eq!(format_number(1234567), "1,234,567");
    assert_eq!(format_number(u64::MAX), "18,446,744,073,709,551,615");
}

#[test]
fn durations() {
    assert_eq!(format_duration(0), "0s");
    assert_eq!(format_duration(59), "59s");
    assert_eq!(format_duration(60), "1m 0s");
    assert_eq!(format_duration(61), "1m 1s");
    assert_eq!(format_duration(3599), "59m 59s");
    assert_eq!(format_duration(3600), "1h 0m");
    assert_eq!(format_duration(3661), "1h 1m");
}

#[test]
fn latencies() {
    assert_eq!(format_latency(dec(0, 0)), "-");
    assert_eq!(format_latency(dec(0, 45_000)), "45us");
    assert_eq!(format_latency(dec(0, 999_600)), "1000us");
    assert_eq!(format_latency(dec(1, 0)), "1ms");
    assert_eq!(format_latency(dec(120, 500_000)), "120ms");
    assert_eq!(format_latency(dec(121, 500_000)), "122ms");
    assert_eq!(format_latency(dec(120, 500_001)), "121ms");
    assert_eq!(format_latency(dec(999, 600_000)), "1000ms");
    assert_eq!(format_latency(dec(1000, 0)), "1.0s");
    assert_eq!(format_latency(dec(1549, 0)), "1.5s");
    assert_eq!(format_latency(dec(60_000, 0)), "60.0s");
}

#[test]
fn error_codes_in_words() {
    assert_eq!(format_error_codes(&Vec::new()), "");
    assert_eq!(format_error_codes(&vec![(429, 1234)]), "429 (1,234)");
    assert_eq!(format_error_codes(&vec![(429, 1234), (500, 10), (0, 1)]), "429 (1,234), 500 (10), 0 (1)");
}

#[test]
fn protocol_is_added_where_missing() {
    assert_eq!(ensure_protocol("example.com"), "https://example.com");
    assert_eq!(ensure_protocol("http://example.com"), "http://example.com");
    assert_eq!(ensure_protocol("https://example.com"), "https://example.com");
    assert_eq!(ensure_protocol(""), "https://");
    assert_eq!(ensure_protocol("ftp://x"), "https://ftp://x");
}

#[test]
fn safe_names() {
    assert_eq!(url_to_safe_name("https://example.com/api/v1?x=1"), "example.com_api_v1_x_1");
    assert_eq!(url_to_safe_name("https://example.com/"), "example.com");
    assert_eq!(url_to_safe_name("http://localhost:8080/a b#c&d"), "localhost_8080_a_b_c_d");
    assert_eq!(url_to_safe_name("https://"), "");
    assert_eq!(url_to_safe_name("hhttps://ttp://x"), "x");
    let long = format!("https://{}", "a".repeat(150));
    assert_eq!(url_to_safe_name(&long), "a".repeat(100));
}

#[test]
fn default_names() {
    assert_eq!(default_benchmark_name(&vec!["https://a.io/x".to_string()]), "a.io_x");
    assert_eq!(default_benchmark_name(&vec!["a".to_string(), "b".to_string()]), "ohabench_benchmark");
    assert_eq!(default_benchmark_name(&Vec::new()), "ohabench_benchmark");
}

#[test]
fn lists_with_commas() {
    assert_eq!(parse_url_list("a.com, http://b.com ,,"), vec!["https://a.com", "http://b.com"]);
    assert_eq!(parse_url_list(""), Vec::<String>::new());
    assert_eq!(parse_url_list(" , "), Vec::<String>::new());
    assert_eq!(
        parse_header_list("X-API-Key: secret, Accept: application/json"),
        vec!["X-API-Key: secret", "Accept: application/json"]
    );
    assert_eq!(parse_header_list("\u{a0}A: b\u{2003}"), vec!["A: b"]);
}

#[test]
fn menu_places() {
    for (i, m) in [
        HttpMethod::Get,
        HttpMethod::Post,
        HttpMethod::Put,
        HttpMethod::Patch,
        HttpMethod::Delete,
        HttpMethod::Head,
    ]
    .into_iter()
    .enumerate()
    {
        assert_eq!(index_to_method(i), m);
        assert_eq!(method_index(m), i);
    }
    assert_eq!(index_to_method(6), HttpMethod::Get);
    assert_eq!(index_to_ramping_mode(0), RampingMode::Linear);
    assert_eq!(index_to_ramping_mode(1), RampingMode::Exponential);
    assert_eq!(index_to_ramping_mode(2), RampingMode::Linear);
    assert_eq!(
        [0, 1, 2, 3].map(index_to_duration),
        [30, 60, 120, 30]
    );
    assert_eq!([0, 1, 2, 3].map(index_to_warmup), [0, 10, 30, 10]);
    assert_eq!([0, 1, 2, 3, 4].map(index_to_cooldown), [0, 3, 5, 10, 5]);
}

#[test]
fn defaults() {
    let s = SessionState::default();
    assert_eq!(s.max_p99_ms, 5000);
    assert_eq!(s.warmup_idx, 1);
    assert!(s.save_report);
    assert_eq!(s.max_error_rate, dec(5, 0));
    let c = BenchmarkConfig::default();
    assert_eq!(c.user_agent, "ohabench/0.1.0");
    assert_eq!(c.thresholds, ThresholdConfig { max_error_rate: dec(5, 0), max_p99_ms: 3000 });
    assert_eq!(c.ramping.connections, 100);
    assert_eq!(c.ramping.threads, 4);
    assert_eq!(c.ramping.duration_seconds, 30);
    assert_eq!(c.auth.auth_type, AuthType::NoAuth);
    assert!(c.urls.is_empty());
}

#[test]
fn user_agents() {
    assert_eq!(resolve_user_agent("curl"), "curl/8.5.0");
    assert_eq!(resolve_user_agent("CURL"), "curl/8.5.0");
    assert_eq!(resolve_user_agent("my-agent/1.0"), "my-agent/1.0");
    assert_eq!(resolve_user_agent(""), "ohabench/0.1.0");
    assert_eq!(resolve_user_agent("ohabench"), "ohabench/0.1.0");
    let presets = user_agent_presets();
    assert_eq!(presets.len(), 13);
    assert_eq!(resolve_user_agent("chrome"), presets[1].value);
    assert_eq!(resolve_user_agent("chrome-linux"), presets[3].value);
    assert_eq!(resolve_user_agent("Firefox (macOS)"), presets[5].value);
    assert_eq!(resolve_user_agent("my-safari-(ios)-agent"), presets[8].value);
    assert_eq!(resolve_user_agent("google"), presets[11].value);
    assert_eq!(resolve_user_agent("Custom..."), "Custom...");
    let names = get_preset_names();
    assert_eq!(names.len(), 13);
    assert_eq!(names[0], "ohabench (Default)");
    assert_eq!(names[12], "Custom...");
}

#[test]
fn report_names() {
    let none: Vec<String> = Vec::new();
    assert_eq!(
        get_unique_report_paths("bench", &none),
        ("bench.txt".to_string(), "bench_graph.png".to_string())
    );
    assert_eq!(
        get_unique_report_paths("bench", &vec!["bench.txt".to_string()]),
        ("bench.2.txt".to_string(), "bench.2_graph.png".to_string())
    );
    assert_eq!(
        get_unique_report_paths(
            "bench",
            &vec!["bench_graph.png".to_string(), "other.txt".to_string(), "bench.2.txt".to_string()]
        ),
        ("bench.3.txt".to_string(), "bench.3_graph.png".to_string())
    );
}

#[test]
fn report_names_give_up_at_ten_thousand() {
    let mut taken = vec!["b.txt".to_string()];
    for k in 2..=9999 {
        taken.push(format!("b.{}_graph.png", k));
    }
    assert_eq!(
        get_unique_report_paths("b", &taken),
        ("b.10000.txt".to_string(), "b.10000_graph.png".to_string())
    );
}

#[test]
fn configuration_from_options() {
    let args = Args {
        url: vec!["example.com".to_string(), "http://b".to_string()],
        method: HttpMethod::Post,
        body: Some("x".to_string()),
        user_agent: "curl".to_string(),
        auth_type: AuthType::Basic,
        auth_user: Some("u".to_string()),
        auth_pass: None,
        auth_token: None,
        auth_header: None,
        headers: vec!["A: b".to_string()],
        mode: RampingMode::Exponential,
        start_rate: 1,
        max_rate: 64,
        step: 9,
        duration: 5,
        threads: 2,
        connections: 3,
        max_error_rate: dec(1, 500_000),
        max_p99: 700,
        warmup: 4,
        cooldown: 6,
        report_dir: Some("/tmp".to_string()),
        report_name: None,
        non_interactive: true,
    };
    let c = config_from_args(&args);
    assert_eq!(c.urls, vec!["https://example.com", "http://b"]);
    assert_eq!(c.method, HttpMethod::Post);
    assert_eq!(c.body, Some("x".to_string()));
    assert_eq!(c.user_agent, "curl/8.5.0");
    assert_eq!(c.auth.auth_type, AuthType::Basic);
    assert_eq!(c.auth.username, Some("u".to_string()));
    assert_eq!(c.auth.password, None);
    assert_eq!(c.headers, vec!["A: b"]);
    assert_eq!(c.ramping.mode, RampingMode::Exponential);
    assert_eq!(c.ramping.generate_rates(), vec![1, 2, 4, 8, 16, 32, 64]);
    assert_eq!(c.ramping.step, 9);
    assert_eq!(c.ramping.duration_seconds, 5);
    assert_eq!(c.ramping.threads, 2);
    assert_eq!(c.ramping.connections, 3);
    assert_eq!(c.thresholds, ThresholdConfig { max_error_rate: dec(1, 500_000), max_p99_ms: 700 });
    assert_eq!(c.warmup_seconds, 4);
    assert_eq!(c.cooldown_seconds, 6);
    assert_eq!(c.report_dir, Some("/tmp".to_string()));
    assert_eq!(c.report_name, None);
}

fn place(path: &str, exists: bool) -> Option<Place> {
    Some(Place { path: path.to_string(), exists })
}

#[test]
fn downloads_directory() {
    let mut places = DownloadPlaces {
        home: Some("/home/u".to_string()),
        desktop_downloads: place("/data/dl", true),
        home_downloads: place("/home/u/Downloads", true),
        user_profile: Some("C:/Users/u".to_string()),
        profile_downloads: place("C:/Users/u/Downloads", true),
        current: "/work".to_string(),
    };
    assert_eq!(choose_downloads_dir(&places), "/data/dl");
    places.desktop_downloads = place("/data/dl", false);
    assert_eq!(choose_downloads_dir(&places), "/home/u/Downloads");
    places.desktop_downloads = None;
    assert_eq!(choose_downloads_dir(&places), "/home/u/Downloads");
    places.home_downloads = place("/home/u/Downloads", false);
    assert_eq!(choose_downloads_dir(&places), "/home/u");
    places.home = None;
    places.desktop_downloads = place("/data/dl", true);
    assert_eq!(choose_downloads_dir(&places), "C:/Users/u/Downloads");
    places.profile_downloads = None;
    assert_eq!(choose_downloads_dir(&places), "C:/Users/u");
    places.user_profile = None;
    assert_eq!(choose_downloads_dir(&places), "/work");
}

#[test]
fn numbers_as_cells() {
    assert_eq!(format_one_place(dec(49, 900_000)), "49.9");
    assert_eq!(format_one_place(dec(0, 0)), "0.0");
    assert_eq!(format_two_places(dec(12, 345_001)), "12.35");
    assert_eq!(format_two_places(dec(12, 345_000)), "12.34");
    assert_eq!(format_plain(dec(5, 0)), "5");
    assert_eq!(format_plain(dec(0, 100_000)), "0.1");
}
