use ohabench::auth::{generate_auth_header, get_auth_type_names, index_to_auth_type};
use ohabench::cli::{AuthType, HttpMethod, RampingMode};
use ohabench::config::{AuthConfig, BenchmarkConfig};
use ohabench::runner::{
    build_oha_args, build_warmup_args, get_install_instructions, hang_timeout_seconds,
    headers_have_content_type, hung_result,
};

fn auth(auth_type: AuthType) -> AuthConfig {
    AuthConfig {
        auth_type,
        username: Some("user".to_string()),
        password: Some("pass".to_string()),
        token: Some("abc123".to_string()),
        custom_header: Some("X-API-Key: secret".to_string()),
    }
}

#[test]
fn basic_auth_is_base64_of_the_credentials() {
    assert_eq!(
        generate_auth_header(&auth(AuthType::Basic)),
        Some("Authorization: Basic dXNlcjpwYXNz".to_string())
    );
    let mut a = auth(AuthType::Basic);
    a.password = None;
    assert_eq!(generate_auth_header(&a), Some("Authorization: Basic dXNlcjo=".to_string()));
    a.username = None;
    assert_eq!(generate_auth_header(&a), Some("Authorization: Basic Og==".to_string()));
}

#[test]
fn other_kinds_of_auth() {
    assert_eq!(generate_auth_header(&auth(AuthType::NoAuth)), None);
    assert_eq!(
        generate_auth_header(&auth(AuthType::Bearer)),
        Some("Authorization: Bearer abc123".to_string())
    );
    assert_eq!(
        generate_auth_header(&auth(AuthType::Header)),
        Some("X-API-Key: secret".to_string())
    );
    let mut a = auth(AuthType::Header);
    a.custom_header = None;
    assert_eq!(generate_auth_header(&a), None);
    let mut a = auth(AuthType::Bearer);
    a.token = None;
    assert_eq!(generate_auth_header(&a), Some("Authorization: Bearer ".to_string()));
}

#[test]
fn auth_menu() {
    assert_eq!(get_auth_type_names(), vec!["None", "Basic Auth", "Bearer Token", "API Key Header"]);
    assert_eq!(index_to_auth_type(0), AuthType::NoAuth);
    assert_eq!(index_to_auth_type(1), AuthType::Basic);
    assert_eq!(index_to_auth_type(2), AuthType::Bearer);
    assert_eq!(index_to_auth_type(3), AuthType::Header);
    assert_eq!(index_to_auth_type(4), AuthType::NoAuth);
    assert_eq!(AuthType::NoAuth.name(), "None");
    assert_eq!(AuthType::Header.name(), "Custom Header");
    assert_eq!(HttpMethod::Delete.name(), "DELETE");
    assert_eq!(RampingMode::Exponential.name(), "Exponential");
}

#[test]
fn arguments_of_a_plain_step() {
    let c = BenchmarkConfig::default();
    assert_eq!(
        build_oha_args(&c, "https://example.com", 50),
        vec![
            "-c", "100", "-z", "30s", "-q", "50", "--latency-correction", "-w", "--no-tui", "-m",
            "GET", "-H", "User-Agent: ohabench/0.1.0", "https://example.com",
        ]
    );
}

#[test]
fn arguments_with_body_auth_and_headers() {
    let mut c = BenchmarkConfig::default();
    c.method = HttpMethod::Post;
    c.body = Some("{\"a\":1}".to_string());
    c.auth = auth(AuthType::Bearer);
    c.headers = vec!["Accept: */*".to_string(), "X-Trace: 1".to_string()];
    c.ramping.connections = 7;
    c.ramping.duration_seconds = 120;
    assert_eq!(
        build_oha_args(&c, "http://h/p", 4000),
        vec![
            "-c", "7", "-z", "120s", "-q", "4000", "--latency-correction", "-w", "--no-tui", "-m",
            "POST", "-d", "{\"a\":1}", "-H", "Content-Type: application/json", "-H",
            "User-Agent: ohabench/0.1.0", "-H", "Authorization: Bearer abc123", "-H",
            "Accept: */*", "-H", "X-Trace: 1", "http://h/p",
        ]
    );
}

#[test]
fn given_content_type_is_kept() {
    let mut c = BenchmarkConfig::default();
    c.method = HttpMethod::Put;
    c.body = Some("a=1".to_string());
    c.headers = vec!["CONTENT-Type: text/plain".to_string()];
    assert_eq!(
        build_oha_args(&c, "http://h", 1),
        vec![
            "-c", "100", "-z", "30s", "-q", "1", "--latency-correction", "-w", "--no-tui", "-m",
            "PUT", "-d", "a=1", "-H", "User-Agent: ohabench/0.1.0", "-H",
            "CONTENT-Type: text/plain", "http://h",
        ]
    );
    assert!(headers_have_content_type(&c.headers));
    assert!(!headers_have_content_type(&vec!["X-Content-Type: a".to_string()]));
    assert!(!headers_have_content_type(&Vec::new()));
}

#[test]
fn arguments_of_the_warmup() {
    let mut c = BenchmarkConfig::default();
    assert_eq!(build_warmup_args(&c, "http://h"), None);
    c.warmup_seconds = 10;
    c.auth = auth(AuthType::Header);
    assert_eq!(
        build_warmup_args(&c, "http://h"),
        Some(
            vec![
                "-c", "100", "-z", "10s", "-q", "50", "--no-tui", "-H",
                "User-Agent: ohabench/0.1.0", "-H", "X-API-Key: secret", "http://h",
            ]
            .into_iter()
            .map(|s| s.to_string())
            .collect()
        )
    );
}

#[test]
fn bounded_wait_and_hung_result() {
    assert_eq!(hang_timeout_seconds(30), 60);
    assert_eq!(hang_timeout_seconds(u32::MAX), u32::MAX as u64 + 30);
    let r = hung_result(250);
    assert!(r.hung);
    assert_eq!(r.target_rate, 250);
    assert_eq!(r.error_rate.micros, 100_000_000);
    assert_eq!(r.errors, 0);
    assert_eq!(r.actual_rate.micros, 0);
    assert!(r.error_status_codes.is_empty());
}

#[test]
fn install_instructions_name_the_tool() {
    let text = get_install_instructions();
    assert!(text.starts_with("oha is not installed.\n\n"));
    assert!(text.ends_with("For more info, see: https://github.com/hatoo/oha"));
    assert!(text.contains("  cargo install oha\n"));
}
