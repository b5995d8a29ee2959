use localhost::config::{
    CgiConfig, ConfigError, ErrorPages, Host, HostFacts, PathFacts, Route, ServerConfig,
    SessionConfig, SessionOptionsConfig,
};
use localhost::map::StrMap;
use localhost::server::logger::LogLevel;

fn texts(v: &[ConfigError]) -> Vec<String> {
    v.iter().map(|e| e.to_text()).collect()
}

fn route(path: Option<&str>) -> Route {
    Route {
        path: path.map(|p| p.to_string()),
        methods: Some(vec!["GET".to_string()]),
        root: Some("site".to_string()),
        default_page: None,
        directory_listing: None,
        redirect: None,
        cgi: None,
        session_required: None,
        session_redirect: None,
    }
}

fn all_exist() -> PathFacts {
    PathFacts { root_exists: true, default_page_exists: true, script_exists: true }
}

fn host(name: &str, ports: &[&str]) -> Host {
    Host {
        server_address: Some("127.0.0.1".to_string()),
        ports: Some(ports.iter().map(|p| p.to_string()).collect()),
        server_name: Some(name.to_string()),
        routes: Some(vec![route(Some("/"))]),
        error_pages: None,
        client_max_body_size: Some("10m".to_string()),
        session: None,
    }
}

fn facts_for(h: &Host) -> HostFacts {
    let n = h.routes.as_ref().map(|r| r.len()).unwrap_or(0);
    HostFacts { address_is_ip: true, routes: (0..n).map(|_| all_exist()).collect() }
}

#[test]
fn config_error_text() {
    assert_eq!(ConfigError::Critical("x".to_string()).to_text(), "Critical error: x");
    assert_eq!(ConfigError::Warning("y".to_string()).to_text(), "Warning: y");
}

#[test]
fn cgi_validate_cases() {
    let ok = CgiConfig { extension: "py".to_string(), script_path: "s.py".to_string() };
    assert!(ok.validate(true).is_empty());
    let bad = CgiConfig { extension: "sh".to_string(), script_path: "".to_string() };
    assert_eq!(
        texts(&bad.validate(true)),
        vec![
            "Warning: CgiConfig extension 'sh' is not allowed. Allowed extensions: [\"py\"]".to_string(),
            "Warning: CgiConfig script_path is empty".to_string(),
        ]
    );
    let missing = CgiConfig { extension: "".to_string(), script_path: "a.py".to_string() };
    assert_eq!(
        texts(&missing.validate(false)),
        vec![
            "Warning: CgiConfig extension is empty".to_string(),
            "Warning: CgiConfig script_path 'a.py' does not exist".to_string(),
        ]
    );
}

#[test]
fn error_pages_validate_cases() {
    let mut pages = StrMap::new();
    pages.insert("404".to_string(), "e/404.html".to_string());
    pages.insert("".to_string(), "x".to_string());
    pages.insert("abc".to_string(), "x".to_string());
    pages.insert("418".to_string(), "x".to_string());
    let ep = ErrorPages { custom_pages: pages };
    assert_eq!(
        texts(&ep.validate()),
        vec![
            "Warning: ErrorPages status is empty".to_string(),
            "Warning: ErrorPages status 'abc' is not a valid HTTP status code".to_string(),
            "Warning: ErrorPages status '418' is not allowed. Allowed status codes: [\"400\", \"403\", \"404\", \"405\", \"413\", \"500\", \"502\", \"503\"]".to_string(),
        ]
    );
}

#[test]
fn route_validate_cases() {
    let r = Route {
        path: Some("home".to_string()),
        methods: Some(vec!["GET".to_string(), "PUT".to_string()]),
        root: None,
        default_page: Some("index.html".to_string()),
        directory_listing: None,
        redirect: Some("ftp://x".to_string()),
        cgi: None,
        session_required: Some(true),
        session_redirect: None,
    };
    let facts = PathFacts { root_exists: false, default_page_exists: false, script_exists: false };
    assert_eq!(
        texts(&r.validate(&facts)),
        vec![
            "Warning: Route path 'home' must start with '/'".to_string(),
            "Warning: Invalid HTTP method 'PUT'. Allowed methods: [\"GET\", \"POST\", \"DELETE\"]".to_string(),
            "Warning: Route root is undefined".to_string(),
            "Warning: Route default_page 'index.html' does not exist".to_string(),
            "Warning: Route redirect 'ftp://x' must start with '/' or 'http'".to_string(),
            "Warning: Session redirect is required when session_required is true".to_string(),
        ]
    );
    assert!(route(Some("/")).validate(&all_exist()).is_empty());
    assert_eq!(texts(&route(None).validate(&all_exist())), vec!["Warning: Route path is undefined".to_string()]);
}

#[test]
fn session_validate_cases() {
    let opts = SessionOptionsConfig {
        http_only: None,
        secure: None,
        max_age: Some(0),
        path: Some("x".to_string()),
        expires: Some(0),
        domain: Some("".to_string()),
        same_site: Some("Weird".to_string()),
    };
    let cfg = SessionConfig { enabled: Some(true), name: None, options: Some(opts) };
    assert_eq!(
        texts(&cfg.validate()),
        vec![
            "Critical error: Session cookie name is required when sessions are enabled".to_string(),
            "Warning: Session path 'x' must start with '/'".to_string(),
            "Warning: Session domain is empty".to_string(),
            "Warning: Invalid same_site value 'Weird'. Must be 'Strict', 'Lax', or 'None'".to_string(),
            "Warning: Session max_age must be greater than 0".to_string(),
            "Warning: Session expires must be greater than 0".to_string(),
        ]
    );
    let disabled = SessionConfig { enabled: Some(false), name: None, options: None };
    assert!(disabled.validate().is_empty());
    let d = SessionConfig::default();
    assert!(d.enabled.is_none() && d.name.is_none() && d.options.is_none());
}

#[test]
fn host_essential_checks() {
    let h = host("a.home", &["8080"]);
    assert!(h.is_valid_essential_config(true).is_ok());
    match h.is_valid_essential_config(false) {
        Err(e) => assert_eq!(e.to_text(), "Critical error: Host server_address is invalid: invalid IP address syntax"),
        Ok(()) => panic!("address accepted"),
    }
    let mut no_name = host("", &["8080"]);
    assert_eq!(no_name.is_valid_essential_config(true).unwrap_err().to_text(), "Critical error: Host server_name is empty");
    no_name.server_name = None;
    assert_eq!(no_name.is_valid_essential_config(true).unwrap_err().to_text(), "Critical error: Host server_name is undefined");
    let bad_port = host("b", &["8080", "99999"]);
    assert_eq!(bad_port.is_valid_essential_config(true).unwrap_err().to_text(), "Critical error: Host ports contains invalid port");
    let no_ports = host("b", &[]);
    assert_eq!(no_ports.is_valid_essential_config(true).unwrap_err().to_text(), "Critical error: Host ports is empty");
}

#[test]
fn host_warnings() {
    let mut h = host("a", &["80", "+80", "81", "80"]);
    h.client_max_body_size = Some("10g".to_string());
    let facts = facts_for(&h);
    assert_eq!(
        texts(&h.collect_warnings(&facts.routes)),
        vec![
            "Warning: Host ports contains duplicate port".to_string(),
            "Warning: Host ports contains duplicate port".to_string(),
            "Warning: Host client_max_body_size is not in k or m".to_string(),
        ]
    );
    h.routes = None;
    assert_eq!(texts(&h.collect_warnings(&vec![])).last().unwrap(), "Warning: Host routes is undefined");
}

#[test]
fn retain_keeps_first_of_each_name() {
    let hosts = vec![host("a", &["80"]), host("a", &["81"]), host("", &["82"]), host("b", &["83"])];
    let facts: Vec<HostFacts> = hosts.iter().map(facts_for).collect();
    let cfg = ServerConfig { servers: hosts, validation_errors: vec![] };
    let (result, logs) = cfg.retain_valid_hosts(true, &facts);
    let kept = result.unwrap();
    let names: Vec<String> = kept.servers.iter().map(|h| h.server_name.clone().unwrap()).collect();
    assert_eq!(names, vec!["a".to_string(), "b".to_string()]);
    assert_eq!(logs.len(), 1);
    assert_eq!(logs[0].level, LogLevel::ERROR);
    assert_eq!(logs[0].message, "Host server_name is empty");
    assert_eq!(logs[0].module, "CONFIG - ");
}

#[test]
fn retain_refuses_empty_configuration() {
    let cfg = ServerConfig { servers: vec![host("", &["80"])], validation_errors: vec![] };
    let facts = vec![facts_for(&cfg.servers[0])];
    let (result, logs) = cfg.retain_valid_hosts(false, &facts);
    assert_eq!(result.unwrap_err().to_text(), "Critical error: No valid server configuration found");
    assert_eq!(logs.last().unwrap().message, "No valid server configuration found");
    assert_eq!(logs.last().unwrap().module, "CONFIG");
}

#[test]
fn retain_reports_reading_problems() {
    let cfg = ServerConfig { servers: vec![host("a", &["80"])], validation_errors: vec!["bad".to_string()] };
    let facts = vec![facts_for(&cfg.servers[0])];
    let (result, logs) = cfg.retain_valid_hosts(false, &facts);
    assert_eq!(result.unwrap_err().to_text(), "Critical error: Invalid configuration");
    assert_eq!(logs.last().unwrap().message, "bad");
}

#[test]
fn warnings_logged_only_when_asked() {
    let mut h = host("a", &["80", "80"]);
    h.client_max_body_size = None;
    let facts = vec![facts_for(&h)];
    let cfg = ServerConfig { servers: vec![h], validation_errors: vec![] };
    let (_, logs) = cfg.retain_valid_hosts(false, &facts);
    assert!(logs.is_empty());
    let mut h2 = host("a", &["80", "80"]);
    h2.client_max_body_size = None;
    let facts2 = vec![facts_for(&h2)];
    let cfg2 = ServerConfig { servers: vec![h2], validation_errors: vec![] };
    let (_, logs2) = cfg2.retain_valid_hosts(true, &facts2);
    assert_eq!(logs2.len(), 1);
    assert_eq!(logs2[0].level, LogLevel::WARN);
    assert_eq!(logs2[0].module, "CONFIG - a");
}

#[test]
fn route_problems_are_warnings_with_cgi_last() {
    let r = Route {
        path: None,
        methods: Some(vec![]),
        root: Some(String::new()),
        default_page: None,
        directory_listing: None,
        redirect: None,
        cgi: Some(CgiConfig { extension: "sh".to_string(), script_path: String::new() }),
        session_required: None,
        session_redirect: None,
    };
    let problems = r.validate(&all_exist());
    assert!(problems.iter().all(|e| matches!(e, ConfigError::Warning(_))));
    assert_eq!(
        texts(&problems[problems.len() - 2..]),
        vec![
            "Warning: CgiConfig extension 'sh' is not allowed. Allowed extensions: [\"py\"]".to_string(),
            "Warning: CgiConfig script_path is empty".to_string(),
        ]
    );
}

#[test]
fn route_method_names_read_as_methods() {
    let mut r = route(Some("/"));
    r.methods = Some(vec!["POST".to_string(), "DELETE".to_string(), "BREW".to_string()]);
    let ms: Vec<String> = r.http_methods().iter().map(|m| m.as_str().to_string()).collect();
    assert_eq!(ms, vec!["POST".to_string(), "DELETE".to_string(), "GET".to_string()]);
    r.methods = None;
    assert!(r.http_methods().is_empty());
}
