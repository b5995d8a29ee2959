use localhost::sites::{
    banner_text, hosts_entry_line, hosts_has_entry, join_ports, parse_ports, NameCheck, SiteEntry, SiteRegistry,
};

fn site(name: &str, address: &str) -> SiteEntry {
    SiteEntry { server_address: address.to_string(), server_name: name.to_string(), ports: vec!["8080".to_string()] }
}

#[test]
fn new_site_names_are_checked() {
    let mut reg = SiteRegistry::new();
    assert_eq!(reg.check_server_name(""), NameCheck::Empty);
    assert_eq!(reg.check_server_name("one.home"), NameCheck::Accepted);
    reg.add(site("one.home", "127.0.0.2"));
    assert_eq!(reg.check_server_name("one.home"), NameCheck::Taken);
    assert_eq!(reg.check_server_name("two.home"), NameCheck::Accepted);
}

#[test]
fn addresses_offered_and_taken() {
    let mut reg = SiteRegistry::new();
    assert_eq!(reg.default_address(), "127.0.0.2");
    reg.add(site("a", "127.0.0.2"));
    reg.add(site("b", "127.0.0.7"));
    assert_eq!(reg.default_address(), "127.0.0.4");
    assert!(reg.address_taken("127.0.0.7"));
    assert!(!reg.address_taken("127.0.0.4"));
}

#[test]
fn ports_typed_as_one_text() {
    assert_eq!(parse_ports(" 8080, 8081 ,9000"), vec!["8080", "8081", "9000"]);
    assert_eq!(parse_ports(""), vec![""]);
    assert_eq!(parse_ports("80,,81"), vec!["80", "", "81"]);
    assert_eq!(join_ports(&vec!["80".to_string(), "81".to_string()]), "80, 81");
    assert_eq!(join_ports(&Vec::new()), "");
}

#[test]
fn hosts_file_lines() {
    assert_eq!(hosts_entry_line("127.0.0.2", "one.home"), "127.0.0.2      one.home");
    let content = "127.0.0.1 localhost\n127.0.0.2      one.home\n";
    assert!(hosts_has_entry(content, "one.home"));
    assert!(hosts_has_entry(content, "local"));
    assert!(!hosts_has_entry(content, "two.home"));
    assert!(!hosts_has_entry("", "x"));
}

#[test]
fn banner_placeholders_filled() {
    let t = "[{current_time}|{environment}|{mode}|{host_count}|{upload_dir}|{mode}]";
    assert_eq!(
        banner_text(t, "2024-01-01 00:00:00", "Development", "Debug", 3, "example/upload"),
        "[2024-01-01 00:00:00|Development|Debug|3|example/upload|Debug]"
    );
    assert_eq!(banner_text("plain", "a", "b", "c", 0, "d"), "plain");
}
