use pyserver::cli::{listen_addr, parse_port, CliArgs};

fn texts(v: &[&str]) -> Vec<String> {
    v.iter().map(|s| s.to_string()).collect()
}

#[test]
fn ports_parse() {
    assert_eq!(parse_port("80"), Some(80));
    assert_eq!(parse_port("+8080"), Some(8080));
    assert_eq!(parse_port("0065535"), Some(65535));
    assert_eq!(parse_port("65536"), None);
    assert_eq!(parse_port("-1"), None);
    assert_eq!(parse_port(""), None);
    assert_eq!(parse_port("+"), None);
    assert_eq!(parse_port("80a"), None);
    assert_eq!(parse_port("99999999999999999999"), None);
}

#[test]
fn ports_kept_once_in_order() {
    let (args, bad) = CliArgs::from_values(false, true, None, &texts(&["8080", "x", "3000", "8080", "70000"]), None);
    assert_eq!(args.listen_ports, vec![8080, 3000]);
    assert_eq!(bad, texts(&["x", "70000"]));
    assert!(args.only_localhost);
    assert!(!args.show_html);
}

#[test]
fn default_port_when_none_valid() {
    let (args, bad) = CliArgs::from_values(false, false, None, &texts(&["nope"]), None);
    assert_eq!(args.listen_ports, vec![80]);
    assert_eq!(bad, texts(&["nope"]));
    let (args, bad) = CliArgs::from_values(false, false, None, &Vec::new(), Some("requests.log".to_string()));
    assert_eq!(args.listen_ports, vec![80]);
    assert!(bad.is_empty());
    assert_eq!(args.log_file, Some("requests.log".to_string()));
}

#[test]
fn spa_turns_html_on() {
    let (args, _) = CliArgs::from_values(false, false, Some("./index.html".to_string()), &texts(&["80"]), None);
    assert!(args.show_html);
    assert_eq!(args.spa_file, Some("./index.html".to_string()));
}

#[test]
fn bind_addresses() {
    assert_eq!(listen_addr(true, 8080), "localhost:8080");
    assert_eq!(listen_addr(false, 80), "0.0.0.0:80");
}
