use backend_supervisor::discovery::{
    health_url, parse_port, parse_port_line, shutdown_url, sweep_ports, DEFAULT_PORT, MAX_PORT,
    PORT_EVENT, PORT_HINT_FILE, SWEEP_FIRST_PORT, SWEEP_LAST_PORT,
};
use backend_supervisor::text::chars_of;

fn like_the_std_chain(line: &str) -> Option<u16> {
    let trimmed = line.trim();
    if trimmed.contains("FLASK_PORT:") {
        if let Some(part) = trimmed.split("FLASK_PORT:").nth(1) {
            let word = part.split_whitespace().next().unwrap_or(part).trim();
            return word.parse::<u16>().ok();
        }
    }
    None
}

#[test]
fn marker_line_announces_port() {
    assert_eq!(parse_port_line("...FLASK_PORT:4321 ..."), Some(4321));
    assert_eq!(parse_port_line("FLASK_PORT:5000"), Some(5000));
    assert_eq!(parse_port_line("  INFO FLASK_PORT: 5017\r\n"), Some(5017));
    assert_eq!(parse_port_line("FLASK_PORT:\t65535 ready"), Some(65535));
    assert_eq!(parse_port_line("FLASK_PORT:+80"), Some(80));
    assert_eq!(parse_port_line("FLASK_PORT:0"), Some(0));
}

#[test]
fn lines_without_a_port_announce_nothing() {
    assert_eq!(parse_port_line(""), None);
    assert_eq!(parse_port_line("Running on http://127.0.0.1:5000"), None);
    assert_eq!(parse_port_line("FLASK_PORT"), None);
    assert_eq!(parse_port_line("FLASK_PORT:"), None);
    assert_eq!(parse_port_line("FLASK_PORT:   "), None);
    assert_eq!(parse_port_line("FLASK_PORT:abc"), None);
    assert_eq!(parse_port_line("FLASK_PORT:65536"), None);
    assert_eq!(parse_port_line("FLASK_PORT:-1"), None);
    assert_eq!(parse_port_line("FLASK_PORT:5000,"), None);
    assert_eq!(parse_port_line("flask_port:5000"), None);
}

#[test]
fn only_the_field_behind_the_first_marker_counts() {
    assert_eq!(parse_port_line("FLASK_PORT:12FLASK_PORT:34"), Some(12));
    assert_eq!(parse_port_line("FLASK_PORT:FLASK_PORT:34"), None);
    assert_eq!(parse_port_line("FLASK_PORT:x FLASK_PORT:34"), None);
    assert_eq!(parse_port_line("a FLASK_PORT: 7 8 FLASK_PORT: 9"), Some(7));
    assert_eq!(parse_port_line("FLASK_PORFLASK_PORT:5001"), Some(5001));
}

#[test]
fn port_line_agrees_with_the_std_chain() {
    for line in [
        "", " ", "FLASK_PORT:", "FLASK_PORT:1", " FLASK_PORT: 22 ", "xFLASK_PORT:333y",
        "FLASK_PORT:4444\n", "FLASK_PORT:\u{A0}5555", "FLASK_PORT:1FLASK_PORT:2",
        "FLASK_PORT:FLASK_PORT:2", "FLASK_PORT: +6", "FLASK_PORT:65535", "FLASK_PORT:65536",
        "FLASK_PORT:00080 tail", "no marker here", "FLASK_PORT :80", "FLASK_PORT:80:81",
    ] {
        assert_eq!(parse_port_line(line), like_the_std_chain(line), "{:?}", line);
    }
}

#[test]
fn parse_port_reads_a_port_number() {
    assert_eq!(parse_port(&chars_of("5000")), Some(5000));
    assert_eq!(parse_port(&chars_of("65535")), Some(65535));
    assert_eq!(parse_port(&chars_of("65536")), None);
    assert_eq!(parse_port(&chars_of("")), None);
}

#[test]
fn addresses_of_the_worker() {
    assert_eq!(health_url(5000), "http://localhost:5000/api/health");
    assert_eq!(health_url(65535), "http://localhost:65535/api/health");
    assert_eq!(shutdown_url(4321), "http://localhost:4321/api/stop");
    assert_eq!(shutdown_url(0), "http://localhost:0/api/stop");
}

#[test]
fn sweep_covers_the_range() {
    let ports = sweep_ports(SWEEP_FIRST_PORT, SWEEP_LAST_PORT);
    assert_eq!(ports.len(), 101);
    assert_eq!(ports[0], 5000);
    assert_eq!(ports[100], 5100);
    assert_eq!(ports, (5000u16..=5100).collect::<Vec<u16>>());
    assert_eq!(sweep_ports(7, 7), vec![7]);
    assert_eq!(sweep_ports(8, 7), Vec::<u16>::new());
    assert_eq!(sweep_ports(65534, 65535), vec![65534, 65535]);
}

#[test]
fn constants_of_discovery() {
    assert_eq!(MAX_PORT, 65535);
    assert_eq!(DEFAULT_PORT, 5000);
    assert_eq!(PORT_EVENT, "flask-port-ready");
    assert_eq!(PORT_HINT_FILE, "port.txt");
}
