use paramo::scheduler::LocalTime;
use paramo::witness::{
    debounce_allow, entries_on_day, extract_http_host, http_host_readable, extract_sni, format_today_report,
    parse_witness_line, witness_line, Debounce, WitnessEntry,
};

/// A TLS ClientHello whose extensions are `extensions` (type, data), in order.
fn client_hello(extensions: &[(u16, Vec<u8>)]) -> Vec<u8> {
    let mut b = vec![0x16, 0x03, 0x01, 0x00, 0x00, 0x01, 0x00, 0x00, 0x00, 0x03, 0x03];
    b.extend(std::iter::repeat(0xAA).take(32)); // random
    b.push(0); // session id length
    b.extend([0x00, 0x02, 0x13, 0x01]); // one cipher suite
    b.extend([0x01, 0x00]); // one compression method
    let mut ext = Vec::new();
    for (kind, data) in extensions {
        ext.extend(kind.to_be_bytes());
        ext.extend((data.len() as u16).to_be_bytes());
        ext.extend(data);
    }
    b.extend((ext.len() as u16).to_be_bytes());
    b.extend(ext);
    b
}

fn sni_data(name: &[u8]) -> Vec<u8> {
    let mut d = Vec::new();
    d.extend(((name.len() + 3) as u16).to_be_bytes());
    d.push(0);
    d.extend((name.len() as u16).to_be_bytes());
    d.extend(name);
    d
}

#[test]
fn sni_is_read_from_client_hello() {
    let hello = client_hello(&[(0x0000, sni_data(b"example.com"))]);
    assert_eq!(extract_sni(&hello).as_deref(), Some("example.com"));
}

#[test]
fn sni_is_found_after_other_extensions() {
    let hello = client_hello(&[
        (0x000a, vec![0x00, 0x02, 0x00, 0x17]),
        (0x0000, sni_data(b"www.youtube.com")),
    ]);
    assert_eq!(extract_sni(&hello).as_deref(), Some("www.youtube.com"));
}

#[test]
fn sni_needs_a_handshake_record() {
    let mut hello = client_hello(&[(0x0000, sni_data(b"example.com"))]);
    hello[0] = 0x17;
    assert_eq!(extract_sni(&hello), None);
}

#[test]
fn sni_cut_short_gives_nothing() {
    let hello = client_hello(&[(0x0000, sni_data(b"example.com"))]);
    assert_eq!(extract_sni(&hello[..hello.len() - 3]), None);
    assert_eq!(extract_sni(&hello[..20]), None);
}

#[test]
fn sni_that_is_not_utf8_gives_nothing() {
    let hello = client_hello(&[(0x0000, sni_data(&[0x66, 0xFF, 0x66]))]);
    assert_eq!(extract_sni(&hello), None);
}

#[test]
fn sni_absent_gives_nothing() {
    let hello = client_hello(&[(0x000a, vec![0x00, 0x02, 0x00, 0x17])]);
    assert_eq!(extract_sni(&hello), None);
}

#[test]
fn http_host_is_lowercased_without_port() {
    let request = b"GET / HTTP/1.1\r\nHOST:  Example.COM:8080 \r\nAccept: */*\r\n\r\n";
    assert_eq!(extract_http_host(request).as_deref(), Some("example.com"));
}

#[test]
fn http_host_skips_empty_values() {
    let request = b"GET / HTTP/1.1\r\nHost: \r\nhost: tiktok.com\r\n\r\n";
    assert_eq!(extract_http_host(request).as_deref(), Some("tiktok.com"));
}

#[test]
fn http_without_host_gives_nothing() {
    assert_eq!(extract_http_host(b"GET / HTTP/1.1\r\nAccept: */*\r\n\r\n"), None);
    assert_eq!(extract_http_host(&[0x48, 0xFF, 0x0A]), None);
}

#[test]
fn debounce_quiets_repeats_for_five_seconds() {
    let mut state = Debounce::new();
    assert!(debounce_allow(&mut state, "example.com", "https", 1_000));
    assert!(!debounce_allow(&mut state, "example.com", "https", 2_000));
    assert!(!debounce_allow(&mut state, "example.com", "https", 5_999));
    assert!(debounce_allow(&mut state, "example.com", "http", 2_000));
    assert!(debounce_allow(&mut state, "example.com", "https", 6_000));
    assert!(!debounce_allow(&mut state, "example.com", "https", 10_999));
    assert_eq!(state.seen.len(), 2);
}

#[test]
fn witness_line_joins_fields() {
    assert_eq!(
        witness_line("2024-03-18T10:15:00+01:00", "example.com", "https"),
        "2024-03-18T10:15:00+01:00|example.com|https"
    );
}

#[test]
fn witness_line_is_read_back() {
    let e = parse_witness_line("2024-03-18T10:15:00+00:00|example.com| https \n").unwrap();
    assert_eq!(e.domain, "example.com");
    assert_eq!(e.proto, "https");
    assert!(e.timestamp.hour < 24);
    let rest = parse_witness_line("2024-03-18T10:15:00+00:00|a.com|tcp|extra").unwrap();
    assert_eq!(rest.proto, "tcp|extra");
}

#[test]
fn malformed_witness_lines_give_nothing() {
    assert!(parse_witness_line("2024-03-18T10:15:00+00:00|example.com").is_none());
    assert!(parse_witness_line("yesterday|example.com|https").is_none());
    assert!(parse_witness_line("").is_none());
}

fn entry(day: i32, hour: u32, minute: u32, domain: &str, proto: &str) -> WitnessEntry {
    WitnessEntry {
        timestamp: LocalTime { day, hour, minute, second: 0 },
        domain: domain.to_string(),
        proto: proto.to_string(),
    }
}

// 2024-03-18 as chrono counts days from the common era.
const MONDAY: i32 = 738963;

#[test]
fn entries_of_a_day_keep_their_order() {
    let all = vec![
        entry(MONDAY, 9, 0, "a.com", "http"),
        entry(MONDAY - 1, 9, 0, "b.com", "http"),
        entry(MONDAY, 10, 0, "c.com", "https"),
    ];
    let today = entries_on_day(&all, MONDAY);
    let domains: Vec<&str> = today.iter().map(|e| e.domain.as_str()).collect();
    assert_eq!(domains, vec!["a.com", "c.com"]);
}

#[test]
fn report_without_attempts() {
    let now = LocalTime { day: MONDAY, hour: 21, minute: 5, second: 0 };
    let r = format_today_report(&vec![entry(MONDAY - 1, 9, 0, "a.com", "http")], now);
    assert_eq!(
        r,
        "\n  El Testigo · 18/03/2024\n\n  Sin intentos registrados hoy. ¡Sigue así!\n\n"
    );
}

#[test]
fn report_lists_attempts_and_totals() {
    let now = LocalTime { day: MONDAY, hour: 21, minute: 5, second: 0 };
    let entries = vec![
        entry(MONDAY, 9, 5, "youtube.com", "https"),
        entry(MONDAY, 9, 7, "tiktok.com", "http"),
        entry(MONDAY - 2, 9, 7, "old.com", "http"),
        entry(MONDAY, 11, 30, "tiktok.com", "https"),
    ];
    let mut expected = String::from("\n  El Testigo · 18/03/2024\n\n");
    for (time, domain, proto) in [
        ("09:05", "youtube.com", "https"),
        ("09:07", "tiktok.com", "http"),
        ("11:30", "tiktok.com", "https"),
    ] {
        expected.push_str(&format!("  {}  {:<30}  {}\n", time, domain, proto));
    }
    expected.push_str("\n  ──────────────────────────────────────\n");
    expected.push_str("  Total hoy:        3 intentos\n");
    expected.push_str("  Dominios únicos:  2\n");
    expected.push_str("  Más intentado:    tiktok.com (2x)\n");
    expected.push('\n');
    assert_eq!(format_today_report(&entries, now), expected);
}

#[test]
fn report_tie_names_the_later_domain() {
    let now = LocalTime { day: MONDAY, hour: 21, minute: 5, second: 0 };
    let entries = vec![
        entry(MONDAY, 9, 5, "a.com", "https"),
        entry(MONDAY, 9, 6, "b.com", "https"),
    ];
    let r = format_today_report(&entries, now);
    assert!(r.contains("  Más intentado:    b.com (1x)\n"));
    assert!(r.contains("  Dominios únicos:  2\n"));
}

#[test]
fn host_is_readable_unless_a_line_before_it_is_cut_inside_a_character() {
    let cut_first = "GET \u{e9} /\r\nHost: a.com\r\n".as_bytes();
    assert!(!http_host_readable(cut_first));
    let host_first = "Host: a.com\r\nGET \u{e9} /\r\n".as_bytes();
    assert!(http_host_readable(host_first));
    assert_eq!(extract_http_host(host_first), Some("a.com".to_string()));
    assert!(http_host_readable(&[0xff, 0xfe]));
    assert_eq!(extract_http_host(&[0xff, 0xfe]), None);
}
