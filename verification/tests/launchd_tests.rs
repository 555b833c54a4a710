use paramo::launchd::{escape_xml, unescape_xml};
use paramo::launchd::{parse_launchctl_print, plist_program_arguments, render_plist};

const BINARY_PLACEHOLDER: &str = "__PARAMO_BINARY__";

#[test]
fn test_render_plist_replaces_template_values() {
    let plist = render_plist("/usr/local/bin/paramo");
    assert!(plist.contains("<string>/usr/local/bin/paramo</string>"));
    assert!(!plist.contains(BINARY_PLACEHOLDER));
}

#[test]
fn test_program_arguments_are_extracted() {
    let plist = render_plist("/usr/local/bin/paramo");
    assert_eq!(
        plist_program_arguments(&plist),
        vec!["/usr/local/bin/paramo".to_string(), "run".to_string()]
    );
}

#[test]
fn test_parse_launchctl_print_extracts_common_fields() {
    let output = r#"
com.paramo.blocker = {
    pid = 123
    program = /usr/local/bin/paramo
    last exit code = 0
}
"#;

    let parsed = parse_launchctl_print(output);
    assert_eq!(parsed.pid.as_deref(), Some("123"));
    assert_eq!(parsed.last_exit_status.as_deref(), Some("0"));
    assert_eq!(parsed.program.as_deref(), Some("/usr/local/bin/paramo"));
}

#[test]
fn unescaping_gives_the_escaped_path_back() {
    let path = "/Users/a&b/<x> \"q\" 'y' &amp;lt;";
    let escaped = escape_xml(path);
    assert!(!escaped.contains('<') && !escaped.contains('"'));
    assert_eq!(unescape_xml(&escaped), path);
}

#[test]
fn plist_arguments_read_back_any_path() {
    for path in ["/usr/local/bin/paramo", "/Users/a&b/<x> \"q\" 'y'/paramo", "/tmp/&amp;/paramo"] {
        assert_eq!(plist_program_arguments(&render_plist(path)), vec![path.to_string(), "run".to_string()]);
    }
}
