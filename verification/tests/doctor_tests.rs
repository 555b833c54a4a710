use paramo::doctor::{diagnostic, plist_diagnostic, render_cli, DiagnosticLevel, PlistState};
use paramo::launchd::render_plist;
use paramo::i18n::{I18n, Language};

#[test]
fn test_render_cli_contains_levels() {
    let diagnostics = vec![diagnostic(
        DiagnosticLevel::Warn,
        "Title",
        "Detail",
        Some("Hint"),
    )];
    let rendered = render_cli(&diagnostics, I18n::new(Language::En));
    assert!(rendered.contains("[WARN] Title"));
}

#[test]
fn plist_findings_quote_what_was_read() {
    let en = I18n::new(Language::En);
    let content = render_plist("/usr/local/bin/paramo");
    let ok = plist_diagnostic(&PlistState::Read { content: content.clone(), binary_exists: true }, en);
    assert_eq!(ok.level, DiagnosticLevel::Success);
    assert_eq!(
        ok.detail,
        "/Library/LaunchDaemons/com.paramo.blocker.plist -> [\"/usr/local/bin/paramo\", \"run\"]"
    );
    let other = content.replace("com.paramo.blocker", "com.other");
    let mismatch = plist_diagnostic(&PlistState::Read { content: other, binary_exists: true }, en);
    assert_eq!(mismatch.level, DiagnosticLevel::Warn);
    assert_eq!(
        mismatch.detail,
        "Label=Some(\"com.other\"), ProgramArguments=[\"/usr/local/bin/paramo\", \"run\"]"
    );
    let missing = plist_diagnostic(&PlistState::Read { content, binary_exists: false }, en);
    assert_eq!(missing.level, DiagnosticLevel::Error);
    assert_eq!(missing.detail, "/usr/local/bin/paramo");
}
