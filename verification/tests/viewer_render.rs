use gcp_logging::viewer::models::{self, SourceLocation};
use gcp_logging::viewer::render::{Labels, Severity, Sources};

#[test]
fn severity_names() {
    let names: Vec<&str> = [
        models::Severity::Default,
        models::Severity::Debug,
        models::Severity::Info,
        models::Severity::Notice,
        models::Severity::Warning,
        models::Severity::Error,
        models::Severity::Critical,
        models::Severity::Alert,
        models::Severity::Emergency,
    ]
    .iter()
    .map(|s| s.label())
    .collect();
    assert_eq!(names, vec!["TRACE", "DEBUG", " INFO", "NOTICE", " WARN", "ERROR", " CRIT", "ALERT", "EMERG"]);
    assert_eq!(models::Severity::default(), models::Severity::Default);
}

#[test]
fn severity_with_emoji_without_color() {
    assert_eq!(Severity::new(models::Severity::Default, false, true).to_text(), "\u{1f43e} TRACE");
    assert_eq!(Severity::new(models::Severity::Alert, false, true).to_text(), "\u{1f4a5} ALERT");
    assert_eq!(Severity::new(models::Severity::Notice, false, true).to_text(), "\u{1f43c} NOTICE");
    assert_eq!(Severity::new(models::Severity::Critical, false, true).to_text(), "\u{1f4a5}  CRIT");
    assert_eq!(Severity::new(models::Severity::Emergency, false, false).to_text(), "EMERG");
}

#[test]
fn severity_colors() {
    colored::control::set_override(true);
    assert_eq!(Severity::new(models::Severity::Error, true, false).to_text(), "\u{1b}[31mERROR\u{1b}[0m");
    assert_eq!(
        Severity::new(models::Severity::Notice, true, true).to_text(),
        "\u{1f43c} \u{1b}[37mNOTICE\u{1b}[0m"
    );
    assert_eq!(
        Severity::new(models::Severity::Critical, true, true).to_text(),
        "\u{1f4a5} \u{1b}[31m CRIT\u{1b}[0m"
    );
    assert_eq!(
        Severity::new(models::Severity::Emergency, true, false).to_text(),
        "\u{1b}[31mEMERG\u{1b}[0m"
    );
    assert_eq!(
        Severity::new(models::Severity::Warning, true, true).to_text(),
        "\u{26a0}\u{fe0f}  \u{1b}[35m WARN\u{1b}[0m"
    );
}

#[test]
fn labels_text() {
    assert_eq!(Labels(None).to_text(), "");
    assert_eq!(Labels(Some(Vec::new())).to_text(), "");
    assert_eq!(
        Labels(Some(vec![("a".to_owned(), "1".to_owned()), ("b".to_owned(), "".to_owned())])).to_text(),
        " (a=1, b=)"
    );
}

#[test]
fn sources_text() {
    assert_eq!(Sources(None).to_text(), "");
    assert_eq!(Sources(Some(SourceLocation { file: None, line: None, function: None })).to_text(), "");
    assert_eq!(
        Sources(Some(SourceLocation {
            file: Some("src/lib.rs".to_owned()),
            line: Some("24".to_owned()),
            function: Some("lib::main".to_owned()),
        }))
        .to_text(),
        " (file=src/lib.rs, line=24, function=lib::main)"
    );
    assert_eq!(
        Sources(Some(SourceLocation { file: None, line: None, function: Some("f".to_owned()) })).to_text(),
        " (function=f)"
    );
}
