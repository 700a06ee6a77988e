use core_rs::report::{ConversionIssue, ConversionReport};
use core_rs::{CoreRsError, IssueSeverity};

fn issue(feature: &str, severity: IssueSeverity, degraded: bool) -> ConversionIssue {
    ConversionIssue { feature: feature.to_string(), message: format!("{feature} message"), severity, degraded }
}

#[test]
fn report_keeps_each_issue_once_in_first_order() {
    let report = ConversionReport::from_issues(vec![
        issue("HTML", IssueSeverity::Warning, true),
        issue("math", IssueSeverity::Error, false),
        issue("HTML", IssueSeverity::Warning, true),
        issue("footnote", IssueSeverity::Warning, true),
    ]);
    let features: Vec<&str> = report.issues.iter().map(|i| i.feature.as_str()).collect();
    assert_eq!(features, vec!["HTML", "math", "footnote"]);
    assert_eq!(report.unsupported_count, 1);
    assert_eq!(report.fallback_count, 2);
    assert!(report.degraded);
}

#[test]
fn report_of_a_report_is_the_same() {
    let first = ConversionReport::from_issues(vec![
        issue("a", IssueSeverity::Error, false),
        issue("a", IssueSeverity::Error, false),
        issue("b", IssueSeverity::Warning, false),
    ]);
    let again = ConversionReport::from_issues(first.issues.iter().map(|i| i.duplicate()).collect());
    assert_eq!(again, first);
    assert!(!again.degraded);
    assert_eq!(again.fallback_count, 0);
}

#[test]
fn recorded_error_upgrades_the_matching_issue() {
    let report = ConversionReport::from_issues(vec![issue("HTML", IssueSeverity::Warning, true)]);
    let error = CoreRsError::UnsupportedFeature("html".to_string());
    let updated = report.with_error_issue(&error);
    assert_eq!(updated.issues.len(), 1);
    assert_eq!(updated.issues[0].feature, "HTML");
    assert_eq!(updated.issues[0].severity, IssueSeverity::Error);
    assert!(!updated.issues[0].degraded);
    assert_eq!(updated.unsupported_count, 1);
    assert!(!updated.degraded);
}

#[test]
fn recorded_error_without_a_match_is_added() {
    let report = ConversionReport::from_issues(vec![]);
    let updated = report.with_error_issue(&CoreRsError::Zip("disk full".to_string()));
    assert_eq!(updated.issues.len(), 1);
    assert_eq!(updated.issues[0].feature, "zip packaging failed");
    assert_eq!(updated.issues[0].severity, IssueSeverity::Error);
    assert_eq!(updated.unsupported_count, 1);
}
