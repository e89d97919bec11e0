use html_saver::{RegexSanitizer, Sanitizer};

#[test]
fn remove_phone_numbers() {
    let sanitizer = RegexSanitizer::new(vec![(r"\+?\d[\d\-\s]{8,}\d", "[PHONE REDACTED]")]);
    let html = r#"<p>Call us at +1-800-555-1234 or +44 20 7946 0958</p>"#;
    let result = sanitizer.sanitize(html);
    assert!(!result.contains("800-555-1234"));
    assert!(!result.contains("7946 0958"));
    assert!(result.contains("[PHONE REDACTED]"));
}

#[test]
fn remove_credit_card_patterns() {
    let sanitizer = RegexSanitizer::new(vec![(
        r"\b\d{4}[\s\-]?\d{4}[\s\-]?\d{4}[\s\-]?\d{4}\b",
        "[CARD REDACTED]",
    )]);
    let html = r#"<span>Card: 4111-1111-1111-1111</span><span>Also 5500 0000 0000 0004</span>"#;
    let result = sanitizer.sanitize(html);
    assert_eq!(result.matches("[CARD REDACTED]").count(), 2);
    assert!(!result.contains("4111"));
    assert!(!result.contains("5500"));
}

#[test]
fn remove_email_addresses() {
    let sanitizer = RegexSanitizer::new(vec![(
        r"[a-zA-Z0-9._%+\-]+@[a-zA-Z0-9.\-]+\.[a-zA-Z]{2,}",
        "[EMAIL REDACTED]",
    )]);
    let html =
        r#"<a href="mailto:user@example.com">user@example.com</a> and admin+test@corp.co.uk"#;
    let result = sanitizer.sanitize(html);
    assert!(!result.contains("user@example.com"));
    assert!(!result.contains("admin+test@corp.co.uk"));
    assert_eq!(result.matches("[EMAIL REDACTED]").count(), 3); // href + text + second
}

#[test]
fn multiple_rules_applied_in_order() {
    let sanitizer = RegexSanitizer::new(vec![
        (r"\d{3}-\d{2}-\d{4}", "[SSN]"), // SSN pattern
        (r"\[SSN\]", "***-**-****"),     // then mask the placeholder
    ]);
    let result = sanitizer.sanitize("SSN: 123-45-6789");
    assert_eq!(result, "SSN: ***-**-****");
}

#[test]
fn no_rules_returns_original() {
    let sanitizer = RegexSanitizer::new(vec![]);
    let html = "<p>unchanged</p>";
    assert_eq!(sanitizer.sanitize(html), html);
}

#[test]
fn try_new_invalid_pattern() {
    let result = RegexSanitizer::try_new(vec![("[invalid", "x")]);
    assert!(result.is_err());
}

#[test]
fn try_new_valid_pattern() {
    let result = RegexSanitizer::try_new(vec![(r"\d+", "NUM")]);
    assert!(result.is_ok());
    let sanitizer = result.unwrap();
    assert_eq!(sanitizer.sanitize("abc 123 def"), "abc NUM def");
}

#[test]
fn try_new_rejects_when_a_later_pattern_is_invalid() {
    let result = RegexSanitizer::try_new(vec![(r"\d+", "NUM"), ("(unclosed", "x")]);
    assert!(result.is_err());
}

#[test]
fn try_new_with_no_rules_is_ok() {
    let sanitizer = RegexSanitizer::try_new(vec![]).unwrap();
    assert_eq!(sanitizer.sanitize("<p>same</p>"), "<p>same</p>");
}

#[test]
fn replacement_expands_group_references() {
    let sanitizer = RegexSanitizer::new(vec![(r"(\w+)@(\w+)\.com", "$2 at $1")]);
    assert_eq!(sanitizer.sanitize("mail bob@corp.com now"), "mail corp at bob now");
}
