use html_saver::{Sanitizer, SelectorAction, SelectorSanitizer};

#[test]
fn remove_script_tags() {
    let sanitizer = SelectorSanitizer::new(vec![("script", SelectorAction::RemoveElement)]);
    let html = r#"<html><head><script>alert('xss')</script></head><body><p>Hello</p><script src="tracker.js"></script></body></html>"#;
    let result = sanitizer.sanitize(html);
    assert!(!result.contains("<script"));
    assert!(!result.contains("alert"));
    assert!(!result.contains("tracker.js"));
    assert!(result.contains("<p>Hello</p>"));
}

#[test]
fn remove_hidden_inputs() {
    let sanitizer = SelectorSanitizer::new(vec![(
        r#"input[type="hidden"]"#,
        SelectorAction::RemoveElement,
    )]);
    let html = r#"<form><input type="hidden" name="csrf" value="token123"><input type="text" name="user"></form>"#;
    let result = sanitizer.sanitize(html);
    assert!(!result.contains("csrf"));
    assert!(!result.contains("token123"));
    assert!(result.contains(r#"type="text""#));
}

#[test]
fn remove_tracking_pixels() {
    let sanitizer = SelectorSanitizer::new(vec![(
        r#"img[width="1"][height="1"]"#,
        SelectorAction::RemoveElement,
    )]);
    let html = r#"<img src="photo.jpg" width="640" height="480"><img src="track.gif" width="1" height="1">"#;
    let result = sanitizer.sanitize(html);
    assert!(!result.contains("track.gif"));
    assert!(result.contains("photo.jpg"));
}

#[test]
fn remove_attribute_from_elements() {
    let sanitizer = SelectorSanitizer::new(vec![(
        "a",
        SelectorAction::RemoveAttr("onclick".to_string()),
    )]);
    let html = r#"<a href="/page" onclick="track()">Link</a>"#;
    let result = sanitizer.sanitize(html);
    assert!(result.contains(r#"href="/page""#));
    assert!(!result.contains("onclick"));
    assert!(result.contains("Link"));
}

#[test]
fn replace_text_content() {
    let sanitizer = SelectorSanitizer::new(vec![(
        ".secret",
        SelectorAction::ReplaceText("[REDACTED]".to_string()),
    )]);
    let html =
        r#"<span class="secret">my-api-key-12345</span><span class="public">visible</span>"#;
    let result = sanitizer.sanitize(html);
    assert!(result.contains("[REDACTED]"));
    assert!(!result.contains("my-api-key-12345"));
    assert!(result.contains("visible"));
}

#[test]
fn remove_noscript_and_style_elements() {
    let sanitizer = SelectorSanitizer::new(vec![
        ("noscript", SelectorAction::RemoveElement),
        ("style", SelectorAction::RemoveElement),
    ]);
    let html = r#"<html><head><style>body{color:red}</style></head><body><p>Content</p><noscript>Enable JS</noscript></body></html>"#;
    let result = sanitizer.sanitize(html);
    assert!(!result.contains("<style"));
    assert!(!result.contains("<noscript"));
    assert!(result.contains("Content"));
}

#[test]
fn invalid_selector_is_skipped() {
    let sanitizer = SelectorSanitizer::new(vec![("[[[invalid", SelectorAction::RemoveElement)]);
    let html = "<p>unchanged</p>";
    let result = sanitizer.sanitize(html);
    assert!(result.contains("unchanged"));
}

#[test]
fn invalid_selector_leaves_text_byte_for_byte() {
    let sanitizer = SelectorSanitizer::new(vec![("[[[invalid", SelectorAction::RemoveElement)]);
    let html = "<p>unchanged <b>as is</p>";
    assert_eq!(sanitizer.sanitize(html), html);
}

#[test]
fn removed_element_takes_nested_descendants() {
    let sanitizer = SelectorSanitizer::new(vec![(".ad", SelectorAction::RemoveElement)]);
    let html = r#"<div class="ad"><div><span>deep <b>bold</b></span><img src="x.gif"></div></div><p>keep</p>"#;
    assert_eq!(sanitizer.sanitize(html), "<html><p>keep</p></html>");
}

#[test]
fn serialization_writes_tags_text_and_comments() {
    let sanitizer = SelectorSanitizer::new(vec![("b", SelectorAction::RemoveElement)]);
    let html = r#"<p class="x">a<b>gone</b>z<!-- note --><br></p>"#;
    assert_eq!(
        sanitizer.sanitize(html),
        r#"<html><p class="x">az<!-- note --><br></p></html>"#
    );
}

#[test]
fn replace_text_keeps_the_element_tags() {
    let sanitizer = SelectorSanitizer::new(vec![(
        "span",
        SelectorAction::ReplaceText("[X]".to_string()),
    )]);
    let html = r#"<span id="k"><i>inner</i></span>"#;
    assert_eq!(sanitizer.sanitize(html), r#"<html><span id="k">[X]</span></html>"#);
}

#[test]
fn remove_attr_only_on_matched_elements() {
    let sanitizer = SelectorSanitizer::new(vec![(
        "a.t",
        SelectorAction::RemoveAttr("onclick".to_string()),
    )]);
    let html = r#"<a class="t" onclick="f()">1</a><a onclick="g()">2</a>"#;
    assert_eq!(
        sanitizer.sanitize(html),
        r#"<html><a class="t">1</a><a onclick="g()">2</a></html>"#
    );
}

#[test]
fn later_rule_sees_earlier_removal() {
    // After `.wrap` is gone, the `p` is the first child of its parent.
    let sanitizer = SelectorSanitizer::new(vec![
        (".wrap", SelectorAction::RemoveElement),
        ("div > p:first-child", SelectorAction::ReplaceText("first".to_string())),
    ]);
    let html = r#"<div><span class="wrap">w</span><p>old</p></div>"#;
    assert_eq!(sanitizer.sanitize(html), "<html><div><p>first</p></div></html>");
}

#[test]
fn no_rules_returns_input_unparsed() {
    let sanitizer = SelectorSanitizer::new(vec![]);
    assert_eq!(sanitizer.sanitize("<p>open"), "<p>open");
}
