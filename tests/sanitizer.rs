use selma::tags::{IFRAME_INDEX, META_INDEX, UNKNOWN_INDEX};
use selma::{
    has_allowed_protocol, sanitize_class_attribute, AllowedProtocol, AttrEdit, AttributePlan, ElementDecision,
    Removal, SelmaSanitizer, Tag, SELMA_SANITIZER_ALLOW, SELMA_SANITIZER_REMOVE_CONTENTS,
    SELMA_SANITIZER_WRAP_WHITESPACE, TAG_COUNT,
};

fn strings(items: &[&str]) -> Vec<String> {
    items.iter().map(|s| s.to_string()).collect()
}

fn attrs(items: &[(&str, &str)]) -> Vec<(String, String)> {
    items.iter().map(|(n, v)| (n.to_string(), v.to_string())).collect()
}

fn edits_of(plan: AttributePlan) -> Vec<AttrEdit> {
    match plan {
        AttributePlan::Edit(e) => e,
        other => panic!("expected edits, got {:?}", other),
    }
}

fn assign(v: &str) -> AttrEdit {
    AttrEdit::Assign(v.to_string())
}

fn sanitizer_allowing(tag: &str, attr: &str) -> SelmaSanitizer<()> {
    let mut s = SelmaSanitizer::new(());
    s.set_flag(tag, SELMA_SANITIZER_ALLOW, true);
    s.set_allowed_attribute(tag, attr, true);
    s
}

#[test]
fn protocol_gate_examples() {
    assert!(has_allowed_protocol(&strings(&["http"]), "http://x"));
    assert!(!has_allowed_protocol(&strings(&["http"]), "javascript:alert(1)"));
    assert!(has_allowed_protocol(&strings(&["/"]), "/relative/path"));
    assert!(has_allowed_protocol(&strings(&["#"]), "#frag"));
}

#[test]
fn protocol_scheme_is_case_insensitive() {
    assert!(has_allowed_protocol(&strings(&["http"]), "HTTP://x"));
    assert!(!has_allowed_protocol(&strings(&["http"]), "mailto:a@b"));
}

#[test]
fn protocol_edge_values_do_not_panic() {
    assert!(has_allowed_protocol(&strings(&["/"]), "/"));
    assert!(!has_allowed_protocol(&strings(&["#"]), "/"));
    assert!(!has_allowed_protocol(&strings(&["http"]), ""));
    assert!(!has_allowed_protocol(&strings(&["http"]), "é"));
    assert!(!has_allowed_protocol(&strings(&["/"]), "#top"));
}

#[test]
fn class_intersection() {
    let r = sanitize_class_attribute(&strings(&[]), &strings(&["a", "b"]), "a c b");
    assert_eq!(r, Some("a b".to_string()));
    let r = sanitize_class_attribute(&strings(&["b"]), &strings(&["a"]), "  a\tc  b ");
    assert_eq!(r, Some("a b".to_string()));
}

#[test]
fn class_without_filters_passes_through() {
    let r = sanitize_class_attribute(&strings(&[]), &strings(&[]), "x  y z");
    assert_eq!(r, Some("x  y z".to_string()));
}

#[test]
fn class_with_no_survivor_is_dropped() {
    let r = sanitize_class_attribute(&strings(&["a"]), &strings(&[]), "c d");
    assert_eq!(r, None);
}

#[test]
fn disallowed_tag_keeps_content_with_wrap_whitespace() {
    let mut s = SelmaSanitizer::new(());
    s.set_flag("b", SELMA_SANITIZER_WRAP_WHITESPACE, true);
    let d = s.try_remove_element("b");
    assert_eq!(
        d,
        ElementDecision::Remove(Removal {
            remove_contents: false,
            space_before: true,
            space_after: true,
            remove_end_tag: true,
        })
    );
}

#[test]
fn disallowed_tag_without_wrap_keeps_content_plainly() {
    let s = SelmaSanitizer::new(());
    let d = s.try_remove_element("b");
    assert_eq!(
        d,
        ElementDecision::Remove(Removal {
            remove_contents: false,
            space_before: false,
            space_after: false,
            remove_end_tag: true,
        })
    );
}

#[test]
fn disallowed_self_closing_tag_gets_space_after_only() {
    let mut s = SelmaSanitizer::new(());
    s.set_flag("br", SELMA_SANITIZER_WRAP_WHITESPACE, true);
    assert_eq!(
        s.try_remove_element("br"),
        ElementDecision::Remove(Removal {
            remove_contents: false,
            space_before: false,
            space_after: true,
            remove_end_tag: false,
        })
    );
}

#[test]
fn disallowed_script_goes_with_its_text() {
    let mut s = SelmaSanitizer::new(());
    s.set_flag("script", SELMA_SANITIZER_WRAP_WHITESPACE, true);
    let d = s.try_remove_element("script");
    assert_eq!(
        d,
        ElementDecision::Remove(Removal {
            remove_contents: true,
            space_before: false,
            space_after: false,
            remove_end_tag: true,
        })
    );
    let plan = s.sanitize_attributes("script", &attrs(&[("src", "x.js")]));
    assert_eq!(plan.attributes, AttributePlan::Untouched);
}

#[test]
fn remove_contents_flag_drops_subtree() {
    let mut s = SelmaSanitizer::new(());
    s.set_flag("div", SELMA_SANITIZER_REMOVE_CONTENTS, true);
    match s.try_remove_element("div") {
        ElementDecision::Remove(r) => assert!(r.remove_contents && r.remove_end_tag),
        other => panic!("unexpected {:?}", other),
    }
}

#[test]
fn allowed_tag_is_kept_and_iframe_emptied() {
    let mut s = SelmaSanitizer::new(());
    s.set_flag("p", SELMA_SANITIZER_ALLOW, true);
    s.set_flag("iframe", SELMA_SANITIZER_ALLOW, true);
    assert_eq!(s.try_remove_element("p"), ElementDecision::Keep);
    assert_eq!(s.try_remove_element("IFRAME"), ElementDecision::KeepEmptied(true));
}

#[test]
fn comment_in_attribute_name_removes_element() {
    let mut s = sanitizer_allowing("div", "id");
    s.set_flag("div", SELMA_SANITIZER_REMOVE_CONTENTS, true);
    let plan = s.sanitize_attributes("div", &attrs(&[("id", "a"), ("<!--x", "y")]));
    assert_eq!(plan.decision, ElementDecision::Keep);
    assert_eq!(
        plan.attributes,
        AttributePlan::RemoveElement(Removal {
            remove_contents: true,
            space_before: false,
            space_after: false,
            remove_end_tag: true,
        })
    );
}

#[test]
fn meta_charset_is_pinned() {
    let s = sanitizer_allowing("meta", "charset");
    let plan = s.sanitize_attributes("meta", &attrs(&[("charset", "iso-8859-1")]));
    assert_eq!(edits_of(plan.attributes), vec![assign("utf-8")]);
    let plan = s.sanitize_attributes("meta", &attrs(&[("charset", "utf-8")]));
    assert_eq!(edits_of(plan.attributes), vec![AttrEdit::Keep]);
}

#[test]
fn unlisted_attribute_is_removed() {
    let mut s = sanitizer_allowing("a", "href");
    s.set_allowed_attribute("all", "title", true);
    let plan = s.sanitize_attributes("a", &attrs(&[("onclick", "x()"), ("title", "t"), ("href", "/p")]));
    assert_eq!(edits_of(plan.attributes), vec![AttrEdit::Remove, assign("t"), assign("/p")]);
}

#[test]
fn empty_attribute_value_is_removed() {
    let s = sanitizer_allowing("a", "title");
    let plan = s.sanitize_attributes("a", &attrs(&[("title", "")]));
    assert_eq!(edits_of(plan.attributes), vec![AttrEdit::Remove]);
}

#[test]
fn values_are_trimmed_decoded_and_escaped() {
    let s = sanitizer_allowing("p", "title");
    let plan = s.sanitize_attributes("p", &attrs(&[("title", "  <b>&amp;\"")]));
    assert_eq!(edits_of(plan.attributes), vec![assign("&lt;b&gt;&amp;&quot;")]);
}

#[test]
fn href_values_are_url_escaped() {
    let s = sanitizer_allowing("a", "href");
    let plan = s.sanitize_attributes("a", &attrs(&[("href", "/a b?x=1&amp;y=2")]));
    assert_eq!(edits_of(plan.attributes), vec![assign("/a%20b?x=1&amp;y=2")]);
}

#[test]
fn resanitizing_output_changes_nothing() {
    let s = sanitizer_allowing("p", "title");
    let first = edits_of(s.sanitize_attributes("p", &attrs(&[("title", "a&b<c>\"d")])).attributes);
    assert_eq!(first, vec![assign("a&amp;b&lt;c&gt;&quot;d")]);
    let second = edits_of(s.sanitize_attributes("p", &attrs(&[("title", "a&amp;b&lt;c&gt;&quot;d")])).attributes);
    assert_eq!(second, first);
}

#[test]
fn class_attribute_is_filtered_in_place() {
    let mut s = sanitizer_allowing("span", "class");
    s.set_allowed_class("span", "a", true);
    s.set_allowed_class("all", "b", true);
    let plan = s.sanitize_attributes("span", &attrs(&[("class", "a c b")]));
    assert_eq!(edits_of(plan.attributes), vec![assign("a b")]);
    let plan = s.sanitize_attributes("span", &attrs(&[("class", "c")]));
    assert_eq!(edits_of(plan.attributes), vec![AttrEdit::Remove]);
}

#[test]
fn protocols_are_checked_on_registered_attributes() {
    let mut s = sanitizer_allowing("a", "href");
    s.set_allowed_protocols("a", "href", &vec![AllowedProtocol::Literal("https".to_string()), AllowedProtocol::Relative]);
    let plan = s.sanitize_attributes(
        "a",
        &attrs(&[("href", "https://x"), ("href", "javascript:alert(1)"), ("href", "#top"), ("href", "/p")]),
    );
    assert_eq!(
        edits_of(plan.attributes),
        vec![assign("https://x"), AttrEdit::Remove, assign("#top"), assign("/p")]
    );
}

#[test]
fn protocol_lists_accumulate() {
    let mut s = SelmaSanitizer::new(());
    s.set_allowed_protocols("a", "href", &vec![AllowedProtocol::Literal("http".to_string())]);
    s.set_allowed_protocols("a", "href", &vec![AllowedProtocol::Relative]);
    let slot = Tag::tag_from_element_name("a").index;
    let es = &s.sanitizer.element_sanitizers[slot];
    assert_eq!(es.protocol_sanitizers.len(), 1);
    assert_eq!(es.protocol_sanitizers[0].0, "href");
    assert_eq!(es.protocol_sanitizers[0].1, strings(&["http", "#", "/"]));
}

#[test]
fn set_all_flags_clears_only_the_given_bit() {
    let mut s = SelmaSanitizer::new(());
    s.set_all_flags(SELMA_SANITIZER_ALLOW | SELMA_SANITIZER_WRAP_WHITESPACE, true);
    s.set_all_flags(SELMA_SANITIZER_ALLOW, false);
    assert!(s.sanitizer.flags.iter().all(|f| *f == SELMA_SANITIZER_WRAP_WHITESPACE));
    assert_eq!(s.sanitizer.flags.len(), TAG_COUNT);
}

#[test]
fn set_flag_toggles_one_slot() {
    let mut s = SelmaSanitizer::new(());
    s.set_flag("DIV", SELMA_SANITIZER_ALLOW | SELMA_SANITIZER_REMOVE_CONTENTS, true);
    s.set_flag("div", SELMA_SANITIZER_REMOVE_CONTENTS, false);
    let slot = Tag::tag_from_element_name("div").index;
    assert_eq!(s.sanitizer.flags[slot], SELMA_SANITIZER_ALLOW);
    assert_eq!(s.sanitizer.flags.iter().filter(|f| **f != 0).count(), 1);
}

#[test]
fn per_tag_attribute_can_be_disallowed_again() {
    let mut s = sanitizer_allowing("a", "title");
    assert!(!s.set_allowed_attribute("a", "title", false));
    let plan = s.sanitize_attributes("a", &attrs(&[("title", "t")]));
    assert_eq!(edits_of(plan.attributes), vec![AttrEdit::Remove]);
}

#[test]
fn global_attribute_toggle() {
    let mut s = SelmaSanitizer::new(());
    s.set_allowed_attribute("all", "id", true);
    s.set_allowed_attribute("all", "lang", true);
    s.set_allowed_attribute("all", "id", false);
    assert_eq!(s.sanitizer.allowed_attrs, strings(&["lang"]));
}

#[test]
fn comment_and_doctype_gates() {
    let mut s = SelmaSanitizer::new(7u32);
    assert!(s.sanitize_comment());
    assert!(s.sanitize_doctype());
    assert!(s.set_allow_comments(true));
    assert!(!s.sanitize_comment());
    assert!(s.set_allow_doctype(true));
    assert!(!s.sanitize_doctype());
    assert_eq!(*s.config(), 7u32);
}

#[test]
fn tag_registry_lookup() {
    assert_eq!(Tag::tag_from_element_name("meta").index, META_INDEX);
    assert_eq!(Tag::tag_from_element_name("iframe").index, IFRAME_INDEX);
    assert_eq!(Tag::tag_from_element_name("blink").index, UNKNOWN_INDEX);
    assert!(Tag::tag_from_element_name("img").self_closing);
    assert!(Tag::tag_from_element_name("style").has_text_content);
    assert!(!Tag::tag_from_element_name("div").self_closing);
    assert_eq!(UNKNOWN_INDEX, TAG_COUNT - 1);
}

#[test]
fn protocol_without_delimiter_is_the_whole_value() {
    assert!(!has_allowed_protocol(&strings(&["http"]), "https"));
    assert!(has_allowed_protocol(&strings(&["https"]), "HTTPS"));
}

#[test]
fn global_attribute_allowed_twice_then_disallowed_is_gone() {
    let mut s = SelmaSanitizer::new(());
    s.set_flag("p", SELMA_SANITIZER_ALLOW, true);
    s.set_allowed_attribute("all", "x", true);
    s.set_allowed_attribute("all", "x", true);
    s.set_allowed_attribute("all", "x", false);
    assert!(!s.sanitizer.allowed_attrs.contains(&"x".to_string()));
    let plan = s.sanitize_attributes("p", &attrs(&[("x", "v")]));
    assert_eq!(edits_of(plan.attributes), vec![AttrEdit::Remove]);
}

#[test]
fn tag_attribute_allowed_twice_then_disallowed_is_gone() {
    let mut s = sanitizer_allowing("a", "title");
    s.set_allowed_attribute("a", "title", true);
    s.set_allowed_attribute("a", "title", false);
    let plan = s.sanitize_attributes("a", &attrs(&[("title", "t")]));
    assert_eq!(edits_of(plan.attributes), vec![AttrEdit::Remove]);
}

#[test]
fn classes_allowed_twice_then_disallowed_are_gone() {
    let mut s = SelmaSanitizer::new(());
    s.set_allowed_class("all", "a", true);
    s.set_allowed_class("all", "a", true);
    s.set_allowed_class("all", "b", true);
    s.set_allowed_class("all", "a", false);
    assert_eq!(s.sanitizer.allowed_classes, strings(&["b"]));
    s.set_allowed_class("span", "c", true);
    s.set_allowed_class("span", "c", true);
    s.set_allowed_class("span", "c", false);
    let slot = Tag::tag_from_element_name("span").index;
    assert!(s.sanitizer.element_sanitizers[slot].allowed_classes.is_empty());
}

#[test]
fn required_attributes_are_not_enforced() {
    let mut s = sanitizer_allowing("a", "title");
    let slot = Tag::tag_from_element_name("a").index;
    s.sanitizer.element_sanitizers[slot].required_attrs = strings(&["href"]);
    let plan = s.sanitize_attributes("a", &attrs(&[("title", "t")]));
    assert_eq!(plan.decision, ElementDecision::Keep);
    assert_eq!(edits_of(plan.attributes), vec![assign("t")]);
}

#[test]
fn decoded_leading_space_is_trimmed_on_a_second_pass() {
    let s = sanitizer_allowing("p", "title");
    let first = edits_of(s.sanitize_attributes("p", &attrs(&[("title", "&#32;x")])).attributes);
    assert_eq!(first, vec![assign(" x")]);
    let second = edits_of(s.sanitize_attributes("p", &attrs(&[("title", " x")])).attributes);
    assert_eq!(second, vec![assign("x")]);
}
