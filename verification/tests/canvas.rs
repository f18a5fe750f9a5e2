use savvagent::canvas::{classify_url, intercept_click, link_effect, ClickTarget, ContentBlockId,
    DomChange, HtmlCanvas};
use savvagent::plugin::{Effect, UrlTarget};

const TINY_HTML: &str = "<!doctype html><body style='margin:0'>\
                         <div style='width:32px;height:16px;\
                         background:#ff0000'></div></body>";

#[test]
fn canvas_id_round_trips() {
    let c = HtmlCanvas::new(ContentBlockId(42), TINY_HTML);
    assert_eq!(c.id(), ContentBlockId(42));
}

#[test]
fn canvas_keeps_its_source() {
    let c = HtmlCanvas::new(ContentBlockId(1), TINY_HTML);
    assert_eq!(c.source(), TINY_HTML);
}

#[test]
fn https_routes_to_system_browser() {
    assert_eq!(classify_url("https://example.com"), Some(UrlTarget::SystemBrowser));
    assert_eq!(classify_url("HTTP://Example.com/path"), Some(UrlTarget::SystemBrowser));
}

#[test]
fn mailto_routes_to_system_browser() {
    assert_eq!(classify_url("mailto:user@example.com"), Some(UrlTarget::SystemBrowser));
}

#[test]
fn tel_and_sms_route_to_system_browser() {
    assert_eq!(classify_url("tel:+15551234567"), Some(UrlTarget::SystemBrowser));
    assert_eq!(classify_url("sms:+15551234567"), Some(UrlTarget::SystemBrowser));
}

#[test]
fn data_url_emits_no_effect() {
    assert_eq!(classify_url("data:text/plain,hello"), None);
}

#[test]
fn javascript_url_is_blocked() {
    assert_eq!(classify_url("javascript:alert(1)"), None);
    assert_eq!(classify_url("JAVASCRIPT:alert(1)"), None);
}

#[test]
fn file_url_emits_no_effect() {
    assert_eq!(classify_url("file:///etc/passwd"), None);
}

#[test]
fn unknown_scheme_emits_no_effect() {
    assert_eq!(classify_url("steam://run/440"), None);
}

#[test]
fn bare_path_continues_conversation() {
    assert_eq!(classify_url("./foo.md"), Some(UrlTarget::ContinueConversation));
    assert_eq!(classify_url("docs/guide.md"), Some(UrlTarget::ContinueConversation));
    assert_eq!(classify_url("foo.rs"), Some(UrlTarget::ContinueConversation));
}

#[test]
fn summary_click_returns_redraw_signal() {
    let (outcome, change) = intercept_click(&ClickTarget::Summary { details_open: Some(false) });
    assert!(outcome.dirty, "summary click should mutate DOM");
    assert!(outcome.effect.is_none(), "no Effect for summary click — internal-only");
    assert_eq!(change, DomChange::OpenDetails);
}

#[test]
fn summary_click_on_open_details_closes_it() {
    let (outcome, change) = intercept_click(&ClickTarget::Summary { details_open: Some(true) });
    assert!(outcome.dirty);
    assert_eq!(change, DomChange::CloseDetails);
}

#[test]
fn summary_outside_details_is_a_no_op() {
    let (outcome, change) = intercept_click(&ClickTarget::Summary { details_open: None });
    assert!(!outcome.dirty);
    assert!(outcome.effect.is_none());
    assert_eq!(change, DomChange::Keep);
}

#[test]
fn anchor_click_opens_its_href() {
    let (outcome, change) = intercept_click(&ClickTarget::Anchor { href: Some("https://x.dev".into()) });
    assert!(!outcome.dirty);
    assert_eq!(change, DomChange::Keep);
    match outcome.effect {
        Some(Effect::OpenUrl { url, target }) => {
            assert_eq!(url, "https://x.dev");
            assert_eq!(target, UrlTarget::SystemBrowser);
        }
        other => panic!("unexpected {other:?}"),
    }
}

#[test]
fn anchor_with_dropped_scheme_has_no_effect() {
    let (outcome, _) = intercept_click(&ClickTarget::Anchor { href: Some("javascript:x".into()) });
    assert!(outcome.effect.is_none());
    let (outcome, _) = intercept_click(&ClickTarget::Anchor { href: None });
    assert!(outcome.effect.is_none());
    assert!(link_effect("file:///x").is_none());
}

#[test]
fn other_elements_have_no_default_action() {
    let (outcome, change) = intercept_click(&ClickTarget::Other);
    assert!(outcome.effect.is_none());
    assert!(!outcome.dirty);
    assert_eq!(change, DomChange::Keep);
    let (outcome, _) = intercept_click(&ClickTarget::Missing);
    assert!(outcome.effect.is_none());
}

#[test]
fn url_routing_ignores_ascii_case_and_relative_links_continue() {
    for h in ["HTTPS://x.test", "MailTo:a@b", "JavaScript:alert(1)", "FILE:///etc", "Foo://bar", "docs/Readme.MD"] {
        assert_eq!(classify_url(h), classify_url(&h.to_ascii_lowercase()), "{h}");
    }
    assert_eq!(classify_url("docs/Readme.MD"), Some(UrlTarget::ContinueConversation));
    assert_eq!(classify_url("Foo://bar"), None);
    assert_eq!(classify_url("HTTPS://x.test"), Some(UrlTarget::SystemBrowser));
}
