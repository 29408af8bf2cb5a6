use eudi_access::ui::{
    render_terminal_html, UiCommand, UiEffect, UiView, QR_SVG_MARKER, QR_URI_MARKER,
    TERMINAL_HTML_TEMPLATE,
};
use eudi_access::text::replace_str;

fn script(e: UiEffect) -> String {
    match e {
        UiEffect::Evaluate(js) => js,
        UiEffect::Exit => panic!("expected a script"),
    }
}

#[test]
fn terminal_html_embeds_qr_and_uri() {
    let html = render_terminal_html("mdoc:XYZ", "<svg>QR</svg>");
    assert!(html.contains("<div id=\"qr\"><svg>QR</svg></div>"));
    assert!(html.contains("<p id=\"qr-uri\">mdoc:XYZ</p>"));
    assert!(!html.contains(QR_SVG_MARKER));
    assert!(!html.contains(QR_URI_MARKER));
    assert_eq!(
        html,
        TERMINAL_HTML_TEMPLATE
            .replace(QR_SVG_MARKER, "<svg>QR</svg>")
            .replace(QR_URI_MARKER, "mdoc:XYZ")
    );
}

#[test]
fn uri_marker_inside_the_svg_is_replaced_too() {
    let svg = format!("<svg>{}</svg>", QR_URI_MARKER);
    let html = render_terminal_html("U", &svg);
    assert!(html.contains("<svg>U</svg>"));
}

#[test]
fn replace_matches_std() {
    let cases = [
        ("aaaa", "aa", "b"),
        ("abcabc", "bc", ""),
        ("abc", "", "-"),
        ("", "", "x"),
        ("", "a", "x"),
        ("ab", "abc", "x"),
        ("äöü ää", "ä", "ae"),
        ("xyz", "q", "r"),
    ];
    for (s, p, w) in cases {
        assert_eq!(replace_str(s, p, w), s.replace(p, w), "{s:?} {p:?} {w:?}");
    }
}

#[test]
fn set_state_scripts() {
    let mut v = UiView::new("mdoc:A".to_string(), "<svg/>".to_string());
    let js = script(v.handle(UiCommand::discovery()));
    assert_eq!(js, "if (window.switchState) window.switchState(\"standby\");");
    let js = script(v.handle(UiCommand::access_granted("dc:x".to_string())));
    assert_eq!(js, "if (window.switchState) window.switchState(\"granted\", \"dc:x\");");
    assert_eq!(v.state, "granted");
    assert_eq!(v.info.as_deref(), Some("dc:x"));
}

#[test]
fn strings_are_escaped_as_json() {
    let mut v = UiView::new(String::new(), String::new());
    let js = script(v.handle(UiCommand::access_denied("say \"no\"\n".to_string())));
    assert_eq!(js, "if (window.switchState) window.switchState(\"denied\", \"say \\\"no\\\"\\n\");");
}

#[test]
fn client_ready_replays_state_and_qr() {
    let mut v = UiView::new("mdoc:A".to_string(), "<svg/>".to_string());
    v.handle(UiCommand::connecting());
    let js = script(v.handle(UiCommand::ClientReady));
    assert_eq!(
        js,
        "if (window.switchState) window.switchState(\"connecting\");; \
         if (window.setIsoMdlQr) window.setIsoMdlQr(\"mdoc:A\", \"<svg/>\");"
    );
    assert_eq!(v.state, "connecting");
}

#[test]
fn new_qr_is_kept_and_shown() {
    let mut v = UiView::new("a".to_string(), "b".to_string());
    let js = script(v.handle(UiCommand::iso_mdl_qr("mdoc:N".to_string(), "<svg>n</svg>".to_string())));
    assert_eq!(js, "if (window.setIsoMdlQr) window.setIsoMdlQr(\"mdoc:N\", \"<svg>n</svg>\");");
    assert_eq!(v.qr_uri, "mdoc:N");
    assert_eq!(v.qr_svg, "<svg>n</svg>");
    assert_eq!(v.state, "standby");
}

#[test]
fn close_exits() {
    let mut v = UiView::new(String::new(), String::new());
    assert!(matches!(v.handle(UiCommand::close()), UiEffect::Exit));
}

#[test]
fn command_constructors() {
    match UiCommand::connecting() {
        UiCommand::SetState { state, info } => {
            assert_eq!(state, "connecting");
            assert!(info.is_none());
        }
        _ => panic!(),
    }
    match UiCommand::access_denied("r".to_string()) {
        UiCommand::SetState { state, info } => {
            assert_eq!(state, "denied");
            assert_eq!(info.as_deref(), Some("r"));
        }
        _ => panic!(),
    }
}

#[test]
fn control_characters_are_escaped_as_json() {
    let mut v = UiView::new(String::new(), String::new());
    let js = script(v.handle(UiCommand::access_denied("\u{1}\u{1f}\t\u{8}\u{c}\r\\/é\u{7f}".to_string())));
    assert_eq!(
        js,
        "if (window.switchState) window.switchState(\"denied\", \"\\u0001\\u001f\\t\\b\\f\\r\\\\/é\u{7f}\");"
    );
}
