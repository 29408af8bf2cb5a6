//! The terminal's user interface: the commands that drive the web view, the
//! scripts that the web view runs for them, and the initial page.

use vstd::prelude::*;
use crate::text::replace_str;

verus! {

/// The web page of the terminal. The engagement QR code and its URI go in
/// place of the two markers; `switchState` and `setIsoMdlQr` are called by
/// the scripts that `UiView::handle` makes.
pub const TERMINAL_HTML_TEMPLATE: &'static str = "<!DOCTYPE html>
<html lang=\"de\">
<head>
<meta charset=\"utf-8\">
<title>EUDI mDL Edge Terminal</title>
<style>
body { margin: 0; font-family: sans-serif; background: #0a0e17; color: #ffffff; }
.state { display: none; padding: 2em; text-align: center; }
.state.active { display: block; }
#qr svg { width: 240px; height: 240px; background: #ffffff; }
#qr-uri { font-family: monospace; font-size: 0.7em; word-break: break-all; }
</style>
</head>
<body>
<section id=\"standby\" class=\"state active\">
<h1>Wallet an das Lesegeraet halten</h1>
<div id=\"qr\"><!-- QR_SVG_CONTENT --></div>
<p id=\"qr-uri\"><!-- QR_URI_CONTENT --></p>
</section>
<section id=\"connecting\" class=\"state\"><h1>Verbindung wird aufgebaut</h1></section>
<section id=\"granted\" class=\"state\"><h1>Zutritt gewaehrt</h1><p class=\"info\"></p></section>
<section id=\"denied\" class=\"state\"><h1>Zutritt verweigert</h1><p class=\"info\"></p></section>
<script>
window.switchState = function (state, info) {
  document.querySelectorAll('.state').forEach(function (s) { s.classList.remove('active'); });
  var el = document.getElementById(state);
  if (!el) { return; }
  el.classList.add('active');
  var p = el.querySelector('.info');
  if (p) { p.textContent = info || ''; }
};
window.setIsoMdlQr = function (uri, svg) {
  document.getElementById('qr').innerHTML = svg;
  document.getElementById('qr-uri').textContent = uri;
};
window.ipc.postMessage('ready');
</script>
</body>
</html>
";

/// Where the SVG QR code goes in the page.
pub const QR_SVG_MARKER: &'static str = "<!-- QR_SVG_CONTENT -->";

/// Where the engagement URI goes in the page.
pub const QR_URI_MARKER: &'static str = "<!-- QR_URI_CONTENT -->";

/// Renders the terminal page: the SVG QR code, then the URI, put in place of
/// their markers.
pub fn render_terminal_html(qr_uri: &str, qr_svg: &str) -> (r: String)
    ensures
        r@ == crate::text::replace_all(
            crate::text::replace_all(TERMINAL_HTML_TEMPLATE@, QR_SVG_MARKER@, qr_svg@),
            QR_URI_MARKER@,
            qr_uri@,
        ),
{
    let with_svg = replace_str(TERMINAL_HTML_TEMPLATE, QR_SVG_MARKER, qr_svg);
    replace_str(with_svg.as_str(), QR_URI_MARKER, qr_uri)
}

/// What the door controller tells the web view.
#[derive(Debug, Clone)]
pub enum UiCommand {
    /// Show a state page (`standby`, `connecting`, `granted`, `denied`),
    /// with an optional line of information.
    SetState { state: String, info: Option<String> },
    /// Show another engagement QR code.
    SetIsoMdlQr { uri: String, svg: String },
    /// The page has loaded and wants the current state and QR code.
    ClientReady,
    /// Close the window.
    Close,
}

/// The view of an optional string.
pub open spec fn opt_chars(s: Option<String>) -> Option<Seq<char>> {
    match s {
        Some(t) => Some(t@),
        None => None,
    }
}

/// The mathematical view of a command.
pub enum UiCommandView {
    SetState { state: Seq<char>, info: Option<Seq<char>> },
    SetIsoMdlQr { uri: Seq<char>, svg: Seq<char> },
    ClientReady,
    Close,
}

impl View for UiCommand {
    type V = UiCommandView;

    open spec fn view(&self) -> UiCommandView {
        match self {
            UiCommand::SetState { state, info } => UiCommandView::SetState {
                state: state@,
                info: opt_chars(*info),
            },
            UiCommand::SetIsoMdlQr { uri, svg } => UiCommandView::SetIsoMdlQr {
                uri: uri@,
                svg: svg@,
            },
            UiCommand::ClientReady => UiCommandView::ClientReady,
            UiCommand::Close => UiCommandView::Close,
        }
    }
}

/// The page of the discovery state, ready for a tap.
pub const STATE_STANDBY: &'static str = "standby";

/// The page shown while the phone connects over BLE.
pub const STATE_CONNECTING: &'static str = "connecting";

/// The page shown when access is granted.
pub const STATE_GRANTED: &'static str = "granted";

/// The page shown when access is denied.
pub const STATE_DENIED: &'static str = "denied";

impl UiCommand {
    /// Discovery: ready for a phone to tap.
    pub fn discovery() -> (c: UiCommand)
        ensures
            c@ == (UiCommandView::SetState { state: STATE_STANDBY@, info: None }),
    {
        UiCommand::SetState { state: String::from_str(STATE_STANDBY), info: None }
    }

    /// The phone is connecting over BLE.
    pub fn connecting() -> (c: UiCommand)
        ensures
            c@ == (UiCommandView::SetState { state: STATE_CONNECTING@, info: None }),
    {
        UiCommand::SetState { state: String::from_str(STATE_CONNECTING), info: None }
    }

    /// Access granted to `resource`.
    pub fn access_granted(resource: String) -> (c: UiCommand)
        ensures
            c@ == (UiCommandView::SetState { state: STATE_GRANTED@, info: Some(resource@) }),
    {
        UiCommand::SetState { state: String::from_str(STATE_GRANTED), info: Some(resource) }
    }

    /// Access denied, for `reason`.
    pub fn access_denied(reason: String) -> (c: UiCommand)
        ensures
            c@ == (UiCommandView::SetState { state: STATE_DENIED@, info: Some(reason@) }),
    {
        UiCommand::SetState { state: String::from_str(STATE_DENIED), info: Some(reason) }
    }

    /// Show the engagement QR code `svg` for `uri`.
    pub fn iso_mdl_qr(uri: String, svg: String) -> (c: UiCommand)
        ensures
            c@ == (UiCommandView::SetIsoMdlQr { uri: uri@, svg: svg@ }),
    {
        UiCommand::SetIsoMdlQr { uri, svg }
    }

    /// Close the window.
    pub fn close() -> (c: UiCommand)
        ensures
            c@ == UiCommandView::Close,
    {
        UiCommand::Close
    }
}

/// A hexadecimal digit, lower case.
pub open spec fn hex_digit(v: int) -> char {
    if v < 10 {
        (48 + v) as char
    } else {
        (97 + (v - 10)) as char
    }
}

/// How a character stands inside a JSON string as serde_json writes it:
/// `"` and `\` behind a backslash, backspace, form feed, line feed,
/// carriage return and tab as `\b`, `\f`, `\n`, `\r`, `\t`, the other
/// control characters below 0x20 as `\u00` and two hexadecimal digits, any
/// other character as itself.
pub open spec fn json_escape(c: char) -> Seq<char> {
    let v = c as int;
    if c == '"' {
        seq!['\\', '"']
    } else if c == '\\' {
        seq!['\\', '\\']
    } else if v == 8 {
        seq!['\\', 'b']
    } else if v == 12 {
        seq!['\\', 'f']
    } else if v == 10 {
        seq!['\\', 'n']
    } else if v == 13 {
        seq!['\\', 'r']
    } else if v == 9 {
        seq!['\\', 't']
    } else if v < 32 {
        seq!['\\', 'u', '0', '0', hex_digit(v / 16), hex_digit(v % 16)]
    } else {
        seq![c]
    }
}

/// The characters of `s`, each escaped for a JSON string.
pub open spec fn json_escaped(s: Seq<char>) -> Seq<char>
    decreases s.len(),
{
    if s.len() == 0 {
        Seq::empty()
    } else {
        json_escape(s[0]) + json_escaped(s.subrange(1, s.len() as int))
    }
}

/// The JSON text of a string value: the escaped characters between double
/// quotes.
pub open spec fn json_quote(s: Seq<char>) -> Seq<char> {
    seq!['"'] + json_escaped(s) + seq!['"']
}

/// `serde_json::to_string` of std's `String`: its source writes the opening
/// quote, each character escaped by its `ESCAPE` table (`"`, `\` and the
/// control characters below 0x20; the short escapes where there are, else
/// `\u00` and two lower-case hexadecimal digits), and the closing quote,
/// into a `Vec`, which never fails.
#[verifier::external_body]
fn to_json_string(s: &String) -> (r: Option<String>)
    ensures
        r is Some,
        r->0@ == json_quote(s@),
{
    serde_json::to_string(s).ok()
}

/// The JSON text of a string value.
fn json_text(s: &String) -> (r: String)
    ensures
        r@ == json_quote(s@),
{
    match to_json_string(s) {
        Some(j) => j,
        None => String::new(),
    }
}

/// The script that shows state page `state` with optional information.
pub open spec fn state_script(state: Seq<char>, info: Option<Seq<char>>) -> Seq<char> {
    match info {
        Some(extra) => "if (window.switchState) window.switchState("@ + json_quote(state) + ", "@
            + json_quote(extra) + ");"@,
        None => "if (window.switchState) window.switchState("@ + json_quote(state) + ");"@,
    }
}

/// The script that shows the engagement QR code.
pub open spec fn qr_script(uri: Seq<char>, svg: Seq<char>) -> Seq<char> {
    "if (window.setIsoMdlQr) window.setIsoMdlQr("@ + json_quote(uri) + ", "@ + json_quote(svg)
        + ");"@
}

fn make_state_script(state: &String, info: &Option<String>) -> (r: String)
    ensures
        r@ == state_script(state@, opt_chars(*info)),
{
    let mut js = String::from_str("if (window.switchState) window.switchState(");
    js.append(json_text(state).as_str());
    match info {
        Some(extra) => {
            js.append(", ");
            js.append(json_text(extra).as_str());
        },
        None => {},
    }
    js.append(");");
    js
}

fn make_qr_script(uri: &String, svg: &String) -> (r: String)
    ensures
        r@ == qr_script(uri@, svg@),
{
    let mut js = String::from_str("if (window.setIsoMdlQr) window.setIsoMdlQr(");
    js.append(json_text(uri).as_str());
    js.append(", ");
    js.append(json_text(svg).as_str());
    js.append(");");
    js
}

/// What the window does for a command.
pub enum UiEffect {
    /// Run a script in the web view.
    Evaluate(String),
    /// Leave the event loop.
    Exit,
}

/// The mathematical view of an effect.
pub enum UiEffectView {
    Evaluate(Seq<char>),
    Exit,
}

impl View for UiEffect {
    type V = UiEffectView;

    open spec fn view(&self) -> UiEffectView {
        match self {
            UiEffect::Evaluate(js) => UiEffectView::Evaluate(js@),
            UiEffect::Exit => UiEffectView::Exit,
        }
    }
}

/// What the web view shows, mathematically.
pub struct UiModel {
    pub state: Seq<char>,
    pub info: Option<Seq<char>>,
    pub qr_uri: Seq<char>,
    pub qr_svg: Seq<char>,
}

/// The script that shows everything the model holds.
pub open spec fn replay_script(m: UiModel) -> Seq<char> {
    state_script(m.state, m.info) + "; "@ + qr_script(m.qr_uri, m.qr_svg)
}

/// What a command does to the web view, and what the window does for it: a
/// new state or QR code is kept and shown; a page that has just loaded is
/// shown the current state and QR code; `Close` leaves the event loop.
pub open spec fn ui_step(m: UiModel, c: UiCommandView) -> (UiModel, UiEffectView) {
    match c {
        UiCommandView::ClientReady => (m, UiEffectView::Evaluate(replay_script(m))),
        UiCommandView::SetState { state, info } => (
            UiModel { state, info, ..m },
            UiEffectView::Evaluate(state_script(state, info)),
        ),
        UiCommandView::SetIsoMdlQr { uri, svg } => (
            UiModel { qr_uri: uri, qr_svg: svg, ..m },
            UiEffectView::Evaluate(qr_script(uri, svg)),
        ),
        UiCommandView::Close => (m, UiEffectView::Exit),
    }
}

/// What the web view shows: the current state page with its information,
/// and the current engagement QR code.
pub struct UiView {
    pub state: String,
    pub info: Option<String>,
    pub qr_uri: String,
    pub qr_svg: String,
}

impl View for UiView {
    type V = UiModel;

    open spec fn view(&self) -> UiModel {
        UiModel {
            state: self.state@,
            info: opt_chars(self.info),
            qr_uri: self.qr_uri@,
            qr_svg: self.qr_svg@,
        }
    }
}

impl UiView {
    /// The view at start: the standby page and the given QR code.
    pub fn new(qr_uri: String, qr_svg: String) -> (v: UiView)
        ensures
            v@ == (UiModel { state: STATE_STANDBY@, info: None, qr_uri: qr_uri@, qr_svg: qr_svg@ }),
    {
        UiView { state: String::from_str(STATE_STANDBY), info: None, qr_uri, qr_svg }
    }

    /// Handles a command from the door controller or the page.
    pub fn handle(&mut self, cmd: UiCommand) -> (e: UiEffect)
        ensures
            (final(self)@, e@) == ui_step(old(self)@, cmd@),
    {
        match cmd {
            UiCommand::ClientReady => {
                let mut js = make_state_script(&self.state, &self.info);
                js.append("; ");
                js.append(make_qr_script(&self.qr_uri, &self.qr_svg).as_str());
                UiEffect::Evaluate(js)
            },
            UiCommand::SetState { state, info } => {
                let js = make_state_script(&state, &info);
                self.state = state;
                self.info = info;
                UiEffect::Evaluate(js)
            },
            UiCommand::SetIsoMdlQr { uri, svg } => {
                let js = make_qr_script(&uri, &svg);
                self.qr_uri = uri;
                self.qr_svg = svg;
                UiEffect::Evaluate(js)
            },
            UiCommand::Close => UiEffect::Exit,
        }
    }
}

/// A page that loads after any commands is shown the latest state and the
/// latest QR code: after a state update, a page that reports ready gets the
/// script of that state, followed by the script of the QR code in force;
/// after a QR code update, the script of the state in force followed by
/// that of the new QR code. A ready report changes nothing.
pub proof fn lemma_client_ready_shows_latest(m: UiModel, c: UiCommandView)
    ensures
        ({
            let m2 = ui_step(m, c).0;
            &&& ui_step(m2, UiCommandView::ClientReady) == (m2, UiEffectView::Evaluate(
                replay_script(m2),
            ))
            &&& (c matches UiCommandView::SetState { state, info } ==> replay_script(m2)
                == state_script(state, info) + "; "@ + qr_script(m.qr_uri, m.qr_svg))
            &&& (c matches UiCommandView::SetIsoMdlQr { uri, svg } ==> replay_script(m2)
                == state_script(m.state, m.info) + "; "@ + qr_script(uri, svg))
            &&& (c is ClientReady || c is Close ==> m2 == m)
        }),
{
}

} // verus!
