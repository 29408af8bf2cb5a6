//! The door controller: from each outcome of NFC polling and of the reader
//! session, what the terminal shows and does next. The caller performs the
//! actions (waiting for a tap, running the session, sleeping, updating the
//! web view) and hands back what happened.

use vstd::prelude::*;
use crate::policy::{grants_door, granted_resource, should_unlock, DOOR_RESOURCE, GRANTED_RESOURCE_ELEMENT};
use crate::reader::{lookup, ElementValue, VerifiedResponse};
use crate::ui::{UiCommand, UiCommandView, STATE_CONNECTING, STATE_DENIED, STATE_GRANTED, STATE_STANDBY};

verus! {

/// Seconds the granted page stays before the terminal returns to discovery.
pub const GRANTED_HOLD_SECS: u64 = 5;

/// Seconds the denied page stays before the terminal returns to discovery.
pub const DENIED_HOLD_SECS: u64 = 3;

/// Seconds to wait after an NFC polling error before polling again.
pub const POLL_RETRY_SECS: u64 = 5;

/// Shown when the policy refuses a verified credential.
pub const DENIED_BY_POLICY: &'static str = "Dieses Wallet besitzt keine Freigabe für Tür IAA-GATE-04.";

/// Put before the error of a failed session.
pub const TRANSFER_ERROR_PREFIX: &'static str = "Übertragungsfehler: ";

/// What the controller waits for.
#[derive(Debug, Clone, Copy, PartialEq, Eq, Structural)]
pub enum DoorPhase {
    /// Not started yet.
    Idle,
    /// Polling NFC for a phone's engagement.
    AwaitingEngagement,
    /// Running the ISO 18013-5 session with the phone.
    AwaitingSession,
}

/// What happened.
pub enum DoorEvent {
    /// The controller starts (the trust anchors are loaded).
    Started,
    /// A phone tapped and its engagement was read.
    EngagementReceived,
    /// NFC polling failed.
    EngagementFailed,
    /// The session ended with a verified response.
    SessionSucceeded(VerifiedResponse),
    /// The session failed; the text is its error.
    SessionFailed(String),
}

/// What to do, in order.
#[derive(Debug, Clone)]
pub enum DoorAction {
    /// Update the web view.
    Show(UiCommand),
    /// Hold for this many seconds.
    Sleep(u64),
    /// Poll NFC for an engagement.
    WaitForEngagement,
    /// Run the reader session with the engagement just read.
    RunSession,
}

/// The mathematical view of an event.
pub enum DoorEventView {
    Started,
    EngagementReceived,
    EngagementFailed,
    SessionSucceeded(Seq<(String, ElementValue)>),
    SessionFailed(Seq<char>),
}

/// The mathematical view of an action.
pub enum DoorActionView {
    Show(UiCommandView),
    Sleep(nat),
    WaitForEngagement,
    RunSession,
}

impl View for DoorEvent {
    type V = DoorEventView;

    open spec fn view(&self) -> DoorEventView {
        match self {
            DoorEvent::Started => DoorEventView::Started,
            DoorEvent::EngagementReceived => DoorEventView::EngagementReceived,
            DoorEvent::EngagementFailed => DoorEventView::EngagementFailed,
            DoorEvent::SessionSucceeded(r) => DoorEventView::SessionSucceeded(r.elements@),
            DoorEvent::SessionFailed(e) => DoorEventView::SessionFailed(e@),
        }
    }
}

impl View for DoorAction {
    type V = DoorActionView;

    open spec fn view(&self) -> DoorActionView {
        match self {
            DoorAction::Show(c) => DoorActionView::Show(c@),
            DoorAction::Sleep(s) => DoorActionView::Sleep(*s as nat),
            DoorAction::WaitForEngagement => DoorActionView::WaitForEngagement,
            DoorAction::RunSession => DoorActionView::RunSession,
        }
    }
}

/// The views of a list of actions.
pub open spec fn action_views(v: Seq<DoorAction>) -> Seq<DoorActionView> {
    v.map_values(|a: DoorAction| a@)
}

/// Shows the discovery page.
pub open spec fn show_discovery() -> DoorActionView {
    DoorActionView::Show(UiCommandView::SetState { state: STATE_STANDBY@, info: None })
}

/// The resource named by the response, or the door's own.
pub open spec fn resource_of(elements: Seq<(String, ElementValue)>) -> Seq<char> {
    match lookup(elements, GRANTED_RESOURCE_ELEMENT@) {
        Some(ElementValue::Text(s)) => s@,
        _ => DOOR_RESOURCE@,
    }
}

/// The next phase and the actions, for event `e` in phase `p`. An event
/// that the phase does not wait for changes nothing.
pub open spec fn door_step(p: DoorPhase, e: DoorEventView) -> (DoorPhase, Seq<DoorActionView>) {
    match (p, e) {
        (DoorPhase::Idle, DoorEventView::Started) => (
            DoorPhase::AwaitingEngagement,
            seq![show_discovery(), DoorActionView::WaitForEngagement],
        ),
        (DoorPhase::AwaitingEngagement, DoorEventView::EngagementReceived) => (
            DoorPhase::AwaitingSession,
            seq![
                DoorActionView::Show(
                    UiCommandView::SetState { state: STATE_CONNECTING@, info: None },
                ),
                DoorActionView::RunSession,
            ],
        ),
        (DoorPhase::AwaitingEngagement, DoorEventView::EngagementFailed) => (
            DoorPhase::AwaitingEngagement,
            seq![DoorActionView::Sleep(POLL_RETRY_SECS as nat), DoorActionView::WaitForEngagement],
        ),
        (DoorPhase::AwaitingSession, DoorEventView::SessionSucceeded(elements)) => (
            DoorPhase::AwaitingEngagement,
            if grants_door(elements) {
                seq![
                    DoorActionView::Show(
                        UiCommandView::SetState {
                            state: STATE_GRANTED@,
                            info: Some(resource_of(elements)),
                        },
                    ),
                    DoorActionView::Sleep(GRANTED_HOLD_SECS as nat),
                    show_discovery(),
                    DoorActionView::WaitForEngagement,
                ]
            } else {
                seq![
                    DoorActionView::Show(
                        UiCommandView::SetState {
                            state: STATE_DENIED@,
                            info: Some(DENIED_BY_POLICY@),
                        },
                    ),
                    DoorActionView::Sleep(DENIED_HOLD_SECS as nat),
                    show_discovery(),
                    DoorActionView::WaitForEngagement,
                ]
            },
        ),
        (DoorPhase::AwaitingSession, DoorEventView::SessionFailed(err)) => (
            DoorPhase::AwaitingEngagement,
            seq![
                DoorActionView::Show(
                    UiCommandView::SetState {
                        state: STATE_DENIED@,
                        info: Some(TRANSFER_ERROR_PREFIX@ + err),
                    },
                ),
                DoorActionView::Sleep(DENIED_HOLD_SECS as nat),
                show_discovery(),
                DoorActionView::WaitForEngagement,
            ],
        ),
        _ => (p, Seq::empty()),
    }
}

/// The door controller.
pub struct DoorController {
    pub phase: DoorPhase,
}

impl DoorController {
    /// A controller that has not started.
    pub fn new() -> (c: DoorController)
        ensures
            c.phase == DoorPhase::Idle,
    {
        DoorController { phase: DoorPhase::Idle }
    }

    /// Takes what happened and says what to do next.
    pub fn on_event(&mut self, event: DoorEvent) -> (actions: Vec<DoorAction>)
        ensures
            (final(self).phase, action_views(actions@)) == door_step(old(self).phase, event@),
    {
        let mut actions: Vec<DoorAction> = Vec::new();
        let ghost ev = event@;
        match (self.phase, event) {
            (DoorPhase::Idle, DoorEvent::Started) => {
                actions.push(DoorAction::Show(UiCommand::discovery()));
                actions.push(DoorAction::WaitForEngagement);
                self.phase = DoorPhase::AwaitingEngagement;
            },
            (DoorPhase::AwaitingEngagement, DoorEvent::EngagementReceived) => {
                actions.push(DoorAction::Show(UiCommand::connecting()));
                actions.push(DoorAction::RunSession);
                self.phase = DoorPhase::AwaitingSession;
            },
            (DoorPhase::AwaitingEngagement, DoorEvent::EngagementFailed) => {
                actions.push(DoorAction::Sleep(POLL_RETRY_SECS));
                actions.push(DoorAction::WaitForEngagement);
            },
            (DoorPhase::AwaitingSession, DoorEvent::SessionSucceeded(resp)) => {
                if should_unlock(&resp) {
                    actions.push(DoorAction::Show(UiCommand::access_granted(granted_resource(&resp))));
                    actions.push(DoorAction::Sleep(GRANTED_HOLD_SECS));
                } else {
                    actions.push(
                        DoorAction::Show(UiCommand::access_denied(String::from_str(DENIED_BY_POLICY))),
                    );
                    actions.push(DoorAction::Sleep(DENIED_HOLD_SECS));
                }
                actions.push(DoorAction::Show(UiCommand::discovery()));
                actions.push(DoorAction::WaitForEngagement);
                self.phase = DoorPhase::AwaitingEngagement;
            },
            (DoorPhase::AwaitingSession, DoorEvent::SessionFailed(err)) => {
                let mut reason = String::from_str(TRANSFER_ERROR_PREFIX);
                reason.append(err.as_str());
                actions.push(DoorAction::Show(UiCommand::access_denied(reason)));
                actions.push(DoorAction::Sleep(DENIED_HOLD_SECS));
                actions.push(DoorAction::Show(UiCommand::discovery()));
                actions.push(DoorAction::WaitForEngagement);
                self.phase = DoorPhase::AwaitingEngagement;
            },
            _ => {},
        }
        assert(action_views(actions@) =~= door_step(old(self).phase, ev).1);
        actions
    }
}

/// After every session, whatever its outcome, the terminal returns to the
/// discovery page and polls for the next tap; the granted page is shown
/// exactly when the policy grants the door.
pub proof fn lemma_session_returns_to_discovery(e: DoorEventView)
    requires
        e is SessionSucceeded || e is SessionFailed,
    ensures
        ({
            let (p, acts) = door_step(DoorPhase::AwaitingSession, e);
            &&& p == DoorPhase::AwaitingEngagement
            &&& acts.len() == 4
            &&& acts[2] == show_discovery()
            &&& acts[3] == DoorActionView::WaitForEngagement
            &&& (acts[0] matches DoorActionView::Show(UiCommandView::SetState { state, .. })
                && (state == STATE_GRANTED@ <==> (e matches DoorEventView::SessionSucceeded(el)
                && grants_door(el))))
        }),
{
    reveal_strlit("granted");
    reveal_strlit("denied");
    assert(STATE_GRANTED@.len() == 7);
    assert(STATE_DENIED@.len() == 6);
    assert(STATE_GRANTED@ != STATE_DENIED@);
}

/// The controller only ever waits for a tap or for a session once started:
/// from any phase other than `Idle`, every step leads to `AwaitingEngagement`
/// or `AwaitingSession`, and every non-empty list of actions ends by waiting
/// for one of them.
pub proof fn lemma_controller_keeps_running(p: DoorPhase, e: DoorEventView)
    ensures
        ({
            let (q, acts) = door_step(p, e);
            &&& p != DoorPhase::Idle ==> q != DoorPhase::Idle
            &&& acts.len() > 0 ==> (acts.last() == DoorActionView::WaitForEngagement
                || acts.last() == DoorActionView::RunSession)
            &&& acts.len() > 0 ==> (q == DoorPhase::AwaitingSession <==> acts.last()
                == DoorActionView::RunSession)
        }),
{
}

/// Shows the connecting page.
pub open spec fn show_connecting() -> DoorActionView {
    DoorActionView::Show(UiCommandView::SetState { state: STATE_CONNECTING@, info: None })
}

/// Whether an action shows the granted page.
pub open spec fn shows_granted(a: DoorActionView) -> bool {
    a matches DoorActionView::Show(UiCommandView::SetState { state, .. }) && state == STATE_GRANTED@
}

/// The phase and all actions after the controller, from `Idle`, has been
/// handed `events` in order.
pub open spec fn door_run(events: Seq<DoorEventView>) -> (DoorPhase, Seq<DoorActionView>)
    decreases events.len(),
{
    if events.len() == 0 {
        (DoorPhase::Idle, Seq::empty())
    } else {
        let (p, acts) = door_run(events.drop_last());
        let (q, more) = door_step(p, events.last());
        (q, acts + more)
    }
}

/// The last web view update among `acts`, if any.
pub open spec fn last_show(acts: Seq<DoorActionView>) -> Option<DoorActionView>
    decreases acts.len(),
{
    if acts.len() == 0 {
        None
    } else if acts.last() is Show {
        Some(acts.last())
    } else {
        last_show(acts.drop_last())
    }
}

/// The last update of `a + b` is that of `b`, or of `a` when `b` has none.
proof fn lemma_last_show_append(a: Seq<DoorActionView>, b: Seq<DoorActionView>)
    ensures
        last_show(a + b) == (if last_show(b) is Some { last_show(b) } else { last_show(a) }),
    decreases b.len(),
{
    if b.len() == 0 {
        assert(a + b =~= a);
    } else {
        assert((a + b).drop_last() =~= a + b.drop_last());
        lemma_last_show_append(a, b.drop_last());
    }
}

/// The round structure after any events: nothing happens before `Started`;
/// the first action shows the discovery page; while the controller polls
/// for a tap, the last update shows the discovery page; while it runs a
/// session, the actions end by showing the connecting page and running the
/// session; and every granted page comes right after the connecting page
/// and the session run of its round.
proof fn lemma_door_run_rounds(events: Seq<DoorEventView>)
    ensures
        ({
            let (p, acts) = door_run(events);
            &&& p == DoorPhase::Idle ==> acts.len() == 0
            &&& acts.len() > 0 ==> acts[0] == show_discovery()
            &&& p == DoorPhase::AwaitingEngagement ==> last_show(acts) == Some(show_discovery())
            &&& p == DoorPhase::AwaitingSession ==> acts.len() >= 2 && acts[acts.len() - 2]
                == show_connecting() && acts[acts.len() - 1] == DoorActionView::RunSession
            &&& forall|k: int|
                0 <= k < acts.len() && #[trigger] shows_granted(acts[k]) ==> k >= 2 && acts[k - 2]
                    == show_connecting() && acts[k - 1] == DoorActionView::RunSession
        }),
    decreases events.len(),
{
    reveal_strlit("standby");
    reveal_strlit("connecting");
    reveal_strlit("granted");
    reveal_strlit("denied");
    assert(STATE_GRANTED@ != STATE_STANDBY@) by {
        assert(STATE_GRANTED@[0] != STATE_STANDBY@[0]);
    }
    assert(STATE_GRANTED@ != STATE_CONNECTING@) by {
        assert(STATE_GRANTED@.len() != STATE_CONNECTING@.len());
    }
    assert(STATE_GRANTED@ != STATE_DENIED@) by {
        assert(STATE_GRANTED@.len() != STATE_DENIED@.len());
    }
    if events.len() > 0 {
        let prefix = events.drop_last();
        lemma_door_run_rounds(prefix);
        let (p, acts) = door_run(prefix);
        let e = events.last();
        let (q, more) = door_step(p, e);
        let all = acts + more;
        assert(door_run(events) == (q, all));
        lemma_last_show_append(acts, more);
        reveal_with_fuel(last_show, 3);
        assert forall|k: int|
            0 <= k < all.len() && #[trigger] shows_granted(all[k]) implies k >= 2 && all[k - 2]
                == show_connecting() && all[k - 1] == DoorActionView::RunSession by {
            if k < acts.len() {
                assert(all[k] == acts[k]);
                assert(shows_granted(acts[k]));
                assert(all[k - 2] == acts[k - 2]);
                assert(all[k - 1] == acts[k - 1]);
            } else {
                assert(all[k] == more[k - acts.len()]);
                assert(k == acts.len());
                assert(all[k - 2] == acts[acts.len() - 2]);
                assert(all[k - 1] == acts[acts.len() - 1]);
            }
        }
    }
}

/// The door controller's whole run, for any events handed to it from
/// `Idle`: its first web view update shows the discovery page; every round
/// ends on the discovery page (whenever it polls for a tap, the last update
/// shows discovery); the granted page is only ever shown right after the
/// connecting page and the session run of its round, and only for a
/// session whose response grants the door; and a failed poll updates
/// nothing.
pub proof fn lemma_door_run(events: Seq<DoorEventView>, p: DoorPhase)
    ensures
        ({
            let (q, acts) = door_run(events);
            &&& acts.len() > 0 ==> acts[0] == show_discovery()
            &&& q == DoorPhase::AwaitingEngagement ==> last_show(acts) == Some(show_discovery())
            &&& forall|k: int|
                0 <= k < acts.len() && #[trigger] shows_granted(acts[k]) ==> k >= 2 && acts[k - 2]
                    == show_connecting() && acts[k - 1] == DoorActionView::RunSession
        }),
        forall|e: DoorEventView|
            #![trigger door_step(p, e)]
            door_step(p, e).1.len() > 0 && shows_granted(door_step(p, e).1[0]) ==> (p
                == DoorPhase::AwaitingSession && (e matches DoorEventView::SessionSucceeded(el)
                && grants_door(el))),
        forall|i: int|
            0 <= i < door_step(p, DoorEventView::EngagementFailed).1.len() ==> !(
            #[trigger] door_step(p, DoorEventView::EngagementFailed).1[i] is Show),
{
    lemma_door_run_rounds(events);
    reveal_strlit("standby");
    reveal_strlit("connecting");
    reveal_strlit("granted");
    reveal_strlit("denied");
    assert(STATE_GRANTED@ != STATE_STANDBY@) by {
        assert(STATE_GRANTED@[0] != STATE_STANDBY@[0]);
    }
    assert(STATE_GRANTED@ != STATE_CONNECTING@) by {
        assert(STATE_GRANTED@.len() != STATE_CONNECTING@.len());
    }
    assert(STATE_GRANTED@ != STATE_DENIED@) by {
        assert(STATE_GRANTED@.len() != STATE_DENIED@.len());
    }
}

} // verus!
