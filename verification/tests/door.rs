use eudi_access::door::{DoorAction, DoorController, DoorEvent, DoorPhase};
use eudi_access::reader::{AuthStatus, ElementValue, VerifiedResponse};
use eudi_access::ui::UiCommand;

fn state_of(a: &DoorAction) -> (String, Option<String>) {
    match a {
        DoorAction::Show(UiCommand::SetState { state, info }) => (state.clone(), info.clone()),
        _ => panic!("expected a state update"),
    }
}

fn response(resource: Option<&str>) -> VerifiedResponse {
    let mut elements = vec![("given_name".to_string(), ElementValue::Text("Erika".to_string()))];
    if let Some(r) = resource {
        elements.push(("granted_resource".to_string(), ElementValue::Text(r.to_string())));
    }
    VerifiedResponse::new(elements, AuthStatus::Valid, AuthStatus::Valid)
}

fn started() -> DoorController {
    let mut c = DoorController::new();
    let a = c.on_event(DoorEvent::Started);
    assert_eq!(a.len(), 2);
    assert_eq!(state_of(&a[0]), ("standby".to_string(), None));
    assert!(matches!(a[1], DoorAction::WaitForEngagement));
    c
}

#[test]
fn tap_then_granted() {
    let mut c = started();
    let a = c.on_event(DoorEvent::EngagementReceived);
    assert_eq!(state_of(&a[0]), ("connecting".to_string(), None));
    assert!(matches!(a[1], DoorAction::RunSession));
    assert_eq!(c.phase, DoorPhase::AwaitingSession);
    let a = c.on_event(DoorEvent::SessionSucceeded(response(Some(
        "dc:augsburg:maximilianviertel:backup",
    ))));
    assert_eq!(a.len(), 4);
    assert_eq!(
        state_of(&a[0]),
        ("granted".to_string(), Some("dc:augsburg:maximilianviertel:backup".to_string()))
    );
    assert!(matches!(a[1], DoorAction::Sleep(5)));
    assert_eq!(state_of(&a[2]), ("standby".to_string(), None));
    assert!(matches!(a[3], DoorAction::WaitForEngagement));
    assert_eq!(c.phase, DoorPhase::AwaitingEngagement);
}

#[test]
fn tap_then_denied_by_policy() {
    let mut c = started();
    c.on_event(DoorEvent::EngagementReceived);
    let a = c.on_event(DoorEvent::SessionSucceeded(response(Some("dc:elsewhere"))));
    assert_eq!(
        state_of(&a[0]),
        (
            "denied".to_string(),
            Some("Dieses Wallet besitzt keine Freigabe für Tür IAA-GATE-04.".to_string())
        )
    );
    assert!(matches!(a[1], DoorAction::Sleep(3)));
    assert_eq!(state_of(&a[2]), ("standby".to_string(), None));
}

#[test]
fn failed_session_is_denied_with_the_error() {
    let mut c = started();
    c.on_event(DoorEvent::EngagementReceived);
    let a = c.on_event(DoorEvent::SessionFailed("BLE channel closed".to_string()));
    assert_eq!(
        state_of(&a[0]),
        ("denied".to_string(), Some("Übertragungsfehler: BLE channel closed".to_string()))
    );
    assert!(matches!(a[1], DoorAction::Sleep(3)));
    assert_eq!(state_of(&a[2]), ("standby".to_string(), None));
    assert!(matches!(a[3], DoorAction::WaitForEngagement));
}

#[test]
fn polling_error_waits_and_retries() {
    let mut c = started();
    let a = c.on_event(DoorEvent::EngagementFailed);
    assert_eq!(a.len(), 2);
    assert!(matches!(a[0], DoorAction::Sleep(5)));
    assert!(matches!(a[1], DoorAction::WaitForEngagement));
    assert_eq!(c.phase, DoorPhase::AwaitingEngagement);
}

#[test]
fn unexpected_events_are_ignored() {
    let mut c = DoorController::new();
    assert!(c.on_event(DoorEvent::EngagementReceived).is_empty());
    assert_eq!(c.phase, DoorPhase::Idle);
    let mut c = started();
    assert!(c.on_event(DoorEvent::SessionFailed("x".to_string())).is_empty());
    assert!(c.on_event(DoorEvent::Started).is_empty());
    assert_eq!(c.phase, DoorPhase::AwaitingEngagement);
}

#[test]
fn whole_run_keeps_the_round_structure() {
    let mut c = DoorController::new();
    let events = vec![
        DoorEvent::Started,
        DoorEvent::EngagementFailed,
        DoorEvent::EngagementReceived,
        DoorEvent::SessionSucceeded(response(Some("dc:augsburg:maximilianviertel:backup"))),
        DoorEvent::EngagementReceived,
        DoorEvent::SessionSucceeded(response(Some("dc:other"))),
        DoorEvent::EngagementReceived,
        DoorEvent::SessionFailed("timeout".to_string()),
    ];
    let mut trace = Vec::new();
    for e in events {
        trace.extend(c.on_event(e));
    }
    let shows: Vec<(String, Option<String>)> = trace
        .iter()
        .filter(|a| matches!(a, DoorAction::Show(_)))
        .map(state_of)
        .collect();
    assert_eq!(shows[0], ("standby".to_string(), None));
    assert_eq!(shows.last().unwrap(), &("standby".to_string(), None));
    let granted: Vec<usize> = trace
        .iter()
        .enumerate()
        .filter(|(_, a)| matches!(a, DoorAction::Show(_)) && state_of(a).0 == "granted")
        .map(|(k, _)| k)
        .collect();
    assert_eq!(granted.len(), 1);
    let k = granted[0];
    assert_eq!(state_of(&trace[k - 2]).0, "connecting");
    assert!(matches!(trace[k - 1], DoorAction::RunSession));
    assert_eq!(c.phase, DoorPhase::AwaitingEngagement);
}
