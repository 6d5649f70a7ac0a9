use huemanity::error::ErrorKind;
use huemanity::json::Json;
use huemanity::network::LINK_BUTTON_NOT_PRESSED;
use huemanity::registration::{
    classify_probe, decode_probe, Action, Event, ProbeOutcome, Registration, BACKOFF_SECONDS,
};

const NOT_PRESSED: &str =
    "[{\"error\":{\"type\":101,\"address\":\"\",\"description\":\"link button not pressed\"}}]";
const ISSUED: &str = "[{\"success\":{\"username\":\"83b7780291a6ceffbe0bd049104df\"}}]";

/// Drives a handshake against a device that answers probe number `n` with
/// `answer(address, n)`; returns the addresses probed, the number of pauses
/// and the last action.
fn drive(
    mut registration: Registration,
    answer: &dyn Fn(&str, usize) -> Event,
    limit: usize,
) -> (Vec<String>, usize, Action) {
    let mut probes: Vec<String> = Vec::new();
    let mut waits = 0;
    let mut action = registration.action();
    for _ in 0..limit {
        let event = match &action {
            Action::Probe { address } => {
                probes.push(address.clone());
                answer(address, probes.len() - 1)
            }
            Action::Wait { seconds } => {
                assert_eq!(*seconds, BACKOFF_SECONDS);
                waits += 1;
                Event::Waited
            }
            _ => break,
        };
        let (next, then) = registration.step(event);
        registration = next;
        action = then;
    }
    (probes, waits, action)
}

#[test]
fn busy_n_times_then_success_takes_n_plus_one_probes() {
    for n in [0usize, 1, 2, 7, 40] {
        let answer = move |_: &str, probe: usize| {
            if probe < n {
                Event::Replied(decode_probe(NOT_PRESSED))
            } else {
                Event::Replied(decode_probe(ISSUED))
            }
        };
        let (probes, waits, last) =
            drive(Registration::single("192.168.1.2".to_string()), &answer, 1000);
        assert_eq!(probes.len(), n + 1);
        assert!(probes.iter().all(|p| p == "192.168.1.2"));
        assert_eq!(waits, n);
        assert_eq!(
            last,
            Action::Finish {
                address: "192.168.1.2".to_string(),
                credential: "83b7780291a6ceffbe0bd049104df".to_string(),
            }
        );
    }
}

#[test]
fn single_address_probes_before_any_pause() {
    let registration = Registration::single("10.0.0.9".to_string());
    assert_eq!(registration.action(), Action::Probe { address: "10.0.0.9".to_string() });
    assert!(!registration.is_finished());
}

#[test]
fn race_selects_the_only_candidate_that_succeeds() {
    // B confirms on its third probe; A and C never do.
    let answer = |address: &str, probe: usize| {
        if address == "B" && probe >= 7 {
            Event::Replied(ProbeOutcome::Confirmed("key-of-b".to_string()))
        } else {
            Event::Replied(ProbeOutcome::Pending)
        }
    };
    let candidates = vec!["A".to_string(), "B".to_string(), "C".to_string()];
    let (probes, waits, last) = drive(Registration::multi(candidates).unwrap(), &answer, 1000);
    assert_eq!(probes, vec!["A", "B", "C", "A", "B", "C", "A", "B"]);
    assert_eq!(waits, 3);
    assert_eq!(
        last,
        Action::Finish { address: "B".to_string(), credential: "key-of-b".to_string() }
    );
}

#[test]
fn race_stops_scanning_at_the_first_success_in_a_pass() {
    let answer = |address: &str, _: usize| {
        if address == "B" {
            Event::Replied(ProbeOutcome::Confirmed("k".to_string()))
        } else {
            Event::Replied(ProbeOutcome::Pending)
        }
    };
    let candidates = vec!["A".to_string(), "B".to_string(), "C".to_string()];
    let (probes, waits, last) = drive(Registration::multi(candidates).unwrap(), &answer, 1000);
    assert_eq!(probes, vec!["A", "B"]);
    assert_eq!(waits, 1);
    assert_eq!(last, Action::Finish { address: "B".to_string(), credential: "k".to_string() });
}

#[test]
fn race_pauses_before_the_first_pass() {
    let registration = Registration::multi(vec!["A".to_string()]).unwrap();
    assert_eq!(registration.action(), Action::Wait { seconds: 5 });
}

#[test]
fn race_without_candidates_is_refused() {
    assert_eq!(Registration::multi(Vec::new()).err(), Some(ErrorKind::InvariantViolation));
    assert_eq!(Registration::begin(None, None).err(), Some(ErrorKind::InvariantViolation));
    assert_eq!(
        Registration::begin(None, Some(Vec::new())).err(),
        Some(ErrorKind::InvariantViolation)
    );
}

#[test]
fn begin_prefers_the_explicit_address() {
    let registration =
        Registration::begin(Some("1.2.3.4".to_string()), Some(vec!["5.6.7.8".to_string()]))
            .unwrap();
    assert_eq!(registration.action(), Action::Probe { address: "1.2.3.4".to_string() });
}

#[test]
fn malformed_answer_aborts_with_protocol_error() {
    let registration = Registration::single("h".to_string());
    let (after, action) = registration.step(Event::Replied(ProbeOutcome::Malformed));
    assert_eq!(action, Action::Abort { error: ErrorKind::ProtocolError });
    assert!(after.is_finished());
    assert_eq!(after.outcome(), Some(Err(ErrorKind::ProtocolError)));
}

#[test]
fn transport_failure_aborts_with_network_failure() {
    let registration = Registration::single("h".to_string());
    let (after, action) = registration.step(Event::TransportFailed);
    assert_eq!(action, Action::Abort { error: ErrorKind::NetworkFailure });
    assert!(after.is_finished());
}

#[test]
fn events_that_answer_nothing_change_nothing() {
    let registration = Registration::single("h".to_string());
    let (after, action) = registration.step(Event::Waited);
    assert_eq!(action, Action::Probe { address: "h".to_string() });
    let (after, _) = after.step(Event::Replied(ProbeOutcome::Confirmed("c".to_string())));
    let (after, action) = after.step(Event::Replied(ProbeOutcome::Pending));
    assert_eq!(action, Action::Finish { address: "h".to_string(), credential: "c".to_string() });
    let (_, action) = after.step(Event::TransportFailed);
    assert_eq!(action, Action::Finish { address: "h".to_string(), credential: "c".to_string() });
}

#[test]
fn outcome_carries_address_credential_and_base_url() {
    let registration = Registration::single("192.168.0.7".to_string());
    assert_eq!(registration.outcome(), None);
    let (after, _) = registration.step(Event::Replied(ProbeOutcome::Confirmed("abc".to_string())));
    let linked = after.outcome().unwrap().unwrap();
    assert_eq!(linked.address, "192.168.0.7");
    assert_eq!(linked.credential, "abc");
    assert_eq!(linked.base_url, "http://192.168.0.7/");
}

#[test]
fn decode_probe_reads_the_three_outcomes() {
    assert_eq!(LINK_BUTTON_NOT_PRESSED, 101);
    assert_eq!(decode_probe(NOT_PRESSED), ProbeOutcome::Pending);
    assert_eq!(
        decode_probe(ISSUED),
        ProbeOutcome::Confirmed("83b7780291a6ceffbe0bd049104df".to_string())
    );
    assert_eq!(decode_probe("[{\"error\":{\"type\":7}}]"), ProbeOutcome::Malformed);
    assert_eq!(decode_probe("[{\"error\":{\"type\":101.0}}]"), ProbeOutcome::Malformed);
    assert_eq!(decode_probe("{\"success\":{\"username\":\"x\"}}"), ProbeOutcome::Malformed);
    assert_eq!(decode_probe("[{\"success\":{\"username\":5}}]"), ProbeOutcome::Malformed);
    assert_eq!(decode_probe("[]"), ProbeOutcome::Malformed);
    assert_eq!(decode_probe("not json"), ProbeOutcome::Malformed);
}

#[test]
fn not_pressed_wins_over_a_credential_in_the_same_answer() {
    let body = "[{\"error\":{\"type\":101},\"success\":{\"username\":\"x\"}}]";
    assert_eq!(decode_probe(body), ProbeOutcome::Pending);
}

#[test]
fn classify_probe_works_on_a_value_built_by_hand() {
    let reply = Json::Array(vec![Json::Object(vec![(
        "success".to_string(),
        Json::Object(vec![("username".to_string(), Json::Text("u".to_string()))]),
    )])]);
    assert_eq!(classify_probe(&reply), ProbeOutcome::Confirmed("u".to_string()));
    assert_eq!(classify_probe(&Json::Null), ProbeOutcome::Malformed);
}
