use huemanity::batch::{Batch, BatchStep};
use huemanity::bridge::Bridge;
use huemanity::commands::{Command, HttpCall, SetLightState};
use huemanity::error::ErrorKind;
use huemanity::json::{Json, JsonNumber};
use huemanity::lightstructs::SendableState;
use huemanity::network::{RequestType, Response};
use huemanity::registration::Action;

fn light_json(name: &str, on: bool) -> String {
    format!(
        "{{\"state\":{{\"on\":{},\"bri\":254,\"hue\":8418,\"sat\":140,\"effect\":\"none\",\
         \"xy\":[0.4573,0.41],\"ct\":366,\"alert\":\"select\",\"colormode\":\"ct\",\
         \"mode\":\"homeautomation\",\"reachable\":true}},\
         \"swupdate\":{{\"state\":\"noupdates\",\"lastinstall\":\"2019-10-01T12:00:00\"}},\
         \"type\":\"Extended color light\",\"name\":\"{}\",\"modelid\":\"LCT015\",\
         \"manufacturername\":\"Philips\",\"productname\":\"Hue color lamp\",\
         \"uniqueid\":\"00:17:88:01:00:00:00:01-0b\",\"swversion\":\"1.50.2\",\
         \"swconfigid\":\"772B0E5E\",\"productid\":\"Philips-LCT015-1-A19ECLv5\"}}",
        on, name
    )
}

fn inventory(entries: &[(&str, &str)]) -> Response {
    let fields: Vec<String> =
        entries.iter().map(|(id, name)| format!("\"{}\":{}", id, light_json(name, true))).collect();
    Response::from_reply(200, &format!("{{{}}}", fields.join(","))).unwrap()
}

fn linked() -> Bridge {
    Bridge::link("192.168.1.20".to_string(), "s3cr3t".to_string())
}

fn with_lights(ids: &[&str]) -> Bridge {
    let mut bridge = linked();
    let entries: Vec<(&str, &str)> = ids.iter().map(|id| (*id, "lamp")).collect();
    bridge.collect_lights(&inventory(&entries)).unwrap();
    bridge
}

/// Runs a batch; the call for a light in `failing` fails. Returns the
/// lights for which a call was made, the URLs called, and how the batch ended.
fn run(mut batch: Batch, failing: &[u8]) -> (Vec<u8>, Vec<String>, Result<(), (u8, ErrorKind)>) {
    let mut served = Vec::new();
    let mut urls = Vec::new();
    loop {
        let outcome = match batch.pending() {
            BatchStep::Dispatch { light, call } => {
                served.push(light);
                urls.push(call.url.clone());
                assert_eq!(call.method, RequestType::Put);
                if failing.contains(&light) {
                    Err(ErrorKind::NetworkFailure)
                } else {
                    Ok(())
                }
            }
            BatchStep::Completed => return (served, urls, Ok(())),
            BatchStep::Stopped { light, error } => return (served, urls, Err((light, error))),
        };
        batch = batch.report(outcome);
    }
}

#[test]
fn link_builds_the_base_url() {
    let bridge = linked();
    assert_eq!(bridge.base_url, "http://192.168.1.20/");
    assert_eq!(bridge.key, Some("s3cr3t".to_string()));
    assert_eq!(Bridge::at("h".to_string()).key, None);
}

#[test]
fn state_plans_a_put_to_the_light() {
    let state = SendableState { on: Some(false), bri: Some(17), ..SendableState::default() };
    let call = linked().state(4, &state).unwrap();
    assert_eq!(
        call,
        HttpCall {
            method: RequestType::Put,
            url: "http://192.168.1.20/api/s3cr3t/lights/4/state".to_string(),
            body: Some(Json::Object(vec![
                ("on".to_string(), Json::Bool(false)),
                ("bri".to_string(), Json::Number(JsonNumber::Unsigned(17))),
            ])),
        }
    );
}

#[test]
fn state_plans_what_the_command_plans() {
    let bridge = linked();
    let state = SendableState { hue: Some(65535), ..SendableState::default() };
    let direct = bridge.state(200, &state).unwrap();
    let command = SetLightState { light: 200, state };
    assert_eq!(command.send(&bridge).unwrap(), direct);
}

#[test]
fn send_resolves_below_the_credential() {
    let bridge = linked();
    let call = bridge.send("lights", RequestType::Get, Some(Json::Null)).unwrap();
    assert_eq!(call.url, "http://192.168.1.20/api/s3cr3t/lights");
    assert_eq!(call.body, None);
    let call = bridge.send("groups/0/action", RequestType::Post, Some(Json::Bool(true))).unwrap();
    assert_eq!(call.url, "http://192.168.1.20/api/s3cr3t/groups/0/action");
    assert_eq!(call.body, Some(Json::Bool(true)));
    let call = bridge.send("x", RequestType::Put, None).unwrap();
    assert_eq!(call.body, None);
    assert_eq!(bridge.debug().unwrap().url, "http://192.168.1.20/api/s3cr3t/lights");
}

#[test]
fn nothing_is_planned_without_a_credential() {
    let bridge = Bridge::at("h".to_string());
    let state = SendableState::default();
    assert_eq!(bridge.state(1, &state), Err(ErrorKind::NotRegistered));
    assert_eq!(bridge.send("lights", RequestType::Get, None), Err(ErrorKind::NotRegistered));
    assert_eq!(bridge.debug(), Err(ErrorKind::NotRegistered));
    assert!(bridge.state_all(&state).is_err());
}

#[test]
fn state_all_serves_three_lights_in_ascending_order() {
    let bridge = with_lights(&["1", "2", "3"]);
    let state = SendableState { on: Some(true), ..SendableState::default() };
    let (served, urls, end) = run(bridge.state_all(&state).unwrap(), &[]);
    assert_eq!(served, vec![1, 2, 3]);
    assert_eq!(
        urls,
        vec![
            "http://192.168.1.20/api/s3cr3t/lights/1/state",
            "http://192.168.1.20/api/s3cr3t/lights/2/state",
            "http://192.168.1.20/api/s3cr3t/lights/3/state",
        ]
    );
    assert_eq!(end, Ok(()));
}

#[test]
fn state_all_stops_at_the_first_failure() {
    let bridge = with_lights(&["1", "2", "3"]);
    let state = SendableState { on: Some(true), ..SendableState::default() };
    let (served, _, end) = run(bridge.state_all(&state).unwrap(), &[2]);
    assert_eq!(served, vec![1, 2]);
    assert_eq!(end, Err((2, ErrorKind::NetworkFailure)));
}

#[test]
fn state_all_without_lights_completes_at_once() {
    let bridge = linked();
    let (served, _, end) = run(bridge.state_all(&SendableState::default()).unwrap(), &[]);
    assert!(served.is_empty());
    assert_eq!(end, Ok(()));
}

#[test]
fn a_report_after_the_end_changes_nothing() {
    let bridge = with_lights(&["5"]);
    let batch = bridge.state_all(&SendableState::default()).unwrap();
    let batch = batch.report(Err(ErrorKind::ProtocolError));
    let batch = batch.report(Ok(()));
    assert!(matches!(
        batch.pending(),
        BatchStep::Stopped { light: 5, error: ErrorKind::ProtocolError }
    ));
    let done = Batch::new(Vec::new(), Vec::new()).report(Ok(()));
    assert!(matches!(done.pending(), BatchStep::Completed));
}

#[test]
fn collect_lights_keeps_the_ids_the_bridge_reported() {
    let mut bridge = linked();
    let answer = inventory(&[("10", "desk"), ("2", "hall"), ("1", "door")]);
    assert_eq!(bridge.collect_lights(&answer), Ok(()));
    assert_eq!(bridge.light_ids, vec![1, 2, 10]);
    assert_eq!(bridge.n_lights, 3);
    let lights = bridge.lights.as_ref().unwrap();
    assert_eq!(lights.keys().copied().collect::<Vec<u8>>(), vec![1, 2, 10]);
    assert_eq!(lights[&10].name, "desk");
    assert_eq!(lights[&2].name, "hall");
    assert_eq!(lights[&1].state.bri, 254);
}

#[test]
fn an_empty_inventory_is_an_empty_mapping() {
    let mut bridge = linked();
    assert_eq!(bridge.collect_lights(&Response::from_reply(200, "{}").unwrap()), Ok(()));
    assert_eq!(bridge.lights.as_ref().map(|l| l.len()), Some(0));
    assert!(bridge.light_ids.is_empty());
    assert_eq!(bridge.n_lights, 0);
}

#[test]
fn a_later_collection_replaces_the_earlier_one() {
    let mut bridge = with_lights(&["1", "2"]);
    bridge.collect_lights(&inventory(&[("7", "new")])).unwrap();
    assert_eq!(bridge.light_ids, vec![7]);
    assert_eq!(bridge.n_lights, 1);
    assert_eq!(bridge.lights.as_ref().unwrap().len(), 1);
}

#[test]
fn an_answer_that_describes_no_lights_leaves_the_bridge_alone() {
    let mut bridge = with_lights(&["1", "2"]);
    let before = bridge.clone();
    for body in [
        "[]",
        "{\"1\":{}}",
        "{\"one\":1}",
        "{\"256\":{}}",
        "[{\"error\":{\"type\":1,\"description\":\"unauthorized user\"}}]",
    ] {
        let answer = Response::from_reply(200, body).unwrap();
        assert_eq!(bridge.collect_lights(&answer), Err(ErrorKind::ProtocolError));
        assert_eq!(bridge, before);
    }
    let wrong_key = Response::from_reply(200, &format!("{{\"01\":{}}}", light_json("x", true)));
    assert_eq!(bridge.collect_lights(&wrong_key.unwrap()), Err(ErrorKind::ProtocolError));
}

#[test]
fn collect_ids_reads_the_numbers_alone() {
    let mut bridge = with_lights(&["4"]);
    let answer = Response::from_reply(200, "{\"3\":{},\"12\":null,\"0\":7}").unwrap();
    assert_eq!(bridge.collect_ids(&answer), Ok(()));
    assert_eq!(bridge.light_ids, vec![0, 3, 12]);
    assert_eq!(bridge.n_lights, 3);
    assert!(bridge.lights.is_none());
    let bad = Response::from_reply(200, "{\"3\":{},\"x\":{}}").unwrap();
    assert_eq!(bridge.collect_ids(&bad), Err(ErrorKind::ProtocolError));
    assert_eq!(bridge.light_ids, vec![0, 3, 12]);
}

#[test]
fn the_count_of_256_lights_wraps_to_zero() {
    let fields: Vec<String> = (0..256).map(|id| format!("\"{}\":0", id)).collect();
    let answer = Response::from_reply(200, &format!("{{{}}}", fields.join(","))).unwrap();
    let mut bridge = linked();
    bridge.collect_ids(&answer).unwrap();
    assert_eq!(bridge.light_ids.len(), 256);
    assert_eq!(bridge.light_ids[255], 255);
    assert_eq!(bridge.n_lights, 0);
}

#[test]
fn light_info_lists_the_lights_in_ascending_order() {
    let mut bridge = linked();
    assert!(bridge.light_info().is_empty());
    bridge.collect_lights(&inventory(&[("20", "b"), ("3", "a")])).unwrap();
    let rows = bridge.light_info();
    assert_eq!(rows.len(), 2);
    assert_eq!((rows[0].id, rows[0].light.name.as_str()), (3, "a"));
    assert_eq!((rows[1].id, rows[1].light.name.as_str()), (20, "b"));
}

#[test]
fn adopt_keeps_a_credential_that_is_already_there() {
    let mut bridge = Bridge::at("h".to_string());
    bridge.adopt("first".to_string());
    assert_eq!(bridge.key, Some("first".to_string()));
    bridge.adopt("second".to_string());
    assert_eq!(bridge.key, Some("first".to_string()));
}

#[test]
fn register_races_the_responders_or_takes_the_entered_address() {
    let found = vec!["a".to_string(), "b".to_string(), "a".to_string()];
    let race = Bridge::register(found, Some("manual".to_string())).unwrap();
    assert_eq!(race.action(), Action::Wait { seconds: 5 });
    let single = Bridge::register(Vec::new(), Some("manual".to_string())).unwrap();
    assert_eq!(single.action(), Action::Probe { address: "manual".to_string() });
    assert_eq!(Bridge::register(Vec::new(), None).err(), Some(ErrorKind::InvariantViolation));
}
