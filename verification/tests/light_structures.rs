use huemanity::codec::parse;
use huemanity::json::{Json, JsonNumber};
use huemanity::lightstructs::{
    decode_light, decode_light_state, decode_lights, decode_numbers, Chromaticity, LightState,
    SendableState,
};

const STATE: &str = "{\"on\":true,\"bri\":144,\"hue\":13088,\"sat\":212,\"effect\":\"none\",\
    \"xy\":[0.5128,0.4147],\"ct\":467,\"alert\":\"none\",\"colormode\":\"xy\",\
    \"mode\":\"homeautomation\",\"reachable\":false}";

fn light(state: &str) -> String {
    format!(
        "{{\"state\":{},\"type\":\"Dimmable light\",\"name\":\"Hall\",\"modelid\":\"LWB010\",\
         \"manufacturername\":\"Philips\",\"productname\":\"Hue white lamp\",\
         \"uniqueid\":\"00:17\",\"swversion\":\"1.46\",\"swconfigid\":\"ABCD\",\
         \"productid\":\"P-1\",\"capabilities\":{{\"certified\":true}}}}",
        state
    )
}

#[test]
fn default_light_state_is_off_and_reachable() {
    let state = LightState::default();
    assert!(!state.on);
    assert_eq!(state.bri, 254);
    assert_eq!(state.hue, 8000);
    assert_eq!(state.sat, 140);
    assert_eq!(state.effect, "none");
    assert_eq!(state.xy.x, JsonNumber::Fraction("0.0".to_string()));
    assert_eq!(state.xy.y, JsonNumber::Fraction("0.0".to_string()));
    assert_eq!(state.ct, 366);
    assert_eq!(state.alert, "select");
    assert_eq!(state.colormode, "ct");
    assert_eq!(state.mode, "homeautomation");
    assert!(state.reachable);
}

#[test]
fn default_sendable_state_sets_nothing() {
    let state = SendableState::default();
    assert_eq!(
        state,
        SendableState {
            on: None,
            bri: None,
            hue: None,
            sat: None,
            effect: None,
            xy: None,
            alert: None
        }
    );
    assert_eq!(state.to_json(), Json::Object(Vec::new()));
}

#[test]
fn to_json_sends_the_set_fields_in_order() {
    let state = SendableState {
        on: Some(true),
        bri: Some(255),
        hue: Some(4_000_000_000),
        sat: Some(0),
        effect: Some("colorloop".to_string()),
        xy: Some(Chromaticity {
            x: JsonNumber::Fraction("0.3".to_string()),
            y: JsonNumber::Unsigned(1),
        }),
        alert: Some("lselect".to_string()),
    };
    assert_eq!(
        state.to_json(),
        Json::Object(vec![
            ("on".to_string(), Json::Bool(true)),
            ("bri".to_string(), Json::Number(JsonNumber::Unsigned(255))),
            ("hue".to_string(), Json::Number(JsonNumber::Unsigned(4_000_000_000))),
            ("sat".to_string(), Json::Number(JsonNumber::Unsigned(0))),
            ("effect".to_string(), Json::Text("colorloop".to_string())),
            (
                "xy".to_string(),
                Json::Array(vec![
                    Json::Number(JsonNumber::Fraction("0.3".to_string())),
                    Json::Number(JsonNumber::Unsigned(1)),
                ])
            ),
            ("alert".to_string(), Json::Text("lselect".to_string())),
        ])
    );
}

#[test]
fn to_json_leaves_out_what_is_not_set() {
    let state = SendableState { sat: Some(3), alert: Some("none".to_string()), ..SendableState::default() };
    assert_eq!(
        state.to_json(),
        Json::Object(vec![
            ("sat".to_string(), Json::Number(JsonNumber::Unsigned(3))),
            ("alert".to_string(), Json::Text("none".to_string())),
        ])
    );
}

#[test]
fn decode_light_state_reads_every_field() {
    let state = decode_light_state(&parse(STATE).ok().unwrap()).unwrap();
    assert!(state.on);
    assert_eq!(state.bri, 144);
    assert_eq!(state.hue, 13088);
    assert_eq!(state.sat, 212);
    assert_eq!(state.effect, "none");
    assert_eq!(state.xy.x, JsonNumber::Fraction("0.5128".to_string()));
    assert_eq!(state.xy.y, JsonNumber::Fraction("0.4147".to_string()));
    assert_eq!(state.ct, 467);
    assert_eq!(state.alert, "none");
    assert_eq!(state.colormode, "xy");
    assert_eq!(state.mode, "homeautomation");
    assert!(!state.reachable);
}

#[test]
fn decode_light_state_wants_every_field_and_its_kind() {
    let broken = [
        STATE.replace("\"on\":true,", ""),
        STATE.replace("\"bri\":144", "\"bri\":256"),
        STATE.replace("\"bri\":144", "\"bri\":-1"),
        STATE.replace("\"bri\":144", "\"bri\":1.5"),
        STATE.replace("\"hue\":13088", "\"hue\":4294967296"),
        STATE.replace("\"sat\":212", "\"sat\":\"212\""),
        STATE.replace("[0.5128,0.4147]", "[0.5128]"),
        STATE.replace("[0.5128,0.4147]", "[0.5128,0.4147,1]"),
        STATE.replace("[0.5128,0.4147]", "[0.5128,\"y\"]"),
        STATE.replace("\"reachable\":false", "\"reachable\":null"),
        STATE.replace("\"mode\"", "\"Mode\""),
        "[]".to_string(),
    ];
    for text in broken.iter() {
        assert!(decode_light_state(&parse(text).ok().unwrap()).is_none(), "{}", text);
    }
}

#[test]
fn decode_light_state_takes_the_largest_values() {
    let text = STATE
        .replace("\"bri\":144", "\"bri\":255")
        .replace("\"hue\":13088", "\"hue\":4294967295")
        .replace("[0.5128,0.4147]", "[1,0]");
    let state = decode_light_state(&parse(&text).ok().unwrap()).unwrap();
    assert_eq!(state.bri, 255);
    assert_eq!(state.hue, u32::MAX);
    assert_eq!(state.xy.x, JsonNumber::Unsigned(1));
}

#[test]
fn decode_light_reads_state_and_descriptions() {
    let decoded = decode_light(&parse(&light(STATE)).ok().unwrap()).unwrap();
    assert_eq!(decoded.name, "Hall");
    assert_eq!(decoded.kind, "Dimmable light");
    assert_eq!(decoded.modelid, "LWB010");
    assert_eq!(decoded.manufacturername, "Philips");
    assert_eq!(decoded.productname, "Hue white lamp");
    assert_eq!(decoded.uniqueid, "00:17");
    assert_eq!(decoded.swversion, "1.46");
    assert_eq!(decoded.swconfigid, "ABCD");
    assert_eq!(decoded.productid, "P-1");
    assert_eq!(decoded.state.bri, 144);
    let nameless = light(STATE).replace("\"name\":\"Hall\",", "");
    assert!(decode_light(&parse(&nameless).ok().unwrap()).is_none());
    let stateless = light("null");
    assert!(decode_light(&parse(&stateless).ok().unwrap()).is_none());
}

#[test]
fn decode_lights_maps_numbers_to_lights() {
    let text = format!("{{\"9\":{},\"11\":{}}}", light(STATE), light(STATE).replace("Hall", "Attic"));
    let lights = decode_lights(&parse(&text).ok().unwrap()).ok().unwrap();
    assert_eq!(lights.keys().copied().collect::<Vec<u8>>(), vec![9, 11]);
    assert_eq!(lights[&9].name, "Hall");
    assert_eq!(lights[&11].name, "Attic");
}

#[test]
fn a_later_field_replaces_an_earlier_one_of_the_same_number() {
    let first = decode_light(&parse(&light(STATE)).ok().unwrap()).unwrap();
    let value = |name: &str| parse(&light(STATE).replace("Hall", name)).ok().unwrap();
    let body = Json::Object(vec![
        ("4".to_string(), value("old")),
        ("5".to_string(), value("other")),
        ("4".to_string(), value("new")),
    ]);
    let lights = decode_lights(&body).ok().unwrap();
    assert_eq!(lights.len(), 2);
    assert_eq!(lights[&4].name, "new");
    assert_eq!(lights[&5].name, "other");
    assert_eq!(lights[&5].state, first.state);
}

#[test]
fn decode_numbers_marks_the_numbers_named() {
    let table = decode_numbers(&parse("{\"0\":1,\"255\":2,\"17\":{}}").ok().unwrap()).ok().unwrap();
    assert_eq!(table.len(), 256);
    for id in 0..256usize {
        assert_eq!(table[id], id == 0 || id == 255 || id == 17);
    }
    assert!(decode_numbers(&parse("{\"-1\":1}").ok().unwrap()).is_err());
    assert!(decode_numbers(&parse("7").ok().unwrap()).is_err());
    assert!(decode_numbers(&parse("{}").ok().unwrap()).ok().unwrap().iter().all(|b| !b));
}
