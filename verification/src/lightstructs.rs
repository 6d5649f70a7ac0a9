//! What a bridge tells about its lights, and what can be sent to change one.
//!
//! The chromaticity pair `xy` is fractional. It is carried as the two JSON
//! numbers the bridge reported, untouched.

use crate::error::ErrorKind;
use crate::json::{Json, JsonNumber, JsonNumberView, JsonView};
use crate::text::{decimal, parse_u8, read_u8};
use std::collections::BTreeMap;
use vstd::prelude::*;

verus! {

/// A colour as a point in the chromaticity diagram: the two coordinates, each
/// as the JSON number it travels as.
#[derive(Clone, Debug, PartialEq, Eq)]
pub struct Chromaticity {
    pub x: JsonNumber,
    pub y: JsonNumber,
}

impl View for Chromaticity {
    type V = (JsonNumberView, JsonNumberView);

    open spec fn view(&self) -> (JsonNumberView, JsonNumberView) {
        (self.x@, self.y@)
    }
}

/// The state part of a light.
#[derive(Clone, Debug, PartialEq, Eq)]
pub struct LightState {
    pub on: bool,
    pub bri: u8,
    pub hue: u32,
    pub sat: u8,
    pub effect: String,
    pub xy: Chromaticity,
    pub ct: u32,
    pub alert: String,
    pub colormode: String,
    pub mode: String,
    pub reachable: bool,
}

/// The mathematical value of a [`LightState`].
pub struct LightStateView {
    pub on: bool,
    pub bri: u8,
    pub hue: u32,
    pub sat: u8,
    pub effect: Seq<char>,
    pub xy: (JsonNumberView, JsonNumberView),
    pub ct: u32,
    pub alert: Seq<char>,
    pub colormode: Seq<char>,
    pub mode: Seq<char>,
    pub reachable: bool,
}

impl View for LightState {
    type V = LightStateView;

    open spec fn view(&self) -> LightStateView {
        LightStateView {
            on: self.on,
            bri: self.bri,
            hue: self.hue,
            sat: self.sat,
            effect: self.effect@,
            xy: self.xy@,
            ct: self.ct,
            alert: self.alert@,
            colormode: self.colormode@,
            mode: self.mode@,
            reachable: self.reachable,
        }
    }
}

impl Default for LightState {
    /// A light that is off, at full brightness, in colour-temperature mode.
    fn default() -> (r: LightState)
        ensures
            r@ == (LightStateView {
                on: false,
                bri: 254,
                hue: 8000,
                sat: 140,
                effect: "none"@,
                xy: (JsonNumberView::Fraction("0.0"@), JsonNumberView::Fraction("0.0"@)),
                ct: 366,
                alert: "select"@,
                colormode: "ct"@,
                mode: "homeautomation"@,
                reachable: true,
            }),
    {
        LightState {
            on: false,
            bri: 254,
            hue: 8000,
            sat: 140,
            effect: "none".to_owned(),
            xy: Chromaticity {
                x: JsonNumber::Fraction("0.0".to_owned()),
                y: JsonNumber::Fraction("0.0".to_owned()),
            },
            ct: 366,
            alert: "select".to_owned(),
            colormode: "ct".to_owned(),
            mode: "homeautomation".to_owned(),
            reachable: true,
        }
    }
}

/// One light as the bridge describes it.
#[derive(Clone, Debug, PartialEq, Eq)]
pub struct Light {
    pub state: LightState,
    pub kind: String,
    pub name: String,
    pub modelid: String,
    pub manufacturername: String,
    pub productname: String,
    pub uniqueid: String,
    pub swversion: String,
    pub swconfigid: String,
    pub productid: String,
}

/// The mathematical value of a [`Light`].
pub struct LightView {
    pub state: LightStateView,
    pub kind: Seq<char>,
    pub name: Seq<char>,
    pub modelid: Seq<char>,
    pub manufacturername: Seq<char>,
    pub productname: Seq<char>,
    pub uniqueid: Seq<char>,
    pub swversion: Seq<char>,
    pub swconfigid: Seq<char>,
    pub productid: Seq<char>,
}

impl View for Light {
    type V = LightView;

    open spec fn view(&self) -> LightView {
        LightView {
            state: self.state@,
            kind: self.kind@,
            name: self.name@,
            modelid: self.modelid@,
            manufacturername: self.manufacturername@,
            productname: self.productname@,
            uniqueid: self.uniqueid@,
            swversion: self.swversion@,
            swconfigid: self.swconfigid@,
            productid: self.productid@,
        }
    }
}

/// A change to send to a light. Only the fields that are set are sent.
#[derive(Clone, Debug, PartialEq, Eq)]
pub struct SendableState {
    pub on: Option<bool>,
    pub bri: Option<u8>,
    pub hue: Option<u32>,
    pub sat: Option<u8>,
    pub effect: Option<String>,
    pub xy: Option<Chromaticity>,
    pub alert: Option<String>,
}

/// The mathematical value of a [`SendableState`].
pub struct SendableStateView {
    pub on: Option<bool>,
    pub bri: Option<u8>,
    pub hue: Option<u32>,
    pub sat: Option<u8>,
    pub effect: Option<Seq<char>>,
    pub xy: Option<(JsonNumberView, JsonNumberView)>,
    pub alert: Option<Seq<char>>,
}

impl View for SendableState {
    type V = SendableStateView;

    open spec fn view(&self) -> SendableStateView {
        SendableStateView {
            on: self.on,
            bri: self.bri,
            hue: self.hue,
            sat: self.sat,
            effect: match self.effect {
                Some(e) => Some(e@),
                None => None,
            },
            xy: match self.xy {
                Some(pair) => Some(pair@),
                None => None,
            },
            alert: match self.alert {
                Some(a) => Some(a@),
                None => None,
            },
        }
    }
}

impl Default for SendableState {
    /// A change that changes nothing: no field is set.
    fn default() -> (r: SendableState)
        ensures
            r@ == (SendableStateView {
                on: None,
                bri: None,
                hue: None,
                sat: None,
                effect: None,
                xy: None,
                alert: None,
            }),
    {
        SendableState {
            on: None,
            bri: None,
            hue: None,
            sat: None,
            effect: None,
            xy: None,
            alert: None,
        }
    }
}

/// The field `name` with `value`, or nothing where there is no value.
pub open spec fn present(name: Seq<char>, value: Option<JsonView>) -> Seq<(Seq<char>, JsonView)> {
    match value {
        Some(v) => seq![(name, v)],
        None => Seq::empty(),
    }
}

impl SendableStateView {
    /// The fields that are set, in the order on, bri, hue, sat, effect, xy,
    /// alert.
    pub open spec fn fields(self) -> Seq<(Seq<char>, JsonView)> {
        present(
            "on"@,
            match self.on {
                Some(b) => Some(JsonView::Bool(b)),
                None => None,
            },
        ) + present(
            "bri"@,
            match self.bri {
                Some(n) => Some(JsonView::Number(JsonNumberView::Unsigned(n as u64))),
                None => None,
            },
        ) + present(
            "hue"@,
            match self.hue {
                Some(n) => Some(JsonView::Number(JsonNumberView::Unsigned(n as u64))),
                None => None,
            },
        ) + present(
            "sat"@,
            match self.sat {
                Some(n) => Some(JsonView::Number(JsonNumberView::Unsigned(n as u64))),
                None => None,
            },
        ) + present(
            "effect"@,
            match self.effect {
                Some(t) => Some(JsonView::Text(t)),
                None => None,
            },
        ) + present(
            "xy"@,
            match self.xy {
                Some(pair) => Some(
                    JsonView::Array(seq![JsonView::Number(pair.0), JsonView::Number(pair.1)]),
                ),
                None => None,
            },
        ) + present(
            "alert"@,
            match self.alert {
                Some(t) => Some(JsonView::Text(t)),
                None => None,
            },
        )
    }

    /// The JSON object that carries the change.
    pub open spec fn body(self) -> JsonView {
        JsonView::Object(self.fields())
    }
}

/// Appends the field `name` to `fields` where `value` is there.
fn push_present(fields: &mut Vec<(String, Json)>, name: &str, value: Option<Json>)
    ensures
        crate::json::fields_view(final(fields)@) == crate::json::fields_view(old(fields)@) + present(
            name@,
            match value {
                Some(v) => Some(v@),
                None => None,
            },
        ),
{
    match value {
        Some(v) => {
            fields.push((name.to_owned(), v));
            assert(crate::json::fields_view(fields@) =~= crate::json::fields_view(old(fields)@)
                + seq![(name@, v@)]);
        },
        None => {
            assert(crate::json::fields_view(fields@) =~= crate::json::fields_view(old(fields)@)
                + Seq::empty());
        },
    }
}

impl SendableState {
    /// The request body for this change: an object with the fields that are
    /// set, and no others.
    pub fn to_json(&self) -> (r: Json)
        ensures
            r@ == self@.body(),
    {
        let mut fields: Vec<(String, Json)> = Vec::new();
        assert(crate::json::fields_view(fields@) =~= Seq::empty());
        push_present(
            &mut fields,
            "on",
            match self.on {
                Some(b) => Some(Json::Bool(b)),
                None => None,
            },
        );
        push_present(
            &mut fields,
            "bri",
            match self.bri {
                Some(n) => Some(Json::unsigned(n as u64)),
                None => None,
            },
        );
        push_present(
            &mut fields,
            "hue",
            match self.hue {
                Some(n) => Some(Json::unsigned(n as u64)),
                None => None,
            },
        );
        push_present(
            &mut fields,
            "sat",
            match self.sat {
                Some(n) => Some(Json::unsigned(n as u64)),
                None => None,
            },
        );
        push_present(
            &mut fields,
            "effect",
            match &self.effect {
                Some(t) => Some(Json::text(t.as_str())),
                None => None,
            },
        );
        push_present(
            &mut fields,
            "xy",
            match &self.xy {
                Some(pair) => Some(Json::pair(&pair.x, &pair.y)),
                None => None,
            },
        );
        push_present(
            &mut fields,
            "alert",
            match &self.alert {
                Some(t) => Some(Json::text(t.as_str())),
                None => None,
            },
        );
        assert(crate::json::fields_view(fields@) =~= self@.fields());
        Json::object(fields)
    }
}

/// The string in field `key` of `object`.
pub open spec fn text_at(object: JsonView, key: Seq<char>) -> Option<Seq<char>> {
    match object.field(key) {
        Some(value) => value.as_text(),
        None => None,
    }
}

/// The boolean in field `key` of `object`.
pub open spec fn bool_at(object: JsonView, key: Seq<char>) -> Option<bool> {
    match object.field(key) {
        Some(value) => value.as_bool(),
        None => None,
    }
}

/// The non-negative integer in field `key` of `object`, where it is at most
/// `limit`.
pub open spec fn count_at(object: JsonView, key: Seq<char>, limit: u64) -> Option<u64> {
    match object.field(key) {
        Some(value) => match value.as_u64() {
            Some(n) => if n <= limit {
                Some(n)
            } else {
                None
            },
            None => None,
        },
        None => None,
    }
}

/// The two numbers in field `key` of `object`, where it is an array of
/// exactly two numbers.
pub open spec fn pair_at(object: JsonView, key: Seq<char>) -> Option<
    (JsonNumberView, JsonNumberView),
> {
    match object.field(key) {
        Some(JsonView::Array(items)) => if items.len() == 2 {
            match (items[0], items[1]) {
                (JsonView::Number(x), JsonView::Number(y)) => Some((x, y)),
                _ => None,
            }
        } else {
            None
        },
        _ => None,
    }
}

/// The state that `object` describes: every field must be there and of its
/// kind; other fields are passed over.
pub open spec fn light_state_of(object: JsonView) -> Option<LightStateView> {
    match (
        bool_at(object, "on"@),
        count_at(object, "bri"@, 255),
        count_at(object, "hue"@, 0xffff_ffff),
        count_at(object, "sat"@, 255),
        text_at(object, "effect"@),
        pair_at(object, "xy"@),
        count_at(object, "ct"@, 0xffff_ffff),
        text_at(object, "alert"@),
        text_at(object, "colormode"@),
        text_at(object, "mode"@),
        bool_at(object, "reachable"@),
    ) {
        (
            Some(on),
            Some(bri),
            Some(hue),
            Some(sat),
            Some(effect),
            Some(xy),
            Some(ct),
            Some(alert),
            Some(colormode),
            Some(mode),
            Some(reachable),
        ) => Some(
            LightStateView {
                on,
                bri: bri as u8,
                hue: hue as u32,
                sat: sat as u8,
                effect,
                xy,
                ct: ct as u32,
                alert,
                colormode,
                mode,
                reachable,
            },
        ),
        _ => None,
    }
}

/// The light that `object` describes: its state and its descriptive strings
/// must all be there; other fields are passed over.
pub open spec fn light_of(object: JsonView) -> Option<LightView> {
    match (
        match object.field("state"@) {
            Some(state) => light_state_of(state),
            None => None,
        },
        text_at(object, "type"@),
        text_at(object, "name"@),
        text_at(object, "modelid"@),
        text_at(object, "manufacturername"@),
        text_at(object, "productname"@),
        text_at(object, "uniqueid"@),
        text_at(object, "swversion"@),
        text_at(object, "swconfigid"@),
        text_at(object, "productid"@),
    ) {
        (
            Some(state),
            Some(kind),
            Some(name),
            Some(modelid),
            Some(manufacturername),
            Some(productname),
            Some(uniqueid),
            Some(swversion),
            Some(swconfigid),
            Some(productid),
        ) => Some(
            LightView {
                state,
                kind,
                name,
                modelid,
                manufacturername,
                productname,
                uniqueid,
                swversion,
                swconfigid,
                productid,
            },
        ),
        _ => None,
    }
}

fn get_text(object: &Json, key: &str) -> (r: Option<String>)
    ensures
        match r {
            Some(t) => text_at(object@, key@) == Some(t@),
            None => text_at(object@, key@) is None,
        },
{
    match object.get(key) {
        Some(value) => match value.as_str() {
            Some(t) => Some(t.to_owned()),
            None => None,
        },
        None => None,
    }
}

fn get_bool(object: &Json, key: &str) -> (r: Option<bool>)
    ensures
        r == bool_at(object@, key@),
{
    match object.get(key) {
        Some(value) => value.as_bool(),
        None => None,
    }
}

fn get_count(object: &Json, key: &str, limit: u64) -> (r: Option<u64>)
    ensures
        r == count_at(object@, key@, limit),
{
    match object.get(key) {
        Some(value) => match value.as_u64() {
            Some(n) => if n <= limit {
                Some(n)
            } else {
                None
            },
            None => None,
        },
        None => None,
    }
}

fn get_pair(object: &Json, key: &str) -> (r: Option<Chromaticity>)
    ensures
        match r {
            Some(pair) => pair_at(object@, key@) == Some(pair@),
            None => pair_at(object@, key@) is None,
        },
{
    match object.get(key) {
        Some(Json::Array(items)) => {
            proof {
                crate::json::lemma_array_view(*items);
                let all = object@.field(key@)->Some_0->Array_0;
                assert(all.len() == items.len());
                if items.len() == 2 {
                    assert(all[0] == items[0]@);
                    assert(all[1] == items[1]@);
                }
            }
            if items.len() == 2 {
                match (&items[0], &items[1]) {
                    (Json::Number(x), Json::Number(y)) => Some(
                        Chromaticity { x: x.duplicate(), y: y.duplicate() },
                    ),
                    _ => None,
                }
            } else {
                None
            }
        },
        _ => None,
    }
}

/// Reads the state of a light from the object the bridge sends for it.
pub fn decode_light_state(object: &Json) -> (r: Option<LightState>)
    ensures
        match r {
            Some(state) => light_state_of(object@) == Some(state@),
            None => light_state_of(object@) is None,
        },
{
    let on = get_bool(object, "on")?;
    let bri = get_count(object, "bri", 255)?;
    let hue = get_count(object, "hue", 0xffff_ffff)?;
    let sat = get_count(object, "sat", 255)?;
    let effect = get_text(object, "effect")?;
    let xy = get_pair(object, "xy")?;
    let ct = get_count(object, "ct", 0xffff_ffff)?;
    let alert = get_text(object, "alert")?;
    let colormode = get_text(object, "colormode")?;
    let mode = get_text(object, "mode")?;
    let reachable = get_bool(object, "reachable")?;
    Some(
        LightState {
            on,
            bri: bri as u8,
            hue: hue as u32,
            sat: sat as u8,
            effect,
            xy,
            ct: ct as u32,
            alert,
            colormode,
            mode,
            reachable,
        },
    )
}

/// Reads a light from the object the bridge sends for it.
pub fn decode_light(object: &Json) -> (r: Option<Light>)
    ensures
        match r {
            Some(light) => light_of(object@) == Some(light@),
            None => light_of(object@) is None,
        },
{
    let state = match object.get("state") {
        Some(inner) => decode_light_state(inner)?,
        None => {
            return None;
        },
    };
    let kind = get_text(object, "type")?;
    let name = get_text(object, "name")?;
    let modelid = get_text(object, "modelid")?;
    let manufacturername = get_text(object, "manufacturername")?;
    let productname = get_text(object, "productname")?;
    let uniqueid = get_text(object, "uniqueid")?;
    let swversion = get_text(object, "swversion")?;
    let swconfigid = get_text(object, "swconfigid")?;
    let productid = get_text(object, "productid")?;
    Some(
        Light {
            state,
            kind,
            name,
            modelid,
            manufacturername,
            productname,
            uniqueid,
            swversion,
            swconfigid,
            productid,
        },
    )
}

/// The lights of a bridge, by their number.
pub type Lights = BTreeMap<u8, Light>;

/// The mathematical value of a set of lights.
pub open spec fn lights_view(lights: Map<u8, Light>) -> Map<u8, LightView> {
    Map::new(|id: u8| lights.contains_key(id), |id: u8| lights[id]@)
}

/// The lights that the first `upto` fields describe. Each field is a light
/// under its number, written as a decimal numeral; a later field for the same
/// number replaces an earlier one. `None` where a field is neither.
pub open spec fn lights_upto(fields: Seq<(Seq<char>, JsonView)>, upto: int) -> Option<
    Map<u8, LightView>,
>
    decreases upto,
{
    if upto <= 0 {
        Some(Map::empty())
    } else {
        match (
            lights_upto(fields, upto - 1),
            read_u8(fields[upto - 1].0),
            light_of(fields[upto - 1].1),
        ) {
            (Some(earlier), Some(id), Some(light)) => Some(earlier.insert(id, light)),
            _ => None,
        }
    }
}

/// The lights that the answer to "list lights" describes: an object with one
/// field for each light.
pub open spec fn lights_of(body: JsonView) -> Option<Map<u8, LightView>> {
    match body {
        JsonView::Object(fields) => lights_upto(fields, fields.len() as int),
        _ => None,
    }
}

proof fn lemma_lights_fail_on(fields: Seq<(Seq<char>, JsonView)>, bad: int, upto: int)
    requires
        0 <= bad <= upto,
        lights_upto(fields, bad) is None,
    ensures
        lights_upto(fields, upto) is None,
    decreases upto - bad,
{
    if bad < upto {
        lemma_lights_fail_on(fields, bad, upto - 1);
    }
}

proof fn lemma_lights_keys(fields: Seq<(Seq<char>, JsonView)>, upto: int)
    requires
        0 <= upto <= fields.len(),
        lights_upto(fields, upto) is Some,
    ensures
        forall|i: int| 0 <= i < upto ==> (#[trigger] read_u8(fields[i].0)) is Some,
        forall|id: u8| #[trigger]
            lights_upto(fields, upto)->Some_0.contains_key(id) <==> exists|i: int|
                0 <= i < upto && #[trigger] read_u8(fields[i].0) == Some(id),
    decreases upto,
{
    if upto > 0 {
        lemma_lights_keys(fields, upto - 1);
        let earlier = lights_upto(fields, upto - 1)->Some_0;
        let now = lights_upto(fields, upto)->Some_0;
        let last = read_u8(fields[upto - 1].0)->Some_0;
        assert forall|id: u8| #[trigger]
            now.contains_key(id) <==> exists|i: int|
                0 <= i < upto && #[trigger] read_u8(fields[i].0) == Some(id) by {
            if now.contains_key(id) {
                if id == last {
                    assert(read_u8(fields[upto - 1].0) == Some(id));
                } else {
                    assert(earlier.contains_key(id));
                    let i = choose|i: int|
                        0 <= i < upto - 1 && #[trigger] read_u8(fields[i].0) == Some(id);
                    assert(read_u8(fields[i].0) == Some(id));
                }
            }
            if exists|i: int| 0 <= i < upto && #[trigger] read_u8(fields[i].0) == Some(id) {
                let i = choose|i: int| 0 <= i < upto && #[trigger] read_u8(fields[i].0) == Some(id);
                if i < upto - 1 {
                    assert(earlier.contains_key(id));
                }
            }
        }
    }
}

/// The lights read from an answer are exactly the lights it lists: every
/// field name is the numeral of a light number, and a number is among the
/// lights if and only if its numeral is a field name. An answer that lists
/// nothing gives no lights, and still a mapping.
pub proof fn law_snapshot_keys(body: JsonView)
    requires
        lights_of(body) is Some,
    ensures
        body is Object,
        forall|i: int|
            0 <= i < body->Object_0.len() ==> (#[trigger] read_u8(body->Object_0[i].0)) is Some,
        forall|id: u8| #[trigger]
            lights_of(body)->Some_0.contains_key(id) <==> exists|i: int|
                0 <= i < body->Object_0.len() && #[trigger] body->Object_0[i].0 == decimal(
                    id as nat,
                ),
        body->Object_0.len() == 0 ==> lights_of(body)->Some_0 == Map::<u8, LightView>::empty(),
{
    let fields = body->Object_0;
    lemma_lights_keys(fields, fields.len() as int);
    assert forall|id: u8| #[trigger]
        lights_of(body)->Some_0.contains_key(id) <==> exists|i: int|
            0 <= i < fields.len() && #[trigger] fields[i].0 == decimal(id as nat) by {
        if lights_of(body)->Some_0.contains_key(id) {
            let i = choose|i: int|
                0 <= i < fields.len() && #[trigger] read_u8(fields[i].0) == Some(id);
            crate::text::lemma_numeral_of_read_decimal(fields[i].0);
            assert(fields[i].0 == decimal(id as nat));
        }
        if exists|i: int| 0 <= i < fields.len() && #[trigger] fields[i].0 == decimal(id as nat) {
            let i = choose|i: int|
                0 <= i < fields.len() && #[trigger] fields[i].0 == decimal(id as nat);
            crate::text::lemma_read_decimal_of_numeral(id as nat);
            assert(read_u8(fields[i].0) == Some(id));
        }
    }
}

/// The numbers under which the first `upto` fields stand, where each field
/// name is the numeral of a number up to 255.
pub open spec fn numbers_upto(fields: Seq<(Seq<char>, JsonView)>, upto: int) -> Option<Set<u8>>
    decreases upto,
{
    if upto <= 0 {
        Some(Set::empty())
    } else {
        match (numbers_upto(fields, upto - 1), read_u8(fields[upto - 1].0)) {
            (Some(earlier), Some(id)) => Some(earlier.insert(id)),
            _ => None,
        }
    }
}

/// The light numbers that the answer to "list lights" names, whatever it
/// says of each light.
pub open spec fn numbers_of(body: JsonView) -> Option<Set<u8>> {
    match body {
        JsonView::Object(fields) => numbers_upto(fields, fields.len() as int),
        _ => None,
    }
}

proof fn lemma_numbers_fail_on(fields: Seq<(Seq<char>, JsonView)>, bad: int, upto: int)
    requires
        0 <= bad <= upto,
        numbers_upto(fields, bad) is None,
    ensures
        numbers_upto(fields, upto) is None,
    decreases upto - bad,
{
    if bad < upto {
        lemma_numbers_fail_on(fields, bad, upto - 1);
    }
}

proof fn lemma_numbers_of_lights(fields: Seq<(Seq<char>, JsonView)>, upto: int)
    requires
        0 <= upto <= fields.len(),
        lights_upto(fields, upto) is Some,
    ensures
        numbers_upto(fields, upto) == Some(lights_upto(fields, upto)->Some_0.dom()),
    decreases upto,
{
    if upto > 0 {
        lemma_numbers_of_lights(fields, upto - 1);
        let earlier = lights_upto(fields, upto - 1)->Some_0;
        let id = read_u8(fields[upto - 1].0)->Some_0;
        let light = light_of(fields[upto - 1].1)->Some_0;
        assert(earlier.insert(id, light).dom() =~= earlier.dom().insert(id));
    } else {
        assert(Map::<u8, LightView>::empty().dom() =~= Set::<u8>::empty());
    }
}

/// Where an answer describes lights, the numbers it names are exactly the
/// numbers of those lights: reading the numbers alone and reading the lights
/// agree.
pub proof fn law_numbers_are_those_of_the_lights(body: JsonView)
    requires
        lights_of(body) is Some,
    ensures
        numbers_of(body) == Some(lights_of(body)->Some_0.dom()),
{
    let fields = body->Object_0;
    lemma_numbers_of_lights(fields, fields.len() as int);
}

/// Reads the light numbers from the answer to "list lights", as a table
/// that says of each number whether it is named. Anything but an object
/// whose field names are numerals up to 255 is a protocol error.
pub fn decode_numbers(body: &Json) -> (r: Result<Vec<bool>, ErrorKind>)
    ensures
        match r {
            Ok(table) => numbers_of(body@) is Some && table.len() == 256 && forall|id: u8| #[trigger]
                table[id as int] == numbers_of(body@)->Some_0.contains(id),
            Err(e) => e == ErrorKind::ProtocolError && numbers_of(body@) is None,
        },
{
    match body {
        Json::Object(fields) => {
            let ghost all = body@->Object_0;
            proof {
                crate::json::lemma_object_view(*fields);
            }
            let mut table: Vec<bool> = Vec::new();
            let mut n: usize = 0;
            while n < 256
                invariant
                    n <= 256,
                    table.len() == n,
                    forall|k: int| 0 <= k < n ==> !table[k],
                decreases 256 - n,
            {
                table.push(false);
                n += 1;
            }
            let mut i: usize = 0;
            while i < fields.len()
                invariant
                    i <= fields.len(),
                    body@ == JsonView::Object(all),
                    all.len() == fields.len(),
                    forall|k: int|
                        0 <= k < fields.len() ==> all[k] == ((#[trigger] fields[k]).0@, fields[k].1@),
                    table.len() == 256,
                    numbers_upto(all, i as int) is Some,
                    forall|id: u8| #[trigger]
                        table[id as int] == numbers_upto(all, i as int)->Some_0.contains(id),
                decreases fields.len() - i,
            {
                assert(all[i as int] == (fields[i as int].0@, fields[i as int].1@));
                match parse_u8(fields[i].0.as_str()) {
                    Some(id) => {
                        table.set(id as usize, true);
                    },
                    None => {
                        proof {
                            lemma_numbers_fail_on(all, i + 1, all.len() as int);
                        }
                        return Err(ErrorKind::ProtocolError);
                    },
                }
                i += 1;
            }
            Ok(table)
        },
        _ => Err(ErrorKind::ProtocolError),
    }
}

/// Reads the lights from the answer to "list lights". Anything but an
/// object of lights under their numbers is a protocol error.
pub fn decode_lights(body: &Json) -> (r: Result<Lights, ErrorKind>)
    ensures
        match r {
            Ok(lights) => lights_of(body@) == Some(lights_view(lights@)),
            Err(e) => e == ErrorKind::ProtocolError && lights_of(body@) is None,
        },
{
    match body {
        Json::Object(fields) => {
            let ghost all = body@->Object_0;
            proof {
                crate::json::lemma_object_view(*fields);
            }
            let mut lights: Lights = BTreeMap::new();
            assert(lights_view(lights@) =~= Map::<u8, LightView>::empty());
            let mut i: usize = 0;
            while i < fields.len()
                invariant
                    i <= fields.len(),
                    body@ == JsonView::Object(all),
                    all.len() == fields.len(),
                    forall|k: int|
                        0 <= k < fields.len() ==> all[k] == ((#[trigger] fields[k]).0@, fields[k].1@),
                    lights_upto(all, i as int) == Some(lights_view(lights@)),
                decreases fields.len() - i,
            {
                let ghost before = lights@;
                assert(all[i as int] == (fields[i as int].0@, fields[i as int].1@));
                let id = match parse_u8(fields[i].0.as_str()) {
                    Some(id) => id,
                    None => {
                        proof {
                            lemma_lights_fail_on(all, i + 1, all.len() as int);
                        }
                        return Err(ErrorKind::ProtocolError);
                    },
                };
                let light = match decode_light(&fields[i].1) {
                    Some(light) => light,
                    None => {
                        proof {
                            lemma_lights_fail_on(all, i + 1, all.len() as int);
                        }
                        return Err(ErrorKind::ProtocolError);
                    },
                };
                let ghost seen = light@;
                lights.insert(id, light);
                assert(lights_view(lights@) =~= lights_view(before).insert(id, seen));
                i += 1;
            }
            Ok(lights)
        },
        _ => Err(ErrorKind::ProtocolError),
    }
}

} // verus!
