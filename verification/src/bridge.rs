//! The session with one bridge.

use crate::batch::Batch;
use crate::commands::{planned, HttpCall, HttpCallView};
use crate::error::ErrorKind;
use crate::json::{Json, JsonView};
use crate::discovery::{discover, distinct_addresses};
use crate::lightstructs::{
    decode_lights, decode_numbers, lights_of, lights_view, numbers_of, Light, Lights,
    SendableState,
};
use crate::registration::{PhaseView, Registration, RegistrationView};
use crate::network::{RequestType, RequestView, Response};
use crate::text::{decimal, push_decimal, texts};
use vstd::prelude::*;
use vstd::string::StringExecFns;

verus! {

/// The URL below which a bridge at `ip` serves its API.
pub open spec fn base_url_of(ip: Seq<char>) -> Seq<char> {
    "http://"@ + ip + "/"@
}

/// The numbers below `bound` that are in `known`, in ascending order.
pub open spec fn ids_below(known: Set<u8>, bound: int) -> Seq<u8>
    decreases bound,
{
    if bound <= 0 {
        Seq::empty()
    } else {
        let front = ids_below(known, bound - 1);
        if known.contains((bound - 1) as u8) {
            front.push((bound - 1) as u8)
        } else {
            front
        }
    }
}

/// All the numbers in `known`, in ascending order.
pub open spec fn ascending_ids(known: Set<u8>) -> Seq<u8> {
    ids_below(known, 256)
}

/// [`ids_below`] lists each number of the set below the bound once, smaller
/// numbers first.
pub proof fn lemma_ids_below(known: Set<u8>, bound: int)
    requires
        0 <= bound <= 256,
    ensures
        ids_below(known, bound).len() <= bound,
        forall|i: int| 0 <= i < ids_below(known, bound).len() ==> (#[trigger] ids_below(
            known,
            bound,
        )[i]) < bound,
        forall|i: int, j: int|
            0 <= i < j < ids_below(known, bound).len() ==> ids_below(known, bound)[i] < ids_below(
                known,
                bound,
            )[j],
        forall|id: u8|
            ids_below(known, bound).contains(id) <==> (known.contains(id) && id < bound),
    decreases bound,
{
    if bound > 0 {
        lemma_ids_below(known, bound - 1);
        let front = ids_below(known, bound - 1);
        let all = ids_below(known, bound);
        let top = (bound - 1) as u8;
        assert forall|id: u8| all.contains(id) <==> (known.contains(id) && id < bound) by {
            if all.contains(id) {
                let k = choose|k: int| 0 <= k < all.len() && all[k] == id;
                if k < front.len() {
                    assert(front[k] == id);
                    assert(front.contains(id));
                }
            }
            if known.contains(id) && id < bound {
                if id == top {
                    assert(all[front.len() as int] == id);
                } else {
                    assert(front.contains(id));
                    let k = choose|k: int| 0 <= k < front.len() && front[k] == id;
                    assert(all[k] == id);
                }
            }
        }
    }
}

/// The path of one API resource below the credential: `api/`, the
/// credential, `/`, and the name of the resource.
pub open spec fn endpoint_path(key: Seq<char>, endpoint: Seq<char>) -> Seq<char> {
    "api/"@ + key + "/"@ + endpoint
}

/// The call that sends the change `body` to the light numbered `light`.
pub open spec fn state_call(
    base_url: Seq<char>,
    key: Seq<char>,
    light: u8,
    body: JsonView,
) -> HttpCallView {
    HttpCallView {
        method: RequestType::Put,
        url: base_url + endpoint_path(key, "lights/"@ + decimal(light as nat) + "/state"@),
        body: Some(body),
    }
}

/// A bridge: where it is, the credential it issued, and the lights it was
/// last seen to have.
#[derive(Clone, Debug, PartialEq, Eq)]
pub struct Bridge {
    pub ip: String,
    pub key: Option<String>,
    pub base_url: String,
    pub light_ids: Vec<u8>,
    pub n_lights: u8,
    pub lights: Option<Lights>,
}

/// One line of the overview of the lights: the number of a light, and the
/// light.
pub struct LightRow<'a> {
    pub id: u8,
    pub light: &'a Light,
}

impl Bridge {
    /// The credential, where the bridge has issued one.
    pub open spec fn credential(&self) -> Option<Seq<char>> {
        match self.key {
            Some(k) => Some(k@),
            None => None,
        }
    }

    /// The base URL is that of the address, and the numbers and the count of
    /// the lights are those of the lights last collected.
    pub open spec fn well_formed(&self) -> bool {
        &&& self.base_url@ == base_url_of(self.ip@)
        &&& self.n_lights as int == self.light_ids.len() % 256
        &&& forall|i: int, j: int|
            0 <= i < j < self.light_ids.len() ==> self.light_ids[i] < self.light_ids[j]
        &&& match self.lights {
            Some(lights) => self.light_ids@ == ascending_ids(lights@.dom()),
            None => true,
        }
    }

    /// A bridge at `ip` that has not issued a credential yet.
    pub fn at(ip: String) -> (r: Bridge)
        ensures
            r.well_formed(),
            r.ip@ == ip@,
            r.key is None,
            r.light_ids.len() == 0,
            r.lights is None,
    {
        let mut base_url = "http://".to_owned();
        base_url.append(ip.as_str());
        base_url.append("/");
        Bridge { ip, key: None, base_url, light_ids: Vec::new(), n_lights: 0, lights: None }
    }

    /// A bridge at `ip` that has issued `key`. No light is known yet.
    pub fn link(ip: String, key: String) -> (r: Bridge)
        ensures
            r.well_formed(),
            r.ip@ == ip@,
            r.credential() == Some(key@),
            r.light_ids.len() == 0,
            r.lights is None,
    {
        let mut bridge = Bridge::at(ip);
        bridge.key = Some(key);
        bridge
    }

    /// Takes over a credential that the bridge issued, unless one is held
    /// already.
    pub fn adopt(&mut self, credential: String)
        ensures
            final(self).credential() == match old(self).credential() {
                Some(k) => Some(k),
                None => Some(credential@),
            },
            final(self).ip == old(self).ip,
            final(self).base_url == old(self).base_url,
            final(self).light_ids == old(self).light_ids,
            final(self).n_lights == old(self).n_lights,
            final(self).lights == old(self).lights,
    {
        if self.key.is_none() {
            self.key = Some(credential);
        }
    }

    /// Plans a request to one resource below the credential. Without a
    /// credential nothing is planned.
    pub fn send(&self, endpoint: &str, req_type: RequestType, params: Option<Json>) -> (r: Result<
        HttpCall,
        ErrorKind,
    >)
        ensures
            match self.credential() {
                Some(key) => r is Ok && r->Ok_0@ == planned(
                    self.base_url@,
                    RequestView {
                        request_type: req_type,
                        uri: endpoint_path(key, endpoint@),
                        params: match params {
                            Some(body) => Some(body@),
                            None => None,
                        },
                    },
                ),
                None => r == Err::<HttpCall, ErrorKind>(ErrorKind::NotRegistered),
            },
    {
        match &self.key {
            Some(key) => {
                let mut url = self.base_url.clone();
                url.append("api/");
                url.append(key.as_str());
                url.append("/");
                url.append(endpoint);
                assert(url@ =~= self.base_url@ + endpoint_path(key@, endpoint@));
                let body = match req_type {
                    RequestType::Get => None,
                    _ => params,
                };
                Ok(HttpCall { method: req_type, url, body })
            },
            None => Err(ErrorKind::NotRegistered),
        }
    }

    /// Plans the request for the raw list of lights.
    pub fn debug(&self) -> (r: Result<HttpCall, ErrorKind>)
        ensures
            match self.credential() {
                Some(key) => r is Ok && r->Ok_0@ == (HttpCallView {
                    method: RequestType::Get,
                    url: self.base_url@ + endpoint_path(key, "lights"@),
                    body: None,
                }),
                None => r == Err::<HttpCall, ErrorKind>(ErrorKind::NotRegistered),
            },
    {
        self.send("lights", RequestType::Get, None)
    }

    /// Plans the request that sends `state` to the light numbered `light`.
    pub fn state(&self, light: u8, state: &SendableState) -> (r: Result<HttpCall, ErrorKind>)
        ensures
            match self.credential() {
                Some(key) => r is Ok && r->Ok_0@ == state_call(
                    self.base_url@,
                    key,
                    light,
                    state@.body(),
                ),
                None => r == Err::<HttpCall, ErrorKind>(ErrorKind::NotRegistered),
            },
    {
        let mut endpoint = "lights/".to_owned();
        push_decimal(&mut endpoint, light as u64);
        endpoint.append("/state");
        self.send(endpoint.as_str(), RequestType::Put, Some(state.to_json()))
    }

    /// Plans sending `state` to every light last collected, in the order of
    /// `light_ids`: one call for each, to be made one after the other until
    /// one fails.
    pub fn state_all(&self, state: &SendableState) -> (r: Result<Batch, ErrorKind>)
        ensures
            match self.credential() {
                Some(key) => {
                    &&& r is Ok
                    &&& r->Ok_0@.lights == self.light_ids@
                    &&& r->Ok_0@.calls == Seq::new(
                        self.light_ids.len() as nat,
                        |i: int| state_call(self.base_url@, key, self.light_ids[i], state@.body()),
                    )
                    &&& r->Ok_0@.cursor == 0
                    &&& r->Ok_0@.failure is None
                },
                None => r == Err::<Batch, ErrorKind>(ErrorKind::NotRegistered),
            },
    {
        if self.key.is_none() {
            return Err(ErrorKind::NotRegistered);
        }
        let ghost key = self.credential()->Some_0;
        let mut lights: Vec<u8> = Vec::new();
        let mut calls: Vec<HttpCall> = Vec::new();
        let mut i: usize = 0;
        while i < self.light_ids.len()
            invariant
                i <= self.light_ids.len(),
                self.credential() == Some(key),
                lights@ == self.light_ids@.take(i as int),
                calls.len() == i,
                forall|k: int|
                    0 <= k < i ==> (#[trigger] calls[k])@ == state_call(
                        self.base_url@,
                        key,
                        self.light_ids[k],
                        state@.body(),
                    ),
            decreases self.light_ids.len() - i,
        {
            let light = self.light_ids[i];
            match self.state(light, state) {
                Ok(call) => {
                    calls.push(call);
                },
                Err(e) => {
                    return Err(e);
                },
            }
            lights.push(light);
            assert(lights@ =~= self.light_ids@.take(i + 1));
            i += 1;
        }
        assert(lights@ =~= self.light_ids@);
        let batch = Batch::new(lights, calls);
        assert(batch@.calls =~= Seq::new(
            self.light_ids.len() as nat,
            |i: int| state_call(self.base_url@, key, self.light_ids[i], state@.body()),
        ));
        Ok(batch)
    }

    /// Takes in the answer to "list lights" for the numbers of the lights
    /// alone, in ascending order, and how many they are (counted modulo 256).
    /// What the answer says of each light is passed over, and the lights
    /// collected earlier are dropped. An answer whose field names are not
    /// light numbers is a protocol error and leaves the bridge as it was.
    pub fn collect_ids(&mut self, response: &Response) -> (r: Result<(), ErrorKind>)
        ensures
            final(self).ip == old(self).ip,
            final(self).key == old(self).key,
            final(self).base_url == old(self).base_url,
            match numbers_of(response.body@) {
                Some(numbers) => {
                    &&& r is Ok
                    &&& final(self).lights is None
                    &&& final(self).light_ids@ == ascending_ids(numbers)
                    &&& final(self).n_lights as int == final(self).light_ids.len() % 256
                },
                None => r == Err::<(), ErrorKind>(ErrorKind::ProtocolError) && *final(self) == *old(
                    self,
                ),
            },
            old(self).well_formed() ==> final(self).well_formed(),
    {
        let table = match decode_numbers(&response.body) {
            Ok(table) => table,
            Err(e) => {
                return Err(e);
            },
        };
        let ghost known = numbers_of(response.body@)->Some_0;
        let mut ids: Vec<u8> = Vec::new();
        let mut next: u16 = 0;
        while next < 256
            invariant
                next <= 256,
                table.len() == 256,
                forall|id: u8| #[trigger] table[id as int] == known.contains(id),
                ids@ == ids_below(known, next as int),
            decreases 256 - next,
        {
            let id = next as u8;
            assert(table[id as int] == known.contains(id));
            if table[next as usize] {
                ids.push(id);
            }
            next += 1;
        }
        proof {
            lemma_ids_below(known, 256);
        }
        self.n_lights = if ids.len() < 256 {
            ids.len() as u8
        } else {
            0
        };
        self.light_ids = ids;
        self.lights = None;
        Ok(())
    }

    /// Starts the handshake that pairs with a bridge: against every address
    /// that answered the search, each one once, or, where none answered,
    /// against the address the operator entered. With neither there is
    /// nothing to pair with.
    pub fn register(responders: Vec<String>, entered: Option<String>) -> (r: Result<
        Registration,
        ErrorKind,
    >)
        ensures
            match (responders.len() > 0, entered) {
                (true, _) => r is Ok && r->Ok_0@ == (RegistrationView {
                    targets: distinct_addresses(texts(responders@)),
                    phase: PhaseView::AwaitingConfirmation,
                }),
                (false, Some(address)) => r is Ok && r->Ok_0@ == (RegistrationView {
                    targets: seq![address@],
                    phase: PhaseView::Probing { cursor: 0 },
                }),
                (false, None) => r == Err::<Registration, ErrorKind>(
                    ErrorKind::InvariantViolation,
                ),
            },
    {
        if responders.len() > 0 {
            let candidates = discover(responders);
            proof {
                let all = texts(responders@);
                assert(all.contains(all[0]));
                assert(texts(candidates@).contains(all[0]));
            }
            Registration::multi(candidates)
        } else {
            match entered {
                Some(address) => Ok(Registration::single(address)),
                None => Err(ErrorKind::InvariantViolation),
            }
        }
    }

    /// Takes in the answer to "list lights": the lights it describes, their
    /// numbers in ascending order, and how many they are (counted modulo
    /// 256). An answer that does not describe lights is a protocol error and
    /// leaves the bridge as it was.
    pub fn collect_lights(&mut self, response: &Response) -> (r: Result<(), ErrorKind>)
        ensures
            final(self).ip == old(self).ip,
            final(self).key == old(self).key,
            final(self).base_url == old(self).base_url,
            match lights_of(response.body@) {
                Some(lights) => {
                    &&& r is Ok
                    &&& final(self).lights is Some
                    &&& lights_view(final(self).lights->Some_0@) == lights
                    &&& final(self).light_ids@ == ascending_ids(lights.dom())
                    &&& final(self).n_lights as int == final(self).light_ids.len() % 256
                },
                None => r == Err::<(), ErrorKind>(ErrorKind::ProtocolError) && *final(self) == *old(
                    self,
                ),
            },
            old(self).well_formed() ==> final(self).well_formed(),
    {
        let lights = match decode_lights(&response.body) {
            Ok(lights) => lights,
            Err(e) => {
                return Err(e);
            },
        };
        let ghost known = lights@.dom();
        assert(lights_view(lights@).dom() =~= known);
        let mut ids: Vec<u8> = Vec::new();
        let mut next: u16 = 0;
        while next < 256
            invariant
                next <= 256,
                known == lights@.dom(),
                ids@ == ids_below(known, next as int),
            decreases 256 - next,
        {
            let id = next as u8;
            proof {
                lemma_ids_below(known, next as int);
            }
            if lights.contains_key(&id) {
                ids.push(id);
            }
            next += 1;
        }
        proof {
            lemma_ids_below(known, 256);
        }
        self.n_lights = if ids.len() < 256 {
            ids.len() as u8
        } else {
            0
        };
        self.light_ids = ids;
        self.lights = Some(lights);
        Ok(())
    }

    /// The lights last collected, one row each, in ascending order of their
    /// numbers. Before any were collected there is no row.
    pub fn light_info(&self) -> (r: Vec<LightRow<'_>>)
        ensures
            match self.lights {
                Some(lights) => {
                    &&& r.len() == ascending_ids(lights@.dom()).len()
                    &&& forall|i: int|
                        0 <= i < r.len() ==> (#[trigger] r[i]).id == ascending_ids(lights@.dom())[i]
                            && lights@.contains_key(r[i].id) && *r[i].light == lights@[r[i].id]
                },
                None => r.len() == 0,
            },
    {
        let mut rows: Vec<LightRow<'_>> = Vec::new();
        match &self.lights {
            Some(lights) => {
                let ghost known = lights@.dom();
                let mut next: u16 = 0;
                while next < 256
                    invariant
                        next <= 256,
                        known == lights@.dom(),
                        rows.len() == ids_below(known, next as int).len(),
                        forall|i: int|
                            0 <= i < rows.len() ==> (#[trigger] rows[i]).id == ids_below(
                                known,
                                next as int,
                            )[i] && lights@.contains_key(rows[i].id) && *rows[i].light
                                == lights@[rows[i].id],
                    decreases 256 - next,
                {
                    let id = next as u8;
                    match lights.get(&id) {
                        Some(light) => {
                            rows.push(LightRow { id, light });
                        },
                        None => {},
                    }
                    next += 1;
                }
            },
            None => {},
        }
        rows
    }
}

} // verus!
