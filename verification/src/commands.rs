//! Commands: each one describes an API action; sending is shared.

use crate::bridge::Bridge;
use crate::error::ErrorKind;
use crate::json::{fields_view, Json, JsonView};
use crate::lightstructs::SendableState;
use crate::network::{Request, RequestType, RequestView, Response};
use crate::text::{decimal, push_decimal, texts};
use vstd::prelude::*;
use vstd::string::StringExecFns;

verus! {

/// One HTTP call, ready to be made: the method, the full URL, and the JSON
/// body, if the method carries one.
#[derive(Debug, PartialEq, Eq)]
pub struct HttpCall {
    pub method: RequestType,
    pub url: String,
    pub body: Option<Json>,
}

/// The mathematical value of an [`HttpCall`].
pub struct HttpCallView {
    pub method: RequestType,
    pub url: Seq<char>,
    pub body: Option<JsonView>,
}

impl View for HttpCall {
    type V = HttpCallView;

    open spec fn view(&self) -> HttpCallView {
        HttpCallView {
            method: self.method,
            url: self.url@,
            body: match self.body {
                Some(body) => Some(body@),
                None => None,
            },
        }
    }
}

/// The call that carries `request` to the bridge at `base_url`: the URL is
/// the base URL followed by the path, and a `GET` has no body.
pub open spec fn planned(base_url: Seq<char>, request: RequestView) -> HttpCallView {
    HttpCallView {
        method: request.request_type,
        url: base_url + request.uri,
        body: if request.request_type == RequestType::Get {
            None
        } else {
            request.params
        },
    }
}

/// The credential, or the empty text where there is none.
pub open spec fn key_text(key: Option<Seq<char>>) -> Seq<char> {
    match key {
        Some(k) => k,
        None => Seq::empty(),
    }
}

/// The text behind an optional string.
pub open spec fn opt_text(key: Option<&String>) -> Option<Seq<char>> {
    match key {
        Some(k) => Some(k@),
        None => None,
    }
}

/// A description of one API action. A command says what its request is;
/// how a request is sent is the same for all of them.
pub trait Command {
    /// Whether the request can only be built with a credential.
    spec fn needs_key(&self) -> bool;

    /// The request, as a function of the command and the credential alone.
    spec fn request(&self, key: Option<Seq<char>>) -> RequestView;

    /// Whether the request can only be built with a credential.
    fn uses_key(&self) -> (r: bool)
        ensures
            r == self.needs_key(),
    ;

    /// Builds the request. The same command with the same credential always
    /// gives the same request.
    fn generate_request(&self, key: Option<&String>) -> (r: Request)
        requires
            self.needs_key() ==> key is Some,
        ensures
            r@ == self.request(opt_text(key)),
    ;

    /// Plans the HTTP call that carries this command to `bridge`. A command
    /// that needs a credential is refused while the bridge has none.
    fn send(&self, bridge: &Bridge) -> (r: Result<HttpCall, ErrorKind>)
        ensures
            self.needs_key() && bridge.key is None ==> r == Err::<HttpCall, ErrorKind>(
                ErrorKind::NotRegistered,
            ),
            !(self.needs_key() && bridge.key is None) ==> r is Ok && r->Ok_0@ == planned(
                bridge.base_url@,
                self.request(bridge.credential()),
            ),
    {
        if self.uses_key() && bridge.key.is_none() {
            return Err(ErrorKind::NotRegistered);
        }
        let request = self.generate_request(bridge.key.as_ref());
        let mut url = bridge.base_url.clone();
        url.append(request.uri.as_str());
        let body = match request.request_type {
            RequestType::Get => None,
            _ => request.params,
        };
        Ok(HttpCall { method: request.request_type, url, body })
    }
}

/// A command whose answer holds a value of type `T`.
pub trait Retriever<T>: Command {
    /// Takes the value out of the response to this command.
    fn retrieve(&self, response: &Response) -> Result<T, ErrorKind>;
}

/// Asks the bridge for its public description. Needs no credential.
#[derive(Clone, Debug, PartialEq, Eq)]
pub struct Info;

impl Command for Info {
    open spec fn needs_key(&self) -> bool {
        false
    }

    open spec fn request(&self, key: Option<Seq<char>>) -> RequestView {
        RequestView { request_type: RequestType::Get, uri: "api/newdeveloper"@, params: None }
    }

    fn uses_key(&self) -> (r: bool) {
        false
    }

    fn generate_request(&self, key: Option<&String>) -> (r: Request) {
        Request {
            request_type: RequestType::Get,
            uri: "api/newdeveloper".to_owned(),
            params: None,
        }
    }
}

/// Asks the bridge for its lights.
#[derive(Clone, Debug, PartialEq, Eq)]
pub struct LightNames;

impl Command for LightNames {
    open spec fn needs_key(&self) -> bool {
        true
    }

    open spec fn request(&self, key: Option<Seq<char>>) -> RequestView {
        RequestView {
            request_type: RequestType::Get,
            uri: "api/"@ + key_text(key) + "/lights"@,
            params: None,
        }
    }

    fn uses_key(&self) -> (r: bool) {
        true
    }

    fn generate_request(&self, key: Option<&String>) -> (r: Request) {
        let mut uri = "api/".to_owned();
        match key {
            Some(k) => uri.append(k.as_str()),
            None => {},
        }
        uri.append("/lights");
        Request { request_type: RequestType::Get, uri, params: None }
    }
}

/// The names under which the bridge lists its lights: the keys of the
/// object it answers with.
pub open spec fn light_names(body: JsonView) -> Option<Seq<Seq<char>>> {
    body.keys()
}

impl Retriever<Vec<String>> for LightNames {
    /// The keys of the answer, in the order the answer has them. An answer
    /// that is not an object is a protocol error.
    fn retrieve(&self, response: &Response) -> (r: Result<Vec<String>, ErrorKind>)
        ensures
            match light_names(response.body@) {
                Some(names) => r is Ok && texts(r->Ok_0@) == names,
                None => r == Err::<Vec<String>, ErrorKind>(ErrorKind::ProtocolError),
            },
    {
        match &response.body {
            Json::Object(fields) => {
                proof {
                    crate::json::lemma_object_view(*fields);
                }
                let mut names: Vec<String> = Vec::new();
                let mut i: usize = 0;
                while i < fields.len()
                    invariant
                        i <= fields.len(),
                        names.len() == i,
                        forall|k: int| 0 <= k < i ==> names[k]@ == fields[k].0@,
                    decreases fields.len() - i,
                {
                    names.push(fields[i].0.clone());
                    i += 1;
                }
                assert(texts(names@) =~= light_names(
                    response.body@,
                )->Some_0);
                Ok(names)
            },
            _ => Err(ErrorKind::ProtocolError),
        }
    }
}

/// The request that asks for a credential for the application `appname`, run
/// by `username`.
pub open spec fn register_request(appname: Seq<char>, username: Seq<char>) -> RequestView {
    RequestView {
        request_type: RequestType::Post,
        uri: "api"@,
        params: Some(
            JsonView::Object(seq![("devicetype"@, JsonView::Text(appname + "#"@ + username))]),
        ),
    }
}

/// Asks the bridge to issue a credential for an application.
#[derive(Clone, Debug, PartialEq, Eq)]
pub struct Register {
    pub username: String,
    pub appname: String,
}

impl Command for Register {
    open spec fn needs_key(&self) -> bool {
        false
    }

    open spec fn request(&self, key: Option<Seq<char>>) -> RequestView {
        register_request(self.appname@, self.username@)
    }

    fn uses_key(&self) -> (r: bool) {
        false
    }

    fn generate_request(&self, key: Option<&String>) -> (r: Request) {
        let mut device = self.appname.clone();
        device.append("#");
        device.append(self.username.as_str());
        let mut fields: Vec<(String, Json)> = Vec::new();
        fields.push(("devicetype".to_owned(), Json::Text(device)));
        assert(fields_view(fields@) =~= seq![
            ("devicetype"@, JsonView::Text(self.appname@ + "#"@ + self.username@)),
        ]);
        Request {
            request_type: RequestType::Post,
            uri: "api".to_owned(),
            params: Some(Json::object(fields)),
        }
    }
}

/// Sends a change of state to one light.
#[derive(Clone, Debug, PartialEq, Eq)]
pub struct SetLightState {
    pub light: u8,
    pub state: SendableState,
}

impl Command for SetLightState {
    open spec fn needs_key(&self) -> bool {
        true
    }

    open spec fn request(&self, key: Option<Seq<char>>) -> RequestView {
        RequestView {
            request_type: RequestType::Put,
            uri: "api/"@ + key_text(key) + "/lights/"@ + decimal(self.light as nat) + "/state"@,
            params: Some(self.state@.body()),
        }
    }

    fn uses_key(&self) -> (r: bool) {
        true
    }

    fn generate_request(&self, key: Option<&String>) -> (r: Request) {
        let mut uri = "api/".to_owned();
        match key {
            Some(k) => uri.append(k.as_str()),
            None => {},
        }
        uri.append("/lights/");
        push_decimal(&mut uri, self.light as u64);
        uri.append("/state");
        Request { request_type: RequestType::Put, uri, params: Some(self.state.to_json()) }
    }
}

/// Building a request is pure: whenever a command is asked twice for its
/// request, with the same credential, the two requests have the same method,
/// the same path and the same body.
pub proof fn law_build_is_pure<C: Command>(
    command: &C,
    key: Option<&String>,
    first: Request,
    second: Request,
)
    requires
        command.needs_key() ==> key is Some,
        call_ensures(C::generate_request, (command, key), first),
        call_ensures(C::generate_request, (command, key), second),
    ensures
        first@.request_type == second@.request_type,
        first@.uri == second@.uri,
        first@.params == second@.params,
{
}

/// Sending a change through [`Bridge::state`] plans the very call that the
/// command [`SetLightState`] stands for.
pub proof fn law_state_is_set_light_state(bridge: Bridge, command: SetLightState)
    requires
        bridge.credential() is Some,
    ensures
        planned(bridge.base_url@, command.request(bridge.credential())) == crate::bridge::state_call(
            bridge.base_url@,
            bridge.credential()->Some_0,
            command.light,
            command.state@.body(),
        ),
{
    reveal_strlit("/");
    reveal_strlit("lights/");
    reveal_strlit("/lights/");
    let key = bridge.credential()->Some_0;
    let number = decimal(command.light as nat);
    assert("/lights/"@ =~= "/"@ + "lights/"@);
    assert("api/"@ + key + "/lights/"@ + number + "/state"@ =~= crate::bridge::endpoint_path(
        key,
        "lights/"@ + number + "/state"@,
    ));
}

} // verus!
