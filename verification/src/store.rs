//! The credentials of a linked bridge, as they are kept between runs: two
//! named fields, the address and the credential.

use crate::bridge::{base_url_of, Bridge};
use crate::error::ErrorKind;
use vstd::prelude::*;
use vstd::string::StringExecFns;

verus! {

/// A bridge that has issued a credential: its address, the credential, and
/// the base URL that follows from the address.
#[derive(Clone, Debug, PartialEq, Eq)]
pub struct LinkedBridge {
    pub address: String,
    pub credential: String,
    pub base_url: String,
}

/// The mathematical value of a [`LinkedBridge`].
pub struct LinkedBridgeView {
    pub address: Seq<char>,
    pub credential: Seq<char>,
    pub base_url: Seq<char>,
}

impl View for LinkedBridge {
    type V = LinkedBridgeView;

    open spec fn view(&self) -> LinkedBridgeView {
        LinkedBridgeView {
            address: self.address@,
            credential: self.credential@,
            base_url: self.base_url@,
        }
    }
}

/// The linked bridge at `address` with `credential`.
pub open spec fn linked(address: Seq<char>, credential: Seq<char>) -> LinkedBridgeView {
    LinkedBridgeView { address, credential, base_url: base_url_of(address) }
}

/// The text that keeps `address` and `credential`: one line for each, the
/// value in double quotes.
pub open spec fn store_text(address: Seq<char>, credential: Seq<char>) -> Seq<char> {
    "HUE_IP=\""@ + address + "\"\nHUE_KEY=\""@ + credential + "\""@
}

/// What was found where the credentials are kept.
#[derive(Clone, Debug, PartialEq, Eq)]
pub enum StoreContent {
    /// Nothing is kept there.
    Missing,
    /// Something is kept there that cannot be read as named fields.
    Malformed,
    /// The two fields, as far as they are there.
    Fields { address: Option<String>, credential: Option<String> },
}

/// The mathematical value of a [`StoreContent`].
pub enum StoreContentView {
    Missing,
    Malformed,
    Fields { address: Option<Seq<char>>, credential: Option<Seq<char>> },
}

impl View for StoreContent {
    type V = StoreContentView;

    open spec fn view(&self) -> StoreContentView {
        match self {
            StoreContent::Missing => StoreContentView::Missing,
            StoreContent::Malformed => StoreContentView::Malformed,
            StoreContent::Fields { address, credential } => StoreContentView::Fields {
                address: match address {
                    Some(a) => Some(a@),
                    None => None,
                },
                credential: match credential {
                    Some(c) => Some(c@),
                    None => None,
                },
            },
        }
    }
}

/// What loading makes of the content of the store: both fields must be
/// there. A store that is missing, or lacks a field, counts as not found; one
/// that cannot be read is a store failure.
pub open spec fn loaded(content: StoreContentView) -> Result<LinkedBridgeView, ErrorKind> {
    match content {
        StoreContentView::Fields { address: Some(a), credential: Some(c) } => Ok(linked(a, c)),
        StoreContentView::Malformed => Err(ErrorKind::StoreFailure),
        _ => Err(ErrorKind::NotFound),
    }
}

/// What saving keeps of a bridge: its address and its credential.
pub open spec fn kept(bridge: LinkedBridgeView) -> StoreContentView {
    StoreContentView::Fields {
        address: Some(bridge.address),
        credential: Some(bridge.credential),
    }
}

/// What became of the attempt to remove the kept credentials.
#[derive(Clone, Copy, Debug, PartialEq, Eq, Structural)]
pub enum Removal {
    /// They were there and are gone.
    Removed,
    /// There was nothing to remove.
    Missing,
    /// They are there and could not be removed.
    Refused,
}

impl LinkedBridge {
    /// The linked bridge at `address` with `credential`.
    pub fn new(address: String, credential: String) -> (r: LinkedBridge)
        ensures
            r@ == linked(address@, credential@),
    {
        let mut base_url = "http://".to_owned();
        base_url.append(address.as_str());
        base_url.append("/");
        LinkedBridge { address, credential, base_url }
    }

    /// Makes a linked bridge of what was found in the store.
    pub fn load(content: StoreContent) -> (r: Result<LinkedBridge, ErrorKind>)
        ensures
            match loaded(content@) {
                Ok(bridge) => r is Ok && r->Ok_0@ == bridge,
                Err(e) => r == Err::<LinkedBridge, ErrorKind>(e),
            },
    {
        match content {
            StoreContent::Fields { address: Some(a), credential: Some(c) } => Ok(
                LinkedBridge::new(a, c),
            ),
            StoreContent::Malformed => Err(ErrorKind::StoreFailure),
            _ => Err(ErrorKind::NotFound),
        }
    }

    /// The fields to keep for this bridge, as [`LinkedBridge::load`] takes
    /// them.
    pub fn save(&self) -> (r: StoreContent)
        ensures
            r@ == kept(self@),
    {
        StoreContent::Fields {
            address: Some(self.address.clone()),
            credential: Some(self.credential.clone()),
        }
    }

    /// The text to write for this bridge.
    pub fn render(&self) -> (r: String)
        ensures
            r@ == store_text(self.address@, self.credential@),
    {
        let mut out = "HUE_IP=\"".to_owned();
        out.append(self.address.as_str());
        out.append("\"\nHUE_KEY=\"");
        out.append(self.credential.as_str());
        out.append("\"");
        out
    }

    /// The session with this bridge. No light is known yet.
    pub fn into_bridge(self) -> (r: Bridge)
        ensures
            r.well_formed(),
            r.ip@ == self.address@,
            r.credential() == Some(self.credential@),
            r.light_ids.len() == 0,
            r.lights is None,
    {
        Bridge::link(self.address, self.credential)
    }
}

/// Says how removing the kept credentials ended. That there was nothing to
/// remove is reported as not found, apart from a removal that failed.
pub fn cleanup(removal: Removal) -> (r: Result<(), ErrorKind>)
    ensures
        r == match removal {
            Removal::Removed => Ok::<(), ErrorKind>(()),
            Removal::Missing => Err::<(), ErrorKind>(ErrorKind::NotFound),
            Removal::Refused => Err::<(), ErrorKind>(ErrorKind::StoreFailure),
        },
{
    match removal {
        Removal::Removed => Ok(()),
        Removal::Missing => Err(ErrorKind::NotFound),
        Removal::Refused => Err(ErrorKind::StoreFailure),
    }
}

/// Loading what was saved for a bridge succeeds, and gives a bridge with
/// the same address and the same credential.
pub proof fn law_load_restores_saved(bridge: LinkedBridgeView)
    ensures
        loaded(kept(bridge)) is Ok,
        loaded(kept(bridge))->Ok_0.address == bridge.address,
        loaded(kept(bridge))->Ok_0.credential == bridge.credential,
{
}

} // verus!
