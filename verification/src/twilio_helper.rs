//! The TURN vendor as the core sees it: the credential it is called with and
//! the reading of its answer.

use base64::Engine;
use vstd::prelude::*;
use vstd::string::StringExecFns;
use vstd::utf8::encode_utf8;
use crate::signaller_message::{ice_server_views, IceServer, IceServerView};

verus! {

/// The text that the crate `base64` makes of `bytes` with its standard
/// alphabet and padding.
pub uninterp spec fn base64_standard(bytes: Seq<u8>) -> Seq<char>;

/// `Engine::encode` of the crate `base64`, on a `GeneralPurpose` engine with
/// the standard alphabet and padding. Trusted: the result is a function of
/// the input bytes alone, here given the name `base64_standard`. The crate
/// panics when the encoded length does not fit in `usize`, so such inputs
/// are left out.
#[verifier::external_body]
fn encode_base64(bytes: &[u8]) -> (text: String)
    requires
        bytes@.len() / 3 * 4 + 4 <= usize::MAX,
    ensures
        text@ == base64_standard(bytes@),
{
    base64::engine::GeneralPurpose::new(
        &base64::alphabet::STANDARD,
        base64::engine::general_purpose::PAD,
    ).encode(bytes)
}

/// Whether a credential of that many bytes can be encoded on this machine.
pub open spec fn encodable(len: nat) -> bool {
    len / 3 <= (usize::MAX - 4) / 4
}

/// The value of HTTP basic authentication for an account and its token: the
/// base64 text of `account_sid:auth_token`.
pub open spec fn basic_auth_text(account_sid: Seq<char>, auth_token: Seq<char>) -> Seq<char> {
    base64_standard(encode_utf8(account_sid + ":"@ + auth_token))
}

/// The basic-authentication value for the vendor, or `None` where the
/// credential is too long to encode.
pub fn basic_auth(account_sid: &str, auth_token: &str) -> (auth: Option<String>)
    ensures
        auth is Some <==> encodable(encode_utf8(account_sid@ + ":"@ + auth_token@).len()),
        auth matches Some(text) ==> text@ == basic_auth_text(account_sid@, auth_token@),
{
    let mut credential = String::from_str(account_sid);
    credential.append(":");
    credential.append(auth_token);
    let bytes = credential.as_str().as_bytes();
    if bytes.len() / 3 <= (usize::MAX - 4) / 4 {
        Some(encode_base64(bytes))
    } else {
        None
    }
}

/// The vendor's answer to a request for a token, as far as the server
/// reads it.
#[derive(Debug, PartialEq, Eq)]
pub struct TwilioToken {
    pub username: Option<String>,
    pub password: Option<String>,
    /// For each entry of the vendor's list its `url`; `None` stands for an
    /// entry that is no object or has no such text.
    pub ice_servers: Option<Vec<Option<String>>>,
}

/// What a `TwilioToken` stands for in contracts.
pub struct TwilioTokenView {
    pub username: Option<Seq<char>>,
    pub password: Option<Seq<char>>,
    pub ice_servers: Option<Seq<Option<Seq<char>>>>,
}

pub open spec fn text_of(text: Option<String>) -> Option<Seq<char>> {
    match text {
        Some(t) => Some(t@),
        None => None,
    }
}

impl View for TwilioToken {
    type V = TwilioTokenView;

    open spec fn view(&self) -> TwilioTokenView {
        TwilioTokenView {
            username: text_of(self.username),
            password: text_of(self.password),
            ice_servers: match self.ice_servers {
                Some(urls) => Some(urls@.map_values(|u: Option<String>| text_of(u))),
                None => None,
            },
        }
    }
}

impl TwilioTokenView {
    /// The urls of the token's list; none where the token has no list.
    pub open spec fn urls(self) -> Seq<Option<Seq<char>>> {
        match self.ice_servers {
            Some(urls) => urls,
            None => Seq::empty(),
        }
    }

    /// Every entry has its url, and a token with entries has a user name
    /// and a password to go with them.
    pub open spec fn usable(self) -> bool {
        &&& forall|i: int| 0 <= i < self.urls().len() ==> (#[trigger] self.urls()[i]) is Some
        &&& self.urls().len() > 0 ==> self.username is Some && self.password is Some
    }

    /// The ICE servers that the token describes: one for each entry, with
    /// the entry's url and the token's credentials. A token that is not
    /// usable describes none.
    pub open spec fn ice_servers(self) -> Seq<IceServerView> {
        if self.usable() {
            Seq::new(
                self.urls().len(),
                |i: int|
                    IceServerView {
                        url: self.urls()[i]->0,
                        username: self.username->0,
                        password: self.password->0,
                    },
            )
        } else {
            Seq::empty()
        }
    }
}

/// The ICE servers that the vendor's answer amounts to; none where the
/// vendor failed (`None`).
pub open spec fn vendor_ice_servers(response: Option<TwilioTokenView>) -> Seq<IceServerView> {
    match response {
        Some(token) => token.ice_servers(),
        None => Seq::empty(),
    }
}

/// Reads the vendor's answer into ICE servers. `None` stands for a call that
/// failed; it yields the empty list, as does an answer that is not usable.
pub fn get_twilio_ice_servers(response: Option<&TwilioToken>) -> (servers: Vec<IceServer>)
    ensures
        ice_server_views(servers@) == vendor_ice_servers(
            match response {
                Some(token) => Some(token@),
                None => None,
            },
        ),
{
    let mut servers: Vec<IceServer> = Vec::new();
    assert(ice_server_views(servers@) =~= Seq::<IceServerView>::empty());
    let token = match response {
        Some(token) => token,
        None => {
            return servers;
        },
    };
    let urls = match &token.ice_servers {
        Some(urls) => urls,
        None => {
            return servers;
        },
    };
    if urls.len() == 0 {
        assert(token@.ice_servers() =~= Seq::<IceServerView>::empty());
        return servers;
    }
    let (username, password) = match (&token.username, &token.password) {
        (Some(username), Some(password)) => (username, password),
        _ => {
            return servers;
        },
    };
    let mut i: usize = 0;
    while i < urls.len()
        invariant
            i <= urls.len(),
            response == Some(token),
            token@.urls() == urls@.map_values(|u: Option<String>| text_of(u)),
            token.username == Some(*username),
            token.password == Some(*password),
            forall|j: int| 0 <= j < i ==> (#[trigger] token@.urls()[j]) is Some,
            ice_server_views(servers@).len() == i,
            forall|j: int|
                0 <= j < i ==> #[trigger] ice_server_views(servers@)[j] == (IceServerView {
                    url: token@.urls()[j]->0,
                    username: username@,
                    password: password@,
                }),
        decreases urls.len() - i,
    {
        match &urls[i] {
            Some(url) => {
                let ghost listed = ice_server_views(servers@);
                servers.push(
                    IceServer {
                        url: url.clone(),
                        username: username.clone(),
                        password: password.clone(),
                    },
                );
                assert(token@.urls()[i as int] == Some(url@));
                assert(ice_server_views(servers@) =~= listed.push(servers@.last()@));
            },
            None => {
                assert(token@.urls()[i as int] is None);
                let none: Vec<IceServer> = Vec::new();
                assert(ice_server_views(none@) =~= Seq::<IceServerView>::empty());
                return none;
            },
        }
        i += 1;
    }
    assert(token@.usable());
    assert(ice_server_views(servers@) =~= token@.ice_servers());
    servers
}

} // verus!
