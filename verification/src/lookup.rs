//! The three lookups that the cache serves: for each, the key under which
//! its result is cached and the request that produces it.

use crate::digest::{derive_key, secret_key};
use crate::populate::Step;
use crate::store::{touched, Cache};
use vstd::prelude::*;
use vstd::string::*;

verus! {

/// The token validation endpoint.
pub const VALIDATE_URL: &'static str = "https://id.twitch.tv/oauth2/validate";

/// The user lookup endpoint, up to the login name.
pub const USERS_URL: &'static str = "https://api.twitch.tv/helix/users?login=";

/// The global emote catalog.
pub const GLOBAL_EMOTES_URL: &'static str = "https://api.twitch.tv/helix/chat/emotes/global";

/// The size in which emote images are fetched.
pub const EMOTE_SIZE: &'static str = "url_1x";

/// How a result is cached.
pub struct CacheValueDescriptor {
    pub use_disk_cache: bool,
    pub key: String,
}

/// A request to a remote endpoint: the address, the bearer token, and the
/// client identifier to send in the `Client-Id` header, if any.
pub struct Request {
    pub url: String,
    pub bearer: String,
    pub client_id: Option<String>,
}

/// A lookup: how its result is cached, and the request that produces it.
pub struct Lookup {
    pub descriptor: CacheValueDescriptor,
    pub request: Request,
}

/// An optional text taken by its view.
pub open spec fn text_view(text: Option<String>) -> Option<Seq<char>> {
    match text {
        Some(t) => Some(t@),
        None => None,
    }
}

impl Lookup {
    /// The lookup has these parts.
    pub open spec fn is(
        &self,
        key: Seq<char>,
        url: Seq<char>,
        bearer: Seq<char>,
        client_id: Option<Seq<char>>,
    ) -> bool {
        &&& self.descriptor.use_disk_cache
        &&& self.descriptor.key@ == key
        &&& self.request.url@ == url
        &&& self.request.bearer@ == bearer
        &&& text_view(self.request.client_id) == client_id
    }

    /// The client identifier that a token belongs to. The result depends on
    /// the token, so the key holds the token's digest in its place.
    pub fn client_id(token: &str) -> (lookup: Lookup)
        ensures
            lookup.is(secret_key(VALIDATE_URL@, token@), VALIDATE_URL@, token@, None),
    {
        Lookup {
            descriptor: CacheValueDescriptor {
                use_disk_cache: true,
                key: derive_key(VALIDATE_URL, token),
            },
            request: Request {
                url: String::from_str(VALIDATE_URL),
                bearer: String::from_str(token),
                client_id: None,
            },
        }
    }

    /// The identifier of the user with a login name. The key is the address.
    pub fn user_id(client_id: &str, username: &str, token: &str) -> (lookup: Lookup)
        ensures
            lookup.is(
                USERS_URL@ + username@,
                USERS_URL@ + username@,
                token@,
                Some(client_id@),
            ),
    {
        let url = String::from_str(USERS_URL).concat(username);
        Lookup {
            descriptor: CacheValueDescriptor { use_disk_cache: true, key: url.clone() },
            request: Request {
                url,
                bearer: String::from_str(token),
                client_id: Some(String::from_str(client_id)),
            },
        }
    }

    /// The global emote set. The key is the address.
    pub fn global_emotes(client_id: &str, token: &str) -> (lookup: Lookup)
        ensures
            lookup.is(GLOBAL_EMOTES_URL@, GLOBAL_EMOTES_URL@, token@, Some(client_id@)),
    {
        Lookup {
            descriptor: CacheValueDescriptor {
                use_disk_cache: true,
                key: String::from_str(GLOBAL_EMOTES_URL),
            },
            request: Request {
                url: String::from_str(GLOBAL_EMOTES_URL),
                bearer: String::from_str(token),
                client_id: Some(String::from_str(client_id)),
            },
        }
    }
}

impl Cache {
    /// Starts the lookup of the client identifier that a token belongs to:
    /// returns the lookup and the first step of the protocol.
    pub fn get_client_id(&mut self, token: &str) -> (started: (Lookup, Step<'_>))
        ensures
            started.0.is(secret_key(VALIDATE_URL@, token@), VALIDATE_URL@, token@, None),
            started.1.follows(old(self).entries(), true, started.0.descriptor.key@),
            final(self).entries() == touched(old(self).entries(), started.0.descriptor.key@),
            final(self).limit() == old(self).limit(),
            final(self).dir() == old(self).dir(),
    {
        let lookup = Lookup::client_id(token);
        let step = self.read_cache(true, lookup.descriptor.key.as_str());
        (lookup, step)
    }

    /// Starts the lookup of the identifier of the user with a login name.
    pub fn get_user_id(&mut self, client_id: &str, username: &str, token: &str) -> (started: (
        Lookup,
        Step<'_>,
    ))
        ensures
            started.0.is(
                USERS_URL@ + username@,
                USERS_URL@ + username@,
                token@,
                Some(client_id@),
            ),
            started.1.follows(old(self).entries(), true, started.0.descriptor.key@),
            final(self).entries() == touched(old(self).entries(), started.0.descriptor.key@),
            final(self).limit() == old(self).limit(),
            final(self).dir() == old(self).dir(),
    {
        let lookup = Lookup::user_id(client_id, username, token);
        let step = self.read_cache(true, lookup.descriptor.key.as_str());
        (lookup, step)
    }

    /// Starts the lookup of the global emote set.
    pub fn get_global_emotes(&mut self, client_id: &str, token: &str) -> (started: (
        Lookup,
        Step<'_>,
    ))
        ensures
            started.0.is(GLOBAL_EMOTES_URL@, GLOBAL_EMOTES_URL@, token@, Some(client_id@)),
            started.1.follows(old(self).entries(), true, started.0.descriptor.key@),
            final(self).entries() == touched(old(self).entries(), started.0.descriptor.key@),
            final(self).limit() == old(self).limit(),
            final(self).dir() == old(self).dir(),
    {
        let lookup = Lookup::global_emotes(client_id, token);
        let step = self.read_cache(true, lookup.descriptor.key.as_str());
        (lookup, step)
    }
}

} // verus!
