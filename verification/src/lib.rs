//! A typed client for the Asana REST API.
//!
//! The API returns sparse, partially populated JSON objects whose shape
//! depends on a caller-supplied field selection string. A caller declares,
//! once, the shape of an entity it cares about as a [`models::Descriptor`];
//! the library turns that declaration into the query parameters of every
//! request and decodes the response envelope into a generic
//! [`entity::Entity`]. The HTTP transport itself stays outside: the
//! library builds the full request URL and the authorization header value,
//! and decodes the response body the transport hands back.

use vstd::prelude::*;

pub mod entity;
pub mod json;
pub mod models;
pub mod text;

use crate::models::{opt_fields_of, Descriptor};

verus! {

/// Entry point of the library.
pub struct Asana;

impl Asana {
    /// Builds a session value with the given bearer token and no pending
    /// relational scope.
    pub fn connect(token: String) -> (c: Client)
        ensures
            c.token == token,
            c.endpoint@ == Seq::<char>::empty(),
    {
        Client { token, endpoint: String::new() }
    }
}

/// A single API session: the bearer token, set once, and the transient
/// relational path prefix consumed by the next request.
pub struct Client {
    pub token: String,
    pub endpoint: String,
}

/// The fixed API root every request URL starts with, version segment
/// included.
pub open spec fn api_root() -> Seq<char> {
    "https://app.asana.com/api/1.0/"@
}

/// The identifier segment of a request: the entity id for a single
/// fetch, nothing for a collection listing.
pub open spec fn gid_part(gid: Option<&str>) -> Seq<char> {
    match gid {
        Some(g) => g@,
        None => Seq::empty(),
    }
}

/// The full request URL: root, pending scope, endpoint path, id, and the
/// field-selection query parameter.
pub open spec fn url_of(scope: Seq<char>, d: Descriptor, gid: Option<&str>) -> Seq<char> {
    api_root() + scope + d.endpoint@ + "/"@ + gid_part(gid) + "?opt_fields="@ + opt_fields_of(d)
}

impl Client {
    /// Scopes the next request under a parent entity: the pending prefix
    /// becomes `{parent endpoint}/{id}/`. Returns the session itself so
    /// the next call can be chained.
    pub fn from(&mut self, parent: &Descriptor, relational_gid: &str) -> (r: &mut Client)
        ensures
            r.token == old(self).token,
            r.endpoint@ == parent.endpoint@ + "/"@ + relational_gid@ + "/"@,
            *final(self) == *final(r),
    {
        let mut s = parent.endpoint.clone();
        s.append("/");
        s.append(relational_gid);
        s.append("/");
        self.endpoint = s;
        proof {
            assert(self.endpoint@ =~= parent.endpoint@ + "/"@ + relational_gid@ + "/"@);
        }
        self
    }

    /// Builds the full URL of the next request and consumes the pending
    /// scope: the scope is cleared whether or not one was set, so it
    /// steers exactly one request.
    pub fn request_url(&mut self, d: &Descriptor, gid: Option<&str>) -> (u: String)
        ensures
            u@ == url_of(old(self).endpoint@, *d, gid),
            final(self).endpoint@ == Seq::<char>::empty(),
            final(self).token == old(self).token,
    {
        let mut u = String::from_str("https://app.asana.com/api/1.0/");
        u.append(self.endpoint.as_str());
        u.append(d.endpoint.as_str());
        u.append("/");
        match gid {
            Some(g) => u.append(g),
            None => (),
        }
        u.append("?opt_fields=");
        let opts = d.opt_fields_value();
        u.append(opts.as_str());
        self.endpoint = String::new();
        proof {
            assert(u@ =~= url_of(old(self).endpoint@, *d, gid));
        }
        u
    }

    /// The value of the authorization header every request carries.
    pub fn auth_header(&self) -> (h: String)
        ensures
            h@ == "Bearer "@ + self.token@,
    {
        let mut h = String::from_str("Bearer ");
        h.append(self.token.as_str());
        h
    }
}

} // verus!
