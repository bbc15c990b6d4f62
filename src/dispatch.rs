//! Decisions of the reverse proxy for one request: which location handles
//! it, whether the backend session cached for that location is reused or a
//! new one is opened, what is answered when neither can be done, and the
//! `server` header that every response carries.
//!
//! The caller performs the sends, receives and connects that these decisions
//! ask for, and reports back what came of them.
use vstd::prelude::*;

use crate::cache::{RouteKeyView, SessionCache};
use crate::config::{HttpConfig, RouteKey, Route, same_chars};
use crate::keyed::{lookup, without, lemma_store_then_lookup, lemma_without_twice};

verus! {

/// A response made here rather than by a backend; its status is 503.
#[derive(Debug, Clone, Copy, PartialEq, Eq, Structural)]
pub enum Reply {
    /// No virtual host takes the request.
    UnknownLocation,
    /// The virtual host has no location for the request.
    UnknownLocationToDeal,
    /// The cached backend session ended without answering.
    LostConnection,
}

impl Reply {
    pub open spec fn body_spec(self) -> Seq<char> {
        match self {
            Reply::UnknownLocation => "unknown location"@,
            Reply::UnknownLocationToDeal => "unknown location to deal"@,
            Reply::LostConnection => "already lose connection"@,
        }
    }

    pub fn status(&self) -> (r: u16)
        ensures
            r == 503,
    {
        503
    }

    pub fn body(&self) -> (r: String)
        ensures
            r@ == self.body_spec(),
    {
        match self {
            Reply::UnknownLocation => String::from_str("unknown location"),
            Reply::UnknownLocationToDeal => String::from_str("unknown location to deal"),
            Reply::LostConnection => String::from_str("already lose connection"),
        }
    }
}

/// What to do with a request once its location is known.
#[derive(Debug, Clone, Copy, PartialEq, Eq, Structural)]
pub enum Plan {
    /// Send it on the cached session and wait for the answer there.
    Reuse,
    /// Open a new session through the location, which answers it.
    Establish,
}

pub open spec fn plan_spec(cached: bool, sender_closed: bool) -> Plan {
    if cached && !sender_closed {
        Plan::Reuse
    } else {
        Plan::Establish
    }
}

/// A cached session is reused only while its sender is open; a missing or
/// closed one leads to a new session.
pub fn plan(cached: bool, sender_closed: bool) -> (r: Plan)
    ensures
        r == plan_spec(cached, sender_closed),
{
    if cached && !sender_closed {
        Plan::Reuse
    } else {
        Plan::Establish
    }
}

/// The first step for a request.
#[derive(Debug)]
pub enum Step<S> {
    /// Answer with this response, made here.
    Answer(Reply),
    /// The request goes to location `location` of virtual host `server`.
    /// `cached` is the session that was stored under `key`, now checked out.
    Forward { key: RouteKey, server: usize, location: usize, cached: Option<S> },
}

/// The state shared by the requests of one listener: the configuration and
/// the open backend sessions.
#[derive(Debug)]
pub struct InnerHttpOper<S> {
    pub http: HttpConfig,
    pub cache_sender: SessionCache<S>,
}

impl<S> InnerHttpOper<S> {
    pub open spec fn wf(&self) -> bool {
        self.cache_sender.wf()
    }

    pub fn new(http: HttpConfig) -> (r: InnerHttpOper<S>)
        ensures
            r.wf(),
            r.http == http,
            r.cache_sender.view() == Seq::<(RouteKeyView, S)>::empty(),
    {
        InnerHttpOper { http, cache_sender: SessionCache::new() }
    }

    /// Picks the location for a request and checks out the session cached
    /// for it, or says what to answer when there is no location.
    pub fn begin(&mut self, host: &str, path: &str, method: &str) -> (r: Step<S>)
        requires
            old(self).wf(),
        ensures
            final(self).wf(),
            final(self).http == old(self).http,
            match r {
                Step::Answer(reply) => final(self).cache_sender.view() == old(
                    self,
                ).cache_sender.view() && match reply {
                    Reply::UnknownLocation => old(self).http.server@.len() == 0,
                    Reply::UnknownLocationToDeal => exists|i: int|
                        old(self).http.picks_server(i, host@) && forall|j: int|
                            0 <= j < old(self).http.server@[i].location@.len()
                                ==> !#[trigger] old(self).http.server@[i].location@[j].matches(
                                path@,
                                method@,
                            ),
                    Reply::LostConnection => false,
                },
                Step::Forward { key, server, location, cached } => {
                    &&& old(self).http.picks_server(server as int, host@)
                    &&& old(self).http.picks_location(
                        server as int,
                        location as int,
                        path@,
                        method@,
                    )
                    &&& key@ == old(self).http.server@[server as int].location@[location as int].key_view()
                    &&& cached == lookup(old(self).cache_sender.view(), key@)
                    &&& final(self).cache_sender.view() == without(
                        old(self).cache_sender.view(),
                        key@,
                    )
                },
            },
    {
        match self.http.resolve(host, path, method) {
            Route::UnknownHost => Step::Answer(Reply::UnknownLocation),
            Route::UnknownLocation { .. } => Step::Answer(Reply::UnknownLocationToDeal),
            Route::Location { server, location } => {
                let key = self.http.server[server].location[location].clone_only_hash();
                let cached = self.cache_sender.checkout(&key);
                Step::Forward { key, server, location, cached }
            },
        }
    }

    /// Stores back a reused session after its request; the backend's answer
    /// is passed on, or a made-up one when the session ended without one.
    /// The session is stored back either way.
    pub fn finish_reused(&mut self, key: RouteKey, session: S, answered: bool) -> (r: Option<
        Reply,
    >)
        requires
            old(self).wf(),
        ensures
            final(self).wf(),
            final(self).http == old(self).http,
            final(self).cache_sender.view() == without(old(self).cache_sender.view(), key@).push(
                (key@, session),
            ),
            answered ==> r is None,
            !answered ==> r == Some(Reply::LostConnection),
    {
        self.cache_sender.checkin(key, session);
        if answered {
            None
        } else {
            Some(Reply::LostConnection)
        }
    }

    /// Stores a session that was just opened for a request.
    pub fn store_new(&mut self, key: RouteKey, session: S)
        requires
            old(self).wf(),
        ensures
            final(self).wf(),
            final(self).http == old(self).http,
            final(self).cache_sender.view() == without(old(self).cache_sender.view(), key@).push(
                (key@, session),
            ),
    {
        self.cache_sender.checkin(key, session);
    }
}

/// Once a request has stored its session under a key, the next request for
/// that key checks that same session out and, its sender open, reuses it
/// instead of opening another; sessions under other keys are not touched.
pub proof fn lemma_session_reuse<S>(
    cache: Seq<(RouteKeyView, S)>,
    key: RouteKeyView,
    session: S,
    other: RouteKeyView,
)
    ensures
        lookup(without(cache, key).push((key, session)), key) == Some(session),
        plan_spec(lookup(without(cache, key).push((key, session)), key) is Some, false)
            == Plan::Reuse,
        other != key ==> lookup(without(cache, key).push((key, session)), other) == lookup(
            cache,
            other,
        ),
{
    lemma_store_then_lookup(cache, key, session, other);
}

/// A cached session whose sender is closed is never reused: the request
/// opens a new session.
pub proof fn lemma_closed_fallback(cached: bool)
    ensures
        plan_spec(cached, true) == Plan::Establish,
{
}

/// Characters of each header's name and value.
pub open spec fn headers_view(v: Seq<(String, String)>) -> Seq<(Seq<char>, Seq<char>)> {
    v.map_values(|h: (String, String)| (h.0@, h.1@))
}

/// Sets header `name` to `value`: any header of that name is taken out, and
/// the new one is added last.
pub fn set_header(headers: &mut Vec<(String, String)>, name: String, value: String)
    ensures
        headers_view(final(headers)@) == without(headers_view(old(headers)@), name@).push(
            (name@, value@),
        ),
{
    let mut rest: Vec<(String, String)> = Vec::new();
    std::mem::swap(headers, &mut rest);
    let ghost orig = rest@;
    let n = rest.len();
    let mut i: usize = 0;
    while i < n
        invariant
            i <= n,
            n == orig.len(),
            orig == old(headers)@,
            rest@ == orig.subrange(i as int, n as int),
            headers_view(headers@) == without(headers_view(orig.subrange(0, i as int)), name@),
        decreases n - i,
    {
        let h = rest.remove(0);
        assert(h == orig[i as int]);
        let ghost pre = orig.subrange(0, i as int);
        let ghost next = orig.subrange(0, i as int + 1);
        assert(headers_view(next).drop_last() =~= headers_view(pre));
        assert(headers_view(next).last() == (h.0@, h.1@));
        if !same_chars(h.0.as_str(), name.as_str()) {
            let ghost before = headers@;
            headers.push(h);
            assert(headers_view(headers@) =~= headers_view(before).push((h.0@, h.1@)));
        }
        i = i + 1;
        assert(rest@ =~= orig.subrange(i as int, n as int));
    }
    assert(orig.subrange(0, n as int) =~= orig);
    let ghost before = headers@;
    headers.push((name, value));
    assert(headers_view(headers@) =~= headers_view(before).push((name@, value@)));
}

/// Names the proxy in a response's headers.
pub fn mark_server(headers: &mut Vec<(String, String)>)
    ensures
        headers_view(final(headers)@) == without(headers_view(old(headers)@), "server"@).push(
            ("server"@, "wmproxy"@),
        ),
{
    set_header(headers, String::from_str("server"), String::from_str("wmproxy"));
}

/// Setting a header again to the same value changes nothing: a response
/// that is marked twice carries the header once.
pub proof fn lemma_set_header_idempotent(
    headers: Seq<(Seq<char>, Seq<char>)>,
    name: Seq<char>,
    value: Seq<char>,
)
    ensures
        ({
            let once = without(headers, name).push((name, value));
            without(once, name).push((name, value)) == once
        }),
{
    let once = without(headers, name).push((name, value));
    assert(once.drop_last() =~= without(headers, name));
    lemma_without_twice(headers, name);
}

} // verus!
