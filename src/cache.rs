//! The cache of open backend sessions, keyed by route.
//!
//! A session is checked out of the cache for the whole time a request uses
//! it, so no two requests share one at a time, and stored back afterwards.
use vstd::prelude::*;

use crate::config::RouteKey;
use crate::keyed::{
    lookup, without, unique_keys, lemma_without_absent, lemma_without_present,
    lemma_store_unique,
};

verus! {

/// What a route key holds: its rule, method and target.
pub type RouteKeyView = (Seq<char>, Option<Seq<char>>, Option<Seq<char>>);

/// Open backend sessions, at most one per route key.
#[derive(Debug)]
pub struct SessionCache<S> {
    entries: Vec<(RouteKey, S)>,
}

impl<S> SessionCache<S> {
    /// The entries in the order they were stored.
    pub closed spec fn view(&self) -> Seq<(RouteKeyView, S)> {
        self.entries@.map_values(|e: (RouteKey, S)| (e.0@, e.1))
    }

    pub closed spec fn wf(&self) -> bool {
        unique_keys(self.view())
    }

    pub fn new() -> (r: SessionCache<S>)
        ensures
            r.wf(),
            r.view() == Seq::<(RouteKeyView, S)>::empty(),
    {
        let r = SessionCache { entries: Vec::new() };
        assert(r.view() =~= Seq::<(RouteKeyView, S)>::empty());
        r
    }

    pub fn len(&self) -> (r: usize)
        ensures
            r == self.view().len(),
    {
        self.entries.len()
    }

    /// Index of the entry under `key`, if any.
    fn position(&self, key: &RouteKey) -> (r: Option<usize>)
        ensures
            match r {
                Some(i) => i < self.view().len() && self.view()[i as int].0 == key@,
                None => forall|i: int| 0 <= i < self.view().len() ==> self.view()[i].0 != key@,
            },
    {
        let mut i: usize = 0;
        while i < self.entries.len()
            invariant
                i <= self.entries@.len(),
                forall|j: int| 0 <= j < i ==> self.view()[j].0 != key@,
            decreases self.entries@.len() - i,
        {
            if self.entries[i].0.same(key) {
                return Some(i);
            }
            i = i + 1;
        }
        None
    }

    /// Whether a session is stored under `key`.
    pub fn contains_key(&self, key: &RouteKey) -> (r: bool)
        requires
            self.wf(),
        ensures
            r == lookup(self.view(), key@) is Some,
    {
        match self.position(key) {
            Some(i) => {
                proof {
                    lemma_without_present(self.view(), i as int);
                }
                true
            },
            None => {
                proof {
                    lemma_without_absent(self.view(), key@);
                }
                false
            },
        }
    }

    /// Takes the session stored under `key` out of the cache, if there is one.
    pub fn checkout(&mut self, key: &RouteKey) -> (r: Option<S>)
        requires
            old(self).wf(),
        ensures
            final(self).wf(),
            r == lookup(old(self).view(), key@),
            final(self).view() == without(old(self).view(), key@),
    {
        match self.position(key) {
            Some(i) => {
                proof {
                    lemma_without_present(self.view(), i as int);
                }
                let ghost before = self.view();
                let e = self.entries.remove(i);
                assert(self.view() =~= before.remove(i as int));
                assert(unique_keys(self.view()));
                Some(e.1)
            },
            None => {
                proof {
                    lemma_without_absent(self.view(), key@);
                }
                None
            },
        }
    }

    /// Stores `session` under `key`, in place of any session stored there.
    pub fn checkin(&mut self, key: RouteKey, session: S)
        requires
            old(self).wf(),
        ensures
            final(self).wf(),
            final(self).view() == without(old(self).view(), key@).push((key@, session)),
    {
        let _stale = self.checkout(&key);
        let ghost mid = self.view();
        proof {
            lemma_store_unique(old(self).view(), key@, session);
        }
        self.entries.push((key, session));
        assert(self.view() =~= mid.push((key@, session)));
    }
}

} // verus!
