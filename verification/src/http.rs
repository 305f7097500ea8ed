//! The HTTP front of the local control transport: the routing table
//! from request paths to handler callbacks. The socket, the accept loop
//! and the wire I/O live in the surrounding shell; registering and
//! resolving listeners is the logic kept here.

use vstd::prelude::*;

use crate::text::str_eq;

verus! {

/// The request methods the local control transport distinguishes.
#[derive(Clone, Copy, Debug, PartialEq, Eq, Structural)]
pub enum HttpMethod {
    GET,
    POST,
    OTHER,
}

/// The first registered listener for a path, if any.
pub open spec fn spec_listener_index<U>(s: Seq<(String, U)>, path: Seq<char>) -> Option<int>
    decreases s.len(),
{
    if s.len() == 0 {
        None
    } else if s.first().0@ == path {
        Some(0)
    } else {
        match spec_listener_index(s.drop_first(), path) {
            Some(i) => Some(i + 1),
            None => None,
        }
    }
}

/// The path-to-callback routing table of the local control HTTP server.
pub struct HttpServer<U> {
    pub listeners: Vec<(String, U)>,
}

impl<U> HttpServer<U> {
    /// An empty routing table.
    pub fn new() -> (r: HttpServer<U>)
        ensures
            r.listeners@.len() == 0,
    {
        HttpServer { listeners: Vec::new() }
    }

    /// Registers a callback for a path, replacing the callback of a
    /// path already registered.
    pub fn add_listener(&mut self, path: &str, callback: U)
        ensures
            match spec_listener_index(old(self).listeners@, path@) {
                Some(i) => {
                    &&& final(self).listeners@.len() == old(self).listeners@.len()
                    &&& final(self).listeners@[i].0@ == path@
                    &&& final(self).listeners@[i].1 == callback
                    &&& forall|j: int|
                        0 <= j < old(self).listeners@.len() && j != i
                            ==> final(self).listeners@[j] == old(self).listeners@[j]
                },
                None => {
                    &&& final(self).listeners@.len() == old(self).listeners@.len() + 1
                    &&& final(self).listeners@.last().0@ == path@
                    &&& final(self).listeners@.last().1 == callback
                    &&& forall|j: int|
                        0 <= j < old(self).listeners@.len()
                            ==> final(self).listeners@[j] == old(self).listeners@[j]
                },
            },
    {
        let ghost orig = self.listeners@;
        proof {
            assert(orig.skip(0) =~= orig);
        }
        let mut i: usize = 0;
        while i < self.listeners.len()
            invariant
                i <= self.listeners@.len(),
                *self == *old(self),
                orig == old(self).listeners@,
                spec_listener_index(orig, path@) == match spec_listener_index(
                    orig.skip(i as int),
                    path@,
                ) {
                    Some(k) => Some(k + i),
                    None => None::<int>,
                },
            decreases self.listeners@.len() - i,
        {
            proof {
                assert(orig.skip(i as int).first() == orig[i as int]);
                assert(orig.skip(i as int).drop_first() =~= orig.skip(i + 1));
            }
            if str_eq(self.listeners[i].0.as_str(), path) {
                self.listeners.set(i, (path.to_owned(), callback));
                return ;
            }
            i = i + 1;
        }
        proof {
            assert(orig.skip(orig.len() as int) =~= Seq::<(String, U)>::empty());
        }
        self.listeners.push((path.to_owned(), callback));
    }

    /// The callback registered for a path, if any.
    pub fn find_listener(&self, path: &str) -> (r: Option<&U>)
        ensures
            match spec_listener_index(self.listeners@, path@) {
                Some(i) => r matches Some(u) && *u == self.listeners@[i].1,
                None => r is None,
            },
    {
        let ghost orig = self.listeners@;
        proof {
            assert(orig.skip(0) =~= orig);
        }
        let mut i: usize = 0;
        while i < self.listeners.len()
            invariant
                i <= self.listeners@.len(),
                orig == self.listeners@,
                spec_listener_index(orig, path@) == match spec_listener_index(
                    orig.skip(i as int),
                    path@,
                ) {
                    Some(k) => Some(k + i),
                    None => None::<int>,
                },
            decreases self.listeners@.len() - i,
        {
            proof {
                assert(orig.skip(i as int).first() == orig[i as int]);
                assert(orig.skip(i as int).drop_first() =~= orig.skip(i + 1));
            }
            if str_eq(self.listeners[i].0.as_str(), path) {
                return Some(&self.listeners[i].1);
            }
            i = i + 1;
        }
        proof {
            assert(orig.skip(orig.len() as int) =~= Seq::<(String, U)>::empty());
        }
        None
    }
}

} // verus!
