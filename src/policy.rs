use vstd::prelude::*;

use crate::destination::{ascii_lower, to_ascii_lower};
use crate::handshake::views;

verus! {

/// The hosts a client may reach, held in lower case; read-only once built.
pub struct AllowSet {
    hosts: Vec<String>,
}

/// The lower-case forms of a list of host names.
pub open spec fn lowered(hosts: Seq<String>) -> Seq<Seq<char>> {
    hosts.map_values(|h: String| ascii_lower(h@))
}

impl AllowSet {
    /// The allowed hosts.
    pub closed spec fn view(&self) -> Set<Seq<char>> {
        views(self.hosts@).to_set()
    }

    /// Builds the set from host names, lowering their case.
    pub fn new(hosts: Vec<String>) -> (r: AllowSet)
        ensures
            r@ == lowered(hosts@).to_set(),
    {
        let mut stored: Vec<String> = Vec::new();
        let mut i: usize = 0;
        while i < hosts.len()
            invariant
                i <= hosts.len(),
                views(stored@) == lowered(hosts@).take(i as int),
            decreases hosts.len() - i,
        {
            let h = to_ascii_lower(hosts[i].as_str());
            let ghost before = stored@;
            stored.push(h);
            assert(views(stored@) =~= lowered(hosts@).take(i + 1)) by {
                assert(views(before).len() == before.len());
                assert(stored@ =~= before.push(h));
                assert forall|j: int| 0 <= j < i implies stored@[j]@ == lowered(hosts@)[j] by {
                    assert(views(before)[j] == lowered(hosts@).take(i as int)[j]);

                }
            }
            i = i + 1;
        }
        assert(lowered(hosts@).take(hosts.len() as int) =~= lowered(hosts@));
        AllowSet { hosts: stored }
    }

    /// Whether `host`, in lower case, is one of the allowed hosts: exact
    /// matching, so a subdomain of an allowed host is not allowed.
    pub fn contains(&self, host: &str) -> (r: bool)
        ensures
            r == self@.contains(ascii_lower(host@)),
    {
        let key = to_ascii_lower(host);
        let mut i: usize = 0;
        while i < self.hosts.len()
            invariant
                i <= self.hosts.len(),
                key@ == ascii_lower(host@),
                forall|j: int| 0 <= j < i ==> self.hosts@[j]@ != key@,
            decreases self.hosts.len() - i,
        {
            if self.hosts[i] == key {
                assert(views(self.hosts@)[i as int] == key@);
                return true;
            }
            i = i + 1;
        }
        assert(!self@.contains(key@)) by {
            if self@.contains(key@) {
                let vs = views(self.hosts@);
                let j = choose|j: int| 0 <= j < vs.len() && vs[j] == key@;
                assert(self.hosts@[j]@ == key@);
            }
        }
        false
    }
}

} // verus!
