//! Plain-value descriptions of where a request came from.

use std::collections::HashSet;
use vstd::prelude::*;

verus! {

broadcast use vstd::std_specs::hash::group_hash_axioms;

/// An IP address: a version 4 address as its 32-bit big-endian value, or a
/// version 6 address as its 128-bit big-endian value.
#[derive(Clone, Copy, Debug, PartialEq, Eq, Structural, Hash)]
pub enum IpAddress {
    V4(u32),
    V6(u128),
}

/// The value of one HTTP header, as the transport layer handed it over.
#[derive(Clone, Debug)]
pub enum HeaderText {
    /// The value consists of visible ASCII only, and reads as this text.
    Visible(String),
    /// The value holds bytes that cannot be read as text.
    Opaque,
}

/// What the transport layer reports about one incoming request.
#[derive(Clone, Debug)]
pub struct RequestMeta {
    /// The address of the directly connected peer, if the transport knows it.
    pub peer: Option<IpAddress>,
    /// The standard `Forwarded` header, if present.
    pub forwarded: Option<HeaderText>,
    /// The legacy `X-Forwarded-For` header, if present.
    pub x_forwarded_for: Option<HeaderText>,
}

impl RequestMeta {
    /// Metadata of a request from `peer` that carries no forwarding headers.
    pub fn direct(peer: IpAddress) -> (r: RequestMeta)
        ensures
            r.peer == Some(peer),
            r.forwarded is None,
            r.x_forwarded_for is None,
    {
        RequestMeta { peer: Some(peer), forwarded: None, x_forwarded_for: None }
    }
}

/// A set of addresses, kept as one hash set per address version.
pub struct AddressSet {
    v4: HashSet<u32>,
    v6: HashSet<u128>,
}

impl View for AddressSet {
    type V = Set<IpAddress>;

    closed spec fn view(&self) -> Set<IpAddress> {
        Set::new(
            |a: IpAddress|
                match a {
                    IpAddress::V4(x) => self.v4@.contains(x),
                    IpAddress::V6(y) => self.v6@.contains(y),
                },
        )
    }
}

impl AddressSet {
    /// The set of the addresses in `list`.
    pub fn from_vec(list: &Vec<IpAddress>) -> (r: AddressSet)
        ensures
            r@ == list@.to_set(),
    {
        let mut r = AddressSet { v4: HashSet::new(), v6: HashSet::new() };
        let mut i: usize = 0;
        while i < list.len()
            invariant
                0 <= i <= list.len(),
                forall|a: IpAddress|
                    #[trigger] r@.contains(a) <==> exists|k: int| 0 <= k < i && list@[k] == a,
            decreases list.len() - i,
        {
            let a = list[i];
            let ghost before = r@;
            match a {
                IpAddress::V4(x) => {
                    r.v4.insert(x);
                },
                IpAddress::V6(y) => {
                    r.v6.insert(y);
                },
            }
            assert forall|b: IpAddress|
                #[trigger] r@.contains(b) <==> exists|k: int| 0 <= k < i + 1 && list@[k] == b by {
                assert(r@.contains(b) <==> before.contains(b) || b == a);
                if b == a {
                    assert(list@[i as int] == b);
                }
                if exists|k: int| 0 <= k < i + 1 && list@[k] == b {
                    let k = choose|k: int| 0 <= k < i + 1 && list@[k] == b;
                    if k < i {
                        assert(before.contains(b));
                    }
                }
            }
            i = i + 1;
        }
        assert(r@ =~= list@.to_set());
        r
    }

    pub fn contains(&self, a: IpAddress) -> (r: bool)
        ensures
            r == self@.contains(a),
    {
        match a {
            IpAddress::V4(x) => self.v4.contains(&x),
            IpAddress::V6(y) => self.v6.contains(&y),
        }
    }
}

} // verus!
