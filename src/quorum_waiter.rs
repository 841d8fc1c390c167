use crate::fnv_map::{map_insert, map_new, map_remove};
use crate::msg::Digest;
use fnv::FnvHashMap;
use vstd::prelude::*;

verus! {

/// A copy of a vector of copyable values.
pub fn copy_vec<T: Copy>(v: &Vec<T>) -> (r: Vec<T>)
    ensures
        r@ == v@,
{
    let mut r: Vec<T> = Vec::new();
    let mut i: usize = 0;
    while i < v.len()
        invariant
            0 <= i <= v@.len(),
            r@ == v@.take(i as int),
        decreases v@.len() - i,
    {
        r.push(v[i]);
        assert(r@ =~= v@.take(i + 1));
        i = i + 1;
    }
    assert(v@.take(v@.len() as int) =~= v@);
    r
}

/// Collects the acknowledgements of each message and reports a message,
/// with its acknowledgements, when exactly `num_of_ids_to_wait_for` of them
/// have come in: once, however many follow.
pub struct General<Ack> {
    num_of_ids_to_wait_for: usize,
    count_map: FnvHashMap<Digest, Vec<Ack>>,
}

impl<Ack: Copy> General<Ack> {
    /// The acknowledgements received for each message, in order.
    pub closed spec fn acks(&self) -> Map<Digest, Seq<Ack>> {
        self.count_map@.map_values(|v: Vec<Ack>| v@)
    }

    /// The quorum size.
    pub closed spec fn quorum(&self) -> usize {
        self.num_of_ids_to_wait_for
    }

    /// The acknowledgements received for `msg`, in order.
    pub open spec fn acks_of(&self, msg: Digest) -> Seq<Ack> {
        if self.acks().contains_key(msg) {
            self.acks()[msg]
        } else {
            Seq::empty()
        }
    }

    /// A waiter that has received nothing.
    pub fn new(num_of_ids_to_wait_for: usize) -> (r: Self)
        ensures
            r.quorum() == num_of_ids_to_wait_for,
            r.acks().dom().is_empty(),
    {
        let r = General { num_of_ids_to_wait_for, count_map: map_new() };
        assert(r.acks().dom() =~= r.count_map@.dom());
        r
    }

    /// An acknowledgement of `msg` arrives. Where it makes the count reach
    /// the quorum exactly, the message and all its acknowledgements are
    /// returned.
    pub fn on_ack(&mut self, msg: Digest, ack: Ack) -> (r: Option<(Digest, Vec<Ack>)>)
        ensures
            final(self).quorum() == old(self).quorum(),
            final(self).acks() == old(self).acks().insert(msg, old(self).acks_of(msg).push(ack)),
            old(self).acks_of(msg).len() + 1 == old(self).quorum() ==> (r matches Some(p) && p.0
                == msg && p.1@ == old(self).acks_of(msg).push(ack)),
            old(self).acks_of(msg).len() + 1 != old(self).quorum() ==> r is None,
    {
        let mut val = match map_remove(&mut self.count_map, &msg) {
            Some(v) => v,
            None => Vec::new(),
        };
        assert(val@ == old(self).acks_of(msg));
        val.push(ack);
        let out = if val.len() == self.num_of_ids_to_wait_for {
            Some((msg, copy_vec(&val)))
        } else {
            None
        };
        let ghost v = val@;
        map_insert(&mut self.count_map, msg, val);
        assert(self.acks() =~= old(self).acks().insert(msg, v));
        out
    }
}

} // verus!
