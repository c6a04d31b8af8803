//! The virtual CAN bus: each connected node sends one bit per round, and the
//! bus takes the wired-AND of them. A dominant bit (0) from any node makes
//! the bus 0; when every node sends the recessive bit (1), or none has sent
//! anything yet, the bus is 1.
//!
//! Sockets, timers and the list of connected nodes stay with the caller,
//! which hands each received byte to `BusRound` and asks it for the bus
//! state at the end of a round.

use vstd::prelude::*;
use std::collections::HashMap;

verus! {

/// The dominant bus level.
pub const DOMINANT: u8 = 0;

/// The recessive bus level, also the level of an idle bus.
pub const RECESSIVE: u8 = 1;

/// The bus level for the bits received in a round: dominant if any node
/// sent the dominant bit, else recessive.
pub open spec fn bus_value(bits: Map<usize, u8>) -> u8 {
    if exists|k: usize| bits.contains_key(k) && bits[k] == DOMINANT {
        DOMINANT
    } else {
        RECESSIVE
    }
}

/// A byte from a node is a bit only if it is 0 or 1.
pub open spec fn spec_is_bus_bit(b: u8) -> bool {
    b == DOMINANT || b == RECESSIVE
}

/// What the bus does with a byte that a node sent.
#[derive(Clone, Copy, Debug, PartialEq, Eq, Structural)]
pub enum ByteOutcome {
    /// The bit is recorded; `round_complete` says whether every connected
    /// node has now sent its bit.
    Recorded { round_complete: bool },
    /// The byte is no bit: the node is dropped, and its bit with it.
    Disconnect,
}

/// The bits received so far in the current round, by node.
pub struct BusRound {
    bits: HashMap<usize, u8>,
}

impl View for BusRound {
    type V = Map<usize, u8>;

    closed spec fn view(&self) -> Map<usize, u8> {
        self.bits@
    }
}

/// Whether a byte from a node is a bus bit.
pub fn is_bus_bit(b: u8) -> (r: bool)
    ensures
        r == spec_is_bus_bit(b),
{
    b == DOMINANT || b == RECESSIVE
}

impl BusRound {
    /// A round in which no node has sent anything.
    pub fn new() -> (r: BusRound)
        ensures
            r@ == Map::<usize, u8>::empty(),
    {
        BusRound { bits: HashMap::new() }
    }

    /// The number of nodes that have sent their bit in this round.
    pub fn received(&self) -> (n: usize)
        ensures
            n == self@.len(),
    {
        self.bits.len()
    }

    /// Handles a byte that node `id` sent while `registered` nodes are
    /// connected: a bit replaces the node's bit of this round, and the
    /// round is complete when as many nodes have sent a bit as are
    /// connected; any other byte drops the node's bit.
    pub fn on_byte(&mut self, id: usize, byte: u8, registered: usize) -> (out: ByteOutcome)
        ensures
            spec_is_bus_bit(byte) ==> {
                &&& final(self)@ == old(self)@.insert(id, byte)
                &&& out == ByteOutcome::Recorded {
                    round_complete: final(self)@.len() == registered,
                }
            },
            !spec_is_bus_bit(byte) ==> {
                &&& final(self)@ == old(self)@.remove(id)
                &&& out == ByteOutcome::Disconnect
            },
    {
        if is_bus_bit(byte) {
            self.bits.insert(id, byte);
            let complete = self.bits.len() == registered;
            ByteOutcome::Recorded { round_complete: complete }
        } else {
            self.forget(id);
            ByteOutcome::Disconnect
        }
    }

    /// Drops the bit of a node that has left the bus.
    pub fn forget(&mut self, id: usize)
        ensures
            final(self)@ == old(self)@.remove(id),
    {
        self.bits.remove(&id);
    }

    /// Ends the round: the bus level for the bits received, and a fresh
    /// round with no bits.
    pub fn close_round(&mut self) -> (level: u8)
        ensures
            level == bus_value(old(self)@),
            final(self)@ == Map::<usize, u8>::empty(),
    {
        let mut any_dominant = false;
        let ghost vals = vstd::std_specs::iter::IteratorSpec::remaining(
            &vstd::std_specs::hash::spec_values_iter(&self.bits),
        );
        proof {
            vstd::std_specs::hash::axiom_spec_values_iter(&self.bits);
        }
        for b in it: self.bits.values()
            invariant
                it.seq() == vals,
                any_dominant <==> exists|j: int| 0 <= j < it.index() && *it.seq()[j] == DOMINANT,
        {
            if *b == DOMINANT {
                any_dominant = true;
            }
        }
        proof {
            let m = self.bits@;
            assert(vals.unref().to_set() == m.values());
            if any_dominant {
                let j = choose|j: int| 0 <= j < vals.len() && *vals[j] == DOMINANT;
                assert(vals.unref()[j] == DOMINANT);
                assert(vals.unref().to_set().contains(DOMINANT));
                assert(m.values().contains(DOMINANT));
                let k = choose|k: usize| m.contains_key(k) && m[k] == DOMINANT;
                assert(m.contains_key(k) && m[k] == DOMINANT);
            } else {
                if exists|k: usize| m.contains_key(k) && m[k] == DOMINANT {
                    let k = choose|k: usize| m.contains_key(k) && m[k] == DOMINANT;
                    assert(m.values().contains(DOMINANT));
                    assert(vals.unref().to_set().contains(DOMINANT));
                    assert(vals.unref().contains(DOMINANT));
                    let j = choose|j: int| 0 <= j < vals.unref().len() && vals.unref()[j] == DOMINANT;
                    assert(*vals[j] == DOMINANT);
                    assert(false);
                }
            }
        }
        let level = if any_dominant {
            DOMINANT
        } else {
            RECESSIVE
        };
        self.bits.clear();
        level
    }
}

/// One dominant bit makes the bus dominant, whatever the other nodes sent.
pub proof fn lemma_dominant_wins(bits: Map<usize, u8>, id: usize)
    ensures
        bus_value(bits.insert(id, DOMINANT)) == DOMINANT,
{
    let m = bits.insert(id, DOMINANT);
    assert(m.contains_key(id) && m[id] == DOMINANT);
}

/// When every node that sent a bit sent the recessive one, or none sent
/// anything, the bus is recessive.
pub proof fn lemma_all_recessive(bits: Map<usize, u8>)
    requires
        forall|k: usize| bits.contains_key(k) ==> bits[k] == RECESSIVE,
    ensures
        bus_value(bits) == RECESSIVE,
{
}
} // verus!
