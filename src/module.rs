//! Modules: the local nodes of the bus, and which messages each one takes.
use vstd::prelude::*;

use crate::msg::{Header, TargetMode};

verus! {

/// Bus id of a module until one is assigned.
pub const UNSET_ID: u16 = 0;

/// The kind of a module.
#[derive(Clone, Copy, Debug, PartialEq, Eq, Structural)]
pub enum ModuleType {
    Button,
    Ledstrip,
    Motor,
    Potentiometer,
    Servo,
    /// Takes every message addressed by id, whatever the id: for monitoring.
    Sniffer,
}

/// A module attached to a core: its name, kind, bus id, and the handler
/// that its messages are delivered to.
pub struct Module<C> {
    pub alias: String,
    pub mod_type: ModuleType,
    pub id: u16,
    pub callback: C,
}

/// What addressing reads of a module: its kind and bus id.
pub open spec fn module_key<C>(m: Module<C>) -> (ModuleType, u16) {
    (m.mod_type, m.id)
}

/// Whether a message with header `h` is for a module of kind and bus id `m`.
///
/// Matching by type code and by group is not defined by the protocol: those
/// messages reach no module.
pub open spec fn targets_module(m: (ModuleType, u16), h: Header) -> bool {
    match h.target_mode {
        TargetMode::Broadcast => true,
        TargetMode::Id => m.1 == h.target || m.0 == ModuleType::Sniffer,
        TargetMode::Type => false,
        TargetMode::Group => false,
    }
}

/// The local indices of the modules of `reg` that a message with header `h`
/// is for, in registry order.
pub open spec fn matching(reg: Seq<(ModuleType, u16)>, h: Header) -> Seq<usize>
    decreases reg.len(),
{
    if reg.len() == 0 {
        Seq::empty()
    } else {
        let prev = matching(reg.drop_last(), h);
        if targets_module(reg.last(), h) {
            prev.push((reg.len() - 1) as usize)
        } else {
            prev
        }
    }
}

/// Every local index of a registry, in order.
pub open spec fn all_indices(n: nat) -> Seq<usize> {
    Seq::new(n, |i: int| i as usize)
}

pub fn targets(mod_type: ModuleType, id: u16, h: &Header) -> (r: bool)
    ensures
        r == targets_module((mod_type, id), *h),
{
    match h.target_mode {
        TargetMode::Broadcast => true,
        TargetMode::Id => id == h.target || mod_type == ModuleType::Sniffer,
        TargetMode::Type => false,
        TargetMode::Group => false,
    }
}

/// The indices that `matching` lists are in range, strictly increasing
/// (so each module appears once, in registry order), and are exactly those
/// of the modules that the message is for.
pub proof fn lemma_matching_shape(reg: Seq<(ModuleType, u16)>, h: Header)
    requires
        reg.len() <= usize::MAX,
    ensures
        forall|i: int, j: int|
            0 <= i < j < matching(reg, h).len() ==> matching(reg, h)[i] < matching(reg, h)[j],
        forall|i: int|
            0 <= i < matching(reg, h).len() ==> (matching(reg, h)[i] as int) < reg.len()
                && targets_module(reg[matching(reg, h)[i] as int], h),
        forall|k: int|
            0 <= k < reg.len() && targets_module(reg[k], h) ==> matching(reg, h).contains(k as usize),
    decreases reg.len(),
{
    if reg.len() > 0 {
        let prev = reg.drop_last();
        lemma_matching_shape(prev, h);
        let n = reg.len() - 1;
        assert forall|k: int| 0 <= k < reg.len() && targets_module(reg[k], h) implies matching(reg, h).contains(k as usize) by {
            if k < n {
                assert(prev[k] == reg[k]);
                assert(matching(prev, h).contains(k as usize));
                let w = choose|w: int| 0 <= w < matching(prev, h).len() && matching(prev, h)[w] == k as usize;
                assert(matching(reg, h)[w] == k as usize);
            } else {
                assert(matching(reg, h).last() == k as usize);
            }
        }
        assert forall|i: int| 0 <= i < matching(reg, h).len() implies (matching(reg, h)[i] as int) < reg.len()
            && targets_module(reg[matching(reg, h)[i] as int], h) by {
            if i < matching(prev, h).len() {
                assert(prev[matching(prev, h)[i] as int] == reg[matching(prev, h)[i] as int]);
            }
        }
    }
}

/// A broadcast is for every module, each once, in registry order.
pub proof fn lemma_broadcast_matches_all(reg: Seq<(ModuleType, u16)>, h: Header)
    requires
        h.target_mode == TargetMode::Broadcast,
        reg.len() <= usize::MAX,
    ensures
        matching(reg, h) == all_indices(reg.len()),
    decreases reg.len(),
{
    if reg.len() > 0 {
        lemma_broadcast_matches_all(reg.drop_last(), h);
        assert(all_indices((reg.len() - 1) as nat).push((reg.len() - 1) as usize) =~= all_indices(reg.len()));
    }
}

/// A message addressed by id to `x`'s bus id reaches `x`, and never a module
/// `y` of another bus id unless `y` is a sniffer; every module it reaches
/// has that id or is a sniffer.
pub proof fn lemma_targeted_dispatch(reg: Seq<(ModuleType, u16)>, h: Header, x: int, y: int)
    requires
        h.target_mode == TargetMode::Id,
        reg.len() <= usize::MAX,
        0 <= x < reg.len(),
        0 <= y < reg.len(),
        reg[x].1 == h.target,
        reg[y].1 != h.target,
        reg[y].0 != ModuleType::Sniffer,
    ensures
        matching(reg, h).contains(x as usize),
        !matching(reg, h).contains(y as usize),
        forall|i: int|
            0 <= i < matching(reg, h).len() ==> reg[matching(reg, h)[i] as int].1 == h.target
                || reg[matching(reg, h)[i] as int].0 == ModuleType::Sniffer,
{
    lemma_matching_shape(reg, h);
    if matching(reg, h).contains(y as usize) {
        let w = choose|w: int| 0 <= w < matching(reg, h).len() && matching(reg, h)[w] == y as usize;
        assert(targets_module(reg[y], h));
    }
}

} // verus!
