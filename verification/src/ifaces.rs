//! Interface selection: of the interfaces the platform reports, the
//! pipeline captures on every one that is not a loopback interface.
use vstd::prelude::*;

verus! {

/// What the pipeline reads of one capturable network interface: its position
/// in the platform's interface list, so the caller can find it again, and
/// its loopback flag, read once at enumeration to exclude it.
#[derive(Clone, Copy, PartialEq, Eq, Structural, Debug)]
pub struct InterfaceInfo {
    /// Index of this interface in the list the platform returned.
    pub index: usize,
    /// Whether the platform marks this interface as loopback.
    pub is_loopback: bool,
}

/// Picks the interfaces to capture on: exactly the non-loopback entries of
/// the enumerated list, in enumeration order.
pub fn select_capture_interfaces(all: &Vec<InterfaceInfo>) -> (selected: Vec<InterfaceInfo>)
    ensures
        selected@ == all@.filter(|iface: InterfaceInfo| !iface.is_loopback),
{
    let ghost pred = |iface: InterfaceInfo| !iface.is_loopback;
    let mut selected: Vec<InterfaceInfo> = Vec::new();
    let mut i: usize = 0;
    proof {
        reveal(Seq::filter);
        assert(all@.take(0int).filter(pred) =~= Seq::<InterfaceInfo>::empty());
    }
    while i < all.len()
        invariant
            i <= all.len(),
            selected@ == all@.take(i as int).filter(|iface: InterfaceInfo| !iface.is_loopback),
        decreases all.len() - i,
    {
        proof {
            reveal(Seq::filter);
            assert(all@.take(i as int + 1).drop_last() =~= all@.take(i as int));
            assert(all@.take(i as int + 1).last() == all@[i as int]);
        }
        if !all[i].is_loopback {
            selected.push(all[i]);
        }
        i = i + 1;
    }
    assert(all@.take(all@.len() as int) =~= all@);
    selected
}

} // verus!
