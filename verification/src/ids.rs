//! Identifiers of target-runtime addressable entities: groups, colors,
//! blocks and items, each either a specific small integer or an
//! auto-assigned ("arbitrary") one.

use vstd::prelude::*;

verus! {

/// A specific id written in the source, or an arbitrary id the machine
/// assigned from its per-class counter.
#[derive(Debug, Clone, Copy, PartialEq, Eq, Structural)]
pub enum Id {
    Specific(u16),
    ArbitraryId(u16),
}

/// The four classes of target-runtime ids.
#[derive(Debug, Clone, Copy, PartialEq, Eq, Structural)]
pub enum IDClass {
    Group,
    Color,
    Block,
    Item,
}

} // verus!
