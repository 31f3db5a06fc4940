use vstd::prelude::*;
use crate::ports::{starts_with, starts_with_spec};

verus! {

/// The expansion packs installed on a POD XT.
#[derive(Clone, Copy, Debug, PartialEq, Eq, Structural)]
pub struct XtPacks {
    /// Metal Shop amps.
    pub ms: bool,
    /// Collector's Classics amps.
    pub cc: bool,
    /// Bass Expansion models.
    pub bx: bool,
    /// FX Junkie effects.
    pub fx: bool,
}

pub open spec fn ms_prefix() -> Seq<char> {
    seq!['M', 'S', '-']
}

pub open spec fn cc_prefix() -> Seq<char> {
    seq!['C', 'C', '-']
}

pub open spec fn bx_prefix() -> Seq<char> {
    seq!['B', 'X', '-']
}

pub open spec fn fx_prefix() -> Seq<char> {
    seq!['F', 'X', '-']
}

/// A model name is available when it belongs to no pack, or to an
/// installed one.
pub open spec fn is_sensitive_spec(packs: XtPacks, name: Seq<char>) -> bool {
    let ms = starts_with_spec(name, ms_prefix());
    let cc = starts_with_spec(name, cc_prefix());
    let bx = starts_with_spec(name, bx_prefix());
    let fx = starts_with_spec(name, fx_prefix());
    (!ms && !cc && !bx && !fx) || (ms && packs.ms) || (cc && packs.cc) || (bx && packs.bx) || (fx
        && packs.fx)
}

/// Whether the model called `name` can be selected with `packs` installed.
pub fn is_sensitive(packs: XtPacks, name: &str) -> (r: bool)
    ensures
        r == is_sensitive_spec(packs, name@),
{
    proof {
        reveal_strlit("MS-");
        reveal_strlit("CC-");
        reveal_strlit("BX-");
        reveal_strlit("FX-");
    }
    assert("MS-"@ =~= ms_prefix());
    assert("CC-"@ =~= cc_prefix());
    assert("BX-"@ =~= bx_prefix());
    assert("FX-"@ =~= fx_prefix());
    let ms = starts_with(name, "MS-");
    let cc = starts_with(name, "CC-");
    let bx = starts_with(name, "BX-");
    let fx = starts_with(name, "FX-");
    (!ms && !cc && !bx && !fx) || (ms && packs.ms) || (cc && packs.cc) || (bx && packs.bx) || (fx
        && packs.fx)
}

} // verus!
