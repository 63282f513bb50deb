//! Hvilken markering et individ får: eliten, individet i fokus, eller ingen.
use vstd::prelude::*;

verus! {

/// Fargen et individ vises med.
#[derive(Clone, Copy, Debug, PartialEq, Eq, Structural)]
pub enum Markering {
    /// Det beste individet.
    Elite,
    /// Individet som nettverket vises for.
    IFokus,
    /// Alle andre.
    Standard,
}

/// Når pekeren forlater et individ, får det tilbake fargen sin: eliten går
/// foran fokus.
pub fn color_change_on_pointer_out_of_individ(er_elite: bool, i_fokus: bool) -> (r: Markering)
    ensures
        r == (if er_elite {
            Markering::Elite
        } else if i_fokus {
            Markering::IFokus
        } else {
            Markering::Standard
        }),
{
    if er_elite {
        Markering::Elite
    } else if i_fokus {
        Markering::IFokus
    } else {
        Markering::Standard
    }
}

} // verus!
