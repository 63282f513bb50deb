//! Telleren for hvor mange hakk simuleringen har kjørt, og teksten som viser den.
use vstd::prelude::*;
use vstd::string::StringExecFns;
use crate::tekst::{desimal, usize_til_tekst};

verus! {

/// En teller som kan leses og telles opp med én.
pub trait CounterResource {
    /// Tellerens verdi.
    spec fn teller_verdi(&self) -> u32;

    fn counter_count_value(&self) -> (r: u32)
        ensures
            r == self.teller_verdi(),
    ;

    fn increment_counter_by_one(&mut self)
        requires
            old(self).teller_verdi() < u32::MAX,
        ensures
            final(self).teller_verdi() == old(self).teller_verdi() + 1,
    ;
}

/// Hvor mange hakk simuleringen har kjørt i alt.
pub struct SimulationTotalRuntimeRunningTeller {
    pub count: u32,
}

impl Default for SimulationTotalRuntimeRunningTeller {
    fn default() -> (r: Self)
        ensures
            r.count == 0,
    {
        SimulationTotalRuntimeRunningTeller { count: 0 }
    }
}

impl CounterResource for SimulationTotalRuntimeRunningTeller {
    open spec fn teller_verdi(&self) -> u32 {
        self.count
    }

    fn counter_count_value(&self) -> (r: u32) {
        self.count
    }

    fn increment_counter_by_one(&mut self) {
        self.count = self.count + 1;
    }
}

/// Teksten som viser telleren: "Simulation Counter: " og verdien.
pub open spec fn teller_tekst(n: nat) -> Seq<char> {
    "Simulation Counter: "@ + desimal(n)
}

/// Teksten som viser tellerens verdi.
pub fn oppdater_bevy_simulation_tellertekst<Teller: CounterResource>(teller1: &Teller) -> (r: String)
    ensures
        r@ == teller_tekst(teller1.teller_verdi() as nat),
{
    let tall = usize_til_tekst(teller1.counter_count_value() as usize);
    String::from_str("Simulation Counter: ").concat(tall.as_str())
}

/// Teller opp ett hakk.
pub fn add_one_to_simulation_running_teller<Teller: CounterResource>(frame_count: &mut Teller)
    requires
        old(frame_count).teller_verdi() < u32::MAX,
    ensures
        final(frame_count).teller_verdi() == old(frame_count).teller_verdi() + 1,
{
    frame_count.increment_counter_by_one();
}

} // verus!
