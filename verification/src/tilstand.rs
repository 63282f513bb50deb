//! Tilstandsmaskinen for simuleringen: kjøring, pause, evolusjonssteget og
//! kjøring ett hakk om gangen.
use vstd::prelude::*;

verus! {

/// Hva simuleringen gjør nå.
#[derive(Clone, Copy, Debug, PartialEq, Eq, Structural)]
pub enum Kjoeretilstand {
    Pause,
    Kjoerende,
    EvolutionOverhead,
}

impl Default for Kjoeretilstand {
    fn default() -> (r: Self)
        ensures
            r == Kjoeretilstand::Pause,
    {
        Kjoeretilstand::Pause
    }
}

/// Kjøring ett hakk om gangen: av, venter på en tast, eller kjører ett hakk.
#[allow(non_camel_case_types)]
#[derive(Clone, Copy, Debug, PartialEq, Eq, Structural)]
pub enum EttHakkState {
    DISABLED,
    VENTER_PAA_INPUT,
    KJOERER_ETT_HAKK,
}

impl Default for EttHakkState {
    fn default() -> (r: Self)
        ensures
            r == EttHakkState::DISABLED,
    {
        EttHakkState::DISABLED
    }
}

/// Det som skal skje med tilstandene og fysikken: en ny kjøretilstand, en ny
/// ett-hakk-tilstand, og om fysikken skal settes på pause (`Some(true)`) eller
/// i gang (`Some(false)`). `None` lar det være som det er.
#[derive(Clone, Copy, Debug, PartialEq, Eq, Structural)]
pub struct Overgang {
    pub kjoeretilstand: Option<Kjoeretilstand>,
    pub ett_hakk: Option<EttHakkState>,
    pub fysikk_pause: Option<bool>,
}

/// Ingen endring.
pub open spec fn ingen_overgang() -> Overgang {
    Overgang { kjoeretilstand: None, ett_hakk: None, fysikk_pause: None }
}

/// Tastene P (pause), E (pause og ett hakk om gangen) og K (kjør); trykkes
/// flere, vinner den siste av P, E, K.
pub open spec fn overgang_ved_input(p: bool, e: bool, k: bool) -> Overgang {
    if k {
        Overgang {
            kjoeretilstand: Some(Kjoeretilstand::Kjoerende),
            ett_hakk: Some(EttHakkState::DISABLED),
            fysikk_pause: None,
        }
    } else if e {
        Overgang {
            kjoeretilstand: Some(Kjoeretilstand::Pause),
            ett_hakk: Some(EttHakkState::VENTER_PAA_INPUT),
            fysikk_pause: None,
        }
    } else if p {
        Overgang {
            kjoeretilstand: Some(Kjoeretilstand::Pause),
            ett_hakk: Some(EttHakkState::DISABLED),
            fysikk_pause: None,
        }
    } else {
        ingen_overgang()
    }
}

/// Endrer kjøretilstanden etter tastene som holdes nede.
pub fn endre_kjoeretilstand_ved_input(p_trykket: bool, e_trykket: bool, k_trykket: bool) -> (r: Overgang)
    ensures
        r == overgang_ved_input(p_trykket, e_trykket, k_trykket),
{
    let mut r = Overgang { kjoeretilstand: None, ett_hakk: None, fysikk_pause: None };
    if p_trykket {
        r.kjoeretilstand = Some(Kjoeretilstand::Pause);
        r.ett_hakk = Some(EttHakkState::DISABLED);
    }
    if e_trykket {
        r.kjoeretilstand = Some(Kjoeretilstand::Pause);
        r.ett_hakk = Some(EttHakkState::VENTER_PAA_INPUT);
    }
    if k_trykket {
        r.kjoeretilstand = Some(Kjoeretilstand::Kjoerende);
        r.ett_hakk = Some(EttHakkState::DISABLED);
    }
    r
}

/// Ett hakk: når A eller D holdes, eller mellomrom nettopp ble trykket, settes
/// fysikken i gang og simuleringen kjører ett hakk.
pub open spec fn overgang_ved_ett_hakk_input(a: bool, d: bool, mellomrom: bool) -> Overgang {
    if a || d || mellomrom {
        Overgang {
            kjoeretilstand: Some(Kjoeretilstand::Kjoerende),
            ett_hakk: Some(EttHakkState::KJOERER_ETT_HAKK),
            fysikk_pause: Some(false),
        }
    } else {
        ingen_overgang()
    }
}

/// Venter på input: kjører ett hakk når A eller D holdes eller mellomrom ble trykket.
pub fn set_ett_hakk_til_kjoer_ett_hakk_if_input(a_trykket: bool, d_trykket: bool, mellomrom_trykket: bool) -> (r:
    Overgang)
    ensures
        r == overgang_ved_ett_hakk_input(a_trykket, d_trykket, mellomrom_trykket),
{
    let mut input_exist = false;
    if a_trykket {
        input_exist = true;
    }
    if d_trykket {
        input_exist = true;
    }
    if mellomrom_trykket {
        input_exist = true;
    }
    if input_exist {
        Overgang {
            kjoeretilstand: Some(Kjoeretilstand::Kjoerende),
            ett_hakk: Some(EttHakkState::KJOERER_ETT_HAKK),
            fysikk_pause: Some(false),
        }
    } else {
        Overgang { kjoeretilstand: None, ett_hakk: None, fysikk_pause: None }
    }
}

/// Etter ett hakk: tilbake til pause, og venter på neste input.
pub open spec fn overgang_etter_ett_hakk() -> Overgang {
    Overgang {
        kjoeretilstand: Some(Kjoeretilstand::Pause),
        ett_hakk: Some(EttHakkState::VENTER_PAA_INPUT),
        fysikk_pause: None,
    }
}

/// Etter ett hakk: tilbake til pause, og venter på neste input.
pub fn set_ett_hakk_til_vent_paa_input() -> (r: Overgang)
    ensures
        r == overgang_etter_ett_hakk(),
{
    Overgang {
        kjoeretilstand: Some(Kjoeretilstand::Pause),
        ett_hakk: Some(EttHakkState::VENTER_PAA_INPUT),
        fysikk_pause: None,
    }
}

/// Fysikken står stille i pause, og går ellers.
pub open spec fn fysikk_pauset(t: Kjoeretilstand) -> bool {
    t == Kjoeretilstand::Pause
}

/// Setter fysikken på pause eller i gang etter kjøretilstanden.
pub fn set_physics_time_to_paused_or_unpaused(kjoeretilstand: Kjoeretilstand) -> (r: Overgang)
    ensures
        r == (Overgang { fysikk_pause: Some(fysikk_pauset(kjoeretilstand)), ..ingen_overgang() }),
{
    let pause = match kjoeretilstand {
        Kjoeretilstand::Pause => true,
        Kjoeretilstand::Kjoerende => false,
        Kjoeretilstand::EvolutionOverhead => false,
    };
    Overgang { kjoeretilstand: None, ett_hakk: None, fysikk_pause: Some(pause) }
}

/// Når miljøet melder at generasjonen er ferdig, går simuleringen til evolusjonssteget.
pub fn adjust_kjoeretilstand_if_generation_is_done(generasjon_ferdig: bool) -> (r: Overgang)
    ensures
        r == (if generasjon_ferdig {
            Overgang { kjoeretilstand: Some(Kjoeretilstand::EvolutionOverhead), ..ingen_overgang() }
        } else {
            ingen_overgang()
        }),
{
    if generasjon_ferdig {
        Overgang {
            kjoeretilstand: Some(Kjoeretilstand::EvolutionOverhead),
            ett_hakk: None,
            fysikk_pause: None,
        }
    } else {
        Overgang { kjoeretilstand: None, ett_hakk: None, fysikk_pause: None }
    }
}

/// Etter evolusjonssteget kjører simuleringen igjen.
pub fn set_to_kjoerende_state() -> (r: Overgang)
    ensures
        r == (Overgang { kjoeretilstand: Some(Kjoeretilstand::Kjoerende), ..ingen_overgang() }),
{
    Overgang { kjoeretilstand: Some(Kjoeretilstand::Kjoerende), ett_hakk: None, fysikk_pause: None }
}

/// Tilstanden etter en overgang.
pub open spec fn bruk(t: Kjoeretilstand, h: EttHakkState, o: Overgang) -> (Kjoeretilstand, EttHakkState) {
    (
        match o.kjoeretilstand {
            Some(n) => n,
            None => t,
        },
        match o.ett_hakk {
            Some(n) => n,
            None => h,
        },
    )
}

/// Ett hakk om gangen: fra pause og venting fører en tast til kjøring av ett
/// hakk, og etter hakket er simuleringen tilbake i pause og venter igjen.
pub proof fn lov_ett_hakk_gaar_tilbake_til_venting(a: bool, d: bool, mellomrom: bool)
    requires
        a || d || mellomrom,
    ensures
        bruk(Kjoeretilstand::Pause, EttHakkState::VENTER_PAA_INPUT, overgang_ved_ett_hakk_input(a, d, mellomrom))
            == (Kjoeretilstand::Kjoerende, EttHakkState::KJOERER_ETT_HAKK),
        ({
            let (t, h) = bruk(
                Kjoeretilstand::Pause,
                EttHakkState::VENTER_PAA_INPUT,
                overgang_ved_ett_hakk_input(a, d, mellomrom),
            );
            bruk(t, h, overgang_etter_ett_hakk())
        }) == (Kjoeretilstand::Pause, EttHakkState::VENTER_PAA_INPUT),
{
}

/// K slår alltid av ett-hakk-kjøringen og setter simuleringen i gang, fra
/// hvilken som helst tilstand og uansett hvilke andre taster som holdes.
pub proof fn lov_k_kjoerer_alltid(t: Kjoeretilstand, h: EttHakkState, p: bool, e: bool)
    ensures
        bruk(t, h, overgang_ved_input(p, e, true)) == (Kjoeretilstand::Kjoerende, EttHakkState::DISABLED),
{
}

/// Én generasjon: kjøring, ferdig generasjon gir evolusjonssteget, og etter
/// det kjører simuleringen igjen; ett-hakk-tilstanden rører ingen av dem.
pub proof fn lov_generasjon_gaar_i_ring(h: EttHakkState)
    ensures
        bruk(
            Kjoeretilstand::Kjoerende,
            h,
            Overgang { kjoeretilstand: Some(Kjoeretilstand::EvolutionOverhead), ..ingen_overgang() },
        ) == (Kjoeretilstand::EvolutionOverhead, h),
        bruk(
            Kjoeretilstand::EvolutionOverhead,
            h,
            Overgang { kjoeretilstand: Some(Kjoeretilstand::Kjoerende), ..ingen_overgang() },
        ) == (Kjoeretilstand::Kjoerende, h),
{
}

/// Hvordan et miljø tegnes.
#[derive(Clone, Copy, Debug, PartialEq, Eq, Structural)]
pub enum RenderMode {
    /// Tegnes for et menneske, i terminalen eller på en skjerm.
    Human,
    /// Tegnes ikke.
    Ingen,
}

/// Felles grensesnitt for miljøer.
pub trait Env {
    /// Handlingen miljøet tar imot.
    type Action;

    /// Det agenten ser etter en handling.
    type Observation;

    /// Ekstra opplysninger fra et steg.
    type Info;

    /// Opplysninger fra en nullstilling.
    type ResetInfo;

    /// Utfører en handling i miljøet.
    fn step(&mut self, action: Self::Action);

    /// Nullstiller miljøet til en tilfeldig starttilstand.
    fn reset(&mut self, seed: Option<u64>, return_info: bool) -> (Self::Observation, Option<Self::ResetInfo>);

    /// Velger hvordan miljøet tegnes.
    fn render(&mut self, mode: RenderMode);

    /// Lukker det miljøet har åpnet for tegning.
    fn close(&mut self);
}

} // verus!
