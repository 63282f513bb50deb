use ai_gym::fokus::{color_change_on_pointer_out_of_individ, Markering};
use ai_gym::tilstand::{
    adjust_kjoeretilstand_if_generation_is_done, endre_kjoeretilstand_ved_input, set_ett_hakk_til_kjoer_ett_hakk_if_input,
    set_ett_hakk_til_vent_paa_input, set_physics_time_to_paused_or_unpaused, set_to_kjoerende_state, EttHakkState, Kjoeretilstand,
    Overgang, RenderMode,
};

fn overgang(k: Option<Kjoeretilstand>, e: Option<EttHakkState>, f: Option<bool>) -> Overgang {
    Overgang { kjoeretilstand: k, ett_hakk: e, fysikk_pause: f }
}

fn bruk(t: Kjoeretilstand, h: EttHakkState, o: Overgang) -> (Kjoeretilstand, EttHakkState) {
    (o.kjoeretilstand.unwrap_or(t), o.ett_hakk.unwrap_or(h))
}

#[test]
fn standardtilstandene() {
    assert_eq!(Kjoeretilstand::default(), Kjoeretilstand::Pause);
    assert_eq!(EttHakkState::default(), EttHakkState::DISABLED);
    assert_ne!(RenderMode::Human, RenderMode::Ingen);
}

#[test]
fn tastene_p_e_og_k() {
    assert_eq!(endre_kjoeretilstand_ved_input(false, false, false), overgang(None, None, None));
    assert_eq!(endre_kjoeretilstand_ved_input(true, false, false), overgang(Some(Kjoeretilstand::Pause), Some(EttHakkState::DISABLED), None));
    assert_eq!(
        endre_kjoeretilstand_ved_input(false, true, false),
        overgang(Some(Kjoeretilstand::Pause), Some(EttHakkState::VENTER_PAA_INPUT), None)
    );
    assert_eq!(
        endre_kjoeretilstand_ved_input(false, false, true),
        overgang(Some(Kjoeretilstand::Kjoerende), Some(EttHakkState::DISABLED), None)
    );
    assert_eq!(
        endre_kjoeretilstand_ved_input(true, true, false),
        overgang(Some(Kjoeretilstand::Pause), Some(EttHakkState::VENTER_PAA_INPUT), None)
    );
}

#[test]
fn k_kjoerer_alltid() {
    for p in [false, true] {
        for e in [false, true] {
            let o = endre_kjoeretilstand_ved_input(p, e, true);
            assert_eq!(bruk(Kjoeretilstand::EvolutionOverhead, EttHakkState::KJOERER_ETT_HAKK, o), (Kjoeretilstand::Kjoerende, EttHakkState::DISABLED));
        }
    }
}

#[test]
fn ett_hakk_ved_input() {
    assert_eq!(set_ett_hakk_til_kjoer_ett_hakk_if_input(false, false, false), overgang(None, None, None));
    let ventet = overgang(Some(Kjoeretilstand::Kjoerende), Some(EttHakkState::KJOERER_ETT_HAKK), Some(false));
    assert_eq!(set_ett_hakk_til_kjoer_ett_hakk_if_input(true, false, false), ventet);
    assert_eq!(set_ett_hakk_til_kjoer_ett_hakk_if_input(false, true, false), ventet);
    assert_eq!(set_ett_hakk_til_kjoer_ett_hakk_if_input(false, false, true), ventet);
}

#[test]
fn ett_hakk_gaar_tilbake_til_venting() {
    let start = (Kjoeretilstand::Pause, EttHakkState::VENTER_PAA_INPUT);
    let etter_tast = bruk(start.0, start.1, set_ett_hakk_til_kjoer_ett_hakk_if_input(false, false, true));
    assert_eq!(etter_tast, (Kjoeretilstand::Kjoerende, EttHakkState::KJOERER_ETT_HAKK));
    let etter_hakk = bruk(etter_tast.0, etter_tast.1, set_ett_hakk_til_vent_paa_input());
    assert_eq!(etter_hakk, start);
}

#[test]
fn fysikken_staar_bare_stille_i_pause() {
    assert_eq!(set_physics_time_to_paused_or_unpaused(Kjoeretilstand::Pause), overgang(None, None, Some(true)));
    assert_eq!(set_physics_time_to_paused_or_unpaused(Kjoeretilstand::Kjoerende), overgang(None, None, Some(false)));
    assert_eq!(set_physics_time_to_paused_or_unpaused(Kjoeretilstand::EvolutionOverhead), overgang(None, None, Some(false)));
}

#[test]
fn en_generasjon_gaar_i_ring() {
    assert_eq!(adjust_kjoeretilstand_if_generation_is_done(false), overgang(None, None, None));
    let ferdig = adjust_kjoeretilstand_if_generation_is_done(true);
    assert_eq!(ferdig, overgang(Some(Kjoeretilstand::EvolutionOverhead), None, None));
    let (t, h) = bruk(Kjoeretilstand::Kjoerende, EttHakkState::DISABLED, ferdig);
    assert_eq!((t, h), (Kjoeretilstand::EvolutionOverhead, EttHakkState::DISABLED));
    assert_eq!(bruk(t, h, set_to_kjoerende_state()), (Kjoeretilstand::Kjoerende, EttHakkState::DISABLED));
}

#[test]
fn eliten_gaar_foran_fokus() {
    assert_eq!(color_change_on_pointer_out_of_individ(true, true), Markering::Elite);
    assert_eq!(color_change_on_pointer_out_of_individ(false, true), Markering::IFokus);
    assert_eq!(color_change_on_pointer_out_of_individ(false, false), Markering::Standard);
}
