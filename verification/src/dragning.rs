//! Dra i kameraet med musen: endre størrelsen og flytte det i vinduet, og
//! velge hvilken retning vinduet endrer størrelse mot.
use vstd::prelude::*;
use crate::kamera::{Kamera, UVektor, Viewport};

verus! {

/// Om kameraene kan justeres ved å dra i dem.
#[derive(Clone, Copy, Debug, PartialEq, Eq, Structural)]
pub enum CameraDragningJustering {
    PAA,
    AV,
}

impl Default for CameraDragningJustering {
    fn default() -> (r: Self)
        ensures
            r == CameraDragningJustering::PAA,
    {
        CameraDragningJustering::PAA
    }
}

/// Hva et venstreklikk gjør med vinduet.
#[derive(Clone, Copy, Debug, PartialEq, Eq, Structural)]
pub enum CameraDragningModus {
    /// Ingenting.
    Nothing,
    /// Flytter vinduet.
    Move,
    /// Endrer størrelsen på vinduet.
    Resize,
}

/// De åtte kompassretningene et vindu kan endre størrelse mot.
#[derive(Clone, Copy, Debug, PartialEq, Eq, Structural)]
pub enum Kompassretning {
    North,
    NorthEast,
    East,
    SouthEast,
    South,
    SouthWest,
    West,
    NorthWest,
}

/// Antall retninger.
pub const ANTALL_RETNINGER: usize = 8;

/// Retningen med nummer `i`, med klokka fra nord.
pub open spec fn retning(i: int) -> Kompassretning {
    if i == 0 {
        Kompassretning::North
    } else if i == 1 {
        Kompassretning::NorthEast
    } else if i == 2 {
        Kompassretning::East
    } else if i == 3 {
        Kompassretning::SouthEast
    } else if i == 4 {
        Kompassretning::South
    } else if i == 5 {
        Kompassretning::SouthWest
    } else if i == 6 {
        Kompassretning::West
    } else {
        Kompassretning::NorthWest
    }
}

/// Kompassvinkelen til retningen, i grader med klokka fra nord.
pub open spec fn grader(k: Kompassretning) -> int {
    match k {
        Kompassretning::North => 0,
        Kompassretning::NorthEast => 45,
        Kompassretning::East => 90,
        Kompassretning::SouthEast => 135,
        Kompassretning::South => 180,
        Kompassretning::SouthWest => 225,
        Kompassretning::West => 270,
        Kompassretning::NorthWest => 315,
    }
}

/// Retningsnumrene går med klokka fra nord i steg på 45 grader: nummer `i`
/// peker mot `45 * i` grader, nabonumre er naboretninger med klokka, og ingen
/// to numre gir samme retning.
pub proof fn lov_retningene_gaar_med_klokka()
    ensures
        forall|i: int| 0 <= i < ANTALL_RETNINGER ==> #[trigger] grader(retning(i)) == 45 * i,
        forall|i: int|
            0 <= i < ANTALL_RETNINGER ==> grader(retning((i + 1) % (ANTALL_RETNINGER as int))) == (grader(
                #[trigger] retning(i),
            ) + 45) % 360,
        forall|i: int, j: int|
            0 <= i < ANTALL_RETNINGER && 0 <= j < ANTALL_RETNINGER && i != j ==> #[trigger] retning(i)
                != #[trigger] retning(j),
{
    assert forall|i: int, j: int|
        0 <= i < ANTALL_RETNINGER && 0 <= j < ANTALL_RETNINGER && i != j implies #[trigger] retning(i)
            != #[trigger] retning(j) by {
        assert(grader(retning(i)) == 45 * i);
        assert(grader(retning(j)) == 45 * j);
    }
}

/// Retningen med nummer `i`.
pub fn retning_for(i: usize) -> (r: Kompassretning)
    requires
        i < ANTALL_RETNINGER,
    ensures
        r == retning(i as int),
        grader(r) == 45 * i,
{
    if i == 0 {
        Kompassretning::North
    } else if i == 1 {
        Kompassretning::NorthEast
    } else if i == 2 {
        Kompassretning::East
    } else if i == 3 {
        Kompassretning::SouthEast
    } else if i == 4 {
        Kompassretning::South
    } else if i == 5 {
        Kompassretning::SouthWest
    } else if i == 6 {
        Kompassretning::West
    } else {
        Kompassretning::NorthWest
    }
}

/// Nummeret på retningen vinduet endrer størrelse mot.
pub struct ResizeDir(pub usize);

/// Retningen etter S: én mot klokka, fra nord til nordvest.
pub open spec fn etter_s(d: int) -> int {
    if d > 0 {
        d - 1
    } else {
        ANTALL_RETNINGER - 1
    }
}

/// Retningen etter D: én med klokka, rundt til nord.
pub open spec fn etter_d(d: int) -> int {
    (d + 1) % (ANTALL_RETNINGER as int)
}

/// Retningen etter tastene som ble trykket nå: først S, så D.
pub open spec fn retning_etter_taster(d: int, s: bool, dt: bool) -> int {
    let a = if s {
        etter_s(d)
    } else {
        d
    };
    if dt {
        etter_d(a)
    } else {
        a
    }
}

/// Endrer retningen: S dreier én mot klokka, D én med klokka.
pub fn juster_camera_stoerrelse_dragning_retning(dir: &mut ResizeDir, s_trykket: bool, d_trykket: bool)
    requires
        d_trykket ==> (if s_trykket {
            etter_s(old(dir).0 as int)
        } else {
            old(dir).0 as int
        }) < usize::MAX,
    ensures
        final(dir).0 == retning_etter_taster(old(dir).0 as int, s_trykket, d_trykket),
{
    if s_trykket {
        dir.0 = match dir.0.checked_sub(1) {
            Some(d) => d,
            None => ANTALL_RETNINGER - 1,
        };
    }
    if d_trykket {
        dir.0 = (dir.0 + 1) % ANTALL_RETNINGER;
    }
}

/// S og D opphever hverandre, i hvilken som helst rekkefølge, og en gyldig
/// retning forblir gyldig.
pub proof fn lov_s_og_d_opphever_hverandre(d: int)
    requires
        0 <= d < ANTALL_RETNINGER,
    ensures
        etter_d(etter_s(d)) == d,
        etter_s(etter_d(d)) == d,
        0 <= etter_s(d) < ANTALL_RETNINGER,
        0 <= etter_d(d) < ANTALL_RETNINGER,
{
}

/// Det et venstreklikk gjør med hvert vindu.
#[derive(Clone, Copy, Debug, PartialEq, Eq, Structural)]
pub enum Vindushandling {
    DraFlytt,
    DraStoerrelse(Kompassretning),
}

/// Handlingen for hvert vindu når venstre knapp nettopp ble trykket: ingen,
/// flytt, eller endre størrelse mot den valgte retningen.
pub fn juster_camera_stoerrelse_med_dragning(
    action: CameraDragningModus,
    venstre_trykket: bool,
    dir: &ResizeDir,
) -> (r: Option<Vindushandling>)
    requires
        venstre_trykket && action == CameraDragningModus::Resize ==> dir.0 < ANTALL_RETNINGER,
    ensures
        r == (if !venstre_trykket {
            None
        } else {
            match action {
                CameraDragningModus::Nothing => None,
                CameraDragningModus::Move => Some(Vindushandling::DraFlytt),
                CameraDragningModus::Resize => Some(Vindushandling::DraStoerrelse(retning(dir.0 as int))),
            }
        }),
        r matches Some(Vindushandling::DraStoerrelse(k)) ==> grader(k) == 45 * dir.0,
{
    if venstre_trykket {
        match action {
            CameraDragningModus::Nothing => None,
            CameraDragningModus::Move => Some(Vindushandling::DraFlytt),
            CameraDragningModus::Resize => Some(Vindushandling::DraStoerrelse(retning_for(dir.0))),
        }
    } else {
        None
    }
}

/// Tallet `x` lest som `i32` (to-komplement).
pub open spec fn som_i32(x: u32) -> int {
    if x <= i32::MAX {
        x as int
    } else {
        x - 0x1_0000_0000
    }
}

/// Verdien etter å ha dratt `d`: lest som `i32`, lagt til `d`, og ikke under null.
pub open spec fn dratt(x: u32, d: i32) -> u32 {
    let n = som_i32(x) + d;
    if n > 0 {
        n as u32
    } else {
        0
    }
}

/// Dra-summen får plass i `i32`.
pub open spec fn dra_passer(x: u32, d: i32) -> bool {
    i32::MIN <= som_i32(x) + d <= i32::MAX
}

fn som_i32_exec(x: u32) -> (r: i32)
    ensures
        r == som_i32(x),
{
    if x <= 0x7fff_ffff {
        x as i32
    } else {
        let lav: i32 = (x - 0x8000_0000) as i32;
        lav - 0x7fff_ffff - 1
    }
}

fn dra_verdi(x: u32, d: i32) -> (r: u32)
    requires
        dra_passer(x, d),
    ensures
        r == dratt(x, d),
{
    let n: i32 = som_i32_exec(x) + d;
    if n > 0 {
        n as u32
    } else {
        0
    }
}

/// Flytter vektoren med et musedrag som kan være negativt; ingen komponent
/// går under null.
pub fn drag_u32_vektor_med_potensielt_negative_i32_verdier(delta: (i32, i32), u32_vektor: &mut UVektor)
    requires
        dra_passer(old(u32_vektor).x, delta.0),
        dra_passer(old(u32_vektor).y, delta.1),
    ensures
        final(u32_vektor).x == dratt(old(u32_vektor).x, delta.0),
        final(u32_vektor).y == dratt(old(u32_vektor).y, delta.1),
{
    u32_vektor.x = dra_verdi(u32_vektor.x, delta.0);
    u32_vektor.y = dra_verdi(u32_vektor.y, delta.1);
}

fn minste(a: u32, b: u32) -> (r: u32)
    ensures
        r == (if a <= b {
            a
        } else {
            b
        }),
{
    if a <= b {
        a
    } else {
        b
    }
}

/// Størrelsen etter å ha dratt i kameraets hjørne: dratt, men ikke ut av vinduet.
pub open spec fn stoerrelse_etter_drag(vp: Viewport, delta: (i32, i32), window_size: UVektor) -> UVektor {
    let x = dratt(vp.physical_size.x, delta.0);
    let y = dratt(vp.physical_size.y, delta.1);
    let maks_x = (window_size.x - vp.physical_position.x) as u32;
    let maks_y = (window_size.y - vp.physical_position.y) as u32;
    UVektor {
        x: if maks_x <= x {
            maks_x
        } else {
            x
        },
        y: if maks_y <= y {
            maks_y
        } else {
            y
        },
    }
}

/// Endrer størrelsen på kameraets viewport med et musedrag, men aldri ut over
/// vinduet.
pub fn camera_drag_to_resize(delta: (i32, i32), camera: &mut Kamera, window_size: UVektor)
    requires
        old(camera).viewport matches Some(vp) ==> {
            &&& vp.physical_position.x <= window_size.x
            &&& vp.physical_position.y <= window_size.y
            &&& dra_passer(vp.physical_size.x, delta.0)
            &&& dra_passer(vp.physical_size.y, delta.1)
        },
    ensures
        final(camera).target == old(camera).target,
        final(camera).is_active == old(camera).is_active,
        final(camera).viewport == (match old(camera).viewport {
            Some(vp) => Some(
                Viewport {
                    physical_position: vp.physical_position,
                    physical_size: stoerrelse_etter_drag(vp, delta, window_size),
                },
            ),
            None => None,
        }),
        final(camera).viewport matches Some(vp) ==> vp.physical_position.x + vp.physical_size.x
            <= window_size.x && vp.physical_position.y + vp.physical_size.y <= window_size.y,
{
    match camera.viewport {
        Some(viewport) => {
            let mut stoerrelse = viewport.physical_size;
            drag_u32_vektor_med_potensielt_negative_i32_verdier(delta, &mut stoerrelse);
            stoerrelse.x = minste(window_size.x - viewport.physical_position.x, stoerrelse.x);
            stoerrelse.y = minste(window_size.y - viewport.physical_position.y, stoerrelse.y);
            camera.viewport = Some(
                Viewport { physical_position: viewport.physical_position, physical_size: stoerrelse },
            );
        },
        None => {},
    }
}

/// Posisjonen etter å ha dratt kameraet i vinduet: dratt, men ikke så langt at
/// kameraet går ut av vinduet.
pub open spec fn posisjon_etter_drag(vp: Viewport, delta: (i32, i32), window_size: UVektor) -> UVektor {
    let x = dratt(vp.physical_position.x, delta.0);
    let y = dratt(vp.physical_position.y, delta.1);
    let maks_x = (window_size.x - vp.physical_size.x) as u32;
    let maks_y = (window_size.y - vp.physical_size.y) as u32;
    UVektor {
        x: if maks_x <= x {
            maks_x
        } else {
            x
        },
        y: if maks_y <= y {
            maks_y
        } else {
            y
        },
    }
}

/// Flytter kameraets viewport i vinduet med et musedrag, men aldri ut av vinduet.
pub fn camera_drag_to_move_camera_in_the_window(delta: (i32, i32), camera: &mut Kamera, window_size: UVektor)
    requires
        old(camera).viewport matches Some(vp) ==> {
            &&& vp.physical_size.x <= window_size.x
            &&& vp.physical_size.y <= window_size.y
            &&& dra_passer(vp.physical_position.x, delta.0)
            &&& dra_passer(vp.physical_position.y, delta.1)
        },
    ensures
        final(camera).target == old(camera).target,
        final(camera).is_active == old(camera).is_active,
        final(camera).viewport == (match old(camera).viewport {
            Some(vp) => Some(
                Viewport {
                    physical_position: posisjon_etter_drag(vp, delta, window_size),
                    physical_size: vp.physical_size,
                },
            ),
            None => None,
        }),
        final(camera).viewport matches Some(vp) ==> vp.physical_position.x + vp.physical_size.x
            <= window_size.x && vp.physical_position.y + vp.physical_size.y <= window_size.y,
{
    match camera.viewport {
        Some(viewport) => {
            let mut posisjon = viewport.physical_position;
            drag_u32_vektor_med_potensielt_negative_i32_verdier(delta, &mut posisjon);
            posisjon.x = minste(window_size.x - viewport.physical_size.x, posisjon.x);
            posisjon.y = minste(window_size.y - viewport.physical_size.y, posisjon.y);
            camera.viewport = Some(
                Viewport { physical_position: posisjon, physical_size: viewport.physical_size },
            );
        },
        None => {},
    }
}

} // verus!
