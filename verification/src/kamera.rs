//! Heltallslogikken for kameraene: hvilken del av vinduet hvert kamera viser,
//! og hvordan det endres når vinduet får ny størrelse.
use vstd::prelude::*;

verus! {

/// En vektor av to fysiske piksel-størrelser.
#[derive(Clone, Copy, Debug, PartialEq, Eq, Structural)]
pub struct UVektor {
    pub x: u32,
    pub y: u32,
}

/// Den delen av vinduet som et kamera tegner i, i fysiske piksler.
#[derive(Clone, Copy, Debug, PartialEq, Eq, Structural)]
pub struct Viewport {
    pub physical_position: UVektor,
    pub physical_size: UVektor,
}

/// Hvor stor del av vinduet et kamera skal dekke.
#[derive(Clone, Copy, Debug, PartialEq, Eq, Structural)]
pub enum CameraMode {
    KVART,
    HALV,
    HEL,
    AV,
}

/// Modusene et kamera veksler mellom, og hvilken av dem som er aktiv.
pub struct CameraViewportSetting {
    pub camera_modes: Vec<CameraMode>,
    pub active_camera_mode_index: usize,
}

impl CameraViewportSetting {
    /// Den aktive modusen.
    pub open spec fn modus(&self) -> CameraMode {
        self.camera_modes@[self.active_camera_mode_index as int]
    }

    /// Går videre til neste modus, og rundt til den første etter den siste.
    pub fn next_camera_mode_index(&mut self)
        requires
            old(self).camera_modes@.len() > 0,
            old(self).active_camera_mode_index < usize::MAX,
        ensures
            final(self).camera_modes@ == old(self).camera_modes@,
            final(self).active_camera_mode_index == (old(self).active_camera_mode_index + 1) % (
            old(self).camera_modes@.len() as int),
    {
        self.active_camera_mode_index = (self.active_camera_mode_index + 1) % self.camera_modes.len();
    }

    /// Den aktive modusen.
    pub fn get_camera_mode(&self) -> (r: CameraMode)
        requires
            self.active_camera_mode_index < self.camera_modes@.len(),
        ensures
            r == self.modus(),
    {
        self.camera_modes[self.active_camera_mode_index]
    }
}

/// Modusindeksen etter `k` skritt fra `i` blant `n` moduser.
pub open spec fn indeks_etter(i: int, n: int, k: nat) -> int
    decreases k,
{
    if k == 0 {
        i
    } else {
        (indeks_etter(i, n, (k - 1) as nat) + 1) % n
    }
}

proof fn lemma_indeks_etter(i: int, n: int, k: nat)
    requires
        0 <= i < n,
    ensures
        indeks_etter(i, n, k) == (i + k) % n,
    decreases k,
{
    if k > 0 {
        lemma_indeks_etter(i, n, (k - 1) as nat);
        let a = i + k - 1;
        assert(((a % n) + 1) % n == (a + 1) % n) by {
            vstd::arithmetic::div_mod::lemma_add_mod_noop_right(1, a, n);
        }
    } else {
        vstd::arithmetic::div_mod::lemma_small_mod(i as nat, n as nat);
    }
}

/// Å bytte modus like mange ganger som det finnes moduser gir tilbake
/// modusen man startet med.
pub proof fn lov_modusene_gaar_i_ring(innstilling: CameraViewportSetting)
    requires
        innstilling.active_camera_mode_index < innstilling.camera_modes@.len(),
    ensures
        indeks_etter(
            innstilling.active_camera_mode_index as int,
            innstilling.camera_modes@.len() as int,
            innstilling.camera_modes@.len(),
        ) == innstilling.active_camera_mode_index,
{
    let i = innstilling.active_camera_mode_index as int;
    let n = innstilling.camera_modes@.len() as int;
    lemma_indeks_etter(i, n, n as nat);
    vstd::arithmetic::div_mod::lemma_mod_add_multiples_vanish(i, n);
    vstd::arithmetic::div_mod::lemma_small_mod(i as nat, n as nat);
}

/// Standardinnstillingen for kameraene: halv, kvart, av, hel.
pub fn standard_kamera_innstilling(active_camera_mode_index: usize) -> (r: CameraViewportSetting)
    ensures
        r.camera_modes@ == seq![CameraMode::HALV, CameraMode::KVART, CameraMode::AV, CameraMode::HEL],
        r.active_camera_mode_index == active_camera_mode_index,
{
    CameraViewportSetting {
        camera_modes: vec![CameraMode::HALV, CameraMode::KVART, CameraMode::AV, CameraMode::HEL],
        active_camera_mode_index,
    }
}

/// Rutenettposisjonen til kamera nummer `n`: to kolonner, radvis.
pub fn kamera_posisjon(n: u32) -> (r: UVektor)
    ensures
        r.x == n % 2,
        r.y == n / 2,
{
    UVektor { x: n % 2, y: n / 2 }
}

/// Vinduet et kamera tegner til.
#[derive(Clone, Copy, Debug, PartialEq, Eq, Structural)]
pub enum WindowRef {
    Primary,
    /// Et annet vindu, gitt ved entitetens id.
    Entity(u64),
}

/// Hva et kamera tegner til: et vindu, eller noe annet (et bilde, en tekstur).
#[derive(Clone, Copy, Debug, PartialEq, Eq, Structural)]
pub enum RenderTarget {
    Window(WindowRef),
    Annet,
}

/// Kameraet tegner til hovedvinduet.
pub open spec fn er_primaer_maal(t: RenderTarget) -> bool {
    t == RenderTarget::Window(WindowRef::Primary)
}

/// Vindusentiteten kameraet tegner til, når det er et annet vindu enn hovedvinduet.
pub open spec fn maal_entitet(t: RenderTarget) -> Option<u64> {
    match t {
        RenderTarget::Window(WindowRef::Entity(e)) => Some(e),
        _ => None,
    }
}

impl RenderTarget {
    pub fn is_window_target_primary(&self) -> (r: bool)
        ensures
            r == er_primaer_maal(*self),
    {
        match self {
            RenderTarget::Window(window_ref) => {
                match window_ref {
                    WindowRef::Primary => true,
                    _ => false,
                }
            },
            _ => false,
        }
    }

    pub fn get_window_target_entity(&self) -> (r: Option<u64>)
        ensures
            r == maal_entitet(*self),
    {
        match self {
            RenderTarget::Window(window_ref) => {
                match window_ref {
                    WindowRef::Primary => None,
                    WindowRef::Entity(entity) => Some(*entity),
                }
            },
            _ => None,
        }
    }
}

/// Det et kamera viser: målet, delen av vinduet og om det er på.
#[derive(Clone, Copy, Debug, PartialEq, Eq, Structural)]
pub struct Kamera {
    pub target: RenderTarget,
    pub viewport: Option<Viewport>,
    pub is_active: bool,
}

/// Komponentvis produkt.
pub open spec fn ganget(a: UVektor, b: UVektor) -> UVektor {
    UVektor { x: (a.x * b.x) as u32, y: (a.y * b.y) as u32 }
}

/// Komponentvis produkt får plass i `u32`.
pub open spec fn ganget_passer(a: UVektor, b: UVektor) -> bool {
    a.x * b.x <= u32::MAX && a.y * b.y <= u32::MAX
}

/// Viewporten et kamera på posisjon `pos` får i modusen `modus`.
pub open spec fn viewport_for(
    modus: CameraMode,
    window_size: UVektor,
    kvart: UVektor,
    halv: UVektor,
    pos: UVektor,
) -> Viewport {
    match modus {
        CameraMode::HALV => Viewport { physical_position: ganget(pos, halv), physical_size: halv },
        CameraMode::KVART => Viewport { physical_position: ganget(pos, kvart), physical_size: kvart },
        CameraMode::HEL => Viewport { physical_position: UVektor { x: 0, y: 0 }, physical_size: window_size },
        CameraMode::AV => Viewport {
            physical_position: UVektor { x: 0, y: 0 },
            physical_size: UVektor { x: 0, y: 0 },
        },
    }
}

/// Posisjonen kan regnes ut uten overflyt i modusen `modus`.
pub open spec fn kan_plasseres(modus: CameraMode, kvart: UVektor, halv: UVektor, pos: UVektor) -> bool {
    match modus {
        CameraMode::HALV => ganget_passer(pos, halv),
        CameraMode::KVART => ganget_passer(pos, kvart),
        _ => true,
    }
}

/// Kameraet etter justering til modusen: av slår kameraet av og lar viewporten
/// være; ellers får det viewporten til modusen og slås på.
pub open spec fn justert_kamera(
    k: Kamera,
    modus: CameraMode,
    window_size: UVektor,
    kvart: UVektor,
    halv: UVektor,
    pos: UVektor,
) -> Kamera {
    if modus == CameraMode::AV {
        Kamera { is_active: false, ..k }
    } else {
        Kamera { viewport: Some(viewport_for(modus, window_size, kvart, halv, pos)), is_active: true, ..k }
    }
}

fn ganget_exec(a: UVektor, b: UVektor) -> (r: UVektor)
    requires
        ganget_passer(a, b),
    ensures
        r == ganget(a, b),
{
    UVektor { x: a.x * b.x, y: a.y * b.y }
}

/// Setter viewporten og om kameraet er på etter kameraets aktive modus.
pub fn adjust_camera_viewport_according_to_settings(
    window_size: UVektor,
    kvart_skjerm_stoerrelse: UVektor,
    halv_skjerm_stoerrelse: UVektor,
    camera_position: &UVektor,
    camera: &mut Kamera,
    viewport_settings: &CameraViewportSetting,
)
    requires
        viewport_settings.active_camera_mode_index < viewport_settings.camera_modes@.len(),
        kan_plasseres(
            viewport_settings.modus(),
            kvart_skjerm_stoerrelse,
            halv_skjerm_stoerrelse,
            *camera_position,
        ),
    ensures
        *final(camera) == justert_kamera(
            *old(camera),
            viewport_settings.modus(),
            window_size,
            kvart_skjerm_stoerrelse,
            halv_skjerm_stoerrelse,
            *camera_position,
        ),
{
    let modus = viewport_settings.get_camera_mode();
    if modus != CameraMode::AV {
        let physical_position = match modus {
            CameraMode::HALV => ganget_exec(*camera_position, halv_skjerm_stoerrelse),
            CameraMode::KVART => ganget_exec(*camera_position, kvart_skjerm_stoerrelse),
            CameraMode::AV => UVektor { x: 0, y: 0 },
            CameraMode::HEL => UVektor { x: 0, y: 0 },
        };
        let physical_size = match modus {
            CameraMode::HALV => halv_skjerm_stoerrelse,
            CameraMode::KVART => kvart_skjerm_stoerrelse,
            CameraMode::AV => UVektor { x: 0, y: 0 },
            CameraMode::HEL => window_size,
        };
        camera.viewport = Some(Viewport { physical_position, physical_size });
    }
    if modus == CameraMode::AV {
        camera.is_active = false;
    } else if !camera.is_active {
        camera.is_active = true;
    }
}

/// Et kamera med fast plass i rutenettet og en modusinnstilling.
pub struct PlassertKamera {
    pub pos: UVektor,
    pub innstilling: CameraViewportSetting,
    pub kamera: Kamera,
}

/// Knappemenykameraet: en stripe med fast høyde nederst i et sekundærvindu.
#[derive(Clone, Copy, Debug, PartialEq, Eq, Structural)]
pub struct KnappMenyKamera {
    pub y_hoeyde: u32,
    pub kamera: Kamera,
}

/// Et vindu slik det ble funnet: hovedvinduet eller et sekundærvindu.
#[derive(Clone, Copy, Debug, PartialEq, Eq, Structural)]
pub struct Vindu {
    pub primaer: bool,
    pub physical_size: UVektor,
}

/// Et vindu (ved entitetens id) har fått ny størrelse; `funnet` er vinduet
/// slik det ble funnet, eller ingenting når det ikke finnes lenger.
#[derive(Clone, Copy, Debug, PartialEq, Eq, Structural)]
pub struct WindowResized {
    pub window: u64,
    pub funnet: Option<Vindu>,
}

/// Kvart skjerm: halv bredde og halv høyde.
pub open spec fn kvart_av(w: UVektor) -> UVektor {
    UVektor { x: (w.x / 2) as u32, y: (w.y / 2) as u32 }
}

/// Halv skjerm: halv bredde og full høyde.
pub open spec fn halv_av(w: UVektor) -> UVektor {
    UVektor { x: (w.x / 2) as u32, y: w.y }
}

/// Plassen kameraene har: hele hovedvinduet, eller sekundærvinduet uten
/// knappemenyen nederst.
pub open spec fn tilgjengelig(v: Vindu, meny_hoeyde: u32) -> UVektor {
    if v.primaer {
        v.physical_size
    } else {
        UVektor { x: v.physical_size.x, y: (v.physical_size.y - meny_hoeyde) as u32 }
    }
}

/// Kameraet med målet `t` skal justeres når vinduet i `h` endres: kameraer i
/// hovedvinduet ved endring av hovedvinduet; ellers kameraer som ikke er i
/// hovedvinduet, og ikke i et annet sekundærvindu.
pub open spec fn justeres(t: RenderTarget, h: WindowResized) -> bool {
    match h.funnet {
        None => false,
        Some(v) => if v.primaer {
            er_primaer_maal(t)
        } else {
            !er_primaer_maal(t) && (maal_entitet(t) is None || maal_entitet(t) == Some(h.window))
        },
    }
}

/// Kameraet etter vindusendringen `h`.
pub open spec fn kamera_etter(p: PlassertKamera, h: WindowResized, meny_hoeyde: u32) -> Kamera {
    if justeres(p.kamera.target, h) {
        let w = tilgjengelig(h.funnet->0, meny_hoeyde);
        justert_kamera(p.kamera, p.innstilling.modus(), w, kvart_av(w), halv_av(w), p.pos)
    } else {
        p.kamera
    }
}

/// Knappemenyen etter vindusendringen `h`: ved endring av et sekundærvindu
/// legges den nederst i vinduet, i full bredde.
pub open spec fn meny_etter(m: KnappMenyKamera, h: WindowResized) -> KnappMenyKamera {
    match h.funnet {
        Some(v) => if !v.primaer {
            let w = tilgjengelig(v, m.y_hoeyde);
            KnappMenyKamera {
                kamera: Kamera {
                    viewport: Some(
                        Viewport {
                            physical_position: UVektor { x: 0, y: w.y },
                            physical_size: UVektor { x: w.x, y: m.y_hoeyde },
                        },
                    ),
                    ..m.kamera
                },
                ..m
            }
        } else {
            m
        },
        None => m,
    }
}

/// Alle kameraene etter én vindusendring.
pub open spec fn steg(ps: Seq<PlassertKamera>, h: WindowResized, meny_hoeyde: u32) -> Seq<PlassertKamera> {
    Seq::new(
        ps.len(),
        |j: int| PlassertKamera { kamera: kamera_etter(ps[j], h, meny_hoeyde), ..ps[j] },
    )
}

/// Kameraene etter vindusendringene i rekkefølge.
pub open spec fn kameraer_etter(ps: Seq<PlassertKamera>, hs: Seq<WindowResized>, meny_hoeyde: u32) -> Seq<
    PlassertKamera,
>
    decreases hs.len(),
{
    if hs.len() == 0 {
        ps
    } else {
        steg(kameraer_etter(ps, hs.drop_last(), meny_hoeyde), hs.last(), meny_hoeyde)
    }
}

/// Knappemenyen etter vindusendringene i rekkefølge.
pub open spec fn meny_etter_alle(m: KnappMenyKamera, hs: Seq<WindowResized>) -> KnappMenyKamera
    decreases hs.len(),
{
    if hs.len() == 0 {
        m
    } else {
        meny_etter(meny_etter_alle(m, hs.drop_last()), hs.last())
    }
}

/// Vindusendringen kan håndteres uten å gå i stykker: sekundærvinduet er minst
/// like høyt som menyen.
pub open spec fn endring_passer(h: WindowResized, meny_hoeyde: u32) -> bool {
    match h.funnet {
        Some(v) => !v.primaer ==> v.physical_size.y >= meny_hoeyde,
        None => true,
    }
}

/// Kameraet kan justeres for endringen: har en aktiv modus og får en posisjon
/// uten overflyt.
pub open spec fn kamera_passer(p: PlassertKamera, h: WindowResized, meny_hoeyde: u32) -> bool {
    justeres(p.kamera.target, h) ==> {
        let w = tilgjengelig(h.funnet->0, meny_hoeyde);
        &&& p.innstilling.active_camera_mode_index < p.innstilling.camera_modes@.len()
        &&& kan_plasseres(p.innstilling.modus(), kvart_av(w), halv_av(w), p.pos)
    }
}

/// Samme plass, innstilling og mål: bare viewporten og om kameraet er på, kan
/// ha endret seg.
pub open spec fn samme_oppsett(a: PlassertKamera, b: PlassertKamera) -> bool {
    &&& a.pos == b.pos
    &&& a.innstilling.camera_modes@ == b.innstilling.camera_modes@
    &&& a.innstilling.active_camera_mode_index == b.innstilling.active_camera_mode_index
    &&& a.kamera.target == b.kamera.target
}

proof fn lemma_oppsett_bevares(ps: Seq<PlassertKamera>, hs: Seq<WindowResized>, meny_hoeyde: u32)
    ensures
        kameraer_etter(ps, hs, meny_hoeyde).len() == ps.len(),
        forall|j: int|
            0 <= j < ps.len() ==> samme_oppsett(#[trigger] kameraer_etter(ps, hs, meny_hoeyde)[j], ps[j]),
    decreases hs.len(),
{
    if hs.len() > 0 {
        lemma_oppsett_bevares(ps, hs.drop_last(), meny_hoeyde);
    }
}

fn tilgjengelig_exec(v: Vindu, meny_hoeyde: u32) -> (r: UVektor)
    requires
        !v.primaer ==> v.physical_size.y >= meny_hoeyde,
    ensures
        r == tilgjengelig(v, meny_hoeyde),
{
    if v.primaer {
        v.physical_size
    } else {
        UVektor { x: v.physical_size.x, y: v.physical_size.y - meny_hoeyde }
    }
}

/// Håndterer én vindusendring for alle kameraene og knappemenyen.
fn juster_for_endring(
    h: &WindowResized,
    knapp_meny: &mut KnappMenyKamera,
    kameraer: &mut Vec<PlassertKamera>,
)
    requires
        endring_passer(*h, old(knapp_meny).y_hoeyde),
        forall|j: int|
            0 <= j < old(kameraer)@.len() ==> kamera_passer(
                #[trigger] old(kameraer)@[j],
                *h,
                old(knapp_meny).y_hoeyde,
            ),
    ensures
        final(kameraer)@ == steg(old(kameraer)@, *h, old(knapp_meny).y_hoeyde),
        *final(knapp_meny) == meny_etter(*old(knapp_meny), *h),
{
    let ghost gamle = kameraer@;
    let hoeyde = knapp_meny.y_hoeyde;
    match h.funnet {
        None => {
            proof {
                assert(kameraer@ =~= steg(gamle, *h, hoeyde));
            }
        },
        Some(vindu) => {
            let w = tilgjengelig_exec(vindu, hoeyde);
            let kvart = UVektor { x: w.x / 2, y: w.y / 2 };
            let halv = UVektor { x: w.x / 2, y: w.y };
            let mut j: usize = 0;
            while j < kameraer.len()
                invariant
                    h.funnet == Some(vindu),
                    w == tilgjengelig(vindu, hoeyde),
                    kvart == kvart_av(w),
                    halv == halv_av(w),
                    hoeyde == old(knapp_meny).y_hoeyde,
                    gamle == old(kameraer)@,
                    kameraer@.len() == gamle.len(),
                    j <= kameraer@.len(),
                    forall|a: int| 0 <= a < gamle.len() ==> kamera_passer(#[trigger] gamle[a], *h, hoeyde),
                    forall|a: int|
                        0 <= a < j ==> #[trigger] kameraer@[a] == steg(gamle, *h, hoeyde)[a],
                    forall|a: int| j <= a < gamle.len() ==> #[trigger] kameraer@[a] == gamle[a],
                decreases gamle.len() - j,
            {
                let mut pk = kameraer.remove(j);
                proof {
                    assert(pk == gamle[j as int]);
                }
                let skal_justeres = if vindu.primaer {
                    pk.kamera.target.is_window_target_primary()
                } else if pk.kamera.target.is_window_target_primary() {
                    false
                } else {
                    match pk.kamera.target.get_window_target_entity() {
                        Some(entity) => entity == h.window,
                        None => true,
                    }
                };
                if skal_justeres {
                    adjust_camera_viewport_according_to_settings(
                        w,
                        kvart,
                        halv,
                        &pk.pos,
                        &mut pk.kamera,
                        &pk.innstilling,
                    );
                }
                let ghost ny = pk;
                kameraer.insert(j, pk);
                proof {
                    assert(ny == steg(gamle, *h, hoeyde)[j as int]);
                }
                j = j + 1;
            }
            proof {
                assert(kameraer@ =~= steg(gamle, *h, hoeyde));
            }
            if !vindu.primaer {
                knapp_meny.kamera.viewport = Some(
                    Viewport {
                        physical_position: UVektor { x: 0, y: w.y },
                        physical_size: UVektor { x: w.x, y: hoeyde },
                    },
                );
            }
        },
    }
}

/// Justerer viewportene etter vindusendringene, i rekkefølge: kameraene i
/// vinduet som endret seg fyller det etter sin modus, og knappemenyen legges
/// nederst i sekundærvinduet.
pub fn set_camera_viewports(
    resize_events: &Vec<WindowResized>,
    knapp_meny: &mut KnappMenyKamera,
    kameraer: &mut Vec<PlassertKamera>,
)
    requires
        forall|i: int|
            0 <= i < resize_events@.len() ==> endring_passer(
                #[trigger] resize_events@[i],
                old(knapp_meny).y_hoeyde,
            ),
        forall|i: int, j: int|
            0 <= i < resize_events@.len() && 0 <= j < old(kameraer)@.len() ==> kamera_passer(
                #[trigger] old(kameraer)@[j],
                #[trigger] resize_events@[i],
                old(knapp_meny).y_hoeyde,
            ),
    ensures
        final(kameraer)@ == kameraer_etter(old(kameraer)@, resize_events@, old(knapp_meny).y_hoeyde),
        *final(knapp_meny) == meny_etter_alle(*old(knapp_meny), resize_events@),
{
    let ghost gamle = kameraer@;
    let ghost gammel_meny = *knapp_meny;
    let mut i: usize = 0;
    while i < resize_events.len()
        invariant
            i <= resize_events@.len(),
            gamle == old(kameraer)@,
            gammel_meny == *old(knapp_meny),
            knapp_meny.y_hoeyde == gammel_meny.y_hoeyde,
            kameraer@ == kameraer_etter(gamle, resize_events@.take(i as int), gammel_meny.y_hoeyde),
            *knapp_meny == meny_etter_alle(gammel_meny, resize_events@.take(i as int)),
            forall|a: int|
                0 <= a < resize_events@.len() ==> endring_passer(
                    #[trigger] resize_events@[a],
                    gammel_meny.y_hoeyde,
                ),
            forall|a: int, b: int|
                0 <= a < resize_events@.len() && 0 <= b < gamle.len() ==> kamera_passer(
                    #[trigger] gamle[b],
                    #[trigger] resize_events@[a],
                    gammel_meny.y_hoeyde,
                ),
        decreases resize_events@.len() - i,
    {
        let ghost foer = resize_events@.take(i as int);
        proof {
            lemma_oppsett_bevares(gamle, foer, gammel_meny.y_hoeyde);
            assert forall|b: int| 0 <= b < kameraer@.len() implies kamera_passer(
                #[trigger] kameraer@[b],
                resize_events@[i as int],
                gammel_meny.y_hoeyde,
            ) by {
                assert(samme_oppsett(kameraer@[b], gamle[b]));
                assert(kamera_passer(gamle[b], resize_events@[i as int], gammel_meny.y_hoeyde));
            }
        }
        juster_for_endring(&resize_events[i], knapp_meny, kameraer);
        proof {
            let etter = resize_events@.take(i + 1);
            assert(etter.drop_last() =~= foer);
            assert(etter.last() == resize_events@[i as int]);
        }
        i = i + 1;
    }
    proof {
        assert(resize_events@.take(i as int) =~= resize_events@);
    }
}

/// Samme vindusendring to ganger gir det samme som én gang: viewportene
/// avhenger bare av vindusstørrelsen og kameraenes innstillinger.
pub proof fn lov_samme_endring_to_ganger(
    ps: Seq<PlassertKamera>,
    m: KnappMenyKamera,
    h: WindowResized,
)
    ensures
        steg(steg(ps, h, m.y_hoeyde), h, m.y_hoeyde) == steg(ps, h, m.y_hoeyde),
        meny_etter(meny_etter(m, h), h) == meny_etter(m, h),
{
    let en = steg(ps, h, m.y_hoeyde);
    let to = steg(en, h, m.y_hoeyde);
    assert forall|j: int| 0 <= j < ps.len() implies #[trigger] to[j] == en[j] by {
        assert(en[j].kamera.target == ps[j].kamera.target);
    }
    assert(to =~= en);
}

} // verus!
