use ai_gym::kamera::{
    adjust_camera_viewport_according_to_settings, kamera_posisjon, set_camera_viewports, standard_kamera_innstilling, CameraMode,
    CameraViewportSetting, Kamera, KnappMenyKamera, PlassertKamera, RenderTarget, UVektor, Viewport, Vindu, WindowRef, WindowResized,
};

fn v(x: u32, y: u32) -> UVektor {
    UVektor { x, y }
}

fn kamera(target: RenderTarget) -> Kamera {
    Kamera { target, viewport: None, is_active: true }
}

fn plassert(pos: UVektor, aktiv: usize, target: RenderTarget) -> PlassertKamera {
    PlassertKamera { pos, innstilling: standard_kamera_innstilling(aktiv), kamera: kamera(target) }
}

const SEKUNDAER: RenderTarget = RenderTarget::Window(WindowRef::Entity(42));

#[test]
fn modusene_gaar_i_ring() {
    let mut s = standard_kamera_innstilling(1);
    assert_eq!(s.get_camera_mode(), CameraMode::KVART);
    s.next_camera_mode_index();
    assert_eq!(s.get_camera_mode(), CameraMode::AV);
    s.next_camera_mode_index();
    assert_eq!(s.get_camera_mode(), CameraMode::HEL);
    s.next_camera_mode_index();
    assert_eq!(s.active_camera_mode_index, 0);
    assert_eq!(s.get_camera_mode(), CameraMode::HALV);
    s.next_camera_mode_index();
    assert_eq!(s.active_camera_mode_index, 1);
}

#[test]
fn en_enkelt_modus_blir_staaende() {
    let mut s = CameraViewportSetting { camera_modes: vec![CameraMode::HEL], active_camera_mode_index: 0 };
    s.next_camera_mode_index();
    assert_eq!(s.active_camera_mode_index, 0);
}

#[test]
fn kameraposisjonene_i_rutenettet() {
    assert_eq!(kamera_posisjon(0), v(0, 0));
    assert_eq!(kamera_posisjon(1), v(1, 0));
    assert_eq!(kamera_posisjon(2), v(0, 1));
    assert_eq!(kamera_posisjon(5), v(1, 2));
}

#[test]
fn maalet_til_kameraet() {
    let primaer = RenderTarget::Window(WindowRef::Primary);
    assert!(primaer.is_window_target_primary());
    assert_eq!(primaer.get_window_target_entity(), None);
    assert!(!SEKUNDAER.is_window_target_primary());
    assert_eq!(SEKUNDAER.get_window_target_entity(), Some(42));
    assert!(!RenderTarget::Annet.is_window_target_primary());
    assert_eq!(RenderTarget::Annet.get_window_target_entity(), None);
}

#[test]
fn justering_etter_hver_modus() {
    let vindu = v(800, 600);
    let kvart = v(400, 300);
    let halv = v(400, 600);
    let pos = v(1, 0);
    let mut k = kamera(RenderTarget::Annet);
    adjust_camera_viewport_according_to_settings(vindu, kvart, halv, &pos, &mut k, &standard_kamera_innstilling(0));
    assert_eq!(k.viewport, Some(Viewport { physical_position: v(400, 0), physical_size: v(400, 600) }));
    assert!(k.is_active);
    adjust_camera_viewport_according_to_settings(vindu, kvart, halv, &pos, &mut k, &standard_kamera_innstilling(1));
    assert_eq!(k.viewport, Some(Viewport { physical_position: v(400, 0), physical_size: v(400, 300) }));
    adjust_camera_viewport_according_to_settings(vindu, kvart, halv, &pos, &mut k, &standard_kamera_innstilling(3));
    assert_eq!(k.viewport, Some(Viewport { physical_position: v(0, 0), physical_size: v(800, 600) }));
    adjust_camera_viewport_according_to_settings(vindu, kvart, halv, &pos, &mut k, &standard_kamera_innstilling(2));
    assert_eq!(k.viewport, Some(Viewport { physical_position: v(0, 0), physical_size: v(800, 600) }));
    assert!(!k.is_active);
    adjust_camera_viewport_according_to_settings(vindu, kvart, halv, &pos, &mut k, &standard_kamera_innstilling(1));
    assert!(k.is_active);
}

fn meny() -> KnappMenyKamera {
    KnappMenyKamera { y_hoeyde: 50, kamera: kamera(SEKUNDAER) }
}

#[test]
fn hovedvinduet_endres_bare_for_kameraer_i_hovedvinduet() {
    let mut kameraer = vec![
        plassert(v(0, 0), 3, RenderTarget::Window(WindowRef::Primary)),
        plassert(v(0, 0), 1, SEKUNDAER),
    ];
    let mut m = meny();
    let hendelser = vec![WindowResized { window: 1, funnet: Some(Vindu { primaer: true, physical_size: v(1000, 500) }) }];
    set_camera_viewports(&hendelser, &mut m, &mut kameraer);
    assert_eq!(kameraer[0].kamera.viewport, Some(Viewport { physical_position: v(0, 0), physical_size: v(1000, 500) }));
    assert_eq!(kameraer[1].kamera.viewport, None);
    assert_eq!(m.kamera.viewport, None);
}

#[test]
fn sekundaervinduet_deles_uten_menyen() {
    let mut kameraer = vec![
        plassert(v(0, 0), 1, SEKUNDAER),
        plassert(v(0, 1), 1, SEKUNDAER),
        plassert(v(0, 0), 1, RenderTarget::Window(WindowRef::Entity(7))),
        plassert(v(1, 0), 0, RenderTarget::Annet),
        plassert(v(0, 0), 0, RenderTarget::Window(WindowRef::Primary)),
    ];
    let mut m = meny();
    let hendelser = vec![WindowResized { window: 42, funnet: Some(Vindu { primaer: false, physical_size: v(800, 650) }) }];
    set_camera_viewports(&hendelser, &mut m, &mut kameraer);
    assert_eq!(kameraer[0].kamera.viewport, Some(Viewport { physical_position: v(0, 0), physical_size: v(400, 300) }));
    assert_eq!(kameraer[1].kamera.viewport, Some(Viewport { physical_position: v(0, 300), physical_size: v(400, 300) }));
    assert_eq!(kameraer[2].kamera.viewport, None);
    assert_eq!(kameraer[3].kamera.viewport, Some(Viewport { physical_position: v(400, 0), physical_size: v(400, 600) }));
    assert_eq!(kameraer[4].kamera.viewport, None);
    assert_eq!(m.kamera.viewport, Some(Viewport { physical_position: v(0, 600), physical_size: v(800, 50) }));
    assert_eq!(m.y_hoeyde, 50);
}

#[test]
fn et_forsvunnet_vindu_endrer_ingenting() {
    let mut kameraer = vec![plassert(v(0, 0), 1, SEKUNDAER)];
    let mut m = meny();
    set_camera_viewports(&vec![WindowResized { window: 42, funnet: None }], &mut m, &mut kameraer);
    assert_eq!(kameraer[0].kamera.viewport, None);
    assert_eq!(m.kamera.viewport, None);
}

#[test]
fn av_slaar_av_kameraet_og_lar_viewporten_vaere() {
    let mut kameraer = vec![plassert(v(0, 0), 2, SEKUNDAER)];
    let mut m = meny();
    let hendelser = vec![WindowResized { window: 42, funnet: Some(Vindu { primaer: false, physical_size: v(100, 100) }) }];
    set_camera_viewports(&hendelser, &mut m, &mut kameraer);
    assert!(!kameraer[0].kamera.is_active);
    assert_eq!(kameraer[0].kamera.viewport, None);
}

#[test]
fn samme_endring_to_ganger_gir_det_samme_som_en() {
    let lag = || vec![plassert(v(0, 1), 1, SEKUNDAER), plassert(v(1, 0), 0, RenderTarget::Window(WindowRef::Primary))];
    let h = WindowResized { window: 42, funnet: Some(Vindu { primaer: false, physical_size: v(640, 480) }) };
    let mut en = lag();
    let mut m1 = meny();
    set_camera_viewports(&vec![h], &mut m1, &mut en);
    let mut to = lag();
    let mut m2 = meny();
    set_camera_viewports(&vec![h, h], &mut m2, &mut to);
    assert_eq!(m1, m2);
    for i in 0..2 {
        assert_eq!(en[i].kamera, to[i].kamera);
    }
}

#[test]
fn endringer_haandteres_i_rekkefoelge() {
    let mut kameraer = vec![plassert(v(0, 0), 3, SEKUNDAER)];
    let mut m = meny();
    let hendelser = vec![
        WindowResized { window: 42, funnet: Some(Vindu { primaer: false, physical_size: v(100, 150) }) },
        WindowResized { window: 42, funnet: Some(Vindu { primaer: false, physical_size: v(300, 250) }) },
    ];
    set_camera_viewports(&hendelser, &mut m, &mut kameraer);
    assert_eq!(kameraer[0].kamera.viewport, Some(Viewport { physical_position: v(0, 0), physical_size: v(300, 200) }));
    assert_eq!(m.kamera.viewport, Some(Viewport { physical_position: v(0, 200), physical_size: v(300, 50) }));
}
