use ai_gym::dragning::{
    camera_drag_to_move_camera_in_the_window, camera_drag_to_resize, drag_u32_vektor_med_potensielt_negative_i32_verdier,
    juster_camera_stoerrelse_dragning_retning, juster_camera_stoerrelse_med_dragning, retning_for, CameraDragningJustering,
    CameraDragningModus, Kompassretning, ResizeDir, Vindushandling, ANTALL_RETNINGER,
};
use ai_gym::kamera::{Kamera, RenderTarget, UVektor, Viewport, WindowRef};

fn v(x: u32, y: u32) -> UVektor {
    UVektor { x, y }
}

fn kamera_med(pos: UVektor, size: UVektor) -> Kamera {
    Kamera {
        target: RenderTarget::Window(WindowRef::Entity(3)),
        viewport: Some(Viewport { physical_position: pos, physical_size: size }),
        is_active: true,
    }
}

#[test]
fn standard_er_at_dragning_er_paa() {
    assert_eq!(CameraDragningJustering::default(), CameraDragningJustering::PAA);
}

#[test]
fn s_dreier_mot_klokka_og_d_med_klokka() {
    let mut dir = ResizeDir(7);
    juster_camera_stoerrelse_dragning_retning(&mut dir, true, false);
    assert_eq!(dir.0, 6);
    let mut dir = ResizeDir(0);
    juster_camera_stoerrelse_dragning_retning(&mut dir, true, false);
    assert_eq!(dir.0, 7);
    juster_camera_stoerrelse_dragning_retning(&mut dir, false, true);
    assert_eq!(dir.0, 0);
    juster_camera_stoerrelse_dragning_retning(&mut dir, false, false);
    assert_eq!(dir.0, 0);
}

#[test]
fn s_og_d_samtidig_opphever_hverandre() {
    for d in 0..ANTALL_RETNINGER {
        let mut dir = ResizeDir(d);
        juster_camera_stoerrelse_dragning_retning(&mut dir, true, true);
        assert_eq!(dir.0, d);
        let mut dir = ResizeDir(d);
        juster_camera_stoerrelse_dragning_retning(&mut dir, false, true);
        juster_camera_stoerrelse_dragning_retning(&mut dir, true, false);
        assert_eq!(dir.0, d);
    }
}

#[test]
fn retningene_med_klokka_fra_nord() {
    assert_eq!(retning_for(0), Kompassretning::North);
    assert_eq!(retning_for(2), Kompassretning::East);
    assert_eq!(retning_for(4), Kompassretning::South);
    assert_eq!(retning_for(7), Kompassretning::NorthWest);
}

#[test]
fn venstreklikk_gir_handlingen_for_modusen() {
    let dir = ResizeDir(1);
    assert_eq!(juster_camera_stoerrelse_med_dragning(CameraDragningModus::Resize, true, &dir), Some(Vindushandling::DraStoerrelse(Kompassretning::NorthEast)));
    assert_eq!(juster_camera_stoerrelse_med_dragning(CameraDragningModus::Move, true, &dir), Some(Vindushandling::DraFlytt));
    assert_eq!(juster_camera_stoerrelse_med_dragning(CameraDragningModus::Nothing, true, &dir), None);
    assert_eq!(juster_camera_stoerrelse_med_dragning(CameraDragningModus::Resize, false, &dir), None);
}

#[test]
fn drag_gaar_aldri_under_null() {
    let mut u = v(10, 5);
    drag_u32_vektor_med_potensielt_negative_i32_verdier((-3, -9), &mut u);
    assert_eq!(u, v(7, 0));
    drag_u32_vektor_med_potensielt_negative_i32_verdier((20, 4), &mut u);
    assert_eq!(u, v(27, 4));
}

#[test]
fn store_verdier_leses_som_negative() {
    let mut u = v(3_000_000_000, 4_294_967_295);
    drag_u32_vektor_med_potensielt_negative_i32_verdier((5, 2), &mut u);
    assert_eq!(u, v(0, 1));
}

#[test]
fn stoerrelsen_holdes_inne_i_vinduet() {
    let mut k = kamera_med(v(100, 50), v(200, 100));
    camera_drag_to_resize((500, -30), &mut k, v(800, 600));
    assert_eq!(k.viewport, Some(Viewport { physical_position: v(100, 50), physical_size: v(700, 70) }));
    assert!(k.is_active);
}

#[test]
fn stoerrelse_uten_viewport_er_uendret() {
    let mut k = Kamera { target: RenderTarget::Annet, viewport: None, is_active: false };
    camera_drag_to_resize((5, 5), &mut k, v(10, 10));
    assert_eq!(k.viewport, None);
}

#[test]
fn flytting_holdes_inne_i_vinduet() {
    let mut k = kamera_med(v(100, 50), v(200, 100));
    camera_drag_to_move_camera_in_the_window((1000, -80), &mut k, v(800, 600));
    assert_eq!(k.viewport, Some(Viewport { physical_position: v(600, 0), physical_size: v(200, 100) }));
    camera_drag_to_move_camera_in_the_window((-10, 20), &mut k, v(800, 600));
    assert_eq!(k.viewport, Some(Viewport { physical_position: v(590, 20), physical_size: v(200, 100) }));
}
