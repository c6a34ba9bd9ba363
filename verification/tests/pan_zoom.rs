use glam::{vec2, Vec2};
use node_graph::PanZoom;

fn pan_zoom(pan: Vec2, zoom: f32) -> PanZoom {
    PanZoom { pan, zoom: Vec2::splat(zoom) }
}

#[test]
fn mul_v2_test() {
    let pan_zoom = PanZoom {
        pan: vec2(43.0, 58.0),
        zoom: Vec2::splat(3.0),
    };
    assert_eq!(pan_zoom * vec2(74.0, 34.0), vec2(265.0, 160.0))
}

#[test]
fn mul_self_test() {
    let pan_zoom = PanZoom {
        pan: vec2(43.0, 58.0),
        zoom: Vec2::splat(3.0),
    };
    let another = PanZoom {
        pan: vec2(25.0, 79.0),
        zoom: Vec2::splat(4.0),
    };
    assert_eq!(
        pan_zoom * another,
        PanZoom {
            pan: vec2(118.0, 295.0),
            zoom: Vec2::splat(12.0),
        }
    )
}

#[test]
fn identity_changes_nothing() {
    let id = PanZoom::identity();
    assert_eq!(id.pan, Vec2::ZERO);
    assert_eq!(id.zoom, Vec2::ONE);
    assert_eq!(PanZoom::default(), id);
    assert_eq!(id.logical2screen(vec2(12.5, -3.0)), vec2(12.5, -3.0));
    assert_eq!(id.screen2logical(vec2(12.5, -3.0)), vec2(12.5, -3.0));
}

#[test]
fn apply_scales_then_translates() {
    let t = pan_zoom(vec2(10.0, 20.0), 2.0);
    assert_eq!(t.apply(vec2(1.0, 2.0)), vec2(12.0, 24.0));
    assert_eq!(t.logical2screen(vec2(-5.0, 0.5)), vec2(0.0, 21.0));
}

#[test]
fn inverse_has_reciprocal_zoom_and_negated_scaled_pan() {
    let t = pan_zoom(vec2(10.0, 20.0), 2.0);
    let inv = t.inverse();
    assert_eq!(inv.zoom, Vec2::splat(0.5));
    assert_eq!(inv.pan, vec2(-5.0, -10.0));
    assert_eq!(inv.inverse(), t);
}

#[test]
fn screen_to_logical_round_trip() {
    let t = pan_zoom(vec2(35.0, 23.0), 2.0);
    for p in [vec2(0.0, 0.0), vec2(52.0, 8.0), vec2(-17.5, 40.25)] {
        assert_eq!(t.screen2logical(t.logical2screen(p)), p);
        assert_eq!(t.logical2screen(t.screen2logical(p)), p);
    }
    assert_eq!(t.screen2logical(vec2(35.0, 23.0)), vec2(0.0, 0.0));
    assert_eq!(t.screen2logical(vec2(55.0, 3.0)), vec2(10.0, -10.0));
}

#[test]
fn from_zoom_to_pos_keeps_the_anchor() {
    let p_a = vec2(24.0, 43.0);
    let p_b = vec2(8.0, 58.0);
    let t = PanZoom::from_zoom_to_pos(Vec2::splat(3.0), p_a);
    assert_eq!(t, pan_zoom(vec2(-48.0, -86.0), 3.0));
    assert_eq!(t.logical2screen(p_a), p_a);
    assert_eq!(t.logical2screen(p_b), vec2(-24.0, 88.0));
}

#[test]
fn zoom_to_pos_composes_and_keeps_the_anchor_on_screen() {
    let mut t = pan_zoom(vec2(35.0, 23.0), 2.0);
    t.zoom_to_pos(Vec2::splat(3.0), vec2(94.0, 38.0));
    assert_eq!(t, pan_zoom(vec2(-341.0, -129.0), 6.0));

    let p = vec2(52.0, 8.0);
    let screen_p = t.logical2screen(p);
    let zoom_rate = Vec2::splat(12.0) / t.zoom;
    t.zoom_to_pos(zoom_rate, p);
    assert_eq!(t, pan_zoom(vec2(-653.0, -177.0), 12.0));
    assert_eq!(t.logical2screen(p), screen_p);
}

#[test]
fn composition_is_associative_on_exact_values() {
    let a = pan_zoom(vec2(1.0, 2.0), 2.0);
    let b = pan_zoom(vec2(-3.0, 5.0), 4.0);
    let c = pan_zoom(vec2(7.0, -11.0), 0.5);
    assert_eq!((a * b) * c, a * (b * c));
    assert_eq!(a.compose(PanZoom::identity()), a);
    assert_eq!(PanZoom::identity().compose(a), a);
    let p = vec2(3.0, 4.0);
    assert_eq!((a * b) * p, a * (b * p));
}

#[test]
fn pan_screen_adds_the_delta() {
    let mut t = pan_zoom(vec2(1.0, 2.0), 2.0);
    t.pan_screen(vec2(10.0, -4.0));
    assert_eq!(t, pan_zoom(vec2(11.0, -2.0), 2.0));
}

#[test]
fn pan_logical_adds_the_scaled_delta() {
    let mut t = pan_zoom(vec2(1.0, 2.0), 2.0);
    t.pan_logical(vec2(10.0, -4.0));
    assert_eq!(t, pan_zoom(vec2(21.0, -6.0), 2.0));
}
