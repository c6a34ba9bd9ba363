//! The viewport's transform between logical and screen space.

use vstd::prelude::*;

use crate::vector::{
    vec2_add, vec2_difference, vec2_div, vec2_from_ints, vec2_lower, vec2_max, vec2_min, vec2_mul,
    vec2_neg, vec2_negation, vec2_of_ints, vec2_one, vec2_product, vec2_quotient, vec2_recip,
    vec2_reciprocal, vec2_sub, vec2_sum, vec2_upper, vec2_zero,
};
use glam::Vec2;

verus! {

/// A transform made of a scale and a translation: a logical point `p` is
/// drawn at `zoom * p + pan` on the screen.
///
/// The scale is held as a vector that carries the factor in both components,
/// so that every step of the algebra is one vector operation.
#[derive(Debug, Clone, Copy, PartialEq)]
pub struct PanZoom {
    /// Where the logical origin is drawn.
    pub pan: Vec2,
    /// The scale, the same factor in each component.
    pub zoom: Vec2,
}

impl PanZoom {
    /// The transform that changes nothing: no translation, scale one.
    pub open spec fn spec_identity() -> PanZoom {
        PanZoom { pan: vec2_zero(), zoom: vec2_one() }
    }

    /// Where this transform draws the logical point `p`.
    pub open spec fn spec_apply(self, p: Vec2) -> Vec2 {
        vec2_sum(vec2_product(self.zoom, p), self.pan)
    }

    /// The transform that applies `rhs` first and `self` to its result.
    pub open spec fn spec_compose(self, rhs: PanZoom) -> PanZoom {
        PanZoom {
            pan: vec2_sum(self.pan, vec2_product(rhs.pan, self.zoom)),
            zoom: vec2_product(self.zoom, rhs.zoom),
        }
    }

    /// The transform that takes screen points back to logical ones.
    pub open spec fn spec_inverse(self) -> PanZoom {
        PanZoom {
            pan: vec2_product(vec2_negation(self.pan), vec2_reciprocal(self.zoom)),
            zoom: vec2_reciprocal(self.zoom),
        }
    }

    /// The transform with scale `zoom` that leaves the point `pos` where it is.
    pub open spec fn spec_from_zoom_to_pos(zoom: Vec2, pos: Vec2) -> PanZoom {
        PanZoom { zoom, pan: vec2_product(pos, vec2_difference(vec2_one(), zoom)) }
    }

    /// The logical point that this transform draws at the screen point `p`.
    pub open spec fn spec_screen2logical(self, p: Vec2) -> Vec2 {
        self.spec_inverse().spec_apply(p)
    }

    /// The step by which one notch of the wheel changes the scale: a tenth.
    pub open spec fn spec_zoom_step() -> Vec2 {
        vec2_reciprocal(vec2_of_ints(10, 10))
    }

    /// The smallest scale that the wheel sets: a tenth.
    pub open spec fn spec_min_zoom() -> Vec2 {
        vec2_reciprocal(vec2_of_ints(10, 10))
    }

    /// The largest scale that the wheel sets: two.
    pub open spec fn spec_max_zoom() -> Vec2 {
        vec2_of_ints(2, 2)
    }

    /// The scale after one notch of the wheel, inwards or outwards.
    pub open spec fn spec_stepped_zoom(self, zoom_in: bool) -> Vec2 {
        vec2_sum(
            self.zoom,
            if zoom_in {
                PanZoom::spec_zoom_step()
            } else {
                vec2_negation(PanZoom::spec_zoom_step())
            },
        )
    }

    /// The scale after one notch of the wheel, kept between the smallest and
    /// the largest scale that the wheel sets.
    pub open spec fn spec_clamped_zoom(self, zoom_in: bool) -> Vec2 {
        vec2_min(
            vec2_max(self.spec_stepped_zoom(zoom_in), PanZoom::spec_min_zoom()),
            PanZoom::spec_max_zoom(),
        )
    }

    /// The transform after one notch of the wheel at the screen point `pos`:
    /// the scale takes the step, as far as the smallest and the largest
    /// scale let it, around the logical point under `pos`.
    pub open spec fn spec_wheel(self, zoom_in: bool, pos: Vec2) -> PanZoom {
        self.spec_compose(
            PanZoom::spec_from_zoom_to_pos(
                vec2_quotient(self.spec_clamped_zoom(zoom_in), self.zoom),
                self.spec_screen2logical(pos),
            ),
        )
    }

    /// The transform that changes nothing.
    pub fn identity() -> (r: PanZoom)
        ensures
            r == PanZoom::spec_identity(),
    {
        PanZoom { pan: vec2_from_ints(0, 0), zoom: vec2_from_ints(1, 1) }
    }

    /// Where this transform draws the logical point `rhs`.
    pub fn apply(&self, rhs: Vec2) -> (r: Vec2)
        ensures
            r == self.spec_apply(rhs),
    {
        vec2_add(vec2_mul(self.zoom, rhs), self.pan)
    }

    /// The transform that applies `rhs` first and `self` to its result.
    pub fn compose(&self, rhs: PanZoom) -> (r: PanZoom)
        ensures
            r == self.spec_compose(rhs),
    {
        PanZoom {
            pan: vec2_add(self.pan, vec2_mul(rhs.pan, self.zoom)),
            zoom: vec2_mul(self.zoom, rhs.zoom),
        }
    }

    /// The transform that takes screen points back to logical ones.
    pub fn inverse(&self) -> (r: PanZoom)
        ensures
            r == self.spec_inverse(),
    {
        let iz = vec2_recip(self.zoom);
        PanZoom { pan: vec2_mul(vec2_neg(self.pan), iz), zoom: iz }
    }

    /// Zoom around the point `pos`: what is drawn at `pos` stays there.
    pub fn from_zoom_to_pos(zoom: Vec2, pos: Vec2) -> (r: PanZoom)
        ensures
            r == PanZoom::spec_from_zoom_to_pos(zoom, pos),
    {
        PanZoom { zoom, pan: vec2_mul(pos, vec2_sub(vec2_from_ints(1, 1), zoom)) }
    }

    /// Zooms by the factor `zoom` around the logical point `logical_pos`,
    /// which stays where it is on the screen.
    pub fn zoom_to_pos(&mut self, zoom: Vec2, logical_pos: Vec2)
        ensures
            *final(self) == old(self).spec_compose(
                PanZoom::spec_from_zoom_to_pos(zoom, logical_pos),
            ),
    {
        let step = PanZoom::from_zoom_to_pos(zoom, logical_pos);
        let next = self.compose(step);
        *self = next;
    }

    /// Where this transform draws the logical point `pos`.
    pub fn logical2screen(&self, pos: Vec2) -> (r: Vec2)
        ensures
            r == self.spec_apply(pos),
    {
        self.apply(pos)
    }

    /// The logical point that this transform draws at the screen point `pos`.
    pub fn screen2logical(&self, pos: Vec2) -> (r: Vec2)
        ensures
            r == self.spec_screen2logical(pos),
    {
        self.inverse().apply(pos)
    }

    /// Takes one notch of the wheel at the screen point `pos`: the scale
    /// goes up or down by a tenth, but not below a tenth nor above two, and
    /// what is drawn at `pos` stays there.
    pub fn wheel(&mut self, zoom_in: bool, pos: Vec2)
        ensures
            *final(self) == old(self).spec_wheel(zoom_in, pos),
    {
        let tenth = vec2_recip(vec2_from_ints(10, 10));
        let step = if zoom_in {
            tenth
        } else {
            vec2_neg(tenth)
        };
        let stepped = vec2_add(self.zoom, step);
        let zoom = vec2_lower(vec2_upper(stepped, tenth), vec2_from_ints(2, 2));
        let logical_pos = self.screen2logical(pos);
        let rate = vec2_div(zoom, self.zoom);
        self.zoom_to_pos(rate, logical_pos);
    }

    /// Moves the view by `delta`, given in screen space.
    pub fn pan_screen(&mut self, delta: Vec2)
        ensures
            final(self).zoom == old(self).zoom,
            final(self).pan == vec2_sum(old(self).pan, delta),
    {
        self.pan = vec2_add(self.pan, delta);
    }

    /// Moves the view by `delta`, given in logical space.
    pub fn pan_logical(&mut self, delta: Vec2)
        ensures
            final(self).zoom == old(self).zoom,
            final(self).pan == vec2_sum(old(self).pan, vec2_product(delta, old(self).zoom)),
    {
        self.pan = vec2_add(self.pan, vec2_mul(delta, self.zoom));
    }
}

impl Default for PanZoom {
    fn default() -> (r: PanZoom)
        ensures
            r == PanZoom::spec_identity(),
    {
        PanZoom::identity()
    }
}

impl std::ops::Mul<Vec2> for PanZoom {
    type Output = Vec2;

    /// Where this transform draws the logical point `rhs`.
    fn mul(self, rhs: Vec2) -> (r: Vec2) {
        self.apply(rhs)
    }
}

impl vstd::std_specs::ops::MulSpecImpl<Vec2> for PanZoom {
    open spec fn obeys_mul_spec() -> bool {
        true
    }

    open spec fn mul_req(self, rhs: Vec2) -> bool {
        true
    }

    open spec fn mul_spec(self, rhs: Vec2) -> Vec2 {
        self.spec_apply(rhs)
    }
}

impl std::ops::Mul<PanZoom> for PanZoom {
    type Output = PanZoom;

    /// The transform that applies `rhs` first and `self` to its result.
    fn mul(self, rhs: PanZoom) -> (r: PanZoom) {
        self.compose(rhs)
    }
}

impl vstd::std_specs::ops::MulSpecImpl<PanZoom> for PanZoom {
    open spec fn obeys_mul_spec() -> bool {
        true
    }

    open spec fn mul_req(self, rhs: PanZoom) -> bool {
        true
    }

    open spec fn mul_spec(self, rhs: PanZoom) -> PanZoom {
        self.spec_compose(rhs)
    }
}

} // verus!
