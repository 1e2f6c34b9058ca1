//! The shape of a wheel and the mesh of its tread.
use vstd::prelude::*;
use crate::builder::Builder;
use crate::fixed::{
    lemma_mul_bound, lemma_mul_identities, magnitude, mul_fixed, mul_spec, trunc_div, ONE,
};
use crate::trig::{cos_spec, lemma_sin_cos_range, sin_cos, sin_spec, TAU};
use crate::vector::{lemma_yaw_keeps_length, Vec3, Vector};

verus! {

/// The number of flat faces that stand for the round tread of a wheel.
pub const SEGMENTS: usize = 20;

/// The number of vertices in the mesh of a wheel: two passes round the
/// tread, each with two vertices at every one of `SEGMENTS + 1` angles.
pub const STRIP_LENGTH: usize = 84;

/// The angle in raw radians of the `i`-th division of the tread.
pub open spec fn segment_angle(i: int) -> int {
    (i * TAU) / (SEGMENTS as int)
}

/// A wheel: a cylinder about the third axis, whose centre lies at `offset`
/// from the centre of the vehicle.
#[derive(Clone, Copy, Debug, PartialEq, Eq, Structural)]
pub struct Wheel3D {
    pub width: i64,
    pub diameter: i64,
    pub offset: Vec3,
}

impl Wheel3D {
    /// The radius of the wheel.
    pub open spec fn radius(self) -> int {
        trunc_div(self.diameter as int, 2)
    }

    /// Half the width of the wheel.
    pub open spec fn half_width(self) -> int {
        trunc_div(self.width as int, 2)
    }

    /// The point of the rim at the `i`-th division of the tread, on the side
    /// of the wheel at the height `side` along its axle.
    pub open spec fn rim_point(self, i: int, side: int) -> Vector {
        Vector {
            x: mul_spec(self.radius(), cos_spec(segment_angle(i))),
            y: mul_spec(self.radius(), sin_spec(segment_angle(i))),
            z: side,
        }
    }

    /// The `k`-th vertex of the mesh of the tread, for `k` below
    /// `STRIP_LENGTH`. The first pass alternates between the near and the
    /// far side at each division, the second pass between the far and the
    /// near side, so that both faces of every quad are drawn.
    pub open spec fn strip_vertex(self, k: int) -> Vector {
        let pass = 2 * (SEGMENTS + 1);
        if k < pass {
            self.rim_point(
                k / 2,
                if k % 2 == 0 {
                    self.half_width()
                } else {
                    -self.half_width()
                },
            )
        } else {
            self.rim_point(
                (k - pass) / 2,
                if k % 2 == 0 {
                    -self.half_width()
                } else {
                    self.half_width()
                },
            )
        }
    }

    /// The vertices of the mesh have coordinates no larger than the radius
    /// and half the width of the wheel.
    pub proof fn lemma_strip_vertex_bound(self, k: int)
        ensures
            magnitude(self.strip_vertex(k).x) <= magnitude(self.radius()),
            magnitude(self.strip_vertex(k).y) <= magnitude(self.radius()),
            magnitude(self.strip_vertex(k).z) == magnitude(self.half_width()),
            2 * magnitude(self.radius()) <= magnitude(self.diameter as int),
            2 * magnitude(self.half_width()) <= magnitude(self.width as int),
    {
        let pass = 2 * (SEGMENTS + 1);
        let i = if k < pass {
            k / 2
        } else {
            (k - pass) / 2
        };
        let angle = segment_angle(i);
        lemma_sin_cos_range(angle);
        lemma_mul_bound(self.radius(), cos_spec(angle), magnitude(self.radius()), ONE as int);
        lemma_mul_bound(self.radius(), sin_spec(angle), magnitude(self.radius()), ONE as int);
    }

    /// The vertices of the mesh lie on the rim: seen along the axle, the
    /// square of their distance from it is the square of the radius, up to
    /// what rounding can change. The strip is closed: it ends at the angle
    /// at which it starts.
    pub proof fn law_strip_on_rim(self, k: int)
        ensures
            self.strip_vertex(k).x * self.strip_vertex(k).x + self.strip_vertex(k).y
                * self.strip_vertex(k).y <= self.radius() * self.radius() + 8 * magnitude(
                self.radius(),
            ) + 8,
            ONE * (self.strip_vertex(k).x * self.strip_vertex(k).x + self.strip_vertex(k).y
                * self.strip_vertex(k).y) >= ONE * (self.radius() * self.radius() - 8 * magnitude(
                self.radius(),
            )) - 2 * (self.radius() * self.radius()),
            forall|side: int| self.rim_point(SEGMENTS as int, side) == self.rim_point(0, side),
    {
        let pass = 2 * (SEGMENTS + 1);
        let i = if k < pass {
            k / 2
        } else {
            (k - pass) / 2
        };
        let angle = segment_angle(i);
        let spoke = Vector { x: self.radius(), y: 0, z: 0 };
        lemma_yaw_keeps_length(spoke, angle);
        lemma_mul_identities(sin_spec(angle));
        lemma_mul_identities(cos_spec(angle));
        let turned = spoke.yaw(angle);
        let vertex = self.strip_vertex(k);
        assert(turned.x == vertex.x && turned.z == -vertex.y);
        assert(turned.z * turned.z == vertex.y * vertex.y) by (nonlinear_arith)
            requires
                turned.z == -vertex.y,
        ;
        assert(spoke.planar_sq() == self.radius() * self.radius()) by (nonlinear_arith)
            requires
                spoke.planar_sq() == spoke.x * spoke.x + spoke.z * spoke.z,
                spoke.x == self.radius(),
                spoke.z == 0,
        ;
        assert(segment_angle(SEGMENTS as int) == TAU && segment_angle(0) == 0);
    }

    fn rim_pair(&self, i: usize, first_side: i64) -> (r: (Vec3, Vec3))
        requires
            i <= SEGMENTS,
            magnitude(first_side as int) == magnitude(self.half_width()),
        ensures
            r.0@ == self.rim_point(i as int, first_side as int),
            r.1@ == self.rim_point(i as int, -first_side),
    {
        let radius: i64 = self.diameter / 2;
        let angle: i64 = (i as i64 * TAU) / (SEGMENTS as i64);
        let (s, c): (i64, i64) = sin_cos(angle);
        proof {
            lemma_mul_bound(radius as int, c as int, magnitude(radius as int), ONE as int);
            lemma_mul_bound(radius as int, s as int, magnitude(radius as int), ONE as int);
        }
        let x: i64 = mul_fixed(radius, c);
        let y: i64 = mul_fixed(radius, s);
        (Vec3 { x, y, z: first_side }, Vec3 { x, y, z: -first_side })
    }

    /// The mesh of the tread as a triangle strip, centred on the origin and
    /// with the axle along the third axis.
    pub fn get_triangle_strip(&self) -> (vertices: Vec<Vec3>)
        ensures
            vertices@.len() == STRIP_LENGTH,
            forall|k: int| 0 <= k < STRIP_LENGTH ==> (#[trigger] vertices@[k])@ == self.strip_vertex(k),
    {
        let mut vertices: Vec<Vec3> = Vec::new();
        let half_width: i64 = self.width / 2;
        let mut i: usize = 0;
        while i <= SEGMENTS
            invariant
                i <= SEGMENTS + 1,
                half_width == self.half_width(),
                vertices@.len() == 2 * i,
                forall|k: int| 0 <= k < 2 * i ==> (#[trigger] vertices@[k])@ == self.strip_vertex(k),
            decreases SEGMENTS + 1 - i,
        {
            let (near, far): (Vec3, Vec3) = self.rim_pair(i, half_width);
            vertices.push(near);
            vertices.push(far);
            i = i + 1;
        }
        let mut j: usize = 0;
        while j <= SEGMENTS
            invariant
                j <= SEGMENTS + 1,
                half_width == self.half_width(),
                vertices@.len() == 2 * (SEGMENTS + 1) + 2 * j,
                forall|k: int|
                    0 <= k < 2 * (SEGMENTS + 1) + 2 * j ==> (#[trigger] vertices@[k])@
                        == self.strip_vertex(k),
            decreases SEGMENTS + 1 - j,
        {
            let (far, near): (Vec3, Vec3) = self.rim_pair(j, -half_width);
            vertices.push(far);
            vertices.push(near);
            j = j + 1;
        }
        vertices
    }
}

/// Assembles a `Wheel3D`; what is not set is zero.
pub struct Wheel3DBuilder {
    width: i64,
    diameter: i64,
    offset: Option<Vec3>,
}

impl Wheel3DBuilder {
    /// The width that the wheel will have.
    pub closed spec fn width(self) -> i64 {
        self.width
    }

    /// The diameter that the wheel will have.
    pub closed spec fn diameter(self) -> i64 {
        self.diameter
    }

    /// The offset that was set, if any.
    pub closed spec fn offset(self) -> Option<Vec3> {
        self.offset
    }

    /// The wheel that `create` gives: an offset that was not set is zero.
    pub open spec fn wheel(self) -> Wheel3D {
        Wheel3D {
            width: self.width(),
            diameter: self.diameter(),
            offset: match self.offset() {
                Some(offset) => offset,
                None => Vec3 { x: 0, y: 0, z: 0 },
            },
        }
    }

    /// A builder with nothing set.
    pub fn new() -> (r: Wheel3DBuilder)
        ensures
            r.width() == 0,
            r.diameter() == 0,
            r.offset().is_none(),
    {
        Wheel3DBuilder { width: 0, diameter: 0, offset: None }
    }

    /// Sets the width.
    pub fn set_width(self, width: i64) -> (r: Wheel3DBuilder)
        ensures
            r.width() == width,
            r.diameter() == self.diameter(),
            r.offset() == self.offset(),
    {
        Wheel3DBuilder { width, diameter: self.diameter, offset: self.offset }
    }

    /// Sets the diameter.
    pub fn set_diameter(self, diameter: i64) -> (r: Wheel3DBuilder)
        ensures
            r.width() == self.width(),
            r.diameter() == diameter,
            r.offset() == self.offset(),
    {
        Wheel3DBuilder { width: self.width, diameter, offset: self.offset }
    }

    /// Sets the offset of the wheel from the centre of the vehicle.
    pub fn set_offset(self, offset: Vec3) -> (r: Wheel3DBuilder)
        ensures
            r.width() == self.width(),
            r.diameter() == self.diameter(),
            r.offset() == Some(offset),
    {
        Wheel3DBuilder { width: self.width, diameter: self.diameter, offset: Some(offset) }
    }
}

impl Builder<Wheel3D> for Wheel3DBuilder {
    fn create(self) -> (r: Wheel3D)
        ensures
            r == self.wheel(),
    {
        let offset: Vec3 = match self.offset {
            Some(offset) => offset,
            None => Vec3::zero(),
        };
        Wheel3D { width: self.width, diameter: self.diameter, offset }
    }
}

} // verus!
