//! Drawable geometry: flat-shaded vertices and the shape templates the game
//! entities are built from.
//!
//! Positions and colors sit on the fixed-point grid of [`crate::units`]; a
//! front end divides by [`crate::units::SCALE`] to recover normalized device
//! coordinates and color channels.

use vstd::prelude::*;

verus! {

/// Flat-shaded vertex: a position and a color on the fixed-point grid.
#[derive(Clone, Copy, Debug, PartialEq)]
pub struct Vertex {
    pub position: [i64; 3],
    pub color: [i64; 3],
}

/// Mathematical image of a [`Vertex`]: its six scalars as integers.
#[verifier::ext_equal]
pub ghost struct VertexModel {
    pub px: int,
    pub py: int,
    pub pz: int,
    pub cr: int,
    pub cg: int,
    pub cb: int,
}

impl View for Vertex {
    type V = VertexModel;

    open spec fn view(&self) -> VertexModel {
        VertexModel {
            px: self.position@[0] as int,
            py: self.position@[1] as int,
            pz: self.position@[2] as int,
            cr: self.color@[0] as int,
            cg: self.color@[1] as int,
            cb: self.color@[2] as int,
        }
    }
}

/// Vertex model at position `(px, py, 0)` with color `(cr, cg, cb)`.
pub open spec fn vertex_at(px: int, py: int, cr: int, cg: int, cb: int) -> VertexModel {
    VertexModel { px: px, py: py, pz: 0, cr: cr, cg: cg, cb: cb }
}

/// The six vertices (two triangles) of an axis-aligned quad of the given
/// width and height centered on the origin.
pub open spec fn quad_model(w: int, h: int, cr: int, cg: int, cb: int) -> Seq<VertexModel> {
    seq![
        vertex_at(w / 2, h / 2, cr, cg, cb),
        vertex_at(-(w / 2), h / 2, cr, cg, cb),
        vertex_at(-(w / 2), -(h / 2), cr, cg, cb),
        vertex_at(w / 2, h / 2, cr, cg, cb),
        vertex_at(-(w / 2), -(h / 2), cr, cg, cb),
        vertex_at(w / 2, -(h / 2), cr, cg, cb),
    ]
}

/// The three vertices of an isosceles triangle of the given width and
/// height, centered on the origin and pointing down.
pub open spec fn iso_tri_down_model(w: int, h: int, cr: int, cg: int, cb: int) -> Seq<
    VertexModel,
> {
    seq![
        vertex_at(-(w / 2), h / 2, cr, cg, cb),
        vertex_at(0, -(h / 2), cr, cg, cb),
        vertex_at(w / 2, h / 2, cr, cg, cb),
    ]
}

/// Return a quad of specified width and height.
pub fn quad(width: i64, height: i64, color: [i64; 3]) -> (r: [Vertex; 6])
    requires
        0 <= width,
        0 <= height,
    ensures
        r@.map_values(|v: Vertex| v@) == quad_model(
            width as int,
            height as int,
            color@[0] as int,
            color@[1] as int,
            color@[2] as int,
        ),
{
    let hw: i64 = width / 2;
    let hh: i64 = height / 2;
    let r = [
        Vertex { position: [hw, hh, 0], color },
        Vertex { position: [-hw, hh, 0], color },
        Vertex { position: [-hw, -hh, 0], color },
        Vertex { position: [hw, hh, 0], color },
        Vertex { position: [-hw, -hh, 0], color },
        Vertex { position: [hw, -hh, 0], color },
    ];
    proof {
        assert(r@.map_values(|v: Vertex| v@) =~= quad_model(
            width as int,
            height as int,
            color@[0] as int,
            color@[1] as int,
            color@[2] as int,
        ));
    }
    r
}

/// Return an isosceles triangle pointing down.
pub fn iso_tri_down(width: i64, height: i64, color: [i64; 3]) -> (r: [Vertex; 3])
    requires
        0 <= width,
        0 <= height,
    ensures
        r@.map_values(|v: Vertex| v@) == iso_tri_down_model(
            width as int,
            height as int,
            color@[0] as int,
            color@[1] as int,
            color@[2] as int,
        ),
{
    let hw: i64 = width / 2;
    let hh: i64 = height / 2;
    let r = [
        Vertex { position: [-hw, hh, 0], color },
        Vertex { position: [0, -hh, 0], color },
        Vertex { position: [hw, hh, 0], color },
    ];
    proof {
        assert(r@.map_values(|v: Vertex| v@) =~= iso_tri_down_model(
            width as int,
            height as int,
            color@[0] as int,
            color@[1] as int,
            color@[2] as int,
        ));
    }
    r
}

/// Things that can be drawn to the screen.
pub trait Drawable {
    /// Geometry small enough that producing it cannot overflow.
    spec fn vertices_ok(&self) -> bool;

    /// The world-space vertices this entity draws as.
    spec fn vertices_model(&self) -> Seq<VertexModel>;

    /// Produce the world-space vertices for the renderer.
    fn get_vertices(&self) -> (v: Vec<Vertex>)
        requires
            self.vertices_ok(),
        ensures
            v@.map_values(|x: Vertex| x@) == self.vertices_model(),
    ;
}

} // verus!
