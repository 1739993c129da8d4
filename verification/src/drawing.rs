//! Drawings of tiles: the geometry of a tile's four triangles, their colours,
//! and the document that frames a drawing.

use crate::decimal::signed_decimal;
use crate::decimal::signed_text;
use crate::tile::PosBit;
use crate::vector::data_strokes;
use crate::vector::document_add_group;
use crate::vector::document_markup;
use crate::vector::document_new;
use crate::vector::document_set_text;
use crate::vector::exact;
use crate::vector::group_markup;
use crate::vector::path_markup;
use crate::vector::path_new;
use crate::vector::path_set_data;
use crate::vector::path_set_text;
use crate::vector::strokes_text;
use crate::vector::Markup;
use crate::vector::Stroke;
use svg::node::element::path::Data;
use svg::node::element::Group;
use svg::node::element::Path;
use svg::Document;
use vstd::prelude::*;
use vstd::string::StringExecFns;

verus! {

/// Half of a tile's size, rounded towards zero: the distance from an edge of the
/// tile to its centre.
pub open spec fn half(size: int) -> int {
    if size >= 0 {
        size / 2
    } else {
        -((-size) / 2)
    }
}

/// The colour that fills the triangle of an edge: red when the edge is on, white
/// when it is off.
pub open spec fn fill_color(on: bool) -> Seq<char> {
    if on {
        "red"@
    } else {
        "white"@
    }
}

/// The outline of the triangle between one edge of a tile and its centre, for a
/// tile of the given size whose top left corner is at `(x, y)`.
pub open spec fn triangle(edge: PosBit, x: int, y: int, size: int) -> Seq<Stroke> {
    let h = half(size);
    match edge {
        PosBit::TOP => seq![
            Stroke::MoveTo(x, y),
            Stroke::LineBy(h, h),
            Stroke::LineBy(h, -h),
            Stroke::Close,
        ],
        PosBit::LEFT => seq![
            Stroke::MoveTo(x, y + size),
            Stroke::LineBy(h, -h),
            Stroke::LineBy(-h, -h),
            Stroke::Close,
        ],
        PosBit::BOTTOM => seq![
            Stroke::MoveTo(x + size, y + size),
            Stroke::LineBy(-h, -h),
            Stroke::LineBy(-h, h),
            Stroke::Close,
        ],
        PosBit::RIGHT => seq![
            Stroke::MoveTo(x + size, y),
            Stroke::LineBy(-h, h),
            Stroke::LineBy(h, h),
            Stroke::Close,
        ],
    }
}

/// A `path` element that fills the given outline with the colour of an edge.
pub open spec fn filled_path(on: bool, outline: Seq<Stroke>) -> Markup {
    Markup::bare("path"@).with_attr("fill"@, fill_color(on)).with_attr(
        "d"@,
        strokes_text(outline),
    )
}

/// The corners of a tile of the given size at `(x, y)` are coordinates that
/// path data holds exactly.
pub open spec fn drawable(x: int, y: int, size: int) -> bool {
    exact(x) && exact(y) && exact(x + size) && exact(y + size)
}

/// Tests whether a tile of the given size at `(x, y)` can be drawn.
pub fn is_drawable(x: i32, y: i32, size: i32) -> (yes: bool)
    ensures
        yes == drawable(x as int, y as int, size as int),
{
    let far_x: i64 = x as i64 + size as i64;
    let far_y: i64 = y as i64 + size as i64;
    is_exact(x as i64) && is_exact(y as i64) && is_exact(far_x) && is_exact(far_y)
}

/// Tests whether `v` is a coordinate that path data holds exactly.
pub fn is_exact(v: i64) -> (yes: bool)
    ensures
        yes == exact(v as int),
{
    -16_777_216 <= v && v <= 16_777_216
}

/// The value of a document's view box: the origin, then width and height.
pub open spec fn view_box(width: int, height: int) -> Seq<char> {
    "0 0 "@ + signed_decimal(width) + " "@ + signed_decimal(height)
}

/// A document of the given width and height that holds one drawing.
pub open spec fn framed(width: int, height: int, drawing: Markup) -> Markup {
    Markup::bare("svg"@).with_attr("xmlns"@, "http://www.w3.org/2000/svg"@).with_attr(
        "viewbox"@,
        view_box(width, height),
    ).with_child(drawing)
}

/// The `path` element for one edge: its triangle, filled by the edge's colour.
pub(crate) fn edge_path(on: bool, data: Data) -> (path: Path)
    ensures
        path_markup(path) == filled_path(on, data_strokes(data)),
{
    let color: &'static str = if on {
        "red"
    } else {
        "white"
    };
    path_set_data(path_set_text(path_new(), "fill", color), "d", data)
}

/// The document that frames one drawing, `width` wide and `height` high.
pub fn frame(width: i32, height: i32, drawing: Group) -> (document: Document)
    ensures
        document_markup(document) == framed(width as int, height as int, group_markup(drawing)),
{
    let mut text = String::from_str("0 0 ");
    text.append(signed_text(width).as_str());
    text.append(" ");
    text.append(signed_text(height).as_str());
    assert(text@ =~= view_box(width as int, height as int));
    document_add_group(document_set_text(document_new(), "viewbox", text.as_str()), drawing)
}

} // verus!
