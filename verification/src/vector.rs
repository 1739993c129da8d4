//! Vector drawings: what an svg node holds, stated as plain values, and the
//! svg builders that this library calls, each behind a contract over those values.

use svg::node::element::path::Command;
use svg::node::element::path::Data;
use svg::node::element::Element;
use svg::node::element::Group;
use svg::node::element::Path;
use svg::node::element::SVG;
use vstd::prelude::*;

verus! {

/// One step of the outline of a shape.
pub ghost enum Stroke {
    /// Start at the point `(x, y)`.
    MoveTo(int, int),
    /// Draw a line to the point that lies `(dx, dy)` from the current one.
    LineBy(int, int),
    /// Draw a line back to the start.
    Close,
}

/// An element of a drawing: its tag, its attributes and the elements inside it.
pub ghost struct Markup {
    pub tag: Seq<char>,
    pub attrs: Map<Seq<char>, Seq<char>>,
    pub children: Seq<Markup>,
}

impl Markup {
    /// The element `tag` with no attribute and nothing inside.
    pub open spec fn bare(tag: Seq<char>) -> Markup {
        Markup { tag, attrs: Map::empty(), children: Seq::empty() }
    }

    /// This element with the attribute `name` set to `value`, in place of any
    /// value that it had.
    pub open spec fn with_attr(self, name: Seq<char>, value: Seq<char>) -> Markup {
        Markup { attrs: self.attrs.insert(name, value), ..self }
    }

    /// This element with `child` added after the elements already inside.
    pub open spec fn with_child(self, child: Markup) -> Markup {
        Markup { children: self.children.push(child), ..self }
    }
}

/// The whole numbers that path data holds exactly: it keeps its coordinates in
/// single precision, which is exact up to 2 to the 24th.
pub open spec fn exact(v: int) -> bool {
    -16_777_216 <= v <= 16_777_216
}

/// svg's path data, a list of drawing commands. Nothing of its inside is known
/// here.
#[verifier::external_type_specification]
#[verifier::external_body]
pub struct ExData(Data);

/// svg's drawing command, which path data is made of. Nothing of its inside is
/// known here.
#[verifier::external_type_specification]
#[verifier::external_body]
pub struct ExCommand(Command);

/// svg's generic element, which every element type wraps. Nothing of its inside
/// is known here.
#[verifier::external_type_specification]
#[verifier::external_body]
pub struct ExElement(Element);

/// svg's `path` element. Nothing of its inside is known here.
#[verifier::external_type_specification]
#[verifier::external_body]
pub struct ExPath(Path);

/// svg's `g` element. Nothing of its inside is known here.
#[verifier::external_type_specification]
#[verifier::external_body]
pub struct ExGroup(Group);

/// svg's `svg` element, the document. Nothing of its inside is known here.
#[verifier::external_type_specification]
#[verifier::external_body]
pub struct ExDocument(SVG);

/// The commands that path data holds, in order.
pub uninterp spec fn data_strokes(data: Data) -> Seq<Stroke>;

/// The text that svg writes path data as, when it becomes the value of an
/// attribute.
pub uninterp spec fn strokes_text(strokes: Seq<Stroke>) -> Seq<char>;

/// What a `path` element holds.
pub uninterp spec fn path_markup(path: Path) -> Markup;

/// What a `g` element holds.
pub uninterp spec fn group_markup(group: Group) -> Markup;

/// What a document holds.
pub uninterp spec fn document_markup(document: SVG) -> Markup;

/// `Data::new`: path data with no command.
#[verifier::external_body]
pub(crate) fn data_new() -> (data: Data)
    ensures
        data_strokes(data) == Seq::<Stroke>::empty(),
{
    Data::new()
}

/// `Data::move_to` with a pair of whole numbers: appends one command, an absolute
/// move to `(x, y)`.
#[verifier::external_body]
pub(crate) fn data_move_to(data: Data, x: i32, y: i32) -> (longer: Data)
    requires
        exact(x as int),
        exact(y as int),
    ensures
        data_strokes(longer) == data_strokes(data).push(Stroke::MoveTo(x as int, y as int)),
{
    data.move_to((x, y))
}

/// `Data::line_by` with a pair of whole numbers: appends one command, a line to
/// the point `(dx, dy)` away.
#[verifier::external_body]
pub(crate) fn data_line_by(data: Data, dx: i32, dy: i32) -> (longer: Data)
    requires
        exact(dx as int),
        exact(dy as int),
    ensures
        data_strokes(longer) == data_strokes(data).push(Stroke::LineBy(dx as int, dy as int)),
{
    data.line_by((dx, dy))
}

/// `Data::close`: appends one command, which closes the outline.
#[verifier::external_body]
pub(crate) fn data_close(data: Data) -> (longer: Data)
    ensures
        data_strokes(longer) == data_strokes(data).push(Stroke::Close),
{
    data.close()
}

/// `Path::new`: a `path` element with no attribute and nothing inside.
#[verifier::external_body]
pub(crate) fn path_new() -> (path: Path)
    ensures
        path_markup(path) == Markup::bare("path"@),
{
    Path::new()
}

/// `Path::set` with a text value: the attribute `name` holds `value` afterwards,
/// and nothing else changes.
#[verifier::external_body]
pub(crate) fn path_set_text(path: Path, name: &str, value: &str) -> (changed: Path)
    ensures
        path_markup(changed) == path_markup(path).with_attr(name@, value@),
{
    path.set(name, value)
}

/// `Path::set` with path data as the value: the attribute `name` holds the text
/// that svg writes the data as, and nothing else changes.
#[verifier::external_body]
pub(crate) fn path_set_data(path: Path, name: &str, data: Data) -> (changed: Path)
    ensures
        path_markup(changed) == path_markup(path).with_attr(
            name@,
            strokes_text(data_strokes(data)),
        ),
{
    path.set(name, data)
}

/// `Group::new`: a `g` element with no attribute and nothing inside.
#[verifier::external_body]
pub(crate) fn group_new() -> (group: Group)
    ensures
        group_markup(group) == Markup::bare("g"@),
{
    Group::new()
}

/// `Group::add` with a `path` element: the path becomes the last element inside
/// the group.
#[verifier::external_body]
pub(crate) fn group_add_path(group: Group, path: Path) -> (larger: Group)
    ensures
        group_markup(larger) == group_markup(group).with_child(path_markup(path)),
{
    group.add(path)
}

/// `Group::add` with a `g` element: the inner group becomes the last element
/// inside the outer one.
#[verifier::external_body]
pub(crate) fn group_add_group(group: Group, inner: Group) -> (larger: Group)
    ensures
        group_markup(larger) == group_markup(group).with_child(group_markup(inner)),
{
    group.add(inner)
}

/// `Document::new`: an `svg` element with nothing inside, whose one attribute
/// names the svg namespace.
#[verifier::external_body]
pub(crate) fn document_new() -> (document: SVG)
    ensures
        document_markup(document) == Markup::bare("svg"@).with_attr(
            "xmlns"@,
            "http://www.w3.org/2000/svg"@,
        ),
{
    SVG::new()
}

/// `Document::set` with a text value: the attribute `name` holds `value`
/// afterwards, and nothing else changes.
#[verifier::external_body]
pub(crate) fn document_set_text(document: SVG, name: &str, value: &str) -> (changed: SVG)
    ensures
        document_markup(changed) == document_markup(document).with_attr(name@, value@),
{
    document.set(name, value)
}

/// `Document::add` with a `g` element: the group becomes the last element inside
/// the document.
#[verifier::external_body]
pub(crate) fn document_add_group(document: SVG, group: Group) -> (larger: SVG)
    ensures
        document_markup(larger) == document_markup(document).with_child(group_markup(group)),
{
    document.add(group)
}

} // verus!
