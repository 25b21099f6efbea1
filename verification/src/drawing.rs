//! What this library takes on trust of the `svg` crate: the types that a preview is made of,
//! names for what they hold, and one function for each call.
//!
//! Nothing here is proved. Each contract repeats what the source of `svg` shows.

use crate::text::signed_text;
use svg::node::element::path::Command as DataCommand;
use svg::node::element::path::Data;
use svg::node::element::Path as Outline;
use svg::Document;
use vstd::prelude::*;

verus! {

/// The path data of `svg`: a list of drawing commands.
#[verifier::external_type_specification]
#[verifier::external_body]
pub struct ExData(Data);

/// One command of the path data of `svg`, which the data hands out when borrowed as a slice.
#[verifier::external_type_specification]
#[verifier::external_body]
pub struct ExDataCommand(DataCommand);

/// The `path` element of `svg`.
#[verifier::external_type_specification]
#[verifier::external_body]
pub struct ExOutline(Outline);

/// The `svg` element of `svg`, which `svg::Document` names.
#[verifier::external_type_specification]
#[verifier::external_body]
pub struct ExDocument(Document);

/// The commands that `data` holds, in order, each as the text that `svg` writes for it.
pub uninterp spec fn data_commands(data: Data) -> Seq<Seq<char>>;

/// The text that `svg` writes for the command that `Data::move_to` adds for `(x, y)`.
pub uninterp spec fn move_to_text(x: int, y: int) -> Seq<char>;

/// The text that `svg` writes for the command that `Data::line_to` adds for `(x, y)`.
pub uninterp spec fn line_to_text(x: int, y: int) -> Seq<char>;

/// The text that `svg` writes for the command that `Data::line_by` adds for `(x, y)`.
pub uninterp spec fn line_by_text(x: int, y: int) -> Seq<char>;

/// The attributes of `path`: the text of each value, by the attribute's name.
pub uninterp spec fn path_attributes(path: Outline) -> Map<Seq<char>, Seq<char>>;

/// The attributes of `document`: the text of each value, by the attribute's name.
pub uninterp spec fn document_attributes(document: Document) -> Map<
    Seq<char>,
    Seq<char>,
>;

/// The children of `document`, in order, each given by its attributes.
pub uninterp spec fn document_children(document: Document) -> Seq<
    Map<Seq<char>, Seq<char>>,
>;

/// The attributes of an element, each value as text.
pub type Attributes = Map<Seq<char>, Seq<char>>;

/// No attribute.
pub open spec fn no_attributes() -> Attributes {
    Map::empty()
}

/// No child.
pub open spec fn no_children() -> Seq<Attributes> {
    Seq::empty()
}

/// `texts` with one space between each two neighbours.
pub open spec fn joined(texts: Seq<Seq<char>>) -> Seq<char>
    decreases texts.len(),
{
    if texts.len() == 0 {
        Seq::empty()
    } else if texts.len() == 1 {
        texts[0]
    } else {
        joined(texts.drop_last()) + " "@ + texts.last()
    }
}

/// The four numbers of a box in decimal, with one space between each two neighbours.
pub open spec fn box_text(a: int, b: int, c: int, d: int) -> Seq<char> {
    signed_text(a) + " "@ + signed_text(b) + " "@ + signed_text(c) + " "@ + signed_text(d)
}

/// `Data::new`: path data without commands.
#[verifier::external_body]
pub(crate) fn data_new() -> (data: Data)
    ensures
        data_commands(data) == Seq::<Seq<char>>::empty(),
{
    Data::new()
}

/// `Data::move_to`: the data with one more command at its end, an absolute move to `(x, y)`.
#[verifier::external_body]
pub(crate) fn data_move_to(data: Data, x: i32, y: i32) -> (longer:
    Data)
    ensures
        data_commands(longer) == data_commands(data).push(move_to_text(x as int, y as int)),
{
    data.move_to((x, y))
}

/// `Data::line_to`: the data with one more command at its end, an absolute line to `(x, y)`.
#[verifier::external_body]
pub(crate) fn data_line_to(data: Data, x: i32, y: i32) -> (longer:
    Data)
    ensures
        data_commands(longer) == data_commands(data).push(line_to_text(x as int, y as int)),
{
    data.line_to((x, y))
}

/// `Data::line_by`: the data with one more command at its end, a relative line by `(x, y)`.
#[verifier::external_body]
pub(crate) fn data_line_by(data: Data, x: i32, y: i32) -> (longer:
    Data)
    ensures
        data_commands(longer) == data_commands(data).push(line_by_text(x as int, y as int)),
{
    data.line_by((x, y))
}

/// `Path::new`: a `path` element without attributes.
#[verifier::external_body]
pub(crate) fn path_new() -> (path: Outline)
    ensures
        path_attributes(path) == no_attributes(),
{
    Outline::new()
}

/// `Path::set` with a text: the attribute `name` now has the value `value`, whether or not
/// it had one; the others are unchanged.
#[verifier::external_body]
pub(crate) fn path_set_text(path: Outline, name: &str, value: &str) -> (set:
    Outline)
    ensures
        path_attributes(set) == path_attributes(path).insert(name@, value@),
{
    path.set(name, value)
}

/// `Path::set` with a number: the attribute `name` now has the decimal text of `value`.
#[verifier::external_body]
pub(crate) fn path_set_number(path: Outline, name: &str, value: i32) -> (set:
    Outline)
    ensures
        path_attributes(set) == path_attributes(path).insert(name@, signed_text(value as int)),
{
    path.set(name, value)
}

/// `Path::set` with path data: the attribute `name` now has the texts of the data's
/// commands, with a space between each two neighbours.
#[verifier::external_body]
pub(crate) fn path_set_data(
    path: Outline,
    name: &str,
    data: Data,
) -> (set: Outline)
    ensures
        path_attributes(set) == path_attributes(path).insert(name@, joined(data_commands(data))),
{
    path.set(name, data)
}

/// `Document::new`: an `svg` element without children, whose one attribute is the
/// namespace.
#[verifier::external_body]
pub(crate) fn document_new() -> (document: Document)
    ensures
        document_attributes(document) == no_attributes().insert(
            "xmlns"@,
            "http://www.w3.org/2000/svg"@,
        ),
        document_children(document) == no_children(),
{
    Document::new()
}

/// `Document::set` with four numbers: the attribute `name` now has their decimal texts,
/// with a space between each two neighbours; the children are unchanged.
#[verifier::external_body]
pub(crate) fn document_set_box(
    document: Document,
    name: &str,
    value: (i32, i32, i32, i32),
) -> (set: Document)
    ensures
        document_attributes(set) == document_attributes(document).insert(
            name@,
            box_text(value.0 as int, value.1 as int, value.2 as int, value.3 as int),
        ),
        document_children(set) == document_children(document),
{
    document.set(name, value)
}

/// `Document::add` with a `path` element: the element is the document's last child; the
/// attributes are unchanged.
#[verifier::external_body]
pub(crate) fn document_add(document: Document, path: Outline) -> (grown: Document)
    ensures
        document_attributes(grown) == document_attributes(document),
        document_children(grown) == document_children(document).push(path_attributes(path)),
{
    document.add(path)
}

} // verus!
