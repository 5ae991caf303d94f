//! What the screen shows of the state: lists of modules, patches and sources,
//! a page of lines at a time, with a scroll bar, laid out as shapes for a
//! 128 by 64 pixel monochrome display.

use vstd::prelude::*;
use vstd::string::StringSliceAdditionalSpecFns;
use vstd::view::View as _;

use crate::model::state::{
    Attribute, Class, Destination, Module, ModuleModel, Patch, Socket, Source, State, StateModel, View,
};

verus! {

pub const PADDING: i32 = 5;
pub const FONT_HEIGHT: i32 = 12;
pub const FONT_WIDTH: i32 = 6;
pub const LINES_PER_PAGE: usize = 5;
pub const DISPLAY_WIDTH: i32 = 128;
pub const DISPLAY_HEIGHT: i32 = 64;

/// Most bytes of a label whose position on the screen still fits an `i32`.
pub const MAX_LABEL_BYTES: usize = 1_000_000;

/// Width of the arrow between a patch's destination and its source.
pub const ARROW_WIDTH: i32 = 10;

/// A shape to draw. A pixel is lit where `on` holds; highlighted text is
/// drawn unlit on a lit background.
#[derive(Clone, Copy, Debug, PartialEq, Eq)]
pub enum Shape {
    /// A rectangle filled lit or unlit.
    Fill { x: i32, y: i32, width: u32, height: u32, on: bool },
    /// Text, its baseline at `y`.
    Text { text: &'static str, x: i32, y: i32, highlighted: bool },
    /// A number below a hundred, written with two digits.
    Number { value: usize, x: i32, y: i32, highlighted: bool },
    /// A line one pixel wide.
    Line { x0: i32, y0: i32, x1: i32, y1: i32, on: bool },
    /// A filled triangle.
    Triangle { x0: i32, y0: i32, x1: i32, y1: i32, x2: i32, y2: i32, on: bool },
}

/// The side of the screen a scroll bar stands on.
#[derive(Clone, Copy, Debug, PartialEq, Eq, Structural)]
pub enum Side {
    Left,
    Right,
}

/// The width `text` takes on the screen.
pub open spec fn text_width(text: &str) -> int {
    FONT_WIDTH * text.spec_bytes().len()
}

/// Whether a label is short enough to be laid out.
pub open spec fn short_label(text: &str) -> bool {
    text.spec_bytes().len() <= MAX_LABEL_BYTES
}

/// The baseline of line `row` of the screen.
pub open spec fn row_baseline(row: int) -> int {
    FONT_HEIGHT * (row + 1) - 1
}

/// Writes shapes left to right along a line of text.
pub struct Cursor {
    pub x: i32,
    pub y: i32,
    pub highlighted: bool,
}

impl Cursor {
    pub fn new(x: i32, y: i32) -> (r: Self)
        ensures
            r == (Cursor { x, y, highlighted: false }),
    {
        Self { x, y, highlighted: false }
    }

    pub fn with_highlight(self, highlighted: bool) -> (r: Self)
        ensures
            r == (Cursor { highlighted, ..self }),
    {
        Self { highlighted, ..self }
    }

    /// Writes `value` and moves past it.
    pub fn write(&mut self, value: &'static str, shapes: &mut Vec<Shape>)
        requires
            short_label(value),
            -1_000_000_000 <= old(self).x <= 1_000_000_000,
        ensures
            final(shapes)@ == old(shapes)@.push(
                Shape::Text { text: value, x: old(self).x, y: old(self).y, highlighted: old(self).highlighted },
            ),
            final(self).x == old(self).x + text_width(value),
            final(self).y == old(self).y,
            final(self).highlighted == old(self).highlighted,
    {
        shapes.push(Shape::Text { text: value, x: self.x, y: self.y, highlighted: self.highlighted });
        let width = value.as_bytes().len() as i32;
        self.x += FONT_WIDTH * width;
    }

    /// Writes `value` with two digits and moves past it.
    pub fn write_number(&mut self, value: usize, shapes: &mut Vec<Shape>)
        requires
            value < 100,
            -1_000_000_000 <= old(self).x <= 1_000_000_000,
        ensures
            final(shapes)@ == old(shapes)@.push(
                Shape::Number { value, x: old(self).x, y: old(self).y, highlighted: old(self).highlighted },
            ),
            final(self).x == old(self).x + 2 * FONT_WIDTH,
            final(self).y == old(self).y,
            final(self).highlighted == old(self).highlighted,
    {
        shapes.push(Shape::Number { value, x: self.x, y: self.y, highlighted: self.highlighted });
        self.x += 2 * FONT_WIDTH;
    }

    /// Fills `distance` pixels of the line, lit when highlighted, and moves
    /// past them.
    pub fn space(&mut self, distance: i32, shapes: &mut Vec<Shape>)
        requires
            i32::MIN <= old(self).x + distance <= i32::MAX,
            old(self).y >= i32::MIN + 9,
        ensures
            final(shapes)@ == old(shapes)@.push(
                Shape::Fill {
                    x: old(self).x,
                    y: (old(self).y - 9) as i32,
                    width: distance as u32,
                    height: FONT_HEIGHT as u32,
                    on: old(self).highlighted,
                },
            ),
            final(self).x == old(self).x + distance,
            final(self).y == old(self).y,
            final(self).highlighted == old(self).highlighted,
    {
        shapes.push(
            Shape::Fill {
                x: self.x,
                y: self.y - 9,
                width: distance as u32,
                height: FONT_HEIGHT as u32,
                on: self.highlighted,
            },
        );
        self.x += distance;
    }

    /// Fills the line up to `x`.
    pub fn space_until(&mut self, x: i32, shapes: &mut Vec<Shape>)
        requires
            -1_000_000_000 <= old(self).x <= 1_000_000_000,
            -1_000_000_000 <= x <= 1_000_000_000,
            old(self).y >= i32::MIN + 9,
        ensures
            final(shapes)@ == old(shapes)@.push(
                Shape::Fill {
                    x: old(self).x,
                    y: (old(self).y - 9) as i32,
                    width: (x - old(self).x) as i32 as u32,
                    height: FONT_HEIGHT as u32,
                    on: old(self).highlighted,
                },
            ),
            final(self).x == x,
            final(self).y == old(self).y,
            final(self).highlighted == old(self).highlighted,
    {
        let distance = x - self.x;
        self.space(distance, shapes);
    }

    /// Draws an arrow pointing left, the arrow unlit on a lit background when
    /// highlighted, and moves past it.
    pub fn arrow_left(&mut self, shapes: &mut Vec<Shape>)
        requires
            -1_000_000_000 <= old(self).x <= 1_000_000_000,
            -1_000_000_000 <= old(self).y <= 1_000_000_000,
        ensures
            final(shapes)@ == old(shapes)@ + arrow_shapes(old(self).x as int, old(self).y as int, old(self).highlighted),
            final(self).x == old(self).x + ARROW_WIDTH,
            final(self).y == old(self).y,
            final(self).highlighted == old(self).highlighted,
    {
        let (background, foreground) = if self.highlighted {
            (true, false)
        } else {
            (false, true)
        };

        shapes.push(
            Shape::Fill {
                x: self.x,
                y: self.y - 9,
                width: ARROW_WIDTH as u32,
                height: FONT_HEIGHT as u32,
                on: background,
            },
        );
        shapes.push(
            Shape::Triangle {
                x0: self.x + 2,
                y0: self.y - 3,
                x1: self.x + 4,
                y1: self.y - 5,
                x2: self.x + 4,
                y2: self.y - 1,
                on: foreground,
            },
        );
        shapes.push(
            Shape::Line { x0: self.x + 2, y0: self.y - 3, x1: self.x + 7, y1: self.y - 3, on: foreground },
        );

        self.x += ARROW_WIDTH;
    }
}

/// The shapes of an arrow pointing left at `x` on the line of baseline `y`.
pub open spec fn arrow_shapes(x: int, y: int, highlighted: bool) -> Seq<Shape> {
    seq![
        Shape::Fill {
            x: x as i32,
            y: (y - 9) as i32,
            width: ARROW_WIDTH as u32,
            height: FONT_HEIGHT as u32,
            on: highlighted,
        },
        Shape::Triangle {
            x0: (x + 2) as i32,
            y0: (y - 3) as i32,
            x1: (x + 4) as i32,
            y1: (y - 5) as i32,
            x2: (x + 4) as i32,
            y2: (y - 1) as i32,
            on: !highlighted,
        },
        Shape::Line { x0: (x + 2) as i32, y0: (y - 3) as i32, x1: (x + 7) as i32, y1: (y - 3) as i32, on: !highlighted },
    ]
}

/// The page that shows item `selected` of a list.
pub open spec fn page_of(selected: int) -> int {
    selected / LINES_PER_PAGE as int
}

/// The first and the last item page `page` of a list of `len` items shows.
pub open spec fn page_range(len: int, page: int) -> (int, int) {
    let end = if (page + 1) * LINES_PER_PAGE < len {
        (page + 1) * LINES_PER_PAGE
    } else {
        len
    };
    (page * LINES_PER_PAGE, end - 1)
}

/// A page of a list of `len` items can be shown: the list is not empty, the
/// page starts at most right after its end, and positions on the screen fit
/// an `i32`.
pub open spec fn page_shown(len: int, page: int) -> bool {
    1 <= len <= i32::MAX && page * LINES_PER_PAGE <= len
}

/// The page that shows item `selected_item` of a list.
pub fn selected_item_to_page(selected_item: usize) -> (r: usize)
    ensures
        r == page_of(selected_item as int),
{
    selected_item / LINES_PER_PAGE
}

/// The first and the last item page `items_page` of a list of `items_len`
/// items shows.
pub fn range_for_items_page(items_len: usize, items_page: usize) -> (r: (usize, usize))
    requires
        page_shown(items_len as int, items_page as int),
    ensures
        r.0 == page_range(items_len as int, items_page as int).0,
        r.1 == page_range(items_len as int, items_page as int).1,
{
    let list_start = items_page * LINES_PER_PAGE;
    let end = (items_page + 1) * LINES_PER_PAGE;
    let list_stop = if end < items_len {
        end
    } else {
        items_len
    } - 1;
    (list_start, list_stop)
}

/// The screen, cleared.
pub open spec fn blank_shape() -> Shape {
    Shape::Fill { x: 0, y: 0, width: DISPLAY_WIDTH as u32, height: DISPLAY_HEIGHT as u32, on: false }
}

/// Clears the screen.
pub fn draw_blank(shapes: &mut Vec<Shape>)
    ensures
        final(shapes)@ == old(shapes)@.push(blank_shape()),
{
    shapes.push(
        Shape::Fill { x: 0, y: 0, width: DISPLAY_WIDTH as u32, height: DISPLAY_HEIGHT as u32, on: false },
    );
}

/// The scroll bar of a list of `len` items showing page `page`: the screen's
/// height split in a section per page, the section of the page marked, the
/// last one down to the bottom.
pub open spec fn scroll_bar_shape(side: Side, len: int, page: int) -> Shape {
    let sections = (len + LINES_PER_PAGE as int - 1) / (LINES_PER_PAGE as int);
    let section_height = DISPLAY_HEIGHT as int / sections;
    let line_start = page * section_height;
    let line_stop = if page == sections - 1 {
        DISPLAY_HEIGHT as int
    } else {
        (page + 1) * section_height - 1
    };
    let x: i32 = match side {
        Side::Left => 0,
        Side::Right => (DISPLAY_WIDTH - 1) as i32,
    };
    Shape::Line { x0: x, y0: line_start as i32, x1: x, y1: line_stop as i32, on: true }
}

/// Draws the scroll bar of a list of `items_len` items showing page
/// `items_page`.
pub fn draw_scroll_bar(side: Side, items_len: usize, items_page: usize, shapes: &mut Vec<Shape>)
    requires
        page_shown(items_len as int, items_page as int),
    ensures
        final(shapes)@ == old(shapes)@.push(scroll_bar_shape(side, items_len as int, items_page as int)),
{
    let sections = ((items_len - 1) / LINES_PER_PAGE + 1) as i32;
    assert(sections == (items_len + LINES_PER_PAGE - 1) / LINES_PER_PAGE as int);
    let section_height = DISPLAY_HEIGHT / sections;
    assert(items_page <= sections && 0 <= section_height <= DISPLAY_HEIGHT
        && items_page * section_height <= DISPLAY_HEIGHT && (items_page + 1) * section_height <= 2
        * DISPLAY_HEIGHT) by (nonlinear_arith)
        requires
            sections >= 1,
            items_page * 5 <= items_len,
            sections == (items_len + 4) / 5,
            section_height == DISPLAY_HEIGHT / sections,
    ;

    let line_start = items_page as i32 * section_height;

    let is_last_section = items_page == (sections - 1) as usize;
    let line_stop = if is_last_section {
        DISPLAY_HEIGHT
    } else {
        (items_page + 1) as i32 * section_height - 1
    };

    let x = match side {
        Side::Left => 0,
        Side::Right => DISPLAY_WIDTH - 1,
    };
    shapes.push(Shape::Line { x0: x, y0: line_start, x1: x, y1: line_stop, on: true });
}

/// The line of a module: its name and number.
pub open spec fn module_line(name: &'static str, number: usize, row: int, selected: bool) -> Seq<Shape> {
    let y = row_baseline(row) as i32;
    seq![
        Shape::Text { text: name, x: PADDING, y, highlighted: selected },
        Shape::Number { value: number, x: (PADDING + text_width(name)) as i32, y, highlighted: selected },
    ]
}

/// Draws the line of `module` on line `index` of the screen.
pub fn draw_module(module: &Module, index: usize, selected: bool, shapes: &mut Vec<Shape>)
    requires
        short_label(module.name),
        module.index < 100,
        index < LINES_PER_PAGE,
    ensures
        final(shapes)@ == old(shapes)@ + module_line(module.name, module.index, index as int, selected),
{
    let x = PADDING;
    let y = FONT_HEIGHT * (index + 1) as i32 - 1;

    let mut cursor = Cursor::new(x, y).with_highlight(selected);
    cursor.write(module.name, shapes);
    cursor.write_number(module.index, shapes);
}

/// Where the name of an attribute starts, after the mark of its connection.
pub open spec fn attribute_x() -> int {
    PADDING + 34
}

/// The mark of an attribute's connection: which way its signal goes when it
/// is connected, a space when it is not.
pub open spec fn connection_mark(attribute: Attribute) -> &'static str {
    if attribute.connected {
        match attribute.socket {
            Socket::Consumer(_) => ">",
            Socket::Producer(_) => "<",
        }
    } else {
        " "
    }
}

/// The line of an attribute: the mark of its connection and its name,
/// filled to the right edge.
pub open spec fn attribute_line(attribute: Attribute, row: int, selected: bool) -> Seq<Shape> {
    let y = row_baseline(row);
    let mark = connection_mark(attribute);
    let name_x = attribute_x() + text_width(mark);
    let end_x = name_x + text_width(attribute.name);
    seq![
        Shape::Text { text: mark, x: attribute_x() as i32, y: y as i32, highlighted: selected },
        Shape::Text { text: attribute.name, x: name_x as i32, y: y as i32, highlighted: selected },
        Shape::Fill {
            x: end_x as i32,
            y: (y - 9) as i32,
            width: (DISPLAY_WIDTH - PADDING - end_x) as i32 as u32,
            height: FONT_HEIGHT as u32,
            on: selected,
        },
    ]
}

/// An attribute's line starts with a mark of one character at the mark's
/// column: a blank one exactly when the attribute is not connected, `>` for a
/// connected input and `<` for a connected output, so that a connected
/// input and a connected output never look alike.
pub proof fn lemma_attribute_line_marks_connection(attribute: Attribute, row: int, selected: bool)
    ensures
        attribute_line(attribute, row, selected)[0] matches Shape::Text { text, x, .. } && x
            == attribute_x() && text@.len() == 1 && (attribute.connected <==> text@ != " "@) && (
        attribute.connected && attribute.socket is Consumer ==> text@ == ">"@) && (attribute.connected
            && attribute.socket is Producer ==> text@ == "<"@),
{
    reveal_strlit(">");
    reveal_strlit("<");
    reveal_strlit(" ");
    assert(">"@ != " "@) by {
        assert(">"@[0] != " "@[0]);
    }
    assert("<"@ != " "@) by {
        assert("<"@[0] != " "@[0]);
    }
}

/// Draws the line of `attribute` on line `index` of the screen.
pub fn draw_attribute(attribute: &Attribute, index: usize, selected: bool, shapes: &mut Vec<Shape>)
    requires
        short_label(attribute.name),
        index < LINES_PER_PAGE,
    ensures
        final(shapes)@ == old(shapes)@ + attribute_line(*attribute, index as int, selected),
{
    let x = PADDING + 34;
    let y = FONT_HEIGHT * (index + 1) as i32 - 1;

    let mut cursor = Cursor::new(x, y).with_highlight(selected);

    proof {
        reveal_strlit(">");
        reveal_strlit("<");
        reveal_strlit(" ");
        vstd::string::is_ascii_spec_bytes(">");
        vstd::string::is_ascii_spec_bytes("<");
        vstd::string::is_ascii_spec_bytes(" ");
    }
    if attribute.connected {
        match attribute.socket {
            Socket::Consumer(_) => cursor.write(">", shapes),
            Socket::Producer(_) => cursor.write("<", shapes),
        }
    } else {
        cursor.write(" ", shapes);
    }

    cursor.write(attribute.name, shapes);
    cursor.space_until(DISPLAY_WIDTH - PADDING, shapes);
}

/// The x a patch's destination ends at, where the arrow to its source starts.
pub open spec fn arrow_x() -> int {
    DISPLAY_WIDTH / 2 - FONT_WIDTH / 2 - 2
}

/// The x a patch's source starts at.
pub open spec fn source_x() -> int {
    DISPLAY_WIDTH - PADDING - FONT_WIDTH * 9
}

/// The label of an end of a patch, from `x`: the module's name and number,
/// a dot and the attribute's name; then the fill up to `end`.
pub open spec fn socket_label(
    module_name: &'static str,
    module_index: usize,
    attribute_name: &'static str,
    x: int,
    y: int,
    end: int,
    selected: bool,
) -> Seq<Shape> {
    let number_x = x + text_width(module_name);
    let dot_x = number_x + 2 * FONT_WIDTH;
    let name_x = dot_x + text_width(".");
    let end_x = name_x + text_width(attribute_name);
    seq![
        Shape::Text { text: module_name, x: x as i32, y: y as i32, highlighted: selected },
        Shape::Number { value: module_index, x: number_x as i32, y: y as i32, highlighted: selected },
        Shape::Text { text: ".", x: dot_x as i32, y: y as i32, highlighted: selected },
        Shape::Text { text: attribute_name, x: name_x as i32, y: y as i32, highlighted: selected },
        Shape::Fill {
            x: end_x as i32,
            y: (y - 9) as i32,
            width: (end - end_x) as i32 as u32,
            height: FONT_HEIGHT as u32,
            on: selected,
        },
    ]
}

/// The line of a patch's destination, at the left of the screen.
pub open spec fn destination_line(destination: Destination, row: int, selected: bool) -> Seq<Shape> {
    socket_label(
        destination.module_name,
        destination.module_index,
        destination.attribute_name,
        PADDING as int,
        row_baseline(row),
        arrow_x(),
        selected,
    )
}

/// The line of a patch's source, at the right of the screen; only the fill
/// when there is none.
pub open spec fn source_line(source: Option<Source>, row: int, selected: bool) -> Seq<Shape> {
    match source {
        Some(source) => socket_label(
            source.module_name,
            source.module_index,
            source.attribute_name,
            source_x(),
            row_baseline(row),
            DISPLAY_WIDTH - PADDING,
            selected,
        ),
        None => seq![
            Shape::Fill {
                x: source_x() as i32,
                y: (row_baseline(row) - 9) as i32,
                width: (DISPLAY_WIDTH - PADDING - source_x()) as u32,
                height: FONT_HEIGHT as u32,
                on: selected,
            },
        ],
    }
}

/// Writes a patch end's label with the cursor and fills up to `end`.
fn write_socket_label(
    cursor: &mut Cursor,
    module_name: &'static str,
    module_index: usize,
    attribute_name: &'static str,
    end: i32,
    shapes: &mut Vec<Shape>,
)
    requires
        short_label(module_name),
        short_label(attribute_name),
        module_index < 100,
        0 <= old(cursor).x <= DISPLAY_WIDTH,
        0 <= old(cursor).y <= DISPLAY_HEIGHT,
        0 <= end <= DISPLAY_WIDTH,
    ensures
        final(shapes)@ == old(shapes)@ + socket_label(
            module_name,
            module_index,
            attribute_name,
            old(cursor).x as int,
            old(cursor).y as int,
            end as int,
            old(cursor).highlighted,
        ),
{
    proof {
        reveal_strlit(".");
        vstd::string::is_ascii_spec_bytes(".");
    }
    cursor.write(module_name, shapes);
    cursor.write_number(module_index, shapes);
    cursor.write(".", shapes);
    cursor.write(attribute_name, shapes);
    cursor.space_until(end, shapes);
}

/// Draws the destination of a patch on line `index` of the screen.
pub fn draw_destination(destination: &Destination, index: usize, selected: bool, shapes: &mut Vec<Shape>)
    requires
        short_label(destination.module_name),
        short_label(destination.attribute_name),
        destination.module_index < 100,
        index < LINES_PER_PAGE,
    ensures
        final(shapes)@ == old(shapes)@ + destination_line(*destination, index as int, selected),
{
    let x = PADDING;
    let y = FONT_HEIGHT * (index + 1) as i32 - 1;

    let mut cursor = Cursor::new(x, y).with_highlight(selected);
    write_socket_label(
        &mut cursor,
        destination.module_name,
        destination.module_index,
        destination.attribute_name,
        DISPLAY_WIDTH / 2 - FONT_WIDTH / 2 - 2,
        shapes,
    );
}

/// Draws the source of a patch, if any, on line `index` of the screen.
pub fn draw_source(source: Option<&Source>, index: usize, selected: bool, shapes: &mut Vec<Shape>)
    requires
        source matches Some(s) ==> short_label(s.module_name) && short_label(s.attribute_name)
            && s.module_index < 100,
        index < LINES_PER_PAGE,
    ensures
        final(shapes)@ == old(shapes)@ + source_line(
            match source {
                Some(s) => Some(*s),
                None => None,
            },
            index as int,
            selected,
        ),
{
    let x = DISPLAY_WIDTH - PADDING - FONT_WIDTH * 9;
    let y = FONT_HEIGHT * (index + 1) as i32 - 1;

    let mut cursor = Cursor::new(x, y).with_highlight(selected);

    match source {
        Some(source) => {
            write_socket_label(
                &mut cursor,
                source.module_name,
                source.module_index,
                source.attribute_name,
                DISPLAY_WIDTH - PADDING,
                shapes,
            );
        },
        None => {
            cursor.space_until(DISPLAY_WIDTH - PADDING, shapes);
            assert(shapes@ =~= old(shapes)@ + source_line(None, index as int, selected));
        },
    }
}

/// Draws the arrow from a patch's source to its destination on line `index`
/// of the screen.
pub fn draw_arrow_left(index: usize, selected: bool, shapes: &mut Vec<Shape>)
    requires
        index < LINES_PER_PAGE,
    ensures
        final(shapes)@ == old(shapes)@ + arrow_shapes(arrow_x(), row_baseline(index as int), selected),
{
    let x = DISPLAY_WIDTH / 2 - FONT_WIDTH / 2 - 2;
    let y = FONT_HEIGHT * (index + 1) as i32 - 1;

    let mut cursor = Cursor::new(x, y).with_highlight(selected);

    cursor.arrow_left(shapes);
}

/// The line of a patch: its destination, an arrow and its source.
pub open spec fn patch_line(patch: Patch, row: int, selected: bool) -> Seq<Shape> {
    destination_line(patch.destination, row, selected) + arrow_shapes(arrow_x(), row_baseline(row), selected)
        + source_line(patch.source, row, selected)
}

/// Whether the labels of a patch can be laid out.
pub open spec fn patch_fits(patch: Patch) -> bool {
    &&& short_label(patch.destination.module_name)
    &&& short_label(patch.destination.attribute_name)
    &&& patch.destination.module_index < 100
    &&& patch.source matches Some(s) ==> short_label(s.module_name) && short_label(s.attribute_name)
        && s.module_index < 100
}

/// Draws `patch` on line `index` of the screen.
pub fn draw_patch(patch: &Patch, index: usize, selected: bool, shapes: &mut Vec<Shape>)
    requires
        patch_fits(*patch),
        index < LINES_PER_PAGE,
    ensures
        final(shapes)@ == old(shapes)@ + patch_line(*patch, index as int, selected),
{
    draw_destination(&patch.destination, index, selected, shapes);
    draw_arrow_left(index, selected, shapes);
    draw_source(patch.source.as_ref(), index, selected, shapes);
    assert(shapes@ =~= old(shapes)@ + patch_line(*patch, index as int, selected));
}

/// The line of a kind of module: its name.
pub open spec fn class_line(class: Class, row: int, selected: bool) -> Seq<Shape> {
    seq![Shape::Text { text: class.name, x: PADDING, y: row_baseline(row) as i32, highlighted: selected }]
}

/// Draws the name of `class` on line `index` of the screen.
pub fn draw_class(class: &Class, index: usize, selected: bool, shapes: &mut Vec<Shape>)
    requires
        short_label(class.name),
        index < LINES_PER_PAGE,
    ensures
        final(shapes)@ == old(shapes)@ + class_line(*class, index as int, selected),
{
    let y = FONT_HEIGHT * (index + 1) as i32 - 1;
    let mut cursor = Cursor::new(PADDING, y).with_highlight(selected);
    cursor.write(class.name, shapes);
}

/// The lines of `count` items of a list from item `first`, each on its own
/// line of the screen from the top, laid out by `line` from the item's
/// position in the list, its line and whether it is the selected one.
pub open spec fn rows(first: int, count: nat, selected: int, line: spec_fn(int, int, bool) -> Seq<Shape>) -> Seq<Shape>
    decreases count,
{
    if count == 0 {
        seq![]
    } else {
        rows(first, (count - 1) as nat, selected, line) + line(
            first + count - 1,
            count - 1,
            first + count - 1 == selected,
        )
    }
}

/// The lines of the page of a list that shows item `selected`.
pub open spec fn page_rows(len: int, selected: int, line: spec_fn(int, int, bool) -> Seq<Shape>) -> Seq<Shape> {
    let range = page_range(len, page_of(selected));
    rows(range.0, (range.1 - range.0 + 1) as nat, selected, line)
}

/// The line of a module and, when it is the selected one and has
/// attributes, the page of them that shows the selected attribute with its
/// scroll bar on the right.
pub open spec fn module_block(module: ModuleModel, row: int, selected: bool) -> Seq<Shape> {
    let len = module.attributes.len() as int;
    module_line(module.name, module.index, row, selected) + if selected && len > 0 {
        page_rows(
            len,
            module.selected_attribute as int,
            |k: int, r: int, s: bool| attribute_line(module.attributes[k], r, s),
        ).push(scroll_bar_shape(Side::Right, len, page_of(module.selected_attribute as int)))
    } else {
        seq![]
    }
}

/// What the screen shows of the list of modules.
pub open spec fn modules_picture(s: StateModel) -> Seq<Shape> {
    let len = s.modules.len() as int;
    page_rows(len, s.selected_module as int, |k: int, r: int, sel: bool| module_block(s.modules[k], r, sel)).push(
        scroll_bar_shape(Side::Left, len, page_of(s.selected_module as int)),
    )
}

/// What the screen shows of the list of patches.
pub open spec fn patches_picture(s: StateModel) -> Seq<Shape> {
    let len = s.patches.len() as int;
    page_rows(len, s.selected_patch as int, |k: int, r: int, sel: bool| patch_line(s.patches[k], r, sel)).push(
        scroll_bar_shape(Side::Left, len, page_of(s.selected_patch as int)),
    )
}

/// What the screen shows while a patch's source is chosen: the patch's
/// destination and arrow on the first line, over the page of sources that
/// shows the selected one.
pub open spec fn patch_edit_picture(s: StateModel) -> Seq<Shape> {
    let patch = s.patches[s.selected_patch as int];
    destination_line(patch.destination, 0, false) + arrow_shapes(arrow_x(), row_baseline(0), false)
        + page_rows(
        s.patch_edit_sources.len() as int,
        s.patch_edit_selected_source as int,
        |k: int, r: int, sel: bool| source_line(Some(s.patch_edit_sources[k]), r, sel),
    )
}

/// What the screen shows while a kind of module to add is chosen: the page
/// of kinds that shows the selected one, with its scroll bar; nothing when
/// there are none.
pub open spec fn module_add_picture(s: StateModel) -> Seq<Shape> {
    let len = s.classes.len() as int;
    if len == 0 {
        seq![]
    } else {
        page_rows(len, s.selected_class as int, |k: int, r: int, sel: bool| class_line(s.classes[k], r, sel)).push(
            scroll_bar_shape(Side::Left, len, page_of(s.selected_class as int)),
        )
    }
}

/// What the screen shows of the state: a cleared screen, then the view.
pub open spec fn picture(s: StateModel) -> Seq<Shape> {
    seq![blank_shape()] + match s.view {
        View::Modules => modules_picture(s),
        View::Patches => patches_picture(s),
        View::PatchEdit => patch_edit_picture(s),
        View::ModuleAdd => module_add_picture(s),
    }
}

/// The labels of the state are short enough, and the numbers of its
/// modules small enough, to be laid out.
pub open spec fn labels_fit(s: StateModel) -> bool {
    &&& forall|i: int|
        0 <= i < s.modules.len() ==> short_label((#[trigger] s.modules[i]).name) && s.modules[i].index
            < 100 && forall|j: int|
            0 <= j < s.modules[i].attributes.len() ==> short_label(
                (#[trigger] s.modules[i].attributes[j]).name,
            )
    &&& forall|i: int| 0 <= i < s.patches.len() ==> patch_fits(#[trigger] s.patches[i])
    &&& forall|i: int|
        0 <= i < s.patch_edit_sources.len() ==> short_label(
            (#[trigger] s.patch_edit_sources[i]).module_name,
        ) && short_label(s.patch_edit_sources[i].attribute_name) && s.patch_edit_sources[i].module_index
            < 100
    &&& forall|i: int| 0 <= i < s.classes.len() ==> short_label((#[trigger] s.classes[i]).name)
}

/// The state can be shown: its labels fit, and the list of its view is not
/// empty and has a page that shows its selected item.
pub open spec fn can_layout(s: StateModel) -> bool {
    &&& labels_fit(s)
    &&& match s.view {
        View::Modules => {
            &&& page_shown(s.modules.len() as int, page_of(s.selected_module as int))
            &&& s.selected_module < s.modules.len() && s.modules[s.selected_module as int].attributes.len()
                > 0 ==> page_shown(
                s.modules[s.selected_module as int].attributes.len() as int,
                page_of(s.modules[s.selected_module as int].selected_attribute as int),
            )
        },
        View::Patches => page_shown(s.patches.len() as int, page_of(s.selected_patch as int)),
        View::PatchEdit => {
            &&& s.selected_patch < s.patches.len()
            &&& page_shown(
                s.patch_edit_sources.len() as int,
                page_of(s.patch_edit_selected_source as int),
            )
        },
        View::ModuleAdd => s.classes.len() > 0 ==> page_shown(
            s.classes.len() as int,
            page_of(s.selected_class as int),
        ),
    }
}

/// Draws the page of `module`'s attributes that shows the selected one,
/// and its scroll bar.
fn draw_attributes_page(module: &Module, shapes: &mut Vec<Shape>)
    requires
        page_shown(module.attributes.len() as int, page_of(module.selected_attribute as int)),
        forall|j: int| 0 <= j < module.attributes.len() ==> short_label((#[trigger] module.attributes@[j]).name),
    ensures
        final(shapes)@ == old(shapes)@ + page_rows(
            module.attributes.len() as int,
            module.selected_attribute as int,
            |k: int, r: int, s: bool| attribute_line(module@.attributes[k], r, s),
        ).push(
            scroll_bar_shape(
                Side::Right,
                module.attributes.len() as int,
                page_of(module.selected_attribute as int),
            ),
        ),
{
    let ghost line = |k: int, r: int, s: bool| attribute_line(module@.attributes[k], r, s);
    let attributes_page = selected_item_to_page(module.selected_attribute);
    let (list_start, list_stop) = range_for_items_page(module.attributes.len(), attributes_page);
    let count = list_stop + 1 - list_start;
    let mut i: usize = 0;
    while i < count
        invariant
            i <= count,
            count <= LINES_PER_PAGE,
            list_start + count <= module.attributes.len(),
            list_start == page_range(module.attributes.len() as int, page_of(module.selected_attribute as int)).0,
            count == page_range(module.attributes.len() as int, page_of(module.selected_attribute as int)).1
                + 1 - list_start,
            forall|j: int| 0 <= j < module.attributes.len() ==> short_label((#[trigger] module.attributes@[j]).name),
            line == (|k: int, r: int, s: bool| attribute_line(module@.attributes[k], r, s)),
            shapes@ == old(shapes)@ + rows(list_start as int, i as nat, module.selected_attribute as int, line),
        decreases count - i,
    {
        let selected = list_start + i == module.selected_attribute;
        draw_attribute(&module.attributes[list_start + i], i, selected, shapes);
        proof {
            let first = list_start as int;
            let chosen = module.selected_attribute as int;
            assert(rows(first, (i + 1) as nat, chosen, line) == rows(first, i as nat, chosen, line) + line(
                first + i,
                i as int,
                selected,
            ));
            assert(line(first + i, i as int, selected) == attribute_line(
                module.attributes@[first + i],
                i as int,
                selected,
            ));
        }
        i += 1;
    }
    draw_scroll_bar(Side::Right, module.attributes.len(), attributes_page, shapes);
}

/// Draws the page of the list of modules that shows the selected one, the
/// selected module with its attributes, and the scroll bar.
fn update_modules(state: &State, shapes: &mut Vec<Shape>)
    requires
        labels_fit(state@),
        page_shown(state.modules.len() as int, page_of(state.selected_module as int)),
        state.selected_module < state.modules.len() && state.modules@[state.selected_module as int].attributes.len()
            > 0 ==> page_shown(
            state.modules@[state.selected_module as int].attributes.len() as int,
            page_of(state.modules@[state.selected_module as int].selected_attribute as int),
        ),
    ensures
        final(shapes)@ == old(shapes)@ + modules_picture(state@),
{
    let ghost s = state@;
    let ghost line = |k: int, r: int, sel: bool| module_block(s.modules[k], r, sel);
    let modules_page = selected_item_to_page(state.selected_module);
    let (list_start, list_stop) = range_for_items_page(state.modules.len(), modules_page);
    let count = list_stop + 1 - list_start;
    let mut i: usize = 0;
    while i < count
        invariant
            i <= count,
            count <= LINES_PER_PAGE,
            s == state@,
            list_start + count <= state.modules.len(),
            list_start == page_range(state.modules.len() as int, page_of(state.selected_module as int)).0,
            count == page_range(state.modules.len() as int, page_of(state.selected_module as int)).1 + 1
                - list_start,
            labels_fit(s),
            state.selected_module < state.modules.len() && state.modules@[state.selected_module as int].attributes.len()
                > 0 ==> page_shown(
                state.modules@[state.selected_module as int].attributes.len() as int,
                page_of(state.modules@[state.selected_module as int].selected_attribute as int),
            ),
            line == (|k: int, r: int, sel: bool| module_block(s.modules[k], r, sel)),
            shapes@ == old(shapes)@ + rows(list_start as int, i as nat, state.selected_module as int, line),
        decreases count - i,
    {
        let module = &state.modules[list_start + i];
        let selected = list_start + i == state.selected_module;
        let ghost before = shapes@;
        proof {
            assert(s.modules[list_start + i] == module@);
            assert(short_label(s.modules[list_start + i].name));
        }
        draw_module(module, i, selected, shapes);

        if selected && module.attributes.len() > 0 {
            proof {
                assert forall|j: int| 0 <= j < module.attributes.len() implies short_label(
                    (#[trigger] module.attributes@[j]).name,
                ) by {
                    assert(module.attributes@[j] == s.modules[list_start + i].attributes[j]);
                }
            }
            draw_attributes_page(module, shapes);
        }
        proof {
            let first = list_start as int;
            let chosen = state.selected_module as int;
            assert(rows(first, (i + 1) as nat, chosen, line) == rows(first, i as nat, chosen, line) + line(
                first + i,
                i as int,
                selected,
            ));
            assert(shapes@ =~= before + module_block(module@, i as int, selected));
        }
        i += 1;
    }
    draw_scroll_bar(Side::Left, state.modules.len(), modules_page, shapes);
}

/// Draws the page of the list of patches that shows the selected one, and
/// the scroll bar.
fn update_patches(state: &State, shapes: &mut Vec<Shape>)
    requires
        labels_fit(state@),
        page_shown(state.patches.len() as int, page_of(state.selected_patch as int)),
    ensures
        final(shapes)@ == old(shapes)@ + patches_picture(state@),
{
    let ghost s = state@;
    let ghost line = |k: int, r: int, sel: bool| patch_line(s.patches[k], r, sel);
    let patches_page = selected_item_to_page(state.selected_patch);
    let (list_start, list_stop) = range_for_items_page(state.patches.len(), patches_page);
    let count = list_stop + 1 - list_start;
    let mut i: usize = 0;
    while i < count
        invariant
            i <= count,
            count <= LINES_PER_PAGE,
            s == state@,
            list_start + count <= state.patches.len(),
            list_start == page_range(state.patches.len() as int, page_of(state.selected_patch as int)).0,
            count == page_range(state.patches.len() as int, page_of(state.selected_patch as int)).1 + 1
                - list_start,
            labels_fit(s),
            line == (|k: int, r: int, sel: bool| patch_line(s.patches[k], r, sel)),
            shapes@ == old(shapes)@ + rows(list_start as int, i as nat, state.selected_patch as int, line),
        decreases count - i,
    {
        let selected = list_start + i == state.selected_patch;
        proof {
            assert(patch_fits(s.patches[list_start + i]));
        }
        draw_patch(&state.patches[list_start + i], i, selected, shapes);
        proof {
            let first = list_start as int;
            let chosen = state.selected_patch as int;
            assert(rows(first, (i + 1) as nat, chosen, line) == rows(first, i as nat, chosen, line) + line(
                first + i,
                i as int,
                selected,
            ));
        }
        i += 1;
    }
    draw_scroll_bar(Side::Left, state.patches.len(), patches_page, shapes);
}

/// Draws the selected patch's destination and arrow, and the page of
/// sources that shows the selected one.
fn update_patch_edit(state: &State, shapes: &mut Vec<Shape>)
    requires
        labels_fit(state@),
        state.selected_patch < state.patches.len(),
        page_shown(
            state.patch_edit_sources.len() as int,
            page_of(state.patch_edit_selected_source as int),
        ),
    ensures
        final(shapes)@ == old(shapes)@ + patch_edit_picture(state@),
{
    let ghost s = state@;
    let patch = &state.patches[state.selected_patch];
    proof {
        assert(patch_fits(s.patches[state.selected_patch as int]));
    }
    draw_destination(&patch.destination, 0, false, shapes);
    draw_arrow_left(0, false, shapes);
    let ghost head = shapes@;

    let ghost line = |k: int, r: int, sel: bool| source_line(Some(s.patch_edit_sources[k]), r, sel);
    let sources_page = selected_item_to_page(state.patch_edit_selected_source);
    let (list_start, list_stop) = range_for_items_page(state.patch_edit_sources.len(), sources_page);
    let count = list_stop + 1 - list_start;
    let mut i: usize = 0;
    while i < count
        invariant
            i <= count,
            count <= LINES_PER_PAGE,
            s == state@,
            list_start + count <= state.patch_edit_sources.len(),
            list_start == page_range(
                state.patch_edit_sources.len() as int,
                page_of(state.patch_edit_selected_source as int),
            ).0,
            count == page_range(
                state.patch_edit_sources.len() as int,
                page_of(state.patch_edit_selected_source as int),
            ).1 + 1 - list_start,
            labels_fit(s),
            line == (|k: int, r: int, sel: bool| source_line(Some(s.patch_edit_sources[k]), r, sel)),
            shapes@ == head + rows(
                list_start as int,
                i as nat,
                state.patch_edit_selected_source as int,
                line,
            ),
        decreases count - i,
    {
        let selected = list_start + i == state.patch_edit_selected_source;
        let source = &state.patch_edit_sources[list_start + i];
        proof {
            assert(s.patch_edit_sources[list_start + i] == *source);
        }
        draw_source(Some(source), i, selected, shapes);
        proof {
            let first = list_start as int;
            let chosen = state.patch_edit_selected_source as int;
            assert(rows(first, (i + 1) as nat, chosen, line) == rows(first, i as nat, chosen, line) + line(
                first + i,
                i as int,
                selected,
            ));
        }
        i += 1;
    }
    assert(shapes@ =~= old(shapes)@ + patch_edit_picture(s));
}

/// Draws the page of kinds of modules that shows the selected one, and the
/// scroll bar; nothing when there are none.
fn update_module_add(state: &State, shapes: &mut Vec<Shape>)
    requires
        labels_fit(state@),
        state.classes.len() > 0 ==> page_shown(state.classes.len() as int, page_of(state.selected_class as int)),
    ensures
        final(shapes)@ == old(shapes)@ + module_add_picture(state@),
{
    if state.classes.len() == 0 {
        assert(shapes@ =~= old(shapes)@ + module_add_picture(state@));
        return ;
    }
    let ghost s = state@;
    let ghost line = |k: int, r: int, sel: bool| class_line(s.classes[k], r, sel);
    let classes_page = selected_item_to_page(state.selected_class);
    let (list_start, list_stop) = range_for_items_page(state.classes.len(), classes_page);
    let count = list_stop + 1 - list_start;
    let mut i: usize = 0;
    while i < count
        invariant
            i <= count,
            count <= LINES_PER_PAGE,
            s == state@,
            list_start + count <= state.classes.len(),
            list_start == page_range(state.classes.len() as int, page_of(state.selected_class as int)).0,
            count == page_range(state.classes.len() as int, page_of(state.selected_class as int)).1 + 1
                - list_start,
            labels_fit(s),
            line == (|k: int, r: int, sel: bool| class_line(s.classes[k], r, sel)),
            shapes@ == old(shapes)@ + rows(list_start as int, i as nat, state.selected_class as int, line),
        decreases count - i,
    {
        let selected = list_start + i == state.selected_class;
        let class = &state.classes[list_start + i];
        proof {
            assert(s.classes[list_start + i] == *class);
        }
        draw_class(class, i, selected, shapes);
        proof {
            let first = list_start as int;
            let chosen = state.selected_class as int;
            assert(rows(first, (i + 1) as nat, chosen, line) == rows(first, i as nat, chosen, line) + line(
                first + i,
                i as int,
                selected,
            ));
        }
        i += 1;
    }
    draw_scroll_bar(Side::Left, state.classes.len(), classes_page, shapes);
}

/// The shapes that show `state` on the screen: a cleared screen, then its
/// view.
pub fn layout(state: &State) -> (r: Vec<Shape>)
    requires
        can_layout(state@),
    ensures
        r@ == picture(state@),
{
    let mut shapes = Vec::new();
    draw_blank(&mut shapes);
    match state.view {
        View::Modules => update_modules(state, &mut shapes),
        View::Patches => update_patches(state, &mut shapes),
        View::PatchEdit => update_patch_edit(state, &mut shapes),
        View::ModuleAdd => update_module_add(state, &mut shapes),
    }
    shapes
}

/// Whether `text` is short enough to be laid out.
fn is_short_label(text: &str) -> (r: bool)
    ensures
        r == short_label(text),
{
    text.as_bytes().len() <= MAX_LABEL_BYTES
}

/// Whether a patch's labels can be laid out.
fn patch_labels_fit(patch: &Patch) -> (r: bool)
    ensures
        r == patch_fits(*patch),
{
    let destination_fits = is_short_label(patch.destination.module_name) && is_short_label(
        patch.destination.attribute_name,
    ) && patch.destination.module_index < 100;
    match &patch.source {
        Some(source) => destination_fits && is_short_label(source.module_name) && is_short_label(
            source.attribute_name,
        ) && source.module_index < 100,
        None => destination_fits,
    }
}

/// Whether the labels of `state` fit.
fn state_labels_fit(state: &State) -> (r: bool)
    ensures
        r == labels_fit(state@),
{
    let ghost s = state@;
    let mut i: usize = 0;
    while i < state.modules.len()
        invariant
            i <= state.modules.len(),
            s == state@,
            forall|k: int|
                0 <= k < i ==> short_label((#[trigger] s.modules[k]).name) && s.modules[k].index < 100
                    && forall|j: int|
                    0 <= j < s.modules[k].attributes.len() ==> short_label(
                        (#[trigger] s.modules[k].attributes[j]).name,
                    ),
        decreases state.modules.len() - i,
    {
        let module = &state.modules[i];
        assert(s.modules[i as int] == module@);
        if !is_short_label(module.name) || module.index >= 100 {
            return false;
        }
        let mut j: usize = 0;
        while j < module.attributes.len()
            invariant
                j <= module.attributes.len(),
                s == state@,
                i < s.modules.len(),
                s.modules[i as int].attributes == module.attributes@,
                forall|a: int| 0 <= a < j ==> short_label((#[trigger] module.attributes@[a]).name),
            decreases module.attributes.len() - j,
        {
            if !is_short_label(module.attributes[j].name) {
                assert(!short_label(s.modules[i as int].attributes[j as int].name));
                return false;
            }
            j += 1;
        }
        assert(forall|a: int|
            0 <= a < s.modules[i as int].attributes.len() ==> short_label(
                (#[trigger] s.modules[i as int].attributes[a]).name,
            ));
        i += 1;
    }
    let mut i: usize = 0;
    while i < state.patches.len()
        invariant
            i <= state.patches.len(),
            s == state@,
            forall|k: int| 0 <= k < i ==> patch_fits(#[trigger] s.patches[k]),
        decreases state.patches.len() - i,
    {
        if !patch_labels_fit(&state.patches[i]) {
            assert(!patch_fits(s.patches[i as int]));
            return false;
        }
        i += 1;
    }
    let mut i: usize = 0;
    while i < state.patch_edit_sources.len()
        invariant
            i <= state.patch_edit_sources.len(),
            s == state@,
            forall|k: int|
                0 <= k < i ==> short_label((#[trigger] s.patch_edit_sources[k]).module_name) && short_label(
                    s.patch_edit_sources[k].attribute_name,
                ) && s.patch_edit_sources[k].module_index < 100,
        decreases state.patch_edit_sources.len() - i,
    {
        let source = &state.patch_edit_sources[i];
        if !is_short_label(source.module_name) || !is_short_label(source.attribute_name)
            || source.module_index >= 100 {
            assert(s.patch_edit_sources[i as int] == *source);
            return false;
        }
        i += 1;
    }
    let mut i: usize = 0;
    while i < state.classes.len()
        invariant
            i <= state.classes.len(),
            s == state@,
            forall|k: int| 0 <= k < i ==> short_label((#[trigger] s.classes[k]).name),
        decreases state.classes.len() - i,
    {
        if !is_short_label(state.classes[i].name) {
            assert(!short_label(s.classes[i as int].name));
            return false;
        }
        i += 1;
    }
    true
}

/// Whether a page of a list of `len` items can be shown.
fn is_page_shown(len: usize, page: usize) -> (r: bool)
    ensures
        r == page_shown(len as int, page as int),
{
    assert((page <= len / 5) == (page * 5 <= len)) by (nonlinear_arith);
    1 <= len && len <= i32::MAX as usize && page <= len / LINES_PER_PAGE
}

/// Whether `state` can be shown on the screen.
pub fn fits_screen(state: &State) -> (r: bool)
    ensures
        r == can_layout(state@),
{
    if !state_labels_fit(state) {
        return false;
    }
    match state.view {
        View::Modules => {
            if !is_page_shown(state.modules.len(), selected_item_to_page(state.selected_module)) {
                return false;
            }
            if state.selected_module < state.modules.len() {
                let module = &state.modules[state.selected_module];
                if module.attributes.len() > 0 {
                    return is_page_shown(
                        module.attributes.len(),
                        selected_item_to_page(module.selected_attribute),
                    );
                }
            }
            true
        },
        View::Patches => is_page_shown(state.patches.len(), selected_item_to_page(state.selected_patch)),
        View::PatchEdit => state.selected_patch < state.patches.len() && is_page_shown(
            state.patch_edit_sources.len(),
            selected_item_to_page(state.patch_edit_selected_source),
        ),
        View::ModuleAdd => state.classes.len() == 0 || is_page_shown(
            state.classes.len(),
            selected_item_to_page(state.selected_class),
        ),
    }
}

} // verus!
