use proton::display::{
    draw_scroll_bar, layout, range_for_items_page, selected_item_to_page, Cursor, Shape, Side,
};
use proton::model::state::{
    Attribute, Class, ConsumerId, Destination, Module, NodeId, Patch, ProducerId, Source, State,
    View,
};

fn blank() -> Shape {
    Shape::Fill { x: 0, y: 0, width: 128, height: 64, on: false }
}

fn module(name: &'static str, index: usize, node: u32) -> Module {
    Module::new_for_node(NodeId(node))
        .with_name(name)
        .with_index(index)
        .with_attribute(Attribute::new_for_consumer(ConsumerId(node * 10)).with_name("IN"))
        .with_attribute(Attribute::new_for_producer(ProducerId(node * 10 + 1)).with_name("OUT"))
}

#[test]
fn pages_hold_five_lines() {
    assert_eq!(selected_item_to_page(0), 0);
    assert_eq!(selected_item_to_page(4), 0);
    assert_eq!(selected_item_to_page(5), 1);
    assert_eq!(selected_item_to_page(12), 2);
    assert_eq!(range_for_items_page(3, 0), (0, 2));
    assert_eq!(range_for_items_page(12, 1), (5, 9));
    assert_eq!(range_for_items_page(12, 2), (10, 11));
}

#[test]
fn scroll_bar_marks_the_section_of_the_page() {
    let mut shapes = Vec::new();
    draw_scroll_bar(Side::Left, 12, 0, &mut shapes);
    draw_scroll_bar(Side::Left, 12, 1, &mut shapes);
    draw_scroll_bar(Side::Right, 12, 2, &mut shapes);
    draw_scroll_bar(Side::Left, 3, 0, &mut shapes);
    assert_eq!(
        shapes,
        vec![
            Shape::Line { x0: 0, y0: 0, x1: 0, y1: 20, on: true },
            Shape::Line { x0: 0, y0: 21, x1: 0, y1: 41, on: true },
            Shape::Line { x0: 127, y0: 42, x1: 127, y1: 64, on: true },
            Shape::Line { x0: 0, y0: 0, x1: 0, y1: 64, on: true },
        ]
    );
}

#[test]
fn cursor_moves_past_what_it_writes() {
    let mut shapes = Vec::new();
    let mut cursor = Cursor::new(5, 11).with_highlight(true);
    cursor.write("OSC", &mut shapes);
    cursor.write_number(7, &mut shapes);
    cursor.space_until(40, &mut shapes);
    cursor.arrow_left(&mut shapes);
    assert_eq!(cursor.x, 50);
    assert_eq!(
        shapes,
        vec![
            Shape::Text { text: "OSC", x: 5, y: 11, highlighted: true },
            Shape::Number { value: 7, x: 23, y: 11, highlighted: true },
            Shape::Fill { x: 35, y: 2, width: 5, height: 12, on: true },
            Shape::Fill { x: 40, y: 2, width: 10, height: 12, on: true },
            Shape::Triangle { x0: 42, y0: 8, x1: 44, y1: 6, x2: 44, y2: 10, on: false },
            Shape::Line { x0: 42, y0: 8, x1: 47, y1: 8, on: false },
        ]
    );
}

#[test]
fn modules_view_shows_the_selected_modules_attributes() {
    let mut state = State::default();
    state.view = View::Modules;
    state.modules.push(module("OSC", 1, 1));
    let mut mixer = module("MIX", 2, 2);
    mixer.attributes[1].connected = true;
    mixer.selected_attribute = 1;
    state.modules.push(mixer);
    state.selected_module = 1;

    assert_eq!(
        layout(&state),
        vec![
            blank(),
            Shape::Text { text: "OSC", x: 5, y: 11, highlighted: false },
            Shape::Number { value: 1, x: 23, y: 11, highlighted: false },
            Shape::Text { text: "MIX", x: 5, y: 23, highlighted: true },
            Shape::Number { value: 2, x: 23, y: 23, highlighted: true },
            Shape::Text { text: " ", x: 39, y: 11, highlighted: false },
            Shape::Text { text: "IN", x: 45, y: 11, highlighted: false },
            Shape::Fill { x: 57, y: 2, width: 66, height: 12, on: false },
            Shape::Text { text: "<", x: 39, y: 23, highlighted: true },
            Shape::Text { text: "OUT", x: 45, y: 23, highlighted: true },
            Shape::Fill { x: 63, y: 14, width: 60, height: 12, on: true },
            Shape::Line { x0: 127, y0: 0, x1: 127, y1: 64, on: true },
            Shape::Line { x0: 0, y0: 0, x1: 0, y1: 64, on: true },
        ]
    );
}

#[test]
fn patches_view_shows_destination_arrow_and_source() {
    let mut state = State::default();
    state.view = View::Patches;
    state.patches.push(Patch {
        source: Some(Source {
            producer: ProducerId(3),
            module_name: "OSC",
            module_index: 1,
            attribute_name: "OUT",
        }),
        destination: Destination {
            consumer: ConsumerId(4),
            module_name: "MIX",
            module_index: 2,
            attribute_name: "IN",
        },
    });

    assert_eq!(
        layout(&state),
        vec![
            blank(),
            Shape::Text { text: "MIX", x: 5, y: 11, highlighted: true },
            Shape::Number { value: 2, x: 23, y: 11, highlighted: true },
            Shape::Text { text: ".", x: 35, y: 11, highlighted: true },
            Shape::Text { text: "IN", x: 41, y: 11, highlighted: true },
            Shape::Fill { x: 53, y: 2, width: 6, height: 12, on: true },
            Shape::Fill { x: 59, y: 2, width: 10, height: 12, on: true },
            Shape::Triangle { x0: 61, y0: 8, x1: 63, y1: 6, x2: 63, y2: 10, on: false },
            Shape::Line { x0: 61, y0: 8, x1: 66, y1: 8, on: false },
            Shape::Text { text: "OSC", x: 69, y: 11, highlighted: true },
            Shape::Number { value: 1, x: 87, y: 11, highlighted: true },
            Shape::Text { text: ".", x: 99, y: 11, highlighted: true },
            Shape::Text { text: "OUT", x: 105, y: 11, highlighted: true },
            Shape::Fill { x: 123, y: 2, width: 0, height: 12, on: true },
            Shape::Line { x0: 0, y0: 0, x1: 0, y1: 64, on: true },
        ]
    );
}

#[test]
fn patch_edit_view_lists_sources_under_the_destination() {
    let mut state = State::default();
    state.view = View::PatchEdit;
    state.patches.push(Patch::new_for_consumer(ConsumerId(9)));
    for index in 0..7 {
        state.patch_edit_sources.push(Source {
            producer: ProducerId(index),
            module_name: "OSC",
            module_index: index as usize,
            attribute_name: "OUT",
        });
    }
    state.patch_edit_selected_source = 6;

    let shapes = layout(&state);
    assert_eq!(shapes.len(), 1 + 5 + 3 + 2 * 5);
    assert_eq!(shapes[9], Shape::Text { text: "OSC", x: 69, y: 11, highlighted: false });
    assert_eq!(shapes[10], Shape::Number { value: 5, x: 87, y: 11, highlighted: false });
    assert_eq!(shapes[15], Shape::Number { value: 6, x: 87, y: 23, highlighted: true });
}

#[test]
fn module_add_view_lists_kinds_of_modules() {
    let mut state = State::default();
    state.view = View::ModuleAdd;
    assert_eq!(layout(&state), vec![blank()]);

    state.classes.push(Class { name: "OSC", description: "oscillator" });
    state.classes.push(Class { name: "MIX", description: "mixer" });
    state.selected_class = 1;
    assert_eq!(
        layout(&state),
        vec![
            blank(),
            Shape::Text { text: "OSC", x: 5, y: 11, highlighted: false },
            Shape::Text { text: "MIX", x: 5, y: 23, highlighted: true },
            Shape::Line { x0: 0, y0: 0, x1: 0, y1: 64, on: true },
        ]
    );
}
