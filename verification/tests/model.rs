use proton::model::reaction::Reaction;
use proton::model::reduce::{
    find_connected_patch_with_producer, instantiate_module, is_wf, reduce, Action,
};
use proton::model::state::{
    Attribute, Class, ConsumerId, Module, NodeId, Patch, ProducerId, Socket, Source, State, View,
};

/// Stands in for the signal graph: the edges the model asked for.
struct TestContext {
    edges: Vec<(ProducerId, ConsumerId)>,
    next_node: u32,
    pub state: State,
}

fn producer_of(node: NodeId) -> ProducerId {
    ProducerId(node.0)
}

fn consumer_of(node: NodeId) -> ConsumerId {
    ConsumerId(node.0)
}

impl TestContext {
    fn new() -> Self {
        Self { edges: Vec::new(), next_node: 0, state: State::default() }
    }

    fn add_node(&mut self) -> NodeId {
        let node = NodeId(self.next_node);
        self.next_node += 1;
        node
    }

    fn has_edge(&self, producer: ProducerId, consumer: ConsumerId) -> bool {
        self.edges.contains(&(producer, consumer))
    }

    fn with_two_modules(mut self) -> Self {
        self.add_source_module();
        self.add_destination_module();
        self
    }

    fn with_one_patch(mut self) -> Self {
        let source = self.add_source_module();
        let destination = self.add_destination_module();
        self.add_patch(source, destination);
        self
    }

    fn with_two_patches(mut self) -> Self {
        let source = self.add_source_module();
        let destination1 = self.add_destination_module();
        let destination2 = self.add_destination_module();
        self.add_patch(source, destination1);
        self.add_patch(source, destination2);
        self
    }

    fn with_two_classes(mut self) -> Self {
        self.add_class();
        self.add_class();
        self
    }

    fn add_class(&mut self) {
        self.state.classes.push(Class { name: "", description: "" });
    }

    fn add_source_module(&mut self) -> NodeId {
        let node_handle = self.add_node();
        self.state.modules.push(
            Module::new_for_node(node_handle)
                .with_attribute(Attribute::new_for_producer(producer_of(node_handle))),
        );
        node_handle
    }

    fn add_destination_module(&mut self) -> NodeId {
        let node_handle = self.add_node();
        self.state.modules.push(
            Module::new_for_node(node_handle)
                .with_attribute(Attribute::new_for_consumer(consumer_of(node_handle))),
        );
        self.state.patches.push(Patch::new_for_consumer(consumer_of(node_handle)));
        node_handle
    }

    fn find_module_mut(&mut self, handle: NodeId) -> Option<&mut Module> {
        self.state.modules.iter_mut().find(|m| m.handle == handle)
    }

    fn find_patch_mut(&mut self, consumer: ConsumerId) -> Option<&mut Patch> {
        self.state.patches.iter_mut().find(|p| p.destination.consumer == consumer)
    }

    fn add_patch(&mut self, source: NodeId, destination: NodeId) {
        self.edges.push((producer_of(source), consumer_of(destination)));
        self.find_patch_mut(consumer_of(destination)).unwrap().source = Some(Source {
            producer: producer_of(source),
            module_name: "",
            module_index: 0,
            attribute_name: "",
        });
        self.find_module_mut(source).unwrap().attributes[0].connected = true;
        self.find_module_mut(destination).unwrap().attributes[0].connected = true;
    }

    fn register(&mut self, _name: &'static str) -> Module {
        let node = self.add_node();
        Module::new_for_node(node).with_attribute(Attribute::new_for_consumer(consumer_of(node)))
    }

    fn reduce(&mut self, action: Action) {
        match reduce(&mut self.state, action) {
            Some(Reaction::ConnectPatch(producer, consumer)) => {
                self.edges.push((producer, consumer));
            },
            Some(Reaction::RemovePatch(producer, consumer)) => {
                self.edges.retain(|e| *e != (producer, consumer));
            },
            Some(Reaction::InstantiateClass(name)) => {
                let module = self.register(name);
                instantiate_module(&mut self.state, module);
            },
            None => {},
        }
    }
}

#[test]
fn when_clicked_alpha_toggles_between_modules_and_patches() {
    let mut context = TestContext::new();
    assert!(matches!(context.state.view, View::Modules));

    context.reduce(Action::AlphaClick);
    assert!(matches!(context.state.view, View::Patches));

    context.reduce(Action::AlphaClick);
    assert!(matches!(context.state.view, View::Modules));
}

#[test]
fn when_modules_are_empty_alpha_up_does_nothing() {
    let mut context = TestContext::new();
    let selected_before = context.state.selected_module;

    context.reduce(Action::AlphaUp);
    assert!(context.state.selected_module == selected_before);
}

#[test]
fn when_at_the_top_of_modules_alpha_up_moves_to_last() {
    let mut context = TestContext::new().with_two_modules();
    assert_eq!(context.state.selected_module, 0);
    context.reduce(Action::AlphaUp);
    assert_eq!(context.state.selected_module, 1);
}

#[test]
fn when_at_the_bottom_of_modules_alpha_up_goes_to_previous() {
    let mut context = TestContext::new().with_two_modules();
    context.state.selected_module = 1;

    context.reduce(Action::AlphaUp);
    assert_eq!(context.state.selected_module, 0);
}

#[test]
fn when_modules_are_empty_alpha_down_does_nothing() {
    let mut context = TestContext::new();
    let selected_before = context.state.selected_module;

    context.reduce(Action::AlphaDown);
    assert!(context.state.selected_module == selected_before);
}

#[test]
fn when_at_the_top_of_modules_alpha_down_moves_to_next() {
    let mut context = TestContext::new().with_two_modules();
    assert_eq!(context.state.selected_module, 0);
    context.reduce(Action::AlphaDown);
    assert_eq!(context.state.selected_module, 1);
}

#[test]
fn when_at_the_bottom_of_modules_alpha_down_goes_to_start() {
    let mut context = TestContext::new().with_two_modules();
    context.state.selected_module = 1;

    context.reduce(Action::AlphaDown);
    assert_eq!(context.state.selected_module, 0);
}

#[test]
fn when_patches_are_empty_alpha_or_beta_up_does_nothing() {
    for action in [Action::AlphaUp, Action::BetaUp] {
        let mut context = TestContext::new();
        context.state.view = View::Patches;
        let selected_patch_before = context.state.selected_patch;

        context.reduce(action);
        assert!(context.state.selected_patch == selected_patch_before);
    }
}

#[test]
fn when_at_the_top_of_patches_alpha_or_beta_up_moves_to_last() {
    for action in [Action::AlphaUp, Action::BetaUp] {
        let mut context = TestContext::new().with_two_patches();
        context.state.view = View::Patches;

        assert_eq!(context.state.selected_patch, 0);
        context.reduce(action);
        assert_eq!(context.state.selected_patch, 1);
    }
}

#[test]
fn when_at_the_bottom_of_patches_alpha_or_beta_up_goes_to_previous() {
    for action in [Action::AlphaUp, Action::BetaUp] {
        let mut context = TestContext::new().with_two_patches();
        context.state.view = View::Patches;
        context.state.selected_patch = 1;

        context.reduce(action);
        assert_eq!(context.state.selected_patch, 0);
    }
}

#[test]
fn when_patches_are_empty_alpha_or_beta_down_does_nothing() {
    for action in [Action::AlphaDown, Action::BetaDown] {
        let mut context = TestContext::new();
        context.state.view = View::Patches;
        let selected_patch_before = context.state.selected_patch;

        context.reduce(action);
        assert!(context.state.selected_patch == selected_patch_before);
    }
}

#[test]
fn when_at_the_top_of_patches_alpha_or_beta_down_moves_to_next() {
    for action in [Action::AlphaDown, Action::BetaDown] {
        let mut context = TestContext::new().with_two_patches();
        context.state.view = View::Patches;

        assert_eq!(context.state.selected_patch, 0);
        context.reduce(action);
        assert_eq!(context.state.selected_patch, 1);
    }
}

#[test]
fn when_at_the_bottom_of_patches_alpha_or_beta_down_goes_to_start() {
    for action in [Action::AlphaDown, Action::BetaDown] {
        let mut context = TestContext::new().with_two_patches();
        context.state.view = View::Patches;
        context.state.selected_patch = 1;

        context.reduce(action);
        assert_eq!(context.state.selected_patch, 0);
    }
}

#[test]
fn when_turned_up_alpha_scrolls_only_selected_view() {
    let mut context = TestContext::new().with_two_patches();

    context.state.view = View::Modules;
    let selected_patch_before = context.state.selected_patch;
    context.reduce(Action::AlphaUp);
    assert_eq!(context.state.selected_patch, selected_patch_before);

    context.state.view = View::Patches;
    let selected_before = context.state.selected_module;
    context.reduce(Action::AlphaUp);
    assert_eq!(context.state.selected_module, selected_before);
}

#[test]
fn when_turned_down_alpha_scrolls_only_selected_view() {
    let mut context = TestContext::new().with_two_patches();

    context.state.view = View::Modules;
    let selected_patch_before = context.state.selected_patch;
    context.reduce(Action::AlphaDown);
    assert_eq!(context.state.selected_patch, selected_patch_before);

    context.state.view = View::Patches;
    let selected_before = context.state.selected_module;
    context.reduce(Action::AlphaDown);
    assert_eq!(context.state.selected_module, selected_before);
}

#[test]
fn when_holding_beta_on_connected_patch_it_removes_source() {
    let mut context = TestContext::new().with_one_patch();
    context.state.view = View::Patches;
    context.state.selected_patch = 0;

    assert!(context.state.patches[0].source.is_some());
    context.reduce(Action::BetaHold);
    assert!(context.state.patches[0].source.is_none());
}

#[test]
fn when_holding_beta_on_connected_patch_it_responses_with_delete_patch_reaction() {
    let mut context = TestContext::new().with_one_patch();
    context.state.view = View::Patches;
    context.state.selected_patch = 0;

    let producer = context.state.patches[0].source.as_ref().unwrap().producer;
    let consumer = context.state.patches[0].destination.consumer;

    context.reduce(Action::BetaHold);
    assert!(!context.has_edge(producer, consumer));
}

#[test]
fn when_holding_beta_on_connected_patch_it_sets_consumer_disconnected() {
    let mut context = TestContext::new().with_one_patch();
    context.state.view = View::Patches;
    context.state.selected_patch = 0;

    assert!(context.state.modules[1].attributes[0].connected);
    context.reduce(Action::BetaHold);
    assert!(!context.state.modules[1].attributes[0].connected);
}

#[test]
fn when_holding_alpha_on_disconnected_patch_it_does_nothing() {
    let mut context = TestContext::new().with_two_modules();
    context.state.view = View::Patches;
    context.state.selected_patch = 0;

    let state_before = context.state.clone();
    context.reduce(Action::AlphaDown);
    assert!(context.state == state_before);
}

#[test]
fn when_holding_beta_on_one_of_many_patches_of_producer_it_keeps_producer_connected() {
    let mut context = TestContext::new().with_two_patches();
    context.state.view = View::Patches;

    assert!(context.state.modules[0].attributes[0].connected);

    context.state.selected_patch = 0;
    context.reduce(Action::BetaHold);
    assert!(context.state.modules[0].attributes[0].connected);

    context.state.selected_patch = 1;
    context.reduce(Action::BetaHold);
    assert!(!context.state.modules[0].attributes[0].connected);
}

#[test]
fn when_holding_beta_on_the_only_patch_of_producer_it_sets_producer_disconnected() {
    let mut context = TestContext::new().with_one_patch();

    context.state.view = View::Patches;
    context.state.selected_patch = 0;

    assert!(context.state.modules[0].attributes[0].connected);
    context.reduce(Action::BetaHold);
    assert!(!context.state.modules[0].attributes[0].connected);
}

#[test]
fn given_selected_patch_when_click_beta_it_enters_patch_edit() {
    let mut context = TestContext::new().with_one_patch();
    context.state.view = View::Patches;
    context.state.selected_patch = 0;

    context.reduce(Action::BetaClick);
    assert!(context.state.view == View::PatchEdit);
}

#[test]
fn given_patch_edit_view_when_moves_or_clicks_alpha_it_exits_edit_and_keeps_original_source() {
    for origin in &[View::Modules, View::Patches] {
        for action in &[Action::AlphaUp, Action::AlphaDown, Action::AlphaClick, Action::AlphaHold] {
            let mut context = TestContext::new().with_one_patch();
            context.state.view = View::PatchEdit;
            context.state.patch_edit_origin = Some(*origin);
            context.state.selected_patch = 0;

            context.reduce(*action);
            assert!(context.state.view == *origin);
            assert!(context.state.patch_edit_origin.is_none());
        }
    }
}

#[test]
fn given_patch_edit_view_when_exits_it_clears_origin_list() {
    let mut context = TestContext::new();
    context.add_source_module();
    context.add_source_module();
    context.add_destination_module();
    context.state.view = View::Patches;
    context.state.selected_patch = 0;

    context.reduce(Action::BetaClick);
    assert!(!context.state.patch_edit_sources.is_empty());

    context.reduce(Action::BetaClick);
    assert!(context.state.patch_edit_sources.is_empty());
}

#[test]
fn given_selected_top_source_in_patch_edit_when_beta_up_it_moves_to_last() {
    let mut context = TestContext::new();
    context.add_source_module();
    context.add_source_module();
    context.add_destination_module();
    context.state.view = View::Patches;
    context.reduce(Action::BetaClick);

    assert_eq!(context.state.patch_edit_selected_source, 0);
    context.reduce(Action::BetaUp);
    assert_eq!(context.state.patch_edit_selected_source, 1);
}

#[test]
fn given_selected_bottom_source_in_patch_edit_when_beta_down_it_moves_to_first() {
    let mut context = TestContext::new();
    context.add_source_module();
    context.add_source_module();
    context.add_destination_module();
    context.state.view = View::Patches;
    context.reduce(Action::BetaClick);
    context.state.patch_edit_selected_source = 1;

    context.reduce(Action::BetaDown);
    assert_eq!(context.state.patch_edit_selected_source, 0);
}

#[test]
fn given_selected_a_source_in_patch_edit_when_beta_down_it_moves_to_next() {
    let mut context = TestContext::new();
    context.add_source_module();
    context.add_source_module();
    context.add_destination_module();
    context.state.view = View::Patches;
    context.reduce(Action::BetaClick);

    assert_eq!(context.state.patch_edit_selected_source, 0);
    context.reduce(Action::BetaDown);
    assert_eq!(context.state.patch_edit_selected_source, 1);
}

#[test]
fn given_selected_a_source_in_patch_edit_when_beta_up_it_moves_to_previous() {
    let mut context = TestContext::new().with_two_patches();
    context.state.view = View::Patches;
    context.reduce(Action::BetaClick);
    context.state.patch_edit_selected_source = 1;

    context.reduce(Action::BetaUp);
    assert_eq!(context.state.patch_edit_selected_source, 0);
}

#[test]
fn given_patch_edit_view_when_clicks_or_holds_beta_it_selects_source_and_exits_edit() {
    for action in [Action::BetaClick, Action::BetaHold] {
        let mut context = TestContext::new().with_two_modules();

        context.state.view = View::Patches;
        context.state.selected_patch = 0;

        context.reduce(Action::BetaClick);
        assert!(context.state.patches[0].source.is_none());
        context.reduce(action);
        assert!(context.state.patches[0].source.is_some());

        let producer = context.state.patches[0].source.as_ref().unwrap().producer;
        let consumer = context.state.patches[0].destination.consumer;
        assert!(context.has_edge(producer, consumer));

        assert!(context.state.view == View::Patches);
    }
}

#[test]
fn when_enters_connected_patch_edit_it_selects_the_current_sources_index() {
    let mut context = TestContext::new();
    let _source1 = context.add_source_module();
    let source2 = context.add_source_module();
    let destination = context.add_destination_module();
    context.add_patch(source2, destination);

    context.state.view = View::Patches;
    context.state.selected_patch = 0;

    context.reduce(Action::BetaClick);
    assert_eq!(context.state.patch_edit_selected_source, 1);
}

#[test]
fn when_enters_disconnected_patch_edit_it_selects_the_first_source() {
    let mut context = TestContext::new();
    let _source1 = context.add_source_module();
    let _source2 = context.add_source_module();
    let _destination = context.add_destination_module();

    context.state.view = View::Patches;
    context.state.selected_patch = 0;

    context.reduce(Action::BetaClick);
    assert_eq!(context.state.patch_edit_selected_source, 0);
}

#[test]
fn when_enters_patch_edit_it_lists_all_available_sources() {
    let mut context = TestContext::new().with_two_patches();
    context.state.view = View::Patches;
    context.state.selected_patch = 0;

    context.reduce(Action::BetaClick);
    assert!(context.state.view == View::PatchEdit);

    assert_correct_patch_edit_sources(&context.state);
}

#[test]
fn given_patch_edit_when_new_module_is_added_it_extends_list_of_available_sources() {
    let mut context = TestContext::new().with_two_patches();
    context.state.view = View::Patches;
    context.state.selected_patch = 0;

    context.reduce(Action::BetaClick);
    context.reduce(Action::AlphaClick);

    context.add_source_module();
    context.reduce(Action::BetaClick);

    assert_correct_patch_edit_sources(&context.state);
}

fn assert_correct_patch_edit_sources(state: &State) {
    list_producers(state).enumerate().for_each(|(i, p)| {
        assert!(state.patch_edit_sources[i].producer == p);
    });
    assert_eq!(list_producers(state).count(), state.patch_edit_sources.len());
}

fn list_producers(state: &State) -> impl Iterator<Item = ProducerId> + '_ {
    state.modules.iter().flat_map(|m| m.attributes.iter()).filter_map(|a| {
        if let Socket::Producer(producer) = a.socket {
            Some(producer)
        } else {
            None
        }
    })
}

#[test]
fn given_modules_view_when_holding_alpha_it_switches_to_module_add() {
    let mut context = TestContext::new().with_two_patches();
    context.state.view = View::Modules;

    context.reduce(Action::AlphaHold);
    assert!(context.state.view == View::ModuleAdd);
}

#[test]
fn given_module_add_view_when_hold_alpha_or_beta_it_exits() {
    for action in [Action::AlphaHold, Action::BetaHold] {
        let mut context = TestContext::new();
        context.state.view = View::ModuleAdd;

        context.reduce(action);
        assert!(context.state.view == View::Modules);
    }
}

#[test]
fn given_module_add_view_on_bottom_when_alpha_or_beta_down_it_moves_to_beginning() {
    for action in [Action::AlphaDown, Action::BetaDown] {
        let mut context = TestContext::new().with_two_classes();
        context.state.view = View::ModuleAdd;

        context.state.selected_class = 1;
        context.reduce(action);
        assert_eq!(context.state.selected_class, 0);
    }
}

#[test]
fn given_module_add_view_on_top_when_alpha_or_beta_down_it_moves_to_next() {
    for action in [Action::AlphaDown, Action::BetaDown] {
        let mut context = TestContext::new().with_two_classes();
        context.state.view = View::ModuleAdd;

        assert_eq!(context.state.selected_class, 0);
        context.reduce(action);
        assert_eq!(context.state.selected_class, 1);
    }
}

#[test]
fn given_module_add_view_on_top_when_alpha_or_beta_up_it_moves_to_last() {
    for action in [Action::AlphaUp, Action::BetaUp] {
        let mut context = TestContext::new().with_two_classes();
        context.state.view = View::ModuleAdd;

        assert_eq!(context.state.selected_class, 0);
        context.reduce(action);
        assert_eq!(context.state.selected_class, 1);
    }
}

#[test]
fn given_module_add_view_on_top_when_alpha_or_beta_up_it_moves_to_previous() {
    for action in [Action::AlphaUp, Action::BetaUp] {
        let mut context = TestContext::new().with_two_classes();
        context.state.view = View::ModuleAdd;

        context.state.selected_class = 1;
        context.reduce(action);
        assert_eq!(context.state.selected_class, 0);
    }
}

#[test]
fn given_module_add_view_when_alpha_or_beta_click_it_instantiates_class_and_selects_it() {
    for action in [Action::AlphaClick, Action::BetaClick] {
        let mut context = TestContext::new().with_two_modules().with_two_classes();
        context.state.view = View::ModuleAdd;
        context.state.selected_class = 0;

        let modules_len_before = context.state.modules.len();
        let patches_len_before = context.state.patches.len();
        context.reduce(action);
        assert_eq!(context.state.modules.len(), modules_len_before + 1);
        assert_eq!(context.state.patches.len(), patches_len_before + 1);
        assert!(context.state.view == View::Modules);
        assert_eq!(context.state.selected_module, context.state.modules.len() - 1);
    }
}

#[test]
fn module_add_click_asks_for_the_selected_class() {
    let mut state = State::default();
    state.classes.push(Class { name: "OSC", description: "" });
    state.classes.push(Class { name: "MIX", description: "" });
    state.view = View::ModuleAdd;
    state.selected_class = 1;
    assert_eq!(reduce(&mut state, Action::BetaClick), Some(Reaction::InstantiateClass("MIX")));
    assert!(state.view == View::ModuleAdd);
}

#[test]
fn module_add_click_without_classes_does_nothing() {
    let mut state = State::default();
    state.view = View::ModuleAdd;
    let before = state.clone();
    assert_eq!(reduce(&mut state, Action::AlphaClick), None);
    assert!(state == before);
}

#[test]
fn connecting_reports_the_edge_to_add() {
    let mut context = TestContext::new().with_two_modules();
    context.state.view = View::Patches;
    assert_eq!(reduce(&mut context.state, Action::BetaClick), None);
    assert_eq!(
        reduce(&mut context.state, Action::BetaHold),
        Some(Reaction::ConnectPatch(ProducerId(0), ConsumerId(1)))
    );
    assert_eq!(context.state.patches[0].source.unwrap().producer, ProducerId(0));
}

#[test]
fn disconnecting_reports_the_edge_to_remove() {
    let mut context = TestContext::new().with_one_patch();
    context.state.view = View::Patches;
    assert_eq!(
        reduce(&mut context.state, Action::BetaHold),
        Some(Reaction::RemovePatch(ProducerId(0), ConsumerId(1)))
    );
    assert_eq!(reduce(&mut context.state, Action::BetaHold), None);
}

#[test]
fn instantiated_module_brings_a_patch_per_input() {
    let mut state = State::default();
    state.view = View::ModuleAdd;
    let module = Module::new_for_node(NodeId(3))
        .with_name("MIX")
        .with_attribute(Attribute::new_for_consumer(ConsumerId(10)).with_name("IN1"))
        .with_attribute(Attribute::new_for_consumer(ConsumerId(11)).with_name("IN2"))
        .with_attribute(Attribute::new_for_producer(ProducerId(12)).with_name("OUT"));
    instantiate_module(&mut state, module);
    assert_eq!(state.modules.len(), 1);
    assert_eq!(state.patches.len(), 2);
    assert_eq!(state.patches[0].destination.consumer, ConsumerId(10));
    assert_eq!(state.patches[0].destination.module_name, "MIX");
    assert_eq!(state.patches[1].destination.attribute_name, "IN2");
    assert!(state.patches[1].source.is_none());
    assert!(state.view == View::Modules);
    assert_eq!(state.selected_module, 0);
}

#[test]
fn scrolling_up_then_down_restores_the_state() {
    let mut context = TestContext::new().with_two_patches();
    context.state.view = View::Patches;
    context.state.selected_patch = 1;
    let original = context.state.clone();
    context.reduce(Action::BetaUp);
    context.reduce(Action::BetaDown);
    assert!(context.state == original);
    context.state.view = View::Modules;
    let original = context.state.clone();
    context.reduce(Action::AlphaDown);
    context.reduce(Action::AlphaUp);
    assert!(context.state == original);
}

#[test]
fn finds_the_first_patch_of_a_producer() {
    let context = TestContext::new().with_two_patches();
    let found = find_connected_patch_with_producer(&context.state.patches, ProducerId(0)).unwrap();
    assert_eq!(found.destination.consumer, ConsumerId(1));
    assert!(find_connected_patch_with_producer(&context.state.patches, ProducerId(1)).is_none());
}

#[test]
fn sockets_hand_out_their_ends() {
    assert_eq!(Socket::Consumer(ConsumerId(4)).consumer(), ConsumerId(4));
    assert_eq!(Socket::Producer(ProducerId(5)).producer(), ProducerId(5));
}

#[test]
fn well_formedness_is_checked_on_the_state() {
    let mut state = State::default();
    assert!(is_wf(&state));
    instantiate_module(
        &mut state,
        Module::new_for_node(NodeId(0))
            .with_name("OSC")
            .with_attribute(Attribute::new_for_consumer(ConsumerId(1))),
    );
    assert!(is_wf(&state));

    let mut bad_selection = state.clone();
    bad_selection.selected_module = 5;
    assert!(!is_wf(&bad_selection));

    let mut unknown_input = state.clone();
    unknown_input.patches.push(Patch::new_for_consumer(ConsumerId(9)));
    assert!(!is_wf(&unknown_input));

    let mut stray_sources = state.clone();
    stray_sources.patch_edit_sources.push(Source {
        producer: ProducerId(1),
        module_name: "OSC",
        module_index: 0,
        attribute_name: "",
    });
    assert!(!is_wf(&stray_sources));
}
