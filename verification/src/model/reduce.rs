use vstd::prelude::*;
use vstd::view::View as _;

use super::reaction::Reaction;
use super::state::{
    Attribute, ConsumerId, Destination, Module, ModuleModel, Patch, ProducerId, Socket, Source,
    State, StateModel, View,
};

verus! {

/// A gesture of the user on the two encoders.
#[derive(Clone, Copy, Debug, PartialEq, Eq, Structural)]
pub enum Action {
    AlphaUp,
    AlphaDown,
    AlphaClick,
    AlphaHold,
    BetaUp,
    BetaDown,
    BetaClick,
    BetaHold,
}

pub open spec fn is_beta(action: Action) -> bool {
    ||| action == Action::BetaUp
    ||| action == Action::BetaDown
    ||| action == Action::BetaClick
    ||| action == Action::BetaHold
}

/// A selection into a list of `len` items points at an item, or at the
/// beginning of an empty list.
pub open spec fn selection_ok(selected: usize, len: nat) -> bool {
    selected < len || (len == 0 && selected == 0)
}

/// The selection after moving one item down, wrapping to the first.
pub open spec fn next_index(selected: usize, len: nat) -> usize {
    if len == 0 {
        selected
    } else {
        ((selected + 1) % (len as int)) as usize
    }
}

/// The selection after moving one item up, wrapping to the last.
pub open spec fn previous_index(selected: usize, len: nat) -> usize {
    if len == 0 {
        selected
    } else if selected == 0 {
        (len - 1) as usize
    } else {
        (selected - 1) as usize
    }
}

pub open spec fn valid_position(modules: Seq<ModuleModel>, mi: int, ai: int) -> bool {
    &&& 0 <= mi < modules.len()
    &&& 0 <= ai < modules[mi].attributes.len()
}

pub open spec fn socket_at(modules: Seq<ModuleModel>, mi: int, ai: int) -> Socket {
    modules[mi].attributes[ai].socket
}

/// Some attribute of some module has the socket.
pub open spec fn has_socket(modules: Seq<ModuleModel>, socket: Socket) -> bool {
    exists|mi: int, ai: int|
        valid_position(modules, mi, ai) && #[trigger] socket_at(modules, mi, ai) == socket
}

/// Attribute `ai` of module `mi` comes before attribute `aj` of module `mj`.
pub open spec fn precedes(mi: int, ai: int, mj: int, aj: int) -> bool {
    mi < mj || (mi == mj && ai < aj)
}

/// The attribute at `(mi, ai)` is the first one, module by module, with the socket.
pub open spec fn is_first_socket(modules: Seq<ModuleModel>, socket: Socket, mi: int, ai: int) -> bool {
    &&& valid_position(modules, mi, ai)
    &&& socket_at(modules, mi, ai) == socket
    &&& forall|mj: int, aj: int|
        valid_position(modules, mj, aj) && precedes(mj, aj, mi, ai) ==> #[trigger] socket_at(
            modules,
            mj,
            aj,
        ) != socket
}

pub open spec fn first_socket(modules: Seq<ModuleModel>, socket: Socket) -> (int, int) {
    choose|p: (int, int)| is_first_socket(modules, socket, p.0, p.1)
}

pub open spec fn patch_has_producer(patch: Patch, producer: ProducerId) -> bool {
    patch.source matches Some(source) && source.producer == producer
}

/// Whether the state can be shown and edited: every selection points into
/// its list, patch edit is entered from another screen and lists sources
/// only while open, and every patch refers to sockets of listed modules.
pub open spec fn wf(s: StateModel) -> bool {
    &&& selection_ok(s.selected_module, s.modules.len())
    &&& selection_ok(s.selected_patch, s.patches.len())
    &&& selection_ok(s.selected_class, s.classes.len())
    &&& s.view != View::PatchEdit ==> s.patch_edit_origin is None && s.patch_edit_sources.len()
        == 0
    &&& s.view == View::PatchEdit ==> {
        &&& s.patch_edit_origin is Some
        &&& s.patch_edit_origin != Some(View::PatchEdit)
        &&& s.patches.len() > 0
        &&& selection_ok(s.patch_edit_selected_source, s.patch_edit_sources.len())
        &&& forall|k: int|
            0 <= k < s.patch_edit_sources.len() ==> has_socket(
                s.modules,
                Socket::Producer((#[trigger] s.patch_edit_sources[k]).producer),
            )
    }
    &&& forall|i: int|
        0 <= i < s.patches.len() ==> has_socket(
            s.modules,
            Socket::Consumer(#[trigger] s.patches[i].destination.consumer),
        )
    &&& forall|i: int|
        0 <= i < s.patches.len() && (#[trigger] s.patches[i]).source is Some ==> has_socket(
            s.modules,
            Socket::Producer(s.patches[i].source.unwrap().producer),
        )
}

/// The sources offered by the first `n` attributes of a module.
pub open spec fn attribute_sources(m: ModuleModel, n: nat) -> Seq<Source>
    decreases n,
{
    if n == 0 {
        Seq::empty()
    } else {
        let previous = attribute_sources(m, (n - 1) as nat);
        let attribute = m.attributes[n - 1];
        match attribute.socket {
            Socket::Producer(producer) => previous.push(
                Source {
                    producer,
                    module_name: m.name,
                    module_index: m.index,
                    attribute_name: attribute.name,
                },
            ),
            Socket::Consumer(_) => previous,
        }
    }
}

/// The sources offered by the first `n` modules, module by module.
pub open spec fn module_sources(modules: Seq<ModuleModel>, n: nat) -> Seq<Source>
    decreases n,
{
    if n == 0 {
        Seq::empty()
    } else {
        module_sources(modules, (n - 1) as nat) + attribute_sources(
            modules[n - 1],
            modules[n - 1].attributes.len(),
        )
    }
}

/// Every source that the modules offer.
pub open spec fn all_sources(modules: Seq<ModuleModel>) -> Seq<Source> {
    module_sources(modules, modules.len())
}

pub open spec fn is_first_source(sources: Seq<Source>, producer: ProducerId, k: int) -> bool {
    &&& 0 <= k < sources.len()
    &&& sources[k].producer == producer
    &&& forall|j: int| 0 <= j < k ==> (#[trigger] sources[j]).producer != producer
}

pub open spec fn first_source_index(sources: Seq<Source>, producer: ProducerId) -> int {
    choose|k: int| is_first_source(sources, producer, k)
}

pub open spec fn with_view(s: StateModel, view: View) -> StateModel {
    StateModel { view, ..s }
}

pub open spec fn with_selected_module(s: StateModel, selected_module: usize) -> StateModel {
    StateModel { selected_module, ..s }
}

pub open spec fn with_selected_patch(s: StateModel, selected_patch: usize) -> StateModel {
    StateModel { selected_patch, ..s }
}

pub open spec fn with_selected_class(s: StateModel, selected_class: usize) -> StateModel {
    StateModel { selected_class, ..s }
}

pub open spec fn with_selected_source(s: StateModel, patch_edit_selected_source: usize) -> StateModel {
    StateModel { patch_edit_selected_source, ..s }
}

/// Patch edit opened on the selected patch: every source is listed and the
/// one feeding the patch, if any, is selected.
pub open spec fn entered_patch_edit(s: StateModel) -> StateModel {
    let sources = s.patch_edit_sources + all_sources(s.modules);
    StateModel {
        patch_edit_origin: Some(s.view),
        view: View::PatchEdit,
        patch_edit_sources: sources,
        patch_edit_selected_source: match s.patches[s.selected_patch as int].source {
            Some(source) => first_source_index(sources, source.producer) as usize,
            None => 0,
        },
        ..s
    }
}

/// Patch edit closed without a change: back to the screen it was opened from.
pub open spec fn exited_patch_edit(s: StateModel) -> StateModel {
    StateModel {
        view: s.patch_edit_origin.unwrap(),
        patch_edit_sources: Seq::empty(),
        patch_edit_origin: None,
        ..s
    }
}

/// The selected source connected to the selected patch, and patch edit closed.
pub open spec fn connected_selected_source(s: StateModel) -> (
    StateModel,
    Option<Reaction<ProducerId, ConsumerId>>,
) {
    if s.patch_edit_sources.len() == 0 {
        (s, None)
    } else {
        let source = s.patch_edit_sources[s.patch_edit_selected_source as int];
        let patch = s.patches[s.selected_patch as int];
        (
            StateModel {
                patches: s.patches.update(
                    s.selected_patch as int,
                    Patch { source: Some(source), destination: patch.destination },
                ),
                view: s.patch_edit_origin.unwrap(),
                patch_edit_sources: Seq::empty(),
                patch_edit_origin: None,
                ..s
            },
            Some(Reaction::ConnectPatch(source.producer, patch.destination.consumer)),
        )
    }
}

/// The modules with attribute `ai` of module `mi` marked as not connected.
pub open spec fn disconnect_at(modules: Seq<ModuleModel>, mi: int, ai: int) -> Seq<ModuleModel> {
    let m = modules[mi];
    let a = m.attributes[ai];
    modules.update(
        mi,
        ModuleModel {
            attributes: m.attributes.update(ai, Attribute { connected: false, ..a }),
            ..m
        },
    )
}

/// The selected patch cut from its source. The input is marked as not
/// connected, and so is the output when no other patch takes from it.
pub open spec fn disconnected_source(s: StateModel) -> (
    StateModel,
    Option<Reaction<ProducerId, ConsumerId>>,
) {
    if s.patches.len() == 0 {
        (s, None)
    } else {
        let patch = s.patches[s.selected_patch as int];
        match patch.source {
            None => (s, None),
            Some(source) => {
                let producer = source.producer;
                let consumer = patch.destination.consumer;
                let patches = s.patches.update(
                    s.selected_patch as int,
                    Patch { source: None, destination: patch.destination },
                );
                let modules = if exists|i: int|
                    0 <= i < patches.len() && patch_has_producer(#[trigger] patches[i], producer) {
                    s.modules
                } else {
                    let at = first_socket(s.modules, Socket::Producer(producer));
                    disconnect_at(s.modules, at.0, at.1)
                };
                let at = first_socket(modules, Socket::Consumer(consumer));
                (
                    StateModel { patches, modules: disconnect_at(modules, at.0, at.1), ..s },
                    Some(Reaction::RemovePatch(producer, consumer)),
                )
            },
        }
    }
}

/// The patches a freshly added module brings: one per input among its first
/// `n` attributes, none of them connected.
pub open spec fn consumer_patches(m: ModuleModel, n: nat) -> Seq<Patch>
    decreases n,
{
    if n == 0 {
        Seq::empty()
    } else {
        let previous = consumer_patches(m, (n - 1) as nat);
        let attribute = m.attributes[n - 1];
        match attribute.socket {
            Socket::Consumer(consumer) => previous.push(
                Patch {
                    source: None,
                    destination: Destination {
                        consumer,
                        module_name: m.name,
                        module_index: m.index,
                        attribute_name: attribute.name,
                    },
                },
            ),
            Socket::Producer(_) => previous,
        }
    }
}

/// The state after a module is added: its inputs become patches, and the
/// modules screen shows it selected.
pub open spec fn instantiated(s: StateModel, m: ModuleModel) -> StateModel {
    StateModel {
        modules: s.modules.push(m),
        patches: s.patches + consumer_patches(m, m.attributes.len()),
        view: View::Modules,
        selected_module: s.modules.len() as usize,
        ..s
    }
}

/// Actions the model does not handle: the second encoder on the modules
/// screen, and opening patch edit with no patch to edit.
pub open spec fn allowed(s: StateModel, action: Action) -> bool {
    &&& !(s.view == View::Modules && is_beta(action))
    &&& !(s.view == View::Patches && action == Action::BetaClick && s.patches.len() == 0)
}

pub open spec fn no_reaction(s: StateModel) -> (StateModel, Option<Reaction<ProducerId, ConsumerId>>) {
    (s, None)
}

/// What an action does to the state, and what it asks of the signal graph.
pub open spec fn step(s: StateModel, action: Action) -> (
    StateModel,
    Option<Reaction<ProducerId, ConsumerId>>,
) {
    match s.view {
        View::Modules => match action {
            Action::AlphaUp => no_reaction(
                with_selected_module(s, previous_index(s.selected_module, s.modules.len())),
            ),
            Action::AlphaDown => no_reaction(
                with_selected_module(s, next_index(s.selected_module, s.modules.len())),
            ),
            Action::AlphaClick => no_reaction(with_view(s, View::Patches)),
            Action::AlphaHold => no_reaction(with_view(s, View::ModuleAdd)),
            _ => no_reaction(s),
        },
        View::ModuleAdd => match action {
            Action::AlphaUp | Action::BetaUp => no_reaction(
                with_selected_class(s, previous_index(s.selected_class, s.classes.len())),
            ),
            Action::AlphaDown | Action::BetaDown => no_reaction(
                with_selected_class(s, next_index(s.selected_class, s.classes.len())),
            ),
            Action::AlphaClick | Action::BetaClick => if s.classes.len() == 0 {
                no_reaction(s)
            } else {
                (s, Some(Reaction::InstantiateClass(s.classes[s.selected_class as int].name)))
            },
            Action::AlphaHold | Action::BetaHold => no_reaction(with_view(s, View::Modules)),
        },
        View::Patches => match action {
            Action::AlphaUp | Action::BetaUp => no_reaction(
                with_selected_patch(s, previous_index(s.selected_patch, s.patches.len())),
            ),
            Action::AlphaDown | Action::BetaDown => no_reaction(
                with_selected_patch(s, next_index(s.selected_patch, s.patches.len())),
            ),
            Action::AlphaClick => no_reaction(with_view(s, View::Modules)),
            Action::AlphaHold => no_reaction(s),
            Action::BetaClick => no_reaction(entered_patch_edit(s)),
            Action::BetaHold => disconnected_source(s),
        },
        View::PatchEdit => match action {
            Action::BetaUp => no_reaction(
                with_selected_source(
                    s,
                    previous_index(s.patch_edit_selected_source, s.patch_edit_sources.len()),
                ),
            ),
            Action::BetaDown => no_reaction(
                with_selected_source(
                    s,
                    next_index(s.patch_edit_selected_source, s.patch_edit_sources.len()),
                ),
            ),
            Action::BetaClick | Action::BetaHold => connected_selected_source(s),
            _ => no_reaction(exited_patch_edit(s)),
        },
    }
}


pub open spec fn modules_model(modules: Seq<Module>) -> Seq<ModuleModel> {
    modules.map_values(|m: Module| m@)
}

proof fn lemma_next_index(selected: usize, len: nat)
    requires
        selected < len,
        len <= usize::MAX,
    ensures
        next_index(selected, len) == (if selected + 1 < len { selected + 1 } else { 0 }),
{
    if selected + 1 < len {
        vstd::arithmetic::div_mod::lemma_small_mod((selected + 1) as nat, len);
    } else {
        vstd::arithmetic::div_mod::lemma_mod_self_0(len as int);
    }
}

/// Marking an attribute as not connected keeps every socket where it was.
proof fn lemma_disconnect_keeps_sockets(modules: Seq<ModuleModel>, mi: int, ai: int)
    requires
        valid_position(modules, mi, ai),
    ensures
        disconnect_at(modules, mi, ai).len() == modules.len(),
        forall|mj: int|
            0 <= mj < modules.len() ==> (#[trigger] disconnect_at(modules, mi, ai)[mj]).attributes.len()
                == modules[mj].attributes.len(),
        forall|mj: int, aj: int|
            valid_position(modules, mj, aj) ==> #[trigger] socket_at(
                disconnect_at(modules, mi, ai),
                mj,
                aj,
            ) == socket_at(modules, mj, aj),
        forall|socket: Socket|
            #[trigger] has_socket(modules, socket) ==> has_socket(
                disconnect_at(modules, mi, ai),
                socket,
            ),
{
    let after = disconnect_at(modules, mi, ai);
    assert forall|mj: int, aj: int| valid_position(modules, mj, aj) implies #[trigger] socket_at(
        after,
        mj,
        aj,
    ) == socket_at(modules, mj, aj) by {
        if mj == mi && aj == ai {
        } else {
        }
    }
    assert forall|socket: Socket| #[trigger] has_socket(modules, socket) implies has_socket(
        after,
        socket,
    ) by {
        let (x, y) = choose|x: int, y: int|
            valid_position(modules, x, y) && #[trigger] socket_at(modules, x, y) == socket;
        assert(socket_at(after, x, y) == socket);
    }
}

/// The first attribute with the socket is the only one that is first.
proof fn lemma_first_socket_unique(modules: Seq<ModuleModel>, socket: Socket, mi: int, ai: int)
    requires
        is_first_socket(modules, socket, mi, ai),
    ensures
        first_socket(modules, socket) == (mi, ai),
{
    let p = (mi, ai);
    assert(is_first_socket(modules, socket, p.0, p.1));
    let c = first_socket(modules, socket);
    assert(is_first_socket(modules, socket, c.0, c.1));
    assert(socket_at(modules, c.0, c.1) == socket);
    assert(socket_at(modules, mi, ai) == socket);
    assert(!precedes(c.0, c.1, mi, ai));
    assert(!precedes(mi, ai, c.0, c.1));
}

/// The first source with the producer is the only one that is first.
proof fn lemma_first_source_unique(sources: Seq<Source>, producer: ProducerId, k: int)
    requires
        is_first_source(sources, producer, k),
    ensures
        first_source_index(sources, producer) == k,
{
    let c = first_source_index(sources, producer);
    assert(is_first_source(sources, producer, c));
    assert(sources[k].producer == producer);
    assert(sources[c].producer == producer);
}

fn find_socket(modules: &Vec<Module>, socket: Socket) -> (r: Option<(usize, usize)>)
    ensures
        match r {
            Some(at) => is_first_socket(modules_model(modules@), socket, at.0 as int, at.1 as int),
            None => !has_socket(modules_model(modules@), socket),
        },
{
    let ghost ms = modules_model(modules@);
    let mut i: usize = 0;
    while i < modules.len()
        invariant
            i <= modules@.len(),
            ms == modules_model(modules@),
            forall|mj: int, aj: int|
                valid_position(ms, mj, aj) && mj < i ==> #[trigger] socket_at(ms, mj, aj) != socket,
        decreases modules@.len() - i,
    {
        let mut j: usize = 0;
        while j < modules[i].attributes.len()
            invariant
                i < modules@.len(),
                j <= ms[i as int].attributes.len(),
                ms == modules_model(modules@),
                forall|mj: int, aj: int|
                    valid_position(ms, mj, aj) && mj < i ==> #[trigger] socket_at(ms, mj, aj)
                        != socket,
                forall|aj: int| 0 <= aj < j ==> #[trigger] socket_at(ms, i as int, aj) != socket,
            decreases ms[i as int].attributes.len() - j,
        {
            if modules[i].attributes[j].socket == socket {
                proof {
                    assert forall|mj: int, aj: int|
                        valid_position(ms, mj, aj) && precedes(
                            mj,
                            aj,
                            i as int,
                            j as int,
                        ) implies #[trigger] socket_at(ms, mj, aj) != socket by {
                        if mj == i {
                            assert(aj < j);
                        }
                    }
                }
                return Some((i, j));
            }
            j = j + 1;
        }
        i = i + 1;
    }
    None
}

fn find_attribute_with_consumer(modules: &Vec<Module>, seeked_consumer: ConsumerId) -> (r: Option<
    (usize, usize),
>)
    ensures
        match r {
            Some(at) => is_first_socket(
                modules_model(modules@),
                Socket::Consumer(seeked_consumer),
                at.0 as int,
                at.1 as int,
            ),
            None => !has_socket(modules_model(modules@), Socket::Consumer(seeked_consumer)),
        },
{
    find_socket(modules, Socket::Consumer(seeked_consumer))
}

fn find_attribute_with_producer(modules: &Vec<Module>, seeked_producer: ProducerId) -> (r: Option<
    (usize, usize),
>)
    ensures
        match r {
            Some(at) => is_first_socket(
                modules_model(modules@),
                Socket::Producer(seeked_producer),
                at.0 as int,
                at.1 as int,
            ),
            None => !has_socket(modules_model(modules@), Socket::Producer(seeked_producer)),
        },
{
    find_socket(modules, Socket::Producer(seeked_producer))
}

/// The first patch taking its signal from the producer, if there is one.
pub fn find_connected_patch_with_producer(patches: &[Patch], seeked_producer: ProducerId) -> (r:
    Option<&Patch>)
    ensures
        match r {
            Some(patch) => exists|i: int|
                0 <= i < patches@.len() && *patch == patches@[i] && patch_has_producer(
                    #[trigger] patches@[i],
                    seeked_producer,
                ) && forall|j: int|
                    0 <= j < i ==> !patch_has_producer(#[trigger] patches@[j], seeked_producer),
            None => forall|i: int|
                0 <= i < patches@.len() ==> !patch_has_producer(
                    #[trigger] patches@[i],
                    seeked_producer,
                ),
        },
{
    let mut i: usize = 0;
    while i < patches.len()
        invariant
            i <= patches@.len(),
            forall|j: int|
                0 <= j < i ==> !patch_has_producer(#[trigger] patches@[j], seeked_producer),
        decreases patches@.len() - i,
    {
        if let Some(source) = &patches[i].source {
            if source.producer == seeked_producer {
                return Some(&patches[i]);
            }
        }
        i = i + 1;
    }
    None
}

fn switch_to_modules(state: &mut State)
    ensures
        final(state)@ == with_view(old(state)@, View::Modules),
{
    state.view = View::Modules;
}

fn switch_to_patches(state: &mut State)
    ensures
        final(state)@ == with_view(old(state)@, View::Patches),
{
    state.view = View::Patches;
}

fn switch_to_module_add(state: &mut State)
    ensures
        final(state)@ == with_view(old(state)@, View::ModuleAdd),
{
    state.view = View::ModuleAdd;
}

fn select_previous_module(state: &mut State)
    requires
        selection_ok(old(state).selected_module, old(state).modules@.len()),
    ensures
        final(state)@ == with_selected_module(
            old(state)@,
            previous_index(old(state).selected_module, old(state).modules@.len()),
        ),
{
    if state.modules.len() == 0 {
        return ;
    }
    state.selected_module = if state.selected_module == 0 {
        state.modules.len() - 1
    } else {
        state.selected_module - 1
    };
}

fn select_next_module(state: &mut State)
    requires
        selection_ok(old(state).selected_module, old(state).modules@.len()),
    ensures
        final(state)@ == with_selected_module(
            old(state)@,
            next_index(old(state).selected_module, old(state).modules@.len()),
        ),
{
    if state.modules.len() == 0 {
        return ;
    }
    state.selected_module += 1;
    state.selected_module %= state.modules.len();
}

fn select_previous_patch(state: &mut State)
    requires
        selection_ok(old(state).selected_patch, old(state).patches@.len()),
    ensures
        final(state)@ == with_selected_patch(
            old(state)@,
            previous_index(old(state).selected_patch, old(state).patches@.len()),
        ),
{
    if state.patches.len() == 0 {
        return ;
    }
    state.selected_patch = if state.selected_patch == 0 {
        state.patches.len() - 1
    } else {
        state.selected_patch - 1
    };
}

fn select_next_patch(state: &mut State)
    requires
        selection_ok(old(state).selected_patch, old(state).patches@.len()),
    ensures
        final(state)@ == with_selected_patch(
            old(state)@,
            next_index(old(state).selected_patch, old(state).patches@.len()),
        ),
{
    if state.patches.len() == 0 {
        return ;
    }
    state.selected_patch += 1;
    state.selected_patch %= state.patches.len();
}

fn select_previous_class(state: &mut State)
    requires
        selection_ok(old(state).selected_class, old(state).classes@.len()),
    ensures
        final(state)@ == with_selected_class(
            old(state)@,
            previous_index(old(state).selected_class, old(state).classes@.len()),
        ),
{
    if state.classes.len() == 0 {
        return ;
    }
    state.selected_class = if state.selected_class == 0 {
        state.classes.len() - 1
    } else {
        state.selected_class - 1
    };
}

fn select_next_class(state: &mut State)
    requires
        selection_ok(old(state).selected_class, old(state).classes@.len()),
    ensures
        final(state)@ == with_selected_class(
            old(state)@,
            next_index(old(state).selected_class, old(state).classes@.len()),
        ),
{
    if state.classes.len() == 0 {
        return ;
    }
    state.selected_class += 1;
    state.selected_class %= state.classes.len();
}

fn select_previous_source(state: &mut State)
    requires
        selection_ok(old(state).patch_edit_selected_source, old(state).patch_edit_sources@.len()),
    ensures
        final(state)@ == with_selected_source(
            old(state)@,
            previous_index(
                old(state).patch_edit_selected_source,
                old(state).patch_edit_sources@.len(),
            ),
        ),
{
    if state.patch_edit_sources.len() == 0 {
        return ;
    }
    state.patch_edit_selected_source = if state.patch_edit_selected_source == 0 {
        state.patch_edit_sources.len() - 1
    } else {
        state.patch_edit_selected_source - 1
    };
}

fn select_next_source(state: &mut State)
    requires
        selection_ok(old(state).patch_edit_selected_source, old(state).patch_edit_sources@.len()),
    ensures
        final(state)@ == with_selected_source(
            old(state)@,
            next_index(old(state).patch_edit_selected_source, old(state).patch_edit_sources@.len()),
        ),
{
    if state.patch_edit_sources.len() == 0 {
        return ;
    }
    state.patch_edit_selected_source += 1;
    state.patch_edit_selected_source %= state.patch_edit_sources.len();
}

fn exit_patch_edit(state: &mut State)
    requires
        old(state).patch_edit_origin is Some,
    ensures
        final(state)@ == exited_patch_edit(old(state)@),
{
    state.view = state.patch_edit_origin.unwrap();
    state.patch_edit_sources = Vec::new();
    state.patch_edit_origin = None;
}


proof fn lemma_attribute_sources_contain(m: ModuleModel, n: nat, ai: int, producer: ProducerId)
    requires
        0 <= ai < n <= m.attributes.len(),
        m.attributes[ai].socket == Socket::Producer(producer),
    ensures
        exists|k: int|
            0 <= k < attribute_sources(m, n).len() && (#[trigger] attribute_sources(m, n)[k]).producer
                == producer,
    decreases n,
{
    let previous = attribute_sources(m, (n - 1) as nat);
    if ai == n - 1 {
        let k = previous.len() as int;
        assert(attribute_sources(m, n)[k].producer == producer);
    } else {
        lemma_attribute_sources_contain(m, (n - 1) as nat, ai, producer);
        let k = choose|k: int|
            0 <= k < previous.len() && (#[trigger] previous[k]).producer == producer;
        assert(attribute_sources(m, n)[k] == previous[k]);
    }
}

/// Every output of a listed module is offered as a source.
proof fn lemma_module_sources_contain(
    modules: Seq<ModuleModel>,
    n: nat,
    mi: int,
    ai: int,
    producer: ProducerId,
)
    requires
        valid_position(modules, mi, ai),
        mi < n <= modules.len(),
        socket_at(modules, mi, ai) == Socket::Producer(producer),
    ensures
        exists|k: int|
            0 <= k < module_sources(modules, n).len() && (#[trigger] module_sources(
                modules,
                n,
            )[k]).producer == producer,
    decreases n,
{
    let previous = module_sources(modules, (n - 1) as nat);
    let last = attribute_sources(modules[n - 1], modules[n - 1].attributes.len());
    if mi == n - 1 {
        lemma_attribute_sources_contain(
            modules[n - 1],
            modules[n - 1].attributes.len(),
            ai,
            producer,
        );
        let k = choose|k: int| 0 <= k < last.len() && (#[trigger] last[k]).producer == producer;
        assert(module_sources(modules, n)[previous.len() + k] == last[k]);
    } else {
        lemma_module_sources_contain(modules, (n - 1) as nat, mi, ai, producer);
        let k = choose|k: int|
            0 <= k < previous.len() && (#[trigger] previous[k]).producer == producer;
        assert(module_sources(modules, n)[k] == previous[k]);
    }
}

proof fn lemma_attribute_sources_are_sockets(modules: Seq<ModuleModel>, mi: int, n: nat)
    requires
        0 <= mi < modules.len(),
        n <= modules[mi].attributes.len(),
    ensures
        forall|k: int|
            0 <= k < attribute_sources(modules[mi], n).len() ==> has_socket(
                modules,
                Socket::Producer((#[trigger] attribute_sources(modules[mi], n)[k]).producer),
            ),
    decreases n,
{
    if n > 0 {
        lemma_attribute_sources_are_sockets(modules, mi, (n - 1) as nat);
        let previous = attribute_sources(modules[mi], (n - 1) as nat);
        let current = attribute_sources(modules[mi], n);
        assert forall|k: int| 0 <= k < current.len() implies has_socket(
            modules,
            Socket::Producer((#[trigger] current[k]).producer),
        ) by {
            if k < previous.len() {
                assert(current[k] == previous[k]);
            } else {
                assert(socket_at(modules, mi, n - 1) == Socket::Producer(current[k].producer));
            }
        }
    }
}

/// Every offered source is an output of a listed module.
proof fn lemma_module_sources_are_sockets(modules: Seq<ModuleModel>, n: nat)
    requires
        n <= modules.len(),
    ensures
        forall|k: int|
            0 <= k < module_sources(modules, n).len() ==> has_socket(
                modules,
                Socket::Producer((#[trigger] module_sources(modules, n)[k]).producer),
            ),
    decreases n,
{
    if n > 0 {
        lemma_module_sources_are_sockets(modules, (n - 1) as nat);
        lemma_attribute_sources_are_sockets(modules, n - 1, modules[n - 1].attributes.len());
        let previous = module_sources(modules, (n - 1) as nat);
        let last = attribute_sources(modules[n - 1], modules[n - 1].attributes.len());
        let current = module_sources(modules, n);
        assert forall|k: int| 0 <= k < current.len() implies has_socket(
            modules,
            Socket::Producer((#[trigger] current[k]).producer),
        ) by {
            if k < previous.len() {
                assert(current[k] == previous[k]);
            } else {
                assert(current[k] == last[k - previous.len()]);
            }
        }
    }
}

fn enter_patch_edit(state: &mut State)
    requires
        wf(old(state)@),
        old(state).view == View::Patches,
        old(state).patches@.len() > 0,
    ensures
        final(state)@ == entered_patch_edit(old(state)@),
{
    let ghost s0 = state@;
    state.patch_edit_origin = Some(state.view);
    state.view = View::PatchEdit;
    let ghost ms = modules_model(state.modules@);
    let ghost initial = state.patch_edit_sources@;
    let ghost s1 = state@;
    let mut i: usize = 0;
    while i < state.modules.len()
        invariant
            i <= state.modules@.len(),
            ms == modules_model(state.modules@),
            state@ == (StateModel { patch_edit_sources: state.patch_edit_sources@, ..s1 }),
            state.patch_edit_sources@ == initial + module_sources(ms, i as nat),
        decreases state.modules@.len() - i,
    {
        let mut j: usize = 0;
        while j < state.modules[i].attributes.len()
            invariant
                i < state.modules@.len(),
                j <= ms[i as int].attributes.len(),
                ms == modules_model(state.modules@),
                state@ == (StateModel { patch_edit_sources: state.patch_edit_sources@, ..s1 }),
                state.patch_edit_sources@ == initial + module_sources(ms, i as nat)
                    + attribute_sources(ms[i as int], j as nat),
            decreases ms[i as int].attributes.len() - j,
        {
            let attribute = state.modules[i].attributes[j];
            match attribute.socket {
                Socket::Producer(producer) => {
                    let source = Source {
                        producer,
                        module_name: state.modules[i].name,
                        module_index: state.modules[i].index,
                        attribute_name: attribute.name,
                    };
                    state.patch_edit_sources.push(source);
                },
                Socket::Consumer(_) => {},
            }
            proof {
                assert(state.patch_edit_sources@ =~= initial + module_sources(ms, i as nat)
                    + attribute_sources(ms[i as int], (j + 1) as nat));
            }
            j = j + 1;
        }
        proof {
            assert(state.patch_edit_sources@ =~= initial + module_sources(ms, (i + 1) as nat));
        }
        i = i + 1;
    }
    let ghost sources = state.patch_edit_sources@;
    assert(sources == initial + all_sources(ms));
    let patch = state.patches[state.selected_patch];
    match patch.source {
        Some(source) => {
            let seeked = source.producer;
            proof {
                assert(s0.patches[s0.selected_patch as int].source is Some);
                assert(has_socket(ms, Socket::Producer(seeked)));
                let (mi, ai) = choose|mi: int, ai: int|
                    valid_position(ms, mi, ai) && #[trigger] socket_at(ms, mi, ai)
                        == Socket::Producer(seeked);
                lemma_module_sources_contain(ms, ms.len(), mi, ai, seeked);
                let k = choose|k: int|
                    0 <= k < all_sources(ms).len() && (#[trigger] all_sources(ms)[k]).producer
                        == seeked;
                assert(sources[initial.len() + k] == all_sources(ms)[k]);
            }
            let mut k: usize = 0;
            while k < state.patch_edit_sources.len() && state.patch_edit_sources[k].producer
                != seeked
                invariant
                    k <= sources.len(),
                    state.patch_edit_sources@ == sources,
                    state@ == (StateModel { patch_edit_sources: sources, ..s1 }),
                    exists|x: int| 0 <= x < sources.len() && (#[trigger] sources[x]).producer == seeked,
                    forall|j: int| 0 <= j < k ==> (#[trigger] sources[j]).producer != seeked,
                decreases sources.len() - k,
            {
                k = k + 1;
            }
            proof {
                if k == sources.len() {
                    let x = choose|x: int|
                        0 <= x < sources.len() && (#[trigger] sources[x]).producer == seeked;
                    assert(sources[x].producer != seeked);
                }
                lemma_first_source_unique(sources, seeked, k as int);
            }
            state.patch_edit_selected_source = k;
        },
        None => {
            state.patch_edit_selected_source = 0;
        },
    }
    proof {
        assert(state@ =~= entered_patch_edit(s0));
    }
}

proof fn lemma_consumer_patches_are_sockets(modules: Seq<ModuleModel>, mi: int, n: nat)
    requires
        0 <= mi < modules.len(),
        n <= modules[mi].attributes.len(),
    ensures
        forall|k: int|
            0 <= k < consumer_patches(modules[mi], n).len() ==> has_socket(
                modules,
                Socket::Consumer((#[trigger] consumer_patches(modules[mi], n)[k]).destination.consumer),
            ),
        forall|k: int|
            0 <= k < consumer_patches(modules[mi], n).len() ==> (#[trigger] consumer_patches(
                modules[mi],
                n,
            )[k]).source is None,
    decreases n,
{
    if n > 0 {
        lemma_consumer_patches_are_sockets(modules, mi, (n - 1) as nat);
        let previous = consumer_patches(modules[mi], (n - 1) as nat);
        let current = consumer_patches(modules[mi], n);
        assert forall|k: int| 0 <= k < current.len() implies has_socket(
            modules,
            Socket::Consumer((#[trigger] current[k]).destination.consumer),
        ) && current[k].source is None by {
            if k < previous.len() {
                assert(current[k] == previous[k]);
            } else {
                assert(socket_at(modules, mi, n - 1) == Socket::Consumer(
                    current[k].destination.consumer,
                ));
            }
        }
    }
}

proof fn lemma_push_keeps_sockets(modules: Seq<ModuleModel>, m: ModuleModel)
    ensures
        forall|socket: Socket|
            #[trigger] has_socket(modules, socket) ==> has_socket(modules.push(m), socket),
{
    assert forall|socket: Socket| #[trigger] has_socket(modules, socket) implies has_socket(
        modules.push(m),
        socket,
    ) by {
        let (x, y) = choose|x: int, y: int|
            valid_position(modules, x, y) && #[trigger] socket_at(modules, x, y) == socket;
        assert(socket_at(modules.push(m), x, y) == socket);
    }
}

/// Adding a module to a well-formed state outside patch edit keeps it
/// well-formed.
pub proof fn lemma_instantiated_wf(s: StateModel, m: ModuleModel)
    requires
        wf(s),
        s.view != View::PatchEdit,
    ensures
        wf(instantiated(s, m)),
{
    let after = instantiated(s, m);
    let ms = s.modules.push(m);
    lemma_push_keeps_sockets(s.modules, m);
    lemma_consumer_patches_are_sockets(ms, s.modules.len() as int, m.attributes.len());
    assert(ms[s.modules.len() as int] == m);
    let added = consumer_patches(m, m.attributes.len());
    assert forall|i: int| 0 <= i < after.patches.len() implies has_socket(
        after.modules,
        Socket::Consumer((#[trigger] after.patches[i]).destination.consumer),
    ) by {
        if i < s.patches.len() {
            assert(after.patches[i] == s.patches[i]);
        } else {
            assert(after.patches[i] == added[i - s.patches.len()]);
        }
    }
    assert forall|i: int|
        0 <= i < after.patches.len() && (#[trigger] after.patches[i]).source is Some implies has_socket(
        after.modules,
        Socket::Producer(after.patches[i].source.unwrap().producer),
    ) by {
        if i < s.patches.len() {
            assert(after.patches[i] == s.patches[i]);
        } else {
            assert(after.patches[i] == added[i - s.patches.len()]);
        }
    }
}

/// Adds a module the surroundings instantiated for a class: its inputs become
/// patches, and the modules screen shows it selected.
pub fn instantiate_module(state: &mut State, module: Module)
    requires
        wf(old(state)@),
        old(state).view != View::PatchEdit,
        old(state).modules@.len() < usize::MAX,
    ensures
        final(state)@ == instantiated(old(state)@, module@),
        wf(final(state)@),
{
    let ghost s0 = state@;
    let ghost m = module@;
    state.modules.push(module);
    let last = state.modules.len() - 1;
    proof {
        assert(modules_model(state.modules@) =~= s0.modules.push(m));
    }
    let ghost s1 = state@;
    let mut j: usize = 0;
    while j < state.modules[last].attributes.len()
        invariant
            last == s0.modules.len(),
            last < state.modules@.len(),
            state.modules@[last as int]@ == m,
            j <= m.attributes.len(),
            state@ == (StateModel { patches: state.patches@, ..s1 }),
            state.patches@ == s0.patches + consumer_patches(m, j as nat),
        decreases m.attributes.len() - j,
    {
        let attribute = state.modules[last].attributes[j];
        match attribute.socket {
            Socket::Consumer(consumer) => {
                let patch = Patch {
                    source: None,
                    destination: Destination {
                        consumer,
                        module_name: state.modules[last].name,
                        module_index: state.modules[last].index,
                        attribute_name: attribute.name,
                    },
                };
                state.patches.push(patch);
            },
            Socket::Producer(_) => {},
        }
        proof {
            assert(state.patches@ =~= s0.patches + consumer_patches(m, (j + 1) as nat));
        }
        j = j + 1;
    }
    state.view = View::Modules;
    state.selected_module = last;
    proof {
        assert(state@ =~= instantiated(s0, m));
        lemma_instantiated_wf(s0, m);
    }
}

fn connect_selected_source(state: &mut State) -> (r: Option<Reaction<ProducerId, ConsumerId>>)
    requires
        wf(old(state)@),
        old(state).view == View::PatchEdit,
    ensures
        (final(state)@, r) == connected_selected_source(old(state)@),
{
    if state.patch_edit_sources.len() == 0 {
        return None;
    }
    let new_patch_source = state.patch_edit_sources[state.patch_edit_selected_source];
    let destination = state.patches[state.selected_patch].destination;
    state.patches.set(
        state.selected_patch,
        Patch { source: Some(new_patch_source), destination },
    );

    state.view = state.patch_edit_origin.unwrap();
    state.patch_edit_sources = Vec::new();
    state.patch_edit_origin = None;

    Some(Reaction::ConnectPatch(new_patch_source.producer, destination.consumer))
}

/// Marks attribute `ai` of module `mi` as not connected.
fn set_disconnected(modules: &mut Vec<Module>, mi: usize, ai: usize)
    requires
        valid_position(modules_model(old(modules)@), mi as int, ai as int),
    ensures
        modules_model(final(modules)@) == disconnect_at(
            modules_model(old(modules)@),
            mi as int,
            ai as int,
        ),
{
    modules[mi].attributes[ai].connected = false;
    proof {
        assert(modules_model(modules@) =~= disconnect_at(
            modules_model(old(modules)@),
            mi as int,
            ai as int,
        ));
    }
}

fn disconnect_source(state: &mut State) -> (r: Option<Reaction<ProducerId, ConsumerId>>)
    requires
        wf(old(state)@),
    ensures
        (final(state)@, r) == disconnected_source(old(state)@),
{
    if state.patches.len() == 0 {
        return None;
    }
    let patch = state.patches[state.selected_patch];
    match patch.source {
        None => None,
        Some(source) => {
            let patch_producer = source.producer;
            let patch_consumer = patch.destination.consumer;
            let ghost s0 = state@;

            state.patches.set(
                state.selected_patch,
                Patch { source: None, destination: patch.destination },
            );
            let ghost patches1 = state.patches@;
            assert(has_socket(s0.modules, Socket::Consumer(patch_consumer))) by {
                assert(s0.patches[s0.selected_patch as int].destination.consumer == patch_consumer);
            }

            if find_connected_patch_with_producer(state.patches.as_slice(), patch_producer).is_none() {
                assert(!exists|i: int|
                    0 <= i < patches1.len() && patch_has_producer(
                        #[trigger] patches1[i],
                        patch_producer,
                    ));
                assert(has_socket(s0.modules, Socket::Producer(patch_producer))) by {
                    assert(s0.patches[s0.selected_patch as int].source is Some);
                }
                match find_attribute_with_producer(&state.modules, patch_producer) {
                    Some(at) => {
                        proof {
                            lemma_first_socket_unique(
                                s0.modules,
                                Socket::Producer(patch_producer),
                                at.0 as int,
                                at.1 as int,
                            );
                        }
                        proof {
                            lemma_disconnect_keeps_sockets(s0.modules, at.0 as int, at.1 as int);
                        }
                        set_disconnected(&mut state.modules, at.0, at.1);
                    },
                    None => {},
                }
            } else {
                proof {
                    let i = choose|i: int|
                        0 <= i < patches1.len() && patch_has_producer(
                            #[trigger] patches1[i],
                            patch_producer,
                        );
                }
            }
            let ghost modules1 = modules_model(state.modules@);
            match find_attribute_with_consumer(&state.modules, patch_consumer) {
                Some(at) => {
                    proof {
                        lemma_first_socket_unique(
                            modules1,
                            Socket::Consumer(patch_consumer),
                            at.0 as int,
                            at.1 as int,
                        );
                    }
                    set_disconnected(&mut state.modules, at.0, at.1);
                },
                None => {},
            }
            proof {
                assert(state@ =~= disconnected_source(s0).0);
            }
            Some(Reaction::RemovePatch(patch_producer, patch_consumer))
        },
    }
}

/// Lengths of the state's lists fit the machine.
pub open spec fn bounded(s: StateModel) -> bool {
    &&& s.modules.len() <= usize::MAX
    &&& s.patches.len() <= usize::MAX
    &&& s.classes.len() <= usize::MAX
    &&& s.patch_edit_sources.len() <= usize::MAX
}

/// An attribute with the socket exists, so a first one does.
proof fn lemma_first_socket_exists(modules: Seq<ModuleModel>, socket: Socket, mi: int, ai: int)
    requires
        valid_position(modules, mi, ai),
        socket_at(modules, mi, ai) == socket,
    ensures
        is_first_socket(
            modules,
            socket,
            first_socket(modules, socket).0,
            first_socket(modules, socket).1,
        ),
    decreases mi, ai,
{
    if is_first_socket(modules, socket, mi, ai) {
        let p = (mi, ai);
        assert(is_first_socket(modules, socket, p.0, p.1));
    } else {
        let (mj, aj) = choose|mj: int, aj: int|
            valid_position(modules, mj, aj) && precedes(mj, aj, mi, ai) && #[trigger] socket_at(
                modules,
                mj,
                aj,
            ) == socket;
        lemma_first_socket_exists(modules, socket, mj, aj);
    }
}

proof fn lemma_has_first_socket(modules: Seq<ModuleModel>, socket: Socket)
    requires
        has_socket(modules, socket),
    ensures
        is_first_socket(
            modules,
            socket,
            first_socket(modules, socket).0,
            first_socket(modules, socket).1,
        ),
{
    let (mi, ai) = choose|mi: int, ai: int|
        valid_position(modules, mi, ai) && #[trigger] socket_at(modules, mi, ai) == socket;
    lemma_first_socket_exists(modules, socket, mi, ai);
}

proof fn lemma_selection_steps(selected: usize, len: nat)
    requires
        selection_ok(selected, len),
        len <= usize::MAX,
    ensures
        selection_ok(next_index(selected, len), len),
        selection_ok(previous_index(selected, len), len),
{
    if len > 0 {
        lemma_next_index(selected, len);
    }
}

proof fn lemma_entered_wf(s: StateModel)
    requires
        wf(s),
        s.view == View::Patches,
        s.patches.len() > 0,
    ensures
        wf(entered_patch_edit(s)),
{
    let after = entered_patch_edit(s);
    let sources = after.patch_edit_sources;
    assert(sources =~= all_sources(s.modules));
    lemma_module_sources_are_sockets(s.modules, s.modules.len());
    match s.patches[s.selected_patch as int].source {
        Some(source) => {
            let (mi, ai) = choose|mi: int, ai: int|
                valid_position(s.modules, mi, ai) && #[trigger] socket_at(s.modules, mi, ai)
                    == Socket::Producer(source.producer);
            lemma_module_sources_contain(s.modules, s.modules.len(), mi, ai, source.producer);
            let x = choose|x: int|
                0 <= x < sources.len() && (#[trigger] sources[x]).producer == source.producer;
            lemma_first_source_exists(sources, source.producer, x);
        },
        None => {},
    }
}

proof fn lemma_first_source_exists(sources: Seq<Source>, producer: ProducerId, x: int)
    requires
        0 <= x < sources.len(),
        sources[x].producer == producer,
    ensures
        is_first_source(sources, producer, first_source_index(sources, producer)),
    decreases x,
{
    if is_first_source(sources, producer, x) {
    } else {
        let y = choose|y: int| 0 <= y < x && (#[trigger] sources[y]).producer == producer;
        lemma_first_source_exists(sources, producer, y);
    }
}

proof fn lemma_disconnected_wf(s: StateModel)
    requires
        wf(s),
        s.view == View::Patches,
    ensures
        wf(disconnected_source(s).0),
{
    if s.patches.len() > 0 {
        let patch = s.patches[s.selected_patch as int];
        if let Some(source) = patch.source {
            let producer = source.producer;
            let consumer = patch.destination.consumer;
            let patches = s.patches.update(
                s.selected_patch as int,
                Patch { source: None, destination: patch.destination },
            );
            let modules = if exists|i: int|
                0 <= i < patches.len() && patch_has_producer(#[trigger] patches[i], producer) {
                s.modules
            } else {
                let at = first_socket(s.modules, Socket::Producer(producer));
                lemma_has_first_socket(s.modules, Socket::Producer(producer));
                lemma_disconnect_keeps_sockets(s.modules, at.0, at.1);
                disconnect_at(s.modules, at.0, at.1)
            };
            assert(forall|x: Socket| #[trigger] has_socket(s.modules, x) ==> has_socket(modules, x));
            assert(has_socket(s.modules, Socket::Consumer(consumer)));
            lemma_has_first_socket(modules, Socket::Consumer(consumer));
            let at = first_socket(modules, Socket::Consumer(consumer));
            lemma_disconnect_keeps_sockets(modules, at.0, at.1);
            let after = disconnected_source(s).0;
            assert(after.modules == disconnect_at(modules, at.0, at.1));
            assert forall|i: int| 0 <= i < after.patches.len() implies has_socket(
                after.modules,
                Socket::Consumer((#[trigger] after.patches[i]).destination.consumer),
            ) by {
                assert(has_socket(s.modules, Socket::Consumer(s.patches[i].destination.consumer)));
            }
            assert forall|i: int|
                0 <= i < after.patches.len() && (#[trigger] after.patches[i]).source is Some implies has_socket(
                after.modules,
                Socket::Producer(after.patches[i].source.unwrap().producer),
            ) by {
                assert(s.patches[i].source is Some);
                assert(has_socket(
                    s.modules,
                    Socket::Producer(s.patches[i].source.unwrap().producer),
                ));
            }
        }
    }
}

/// Every action the model handles keeps a well-formed state well-formed.
pub proof fn lemma_step_preserves_wf(s: StateModel, action: Action)
    requires
        wf(s),
        bounded(s),
        allowed(s, action),
    ensures
        wf(step(s, action).0),
{
    lemma_selection_steps(s.selected_module, s.modules.len());
    lemma_selection_steps(s.selected_patch, s.patches.len());
    lemma_selection_steps(s.selected_class, s.classes.len());
    match s.view {
        View::Patches => {
            if action == Action::BetaClick {
                lemma_entered_wf(s);
            } else if action == Action::BetaHold {
                lemma_disconnected_wf(s);
            }
        },
        View::PatchEdit => {
            lemma_selection_steps(s.patch_edit_selected_source, s.patch_edit_sources.len());
            if action == Action::BetaClick || action == Action::BetaHold {
                if s.patch_edit_sources.len() > 0 {
                    let after = step(s, action).0;
                    let source = s.patch_edit_sources[s.patch_edit_selected_source as int];
                    assert forall|i: int|
                        0 <= i < after.patches.len() && (#[trigger] after.patches[i]).source is Some implies has_socket(
                        after.modules,
                        Socket::Producer(after.patches[i].source.unwrap().producer),
                    ) by {
                        if i != s.selected_patch {
                            assert(after.patches[i] == s.patches[i]);
                        }
                    }
                    assert forall|i: int| 0 <= i < after.patches.len() implies has_socket(
                        after.modules,
                        Socket::Consumer((#[trigger] after.patches[i]).destination.consumer),
                    ) by {
                        assert(after.patches[i].destination == s.patches[i].destination);
                    }
                }
            }
        },
        _ => {},
    }
}

/// The actions that scroll the list the view shows up and down.
pub open spec fn scroll_pair(view: View, up: Action, down: Action) -> bool {
    match view {
        View::Modules => up == Action::AlphaUp && down == Action::AlphaDown,
        View::ModuleAdd | View::Patches => (up == Action::AlphaUp && down == Action::AlphaDown) || (
        up == Action::BetaUp && down == Action::BetaDown),
        View::PatchEdit => up == Action::BetaUp && down == Action::BetaDown,
    }
}

/// Scrolling a list one item up and then one down, or down and then up,
/// leaves the state as it was and asks nothing of the signal graph.
pub proof fn lemma_scroll_undo(s: StateModel, up: Action, down: Action)
    requires
        wf(s),
        bounded(s),
        scroll_pair(s.view, up, down),
    ensures
        step(step(s, up).0, down) == (s, None::<Reaction<ProducerId, ConsumerId>>),
        step(step(s, down).0, up) == (s, None::<Reaction<ProducerId, ConsumerId>>),
        step(s, up).1 is None,
        step(s, down).1 is None,
{
    match s.view {
        View::Modules => lemma_selection_steps(s.selected_module, s.modules.len()),
        View::ModuleAdd => lemma_selection_steps(s.selected_class, s.classes.len()),
        View::Patches => lemma_selection_steps(s.selected_patch, s.patches.len()),
        View::PatchEdit => lemma_selection_steps(
            s.patch_edit_selected_source,
            s.patch_edit_sources.len(),
        ),
    }
    if s.modules.len() > 0 {
        lemma_next_index(s.selected_module, s.modules.len());
        lemma_next_index(previous_index(s.selected_module, s.modules.len()), s.modules.len());
    }
    if s.classes.len() > 0 {
        lemma_next_index(s.selected_class, s.classes.len());
        lemma_next_index(previous_index(s.selected_class, s.classes.len()), s.classes.len());
    }
    if s.patches.len() > 0 {
        lemma_next_index(s.selected_patch, s.patches.len());
        lemma_next_index(previous_index(s.selected_patch, s.patches.len()), s.patches.len());
    }
    if s.view == View::PatchEdit && s.patch_edit_sources.len() > 0 {
        lemma_next_index(s.patch_edit_selected_source, s.patch_edit_sources.len());
        lemma_next_index(
            previous_index(s.patch_edit_selected_source, s.patch_edit_sources.len()),
            s.patch_edit_sources.len(),
        );
    }
    assert(step(step(s, up).0, down).0 =~= s);
    assert(step(step(s, down).0, up).0 =~= s);
}

/// Opening patch edit on a patch and leaving it with the first encoder
/// changes nothing but the remembered selection of a source, and asks
/// nothing of the signal graph.
pub proof fn lemma_patch_edit_round_trip(s: StateModel, leave: Action)
    requires
        wf(s),
        s.view == View::Patches,
        s.patches.len() > 0,
        !is_beta(leave),
    ensures
        step(s, Action::BetaClick).1 is None,
        step(step(s, Action::BetaClick).0, leave) == (
            with_selected_source(s, step(s, Action::BetaClick).0.patch_edit_selected_source),
            None::<Reaction<ProducerId, ConsumerId>>,
        ),
{
    let entered = step(s, Action::BetaClick).0;
    assert(step(entered, leave).0 =~= with_selected_source(s, entered.patch_edit_selected_source));
}

/// Holding the first encoder on the patches screen does nothing: the state
/// stays as it is and the signal graph is asked nothing.
pub proof fn lemma_alpha_hold_on_patches_does_nothing(s: StateModel)
    requires
        s.view == View::Patches,
    ensures
        step(s, Action::AlphaHold) == (s, None::<Reaction<ProducerId, ConsumerId>>),
{
}

/// Each request to the signal graph comes from one gesture on one screen: a
/// patch is removed only by holding the second encoder on the patches
/// screen, connected only by clicking or holding it in patch edit, and a
/// module is asked for only by a click on the screen that adds modules. Any
/// other gesture asks nothing.
pub proof fn lemma_requests_come_from_their_gestures(s: StateModel, action: Action)
    ensures
        step(s, action).1 matches Some(Reaction::RemovePatch(_, _)) ==> s.view == View::Patches
            && action == Action::BetaHold,
        step(s, action).1 matches Some(Reaction::ConnectPatch(_, _)) ==> s.view == View::PatchEdit
            && (action == Action::BetaClick || action == Action::BetaHold),
        step(s, action).1 matches Some(Reaction::InstantiateClass(_)) ==> s.view == View::ModuleAdd
            && (action == Action::AlphaClick || action == Action::BetaClick),
{
}

/// Each patch a new module brings stands for one of its inputs and names the
/// module: the patches already there stay as they were, and every added
/// patch has no source and a destination that carries the module's name and
/// number and the name and input of one of its input attributes; every input
/// attribute of the module gets such a patch.
pub proof fn lemma_instantiated_patches_name_module(s: StateModel, m: ModuleModel)
    ensures
        ({
            let after = instantiated(s, m).patches;
            &&& s.patches.len() <= after.len()
            &&& after.subrange(0, s.patches.len() as int) == s.patches
            &&& forall|i: int|
                s.patches.len() <= i < after.len() ==> {
                    let patch = #[trigger] after[i];
                    &&& patch.source is None
                    &&& patch.destination.module_name == m.name
                    &&& patch.destination.module_index == m.index
                    &&& exists|ai: int|
                        0 <= ai < m.attributes.len() && #[trigger] m.attributes[ai].socket
                            == Socket::Consumer(patch.destination.consumer)
                            && m.attributes[ai].name == patch.destination.attribute_name
                }
            &&& forall|ai: int|
                0 <= ai < m.attributes.len() && #[trigger] m.attributes[ai].socket is Consumer
                    ==> exists|i: int|
                    s.patches.len() <= i < after.len() && #[trigger] after[i].destination.consumer
                        == m.attributes[ai].socket->Consumer_0 && after[i].destination.attribute_name
                        == m.attributes[ai].name
        }),
{
    let added = consumer_patches(m, m.attributes.len());
    lemma_consumer_patches_name_module(m, m.attributes.len());
    let after = instantiated(s, m).patches;
    assert(after == s.patches + added);
    assert(after.subrange(0, s.patches.len() as int) =~= s.patches);
    assert forall|i: int| s.patches.len() <= i < after.len() implies {
        let patch = #[trigger] after[i];
        &&& patch.source is None
        &&& patch.destination.module_name == m.name
        &&& patch.destination.module_index == m.index
        &&& exists|ai: int|
            0 <= ai < m.attributes.len() && #[trigger] m.attributes[ai].socket == Socket::Consumer(
                patch.destination.consumer,
            ) && m.attributes[ai].name == patch.destination.attribute_name
    } by {
        assert(after[i] == added[i - s.patches.len()]);
    }
    assert forall|ai: int|
        0 <= ai < m.attributes.len() && #[trigger] m.attributes[ai].socket is Consumer implies exists|i: int|
        s.patches.len() <= i < after.len() && #[trigger] after[i].destination.consumer
            == m.attributes[ai].socket->Consumer_0 && after[i].destination.attribute_name
            == m.attributes[ai].name by {
        let k = choose|k: int|
            0 <= k < added.len() && #[trigger] added[k].destination.consumer
                == m.attributes[ai].socket->Consumer_0 && added[k].destination.attribute_name
                == m.attributes[ai].name;
        assert(after[s.patches.len() + k] == added[k]);
    }
}

proof fn lemma_consumer_patches_name_module(m: ModuleModel, n: nat)
    requires
        n <= m.attributes.len(),
    ensures
        forall|k: int|
            0 <= k < consumer_patches(m, n).len() ==> {
                let patch = #[trigger] consumer_patches(m, n)[k];
                &&& patch.source is None
                &&& patch.destination.module_name == m.name
                &&& patch.destination.module_index == m.index
                &&& exists|ai: int|
                    0 <= ai < n && #[trigger] m.attributes[ai].socket == Socket::Consumer(
                        patch.destination.consumer,
                    ) && m.attributes[ai].name == patch.destination.attribute_name
            },
        forall|ai: int|
            0 <= ai < n && #[trigger] m.attributes[ai].socket is Consumer ==> exists|k: int|
                0 <= k < consumer_patches(m, n).len() && #[trigger] consumer_patches(m, n)[k].destination.consumer
                    == m.attributes[ai].socket->Consumer_0 && consumer_patches(m, n)[k].destination.attribute_name
                    == m.attributes[ai].name,
    decreases n,
{
    if n > 0 {
        lemma_consumer_patches_name_module(m, (n - 1) as nat);
        let previous = consumer_patches(m, (n - 1) as nat);
        let current = consumer_patches(m, n);
        assert forall|k: int| 0 <= k < current.len() implies {
            let patch = #[trigger] current[k];
            &&& patch.source is None
            &&& patch.destination.module_name == m.name
            &&& patch.destination.module_index == m.index
            &&& exists|ai: int|
                0 <= ai < n && #[trigger] m.attributes[ai].socket == Socket::Consumer(
                    patch.destination.consumer,
                ) && m.attributes[ai].name == patch.destination.attribute_name
        } by {
            if k < previous.len() {
                assert(current[k] == previous[k]);
            } else {
                assert(m.attributes[n - 1].socket == Socket::Consumer(current[k].destination.consumer));
            }
        }
        assert forall|ai: int|
            0 <= ai < n && #[trigger] m.attributes[ai].socket is Consumer implies exists|k: int|
            0 <= k < current.len() && #[trigger] current[k].destination.consumer
                == m.attributes[ai].socket->Consumer_0 && current[k].destination.attribute_name
                == m.attributes[ai].name by {
            if ai < n - 1 {
                let k = choose|k: int|
                    0 <= k < previous.len() && #[trigger] previous[k].destination.consumer
                        == m.attributes[ai].socket->Consumer_0 && previous[k].destination.attribute_name
                        == m.attributes[ai].name;
                assert(current[k] == previous[k]);
            } else {
                assert(current[previous.len() as int].destination.consumer == m.attributes[ai].socket->Consumer_0);
            }
        }
    }
}

/// Holding the second encoder on a patch fed by a source cuts it: the patch
/// loses its source, the graph is asked to remove that edge, the first input
/// with the patch's consumer is marked as not connected, and the first output
/// with the source's producer keeps its mark exactly when another patch still
/// takes from it.
pub proof fn lemma_disconnect_cuts_patch(s: StateModel)
    requires
        wf(s),
        s.view == View::Patches,
        s.patches.len() > 0,
        s.patches[s.selected_patch as int].source is Some,
    ensures
        ({
            let patch = s.patches[s.selected_patch as int];
            let producer = patch.source.unwrap().producer;
            let consumer = patch.destination.consumer;
            let (after, reaction) = step(s, Action::BetaHold);
            let c = first_socket(s.modules, Socket::Consumer(consumer));
            let p = first_socket(s.modules, Socket::Producer(producer));
            &&& reaction == Some(Reaction::<ProducerId, ConsumerId>::RemovePatch(producer, consumer))
            &&& after.patches[s.selected_patch as int].source is None
            &&& after.patches[s.selected_patch as int].destination == patch.destination
            &&& is_first_socket(after.modules, Socket::Consumer(consumer), c.0, c.1)
            &&& !after.modules[c.0].attributes[c.1].connected
            &&& is_first_socket(s.modules, Socket::Producer(producer), p.0, p.1)
            &&& after.modules[p.0].attributes[p.1].connected == (
            s.modules[p.0].attributes[p.1].connected && exists|i: int|
                0 <= i < s.patches.len() && i != s.selected_patch && patch_has_producer(
                    #[trigger] s.patches[i],
                    producer,
                ))
        }),
{
    let patch = s.patches[s.selected_patch as int];
    let producer = patch.source.unwrap().producer;
    let consumer = patch.destination.consumer;
    let patches = s.patches.update(
        s.selected_patch as int,
        Patch { source: None, destination: patch.destination },
    );
    assert(has_socket(s.modules, Socket::Producer(producer)));
    lemma_has_first_socket(s.modules, Socket::Producer(producer));
    let p = first_socket(s.modules, Socket::Producer(producer));
    let still_used = exists|i: int|
        0 <= i < patches.len() && patch_has_producer(#[trigger] patches[i], producer);
    let other_user = exists|i: int|
        0 <= i < s.patches.len() && i != s.selected_patch && patch_has_producer(
            #[trigger] s.patches[i],
            producer,
        );
    if still_used {
        let i = choose|i: int|
            0 <= i < patches.len() && patch_has_producer(#[trigger] patches[i], producer);
        assert(s.patches[i] == patches[i]);
    }
    if other_user {
        let i = choose|i: int|
            0 <= i < s.patches.len() && i != s.selected_patch && patch_has_producer(
                #[trigger] s.patches[i],
                producer,
            );
        assert(patches[i] == s.patches[i]);
    }
    let modules = if still_used {
        s.modules
    } else {
        lemma_disconnect_keeps_sockets(s.modules, p.0, p.1);
        disconnect_at(s.modules, p.0, p.1)
    };
    assert(forall|x: Socket| #[trigger] has_socket(s.modules, x) ==> has_socket(modules, x));
    assert(has_socket(s.modules, Socket::Consumer(consumer)));
    lemma_has_first_socket(modules, Socket::Consumer(consumer));
    let c = first_socket(modules, Socket::Consumer(consumer));
    lemma_disconnect_keeps_sockets(modules, c.0, c.1);
    let after = step(s, Action::BetaHold).0;
    assert(after.modules == disconnect_at(modules, c.0, c.1));
    assert(is_first_socket(s.modules, Socket::Consumer(consumer), c.0, c.1)) by {
        assert forall|mj: int, aj: int|
            valid_position(s.modules, mj, aj) && precedes(mj, aj, c.0, c.1) implies #[trigger] socket_at(
            s.modules,
            mj,
            aj,
        ) != Socket::Consumer(consumer) by {
            assert(socket_at(modules, mj, aj) == socket_at(s.modules, mj, aj));
        }
    }
    lemma_first_socket_unique(s.modules, Socket::Consumer(consumer), c.0, c.1);
    assert(is_first_socket(after.modules, Socket::Consumer(consumer), c.0, c.1)) by {
        assert forall|mj: int, aj: int|
            valid_position(after.modules, mj, aj) && precedes(mj, aj, c.0, c.1) implies #[trigger] socket_at(
            after.modules,
            mj,
            aj,
        ) != Socket::Consumer(consumer) by {
            assert(socket_at(after.modules, mj, aj) == socket_at(modules, mj, aj));
        }
    }
    assert(socket_at(modules, c.0, c.1) != socket_at(s.modules, p.0, p.1));
    assert(c != p);
}

fn selection_holds(selected: usize, len: usize) -> (r: bool)
    ensures
        r == selection_ok(selected, len as nat),
{
    selected < len || (len == 0 && selected == 0)
}

/// Whether every source lists an output of some attribute of the modules.
fn sources_listed(modules: &Vec<Module>, sources: &Vec<Source>) -> (r: bool)
    ensures
        r == forall|k: int|
            0 <= k < sources@.len() ==> has_socket(
                modules_model(modules@),
                Socket::Producer((#[trigger] sources@[k]).producer),
            ),
{
    let mut k: usize = 0;
    while k < sources.len()
        invariant
            k <= sources@.len(),
            forall|j: int|
                0 <= j < k ==> has_socket(
                    modules_model(modules@),
                    Socket::Producer((#[trigger] sources@[j]).producer),
                ),
        decreases sources@.len() - k,
    {
        if find_socket(modules, Socket::Producer(sources[k].producer)).is_none() {
            return false;
        }
        k = k + 1;
    }
    true
}

/// Whether every patch feeds an input of some attribute of the modules and
/// is fed, if at all, by an output of one.
fn patches_listed(modules: &Vec<Module>, patches: &Vec<Patch>) -> (r: bool)
    ensures
        r == ((forall|i: int|
            0 <= i < patches@.len() ==> has_socket(
                modules_model(modules@),
                Socket::Consumer(#[trigger] patches@[i].destination.consumer),
            )) && (forall|i: int|
            0 <= i < patches@.len() && (#[trigger] patches@[i]).source is Some ==> has_socket(
                modules_model(modules@),
                Socket::Producer(patches@[i].source.unwrap().producer),
            ))),
{
    let mut i: usize = 0;
    while i < patches.len()
        invariant
            i <= patches@.len(),
            forall|j: int|
                0 <= j < i ==> has_socket(
                    modules_model(modules@),
                    Socket::Consumer(#[trigger] patches@[j].destination.consumer),
                ),
            forall|j: int|
                0 <= j < i && (#[trigger] patches@[j]).source is Some ==> has_socket(
                    modules_model(modules@),
                    Socket::Producer(patches@[j].source.unwrap().producer),
                ),
        decreases patches@.len() - i,
    {
        let patch = patches[i];
        if find_socket(modules, Socket::Consumer(patch.destination.consumer)).is_none() {
            return false;
        }
        match patch.source {
            Some(source) => {
                if find_socket(modules, Socket::Producer(source.producer)).is_none() {
                    return false;
                }
            },
            None => {},
        }
        i = i + 1;
    }
    true
}

/// Whether `state` can be shown and edited, as `wf` says: the condition
/// `reduce` asks of the state it is handed.
pub fn is_wf(state: &State) -> (r: bool)
    ensures
        r == wf(state@),
{
    proof {
        assert(state@.modules =~= modules_model(state.modules@));
    }
    let selections = selection_holds(state.selected_module, state.modules.len()) && selection_holds(
        state.selected_patch,
        state.patches.len(),
    ) && selection_holds(state.selected_class, state.classes.len());
    let edit = if state.view != View::PatchEdit {
        state.patch_edit_origin.is_none() && state.patch_edit_sources.len() == 0
    } else {
        let origin_ok = match state.patch_edit_origin {
            Some(origin) => origin != View::PatchEdit,
            None => false,
        };
        origin_ok && state.patches.len() > 0 && selection_holds(
            state.patch_edit_selected_source,
            state.patch_edit_sources.len(),
        ) && sources_listed(&state.modules, &state.patch_edit_sources)
    };
    selections && edit && patches_listed(&state.modules, &state.patches)
}

/// Reacts to a gesture of the user: the state moves on as `step` says, and
/// the surroundings are asked for the edge of the signal graph to add or
/// remove, or the module to instantiate, if any.
pub fn reduce(state: &mut State, action: Action) -> (r: Option<Reaction<ProducerId, ConsumerId>>)
    requires
        wf(old(state)@),
        allowed(old(state)@, action),
    ensures
        (final(state)@, r) == step(old(state)@, action),
        wf(final(state)@),
{
    proof {
        assert(state.modules@.len() == state.modules.len());
        assert(state.patches@.len() == state.patches.len());
        assert(state.classes@.len() == state.classes.len());
        assert(state.patch_edit_sources@.len() == state.patch_edit_sources.len());
        lemma_step_preserves_wf(state@, action);
    }
    match state.view {
        View::Modules => match action {
            Action::AlphaUp => {
                select_previous_module(state);
                None
            },
            Action::AlphaDown => {
                select_next_module(state);
                None
            },
            Action::AlphaClick => {
                switch_to_patches(state);
                None
            },
            Action::AlphaHold => {
                switch_to_module_add(state);
                None
            },
            _ => None,
        },
        View::ModuleAdd => match action {
            Action::AlphaUp | Action::BetaUp => {
                select_previous_class(state);
                None
            },
            Action::AlphaDown | Action::BetaDown => {
                select_next_class(state);
                None
            },
            Action::AlphaClick | Action::BetaClick => {
                if state.classes.len() == 0 {
                    None
                } else {
                    Some(Reaction::InstantiateClass(state.classes[state.selected_class].name))
                }
            },
            Action::AlphaHold | Action::BetaHold => {
                switch_to_modules(state);
                None
            },
        },
        View::Patches => match action {
            Action::AlphaUp | Action::BetaUp => {
                select_previous_patch(state);
                None
            },
            Action::AlphaDown | Action::BetaDown => {
                select_next_patch(state);
                None
            },
            Action::AlphaClick => {
                switch_to_modules(state);
                None
            },
            Action::AlphaHold => None,
            Action::BetaClick => {
                enter_patch_edit(state);
                None
            },
            Action::BetaHold => disconnect_source(state),
        },
        View::PatchEdit => match action {
            Action::BetaUp => {
                select_previous_source(state);
                None
            },
            Action::BetaDown => {
                select_next_source(state);
                None
            },
            Action::BetaClick | Action::BetaHold => connect_selected_source(state),
            _ => {
                exit_patch_edit(state);
                None
            },
        },
    }
}

} // verus!
