use vstd::prelude::*;
use vstd::view::View as _;

verus! {

/// Handle of a node of the signal graph.
#[derive(Clone, Copy, Debug, PartialEq, Eq, Structural)]
pub struct NodeId(pub u32);

/// Handle of an input of a node of the signal graph.
#[derive(Clone, Copy, Debug, PartialEq, Eq, Structural)]
pub struct ConsumerId(pub u32);

/// Handle of an output of a node of the signal graph.
#[derive(Clone, Copy, Debug, PartialEq, Eq, Structural)]
pub struct ProducerId(pub u32);

/// The screen the user interface shows.
#[derive(Clone, Copy, Debug, PartialEq, Eq, Structural)]
pub enum View {
    Modules,
    ModuleAdd,
    Patches,
    PatchEdit,
}

/// The end of an attribute in the signal graph.
#[derive(Clone, Copy, Debug, PartialEq, Eq, Structural)]
pub enum Socket {
    Consumer(ConsumerId),
    Producer(ProducerId),
}

impl Socket {
    /// The input this socket stands for; only consumer sockets have one.
    pub fn consumer(&self) -> (r: ConsumerId)
        requires
            self is Consumer,
        ensures
            *self == Socket::Consumer(r),
    {
        match self {
            Socket::Consumer(consumer) => *consumer,
            Socket::Producer(_) => unreached(),
        }
    }

    /// The output this socket stands for; only producer sockets have one.
    pub fn producer(&self) -> (r: ProducerId)
        requires
            self is Producer,
        ensures
            *self == Socket::Producer(r),
    {
        match self {
            Socket::Producer(producer) => *producer,
            Socket::Consumer(_) => unreached(),
        }
    }
}

#[derive(Clone, Copy, Debug, PartialEq)]
pub struct Attribute {
    pub socket: Socket,
    pub name: &'static str,
    pub connected: bool,
    pub value: &'static str,
}

impl Attribute {
    pub fn new_for_consumer(consumer: ConsumerId) -> (r: Self)
        ensures
            r.socket == Socket::Consumer(consumer),
            r.name@ == ""@,
            !r.connected,
            r.value@ == ""@,
    {
        Self { socket: Socket::Consumer(consumer), name: "", connected: false, value: "" }
    }

    pub fn new_for_producer(producer: ProducerId) -> (r: Self)
        ensures
            r.socket == Socket::Producer(producer),
            r.name@ == ""@,
            !r.connected,
            r.value@ == ""@,
    {
        Self { socket: Socket::Producer(producer), name: "", connected: false, value: "" }
    }

    pub fn with_name(self, name: &'static str) -> (r: Self)
        ensures
            r == (Attribute { name, ..self }),
    {
        Self { name, ..self }
    }
}

/// A module of the signal graph as the user interface lists it.
#[derive(Clone, Debug, PartialEq)]
pub struct Module {
    pub handle: NodeId,
    pub name: &'static str,
    pub index: usize,
    pub attributes: Vec<Attribute>,
    pub selected_attribute: usize,
    pub persistent: bool,
}

/// A module, its attributes taken as a sequence.
#[verifier::ext_equal]
pub struct ModuleModel {
    pub handle: NodeId,
    pub name: &'static str,
    pub index: usize,
    pub attributes: Seq<Attribute>,
    pub selected_attribute: usize,
    pub persistent: bool,
}

impl vstd::view::View for Module {
    type V = ModuleModel;

    open spec fn view(&self) -> ModuleModel {
        ModuleModel {
            handle: self.handle,
            name: self.name,
            index: self.index,
            attributes: self.attributes@,
            selected_attribute: self.selected_attribute,
            persistent: self.persistent,
        }
    }
}

impl Module {
    pub fn new_for_node(handle: NodeId) -> (r: Self)
        ensures
            r.handle == handle,
            r.name@ == ""@,
            r.index == 0,
            r.attributes@ == Seq::<Attribute>::empty(),
            r.selected_attribute == 0,
            !r.persistent,
    {
        Self {
            handle,
            name: "",
            index: 0,
            attributes: Vec::new(),
            selected_attribute: 0,
            persistent: false,
        }
    }

    pub fn with_name(self, name: &'static str) -> (r: Self)
        ensures
            r@ == (ModuleModel { name, ..self@ }),
    {
        Self { name, ..self }
    }

    pub fn with_index(self, index: usize) -> (r: Self)
        ensures
            r@ == (ModuleModel { index, ..self@ }),
    {
        Self { index, ..self }
    }

    pub fn persistent(self) -> (r: Self)
        ensures
            r@ == (ModuleModel { persistent: true, ..self@ }),
    {
        Self { persistent: true, ..self }
    }

    pub fn with_attribute(self, attribute: Attribute) -> (r: Self)
        ensures
            r@ == (ModuleModel { attributes: self@.attributes.push(attribute), ..self@ }),
    {
        let mut module = self;
        module.attributes.push(attribute);
        module
    }
}

/// Where a patch takes its signal from.
#[derive(Clone, Copy, Debug, PartialEq)]
pub struct Source {
    pub producer: ProducerId,
    pub module_name: &'static str,
    pub module_index: usize,
    pub attribute_name: &'static str,
}

/// Where a patch delivers its signal to.
#[derive(Clone, Copy, Debug, PartialEq)]
pub struct Destination {
    pub consumer: ConsumerId,
    pub module_name: &'static str,
    pub module_index: usize,
    pub attribute_name: &'static str,
}

/// An input of a module and the output, if any, feeding it.
#[derive(Clone, Copy, Debug, PartialEq)]
pub struct Patch {
    pub source: Option<Source>,
    pub destination: Destination,
}

impl Patch {
    pub fn new_for_consumer(consumer: ConsumerId) -> (r: Self)
        ensures
            r.source is None,
            r.destination.consumer == consumer,
            r.destination.module_name@ == ""@,
            r.destination.module_index == 0,
            r.destination.attribute_name@ == ""@,
    {
        Self {
            source: None,
            destination: Destination {
                consumer,
                module_name: "",
                module_index: 0,
                attribute_name: "",
            },
        }
    }
}

/// A kind of module the user can add.
#[derive(Clone, Copy, Debug, PartialEq)]
pub struct Class {
    pub name: &'static str,
    pub description: &'static str,
}

/// Everything the user interface shows and edits.
#[derive(Clone, Debug, PartialEq)]
pub struct State {
    pub view: View,
    pub modules: Vec<Module>,
    pub selected_module: usize,
    pub patches: Vec<Patch>,
    pub selected_patch: usize,
    pub classes: Vec<Class>,
    pub selected_class: usize,
    pub patch_edit_origin: Option<View>,
    pub patch_edit_sources: Vec<Source>,
    pub patch_edit_selected_source: usize,
}

/// The state, its collections taken as sequences.
#[verifier::ext_equal]
pub struct StateModel {
    pub view: View,
    pub modules: Seq<ModuleModel>,
    pub selected_module: usize,
    pub patches: Seq<Patch>,
    pub selected_patch: usize,
    pub classes: Seq<Class>,
    pub selected_class: usize,
    pub patch_edit_origin: Option<View>,
    pub patch_edit_sources: Seq<Source>,
    pub patch_edit_selected_source: usize,
}

impl vstd::view::View for State {
    type V = StateModel;

    open spec fn view(&self) -> StateModel {
        StateModel {
            view: self.view,
            modules: self.modules@.map_values(|m: Module| m@),
            selected_module: self.selected_module,
            patches: self.patches@,
            selected_patch: self.selected_patch,
            classes: self.classes@,
            selected_class: self.selected_class,
            patch_edit_origin: self.patch_edit_origin,
            patch_edit_sources: self.patch_edit_sources@,
            patch_edit_selected_source: self.patch_edit_selected_source,
        }
    }
}

impl Default for State {
    fn default() -> (r: Self)
        ensures
            r.view == View::Modules,
            r.modules@ == Seq::<Module>::empty(),
            r.selected_module == 0,
            r.patches@ == Seq::<Patch>::empty(),
            r.selected_patch == 0,
            r.classes@ == Seq::<Class>::empty(),
            r.selected_class == 0,
            r.patch_edit_origin is None,
            r.patch_edit_sources@ == Seq::<Source>::empty(),
            r.patch_edit_selected_source == 0,
    {
        Self {
            view: View::Modules,
            modules: Vec::new(),
            selected_module: 0,
            patches: Vec::new(),
            selected_patch: 0,
            classes: Vec::new(),
            selected_class: 0,
            patch_edit_origin: None,
            patch_edit_sources: Vec::new(),
            patch_edit_selected_source: 0,
        }
    }
}

} // verus!
