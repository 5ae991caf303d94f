//! The kinds of modules of the signal graph: the names of their inputs and
//! outputs, and how each is listed in the user interface.

use vstd::prelude::*;
use vstd::view::View as _;

use crate::model::state::{Attribute, ConsumerId, Module, ModuleModel, NodeId, ProducerId, Socket};
use crate::text::str_eq;

verus! {

/// The input of the audio output.
#[derive(Clone, Copy, Debug, PartialEq, Eq, Hash, Structural)]
pub struct AudioOutputConsumer;

/// The output of the control input.
#[derive(Clone, Copy, Debug, PartialEq, Eq, Hash, Structural)]
pub struct ControlInputProducer;

/// The inputs of the mixer.
#[derive(Clone, Copy, Debug, PartialEq, Eq, Hash, Structural)]
pub enum MixerConsumer {
    In1,
    In2,
}

/// The output of the mixer.
#[derive(Clone, Copy, Debug, PartialEq, Eq, Hash, Structural)]
pub struct MixerProducer;

/// The input of the oscillator.
#[derive(Clone, Copy, Debug, PartialEq, Eq, Hash, Structural)]
pub enum OscillatorConsumer {
    Frequency,
}

/// The output of the oscillator.
#[derive(Clone, Copy, Debug, PartialEq, Eq, Hash, Structural)]
pub struct OscillatorProducer;

/// An attribute of a module as it is first listed: not connected, no value.
pub open spec fn listed_attribute(socket: Socket, name: &'static str) -> Attribute {
    Attribute { socket, name, connected: false, value: "" }
}

/// How a mixer added to the graph is listed: "MIX", with its two inputs and
/// its output.
pub fn mixer_module(handle: NodeId, in1: ConsumerId, in2: ConsumerId, out: ProducerId) -> (r: Module)
    ensures
        r@ == (ModuleModel {
            handle,
            name: "MIX",
            index: 0,
            attributes: seq![
                listed_attribute(Socket::Consumer(in1), "IN1"),
                listed_attribute(Socket::Consumer(in2), "IN2"),
                listed_attribute(Socket::Producer(out), "OUT"),
            ],
            selected_attribute: 0,
            persistent: false,
        }),
{
    let mut attributes = Vec::new();
    attributes.push(Attribute { socket: Socket::Consumer(in1), name: "IN1", connected: false, value: "" });
    attributes.push(Attribute { socket: Socket::Consumer(in2), name: "IN2", connected: false, value: "" });
    attributes.push(Attribute { socket: Socket::Producer(out), name: "OUT", connected: false, value: "" });
    let r = Module {
        handle,
        name: "MIX",
        index: 0,
        attributes,
        selected_attribute: 0,
        persistent: false,
    };
    assert(r@.attributes =~= seq![
        listed_attribute(Socket::Consumer(in1), "IN1"),
        listed_attribute(Socket::Consumer(in2), "IN2"),
        listed_attribute(Socket::Producer(out), "OUT"),
    ]);
    r
}

/// How an oscillator added to the graph is listed: "OSC", with its
/// frequency input and its output.
pub fn oscillator_module(handle: NodeId, frequency: ConsumerId, out: ProducerId) -> (r: Module)
    ensures
        r@ == (ModuleModel {
            handle,
            name: "OSC",
            index: 0,
            attributes: seq![
                listed_attribute(Socket::Consumer(frequency), "FRQ"),
                listed_attribute(Socket::Producer(out), "OUT"),
            ],
            selected_attribute: 0,
            persistent: false,
        }),
{
    let mut attributes = Vec::new();
    attributes.push(Attribute { socket: Socket::Consumer(frequency), name: "FRQ", connected: false, value: "" });
    attributes.push(Attribute { socket: Socket::Producer(out), name: "OUT", connected: false, value: "" });
    let r = Module {
        handle,
        name: "OSC",
        index: 0,
        attributes,
        selected_attribute: 0,
        persistent: false,
    };
    assert(r@.attributes =~= seq![
        listed_attribute(Socket::Consumer(frequency), "FRQ"),
        listed_attribute(Socket::Producer(out), "OUT"),
    ]);
    r
}

/// A kind of module that can be added to the graph.
#[derive(Clone, Copy, Debug, PartialEq, Eq, Structural)]
pub enum ModuleKind {
    Oscillator,
    Mixer,
}

/// The kind of module a class named `name` adds: "OSC" an oscillator, "MIX"
/// a mixer; no other name adds one.
pub fn kind_named(name: &str) -> (r: Option<ModuleKind>)
    ensures
        r == (if name@ == "OSC"@ {
            Some(ModuleKind::Oscillator)
        } else if name@ == "MIX"@ {
            Some(ModuleKind::Mixer)
        } else {
            None
        }),
{
    if str_eq(name, "OSC") {
        Some(ModuleKind::Oscillator)
    } else if str_eq(name, "MIX") {
        Some(ModuleKind::Mixer)
    } else {
        None
    }
}

} // verus!
