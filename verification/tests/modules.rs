use proton::indicator::{set_indicator, IndicatorStep};
use proton::model::state::{ConsumerId, NodeId, ProducerId, Socket};
use proton::modules::{
    kind_named, mixer_module, oscillator_module, MixerConsumer, ModuleKind, OscillatorConsumer,
};
use proton::store::{Attribute, Module, Store};

#[test]
fn mixer_is_listed_with_two_inputs_and_an_output() {
    let module = mixer_module(NodeId(4), ConsumerId(1), ConsumerId(2), ProducerId(3));
    assert_eq!(module.handle, NodeId(4));
    assert_eq!(module.name, "MIX");
    assert_eq!(module.index, 0);
    assert_eq!(module.selected_attribute, 0);
    assert!(!module.persistent);
    let names: Vec<&str> = module.attributes.iter().map(|a| a.name).collect();
    assert_eq!(names, ["IN1", "IN2", "OUT"]);
    assert_eq!(module.attributes[0].socket, Socket::Consumer(ConsumerId(1)));
    assert_eq!(module.attributes[1].socket, Socket::Consumer(ConsumerId(2)));
    assert_eq!(module.attributes[2].socket, Socket::Producer(ProducerId(3)));
    assert!(module.attributes.iter().all(|a| !a.connected && a.value.is_empty()));
}

#[test]
fn oscillator_is_listed_with_frequency_and_output() {
    let module = oscillator_module(NodeId(7), ConsumerId(8), ProducerId(9));
    assert_eq!(module.name, "OSC");
    let names: Vec<&str> = module.attributes.iter().map(|a| a.name).collect();
    assert_eq!(names, ["FRQ", "OUT"]);
    assert_eq!(module.attributes[0].socket, Socket::Consumer(ConsumerId(8)));
    assert_eq!(module.attributes[1].socket, Socket::Producer(ProducerId(9)));
}

#[test]
fn class_names_pick_module_kinds() {
    assert_eq!(kind_named("OSC"), Some(ModuleKind::Oscillator));
    assert_eq!(kind_named("MIX"), Some(ModuleKind::Mixer));
    assert_eq!(kind_named("osc"), None);
    assert_eq!(kind_named(""), None);
}

#[test]
fn port_names_are_distinct() {
    assert_ne!(MixerConsumer::In1, MixerConsumer::In2);
    assert_eq!(OscillatorConsumer::Frequency, OscillatorConsumer::Frequency);
}

#[test]
fn indicator_blinks() {
    let mut on = true;
    let mut lit = Vec::new();
    for _ in 0..4 {
        let IndicatorStep { led_on, next } = set_indicator(on);
        lit.push(led_on);
        on = next;
    }
    assert_eq!(lit, [true, false, true, false]);
}

#[test]
fn store_lists_modules_by_name() {
    let store = Store {
        modules: vec![Module {
            name: "OSC",
            index: 1,
            attributes: vec![Attribute { name: "FRQ" }],
            selected_attribute: 0,
        }],
        selected_module: 0,
    };
    assert_eq!(store.modules[store.selected_module].attributes[0].name, "FRQ");
}
