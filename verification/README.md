# proton

Verified building blocks of the Proton eurorack module firmware.

`src/` is the library, checked by Verus:

- `peripherals`: debounced buttons, rotary encoders with and without detents,
  and gate outputs, over pin traits that board support crates implement.
- `model`: the state of the user interface of the modular instrument (modules,
  patches, the sources a patch can take) and the reducer that turns encoder
  actions into new states and requests to the signal graph.
- `display`: the layout of that state on the 128 by 64 pixel screen, as a list
  of shapes.
- `modules`: the ports of the signal graph's nodes and how each kind of module
  is listed.
- `sequencer`: the trigger pattern of the Karplus-Strong instrument and the
  self-changing rhythm that places and drops its notes.
- `traky`: a looper that pages recordings longer than memory in and out of
  storage.
- `kaseta`, `indicator`, `store`, `text`: the settings of the Kaseta delay, the
  blinking indicator, the listing of modules by name, and string comparison.

`app/` holds what Verus does not check: floating point audio nodes, the
signal graph built with `graphity`, drawing on `embedded-graphics` targets,
adapters from `embedded-hal` pins, and the analog inputs and outputs.

`tests/` runs the library on concrete inputs.
