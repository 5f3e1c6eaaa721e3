# gamepad_host

A USB host for game controllers on an ESP32-S3: it recognises Xbox 360 style (XInput) and
DualSense controllers, decodes their reports, and drives rumble, player lamps, light bar
and the lamp on the board from the sticks and triggers.

- `src/` is the library: everything that is decided or computed, written in Verus with
  its contracts and proofs. It uses `Vec` and `String`, so the program around it brings a
  global allocator.
  - `descriptor` takes configuration descriptors apart,
  - `xinput` and `ds5` are the two protocols, `gamepad` is what they have in common,
  - `color` and `deadzone` turn stick and trigger positions into colours and steps,
  - `session` is the state machine of one connected controller, `usb_host` that of the
    port, with the lines that are logged about a device,
  - `led` is the brightness of the lamp on the board,
  - `errors`, `bytes` and `text` serve the others.
- `tests/` runs the library on given values.
- `app/` is the program around it: tasks, pipes and hardware.
