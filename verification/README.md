# antiknob

Configures the Anticater VK01 knob (a CH57x-family macro pad) over USB HID:
keymaps, multi-action sequences, reading back what the firmware holds, and
reading a layer's backlight mode. Writing backlight modes needs the LED packet
encoder, which this crate does not have: a layout's `led:` entries are
reported and skipped.

## Layout

- `src/` is the library, written in Verus. Every function carries a
  contract and is proved against it.
  - `protocol`, `fd`, `binding`, `firmware`: action names, key IDs and the
    bytes of each record the firmware takes; reading a record back.
  - `config`, `commands`: the layout file's model, its validation, and the
    plan an upload follows (wipes, records, the slot geometry).
  - `device`: report framing, slot-table walks, read-back verification,
    interface selection, device classification and input decoding.
  - `api`: the command table shared by the command line, the daemon's
    socket and the MCP server; the dispatcher's checks and the step each
    request comes to; how an MCP or socket line is read and answered; the
    values answers carry.
  - `daemon`, `gui`, `apps`, `probe`: the decisions of the menu-bar daemon,
    the settings window and the gesture probe, each as a function from state
    and outcome to the next state.
- `app/` is the command-line program: argument parsing, HID I/O through
  `hidapi`, YAML and JSON through `serde`. It hands the library plain values.
- `tests/` runs the library on concrete values.
