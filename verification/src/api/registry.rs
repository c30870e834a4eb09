//! Every command this tool has, declared once.
//!
//! The command line and the MCP tool list are both rendered from this
//! table, so a command cannot exist on one surface and not the other
//! without the table saying why, next to the command.

use vstd::prelude::*;
use crate::text::{digit_char, hex_digit, join, join_strings, push_char, push_str};

verus! {

/// What a parameter carries.
#[derive(Debug, Clone, Copy, PartialEq, Eq, Structural)]
pub enum Kind {
    /// Presence-only; `--flag`.
    Flag,
    Str,
    Int,
    /// Repeated or comma-separated values.
    IntList,
    /// Free-form trailing words, e.g. an action sequence.
    StrList,
}

/// Which surfaces a parameter appears on. `upload` takes a file on the
/// command line and a YAML string over MCP, so not every parameter can be
/// shared.
#[derive(Debug, Clone, Copy, PartialEq, Eq, Structural)]
pub enum On {
    Both,
    CliOnly,
    McpOnly,
}

#[derive(Debug, Clone, Copy)]
pub struct Param {
    pub name: &'static str,
    pub kind: Kind,
    pub about: &'static str,
    pub required: bool,
    /// A positional argument on the CLI rather than `--name`.
    pub positional: bool,
    pub default: Option<&'static str>,
    pub on: On,
}

impl Param {
    pub fn flag(name: &'static str, about: &'static str) -> (r: Self)
        ensures
            r.name == name && r.kind == Kind::Flag && r.about == about && !r.required
                && !r.positional && r.default.is_none() && r.on == On::Both,
    {
        Param { name, kind: Kind::Flag, about, required: false, positional: false, default: None, on: On::Both }
    }

    pub fn opt(name: &'static str, kind: Kind, about: &'static str) -> (r: Self)
        ensures
            r.name == name && r.kind == kind && r.about == about && !r.required && !r.positional
                && r.default.is_none() && r.on == On::Both,
    {
        Param { name, kind, about, required: false, positional: false, default: None, on: On::Both }
    }

    pub fn req(name: &'static str, kind: Kind, about: &'static str) -> (r: Self)
        ensures
            r.name == name && r.kind == kind && r.about == about && r.required && !r.positional
                && r.default.is_none() && r.on == On::Both,
    {
        Param { name, kind, about, required: true, positional: false, default: None, on: On::Both }
    }

    pub fn positional(self) -> (r: Self)
        ensures
            r.positional,
            r.name == self.name && r.kind == self.kind && r.about == self.about
                && r.required == self.required && r.default == self.default && r.on == self.on,
    {
        let mut p = self;
        p.positional = true;
        p
    }

    pub fn default(self, value: &'static str) -> (r: Self)
        ensures
            r.default == Some(value),
            r.name == self.name && r.kind == self.kind && r.about == self.about
                && r.required == self.required && r.positional == self.positional && r.on == self.on,
    {
        let mut p = self;
        p.default = Some(value);
        p
    }

    pub fn only(self, on: On) -> (r: Self)
        ensures
            r.on == on,
            r.name == self.name && r.kind == self.kind && r.about == self.about
                && r.required == self.required && r.positional == self.positional && r.default == self.default,
    {
        let mut p = self;
        p.on = on;
        p
    }

    pub fn on_surface(&self, mcp: bool) -> (r: bool)
        ensures
            r == on_surface_of(self.on, mcp),
    {
        match self.on {
            On::Both => true,
            On::CliOnly => !mcp,
            On::McpOnly => mcp,
        }
    }
}

/// Whether a parameter marked `on` appears on the MCP surface (`mcp`) or on
/// the command line.
pub open spec fn on_surface_of(on: On, mcp: bool) -> bool {
    match on {
        On::Both => true,
        On::CliOnly => !mcp,
        On::McpOnly => mcp,
    }
}

/// The parameters of `rows` that appear on one surface, in order.
pub open spec fn param_rows_on(rows: Seq<ParamRow>, mcp: bool) -> Seq<ParamRow> {
    rows.filter(|r: ParamRow| on_surface_of(r.5, mcp))
}

impl Kind {
    /// The JSON schema type a parameter of this kind is declared with.
    pub fn schema_type(&self) -> (r: &'static str)
        ensures
            r@ == match *self {
                Kind::Flag => "boolean"@,
                Kind::Str => "string"@,
                Kind::Int => "integer"@,
                Kind::IntList => "array"@,
                Kind::StrList => "array"@,
            },
    {
        match self {
            Kind::Flag => "boolean",
            Kind::Str => "string",
            Kind::Int => "integer",
            Kind::IntList => "array",
            Kind::StrList => "array",
        }
    }

    /// For a list, the JSON schema type of its items.
    pub fn item_type(&self) -> (r: Option<&'static str>)
        ensures
            match *self {
                Kind::IntList => r matches Some(t) && t@ == "integer"@,
                Kind::StrList => r matches Some(t) && t@ == "string"@,
                _ => r is None,
            },
    {
        match self {
            Kind::IntList => Some("integer"),
            Kind::StrList => Some("string"),
            _ => None,
        }
    }
}

/// Whether a command reaches a surface, and if not, why not.
#[derive(Debug, Clone, Copy)]
pub enum Reach {
    Yes,
    /// Absent on purpose. The string is the reason a reader can check.
    No(&'static str),
}

/// `None` when the command is on the surface, else the stated reason.
pub open spec fn reach_view(r: Reach) -> Option<Seq<char>> {
    match r {
        Reach::Yes => None,
        Reach::No(why) => Some(why@),
    }
}

impl Reach {
    pub fn is_yes(&self) -> (r: bool)
        ensures
            r == (reach_view(*self) is None),
    {
        match self {
            Reach::Yes => true,
            Reach::No(_) => false,
        }
    }
}

pub struct CommandSpec {
    /// Canonical snake_case name. The CLI renders it kebab-case and MCP uses
    /// it as the tool name, so the two cannot be spelled differently.
    pub name: &'static str,
    pub about: &'static str,
    pub params: Vec<Param>,
    /// The CLI spelling when it differs from the canonical name.
    pub cli_as: Option<&'static str>,
    pub cli: Reach,
    pub mcp: Reach,
}

/// A snake_case name in kebab-case.
pub open spec fn kebab(s: Seq<char>) -> Seq<char> {
    s.map_values(|c: char| if c == '_' { '-' } else { c })
}

/// The command line spelling of a command.
pub open spec fn cli_spelling(name: Seq<char>, cli_as: Option<Seq<char>>) -> Seq<char> {
    match cli_as {
        Some(s) => s,
        None => kebab(name),
    }
}

/// What the table says of a command: its name, its CLI override, for the
/// CLI and for MCP whether it is there (`None`) or why it is not, its
/// description and its parameters.
pub open spec fn command_row(c: CommandSpec) -> CommandRow {
    (
        c.name@,
        match c.cli_as { Some(s) => Some(s@), None => None },
        reach_view(c.cli),
        reach_view(c.mcp),
        c.about@,
        c.params@.map_values(|p: Param| param_row(p)),
    )
}

/// What the table says of a parameter: its name, kind, whether it is
/// required, whether it is positional on the CLI, its default and its
/// surfaces.
pub open spec fn param_row(p: Param) -> ParamRow {
    (p.name@, p.kind, p.required, p.positional, match p.default { Some(d) => Some(d@), None => None }, p.on)
}

impl CommandSpec {
    /// The parameters this command takes on one surface, in table order: a
    /// tool's input schema over MCP (`mcp`), the arguments on the command
    /// line otherwise.
    pub fn params_on(&self, mcp: bool) -> (r: Vec<Param>)
        ensures
            r@.map_values(|p: Param| param_row(p)) == param_rows_on(
                self.params@.map_values(|p: Param| param_row(p)),
                mcp,
            ),
    {
        let ghost rows = self.params@.map_values(|p: Param| param_row(p));
        let ghost pred = |r: ParamRow| on_surface_of(r.5, mcp);
        let mut out: Vec<Param> = Vec::new();
        let mut i: usize = 0;
        assert(rows.take(0).filter(pred) =~= Seq::<ParamRow>::empty()) by {
            reveal(Seq::filter);
        }
        while i < self.params.len()
            invariant
                i <= self.params@.len(),
                rows == self.params@.map_values(|p: Param| param_row(p)),
                pred == (|r: ParamRow| on_surface_of(r.5, mcp)),
                out@.map_values(|p: Param| param_row(p)) == rows.take(i as int).filter(pred),
            decreases self.params.len() - i,
        {
            let p = self.params[i];
            assert(rows.take(i + 1).drop_last() =~= rows.take(i as int));
            assert(rows.take(i + 1).last() == param_row(p));
            assert(rows.take(i + 1).filter(pred) == if pred(param_row(p)) {
                rows.take(i as int).filter(pred).push(param_row(p))
            } else {
                rows.take(i as int).filter(pred)
            }) by {
                reveal(Seq::filter);
            }
            if p.on_surface(mcp) {
                let ghost before = out@;
                out.push(p);
                proof {
                    crate::text::lemma_map_push(before, p, |p: Param| param_row(p));
                }
            }
            i = i + 1;
        }
        assert(rows.take(self.params@.len() as int) =~= rows);
        out
    }

    /// The CLI spelling: the override if there is one, else the canonical
    /// name in kebab-case.
    pub fn cli_name(&self) -> (r: String)
        ensures
            r@ == cli_spelling(self.name@, match self.cli_as { Some(s) => Some(s@), None => None }),
    {
        match self.cli_as {
            Some(s) => String::from_str(s),
            None => {
                let n: usize = self.name.unicode_len();
                let mut out = String::new();
                let mut i: usize = 0;
                while i < n
                    invariant
                        n == self.name@.len(),
                        i <= n,
                        out@ == kebab(self.name@.take(i as int)),
                    decreases n - i,
                {
                    let c = self.name.get_char(i);
                    let d = if c == '_' { '-' } else { c };
                    crate::text::push_char(&mut out, d);
                    assert(kebab(self.name@.take(i + 1)) =~= kebab(self.name@.take(i as int)).push(d));
                    i = i + 1;
                }
                assert(self.name@.take(n as int) =~= self.name@);
                out
            },
        }
    }
}

/// The rows of a list of commands.
pub open spec fn rows_of(v: Seq<CommandSpec>) -> Seq<CommandRow> {
    v.map_values(|c: CommandSpec| command_row(c))
}

/// The table, row by row.
pub open spec fn command_rows() -> Seq<CommandRow> {
    seq![
        ("get_status"@, Some("status"@), None, None,
            "Probe and display status of connected Anticater / CH57x hardware without sudo."@,
            seq![
                ("json"@, Kind::Flag, false, false, None, On::Both),
            ]),
        ("validate"@, None, None, Some("checks a local file; over MCP, upload_keymap reports the same errors"@),
            "Validate a keymap YAML layout offline, without touching the device."@,
            seq![
                ("file"@, Kind::Str, false, true, None, On::Both),
            ]),
        ("upload_keymap"@, Some("upload"@), None, None,
            "Flash a keymap to the device. A gesture may bind one action (\"volumeup\"), a \
                    sequence ([\"cmd-c\", \"cmd-v\"]) or a timed one ({steps: [...], delay_ms: 120}). \
                    Knob gestures are ccw, press, cw, hold_twist_l, hold_twist_r."@,
            seq![
                ("file"@, Kind::Str, false, true, None, On::CliOnly),
                ("yaml"@, Kind::Str, true, false, None, On::McpOnly),
                ("layer"@, Kind::Int, false, false, None, On::Both),
                ("no_verify"@, Kind::Flag, false, false, None, On::CliOnly),
                ("knob_only"@, Kind::Flag, false, false, None, On::CliOnly),
            ]),
        ("set_led"@, Some("led"@), None, None,
            "Set a layer's backlight mode. Modes: off, red, green, ripple, rainbow, rgb."@,
            seq![
                ("layer"@, Kind::Int, true, true, None, On::Both),
                ("mode"@, Kind::StrList, true, true, None, On::Both),
            ]),
        ("get_led"@, Some("led-read"@), None, None,
            "Read back a layer's current LED mode. Read-only."@,
            seq![
                ("layer"@, Kind::Int, true, true, None, On::Both),
                ("raw"@, Kind::Flag, false, false, None, On::CliOnly),
            ]),
        ("show_keys"@, None, None, None,
            "List every action name the device understands: keys, modifiers, media usages \
                    and mouse actions. Call this rather than guessing a name -- an unknown name is \
                    refused, and the vocabulary is not the same as a macOS key name."@,
            seq![]),
        ("bind_slots"@, None, None, None,
            "Flash the one-time host-translate slot bindings (ctrl-alt-F16..F20, one per \
                    gesture including hold+twist) so the daemon can translate knob gestures."@,
            seq![
                ("config"@, Kind::Str, false, false, None, On::CliOnly),
                ("buttons"@, Kind::Int, false, false, None, On::Both),
                ("layer"@, Kind::Int, false, false, None, On::Both),
                ("dry_run"@, Kind::Flag, false, false, None, On::CliOnly),
            ]),
        ("bind_sequence"@, Some("bind-seq"@), None, None,
            "Bind ONE knob gesture to a sequence of actions, with an optional wait between \
                    steps. This is what lets a gesture type a string or drive an application. Key \
                    ids: 2=twist CCW, 3=press, 4=twist CW, 5=hold+twist left, 6=hold+twist right. \
                    A slot holds 19 entries and a chord costs one entry per modifier plus one for \
                    the key. Keyboard actions chain; the firmware stores only ONE media action per \
                    slot, so a media list is refused rather than silently truncated."@,
            seq![
                ("key"@, Kind::Int, true, false, None, On::Both),
                ("layer"@, Kind::Int, false, false, Some("0"@), On::Both),
                ("delay_ms"@, Kind::Int, false, false, Some("0"@), On::Both),
                ("width"@, Kind::Int, false, false, None, On::CliOnly),
                ("dry_run"@, Kind::Flag, false, false, None, On::CliOnly),
                ("actions"@, Kind::StrList, true, true, None, On::Both),
            ]),
        ("read_slots"@, None, None, None,
            "Read the device's slot table. Pass full to get the WHOLE table in three burst \
                    queries -- every key on every layer, including keys past whatever the declared \
                    layout mentions."@,
            seq![
                ("full"@, Kind::Flag, false, false, None, On::Both),
                ("config"@, Kind::Str, false, false, None, On::CliOnly),
                ("wide"@, Kind::Flag, false, false, None, On::CliOnly),
                ("group"@, Kind::Int, false, false, None, On::McpOnly),
                ("counters"@, Kind::IntList, false, false, None, On::McpOnly),
            ]),
        ("list_apps"@, None, None, None,
            "List installed macOS applications and their bundle IDs for launch/quit actions."@,
            seq![]),
        ("send_raw"@, Some("raw"@), None, None,
            "Send a raw HID report payload to the device. For protocol work."@,
            seq![
                ("read"@, Kind::Flag, false, false, None, On::CliOnly),
                ("reads"@, Kind::Int, false, false, Some("1"@), On::CliOnly),
                ("bytes"@, Kind::StrList, true, true, None, On::Both),
            ]),
        ("import_presets"@, None, None, Some("a one-off migration of files on this machine, not a device operation"@),
            "Migrate the built-in presets to host-layer JSON for the daemon."@,
            seq![
                ("out"@, Kind::Str, false, false, None, On::CliOnly),
                ("force"@, Kind::Flag, false, false, None, On::CliOnly),
            ]),
        ("listen"@, None, None, Some("streams for seconds and means nothing unless a human turns the knob"@),
            "Dump raw input reports for a few seconds to see what the knob sends."@,
            seq![
                ("device"@, Kind::StrList, false, false, None, On::Both),
                ("timeout_secs"@, Kind::Int, false, false, Some("10"@), On::Both),
            ]),
        ("probe_gestures"@, None, None, Some("needs a human performing gestures inside the capture window"@),
            "Find which firmware slot a gesture drives by writing a distinct marker to each \
                    candidate and watching what comes out."@,
            seq![
                ("candidates"@, Kind::IntList, false, false, Some("7,8,9,10,11"@), On::Both),
                ("control"@, Kind::Int, false, false, None, On::Both),
                ("layer"@, Kind::Int, false, false, Some("0"@), On::Both),
                ("capture_secs"@, Kind::Int, false, false, Some("45"@), On::Both),
                ("device"@, Kind::StrList, false, false, None, On::Both),
                ("config"@, Kind::Str, false, false, None, On::Both),
                ("map"@, Kind::Flag, false, false, None, On::Both),
            ]),
        ("led_probe"@, None, None, Some("needs a human watching the LED to say which mode is which"@),
            "Walk every LED mode on one layer so an unmapped one can be identified by eye."@,
            seq![
                ("layer"@, Kind::Int, false, true, Some("0"@), On::Both),
                ("dwell_secs"@, Kind::Int, false, false, Some("3"@), On::Both),
                ("color"@, Kind::Str, false, false, Some("red"@), On::Both),
            ]),
        ("mcp"@, None, None, Some("starts the MCP server; exposing it over MCP is circular"@),
            "Run as an MCP server over stdio."@,
            seq![
                ("config"@, Kind::Str, false, false, None, On::Both),
            ]),
        ("get_config"@, None, Some("reads a running daemon's state; a one-shot CLI process has none"@), None,
            "Return the daemon's current host-layer configuration."@,
            seq![]),
        ("set_config"@, None, Some("writes a running daemon's state; a one-shot CLI process has none"@), None,
            "Replace the daemon's host-layer configuration."@,
            seq![
                ("config"@, Kind::Str, true, false, None, On::Both),
            ]),
        ("set_layer"@, None, Some("acts on a running daemon's engine"@), None,
            "Switch the daemon's active host layer."@,
            seq![
                ("index"@, Kind::Int, true, false, None, On::Both),
            ]),
        ("get_virtual_layer"@, None, Some("acts on a running daemon's engine"@), None,
            "Report the virtual layer: its variants, which is live and why, and which \
                    device layer the daemon can actually hear."@,
            seq![]),
        ("set_virtual_variant"@, None, Some("acts on a running daemon's engine"@), None,
            "Pin the virtual layer to a named variant, or clear the pin."@,
            seq![
                ("variant"@, Kind::Str, false, false, None, On::Both),
            ]),
        ("get_knob_mode"@, None, Some("the CLI reports the same thing through get_status"@), None,
            "Report whether the firmware sends the bound slot chords, and which device \
                    layer carries them."@,
            seq![
                ("buttons"@, Kind::Int, false, false, None, On::Both),
            ]),
        ("list_commands"@, None, Some("the CLI's own --help renders this table already"@), None,
            "Describe every command this build exposes, with its parameters and which \
                    surfaces carry it. Read from the same table that generates the CLI and the \
                    MCP tool list, so a caller cannot be told about a command that is not here."@,
            seq![]),
        ("ping"@, None, Some("a daemon liveness probe; a CLI process that runs has already answered"@), None,
            "Application-level liveness probe confirming the daemon is responsive."@,
            seq![])
    ]
}

/// Every command this tool has.
pub fn commands() -> (r: Vec<CommandSpec>)
    ensures
        rows_of(r@) == command_rows(),
{
    let v = vec![
        CommandSpec {
            name: "get_status",
            about: "Probe and display status of connected Anticater / CH57x hardware without sudo.",
            params: vec![Param::flag("json", "Machine-readable JSON device list")],
            cli_as: Some("status"),
            cli: Reach::Yes,
            mcp: Reach::Yes,
        },
        CommandSpec {
            name: "validate",
            about: "Validate a keymap YAML layout offline, without touching the device.",
            params: vec![Param::opt(
                "file",
                Kind::Str,
                "Layout file; defaults to the installed one",
            )
            .positional()],
            cli_as: None,
            cli: Reach::Yes,
            mcp: Reach::No("checks a local file; over MCP, upload_keymap reports the same errors"),
        },
        CommandSpec {
            name: "upload_keymap",
            about: "Flash a keymap to the device. A gesture may bind one action (\"volumeup\"), a \
                    sequence ([\"cmd-c\", \"cmd-v\"]) or a timed one ({steps: [...], delay_ms: 120}). \
                    Knob gestures are ccw, press, cw, hold_twist_l, hold_twist_r.",
            params: vec![
                Param::opt("file", Kind::Str, "Layout file to flash")
                    .positional()
                    .only(On::CliOnly),
                Param::req("yaml", Kind::Str, "Layout YAML as a string").only(On::McpOnly),
                Param::opt("layer", Kind::Int, "Flash only this device layer"),
                Param::flag("no_verify", "Skip the post-flash read-back").only(On::CliOnly),
                Param::flag("knob_only", "Confirm the device really has no keys").only(On::CliOnly),
            ],
            cli_as: Some("upload"),
            cli: Reach::Yes,
            mcp: Reach::Yes,
        },
        CommandSpec {
            name: "set_led",
            about: "Set a layer's backlight mode. Modes: off, red, green, ripple, rainbow, rgb.",
            params: vec![
                Param::req("layer", Kind::Int, "Device layer 0-2").positional(),
                Param::req("mode", Kind::StrList, "Mode name, optionally with a colour").positional(),
            ],
            cli_as: Some("led"),
            cli: Reach::Yes,
            mcp: Reach::Yes,
        },
        CommandSpec {
            name: "get_led",
            about: "Read back a layer's current LED mode. Read-only.",
            params: vec![
                Param::req("layer", Kind::Int, "Device layer 0-2").positional(),
                Param::flag("raw", "Dump the full reply bytes").only(On::CliOnly),
            ],
            cli_as: Some("led-read"),
            cli: Reach::Yes,
            mcp: Reach::Yes,
        },
        CommandSpec {
            name: "show_keys",
            about: "List every action name the device understands: keys, modifiers, media usages \
                    and mouse actions. Call this rather than guessing a name -- an unknown name is \
                    refused, and the vocabulary is not the same as a macOS key name.",
            params: vec![],
            cli_as: None,
            cli: Reach::Yes,
            mcp: Reach::Yes,
        },
        CommandSpec {
            name: "bind_slots",
            about: "Flash the one-time host-translate slot bindings (ctrl-alt-F16..F20, one per \
                    gesture including hold+twist) so the daemon can translate knob gestures.",
            params: vec![
                Param::opt("config", Kind::Str, "Layout to read the button count from")
                    .only(On::CliOnly),
                Param::opt("buttons", Kind::Int, "Override the button count"),
                Param::opt("layer", Kind::Int, "Device layer to bind (default: all)"),
                Param::flag("dry_run", "Print the plan without touching hardware").only(On::CliOnly),
            ],
            cli_as: None,
            cli: Reach::Yes,
            mcp: Reach::Yes,
        },
        CommandSpec {
            name: "bind_sequence",
            about: "Bind ONE knob gesture to a sequence of actions, with an optional wait between \
                    steps. This is what lets a gesture type a string or drive an application. Key \
                    ids: 2=twist CCW, 3=press, 4=twist CW, 5=hold+twist left, 6=hold+twist right. \
                    A slot holds 19 entries and a chord costs one entry per modifier plus one for \
                    the key. Keyboard actions chain; the firmware stores only ONE media action per \
                    slot, so a media list is refused rather than silently truncated.",
            params: vec![
                Param::req(
                    "key",
                    Kind::Int,
                    "Slot key id: 2=CCW, 3=press, 4=CW, 5=hold L, 6=hold R",
                ),
                Param::opt("layer", Kind::Int, "Device layer 0-2").default("0"),
                Param::opt(
                    "delay_ms",
                    Kind::Int,
                    "Milliseconds before each step after the first",
                )
                .default("0"),
                Param::opt("width", Kind::Int, "Width to read the table back at").only(On::CliOnly),
                Param::flag("dry_run", "Print the packet without writing").only(On::CliOnly),
                Param::req(
                    "actions",
                    Kind::StrList,
                    "Action names in order, e.g. cmd-c cmd-v",
                )
                .positional(),
            ],
            cli_as: Some("bind-seq"),
            cli: Reach::Yes,
            mcp: Reach::Yes,
        },
        CommandSpec {
            name: "read_slots",
            about: "Read the device's slot table. Pass full to get the WHOLE table in three burst \
                    queries -- every key on every layer, including keys past whatever the declared \
                    layout mentions.",
            params: vec![
                Param::flag("full", "Read every key on every layer (recommended)"),
                Param::opt("config", Kind::Str, "Layout whose width to walk at").only(On::CliOnly),
                Param::flag("wide", "Exploratory sweep for protocol work").only(On::CliOnly),
                Param::opt("group", Kind::Int, "Per-slot form: the width").only(On::McpOnly),
                Param::opt("counters", Kind::IntList, "Per-slot form: which counters")
                    .only(On::McpOnly),
            ],
            cli_as: None,
            cli: Reach::Yes,
            mcp: Reach::Yes,
        },
        CommandSpec {
            name: "list_apps",
            about: "List installed macOS applications and their bundle IDs for launch/quit actions.",
            params: vec![],
            cli_as: None,
            cli: Reach::Yes,
            mcp: Reach::Yes,
        },
        CommandSpec {
            name: "send_raw",
            about: "Send a raw HID report payload to the device. For protocol work.",
            params: vec![
                Param::flag("read", "Print the device's reply").only(On::CliOnly),
                Param::opt(
                    "reads",
                    Kind::Int,
                    "How many replies to read; a query can burst",
                )
                .default("1")
                .only(On::CliOnly),
                Param::req("bytes", Kind::StrList, "Hex bytes, e.g. FD FE FF").positional(),
            ],
            cli_as: Some("raw"),
            cli: Reach::Yes,
            mcp: Reach::Yes,
        },
        CommandSpec {
            name: "import_presets",
            about: "Migrate the built-in presets to host-layer JSON for the daemon.",
            params: vec![
                Param::opt("out", Kind::Str, "Write host.json here").only(On::CliOnly),
                Param::flag("force", "Overwrite an existing output file").only(On::CliOnly),
            ],
            cli_as: None,
            cli: Reach::Yes,
            mcp: Reach::No("a one-off migration of files on this machine, not a device operation"),
        },
        CommandSpec {
            name: "listen",
            about: "Dump raw input reports for a few seconds to see what the knob sends.",
            params: vec![
                Param::opt(
                    "device",
                    Kind::StrList,
                    "Only watch these devices, e.g. 514c:8850",
                ),
                Param::opt("timeout_secs", Kind::Int, "How long to listen").default("10"),
            ],
            cli_as: None,
            cli: Reach::Yes,
            mcp: Reach::No("streams for seconds and means nothing unless a human turns the knob"),
        },
        CommandSpec {
            name: "probe_gestures",
            about: "Find which firmware slot a gesture drives by writing a distinct marker to each \
                    candidate and watching what comes out.",
            params: vec![
                Param::opt("candidates", Kind::IntList, "Slots to probe").default("7,8,9,10,11"),
                Param::opt("control", Kind::Int, "Slot used as the positive control"),
                Param::opt("layer", Kind::Int, "Device layer to probe on").default("0"),
                Param::opt("capture_secs", Kind::Int, "Seconds to capture for").default("45"),
                Param::opt("device", Kind::StrList, "Only watch these devices"),
                Param::opt("config", Kind::Str, "Layout to read the layer width from"),
                Param::flag("map", "Map EVERY gesture at once across keys 1-6"),
            ],
            cli_as: None,
            cli: Reach::Yes,
            mcp: Reach::No("needs a human performing gestures inside the capture window"),
        },
        CommandSpec {
            name: "led_probe",
            about: "Walk every LED mode on one layer so an unmapped one can be identified by eye.",
            params: vec![
                Param::opt("layer", Kind::Int, "Device layer to cycle")
                    .default("0")
                    .positional(),
                Param::opt("dwell_secs", Kind::Int, "Seconds to hold each mode").default("3"),
                Param::opt("color", Kind::Str, "Colour for modes that take one").default("red"),
            ],
            cli_as: None,
            cli: Reach::Yes,
            mcp: Reach::No("needs a human watching the LED to say which mode is which"),
        },
        CommandSpec {
            name: "mcp",
            about: "Run as an MCP server over stdio.",
            params: vec![Param::opt("config", Kind::Str, "Host config JSON path")],
            cli_as: None,
            cli: Reach::Yes,
            mcp: Reach::No("starts the MCP server; exposing it over MCP is circular"),
        },
        CommandSpec {
            name: "get_config",
            about: "Return the daemon's current host-layer configuration.",
            params: vec![],
            cli_as: None,
            cli: Reach::No("reads a running daemon's state; a one-shot CLI process has none"),
            mcp: Reach::Yes,
        },
        CommandSpec {
            name: "set_config",
            about: "Replace the daemon's host-layer configuration.",
            params: vec![Param::req("config", Kind::Str, "Full host config JSON")],
            cli_as: None,
            cli: Reach::No("writes a running daemon's state; a one-shot CLI process has none"),
            mcp: Reach::Yes,
        },
        CommandSpec {
            name: "set_layer",
            about: "Switch the daemon's active host layer.",
            params: vec![Param::req("index", Kind::Int, "Layer index")],
            cli_as: None,
            cli: Reach::No("acts on a running daemon's engine"),
            mcp: Reach::Yes,
        },
        CommandSpec {
            name: "get_virtual_layer",
            about: "Report the virtual layer: its variants, which is live and why, and which \
                    device layer the daemon can actually hear.",
            params: vec![],
            cli_as: None,
            cli: Reach::No("acts on a running daemon's engine"),
            mcp: Reach::Yes,
        },
        CommandSpec {
            name: "set_virtual_variant",
            about: "Pin the virtual layer to a named variant, or clear the pin.",
            params: vec![Param::opt(
                "variant",
                Kind::Str,
                "Variant name; omit to clear the pin",
            )],
            cli_as: None,
            cli: Reach::No("acts on a running daemon's engine"),
            mcp: Reach::Yes,
        },
        CommandSpec {
            name: "get_knob_mode",
            about: "Report whether the firmware sends the bound slot chords, and which device \
                    layer carries them.",
            params: vec![Param::opt(
                "buttons",
                Kind::Int,
                "Override the button count",
            )],
            cli_as: None,
            cli: Reach::No("the CLI reports the same thing through get_status"),
            mcp: Reach::Yes,
        },
        CommandSpec {
            name: "list_commands",
            about: "Describe every command this build exposes, with its parameters and which \
                    surfaces carry it. Read from the same table that generates the CLI and the \
                    MCP tool list, so a caller cannot be told about a command that is not here.",
            params: vec![],
            cli_as: None,
            cli: Reach::No("the CLI's own --help renders this table already"),
            mcp: Reach::Yes,
        },
        CommandSpec {
            name: "ping",
            about: "Application-level liveness probe confirming the daemon is responsive.",
            params: vec![],
            cli_as: None,
            cli: Reach::No("a daemon liveness probe; a CLI process that runs has already answered"),
            mcp: Reach::Yes,
        },
    ];
    proof {
        let rows = command_rows();
        assert(v@[0].params@.map_values(|p: Param| param_row(p)) =~= rows[0].5);
        assert(v@[1].params@.map_values(|p: Param| param_row(p)) =~= rows[1].5);
        assert(v@[2].params@.map_values(|p: Param| param_row(p)) =~= rows[2].5);
        assert(v@[3].params@.map_values(|p: Param| param_row(p)) =~= rows[3].5);
        assert(v@[4].params@.map_values(|p: Param| param_row(p)) =~= rows[4].5);
        assert(v@[5].params@.map_values(|p: Param| param_row(p)) =~= rows[5].5);
        assert(v@[6].params@.map_values(|p: Param| param_row(p)) =~= rows[6].5);
        assert(v@[7].params@.map_values(|p: Param| param_row(p)) =~= rows[7].5);
        assert(v@[8].params@.map_values(|p: Param| param_row(p)) =~= rows[8].5);
        assert(v@[9].params@.map_values(|p: Param| param_row(p)) =~= rows[9].5);
        assert(v@[10].params@.map_values(|p: Param| param_row(p)) =~= rows[10].5);
        assert(v@[11].params@.map_values(|p: Param| param_row(p)) =~= rows[11].5);
        assert(v@[12].params@.map_values(|p: Param| param_row(p)) =~= rows[12].5);
        assert(v@[13].params@.map_values(|p: Param| param_row(p)) =~= rows[13].5);
        assert(v@[14].params@.map_values(|p: Param| param_row(p)) =~= rows[14].5);
        assert(v@[15].params@.map_values(|p: Param| param_row(p)) =~= rows[15].5);
        assert(v@[16].params@.map_values(|p: Param| param_row(p)) =~= rows[16].5);
        assert(v@[17].params@.map_values(|p: Param| param_row(p)) =~= rows[17].5);
        assert(v@[18].params@.map_values(|p: Param| param_row(p)) =~= rows[18].5);
        assert(v@[19].params@.map_values(|p: Param| param_row(p)) =~= rows[19].5);
        assert(v@[20].params@.map_values(|p: Param| param_row(p)) =~= rows[20].5);
        assert(v@[21].params@.map_values(|p: Param| param_row(p)) =~= rows[21].5);
        assert(v@[22].params@.map_values(|p: Param| param_row(p)) =~= rows[22].5);
        assert(v@[23].params@.map_values(|p: Param| param_row(p)) =~= rows[23].5);
        assert(rows_of(v@) =~= rows);
    }
    v
}

/// One row of the table, as the spec sees it.
pub type CommandRow = (Seq<char>, Option<Seq<char>>, Option<Seq<char>>, Option<Seq<char>>, Seq<char>, Seq<ParamRow>);

/// One parameter, as the spec sees it.
pub type ParamRow = (Seq<char>, Kind, bool, bool, Option<Seq<char>>, On);

/// Whether a row is on the MCP surface (`mcp`) or on the command line.
pub open spec fn on_surface_pred(mcp: bool) -> spec_fn(CommandRow) -> bool {
    |row: CommandRow| if mcp { row.3 is None } else { row.2 is None }
}

/// The commands one surface carries, in table order.
pub open spec fn on_surface_rows(mcp: bool) -> Seq<CommandRow> {
    command_rows().filter(on_surface_pred(mcp))
}

/// The commands one surface exposes.
pub fn for_surface(mcp: bool) -> (r: Vec<CommandSpec>)
    ensures
        rows_of(r@) == on_surface_rows(mcp),
{
    let mut all = commands();
    let ghost rows = command_rows();
    let n: usize = all.len();
    let mut out: Vec<CommandSpec> = Vec::new();
    let mut i: usize = 0;
    assert(rows.take(0).filter(on_surface_pred(mcp)) =~= Seq::<CommandRow>::empty()) by {
        reveal(Seq::filter);
    }
    while i < n
        invariant
            n == rows.len(),
            i <= n,
            rows == command_rows(),
            rows_of(all@) == rows.skip(i as int),
            rows_of(out@) == rows.take(i as int).filter(on_surface_pred(mcp)),
        decreases n - i,
    {
        let ghost before_all = all@;
        assert(rows_of(before_all).len() == before_all.len());
        let c = all.remove(0);
        assert(c == before_all[0]);
        assert(command_row(c) == rows[i as int]) by {
            assert(rows_of(before_all)[0] == command_row(before_all[0]));
            assert(rows.skip(i as int)[0] == rows[i as int]);
        }
        assert(rows_of(all@) =~= rows.skip(i + 1)) by {
            assert(all@ =~= before_all.subrange(1, before_all.len() as int));
            assert forall|k: int| 0 <= k < all@.len() implies #[trigger] rows_of(all@)[k]
                == rows.skip(i + 1)[k] by {
                assert(rows_of(before_all)[k + 1] == command_row(before_all[k + 1]));
                assert(rows.skip(i as int)[k + 1] == rows.skip(i + 1)[k]);
            }
        }
        assert(rows.take(i + 1).drop_last() =~= rows.take(i as int));
        assert(rows.take(i + 1).last() == rows[i as int]);
        assert(rows.take(i + 1).filter(on_surface_pred(mcp)) == if on_surface_pred(mcp)(rows[i as int]) {
            rows.take(i as int).filter(on_surface_pred(mcp)).push(rows[i as int])
        } else {
            rows.take(i as int).filter(on_surface_pred(mcp))
        }) by {
            reveal(Seq::filter);
        }
        let keep = if mcp { c.mcp.is_yes() } else { c.cli.is_yes() };
        assert(keep == on_surface_pred(mcp)(rows[i as int]));
        if keep {
            let ghost before = out@;
            out.push(c);
            proof {
                crate::text::lemma_map_push(before, c, |c: CommandSpec| command_row(c));
                assert(rows_of(out@) == before.push(c).map_values(|c: CommandSpec| command_row(c)));
            }
        }
        i = i + 1;
    }
    assert(rows.take(n as int) =~= rows);
    out
}

/// A command that is not on a surface says why: every stated reason is a
/// real sentence, never an empty string.
pub proof fn lemma_absences_are_explained(i: int)
    requires
        0 <= i < command_rows().len(),
    ensures
        command_rows()[i].2 matches Some(why) ==> why.len() > 0,
        command_rows()[i].3 matches Some(why) ==> why.len() > 0,
{
        reveal_strlit("checks a local file; over MCP, upload_keymap reports the same errors");
        reveal_strlit("a one-off migration of files on this machine, not a device operation");
        reveal_strlit("streams for seconds and means nothing unless a human turns the knob");
        reveal_strlit("needs a human performing gestures inside the capture window");
        reveal_strlit("needs a human watching the LED to say which mode is which");
        reveal_strlit("starts the MCP server; exposing it over MCP is circular");
        reveal_strlit("reads a running daemon's state; a one-shot CLI process has none");
        reveal_strlit("writes a running daemon's state; a one-shot CLI process has none");
        reveal_strlit("acts on a running daemon's engine");
        reveal_strlit("acts on a running daemon's engine");
        reveal_strlit("acts on a running daemon's engine");
        reveal_strlit("the CLI reports the same thing through get_status");
        reveal_strlit("the CLI's own --help renders this table already");
        reveal_strlit("a daemon liveness probe; a CLI process that runs has already answered");
}


/// Where a name stands in the table; -1 for a name that is not there.
spec fn table_index(n: Seq<char>) -> int {
    if n == "get_status"@ {
        0
    } else if n == "validate"@ {
        1
    } else if n == "upload_keymap"@ {
        2
    } else if n == "set_led"@ {
        3
    } else if n == "get_led"@ {
        4
    } else if n == "show_keys"@ {
        5
    } else if n == "bind_slots"@ {
        6
    } else if n == "bind_sequence"@ {
        7
    } else if n == "read_slots"@ {
        8
    } else if n == "list_apps"@ {
        9
    } else if n == "send_raw"@ {
        10
    } else if n == "import_presets"@ {
        11
    } else if n == "listen"@ {
        12
    } else if n == "probe_gestures"@ {
        13
    } else if n == "led_probe"@ {
        14
    } else if n == "mcp"@ {
        15
    } else if n == "get_config"@ {
        16
    } else if n == "set_config"@ {
        17
    } else if n == "set_layer"@ {
        18
    } else if n == "get_virtual_layer"@ {
        19
    } else if n == "set_virtual_variant"@ {
        20
    } else if n == "get_knob_mode"@ {
        21
    } else if n == "list_commands"@ {
        22
    } else if n == "ping"@ {
        23
    } else {
        -1
    }
}

/// No two rows of the table share a canonical name, so no two MCP tools
/// share one; and every row says what its command does.
pub proof fn lemma_commands_are_distinct_and_described()
    ensures
        forall|i: int, j: int|
            0 <= i < j < command_rows().len() ==> #[trigger] command_rows()[i].0 != #[trigger] command_rows()[j].0,
        forall|i: int| 0 <= i < command_rows().len() ==> (#[trigger] command_rows()[i]).4.len() > 0,
{
    let rows = command_rows();
    reveal_strlit("get_status");
    reveal_strlit("validate");
    reveal_strlit("upload_keymap");
    reveal_strlit("set_led");
    reveal_strlit("get_led");
    reveal_strlit("show_keys");
    reveal_strlit("bind_slots");
    reveal_strlit("bind_sequence");
    reveal_strlit("read_slots");
    reveal_strlit("list_apps");
    reveal_strlit("send_raw");
    reveal_strlit("import_presets");
    reveal_strlit("listen");
    reveal_strlit("probe_gestures");
    reveal_strlit("led_probe");
    reveal_strlit("mcp");
    reveal_strlit("get_config");
    reveal_strlit("set_config");
    reveal_strlit("set_layer");
    reveal_strlit("get_virtual_layer");
    reveal_strlit("set_virtual_variant");
    reveal_strlit("get_knob_mode");
    reveal_strlit("list_commands");
    reveal_strlit("ping");
    reveal_strlit("Probe and display status of connected Anticater / CH57x hardware without sudo.");
    reveal_strlit("Validate a keymap YAML layout offline, without touching the device.");
    reveal_strlit("Flash a keymap to the device. A gesture may bind one action (\"volumeup\"), a \
                    sequence ([\"cmd-c\", \"cmd-v\"]) or a timed one ({steps: [...], delay_ms: 120}). \
                    Knob gestures are ccw, press, cw, hold_twist_l, hold_twist_r.");
    reveal_strlit("Set a layer's backlight mode. Modes: off, red, green, ripple, rainbow, rgb.");
    reveal_strlit("Read back a layer's current LED mode. Read-only.");
    reveal_strlit("List every action name the device understands: keys, modifiers, media usages \
                    and mouse actions. Call this rather than guessing a name -- an unknown name is \
                    refused, and the vocabulary is not the same as a macOS key name.");
    reveal_strlit("Flash the one-time host-translate slot bindings (ctrl-alt-F16..F20, one per \
                    gesture including hold+twist) so the daemon can translate knob gestures.");
    reveal_strlit("Bind ONE knob gesture to a sequence of actions, with an optional wait between \
                    steps. This is what lets a gesture type a string or drive an application. Key \
                    ids: 2=twist CCW, 3=press, 4=twist CW, 5=hold+twist left, 6=hold+twist right. \
                    A slot holds 19 entries and a chord costs one entry per modifier plus one for \
                    the key. Keyboard actions chain; the firmware stores only ONE media action per \
                    slot, so a media list is refused rather than silently truncated.");
    reveal_strlit("Read the device's slot table. Pass full to get the WHOLE table in three burst \
                    queries -- every key on every layer, including keys past whatever the declared \
                    layout mentions.");
    reveal_strlit("List installed macOS applications and their bundle IDs for launch/quit actions.");
    reveal_strlit("Send a raw HID report payload to the device. For protocol work.");
    reveal_strlit("Migrate the built-in presets to host-layer JSON for the daemon.");
    reveal_strlit("Dump raw input reports for a few seconds to see what the knob sends.");
    reveal_strlit("Find which firmware slot a gesture drives by writing a distinct marker to each \
                    candidate and watching what comes out.");
    reveal_strlit("Walk every LED mode on one layer so an unmapped one can be identified by eye.");
    reveal_strlit("Run as an MCP server over stdio.");
    reveal_strlit("Return the daemon's current host-layer configuration.");
    reveal_strlit("Replace the daemon's host-layer configuration.");
    reveal_strlit("Switch the daemon's active host layer.");
    reveal_strlit("Report the virtual layer: its variants, which is live and why, and which \
                    device layer the daemon can actually hear.");
    reveal_strlit("Pin the virtual layer to a named variant, or clear the pin.");
    reveal_strlit("Report whether the firmware sends the bound slot chords, and which device \
                    layer carries them.");
    reveal_strlit("Describe every command this build exposes, with its parameters and which \
                    surfaces carry it. Read from the same table that generates the CLI and the \
                    MCP tool list, so a caller cannot be told about a command that is not here.");
    reveal_strlit("Application-level liveness probe confirming the daemon is responsive.");

    assert("get_status"@.len() == 10);
    assert("validate"@.len() == 8);
    assert("upload_keymap"@.len() == 13);
    assert("set_led"@.len() == 7);
    assert("get_led"@.len() == 7);
    assert("show_keys"@.len() == 9);
    assert("bind_slots"@.len() == 10);
    assert("bind_sequence"@.len() == 13);
    assert("read_slots"@.len() == 10);
    assert("list_apps"@.len() == 9);
    assert("send_raw"@.len() == 8);
    assert("import_presets"@.len() == 14);
    assert("listen"@.len() == 6);
    assert("probe_gestures"@.len() == 14);
    assert("led_probe"@.len() == 9);
    assert("mcp"@.len() == 3);
    assert("get_config"@.len() == 10);
    assert("set_config"@.len() == 10);
    assert("set_layer"@.len() == 9);
    assert("get_virtual_layer"@.len() == 17);
    assert("set_virtual_variant"@.len() == 19);
    assert("get_knob_mode"@.len() == 13);
    assert("list_commands"@.len() == 13);
    assert("ping"@.len() == 4);
    assert("get_status"@[0] == 'g');
    assert("get_status"@[4] == 's');
    assert("validate"@[0] == 'v');
    assert("upload_keymap"@[0] == 'u');
    assert("set_led"@[0] == 's');
    assert("get_led"@[0] == 'g');
    assert("show_keys"@[0] == 's');
    assert("show_keys"@[1] == 'h');
    assert("bind_slots"@[0] == 'b');
    assert("bind_sequence"@[0] == 'b');
    assert("read_slots"@[0] == 'r');
    assert("list_apps"@[0] == 'l');
    assert("list_apps"@[1] == 'i');
    assert("send_raw"@[0] == 's');
    assert("import_presets"@[0] == 'i');
    assert("probe_gestures"@[0] == 'p');
    assert("led_probe"@[0] == 'l');
    assert("led_probe"@[1] == 'e');
    assert("get_config"@[0] == 'g');
    assert("get_config"@[4] == 'c');
    assert("set_config"@[0] == 's');
    assert("set_layer"@[0] == 's');
    assert("set_layer"@[1] == 'e');
    assert("get_knob_mode"@[0] == 'g');
    assert("list_commands"@[0] == 'l');
    assert(table_index(rows[0].0) == 0 && rows[0].4.len() > 0);
    assert(table_index(rows[1].0) == 1 && rows[1].4.len() > 0);
    assert(table_index(rows[2].0) == 2 && rows[2].4.len() > 0);
    assert(table_index(rows[3].0) == 3 && rows[3].4.len() > 0);
    assert(table_index(rows[4].0) == 4 && rows[4].4.len() > 0);
    assert(table_index(rows[5].0) == 5 && rows[5].4.len() > 0);
    assert(table_index(rows[6].0) == 6 && rows[6].4.len() > 0);
    assert(table_index(rows[7].0) == 7 && rows[7].4.len() > 0);
    assert(table_index(rows[8].0) == 8 && rows[8].4.len() > 0);
    assert(table_index(rows[9].0) == 9 && rows[9].4.len() > 0);
    assert(table_index(rows[10].0) == 10 && rows[10].4.len() > 0);
    assert(table_index(rows[11].0) == 11 && rows[11].4.len() > 0);
    assert(table_index(rows[12].0) == 12 && rows[12].4.len() > 0);
    assert(table_index(rows[13].0) == 13 && rows[13].4.len() > 0);
    assert(table_index(rows[14].0) == 14 && rows[14].4.len() > 0);
    assert(table_index(rows[15].0) == 15 && rows[15].4.len() > 0);
    assert(table_index(rows[16].0) == 16 && rows[16].4.len() > 0);
    assert(table_index(rows[17].0) == 17 && rows[17].4.len() > 0);
    assert(table_index(rows[18].0) == 18 && rows[18].4.len() > 0);
    assert(table_index(rows[19].0) == 19 && rows[19].4.len() > 0);
    assert(table_index(rows[20].0) == 20 && rows[20].4.len() > 0);
    assert(table_index(rows[21].0) == 21 && rows[21].4.len() > 0);
    assert(table_index(rows[22].0) == 22 && rows[22].4.len() > 0);
    assert(table_index(rows[23].0) == 23 && rows[23].4.len() > 0);

    assert forall|k: int| 0 <= k < rows.len() implies table_index(#[trigger] rows[k].0) == k && rows[k].4.len() > 0 by {
        assert(k == 0 || k == 1 || k == 2 || k == 3 || k == 4 || k == 5 || k == 6 || k == 7 || k == 8 || k == 9 || k == 10 || k == 11 || k == 12 || k == 13 || k == 14 || k == 15 || k == 16 || k == 17 || k == 18 || k == 19 || k == 20 || k == 21 || k == 22 || k == 23);
    }
}


/// How a JSON writer escapes one character inside a string: quote and
/// backslash, the short forms for backspace, form feed, newline, carriage
/// return and tab, and `\u00XX` for the other control characters.
pub open spec fn json_char(c: char) -> Seq<char> {
    let n = c as u32;
    if c == '"' {
        seq!['\\', '"']
    } else if c == '\\' {
        seq!['\\', '\\']
    } else if c == '\n' {
        seq!['\\', 'n']
    } else if c == '\r' {
        seq!['\\', 'r']
    } else if c == '\t' {
        seq!['\\', 't']
    } else if n == 8 {
        seq!['\\', 'b']
    } else if n == 12 {
        seq!['\\', 'f']
    } else if n < 0x20 {
        seq!['\\', 'u', '0', '0', hex_digit((n / 16) as nat), hex_digit((n % 16) as nat)]
    } else {
        seq![c]
    }
}

pub open spec fn json_body(s: Seq<char>) -> Seq<char>
    decreases s.len(),
{
    if s.len() == 0 {
        Seq::empty()
    } else {
        json_body(s.drop_last()) + json_char(s.last())
    }
}

/// A JSON string literal holding `s`.
pub open spec fn json_string(s: Seq<char>) -> Seq<char> {
    seq!['"'] + json_body(s) + seq!['"']
}

pub open spec fn kind_type_text(k: Kind) -> Seq<char> {
    match k {
        Kind::Flag => "boolean"@,
        Kind::Str => "string"@,
        Kind::Int => "integer"@,
        Kind::IntList => "array"@,
        Kind::StrList => "array"@,
    }
}

/// The schema of one parameter: its type (and its items' for a list), its
/// description, and its default when it has one.
pub open spec fn param_schema_text(p: Param) -> Seq<char> {
    "{\"type\":"@ + json_string(kind_type_text(p.kind))
        + match p.kind {
            Kind::IntList => ",\"items\":{\"type\":\"integer\"}"@,
            Kind::StrList => ",\"items\":{\"type\":\"string\"}"@,
            _ => Seq::empty(),
        }
        + ",\"description\":"@ + json_string(p.about@)
        + match p.default {
            Some(d) => ",\"default\":"@ + json_string(d@),
            None => Seq::empty(),
        }
        + "}"@
}

/// One entry of a schema's `properties`.
pub open spec fn property_text(p: Param) -> Seq<char> {
    json_string(p.name@) + ":"@ + param_schema_text(p)
}

/// The names of the required parameters, as JSON strings, in order.
pub open spec fn required_names(params: Seq<Param>) -> Seq<Seq<char>>
    decreases params.len(),
{
    if params.len() == 0 {
        Seq::empty()
    } else {
        required_names(params.drop_last()) + if params.last().required {
            seq![json_string(params.last().name@)]
        } else {
            Seq::empty()
        }
    }
}

/// A tool's input schema, as JSON text: an object whose properties are the
/// parameters in order, listing the required ones when there are any.
pub open spec fn input_schema_text(params: Seq<Param>) -> Seq<char> {
    let req = required_names(params);
    "{\"type\":\"object\",\"properties\":{"@ + join(params.map_values(|p: Param| property_text(p)), ","@) + "}"@
        + if req.len() > 0 {
            ",\"required\":["@ + join(req, ","@) + "]"@
        } else {
            Seq::empty()
        }
        + "}"@
}

fn push_json_string(s: &mut String, t: &str)
    ensures
        final(s)@ == old(s)@ + json_string(t@),
{
    let cs = crate::text::chars_of(t);
    push_char(s, '"');
    let ghost start = s@;
    let mut i: usize = 0;
    while i < cs.len()
        invariant
            i <= cs@.len(),
            cs@ == t@,
            s@ == start + json_body(cs@.take(i as int)),
        decreases cs.len() - i,
    {
        let c = cs[i];
        let n = c as u32;
        assert(cs@.take(i + 1).drop_last() =~= cs@.take(i as int));
        assert(cs@.take(i + 1).last() == c);
        if c == '"' {
            push_char(s, '\\');
            push_char(s, '"');
        } else if c == '\\' {
            push_char(s, '\\');
            push_char(s, '\\');
        } else if c == '\n' {
            push_char(s, '\\');
            push_char(s, 'n');
        } else if c == '\r' {
            push_char(s, '\\');
            push_char(s, 'r');
        } else if c == '\t' {
            push_char(s, '\\');
            push_char(s, 't');
        } else if n == 8 {
            push_char(s, '\\');
            push_char(s, 'b');
        } else if n == 12 {
            push_char(s, '\\');
            push_char(s, 'f');
        } else if n < 0x20 {
            push_str(s, "\\u00");
            proof {
                reveal_strlit("\\u00");
            }
            push_char(s, digit_char((n / 16) as u8));
            push_char(s, digit_char((n % 16) as u8));
        } else {
            push_char(s, c);
        }
        assert(s@ =~= start + json_body(cs@.take(i + 1)));
        i = i + 1;
    }
    assert(cs@.take(cs@.len() as int) =~= cs@);
    push_char(s, '"');
    assert(s@ =~= old(s)@ + json_string(t@));
}

fn param_schema_json(p: &Param) -> (r: String)
    ensures
        r@ == property_text(*p),
{
    let mut s = String::new();
    push_json_string(&mut s, p.name);
    push_str(&mut s, ":{\"type\":");
    push_json_string(&mut s, p.kind.schema_type());
    match p.kind {
        Kind::IntList => push_str(&mut s, ",\"items\":{\"type\":\"integer\"}"),
        Kind::StrList => push_str(&mut s, ",\"items\":{\"type\":\"string\"}"),
        _ => {},
    }
    push_str(&mut s, ",\"description\":");
    push_json_string(&mut s, p.about);
    match p.default {
        Some(d) => {
            push_str(&mut s, ",\"default\":");
            push_json_string(&mut s, d);
        },
        None => {},
    }
    push_str(&mut s, "}");
    proof {
        reveal_strlit(":{\"type\":");
        reveal_strlit(":");
        reveal_strlit("{\"type\":");
    }
    assert(s@ =~= property_text(*p));
    s
}

/// The input schema a tool with these parameters declares, as JSON text.
pub fn input_schema_json(params: &Vec<Param>) -> (r: String)
    ensures
        r@ == input_schema_text(params@),
{
    let mut props: Vec<String> = Vec::new();
    let mut req: Vec<String> = Vec::new();
    let mut i: usize = 0;
    while i < params.len()
        invariant
            i <= params@.len(),
            props@.map_values(|p: String| p@) == params@.take(i as int).map_values(|p: Param| property_text(p)),
            req@.map_values(|p: String| p@) == required_names(params@.take(i as int)),
        decreases params.len() - i,
    {
        let p = params[i];
        let ghost before_props = props@;
        let ghost before_req = req@;
        assert(params@.take(i + 1).drop_last() =~= params@.take(i as int));
        assert(params@.take(i + 1).last() == p);
        let t = param_schema_json(&p);
        props.push(t);
        proof {
            assert(params@.take(i + 1) =~= params@.take(i as int).push(p));
            crate::text::lemma_map_push(before_props, t, |p: String| p@);
            crate::text::lemma_map_push(params@.take(i as int), p, |p: Param| property_text(p));
        }
        if p.required {
            let mut n = String::new();
            push_json_string(&mut n, p.name);
            assert(n@ =~= json_string(p.name@));
            req.push(n);
            assert(req@.map_values(|p: String| p@) =~= before_req.map_values(|p: String| p@).push(json_string(p.name@)));
        } else {
            assert(required_names(params@.take(i + 1)) =~= required_names(params@.take(i as int)));
        }
        i = i + 1;
    }
    assert(params@.take(params@.len() as int) =~= params@);
    let mut s = String::new();
    push_str(&mut s, "{\"type\":\"object\",\"properties\":{");
    let body = join_strings(&props, ",");
    push_str(&mut s, body.as_str());
    push_str(&mut s, "}");
    if req.len() > 0 {
        push_str(&mut s, ",\"required\":[");
        let names = join_strings(&req, ",");
        push_str(&mut s, names.as_str());
        push_str(&mut s, "]");
    }
    push_str(&mut s, "}");
    s
}

} // verus!
