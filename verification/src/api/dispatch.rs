//! The command dispatcher's decisions. A request from the socket or the MCP
//! server is checked, refused with its reason, or turned into the one step
//! the caller carries out against the device, the config file or the tap
//! engine.

use vstd::prelude::*;
use vstd::utf8::encode_utf8;
use crate::api::device_cmds::{
    BindSlotsError, bind_layers_of, bind_sequence_packet, bind_slots_key_ids, led_request_spec,
    led_request_text, resolve_bind_layers, sequence_bind_record, slot_key_ids,
};
use crate::commands::{BindSeqError, bind_seq_message, hex_payload, parse_hex_bytes};
use crate::fd::views;
use crate::firmware::{SLOT_DEFAULT_GROUP, SLOT_MAX_KEY_ID};
use crate::text::{decimal, join, join_strings, push_decimal, push_str, same_text};

verus! {

/// The longest LED mode string a request may carry, in bytes.
pub const LED_MODE_MAX_LEN: usize = 64;
/// The highest LED layer a request may name.
pub const LED_LAYER_MAX: u8 = 15;
/// The largest keymap a request may carry, in bytes.
pub const KEYMAP_MAX_BYTES: usize = 65536;
/// The most bytes a raw send may carry.
pub const RAW_MAX_BYTES: usize = 64;

/// A request to the daemon or the MCP server.
#[derive(Debug, Clone, PartialEq, Eq)]
pub enum Command {
    GetStatus,
    Ping,
    /// Describe every command this build has.
    ListCommands,
    GetConfig,
    /// Replace the host config; its JSON text.
    SetConfig { config: String },
    SetLayer { layer: usize },
    SetLed { layer: u8, mode: String, color: Option<String> },
    GetLed { layer: u8 },
    /// Flash the slot bindings; `layers` wins over `layer`.
    BindSlots { layers: Option<Vec<u8>>, layer: Option<u8>, buttons: Option<usize> },
    /// Report the active layer's variants.
    GetVirtualLayer,
    /// Pin a variant by name, or clear the pin.
    SetVirtualVariant { variant: Option<String> },
    /// Read the slot table and classify the knob's mode.
    GetKnobMode { buttons: Option<usize> },
    UploadKeymap { yaml: String, layer: Option<u8> },
    ListApps,
    ReadSlots { group: Option<u8>, counters: Option<Vec<u8>>, full: bool },
    SendRaw { bytes: Vec<String> },
    BindSequence { key: u8, layer: u8, actions: Vec<String>, delay_ms: u16 },
    ShowKeys,
}

/// What the dispatcher knows of a running tap engine.
#[derive(Debug, Clone, PartialEq, Eq)]
pub struct TapState {
    /// How many host layers the engine's config has.
    pub layers: usize,
    /// The active host layer.
    pub active_layer: usize,
    /// The variant names of the active layer.
    pub variants: Vec<String>,
}

/// The step a request comes to.
#[derive(Debug, Clone, PartialEq, Eq)]
pub enum CommandStep {
    /// Report the devices, power, layers and tap health.
    Status,
    /// Answer with an empty object.
    Pong,
    DescribeCommands,
    ReadConfig,
    /// Write this host config and apply it.
    WriteConfig { config: String },
    SwitchLayer { layer: usize },
    /// Write this LED spec to the layer, then read the mode back.
    SetLed { layer: u8, spec: String },
    ReadLed { layer: u8 },
    /// Flash the slot bindings on these layers. The key ids are known when
    /// the request gave the button count; otherwise the installed layout's
    /// count is read first.
    BindSlots { layers: Vec<u8>, buttons: Option<usize>, key_ids: Option<Vec<u8>> },
    ReadVirtualLayer,
    PinVariant { variant: Option<String> },
    ReadKnobMode { buttons: Option<usize> },
    /// Parse this keymap, validate it and flash the layers `keymap_layers`
    /// selects.
    UploadKeymap { yaml: String, layer: Option<u8> },
    ListApps,
    /// Read every slot in the burst queries.
    ReadFullTable,
    /// Read these slot counters of one group.
    ReadSlots { group: u8, counters: Vec<u8> },
    SendRaw { payload: Vec<u8> },
    /// Wipe the slot, write this record, and confirm it in the table read back.
    BindSequence { key: u8, layer: u8, packet: Vec<u8> },
    ShowKeys,
}

/// Which engine command found no engine running.
#[derive(Debug, Clone, Copy, PartialEq, Eq, Structural)]
pub enum EngineUse {
    SwitchLayer,
    ReadVirtualLayer,
    PinVariant,
}

/// Why a request was refused.
#[derive(Debug, Clone, PartialEq, Eq)]
pub enum CommandError {
    NoEngine(EngineUse),
    LayerOutOfRange { layer: usize, max: usize },
    NoSuchVariant { layer: usize, name: String, known: Vec<String> },
    LedModeTooLong,
    LedLayerTooHigh { layer: u8 },
    KeymapTooLarge,
    KeymapLayerOutOfRange { layer: u8 },
    RawTooLong { count: usize },
    /// A raw byte that is not hex; the message names it.
    BadHexByte(String),
    BindSlots(BindSlotsError),
    BindSequence(BindSeqError),
}

/// A string as `{:?}` writes it: quoted, with std's escapes.
pub uninterp spec fn debug_quoted(s: Seq<char>) -> Seq<char>;

/// `format!("{:?}", s)`: the string quoted with std's escapes, which follow
/// Unicode's printable and grapheme-extend tables and are not restated here.
#[verifier::external_body]
fn debug_string(s: &str) -> (r: String)
    ensures
        r@ == debug_quoted(s@),
{
    format!("{:?}", s)
}

/// The variant names listed in a refusal, or `none`.
pub open spec fn known_text(known: Seq<Seq<char>>) -> Seq<char> {
    if known.len() == 0 {
        "none"@
    } else {
        join(known, ", "@)
    }
}

pub open spec fn engine_use_text(u: EngineUse) -> Seq<char> {
    match u {
        EngineUse::SwitchLayer => "cannot switch layer"@,
        EngineUse::ReadVirtualLayer => "cannot read the virtual layer"@,
        EngineUse::PinVariant => "cannot pin a variant"@,
    }
}

/// What a refusal says.
pub open spec fn command_error_text(e: CommandError) -> Seq<char> {
    match e {
        CommandError::NoEngine(u) => "Daemon tap engine not running; "@ + engine_use_text(u),
        CommandError::LayerOutOfRange { layer, max } => "Layer index "@ + decimal(layer as nat) + " out of range (max is "@
            + decimal(max as nat) + ")"@,
        CommandError::NoSuchVariant { layer, name, known } => variant_refusal_text(layer, debug_quoted(name@), views(known@)),
        CommandError::LedModeTooLong => "LED mode string exceeds 64 characters"@,
        CommandError::LedLayerTooHigh { layer } => "Layer index "@ + decimal(layer as nat) + " exceeds maximum of 15"@,
        CommandError::KeymapTooLarge => "Keymap YAML exceeds 64KB size limit"@,
        CommandError::KeymapLayerOutOfRange { layer } => "Layer "@ + decimal(layer as nat) + " out of range"@,
        CommandError::RawTooLong { count } => "Raw payload exceeds 64-byte limit (received "@ + decimal(count as nat)
            + " elements)"@,
        CommandError::BadHexByte(m) => m@,
        CommandError::BindSlots(BindSlotsError::TooManyButtons { buttons }) => "button count "@ + decimal(buttons as nat)
            + " is past the addressable slots (max "@ + decimal(SLOT_MAX_KEY_ID as nat) + ")"@,
        CommandError::BindSequence(b) => bind_seq_message(b@),
    }
}

/// What refusing a pin says, given the name already quoted as `{:?}`
/// writes it.
pub open spec fn variant_refusal_text(layer: usize, quoted: Seq<char>, known: Seq<Seq<char>>) -> Seq<char> {
    "layer "@ + decimal(layer as nat) + " has no variant named "@ + quoted + " (has: "@ + known_text(known) + ")"@
}

/// What refusing a pin says, given the name already quoted.
pub fn variant_refusal_message(layer: usize, quoted: &str, known: &Vec<String>) -> (r: String)
    ensures
        r@ == variant_refusal_text(layer, quoted@, views(known@)),
{
    let mut s = String::new();
    push_str(&mut s, "layer ");
    push_decimal(&mut s, layer as u128);
    push_str(&mut s, " has no variant named ");
    push_str(&mut s, quoted);
    push_str(&mut s, " (has: ");
    if known.len() == 0 {
        push_str(&mut s, "none");
    } else {
        let listed = join_strings(known, ", ");
        proof {
            assert(known@.map_values(|p: String| p@) =~= views(known@));
        }
        push_str(&mut s, listed.as_str());
    }
    push_str(&mut s, ")");
    s
}

impl CommandError {
    /// What the refusal says.
    pub fn message(&self) -> (r: String)
        ensures
            r@ == command_error_text(*self),
    {
        let mut s = String::new();
        match self {
            CommandError::NoEngine(u) => {
                push_str(&mut s, "Daemon tap engine not running; ");
                match u {
                    EngineUse::SwitchLayer => push_str(&mut s, "cannot switch layer"),
                    EngineUse::ReadVirtualLayer => push_str(&mut s, "cannot read the virtual layer"),
                    EngineUse::PinVariant => push_str(&mut s, "cannot pin a variant"),
                }
            },
            CommandError::LayerOutOfRange { layer, max } => {
                push_str(&mut s, "Layer index ");
                push_decimal(&mut s, *layer as u128);
                push_str(&mut s, " out of range (max is ");
                push_decimal(&mut s, *max as u128);
                push_str(&mut s, ")");
            },
            CommandError::NoSuchVariant { layer, name, known } => {
                let quoted = debug_string(name.as_str());
                return variant_refusal_message(*layer, quoted.as_str(), known);
            },
            CommandError::LedModeTooLong => push_str(&mut s, "LED mode string exceeds 64 characters"),
            CommandError::LedLayerTooHigh { layer } => {
                push_str(&mut s, "Layer index ");
                push_decimal(&mut s, *layer as u128);
                push_str(&mut s, " exceeds maximum of 15");
            },
            CommandError::KeymapTooLarge => push_str(&mut s, "Keymap YAML exceeds 64KB size limit"),
            CommandError::KeymapLayerOutOfRange { layer } => {
                push_str(&mut s, "Layer ");
                push_decimal(&mut s, *layer as u128);
                push_str(&mut s, " out of range");
            },
            CommandError::RawTooLong { count } => {
                push_str(&mut s, "Raw payload exceeds 64-byte limit (received ");
                push_decimal(&mut s, *count as u128);
                push_str(&mut s, " elements)");
            },
            CommandError::BadHexByte(m) => push_str(&mut s, m.as_str()),
            CommandError::BindSlots(e) => return e.message(),
            CommandError::BindSequence(e) => return e.message(),
        }
        s
    }
}

/// The counters a slot read walks when the request names none.
pub open spec fn default_counters() -> Seq<u8> {
    seq![1u8, 2u8, 3u8]
}

/// The length `str::len` gives a string: the bytes of its UTF-8 encoding.
pub open spec fn byte_len(s: Seq<char>) -> usize {
    encode_utf8(s).len() as usize
}

/// Whether `r` is the outcome the dispatcher owes request `cmd`, with
/// `engine` the running tap engine if there is one.
pub open spec fn planned(cmd: Command, engine: Option<TapState>, r: Result<CommandStep, CommandError>) -> bool {
    match cmd {
        Command::GetStatus => r == Ok::<CommandStep, CommandError>(CommandStep::Status),
        Command::Ping => r == Ok::<CommandStep, CommandError>(CommandStep::Pong),
        Command::ListCommands => r == Ok::<CommandStep, CommandError>(CommandStep::DescribeCommands),
        Command::GetConfig => r == Ok::<CommandStep, CommandError>(CommandStep::ReadConfig),
        Command::SetConfig { config } => r == Ok::<CommandStep, CommandError>(CommandStep::WriteConfig { config }),
        Command::SetLayer { layer } => match engine {
            None => r == Err::<CommandStep, CommandError>(CommandError::NoEngine(EngineUse::SwitchLayer)),
            Some(t) => if layer >= t.layers {
                r == Err::<CommandStep, CommandError>(CommandError::LayerOutOfRange {
                    layer,
                    max: if t.layers == 0 { 0 } else { (t.layers - 1) as usize },
                })
            } else {
                r == Ok::<CommandStep, CommandError>(CommandStep::SwitchLayer { layer })
            },
        },
        Command::GetVirtualLayer => match engine {
            None => r == Err::<CommandStep, CommandError>(CommandError::NoEngine(EngineUse::ReadVirtualLayer)),
            Some(_) => r == Ok::<CommandStep, CommandError>(CommandStep::ReadVirtualLayer),
        },
        Command::SetVirtualVariant { variant } => match engine {
            None => r == Err::<CommandStep, CommandError>(CommandError::NoEngine(EngineUse::PinVariant)),
            Some(t) => match variant {
                Some(n) => if views(t.variants@).contains(n@) {
                    r == Ok::<CommandStep, CommandError>(CommandStep::PinVariant { variant: Some(n) })
                } else {
                    r == Err::<CommandStep, CommandError>(CommandError::NoSuchVariant {
                        layer: t.active_layer,
                        name: n,
                        known: t.variants,
                    })
                },
                None => r == Ok::<CommandStep, CommandError>(CommandStep::PinVariant { variant: None }),
            },
        },
        Command::SetLed { layer, mode, color } => if byte_len(mode@) > LED_MODE_MAX_LEN {
            r == Err::<CommandStep, CommandError>(CommandError::LedModeTooLong)
        } else if layer > LED_LAYER_MAX {
            r == Err::<CommandStep, CommandError>(CommandError::LedLayerTooHigh { layer })
        } else {
            r matches Ok(CommandStep::SetLed { layer: l, spec }) && l == layer
                && spec@ == led_request_text(mode@, match color { Some(c) => Some(c@), None => None })
        },
        Command::GetLed { layer } => r == Ok::<CommandStep, CommandError>(CommandStep::ReadLed { layer }),
        Command::BindSlots { layers, layer, buttons } => match buttons {
            Some(n) if n > SLOT_MAX_KEY_ID => r == Err::<CommandStep, CommandError>(
                CommandError::BindSlots(BindSlotsError::TooManyButtons { buttons: n }),
            ),
            _ => r matches Ok(CommandStep::BindSlots { layers: ls, buttons: b, key_ids })
                && ls@ == bind_layers_of(match layers { Some(v) => Some(v@), None => None }, layer)
                && b == buttons
                && match buttons {
                    Some(n) => key_ids matches Some(ids) && ids@ == slot_key_ids(n as nat),
                    None => key_ids is None,
                },
        },
        Command::GetKnobMode { buttons } => r == Ok::<CommandStep, CommandError>(CommandStep::ReadKnobMode { buttons }),
        Command::UploadKeymap { yaml, layer } => if byte_len(yaml@) > KEYMAP_MAX_BYTES {
            r == Err::<CommandStep, CommandError>(CommandError::KeymapTooLarge)
        } else {
            r == Ok::<CommandStep, CommandError>(CommandStep::UploadKeymap { yaml, layer })
        },
        Command::ListApps => r == Ok::<CommandStep, CommandError>(CommandStep::ListApps),
        Command::ReadSlots { group, counters, full } => if full {
            r == Ok::<CommandStep, CommandError>(CommandStep::ReadFullTable)
        } else {
            r matches Ok(CommandStep::ReadSlots { group: g, counters: c })
                && g == (match group { Some(x) => x, None => SLOT_DEFAULT_GROUP })
                && c@ == (match counters { Some(v) => v@, None => default_counters() })
        },
        Command::SendRaw { bytes } => if bytes@.len() > RAW_MAX_BYTES {
            r == Err::<CommandStep, CommandError>(CommandError::RawTooLong { count: bytes@.len() as usize })
        } else {
            match hex_payload(views(bytes@)) {
                Ok(p) => r matches Ok(CommandStep::SendRaw { payload }) && payload@ == p,
                Err(m) => r matches Err(CommandError::BadHexByte(e)) && e@ == m,
            }
        },
        Command::BindSequence { key, layer, actions, delay_ms } => match sequence_bind_record(
            key,
            layer,
            views(actions@),
            delay_ms,
        ) {
            Ok(p) => r matches Ok(CommandStep::BindSequence { key: k, layer: l, packet }) && k == key && l == layer
                && packet@ == p,
            Err(f) => r matches Err(CommandError::BindSequence(e)) && e@ == f,
        },
        Command::ShowKeys => r == Ok::<CommandStep, CommandError>(CommandStep::ShowKeys),
    }
}

fn names_contain(names: &Vec<String>, name: &str) -> (r: bool)
    ensures
        r == views(names@).contains(name@),
{
    let mut i: usize = 0;
    while i < names.len()
        invariant
            i <= names@.len(),
            forall|k: int| 0 <= k < i ==> views(names@)[k] != name@,
        decreases names.len() - i,
    {
        if same_text(names[i].as_str(), name) {
            assert(views(names@)[i as int] == name@);
            return true;
        }
        i = i + 1;
    }
    proof {
        if views(names@).contains(name@) {
            let k = choose|k: int| 0 <= k < views(names@).len() && views(names@)[k] == name@;
            assert(views(names@)[k] != name@);
        }
    }
    false
}

/// Check a request and decide the step it comes to. `engine` is the
/// running tap engine, if there is one.
pub fn plan_command(cmd: Command, engine: Option<TapState>) -> (r: Result<CommandStep, CommandError>)
    ensures
        planned(cmd, engine, r),
{
    match cmd {
        Command::GetStatus => Ok(CommandStep::Status),
        Command::Ping => Ok(CommandStep::Pong),
        Command::ListCommands => Ok(CommandStep::DescribeCommands),
        Command::GetConfig => Ok(CommandStep::ReadConfig),
        Command::SetConfig { config } => Ok(CommandStep::WriteConfig { config }),
        Command::SetLayer { layer } => match engine {
            None => Err(CommandError::NoEngine(EngineUse::SwitchLayer)),
            Some(t) => if layer >= t.layers {
                let max: usize = if t.layers == 0 { 0 } else { t.layers - 1 };
                Err(CommandError::LayerOutOfRange { layer, max })
            } else {
                Ok(CommandStep::SwitchLayer { layer })
            },
        },
        Command::GetVirtualLayer => match engine {
            None => Err(CommandError::NoEngine(EngineUse::ReadVirtualLayer)),
            Some(_) => Ok(CommandStep::ReadVirtualLayer),
        },
        Command::SetVirtualVariant { variant } => match engine {
            None => Err(CommandError::NoEngine(EngineUse::PinVariant)),
            Some(t) => match variant {
                Some(n) => if names_contain(&t.variants, n.as_str()) {
                    Ok(CommandStep::PinVariant { variant: Some(n) })
                } else {
                    Err(CommandError::NoSuchVariant { layer: t.active_layer, name: n, known: t.variants })
                },
                None => Ok(CommandStep::PinVariant { variant: None }),
            },
        },
        Command::SetLed { layer, mode, color } => {
            if mode.as_str().len() > LED_MODE_MAX_LEN {
                Err(CommandError::LedModeTooLong)
            } else if layer > LED_LAYER_MAX {
                Err(CommandError::LedLayerTooHigh { layer })
            } else {
                let spec = match &color {
                    Some(c) => led_request_spec(mode.as_str(), Some(c.as_str())),
                    None => led_request_spec(mode.as_str(), None),
                };
                Ok(CommandStep::SetLed { layer, spec })
            }
        },
        Command::GetLed { layer } => Ok(CommandStep::ReadLed { layer }),
        Command::BindSlots { layers, layer, buttons } => {
            let key_ids = match buttons {
                Some(n) => match bind_slots_key_ids(n) {
                    Ok(ids) => Some(ids),
                    Err(e) => return Err(CommandError::BindSlots(e)),
                },
                None => None,
            };
            let ls = resolve_bind_layers(layers, layer);
            Ok(CommandStep::BindSlots { layers: ls, buttons, key_ids })
        },
        Command::GetKnobMode { buttons } => Ok(CommandStep::ReadKnobMode { buttons }),
        Command::UploadKeymap { yaml, layer } => {
            if yaml.as_str().len() > KEYMAP_MAX_BYTES {
                Err(CommandError::KeymapTooLarge)
            } else {
                Ok(CommandStep::UploadKeymap { yaml, layer })
            }
        },
        Command::ListApps => Ok(CommandStep::ListApps),
        Command::ReadSlots { group, counters, full } => {
            if full {
                Ok(CommandStep::ReadFullTable)
            } else {
                let g = match group {
                    Some(x) => x,
                    None => SLOT_DEFAULT_GROUP,
                };
                let c = match counters {
                    Some(v) => v,
                    None => {
                        let v = vec![1u8, 2u8, 3u8];
                        assert(v@ =~= default_counters());
                        v
                    },
                };
                Ok(CommandStep::ReadSlots { group: g, counters: c })
            }
        },
        Command::SendRaw { bytes } => {
            if bytes.len() > RAW_MAX_BYTES {
                Err(CommandError::RawTooLong { count: bytes.len() })
            } else {
                match parse_hex_bytes(&bytes) {
                    Ok(payload) => Ok(CommandStep::SendRaw { payload }),
                    Err(m) => Err(CommandError::BadHexByte(m)),
                }
            }
        },
        Command::BindSequence { key, layer, actions, delay_ms } => match bind_sequence_packet(
            key,
            layer,
            &actions,
            delay_ms,
        ) {
            Ok(packet) => Ok(CommandStep::BindSequence { key, layer, packet }),
            Err(e) => Err(CommandError::BindSequence(e)),
        },
        Command::ShowKeys => Ok(CommandStep::ShowKeys),
    }
}

/// The device layers a keymap upload flashes: the one the request names,
/// or all of them.
pub open spec fn keymap_layer_plan(layer_count: nat, layer: Option<u8>) -> Result<Seq<usize>, CommandError> {
    match layer {
        Some(l) => if l >= layer_count {
            Err(CommandError::KeymapLayerOutOfRange { layer: l })
        } else {
            Ok(seq![l as usize])
        },
        None => Ok(Seq::new(layer_count, |i: int| i as usize)),
    }
}

/// Which layers of a parsed keymap with `layer_count` layers an upload
/// flashes; a named layer the keymap lacks is refused.
pub fn keymap_layers(layer_count: usize, layer: Option<u8>) -> (r: Result<Vec<usize>, CommandError>)
    ensures
        match (r, keymap_layer_plan(layer_count as nat, layer)) {
            (Ok(v), Ok(want)) => v@ == want,
            (Err(e), Err(want)) => e == want,
            _ => false,
        },
{
    match layer {
        Some(l) => {
            if l as usize >= layer_count {
                Err(CommandError::KeymapLayerOutOfRange { layer: l })
            } else {
                let v = vec![l as usize];
                assert(v@ =~= seq![l as usize]);
                Ok(v)
            }
        },
        None => {
            let mut v: Vec<usize> = Vec::new();
            let mut i: usize = 0;
            while i < layer_count
                invariant
                    i <= layer_count,
                    v@ =~= Seq::new(i as nat, |k: int| k as usize),
                decreases layer_count - i,
            {
                v.push(i);
                i = i + 1;
            }
            Ok(v)
        },
    }
}

} // verus!
