//! The hardware layout: a grid of buttons, some knobs, and the layers that
//! bind them.
//!
//! Knob slot ids continue the key-id space after the buttons, so the
//! declared grid is what places every knob binding; a layer that lists more
//! buttons than the grid declares is refused before anything is flashed.

use vstd::prelude::*;
use crate::binding::{Binding, BindingError, BindingFault, binding_problem, binding_error_message, copy_string};
use crate::fd::views;
use crate::firmware::GESTURES_PER_KNOB;
use crate::protocol::{Action, KnobEvent, ParseError, ParseFault, parse_action, event_name, parse_error_message};
use crate::text::{push_str, push_decimal, decimal};

verus! {

/// The five gestures of one knob.
#[derive(Debug, Clone, PartialEq, Eq)]
pub struct KnobConfig {
    pub ccw: Option<Binding>,
    pub press: Option<Binding>,
    pub cw: Option<Binding>,
    /// Hold the knob down and twist left.
    pub hold_twist_l: Option<Binding>,
    /// Hold the knob down and twist right.
    pub hold_twist_r: Option<Binding>,
}

/// One layer: button actions row by row, knobs, and an optional LED spec.
#[derive(Debug, Clone, PartialEq, Eq)]
pub struct LayerConfig {
    pub buttons: Vec<Vec<String>>,
    pub knobs: Vec<KnobConfig>,
    pub led: Option<String>,
}

/// A whole device layout.
#[derive(Debug, Clone, PartialEq, Eq)]
pub struct DeviceConfig {
    pub model: String,
    pub orientation: String,
    pub rows: usize,
    pub columns: usize,
    pub knobs: usize,
    pub layers: Vec<LayerConfig>,
}

/// A gesture's binding, if it has one, tagged with the gesture.
pub open spec fn tagged(e: KnobEvent, b: Option<Binding>) -> Seq<(KnobEvent, Binding)> {
    match b {
        Some(b) => seq![(e, b)],
        None => Seq::empty(),
    }
}

/// Every gesture a knob binds, in slot order.
pub open spec fn knob_bindings(k: KnobConfig) -> Seq<(KnobEvent, Binding)> {
    tagged(KnobEvent::RotateCCW, k.ccw) + tagged(KnobEvent::Press, k.press) + tagged(KnobEvent::RotateCW, k.cw)
        + tagged(KnobEvent::HoldTwistL, k.hold_twist_l) + tagged(KnobEvent::HoldTwistR, k.hold_twist_r)
}

fn push_tagged<'a>(out: &mut Vec<(KnobEvent, &'a Binding)>, e: KnobEvent, b: &'a Option<Binding>)
    ensures
        final(out)@.map_values(|p: (KnobEvent, &Binding)| (p.0, *p.1)) == old(out)@.map_values(
            |p: (KnobEvent, &Binding)| (p.0, *p.1),
        ) + tagged(e, *b),
{
    let ghost before = out@;
    match b {
        Some(x) => {
            out.push((e, x));
        },
        None => {},
    }
    assert(out@.map_values(|p: (KnobEvent, &Binding)| (p.0, *p.1)) =~= before.map_values(
        |p: (KnobEvent, &Binding)| (p.0, *p.1),
    ) + tagged(e, *b));
}

impl KnobConfig {
    /// A knob with nothing bound.
    pub fn unbound() -> (r: KnobConfig)
        ensures
            r.ccw.is_none() && r.press.is_none() && r.cw.is_none() && r.hold_twist_l.is_none()
                && r.hold_twist_r.is_none(),
    {
        KnobConfig { ccw: None, press: None, cw: None, hold_twist_l: None, hold_twist_r: None }
    }

    /// Every gesture this knob binds, paired with the event it drives.
    pub fn bindings(&self) -> (r: Vec<(KnobEvent, &Binding)>)
        ensures
            r@.map_values(|p: (KnobEvent, &Binding)| (p.0, *p.1)) == knob_bindings(*self),
    {
        let mut out: Vec<(KnobEvent, &Binding)> = Vec::new();
        assert(out@.map_values(|p: (KnobEvent, &Binding)| (p.0, *p.1)) =~= Seq::<(KnobEvent, Binding)>::empty());
        push_tagged(&mut out, KnobEvent::RotateCCW, &self.ccw);
        push_tagged(&mut out, KnobEvent::Press, &self.press);
        push_tagged(&mut out, KnobEvent::RotateCW, &self.cw);
        push_tagged(&mut out, KnobEvent::HoldTwistL, &self.hold_twist_l);
        push_tagged(&mut out, KnobEvent::HoldTwistR, &self.hold_twist_r);
        assert(knob_bindings(*self) =~= Seq::<(KnobEvent, Binding)>::empty() + tagged(KnobEvent::RotateCCW, self.ccw)
            + tagged(KnobEvent::Press, self.press) + tagged(KnobEvent::RotateCW, self.cw) + tagged(
            KnobEvent::HoldTwistL,
            self.hold_twist_l,
        ) + tagged(KnobEvent::HoldTwistR, self.hold_twist_r));
        out
    }
}

pub fn default_model() -> (r: String)
    ensures
        r@ == "ch57x-1"@,
{
    let mut s = String::new();
    push_str(&mut s, "ch57x-1");
    s
}

pub fn default_orientation() -> (r: String)
    ensures
        r@ == "normal"@,
{
    let mut s = String::new();
    push_str(&mut s, "normal");
    s
}

pub fn default_knobs() -> (r: usize)
    ensures
        r == 1,
{
    1
}

/// Where the layout lives under a home directory, beside the daemon's own
/// state in Application Support. A separator is added unless `home` already
/// ends in one.
pub open spec fn device_config_path(home: Seq<char>) -> Seq<char> {
    home + (if home.len() > 0 && home.last() == '/' { Seq::empty() } else { seq!['/'] })
        + "Library/Application Support/antiknob/config.yaml"@
}

pub fn default_device_config_path(home: &str) -> (r: String)
    ensures
        r@ == device_config_path(home@),
{
    let mut out = String::new();
    push_str(&mut out, home);
    let n: usize = home.unicode_len();
    if !(n > 0 && home.get_char(n - 1) == '/') {
        crate::text::push_char(&mut out, '/');
    }
    push_str(&mut out, "Library/Application Support/antiknob/config.yaml");
    assert(out@ =~= device_config_path(home@));
    out
}

/// Buttons a layer lists, over all its rows.
pub open spec fn row_total(rows: Seq<Vec<String>>) -> nat
    decreases rows.len(),
{
    if rows.len() == 0 {
        0
    } else {
        row_total(rows.drop_last()) + rows.last()@.len()
    }
}

/// The buttons a layer lists.
pub open spec fn listed(layer: LayerConfig) -> nat {
    row_total(layer.buttons@)
}

/// The first layer (by index) that lists more buttons than `declared`.
pub open spec fn first_overfull(layers: Seq<LayerConfig>, declared: nat) -> Option<int>
    decreases layers.len(),
{
    if layers.len() == 0 {
        None
    } else {
        match first_overfull(layers.drop_last(), declared) {
            Some(i) => Some(i),
            None => if listed(layers.last()) > declared {
                Some(layers.len() - 1)
            } else {
                None
            },
        }
    }
}

/// Why a layout is refused.
#[derive(Debug, Clone, PartialEq, Eq)]
pub enum ConfigError {
    /// No layer at all.
    NoLayers,
    /// A layer lists more buttons than the grid declares.
    TooManyButtons { layer: usize, listed: u128, declared: usize, rows: usize, columns: usize },
    /// A button action does not parse.
    InvalidButton { layer: usize, action: String, source: ParseError },
    /// A knob binding cannot be flashed.
    InvalidKnobBinding { layer: usize, knob: usize, event: KnobEvent, source: BindingError },
}

/// A layout refusal, as the characters it carries.
pub enum ConfigFault {
    NoLayers,
    TooManyButtons { layer: nat, listed: nat, declared: nat, rows: nat, columns: nat },
    InvalidButton { layer: nat, action: Seq<char>, source: ParseFault },
    InvalidKnobBinding { layer: nat, knob: nat, event: KnobEvent, source: BindingFault },
}

impl View for ConfigError {
    type V = ConfigFault;

    open spec fn view(&self) -> ConfigFault {
        match self {
            ConfigError::NoLayers => ConfigFault::NoLayers,
            ConfigError::TooManyButtons { layer, listed, declared, rows, columns } => ConfigFault::TooManyButtons {
                layer: *layer as nat,
                listed: *listed as nat,
                declared: *declared as nat,
                rows: *rows as nat,
                columns: *columns as nat,
            },
            ConfigError::InvalidButton { layer, action, source } => ConfigFault::InvalidButton {
                layer: *layer as nat,
                action: action@,
                source: source@,
            },
            ConfigError::InvalidKnobBinding { layer, knob, event, source } => ConfigFault::InvalidKnobBinding {
                layer: *layer as nat,
                knob: *knob as nat,
                event: *event,
                source: source@,
            },
        }
    }
}

/// The grid's button count.
pub open spec fn declared_buttons(c: DeviceConfig) -> nat {
    (c.rows * c.columns) as nat
}

/// The grid fits in the machine's integers.
pub open spec fn grid_fits(c: DeviceConfig) -> bool {
    c.rows * c.columns <= usize::MAX
}

/// What `check_slot_layout` refuses: the first layer listing more buttons
/// than the grid declares.
pub open spec fn slot_layout_problem(c: DeviceConfig) -> Option<ConfigFault> {
    match first_overfull(c.layers@, declared_buttons(c)) {
        None => None,
        Some(i) => Some(ConfigFault::TooManyButtons {
            layer: i as nat,
            listed: listed(c.layers@[i]),
            declared: declared_buttons(c),
            rows: c.rows as nat,
            columns: c.columns as nat,
        }),
    }
}

/// The first name in a row that does not parse.
pub open spec fn first_bad_in_row(names: Seq<Seq<char>>) -> Option<(Seq<char>, ParseFault)>
    decreases names.len(),
{
    if names.len() == 0 {
        None
    } else {
        match first_bad_in_row(names.drop_last()) {
            Some(p) => Some(p),
            None => match parse_action(names.last()) {
                Err(e) => Some((names.last(), e)),
                Ok(_) => None,
            },
        }
    }
}

/// The first button action of a layer, row by row, that does not parse.
pub open spec fn first_bad_button(rows: Seq<Vec<String>>) -> Option<(Seq<char>, ParseFault)>
    decreases rows.len(),
{
    if rows.len() == 0 {
        None
    } else {
        match first_bad_button(rows.drop_last()) {
            Some(p) => Some(p),
            None => first_bad_in_row(views(rows.last()@)),
        }
    }
}

/// The first binding of a knob that cannot be flashed.
pub open spec fn first_bad_binding(bs: Seq<(KnobEvent, Binding)>) -> Option<(KnobEvent, BindingFault)>
    decreases bs.len(),
{
    if bs.len() == 0 {
        None
    } else {
        match first_bad_binding(bs.drop_last()) {
            Some(p) => Some(p),
            None => match binding_problem(bs.last().1) {
                Some(f) => Some((bs.last().0, f)),
                None => None,
            },
        }
    }
}

/// The first knob of a layer with a binding that cannot be flashed.
pub open spec fn first_bad_knob(layer: nat, knobs: Seq<KnobConfig>) -> Option<ConfigFault>
    decreases knobs.len(),
{
    if knobs.len() == 0 {
        None
    } else {
        match first_bad_knob(layer, knobs.drop_last()) {
            Some(p) => Some(p),
            None => match first_bad_binding(knob_bindings(knobs.last())) {
                Some((e, f)) => Some(ConfigFault::InvalidKnobBinding {
                    layer,
                    knob: (knobs.len() - 1) as nat,
                    event: e,
                    source: f,
                }),
                None => None,
            },
        }
    }
}

/// The first problem within one layer: buttons first, then knobs.
pub open spec fn layer_problem(index: nat, layer: LayerConfig) -> Option<ConfigFault> {
    match first_bad_button(layer.buttons@) {
        Some((name, e)) => Some(ConfigFault::InvalidButton { layer: index, action: name, source: e }),
        None => first_bad_knob(index, layer.knobs@),
    }
}

/// The first layer with a problem.
pub open spec fn first_layer_problem(layers: Seq<LayerConfig>) -> Option<ConfigFault>
    decreases layers.len(),
{
    if layers.len() == 0 {
        None
    } else {
        match first_layer_problem(layers.drop_last()) {
            Some(p) => Some(p),
            None => layer_problem((layers.len() - 1) as nat, layers.last()),
        }
    }
}

/// What `validate` refuses, in the order it checks.
pub open spec fn config_problem(c: DeviceConfig) -> Option<ConfigFault> {
    if c.layers@.len() == 0 {
        Some(ConfigFault::NoLayers)
    } else if slot_layout_problem(c).is_some() {
        slot_layout_problem(c)
    } else {
        first_layer_problem(c.layers@)
    }
}

/// Buttons listed over all rows.
fn count_listed(rows: &Vec<Vec<String>>) -> (r: u128)
    ensures
        r as nat == row_total(rows@),
{
    let mut acc: u128 = 0;
    let mut j: usize = 0;
    while j < rows.len()
        invariant
            j <= rows.len(),
            acc as nat == row_total(rows@.take(j as int)),
            acc <= j * 0x1_0000_0000_0000_0000u128,
        decreases rows.len() - j,
    {
        assert(rows@.take(j + 1).drop_last() =~= rows@.take(j as int));
        acc = acc + rows[j].len() as u128;
        j = j + 1;
    }
    assert(rows@.take(rows.len() as int) =~= rows@);
    acc
}

proof fn lemma_first_overfull_sticks(layers: Seq<LayerConfig>, declared: nat, n: nat)
    requires
        n <= layers.len(),
        first_overfull(layers.take(n as int), declared).is_some(),
    ensures
        first_overfull(layers, declared) == first_overfull(layers.take(n as int), declared),
    decreases layers.len() - n,
{
    if n < layers.len() {
        assert(layers.take(n as int + 1).drop_last() =~= layers.take(n as int));
        lemma_first_overfull_sticks(layers, declared, n + 1);
    } else {
        assert(layers.take(n as int) =~= layers);
    }
}

proof fn lemma_first_overfull_bound(layers: Seq<LayerConfig>, declared: nat)
    ensures
        first_overfull(layers, declared) matches Some(i) ==> 0 <= i < layers.len() && listed(layers[i]) > declared,
    decreases layers.len(),
{
    if layers.len() > 0 {
        lemma_first_overfull_bound(layers.drop_last(), declared);
    }
}

fn bad_in_row(names: &Vec<String>) -> (r: Option<(String, ParseError)>)
    ensures
        match (r, first_bad_in_row(views(names@))) {
            (None, None) => true,
            (Some((n, e)), Some((wn, we))) => n@ == wn && e@ == we,
            _ => false,
        },
{
    let ghost all = views(names@);
    let mut i: usize = 0;
    while i < names.len()
        invariant
            i <= names.len(),
            all == views(names@),
            first_bad_in_row(all.take(i as int)).is_none(),
        decreases names.len() - i,
    {
        assert(all.take(i + 1).drop_last() =~= all.take(i as int));
        assert(all.take(i + 1).last() == names@[i as int]@);
        match Action::parse(names[i].as_str()) {
            Err(e) => {
                proof {
                    lemma_row_sticks(all, i as nat + 1);
                }
                return Some((copy_string(&names[i]), e));
            },
            Ok(_) => {},
        }
        i = i + 1;
    }
    assert(all.take(names.len() as int) =~= all);
    None
}

proof fn lemma_row_sticks(names: Seq<Seq<char>>, n: nat)
    requires
        n <= names.len(),
        first_bad_in_row(names.take(n as int)).is_some(),
    ensures
        first_bad_in_row(names) == first_bad_in_row(names.take(n as int)),
    decreases names.len() - n,
{
    if n < names.len() {
        assert(names.take(n as int + 1).drop_last() =~= names.take(n as int));
        lemma_row_sticks(names, n + 1);
    } else {
        assert(names.take(n as int) =~= names);
    }
}

fn bad_button(rows: &Vec<Vec<String>>) -> (r: Option<(String, ParseError)>)
    ensures
        match (r, first_bad_button(rows@)) {
            (None, None) => true,
            (Some((n, e)), Some((wn, we))) => n@ == wn && e@ == we,
            _ => false,
        },
{
    let mut j: usize = 0;
    while j < rows.len()
        invariant
            j <= rows.len(),
            first_bad_button(rows@.take(j as int)).is_none(),
        decreases rows.len() - j,
    {
        assert(rows@.take(j + 1).drop_last() =~= rows@.take(j as int));
        assert(rows@.take(j + 1).last() == rows@[j as int]);
        match bad_in_row(&rows[j]) {
            Some(p) => {
                proof {
                    lemma_button_sticks(rows@, j as nat + 1);
                }
                return Some(p);
            },
            None => {},
        }
        j = j + 1;
    }
    assert(rows@.take(rows.len() as int) =~= rows@);
    None
}

proof fn lemma_button_sticks(rows: Seq<Vec<String>>, n: nat)
    requires
        n <= rows.len(),
        first_bad_button(rows.take(n as int)).is_some(),
    ensures
        first_bad_button(rows) == first_bad_button(rows.take(n as int)),
    decreases rows.len() - n,
{
    if n < rows.len() {
        assert(rows.take(n as int + 1).drop_last() =~= rows.take(n as int));
        lemma_button_sticks(rows, n + 1);
    } else {
        assert(rows.take(n as int) =~= rows);
    }
}

fn bad_binding(knob: &KnobConfig) -> (r: Option<(KnobEvent, BindingError)>)
    ensures
        match (r, first_bad_binding(knob_bindings(*knob))) {
            (None, None) => true,
            (Some((e, b)), Some((we, wb))) => e == we && b@ == wb,
            _ => false,
        },
{
    let bs = knob.bindings();
    let ghost all = bs@.map_values(|p: (KnobEvent, &Binding)| (p.0, *p.1));
    let mut i: usize = 0;
    while i < bs.len()
        invariant
            i <= bs.len(),
            all == bs@.map_values(|p: (KnobEvent, &Binding)| (p.0, *p.1)),
            all == knob_bindings(*knob),
            first_bad_binding(all.take(i as int)).is_none(),
        decreases bs.len() - i,
    {
        assert(all.take(i + 1).drop_last() =~= all.take(i as int));
        assert(all.take(i + 1).last() == (bs@[i as int].0, *bs@[i as int].1));
        let (event, binding) = bs[i];
        match binding.validate() {
            Err(e) => {
                proof {
                    lemma_binding_sticks(all, i as nat + 1);
                }
                return Some((event, e));
            },
            Ok(()) => {},
        }
        i = i + 1;
    }
    assert(all.take(bs.len() as int) =~= all);
    None
}

proof fn lemma_binding_sticks(bs: Seq<(KnobEvent, Binding)>, n: nat)
    requires
        n <= bs.len(),
        first_bad_binding(bs.take(n as int)).is_some(),
    ensures
        first_bad_binding(bs) == first_bad_binding(bs.take(n as int)),
    decreases bs.len() - n,
{
    if n < bs.len() {
        assert(bs.take(n as int + 1).drop_last() =~= bs.take(n as int));
        lemma_binding_sticks(bs, n + 1);
    } else {
        assert(bs.take(n as int) =~= bs);
    }
}

fn bad_knob(layer: usize, knobs: &Vec<KnobConfig>) -> (r: Option<ConfigError>)
    ensures
        match (r, first_bad_knob(layer as nat, knobs@)) {
            (None, None) => true,
            (Some(e), Some(w)) => e@ == w,
            _ => false,
        },
{
    let mut k: usize = 0;
    while k < knobs.len()
        invariant
            k <= knobs.len(),
            first_bad_knob(layer as nat, knobs@.take(k as int)).is_none(),
        decreases knobs.len() - k,
    {
        assert(knobs@.take(k + 1).drop_last() =~= knobs@.take(k as int));
        assert(knobs@.take(k + 1).last() == knobs@[k as int]);
        match bad_binding(&knobs[k]) {
            Some((event, source)) => {
                proof {
                    lemma_knob_sticks(layer as nat, knobs@, k as nat + 1);
                }
                return Some(ConfigError::InvalidKnobBinding { layer, knob: k, event, source });
            },
            None => {},
        }
        k = k + 1;
    }
    assert(knobs@.take(knobs.len() as int) =~= knobs@);
    None
}

proof fn lemma_knob_sticks(layer: nat, knobs: Seq<KnobConfig>, n: nat)
    requires
        n <= knobs.len(),
        first_bad_knob(layer, knobs.take(n as int)).is_some(),
    ensures
        first_bad_knob(layer, knobs) == first_bad_knob(layer, knobs.take(n as int)),
    decreases knobs.len() - n,
{
    if n < knobs.len() {
        assert(knobs.take(n as int + 1).drop_last() =~= knobs.take(n as int));
        lemma_knob_sticks(layer, knobs, n + 1);
    } else {
        assert(knobs.take(n as int) =~= knobs);
    }
}

proof fn lemma_layer_sticks(layers: Seq<LayerConfig>, n: nat)
    requires
        n <= layers.len(),
        first_layer_problem(layers.take(n as int)).is_some(),
    ensures
        first_layer_problem(layers) == first_layer_problem(layers.take(n as int)),
    decreases layers.len() - n,
{
    if n < layers.len() {
        assert(layers.take(n as int + 1).drop_last() =~= layers.take(n as int));
        lemma_layer_sticks(layers, n + 1);
    } else {
        assert(layers.take(n as int) =~= layers);
    }
}

impl DeviceConfig {
    /// How many physical buttons the declared layout has.
    pub fn button_count(&self) -> (r: usize)
        requires
            grid_fits(*self),
        ensures
            r == self.rows * self.columns,
    {
        self.rows * self.columns
    }

    /// Total slots one layer holds: every button, then five per knob.
    pub fn slots_per_layer(&self) -> (r: usize)
        requires
            self.rows * self.columns + self.knobs * GESTURES_PER_KNOB <= usize::MAX,
        ensures
            r == self.rows * self.columns + self.knobs * GESTURES_PER_KNOB,
    {
        proof {
            assert(self.rows * self.columns <= usize::MAX) by (nonlinear_arith)
                requires
                    self.rows * self.columns + self.knobs * 5 <= usize::MAX,
                    self.knobs * 5 >= 0,
            ;
        }
        self.button_count() + self.knobs * GESTURES_PER_KNOB
    }

    /// True when this layout puts knob slots at key ids 1/2/3: no buttons
    /// declared, yet some layer binds a knob.
    pub fn knob_slots_start_at_the_first_button(&self) -> (r: bool)
        requires
            grid_fits(*self),
        ensures
            r == (self.rows * self.columns == 0 && exists|i: int|
                0 <= i < self.layers@.len() && #[trigger] self.layers@[i].knobs@.len() > 0),
    {
        if self.button_count() != 0 {
            return false;
        }
        let mut i: usize = 0;
        while i < self.layers.len()
            invariant
                i <= self.layers.len(),
                self.rows * self.columns == 0,
                forall|k: int| 0 <= k < i ==> #[trigger] self.layers@[k].knobs@.len() == 0,
            decreases self.layers.len() - i,
        {
            if self.layers[i].knobs.len() > 0 {
                assert(self.layers@[i as int].knobs@.len() > 0);
                return true;
            }
            i = i + 1;
        }
        false
    }

    /// Refuse a layout whose layers list more buttons than its grid
    /// declares: the extra ones would land on the knob's slots.
    pub fn check_slot_layout(&self) -> (r: Result<(), ConfigError>)
        requires
            grid_fits(*self),
        ensures
            match slot_layout_problem(*self) {
                None => r is Ok,
                Some(want) => r matches Err(e) && e@ == want,
            },
    {
        let declared: usize = self.button_count();
        let mut i: usize = 0;
        while i < self.layers.len()
            invariant
                i <= self.layers.len(),
                declared == declared_buttons(*self),
                first_overfull(self.layers@.take(i as int), declared as nat).is_none(),
            decreases self.layers.len() - i,
        {
            assert(self.layers@.take(i + 1).drop_last() =~= self.layers@.take(i as int));
            assert(self.layers@.take(i + 1).last() == self.layers@[i as int]);
            let count: u128 = count_listed(&self.layers[i].buttons);
            if count > declared as u128 {
                proof {
                    lemma_first_overfull_sticks(self.layers@, declared as nat, i as nat + 1);
                }
                return Err(ConfigError::TooManyButtons {
                    layer: i,
                    listed: count,
                    declared,
                    rows: self.rows,
                    columns: self.columns,
                });
            }
            i = i + 1;
        }
        assert(self.layers@.take(self.layers.len() as int) =~= self.layers@);
        Ok(())
    }

    /// Refuse a layout the device or the writer cannot store: no layers, an
    /// over-full layer, an unknown button action, or a knob binding the
    /// record cannot hold.
    pub fn validate(&self) -> (r: Result<(), ConfigError>)
        requires
            grid_fits(*self),
        ensures
            match config_problem(*self) {
                None => r is Ok,
                Some(want) => r matches Err(e) && e@ == want,
            },
    {
        if self.layers.len() == 0 {
            return Err(ConfigError::NoLayers);
        }
        match self.check_slot_layout() {
            Err(e) => return Err(e),
            Ok(()) => {},
        }
        let mut i: usize = 0;
        while i < self.layers.len()
            invariant
                i <= self.layers.len(),
                slot_layout_problem(*self).is_none(),
                self.layers@.len() > 0,
                first_layer_problem(self.layers@.take(i as int)).is_none(),
            decreases self.layers.len() - i,
        {
            assert(self.layers@.take(i + 1).drop_last() =~= self.layers@.take(i as int));
            assert(self.layers@.take(i + 1).last() == self.layers@[i as int]);
            let layer = &self.layers[i];
            match bad_button(&layer.buttons) {
                Some((action, source)) => {
                    proof {
                        lemma_layer_sticks(self.layers@, i as nat + 1);
                    }
                    return Err(ConfigError::InvalidButton { layer: i, action, source });
                },
                None => {},
            }
            match bad_knob(i, &layer.knobs) {
                Some(e) => {
                    proof {
                        lemma_layer_sticks(self.layers@, i as nat + 1);
                    }
                    return Err(e);
                },
                None => {},
            }
            i = i + 1;
        }
        assert(self.layers@.take(self.layers.len() as int) =~= self.layers@);
        Ok(())
    }
}

/// The text of a layout refusal.
pub open spec fn config_error_message(e: ConfigFault) -> Seq<char> {
    match e {
        ConfigFault::NoLayers => "Configuration must contain at least one layer."@,
        ConfigFault::TooManyButtons { layer, listed, declared, rows, columns } =>
            "Layer "@ + decimal(layer) + " lists "@ + decimal(listed) + " button(s) but the layout declares "@
                + decimal(declared) + " (rows "@ + decimal(rows) + " x columns "@ + decimal(columns)
                + "). The extra binding would be written to key ID "@ + decimal(declared + 1)
                + ", which is knob 0 territory."@,
        ConfigFault::InvalidButton { layer, action, source } =>
            "Invalid button action '"@ + action + "' in layer "@ + decimal(layer) + ": "@
                + parse_error_message(source),
        ConfigFault::InvalidKnobBinding { layer, knob, event, source } =>
            "knob "@ + decimal(knob) + " "@ + event_name(event) + " binding in layer "@ + decimal(layer) + ": "@
                + binding_error_message(source),
    }
}

impl ConfigError {
    /// The refusal as a sentence.
    pub fn message(&self) -> (r: String)
        ensures
            r@ == config_error_message(self@),
    {
        let mut out = String::new();
        match self {
            ConfigError::NoLayers => {
                push_str(&mut out, "Configuration must contain at least one layer.");
            },
            ConfigError::TooManyButtons { layer, listed, declared, rows, columns } => {
                push_str(&mut out, "Layer ");
                push_decimal(&mut out, *layer as u128);
                push_str(&mut out, " lists ");
                push_decimal(&mut out, *listed);
                push_str(&mut out, " button(s) but the layout declares ");
                push_decimal(&mut out, *declared as u128);
                push_str(&mut out, " (rows ");
                push_decimal(&mut out, *rows as u128);
                push_str(&mut out, " x columns ");
                push_decimal(&mut out, *columns as u128);
                push_str(&mut out, "). The extra binding would be written to key ID ");
                push_decimal(&mut out, *declared as u128 + 1);
                push_str(&mut out, ", which is knob 0 territory.");
            },
            ConfigError::InvalidButton { layer, action, source } => {
                push_str(&mut out, "Invalid button action '");
                push_str(&mut out, action.as_str());
                push_str(&mut out, "' in layer ");
                push_decimal(&mut out, *layer as u128);
                push_str(&mut out, ": ");
                let m = source.message();
                push_str(&mut out, m.as_str());
            },
            ConfigError::InvalidKnobBinding { layer, knob, event, source } => {
                push_str(&mut out, "knob ");
                push_decimal(&mut out, *knob as u128);
                push_str(&mut out, " ");
                push_str(&mut out, event.as_str());
                push_str(&mut out, " binding in layer ");
                push_decimal(&mut out, *layer as u128);
                push_str(&mut out, ": ");
                let m = source.message();
                push_str(&mut out, m.as_str());
            },
        }
        out
    }
}

} // verus!
