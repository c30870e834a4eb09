//! What one gesture does: a single action, or a sequence.
//!
//! A sequence waits `delay_ms` before every step after the first. Every
//! binding flashes through the `0xFD` writer, which declares its entry
//! count; a single action is a sequence of one.

use vstd::prelude::*;
use crate::fd::{build_packet, fd_record, parse_sequence, parsed_steps, views, FdError, Step, fd_error_message};
use crate::protocol::{Action, ParseError, ParseFault, lift, parse_action, parse_error_message};
use crate::text::push_str;

verus! {

/// What one gesture does.
#[derive(Debug, Clone, PartialEq, Eq)]
pub enum Binding {
    One(String),
    Sequence(Vec<String>),
    Timed { steps: Vec<String>, delay_ms: u16 },
}

/// The action names of a binding, in order.
pub open spec fn binding_names(b: Binding) -> Seq<Seq<char>> {
    match b {
        Binding::One(s) => seq![s@],
        Binding::Sequence(v) => views(v@),
        Binding::Timed { steps, .. } => views(steps@),
    }
}

/// The wait before every step after the first.
pub open spec fn binding_delay(b: Binding) -> u16 {
    match b {
        Binding::Timed { delay_ms, .. } => delay_ms,
        _ => 0,
    }
}

/// The steps a binding flashes: its names parsed, with the delay on every
/// step but the first.
pub open spec fn binding_steps(b: Binding) -> Result<Seq<Step>, ParseFault> {
    match parsed_steps(binding_names(b)) {
        Err(e) => Err(e),
        Ok(s) => Ok(Seq::new(s.len(), |i: int| Step {
            action: s[i].action,
            delay_ms: if i == 0 { 0u16 } else { binding_delay(b) },
        })),
    }
}

/// Why a binding cannot be flashed.
#[derive(Debug, Clone, PartialEq, Eq)]
pub enum BindingError {
    /// The binding names no action.
    NoActions,
    /// An action name does not parse.
    Parse(ParseError),
    /// The sequence cannot be written as one record.
    Record(FdError),
}

/// A binding error, as the characters it carries.
pub enum BindingFault {
    NoActions,
    Parse(ParseFault),
    Record(FdError),
}

impl View for BindingError {
    type V = BindingFault;

    open spec fn view(&self) -> BindingFault {
        match self {
            BindingError::NoActions => BindingFault::NoActions,
            BindingError::Parse(e) => BindingFault::Parse(e@),
            BindingError::Record(e) => BindingFault::Record(*e),
        }
    }
}

/// The record a binding flashes to one slot.
pub open spec fn binding_record(b: Binding, key: u8, layer: u8) -> Result<Seq<u8>, BindingFault> {
    match binding_steps(b) {
        Err(e) => Err(BindingFault::Parse(e)),
        Ok(steps) => match fd_record(key, layer, steps) {
            Err(e) => Err(BindingFault::Record(e)),
            Ok(p) => Ok(p),
        },
    }
}

/// The first name in a list that does not parse.
pub open spec fn first_bad_name(names: Seq<Seq<char>>) -> Option<ParseFault>
    decreases names.len(),
{
    if names.len() == 0 {
        None
    } else {
        match parse_action(names[0]) {
            Err(e) => Some(e),
            Ok(_) => first_bad_name(names.drop_first()),
        }
    }
}

/// What `validate` refuses, in the order it checks: no names, then the
/// first name that does not parse, then (for the sequence forms) a record
/// the writer refuses.
pub open spec fn binding_problem(b: Binding) -> Option<BindingFault> {
    if binding_names(b).len() == 0 {
        Some(BindingFault::NoActions)
    } else if first_bad_name(binding_names(b)).is_some() {
        Some(BindingFault::Parse(first_bad_name(binding_names(b)).unwrap()))
    } else if !(b is One) {
        match binding_record(b, 1, 0) {
            Err(e) => Some(e),
            Ok(_) => None,
        }
    } else {
        None
    }
}

/// A list of names parses exactly when none of them fails.
pub proof fn lemma_parsed_steps_ok(names: Seq<Seq<char>>)
    ensures
        parsed_steps(names) is Ok <==> first_bad_name(names).is_none(),
        parsed_steps(names) matches Ok(s) ==> s.len() == names.len(),
    decreases names.len(),
{
    if names.len() > 0 {
        lemma_parsed_steps_ok(names.drop_last());
        lemma_first_bad_name_append(names.drop_last(), names.last());
        assert(names.drop_last().push(names.last()) =~= names);
    }
}

proof fn lemma_first_bad_name_append(names: Seq<Seq<char>>, last: Seq<char>)
    ensures
        first_bad_name(names.push(last)) == match first_bad_name(names) {
            Some(e) => Some(e),
            None => match parse_action(last) {
                Err(e) => Some(e),
                Ok(_) => None::<ParseFault>,
            },
        },
    decreases names.len(),
{
    let whole = names.push(last);
    if names.len() > 0 {
        assert(whole[0] == names[0]);
        assert(whole.drop_first() =~= names.drop_first().push(last));
        lemma_first_bad_name_append(names.drop_first(), last);
        assert(first_bad_name(whole) == match parse_action(names[0]) {
            Err(e) => Some(e),
            Ok(_) => first_bad_name(names.drop_first().push(last)),
        });
    } else {
        assert(whole.drop_first() =~= Seq::<Seq<char>>::empty());
        assert(first_bad_name(whole.drop_first()) == None::<ParseFault>);
        assert(whole[0] == last);
    }
}

proof fn lemma_views_push(a: Seq<String>, x: String)
    ensures
        views(a.push(x)) == views(a).push(x@),
{
    assert(views(a.push(x)) =~= views(a).push(x@));
}

fn names_of(v: &Vec<String>) -> (r: Vec<String>)
    ensures
        views(r@) == views(v@),
{
    let mut out: Vec<String> = Vec::new();
    let mut i: usize = 0;
    while i < v.len()
        invariant
            i <= v.len(),
            views(out@) == views(v@).take(i as int),
        decreases v.len() - i,
    {
        let s = copy_string(&v[i]);
        let ghost before = out@;
        out.push(s);
        proof {
            lemma_views_push(before, s);
        }
        assert(views(v@).take(i + 1) =~= views(v@).take(i as int).push(v@[i as int]@));
        i = i + 1;
    }
    assert(views(v@).take(v.len() as int) =~= views(v@));
    out
}

/// A copy of a string with the same characters.
pub fn copy_string(s: &String) -> (r: String)
    ensures
        r@ == s@,
{
    let mut out = String::new();
    push_str(&mut out, s.as_str());
    assert(out@ =~= s@);
    out
}

impl Binding {
    /// The action names, in order.
    pub fn names(&self) -> (r: Vec<String>)
        ensures
            views(r@) == binding_names(*self),
    {
        match self {
            Binding::One(s) => {
                let r = vec![copy_string(s)];
                assert(views(r@) =~= seq![s@]);
                r
            },
            Binding::Sequence(v) => names_of(v),
            Binding::Timed { steps, .. } => names_of(steps),
        }
    }

    /// True when the layout asked for the sequence form, even of one step.
    pub fn is_sequence(&self) -> (r: bool)
        ensures
            r == !(*self is One),
    {
        !matches!(self, Binding::One(_))
    }

    pub fn delay_ms(&self) -> (r: u16)
        ensures
            r == binding_delay(*self),
    {
        match self {
            Binding::Timed { delay_ms, .. } => *delay_ms,
            _ => 0,
        }
    }

    /// The steps this binding flashes, with the delay on every step after
    /// the first.
    pub fn steps(&self) -> (r: Result<Vec<Step>, ParseError>)
        ensures
            match (r, binding_steps(*self)) {
                (Ok(s), Ok(want)) => s@ == want,
                (Err(e), Err(want)) => e@ == want,
                _ => false,
            },
    {
        let names = self.names();
        let mut steps = match parse_sequence(&names) {
            Ok(s) => s,
            Err(e) => return Err(e),
        };
        let delay: u16 = self.delay_ms();
        let ghost parsed = steps@;
        proof {
            lemma_parsed_steps_delays(binding_names(*self));
        }
        let mut i: usize = 1;
        while i < steps.len()
            invariant
                1 <= i,
                steps@.len() == parsed.len(),
                forall|k: int| 0 <= k < steps@.len() ==> #[trigger] steps@[k].action == parsed[k].action,
                parsed.len() > 0 ==> steps@[0] == parsed[0],
                forall|k: int| 1 <= k < i && k < steps@.len() ==> #[trigger] steps@[k].delay_ms == delay,
                forall|k: int| 0 <= k < parsed.len() ==> #[trigger] parsed[k].delay_ms == 0,
            decreases steps.len() - i,
        {
            let a = steps[i].action;
            steps[i] = Step { action: a, delay_ms: delay };
            i = i + 1;
        }
        proof {
            assert(views(names@) == binding_names(*self));
            assert(parsed_steps(binding_names(*self)) == Ok::<Seq<Step>, ParseFault>(parsed));
            match binding_steps(*self) {
                Ok(w) => {
                    assert(w.len() == parsed.len());
                    assert forall|k: int| 0 <= k < w.len() implies #[trigger] steps@[k] == w[k] by {
                        if k == 0 {
                            assert(steps@[0] == parsed[0]);
                            assert(parsed[0].delay_ms == 0);
                        } else {
                            assert(steps@[k].delay_ms == delay);
                            assert(steps@[k].action == parsed[k].action);
                        }
                    }
                    assert(steps@ =~= w);
                },
                Err(_) => {},
            }
        }
        Ok(steps)
    }

    /// The packet that flashes this binding to one slot.
    pub fn to_packet(&self, key_id: u8, layer: u8) -> (r: Result<Vec<u8>, BindingError>)
        requires
            layer < 255,
        ensures
            match (r, binding_record(*self, key_id, layer)) {
                (Ok(p), Ok(want)) => p@ == want,
                (Err(e), Err(want)) => e@ == want,
                _ => false,
            },
    {
        let steps = match self.steps() {
            Ok(s) => s,
            Err(e) => return Err(BindingError::Parse(e)),
        };
        match build_packet(key_id, layer, &steps) {
            Ok(p) => Ok(p),
            Err(e) => Err(BindingError::Record(e)),
        }
    }

    /// Refuse anything the device or the writer cannot store.
    pub fn validate(&self) -> (r: Result<(), BindingError>)
        ensures
            match binding_problem(*self) {
                None => r is Ok,
                Some(want) => r matches Err(e) && e@ == want,
            },
    {
        let names = self.names();
        if names.len() == 0 {
            return Err(BindingError::NoActions);
        }
        let ghost all = views(names@);
        assert(all.skip(0) =~= all);
        let mut i: usize = 0;
        while i < names.len()
            invariant
                i <= names.len(),
                all == views(names@),
                all == binding_names(*self),
                first_bad_name(all) == first_bad_name(all.skip(i as int)),
            decreases names.len() - i,
        {
            assert(all.skip(i as int)[0] == names@[i as int]@);
            assert(all.skip(i as int).drop_first() =~= all.skip(i + 1));
            match Action::parse(names[i].as_str()) {
                Err(e) => {
                    proof {
                        assert(parse_action(all.skip(i as int)[0]) == Err::<Action, ParseFault>(e@));
                        assert(first_bad_name(all.skip(i as int)) == Some(e@));
                        assert(all == binding_names(*self));
                    }
                    return Err(BindingError::Parse(e));
                },
                Ok(_) => {},
            }
            i = i + 1;
        }
        assert(all.skip(names.len() as int) =~= Seq::<Seq<char>>::empty());
        if self.is_sequence() {
            proof {
                lemma_parsed_steps_ok(all);
            }
            match self.to_packet(1, 0) {
                Err(e) => return Err(e),
                Ok(_) => {},
            }
        }
        Ok(())
    }
}

/// Parsed steps carry no delay.
proof fn lemma_parsed_steps_delays(names: Seq<Seq<char>>)
    ensures
        parsed_steps(names) matches Ok(s) ==> forall|k: int| 0 <= k < s.len() ==> #[trigger] s[k].delay_ms == 0,
    decreases names.len(),
{
    if names.len() > 0 {
        lemma_parsed_steps_delays(names.drop_last());
    }
}

/// The text of a binding refusal.
pub open spec fn binding_error_message(e: BindingFault) -> Seq<char> {
    match e {
        BindingFault::NoActions => "a binding with no actions does nothing; remove it or give it an action"@,
        BindingFault::Parse(p) => parse_error_message(p),
        BindingFault::Record(f) => fd_error_message(f),
    }
}

impl BindingError {
    pub fn message(&self) -> (r: String)
        ensures
            r@ == binding_error_message(self@),
    {
        match self {
            BindingError::NoActions => {
                let mut out = String::new();
                push_str(&mut out, "a binding with no actions does nothing; remove it or give it an action");
                out
            },
            BindingError::Parse(p) => p.message(),
            BindingError::Record(f) => f.message(),
        }
    }
}

/// One encoder serves both forms: a single action flashes exactly the
/// record of a one-step sequence of that action.
pub proof fn lemma_one_is_a_sequence_of_one(s: String, v: Vec<String>, key: u8, layer: u8)
    requires
        v@.len() == 1,
        v@[0]@ == s@,
    ensures
        binding_record(Binding::One(s), key, layer) == binding_record(Binding::Sequence(v), key, layer),
{
    assert(binding_names(Binding::One(s)) =~= binding_names(Binding::Sequence(v)));
    assert(binding_steps(Binding::One(s)) == binding_steps(Binding::Sequence(v)));
}


/// Parsing a list of names gives one step per name, each the name's own
/// action.
proof fn lemma_parsed_steps_follow_names(names: Seq<Seq<char>>)
    ensures
        parsed_steps(names) matches Ok(s) ==> {
            &&& s.len() == names.len()
            &&& forall|k: int| 0 <= k < s.len() ==> parse_action(#[trigger] names[k]) == Ok::<Action, ParseFault>(s[k].action)
        },
    decreases names.len(),
{
    if names.len() > 0 {
        lemma_parsed_steps_follow_names(names.drop_last());
        if let Ok(s) = parsed_steps(names) {
            let prev = parsed_steps(names.drop_last())->Ok_0;
            assert forall|k: int| 0 <= k < s.len() implies parse_action(#[trigger] names[k]) == Ok::<Action, ParseFault>(s[k].action) by {
                if k < names.len() - 1 {
                    assert(names.drop_last()[k] == names[k]);
                    assert(s[k] == prev[k]);
                }
            }
        }
    }
}

/// The steps a binding flashes: one per action name, in order, each the
/// name's action; the first fires at once, and every later one waits the
/// binding's delay (a timed sequence's `delay_ms`, none otherwise).
pub proof fn lemma_binding_steps_wait_between(b: Binding)
    ensures
        binding_steps(b) matches Ok(w) ==> {
            &&& w.len() == binding_names(b).len()
            &&& forall|k: int| 0 <= k < w.len() ==> parse_action(#[trigger] binding_names(b)[k]) == Ok::<Action, ParseFault>(w[k].action)
            &&& w.len() > 0 ==> w[0].delay_ms == 0
            &&& forall|k: int| 1 <= k < w.len() ==> (#[trigger] w[k]).delay_ms == match b {
                Binding::Timed { delay_ms, .. } => delay_ms,
                _ => 0u16,
            }
        },
{
    lemma_parsed_steps_follow_names(binding_names(b));
}

} // verus!
