//! Editing the steps of a sequence: keystrokes and waits, reordered in
//! place.

use vstd::prelude::*;
use crate::fd::views;
use crate::text::{decimal, join, join_strings, push_decimal, push_str};

verus! {

/// One step of a host sequence: a keystroke (with its modifiers and the
/// label it is shown by), a wait, or both (wait first).
#[derive(Debug, Clone, PartialEq, Eq)]
pub struct SeqStep {
    pub key: Option<u16>,
    pub mods: Vec<String>,
    pub label: String,
    pub delay_ms: Option<u64>,
}

/// `steps` after moving step `idx` one place up (toward the front) or
/// down. A move that would leave the list is no move at all.
pub open spec fn moved<T>(steps: Seq<T>, idx: int, up: bool) -> Seq<T> {
    if up {
        if 0 < idx < steps.len() {
            steps.update(idx - 1, steps[idx]).update(idx, steps[idx - 1])
        } else {
            steps
        }
    } else if idx + 1 < steps.len() {
        steps.update(idx, steps[idx + 1]).update(idx + 1, steps[idx])
    } else {
        steps
    }
}

/// Swap the neighbours at `i` and `i + 1`.
fn swap_next<T>(v: &mut Vec<T>, i: usize)
    requires
        i + 1 < old(v)@.len(),
    ensures
        final(v)@ == old(v)@.update(i as int, old(v)@[i + 1]).update(i + 1, old(v)@[i as int]),
{
    let ghost start = v@;
    assert(i + 1 < v.len());
    let x = v.remove(i);
    v.insert(i + 1, x);
    assert(v@ =~= start.update(i as int, start[i + 1]).update(i + 1, start[i as int]));
}

/// Move step `idx` one slot toward `up`. Out-of-range moves are no-ops.
pub fn move_step<T>(steps: &mut Vec<T>, idx: usize, up: bool)
    ensures
        final(steps)@ == moved(old(steps)@, idx as int, up),
{
    if up {
        if idx > 0 && idx < steps.len() {
            let ghost start = steps@;
            swap_next(steps, idx - 1);
            assert(steps@ =~= moved(start, idx as int, up));
        }
    } else if idx < steps.len() && idx + 1 < steps.len() {
        swap_next(steps, idx);
    }
}

pub open spec fn describe(key: Option<u16>, mods: Seq<Seq<char>>, label: Seq<char>, delay: Option<u64>) -> Seq<char> {
    match (key, delay) {
        (Some(k), d) => "Key "@ + (if mods.len() == 0 { Seq::empty() } else { join(mods, "+"@) + "+"@ }) + label + " ["@
            + decimal(k as nat) + "]"@ + match d {
                Some(ms) => " (wait "@ + decimal(ms as nat) + "ms first)"@,
                None => Seq::empty(),
            },
        (None, Some(ms)) => "Wait "@ + decimal(ms as nat) + "ms"@,
        (None, None) => "Empty step"@,
    }
}

/// How a step reads in the editor.
pub fn describe_step(step: &SeqStep) -> (r: String)
    ensures
        r@ == describe(step.key, views(step.mods@), step.label@, step.delay_ms),
{
    let mut s = String::new();
    match (step.key, step.delay_ms) {
        (Some(key), delay) => {
            push_str(&mut s, "Key ");
            if step.mods.len() > 0 {
                let m = join_strings(&step.mods, "+");
                push_str(&mut s, m.as_str());
                push_str(&mut s, "+");
            }
            push_str(&mut s, step.label.as_str());
            push_str(&mut s, " [");
            push_decimal(&mut s, key as u128);
            push_str(&mut s, "]");
            match delay {
                Some(ms) => {
                    push_str(&mut s, " (wait ");
                    push_decimal(&mut s, ms as u128);
                    push_str(&mut s, "ms first)");
                },
                None => {},
            }
        },
        (None, Some(ms)) => {
            push_str(&mut s, "Wait ");
            push_decimal(&mut s, ms as u128);
            push_str(&mut s, "ms");
        },
        (None, None) => {
            push_str(&mut s, "Empty step");
        },
    }
    assert(s@ =~= describe(step.key, views(step.mods@), step.label@, step.delay_ms));
    s
}

/// Moving a step up and then back down restores the list.
pub proof fn lemma_move_up_then_down<T>(steps: Seq<T>, idx: int)
    requires
        0 < idx < steps.len(),
    ensures
        moved(moved(steps, idx, true), idx - 1, false) == steps,
{
    assert(moved(moved(steps, idx, true), idx - 1, false) =~= steps);
}

/// A move only reorders: the same steps, as many of each, remain.
pub proof fn lemma_move_keeps_steps<T>(steps: Seq<T>, idx: int, up: bool)
    requires
        0 <= idx,
    ensures
        moved(steps, idx, up).to_multiset() == steps.to_multiset(),
        moved(steps, idx, up).len() == steps.len(),
{
    broadcast use vstd::seq_lib::group_to_multiset_ensures;
    if up && 0 < idx < steps.len() {
        lemma_swap_multiset(steps, idx - 1);
    } else if !up && idx + 1 < steps.len() {
        lemma_swap_multiset(steps, idx);
    }
}

proof fn lemma_swap_multiset<T>(s: Seq<T>, i: int)
    requires
        0 <= i,
        i + 1 < s.len(),
    ensures
        s.update(i, s[i + 1]).update(i + 1, s[i]).to_multiset() == s.to_multiset(),
{
    broadcast use vstd::seq_lib::group_to_multiset_ensures;
    let t = s.update(i, s[i + 1]).update(i + 1, s[i]);
    let a = s.take(i);
    let b = s.skip(i + 2);
    assert(s =~= a + seq![s[i], s[i + 1]] + b);
    assert(t =~= a + seq![s[i + 1], s[i]] + b);
    vstd::seq_lib::lemma_multiset_commutative(a + seq![s[i], s[i + 1]], b);
    vstd::seq_lib::lemma_multiset_commutative(a + seq![s[i + 1], s[i]], b);
    vstd::seq_lib::lemma_multiset_commutative(a, seq![s[i], s[i + 1]]);
    vstd::seq_lib::lemma_multiset_commutative(a, seq![s[i + 1], s[i]]);
    vstd::seq_lib::lemma_multiset_commutative(seq![s[i]], seq![s[i + 1]]);
    vstd::seq_lib::lemma_multiset_commutative(seq![s[i + 1]], seq![s[i]]);
    assert(seq![s[i], s[i + 1]] =~= seq![s[i]] + seq![s[i + 1]]);
    assert(seq![s[i + 1], s[i]] =~= seq![s[i + 1]] + seq![s[i]]);
}

} // verus!
