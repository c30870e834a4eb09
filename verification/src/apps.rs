//! Installed applications for launch and quit actions: the listing order.
//!
//! Scanning the directories is the caller's; the list is shown sorted by
//! display name, ignoring case.

use vstd::prelude::*;
use crate::text::{chars_of, lowercase, to_lowercase};

verus! {

/// One installed application bundle.
#[derive(Debug, Clone, PartialEq, Eq)]
pub struct AppInfo {
    pub name: String,
    pub bundle_id: Option<String>,
    pub path: String,
}

/// `a` sorts no later than `b`: character by character, a prefix first.
pub open spec fn text_le(a: Seq<char>, b: Seq<char>) -> bool
    decreases a.len(),
{
    if a.len() == 0 {
        true
    } else if b.len() == 0 {
        false
    } else if (a[0] as u32) < (b[0] as u32) {
        true
    } else if (a[0] as u32) > (b[0] as u32) {
        false
    } else {
        text_le(a.drop_first(), b.drop_first())
    }
}

proof fn lemma_text_le_total(a: Seq<char>, b: Seq<char>)
    ensures
        text_le(a, b) || text_le(b, a),
    decreases a.len(),
{
    if a.len() > 0 && b.len() > 0 && (a[0] as u32) == (b[0] as u32) {
        lemma_text_le_total(a.drop_first(), b.drop_first());
    }
}

proof fn lemma_text_le_trans(a: Seq<char>, b: Seq<char>, c: Seq<char>)
    requires
        text_le(a, b),
        text_le(b, c),
    ensures
        text_le(a, c),
    decreases a.len(),
{
    if a.len() > 0 && b.len() > 0 && c.len() > 0 && (a[0] as u32) == (b[0] as u32) && (b[0] as u32) == (c[0] as u32) {
        lemma_text_le_trans(a.drop_first(), b.drop_first(), c.drop_first());
    }
}

/// The key an app is listed by: its name in lower case.
pub open spec fn sort_key(a: AppInfo) -> Seq<char> {
    lowercase(a.name@)
}

proof fn lemma_text_le_refl(a: Seq<char>)
    ensures
        text_le(a, a),
    decreases a.len(),
{
    if a.len() > 0 {
        lemma_text_le_refl(a.drop_first());
    }
}

/// Holds of the apps whose key, by `key_of`, is `k`.
pub open spec fn key_is(key_of: spec_fn(AppInfo) -> Seq<char>, k: Seq<char>) -> spec_fn(AppInfo) -> bool {
    |x: AppInfo| key_of(x) == k
}

/// Apps that share a key come in the same order in both lists.
pub open spec fn same_order_by(r: Seq<AppInfo>, apps: Seq<AppInfo>, key_of: spec_fn(AppInfo) -> Seq<char>) -> bool {
    forall|k: Seq<char>| #[trigger] r.filter(key_is(key_of, k)) == apps.filter(key_is(key_of, k))
}

/// The apps are in order of their keys by `key_of`.
pub open spec fn in_order_by(apps: Seq<AppInfo>, key_of: spec_fn(AppInfo) -> Seq<char>) -> bool {
    forall|i: int, j: int| 0 <= i < j < apps.len() ==> text_le(key_of(#[trigger] apps[i]), key_of(#[trigger] apps[j]))
}

/// Listing by name, ignoring case.
pub open spec fn by_name() -> spec_fn(AppInfo) -> Seq<char> {
    |a: AppInfo| sort_key(a)
}

/// Apps that share a name, ignoring case, come in the same order in both
/// lists.
pub open spec fn keeps_order_of_equals(r: Seq<AppInfo>, apps: Seq<AppInfo>) -> bool {
    same_order_by(r, apps, by_name())
}

proof fn lemma_filter_none(s: Seq<AppInfo>, pred: spec_fn(AppInfo) -> bool)
    requires
        forall|i: int| 0 <= i < s.len() ==> !pred(#[trigger] s[i]),
    ensures
        s.filter(pred) == Seq::<AppInfo>::empty(),
    decreases s.len(),
{
    reveal(Seq::filter);
    if s.len() > 0 {
        assert forall|i: int| 0 <= i < s.drop_last().len() implies !pred(#[trigger] s.drop_last()[i]) by {
            assert(s.drop_last()[i] == s[i]);
        }
        lemma_filter_none(s.drop_last(), pred);
    }
}

/// The apps are in listing order.
pub open spec fn listed_in_order(apps: Seq<AppInfo>) -> bool {
    in_order_by(apps, by_name())
}

fn text_le_exec(a: &Vec<char>, b: &Vec<char>) -> (r: bool)
    ensures
        r == text_le(a@, b@),
{
    let mut i: usize = 0;
    assert(a@.skip(0) =~= a@);
    assert(b@.skip(0) =~= b@);
    while i < a.len() && i < b.len() && (a[i] as u32) == (b[i] as u32)
        invariant
            i <= a.len(),
            i <= b.len(),
            text_le(a@, b@) == text_le(a@.skip(i as int), b@.skip(i as int)),
        decreases a.len() - i,
    {
        assert(a@.skip(i as int).drop_first() =~= a@.skip(i + 1));
        assert(b@.skip(i as int).drop_first() =~= b@.skip(i + 1));
        i = i + 1;
    }
    if i == a.len() {
        assert(a@.skip(i as int).len() == 0);
        return true;
    }
    if i == b.len() {
        assert(b@.skip(i as int).len() == 0);
        return false;
    }
    assert(a@.skip(i as int)[0] == a@[i as int]);
    assert(b@.skip(i as int)[0] == b@[i as int]);
    (a[i] as u32) < (b[i] as u32)
}

/// Sort apps by the keys given with them, `keys[i]` being `key_of` of
/// `apps[i]`. Apps with equal keys keep their order.
pub fn sort_by_keys(apps: Vec<AppInfo>, keys: Vec<Vec<char>>, Ghost(key_of): Ghost<spec_fn(AppInfo) -> Seq<char>>) -> (r: Vec<AppInfo>)
    requires
        keys@.len() == apps@.len(),
        forall|i: int| 0 <= i < keys@.len() ==> (#[trigger] keys@[i])@ == key_of(apps@[i]),
    ensures
        in_order_by(r@, key_of),
        same_order_by(r@, apps@, key_of),
        r@.to_multiset() == apps@.to_multiset(),
{
    broadcast use vstd::seq_lib::group_to_multiset_ensures;
    let ghost orig = apps@;
    let mut rest = apps;
    let mut rest_keys = keys;
    let mut out: Vec<AppInfo> = Vec::new();
    let mut keys: Vec<Vec<char>> = Vec::new();
    proof {
        assert forall|kk: Seq<char>| #[trigger] orig.filter(key_is(key_of, kk)) == out@.filter(key_is(key_of, kk)) + rest@.filter(key_is(key_of, kk)) by {
            reveal(Seq::filter);
            assert(out@.filter(key_is(key_of, kk)) + rest@.filter(key_is(key_of, kk)) =~= rest@.filter(key_is(key_of, kk)));
        }
    }
    while rest.len() > 0
        invariant
            keys@.len() == out@.len(),
            forall|i: int| 0 <= i < keys@.len() ==> (#[trigger] keys@[i])@ == key_of(out@[i]),
            rest_keys@.len() == rest@.len(),
            forall|i: int| 0 <= i < rest_keys@.len() ==> (#[trigger] rest_keys@[i])@ == key_of(rest@[i]),
            in_order_by(out@, key_of),
            out@.to_multiset().add(rest@.to_multiset()) == orig.to_multiset(),
            forall|kk: Seq<char>| #[trigger] orig.filter(key_is(key_of, kk)) == out@.filter(key_is(key_of, kk)) + rest@.filter(key_is(key_of, kk)),
        decreases rest.len(),
    {
        let ghost before_rest = rest@;
        let ghost before_rest_keys = rest_keys@;
        let a = rest.remove(0);
        let k = rest_keys.remove(0);
        assert(k@ == key_of(a));
        assert forall|i: int| 0 <= i < rest_keys@.len() implies (#[trigger] rest_keys@[i])@ == key_of(rest@[i]) by {
            assert(rest_keys@[i] == before_rest_keys[i + 1]);
            assert(rest@[i] == before_rest[i + 1]);
        }
        assert(before_rest =~= seq![a] + rest@);
        assert(rest@.to_multiset() == before_rest.to_multiset().remove(a)) by {
            vstd::seq_lib::to_multiset_remove(before_rest, 0);
            assert(before_rest.remove(0) =~= rest@);
        }
        assert(before_rest.to_multiset().count(a) > 0) by {
            assert(before_rest.contains(a));
            vstd::seq_lib::to_multiset_contains(before_rest, a);
        }
        let mut p: usize = 0;
        while p < out.len() && text_le_exec(&keys[p], &k)
            invariant
                p <= out@.len(),
                keys@.len() == out@.len(),
                forall|i: int| 0 <= i < p ==> text_le((#[trigger] keys@[i])@, k@),
            decreases out.len() - p,
        {
            p = p + 1;
        }
        proof {
            if p < out@.len() {
                assert(!text_le(keys@[p as int]@, k@));
                lemma_text_le_total(keys@[p as int]@, k@);
            }
            assert forall|j: int| p <= j < out@.len() implies text_le(k@, (#[trigger] keys@[j])@) by {
                if j > p {
                    assert(text_le(key_of(out@[p as int]), key_of(out@[j])));
                    lemma_text_le_trans(k@, keys@[p as int]@, keys@[j]@);
                }
            }
        }
        let ghost before_out = out@;
        let ghost before_keys = keys@;
        out.insert(p, a);
        keys.insert(p, k);
        proof {
            vstd::seq_lib::to_multiset_insert(before_out, p as int, a);
            assert forall|i: int, j: int| 0 <= i < j < out@.len() implies text_le(key_of(#[trigger] out@[i]), key_of(#[trigger] out@[j])) by {
                let ki = if i < p { before_keys[i] } else if i == p { k } else { before_keys[i - 1] };
                let kj = if j < p { before_keys[j] } else if j == p { k } else { before_keys[j - 1] };
                assert(key_of(out@[i]) == ki@);
                assert(key_of(out@[j]) == kj@);
                if i < p && j > p {
                    lemma_text_le_trans(ki@, k@, kj@);
                }
            }
            assert(out@.to_multiset().add(rest@.to_multiset()) =~= orig.to_multiset());
            lemma_insert_keeps_classes(before_out, before_keys, before_rest, rest@, p as int, a, k@, orig, key_of);
        }
    }
    proof {
        assert forall|kk: Seq<char>| #[trigger] out@.filter(key_is(key_of, kk)) == orig.filter(key_is(key_of, kk)) by {
            assert(rest@ =~= Seq::<AppInfo>::empty());
            reveal(Seq::filter);
            assert(out@.filter(key_is(key_of, kk)) + rest@.filter(key_is(key_of, kk)) =~= out@.filter(key_is(key_of, kk)));
        }
    }
    out
}

/// Sort apps by display name, ignoring case; apps whose names differ only
/// in case keep their order.
pub fn sort_apps(apps: Vec<AppInfo>) -> (r: Vec<AppInfo>)
    ensures
        listed_in_order(r@),
        keeps_order_of_equals(r@, apps@),
        r@.to_multiset() == apps@.to_multiset(),
{
    let mut keys: Vec<Vec<char>> = Vec::new();
    let mut i: usize = 0;
    while i < apps.len()
        invariant
            i <= apps@.len(),
            keys@.len() == i,
            forall|j: int| 0 <= j < i ==> (#[trigger] keys@[j])@ == by_name()(apps@[j]),
        decreases apps.len() - i,
    {
        let lower = to_lowercase(apps[i].name.as_str());
        keys.push(chars_of(lower.as_str()));
        i = i + 1;
    }
    sort_by_keys(apps, keys, Ghost(by_name()))
}

/// One insertion step of `sort_by_keys` keeps, key by key, the order in which
/// the apps were taken.
proof fn lemma_insert_keeps_classes(
    out: Seq<AppInfo>,
    keys: Seq<Vec<char>>,
    before_rest: Seq<AppInfo>,
    rest: Seq<AppInfo>,
    p: int,
    a: AppInfo,
    k: Seq<char>,
    orig: Seq<AppInfo>,
    key_of: spec_fn(AppInfo) -> Seq<char>,
)
    requires
        0 <= p <= out.len(),
        keys.len() == out.len(),
        forall|i: int| 0 <= i < keys.len() ==> (#[trigger] keys[i])@ == key_of(out[i]),
        in_order_by(out, key_of),
        k == key_of(a),
        p < out.len() ==> !text_le(keys[p]@, k),
        before_rest == seq![a] + rest,
        forall|kk: Seq<char>| #[trigger] orig.filter(key_is(key_of, kk)) == out.filter(key_is(key_of, kk)) + before_rest.filter(key_is(key_of, kk)),
    ensures
        forall|kk: Seq<char>| #[trigger] orig.filter(key_is(key_of, kk)) == out.insert(p, a).filter(key_is(key_of, kk)) + rest.filter(key_is(key_of, kk)),
{
    broadcast use Seq::filter_distributes_over_add, Seq::lemma_filter_prepend;
    let head = out.take(p);
    let tail = out.skip(p);
    assert(out =~= head + tail);
    assert(out.insert(p, a) =~= head + seq![a] + tail);
    assert forall|j: int| 0 <= j < tail.len() implies key_of(#[trigger] tail[j]) != k by {
        assert(tail[j] == out[p + j]);
        if key_of(out[p + j]) == k {
            lemma_text_le_refl(k);
            if j > 0 {
                assert(text_le(key_of(out[p]), key_of(out[p + j])));
                lemma_text_le_trans(keys[p]@, k, k);
            }
        }
    }
    assert forall|kk: Seq<char>| #[trigger] orig.filter(key_is(key_of, kk)) == out.insert(p, a).filter(key_is(key_of, kk)) + rest.filter(key_is(key_of, kk)) by {
        let f = key_is(key_of, kk);
        assert(out.insert(p, a).filter(f) == (head + seq![a]).filter(f) + tail.filter(f));
        assert((head + seq![a]).filter(f) == head.filter(f) + seq![a].filter(f));
        assert(out.filter(f) == head.filter(f) + tail.filter(f));
        assert(before_rest.filter(f) == (if f(a) { seq![a] } else { Seq::empty() }) + rest.filter(f));
        reveal_with_fuel(Seq::filter, 2);
        if kk == k {
            assert forall|j: int| 0 <= j < tail.len() implies !f(#[trigger] tail[j]) by {}
            lemma_filter_none(tail, f);
            assert(seq![a].drop_last() =~= Seq::<AppInfo>::empty());
            assert(seq![a].filter(f) =~= seq![a]);
            assert(orig.filter(f) =~= out.insert(p, a).filter(f) + rest.filter(f));
        } else {
            assert(seq![a].drop_last() =~= Seq::<AppInfo>::empty());
            assert(seq![a].filter(f) =~= Seq::<AppInfo>::empty());
            assert(orig.filter(f) =~= out.insert(p, a).filter(f) + rest.filter(f));
        }
    }
}

} // verus!
