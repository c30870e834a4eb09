//! A JSON value as plain data, and reading members out of an object. The
//! text is parsed by the caller.

use vstd::prelude::*;
use crate::text::same_text;

verus! {

/// A JSON value. A number keeps the text it was written with.
#[derive(Debug, PartialEq, Eq)]
pub enum Json {
    Null,
    Bool(bool),
    Number(String),
    Str(String),
    Array(Vec<Json>),
    /// Members in order.
    Object(Vec<(String, Json)>),
}

/// The value of the first member named `key`.
pub open spec fn first_member(ms: Seq<(String, Json)>, key: Seq<char>) -> Option<Json>
    decreases ms.len(),
{
    if ms.len() == 0 {
        None
    } else if ms[0].0@ == key {
        Some(ms[0].1)
    } else {
        first_member(ms.drop_first(), key)
    }
}

/// The member `key` of `j` when `j` is an object that has one.
pub open spec fn member(j: Json, key: Seq<char>) -> Option<Json> {
    match j {
        Json::Object(ms) => first_member(ms@, key),
        _ => None,
    }
}

/// The member `key` of an optional value.
pub open spec fn member_of(j: Option<Json>, key: Seq<char>) -> Option<Json> {
    match j {
        Some(v) => member(v, key),
        None => None,
    }
}

/// The text of a value that is a string, else the empty text.
pub open spec fn text_or_empty(j: Option<Json>) -> Seq<char> {
    match j {
        Some(Json::Str(s)) => s@,
        _ => Seq::empty(),
    }
}

/// The keys are pairwise different.
pub open spec fn distinct_keys(keys: Seq<&str>) -> bool {
    forall|a: int, b: int| 0 <= a < b < keys.len() ==> keys[a]@ != keys[b]@
}

/// Take the members named `keys` out of `j`: for each key, the value of its
/// first member, or `None` when `j` is not an object or has no such member.
pub fn take_members(j: Json, keys: &Vec<&str>) -> (r: Vec<Option<Json>>)
    requires
        distinct_keys(keys@),
    ensures
        r@.len() == keys@.len(),
        forall|t: int| 0 <= t < keys@.len() ==> #[trigger] r@[t] == member(j, keys@[t]@),
{
    let mut out: Vec<Option<Json>> = Vec::new();
    let mut t: usize = 0;
    while t < keys.len()
        invariant
            t <= keys@.len(),
            out@.len() == t,
            forall|u: int| 0 <= u < t ==> out@[u] is None,
        decreases keys.len() - t,
    {
        out.push(None);
        t = t + 1;
    }
    let ghost whole = j;
    let mut rest = match j {
        Json::Object(ms) => ms,
        _ => {
            return out;
        },
    };
    let ghost orig = rest@;
    assert(forall|key: Seq<char>| #[trigger] member(whole, key) == first_member(orig, key));
    while rest.len() > 0
        invariant
            distinct_keys(keys@),
            out@.len() == keys@.len(),
            forall|key: Seq<char>| #[trigger] member(whole, key) == first_member(orig, key),
            forall|u: int| 0 <= u < keys@.len() ==> {
                &&& (out@[u] is Some ==> out@[u] == first_member(orig, keys@[u]@))
                &&& (out@[u] is None ==> first_member(orig, keys@[u]@) == first_member(rest@, keys@[u]@))
            },
        decreases rest.len(),
    {
        let ghost before = rest@;
        let (k, v) = rest.remove(0);
        assert(rest@ =~= before.drop_first());
        let mut u: usize = 0;
        let mut found: Option<usize> = None;
        while u < keys.len()
            invariant
                u <= keys@.len(),
                found matches Some(f) ==> f < u && keys@[f as int]@ == k@,
                found is None ==> forall|w: int| 0 <= w < u ==> keys@[w]@ != k@,
            decreases keys.len() - u,
        {
            if found.is_none() && same_text(k.as_str(), keys[u]) {
                found = Some(u);
            }
            u = u + 1;
        }
        let ghost before_out = out@;
        match found {
            Some(f) => {
                if out[f].is_none() {
                    out.set(f, Some(v));
                }
            },
            None => {},
        }
        assert forall|w: int| 0 <= w < keys@.len() implies {
            &&& (out@[w] is Some ==> out@[w] == first_member(orig, keys@[w]@))
            &&& (out@[w] is None ==> first_member(orig, keys@[w]@) == first_member(rest@, keys@[w]@))
        } by {
            if found is Some {
                let f = found->0 as int;
                if w != f {
                    if w < f {
                        assert(keys@[w]@ != keys@[f]@);
                    } else {
                        assert(keys@[f]@ != keys@[w]@);
                    }
                }
            }
        }
    }
    assert forall|w: int| 0 <= w < keys@.len() implies #[trigger] out@[w] == member(whole, keys@[w]@) by {
        assert(member(whole, keys@[w]@) == first_member(orig, keys@[w]@));
    }
    out
}

} // verus!
