//! The settings window drives the hardware through the command-line tool:
//! the arguments it passes, and how it reads the tool's output back.
//! Running the tool is the caller's.

use vstd::prelude::*;
use crate::device::snoop::is_white;
use crate::text::{chars_of, decimal, push_char, push_decimal, push_str};

verus! {

/// The characters of `t` after its last line feed (all of `t` if it has
/// none).
pub open spec fn after_last_newline(t: Seq<char>) -> Seq<char>
    decreases t.len(),
{
    if t.len() == 0 {
        t
    } else if t.last() == '\n' {
        Seq::empty()
    } else {
        after_last_newline(t.drop_last()).push(t.last())
    }
}

/// The last of `str::lines`: lines end at `\n` or `\r\n`, the final line
/// ending is optional, and a string with no characters has no lines.
pub open spec fn last_line_of(s: Seq<char>) -> Option<Seq<char>> {
    if s.len() == 0 {
        None
    } else if s.last() == '\n' {
        let seg = after_last_newline(s.drop_last());
        Some(if seg.len() > 0 && seg.last() == '\r' { seg.drop_last() } else { seg })
    } else {
        Some(after_last_newline(s))
    }
}

/// The words of `s` as `str::split_whitespace` gives them: the maximal runs
/// of characters that are not white space, in order.
pub open spec fn words_of(s: Seq<char>) -> Seq<Seq<char>>
    decreases s.len(),
{
    if s.len() == 0 {
        Seq::empty()
    } else {
        let w = words_of(s.drop_last());
        let c = s.last();
        if is_white(c) {
            w
        } else if s.len() >= 2 && !is_white(s[s.len() - 2]) && w.len() > 0 {
            w.drop_last().push(w.last().push(c))
        } else {
            w.push(seq![c])
        }
    }
}

/// What a failed run of the tool says: the last line it wrote, standard
/// error after standard output, or a fixed text when it wrote nothing.
pub open spec fn failure_text(stdout: Seq<char>, stderr: Seq<char>) -> Seq<char> {
    match last_line_of(stderr) {
        Some(l) => l,
        None => match last_line_of(stdout) {
            Some(l) => l,
            None => "unknown CLI error"@,
        },
    }
}

/// What a finished upload reports: the tool's last line, or a fixed text.
pub open spec fn upload_summary_text(out: Seq<char>) -> Seq<char> {
    match last_line_of(out) {
        Some(l) => l,
        None => "upload complete"@,
    }
}

/// The arguments that flash `yaml`, only layer `layer` if one is given.
pub open spec fn upload_args_of(yaml: Seq<char>, layer: Option<u8>) -> Seq<Seq<char>> {
    seq!["upload"@, yaml] + match layer {
        Some(l) => seq!["--layer"@, decimal(l as nat)],
        None => Seq::empty(),
    }
}

/// The arguments that set layer `layer`'s LED to `spec`, one per word.
pub open spec fn led_args_of(layer: u8, spec: Seq<char>) -> Seq<Seq<char>> {
    seq!["led"@, decimal(layer as nat)] + words_of(spec)
}

/// The views of a list of strings.
pub open spec fn string_views(v: Seq<String>) -> Seq<Seq<char>> {
    v.map_values(|s: String| s@)
}

fn string_of(v: &Vec<char>, lo: usize, hi: usize) -> (r: String)
    requires
        lo <= hi <= v.len(),
    ensures
        r@ == v@.subrange(lo as int, hi as int),
{
    let mut s = String::new();
    let mut i: usize = lo;
    while i < hi
        invariant
            lo <= i <= hi <= v.len(),
            s@ == v@.subrange(lo as int, i as int),
        decreases hi - i,
    {
        push_char(&mut s, v[i]);
        assert(v@.subrange(lo as int, i + 1) =~= v@.subrange(lo as int, i as int).push(v@[i as int]));
        i = i + 1;
    }
    s
}

/// The last line of `s`, as `s.lines().last()` gives it.
pub fn last_line(s: &str) -> (r: Option<String>)
    ensures
        match r {
            Some(l) => last_line_of(s@) == Some(l@),
            None => last_line_of(s@) is None,
        },
{
    let v = chars_of(s);
    let n = v.len();
    if n == 0 {
        return None;
    }
    let end: usize = if v[n - 1] == '\n' { n - 1 } else { n };
    let ghost t = v@.take(end as int);
    let mut k: usize = end;
    assert(v@.subrange(end as int, end as int) =~= Seq::<char>::empty());
    assert(v@.take(end as int) =~= t);
    while k > 0 && v[k - 1] != '\n'
        invariant
            k <= end <= n == v@.len(),
            t == v@.take(end as int),
            after_last_newline(t) == after_last_newline(v@.take(k as int)) + v@.subrange(k as int, end as int),
        decreases k,
    {
        let ghost tk = v@.take(k as int);
        assert(tk.drop_last() =~= v@.take(k - 1));
        assert(tk.last() == v@[k - 1]);
        assert(v@.subrange(k - 1, end as int) =~= seq![v@[k - 1]] + v@.subrange(k as int, end as int));
        assert(after_last_newline(tk) == after_last_newline(v@.take(k - 1)).push(v@[k - 1]));
        assert(after_last_newline(v@.take(k - 1)).push(v@[k - 1]) + v@.subrange(k as int, end as int)
            =~= after_last_newline(v@.take(k - 1)) + v@.subrange(k - 1, end as int));
        k = k - 1;
    }
    assert(after_last_newline(v@.take(k as int)) =~= Seq::<char>::empty()) by {
        if k > 0 {
            assert(v@.take(k as int).last() == v@[k - 1]);
        }
    }
    assert(after_last_newline(t) =~= v@.subrange(k as int, end as int));
    if end < n {
        assert(v@.drop_last() =~= t);
        if k < end && v[end - 1] == '\r' {
            assert(v@.subrange(k as int, end as int).drop_last() =~= v@.subrange(k as int, end - 1));
            Some(string_of(&v, k, end - 1))
        } else {
            Some(string_of(&v, k, end))
        }
    } else {
        assert(v@.take(n as int) =~= v@);
        Some(string_of(&v, k, end))
    }
}

/// What a failed run of the tool reports.
pub fn cli_failure(stdout: &str, stderr: &str) -> (r: String)
    ensures
        r@ == failure_text(stdout@, stderr@),
{
    match last_line(stderr) {
        Some(l) => l,
        None => match last_line(stdout) {
            Some(l) => l,
            None => String::from_str("unknown CLI error"),
        },
    }
}

/// What a finished upload reports.
pub fn upload_summary(out: &str) -> (r: String)
    ensures
        r@ == upload_summary_text(out@),
{
    match last_line(out) {
        Some(l) => l,
        None => String::from_str("upload complete"),
    }
}

/// The arguments that flash `yaml`, only layer `layer` if one is given.
pub fn upload_args(yaml: &str, layer: Option<u8>) -> (r: Vec<String>)
    ensures
        string_views(r@) == upload_args_of(yaml@, layer),
{
    let mut args: Vec<String> = Vec::new();
    args.push(String::from_str("upload"));
    args.push(String::from_str(yaml));
    match layer {
        Some(l) => {
            args.push(String::from_str("--layer"));
            let mut n = String::new();
            push_decimal(&mut n, l as u128);
            args.push(n);
        },
        None => {},
    }
    assert(string_views(args@) =~= upload_args_of(yaml@, layer));
    args
}

/// The arguments that set layer `layer`'s LED to `spec`, one per word.
pub fn led_args(layer: u8, spec: &str) -> (r: Vec<String>)
    ensures
        string_views(r@) == led_args_of(layer, spec@),
{
    let mut args: Vec<String> = Vec::new();
    args.push(String::from_str("led"));
    let mut n = String::new();
    push_decimal(&mut n, layer as u128);
    args.push(n);
    let v = chars_of(spec);
    let mut words: Vec<String> = Vec::new();
    let mut cur = String::new();
    let mut i: usize = 0;
    assert(v@.take(0) =~= Seq::<char>::empty());
    while i < v.len()
        invariant
            i <= v@.len(),
            v@ == spec@,
            i > 0 && !is_white(v@[i - 1]) ==> cur@.len() > 0
                && string_views(words@).push(cur@) == words_of(v@.take(i as int)),
            !(i > 0 && !is_white(v@[i - 1])) ==> cur@.len() == 0 && string_views(words@) == words_of(v@.take(i as int)),
        decreases v.len() - i,
    {
        let c = v[i];
        let ghost ti = v@.take(i + 1);
        assert(ti.drop_last() =~= v@.take(i as int));
        assert(ti.last() == c);
        if is_white_char(c) {
            if cur.unicode_len() > 0 {
                let ghost before = words@;
                let done = cur;
                words.push(done);
                cur = String::new();
                proof {
                    assert(string_views(words@) =~= string_views(before).push(done@));
                }
            }
        } else {
            let ghost before_cur = cur@;
            push_char(&mut cur, c);
            proof {
                if i > 0 && !is_white(v@[i - 1]) {
                    assert(ti[i - 1] == v@[i - 1]);
                    let w = words_of(v@.take(i as int));
                    assert(w == string_views(words@).push(before_cur));
                    assert(w.drop_last() =~= string_views(words@));
                    assert(string_views(words@).push(cur@) =~= w.drop_last().push(w.last().push(c)));
                } else {
                    if i > 0 {
                        assert(ti[i - 1] == v@[i - 1]);
                    }
                    assert(before_cur.len() == 0);
                    assert(cur@ =~= seq![c]);
                }
            }
        }
        i = i + 1;
    }
    assert(v@.take(v@.len() as int) =~= v@);
    if cur.unicode_len() > 0 {
        let ghost before = words@;
        let done = cur;
        words.push(done);
        proof {
            assert(string_views(words@) =~= string_views(before).push(done@));
        }
    }
    let ghost head = args@;
    let mut j: usize = 0;
    while j < words.len()
        invariant
            j <= words@.len(),
            string_views(args@) == string_views(head) + string_views(words@).take(j as int),
            string_views(head) == seq!["led"@, decimal(layer as nat)],
        decreases words.len() - j,
    {
        let w = String::from_str(words[j].as_str());
        let ghost before = args@;
        args.push(w);
        proof {
            assert(string_views(args@) =~= string_views(before).push(w@));
            assert(string_views(words@).take(j + 1) =~= string_views(words@).take(j as int).push(words@[j as int]@));
        }
        j = j + 1;
    }
    assert(string_views(words@).take(words@.len() as int) =~= string_views(words@));
    assert(string_views(head) =~= seq!["led"@, decimal(layer as nat)]);
    args
}

/// Whether `c` is white space, as `char::is_whitespace` decides.
fn is_white_char(c: char) -> (r: bool)
    ensures
        r == is_white(c),
{
    let n = c as u32;
    (9 <= n && n <= 13) || n == 0x20 || n == 0x85 || n == 0xA0 || n == 0x1680
        || (0x2000 <= n && n <= 0x200A) || n == 0x2028 || n == 0x2029 || n == 0x202F
        || n == 0x205F || n == 0x3000
}

} // verus!
