//! Reading the snoop stream: which devices to watch, and what a report says.
//!
//! Both halves are pure. A report is decoded only against the layouts the
//! opened device declares, a report ID in front is never read as payload,
//! and a layout that does not fit says nothing rather than something wrong.

use vstd::prelude::*;
use crate::text::{chars_of, decimal, join, join_strings, lemma_map_push, prefixed_hex, hex,
    push_char, push_decimal, push_hex, push_prefixed_hex, push_signed, push_str, signed_decimal};

verus! {

/// A `VID:PID` pair to watch, as typed on the command line.
#[derive(Debug, Clone, Copy, PartialEq, Eq, Structural)]
pub struct DeviceFilter {
    pub vendor_id: u16,
    pub product_id: u16,
}

impl DeviceFilter {
    pub fn matches(&self, vendor_id: u16, product_id: u16) -> (r: bool)
        ensures
            r == (self.vendor_id == vendor_id && self.product_id == product_id),
    {
        self.vendor_id == vendor_id && self.product_id == product_id
    }
}

/// The characters `char::is_whitespace` accepts: Unicode `White_Space`.
pub open spec fn is_white(c: char) -> bool {
    let n = c as u32;
    (9 <= n <= 13) || n == 0x20 || n == 0x85 || n == 0xA0 || n == 0x1680
        || (0x2000 <= n <= 0x200A) || n == 0x2028 || n == 0x2029 || n == 0x202F
        || n == 0x205F || n == 0x3000
}

/// `s` without its leading white space.
pub open spec fn trim_start(s: Seq<char>) -> Seq<char>
    decreases s.len(),
{
    if s.len() > 0 && is_white(s[0]) {
        trim_start(s.drop_first())
    } else {
        s
    }
}

/// `s` without its trailing white space.
pub open spec fn trim_end(s: Seq<char>) -> Seq<char>
    decreases s.len(),
{
    if s.len() > 0 && is_white(s.last()) {
        trim_end(s.drop_last())
    } else {
        s
    }
}

/// `s` with every leading repetition of `0` followed by `x` removed, as
/// `trim_start_matches("0x")` does.
pub open spec fn strip_prefix_runs(s: Seq<char>, x: char) -> Seq<char>
    decreases s.len(),
{
    if s.len() >= 2 && s[0] == '0' && s[1] == x {
        strip_prefix_runs(s.subrange(2, s.len() as int), x)
    } else {
        s
    }
}

/// The value of one hex digit, either case.
pub open spec fn hex_digit_value(c: char) -> Option<nat> {
    let n = c as u32;
    if 48 <= n <= 57 {
        Some((n - 48) as nat)
    } else if 97 <= n <= 102 {
        Some((n - 87) as nat)
    } else if 65 <= n <= 70 {
        Some((n - 55) as nat)
    } else {
        None
    }
}

/// The number a run of hex digits spells.
pub open spec fn hex_number(ds: Seq<char>) -> nat
    decreases ds.len(),
{
    if ds.len() == 0 {
        0
    } else {
        hex_number(ds.drop_last()) * 16 + match hex_digit_value(ds.last()) {
            Some(d) => d,
            None => 0,
        }
    }
}

/// The digits after an optional leading `+`.
pub open spec fn unsigned_digits(t: Seq<char>) -> Seq<char> {
    if t.len() > 0 && t[0] == '+' {
        t.drop_first()
    } else {
        t
    }
}

/// Every character is a hex digit.
pub open spec fn all_hex(ds: Seq<char>) -> bool {
    forall|i: int| 0 <= i < ds.len() ==> (#[trigger] hex_digit_value(ds[i])).is_some()
}

/// What `u16::from_str_radix(t, 16)` accepts: an optional `+`, then one or
/// more hex digits whose value fits in 16 bits.
pub open spec fn parsed_u16_hex(t: Seq<char>) -> Option<u16> {
    let ds = unsigned_digits(t);
    if ds.len() > 0 && all_hex(ds) && hex_number(ds) < 0x10000 {
        Some(hex_number(ds) as u16)
    } else {
        None
    }
}

/// One side of `VID:PID`: trimmed, `0x` / `0X` prefixes dropped, read as hex.
pub open spec fn hex_id(part: Seq<char>) -> Option<u16> {
    parsed_u16_hex(strip_prefix_runs(strip_prefix_runs(trim_end(trim_start(part)), 'x'), 'X'))
}

/// `k` is where the first `:` of `s` stands.
pub open spec fn first_colon(s: Seq<char>, k: int) -> bool {
    0 <= k < s.len() && s[k] == ':' && forall|j: int| 0 <= j < k ==> s[j] != ':'
}

pub open spec fn no_pair_message(s: Seq<char>) -> Seq<char> {
    "expected VID:PID, got `"@ + s + "`"@
}

pub open spec fn bad_id_message(part: Seq<char>) -> Seq<char> {
    "`"@ + part + "` is not a 16-bit hex id"@
}

/// The filter a command-line spelling names, or the message refusing it.
pub open spec fn filter_parse(s: Seq<char>) -> Result<DeviceFilter, Seq<char>> {
    if !(exists|k: int| first_colon(s, k)) {
        Err(no_pair_message(s))
    } else {
        let k = choose|k: int| first_colon(s, k);
        let v = s.take(k);
        let p = s.skip(k + 1);
        match (hex_id(v), hex_id(p)) {
            (Some(a), Some(b)) => Ok(DeviceFilter { vendor_id: a, product_id: b }),
            (None, _) => Err(bad_id_message(v)),
            (Some(_), None) => Err(bad_id_message(p)),
        }
    }
}

/// The characters `v[a..b]`.
fn slice_chars(v: &Vec<char>, a: usize, b: usize) -> (r: Vec<char>)
    requires
        a <= b <= v.len(),
    ensures
        r@ == v@.subrange(a as int, b as int),
{
    let mut out: Vec<char> = Vec::new();
    let mut i: usize = a;
    while i < b
        invariant
            a <= i <= b <= v.len(),
            out@ == v@.subrange(a as int, i as int),
        decreases b - i,
    {
        out.push(v[i]);
        assert(v@.subrange(a as int, i + 1) =~= v@.subrange(a as int, i as int).push(v@[i as int]));
        i = i + 1;
    }
    out
}

fn white(c: char) -> (r: bool)
    ensures
        r == is_white(c),
{
    let n: u32 = c as u32;
    (9 <= n && n <= 13) || n == 0x20 || n == 0x85 || n == 0xA0 || n == 0x1680
        || (0x2000 <= n && n <= 0x200A) || n == 0x2028 || n == 0x2029 || n == 0x202F
        || n == 0x205F || n == 0x3000
}

/// `str::trim` on characters.
fn trim_chars(s: &Vec<char>) -> (r: Vec<char>)
    ensures
        r@ == trim_end(trim_start(s@)),
{
    let mut a: usize = 0;
    assert(s@.skip(0) =~= s@);
    while a < s.len() && white(s[a])
        invariant
            a <= s.len(),
            trim_start(s@) == trim_start(s@.skip(a as int)),
        decreases s.len() - a,
    {
        assert(s@.skip(a as int).drop_first() =~= s@.skip(a + 1));
        a = a + 1;
    }
    let t = slice_chars(s, a, s.len());
    assert(t@ =~= s@.skip(a as int));
    let mut b: usize = t.len();
    assert(t@.take(b as int) =~= t@);
    while b > 0 && white(t[b - 1])
        invariant
            b <= t.len(),
            trim_end(t@) == trim_end(t@.take(b as int)),
        decreases b,
    {
        assert(t@.take(b as int).drop_last() =~= t@.take(b - 1));
        b = b - 1;
    }
    let r = slice_chars(&t, 0, b);
    assert(r@ =~= t@.take(b as int));
    r
}

proof fn lemma_strip_step(t: Seq<char>, x: char)
    requires
        t.len() >= 2,
        t[0] == '0',
        t[1] == x,
    ensures
        strip_prefix_runs(t, x) == strip_prefix_runs(t.subrange(2, t.len() as int), x),
{
}

proof fn lemma_strip_stop(t: Seq<char>, x: char)
    requires
        !(t.len() >= 2 && t[0] == '0' && t[1] == x),
    ensures
        strip_prefix_runs(t, x) == t,
{
}

/// `trim_start_matches` of `0` followed by `x`.
fn strip_runs(s: &Vec<char>, x: char) -> (r: Vec<char>)
    ensures
        r@ == strip_prefix_runs(s@, x),
{
    let mut a: usize = 0;
    assert(s@.skip(0) =~= s@);
    while s.len() - a >= 2 && s[a] == '0' && s[a + 1] == x
        invariant
            a <= s.len(),
            strip_prefix_runs(s@, x) == strip_prefix_runs(s@.skip(a as int), x),
        decreases s.len() - a,
    {
        let ghost t = s@.skip(a as int);
        assert(t.subrange(2, t.len() as int) =~= s@.skip(a + 2));
        proof {
            lemma_strip_step(t, x);
        }
        a = a + 2;
    }
    proof {
        lemma_strip_stop(s@.skip(a as int), x);
    }
    let r = slice_chars(s, a, s.len());
    assert(r@ =~= s@.skip(a as int));
    r
}

fn digit_value(c: char) -> (r: Option<u32>)
    ensures
        match (r, hex_digit_value(c)) {
            (Some(a), Some(b)) => a == b && a < 16,
            (None, None) => true,
            _ => false,
        },
{
    let n: u32 = c as u32;
    if 48 <= n && n <= 57 {
        Some(n - 48)
    } else if 97 <= n && n <= 102 {
        Some(n - 87)
    } else if 65 <= n && n <= 70 {
        Some(n - 55)
    } else {
        None
    }
}

/// `u16::from_str_radix(t, 16)` on characters.
pub fn parse_u16_hex(t: &Vec<char>) -> (r: Option<u16>)
    ensures
        r == parsed_u16_hex(t@),
{
    let start: usize = if t.len() > 0 && t[0] == '+' { 1 } else { 0 };
    let ds = slice_chars(t, start, t.len());
    assert(ds@ =~= unsigned_digits(t@));
    if ds.len() == 0 {
        return None;
    }
    let mut acc: u32 = 0;
    let mut too_big = false;
    let mut i: usize = 0;
    while i < ds.len()
        invariant
            i <= ds.len(),
            ds@ == unsigned_digits(t@),
            forall|j: int| 0 <= j < i ==> (#[trigger] hex_digit_value(ds@[j])).is_some(),
            too_big == (hex_number(ds@.take(i as int)) >= 0x10000),
            !too_big ==> acc == hex_number(ds@.take(i as int)),
            acc < 0x10000,
        decreases ds.len() - i,
    {
        assert(ds@.take(i + 1).drop_last() =~= ds@.take(i as int));
        match digit_value(ds[i]) {
            None => {
                assert(hex_digit_value(ds@[i as int]).is_none());
                assert(!all_hex(ds@));
                return None;
            },
            Some(d) => {
                if !too_big {
                    let next: u32 = acc * 16 + d;
                    if next >= 0x10000 {
                        too_big = true;
                        acc = 0;
                    } else {
                        acc = next;
                    }
                }
            },
        }
        i = i + 1;
    }
    assert(ds@.take(ds.len() as int) =~= ds@);
    if too_big {
        None
    } else {
        Some(acc as u16)
    }
}

fn parse_hex_id(part: &Vec<char>) -> (r: Option<u16>)
    ensures
        r == hex_id(part@),
{
    let t = trim_chars(part);
    let a = strip_runs(&t, 'x');
    let b = strip_runs(&a, 'X');
    parse_u16_hex(&b)
}

fn bad_id(part: &Vec<char>) -> (r: String)
    ensures
        r@ == bad_id_message(part@),
{
    let mut s = String::new();
    push_str(&mut s, "`");
    let mut i: usize = 0;
    while i < part.len()
        invariant
            i <= part.len(),
            s@ == "`"@ + part@.take(i as int),
        decreases part.len() - i,
    {
        push_char(&mut s, part[i]);
        assert("`"@ + part@.take(i + 1) =~= ("`"@ + part@.take(i as int)).push(part@[i as int]));
        i = i + 1;
    }
    push_str(&mut s, "` is not a 16-bit hex id");
    assert(part@.take(part.len() as int) =~= part@);
    assert(s@ =~= bad_id_message(part@));
    s
}

/// Parse `514c:8850` (or `0x514c:0x8850`) into a filter.
pub fn parse_device_filter(spec: &str) -> (r: Result<DeviceFilter, String>)
    ensures
        match (r, filter_parse(spec@)) {
            (Ok(f), Ok(g)) => f == g,
            (Err(e), Err(m)) => e@ == m,
            _ => false,
        },
{
    let s = chars_of(spec);
    let mut k: usize = 0;
    while k < s.len() && s[k] != ':'
        invariant
            k <= s.len(),
            s@ == spec@,
            forall|j: int| 0 <= j < k ==> s@[j] != ':',
        decreases s.len() - k,
    {
        k = k + 1;
    }
    if k == s.len() {
        let mut m = String::new();
        push_str(&mut m, "expected VID:PID, got `");
        push_str(&mut m, spec);
        push_str(&mut m, "`");
        assert(m@ =~= no_pair_message(spec@));
        return Err(m);
    }
    assert(first_colon(s@, k as int));
    proof {
        let c = choose|c: int| first_colon(s@, c);
        if c < k {
            assert(s@[c] != ':');
        }
        if c > k {
            assert(s@[k as int] != ':');
        }
        assert(c == k);
    }
    let v = slice_chars(&s, 0, k);
    let p = slice_chars(&s, k + 1, s.len());
    assert(v@ =~= s@.take(k as int));
    assert(p@ =~= s@.skip(k + 1));
    let a = match parse_hex_id(&v) {
        Some(a) => a,
        None => {
            return Err(bad_id(&v));
        },
    };
    let b = match parse_hex_id(&p) {
        Some(b) => b,
        None => {
            return Err(bad_id(&p));
        },
    };
    Ok(DeviceFilter { vendor_id: a, product_id: b })
}

/// True when no filter was given (watch everything supported) or one of
/// them names this device.
pub fn wanted(filters: &Vec<DeviceFilter>, vendor_id: u16, product_id: u16) -> (r: bool)
    ensures
        r == (filters.len() == 0 || exists|i: int| 0 <= i < filters.len()
            && (#[trigger] filters@[i]).vendor_id == vendor_id && filters@[i].product_id == product_id),
{
    if filters.len() == 0 {
        return true;
    }
    let mut i: usize = 0;
    while i < filters.len()
        invariant
            i <= filters.len(),
            forall|j: int| 0 <= j < i ==> !((#[trigger] filters@[j]).vendor_id == vendor_id
                && filters@[j].product_id == product_id),
        decreases filters.len() - i,
    {
        if filters[i].matches(vendor_id, product_id) {
            return true;
        }
        i = i + 1;
    }
    false
}

/// The short name of one top-level collection. An unknown pair keeps its
/// hex rather than being dropped.
pub open spec fn collection_name_of(page: u16, usage: u16) -> Seq<char> {
    if page == 0x0001 && usage == 0x0001 {
        "pointer"@
    } else if page == 0x0001 && usage == 0x0002 {
        "mouse"@
    } else if page == 0x0001 && usage == 0x0006 {
        "kbd"@
    } else if page == 0x0001 && usage == 0x0080 {
        "sysctl"@
    } else if page == 0x000C && usage == 0x0001 {
        "consumer"@
    } else if page >= 0xFF00 {
        "vendor:"@ + prefixed_hex(page as nat, 4) + "/"@ + prefixed_hex(usage as nat, 2)
    } else {
        prefixed_hex(page as nat, 4) + "/"@ + prefixed_hex(usage as nat, 2)
    }
}

/// Short name for one top-level collection, for the snoop header.
pub fn collection_name(usage_page: u16, usage: u16) -> (r: String)
    ensures
        r@ == collection_name_of(usage_page, usage),
{
    if usage_page == 0x0001 && usage == 0x0001 {
        String::from_str("pointer")
    } else if usage_page == 0x0001 && usage == 0x0002 {
        String::from_str("mouse")
    } else if usage_page == 0x0001 && usage == 0x0006 {
        String::from_str("kbd")
    } else if usage_page == 0x0001 && usage == 0x0080 {
        String::from_str("sysctl")
    } else if usage_page == 0x000C && usage == 0x0001 {
        String::from_str("consumer")
    } else {
        let mut s = String::new();
        if usage_page >= 0xFF00 {
            push_str(&mut s, "vendor:");
        }
        push_prefixed_hex(&mut s, usage_page as u64, 4);
        push_str(&mut s, "/");
        push_prefixed_hex(&mut s, usage as u64, 2);
        assert(s@ =~= collection_name_of(usage_page, usage));
        s
    }
}

/// `names` with each run of equal neighbours cut to one, as `Vec::dedup`.
pub open spec fn dedup_runs(names: Seq<Seq<char>>) -> Seq<Seq<char>>
    decreases names.len(),
{
    if names.len() == 0 {
        names
    } else {
        let d = dedup_runs(names.drop_last());
        if d.len() > 0 && d.last() == names.last() {
            d
        } else {
            d.push(names.last())
        }
    }
}

pub open spec fn collections_text(usages: Seq<(u16, u16)>) -> Seq<char> {
    join(dedup_runs(usages.map_values(|p: (u16, u16)| collection_name_of(p.0, p.1))), " "@)
}

/// The collection set as one readable phrase.
pub fn collections_label(usages: &Vec<(u16, u16)>) -> (r: String)
    ensures
        r@ == collections_text(usages@),
{
    let ghost names = usages@.map_values(|p: (u16, u16)| collection_name_of(p.0, p.1));
    let mut kept: Vec<String> = Vec::new();
    let mut i: usize = 0;
    while i < usages.len()
        invariant
            i <= usages.len(),
            names == usages@.map_values(|p: (u16, u16)| collection_name_of(p.0, p.1)),
            kept@.map_values(|s: String| s@) == dedup_runs(names.take(i as int)),
        decreases usages.len() - i,
    {
        let (p, u) = usages[i];
        let name = collection_name(p, u);
        assert(names.take(i + 1).drop_last() =~= names.take(i as int));
        assert(names.take(i + 1).last() == name@);
        let n = kept.len();
        let same = n > 0 && kept[n - 1] == name;
        if !same {
            let ghost before = kept@;
            kept.push(name);
            proof {
                lemma_map_push(before, name, |s: String| s@);
            }
        }
        i = i + 1;
    }
    assert(names.take(usages.len() as int) =~= names);
    join_strings(&kept, " ")
}

/// The consumer-page usages this hardware emits, by usage id.
pub open spec fn consumer_name_of(usage: nat) -> Option<Seq<char>> {
    if usage == 0x00B5 {
        Some("scan next track"@)
    } else if usage == 0x00B6 {
        Some("scan previous track"@)
    } else if usage == 0x00B7 {
        Some("stop"@)
    } else if usage == 0x00CD {
        Some("play/pause"@)
    } else if usage == 0x00E2 {
        Some("mute"@)
    } else if usage == 0x00E9 {
        Some("volume up"@)
    } else if usage == 0x00EA {
        Some("volume down"@)
    } else if usage == 0x006F {
        Some("brightness up"@)
    } else if usage == 0x0070 {
        Some("brightness down"@)
    } else {
        None
    }
}

fn consumer_name(usage: u16) -> (r: Option<&'static str>)
    ensures
        match (r, consumer_name_of(usage as nat)) {
            (Some(a), Some(b)) => a@ == b,
            (None, None) => true,
            _ => false,
        },
{
    if usage == 0x00B5 {
        Some("scan next track")
    } else if usage == 0x00B6 {
        Some("scan previous track")
    } else if usage == 0x00B7 {
        Some("stop")
    } else if usage == 0x00CD {
        Some("play/pause")
    } else if usage == 0x00E2 {
        Some("mute")
    } else if usage == 0x00E9 {
        Some("volume up")
    } else if usage == 0x00EA {
        Some("volume down")
    } else if usage == 0x006F {
        Some("brightness up")
    } else if usage == 0x0070 {
        Some("brightness down")
    } else {
        None
    }
}

/// A word for each set bit, in bit order, from a table of eight or fewer.
pub open spec fn flag_words(bits: u8, table: Seq<(u8, Seq<char>)>) -> Seq<Seq<char>>
    decreases table.len(),
{
    if table.len() == 0 {
        Seq::empty()
    } else {
        let rest = flag_words(bits, table.drop_last());
        if bits & table.last().0 != 0 {
            rest.push(table.last().1)
        } else {
            rest
        }
    }
}

pub open spec fn modifier_table() -> Seq<(u8, Seq<char>)> {
    seq![(0x01u8, "ctrl"@), (0x02u8, "shift"@), (0x04u8, "alt"@), (0x08u8, "cmd"@),
        (0x10u8, "r-ctrl"@), (0x20u8, "r-shift"@), (0x40u8, "r-alt"@), (0x80u8, "r-cmd"@)]
}

pub open spec fn button_table() -> Seq<(u8, Seq<char>)> {
    seq![(0x01u8, "left"@), (0x02u8, "right"@), (0x04u8, "middle"@)]
}

/// Appends the word for a flag bit when it is set.
fn push_flag(out: &mut Vec<String>, bits: u8, bit: u8, word: &str, Ghost(table): Ghost<Seq<(u8, Seq<char>)>>)
    requires
        table.len() > 0,
        table.last() == (bit, word@),
        old(out)@.map_values(|s: String| s@) == flag_words(bits, table.drop_last()),
    ensures
        final(out)@.map_values(|s: String| s@) == flag_words(bits, table),
{
    if bits & bit != 0 {
        let w = String::from_str(word);
        let ghost before = out@;
        out.push(w);
        proof {
            lemma_map_push(before, w, |s: String| s@);
        }
    }
}

fn modifier_names(mods: u8) -> (r: Vec<String>)
    ensures
        r@.map_values(|s: String| s@) == flag_words(mods, modifier_table()),
{
    let ghost t = modifier_table();
    let mut out: Vec<String> = Vec::new();
    assert(out@.map_values(|s: String| s@) =~= flag_words(mods, t.take(0)));
    assert(t.take(1).drop_last() =~= t.take(0));
    push_flag(&mut out, mods, 0x01, "ctrl", Ghost(t.take(1)));
    assert(t.take(2).drop_last() =~= t.take(1));
    push_flag(&mut out, mods, 0x02, "shift", Ghost(t.take(2)));
    assert(t.take(3).drop_last() =~= t.take(2));
    push_flag(&mut out, mods, 0x04, "alt", Ghost(t.take(3)));
    assert(t.take(4).drop_last() =~= t.take(3));
    push_flag(&mut out, mods, 0x08, "cmd", Ghost(t.take(4)));
    assert(t.take(5).drop_last() =~= t.take(4));
    push_flag(&mut out, mods, 0x10, "r-ctrl", Ghost(t.take(5)));
    assert(t.take(6).drop_last() =~= t.take(5));
    push_flag(&mut out, mods, 0x20, "r-shift", Ghost(t.take(6)));
    assert(t.take(7).drop_last() =~= t.take(6));
    push_flag(&mut out, mods, 0x40, "r-alt", Ghost(t.take(7)));
    assert(t.take(8).drop_last() =~= t.take(7));
    push_flag(&mut out, mods, 0x80, "r-cmd", Ghost(t.take(8)));
    assert(t.take(8) =~= t);
    out
}

fn button_names(buttons: u8) -> (r: Vec<String>)
    ensures
        r@.map_values(|s: String| s@) == flag_words(buttons, button_table()),
{
    let ghost t = button_table();
    let mut out: Vec<String> = Vec::new();
    assert(out@.map_values(|s: String| s@) =~= flag_words(buttons, t.take(0)));
    assert(t.take(1).drop_last() =~= t.take(0));
    push_flag(&mut out, buttons, 0x01, "left", Ghost(t.take(1)));
    assert(t.take(2).drop_last() =~= t.take(1));
    push_flag(&mut out, buttons, 0x02, "right", Ghost(t.take(2)));
    assert(t.take(3).drop_last() =~= t.take(2));
    push_flag(&mut out, buttons, 0x04, "middle", Ghost(t.take(3)));
    assert(t.take(3) =~= t);
    out
}

/// The non-zero keycodes of a keyboard report, two hex digits each.
pub open spec fn key_words(keys: Seq<u8>) -> Seq<Seq<char>>
    decreases keys.len(),
{
    if keys.len() == 0 {
        Seq::empty()
    } else {
        let rest = key_words(keys.drop_last());
        if keys.last() != 0 {
            rest.push(hex(keys.last() as nat, 2))
        } else {
            rest
        }
    }
}

/// A byte read as two's-complement `i8`.
pub open spec fn signed_byte(b: u8) -> int {
    if b < 128 {
        b as int
    } else {
        b - 256
    }
}

/// The report body: `buf` without its first byte when it is exactly one
/// longer than the layout's body, so that byte is a report ID.
pub open spec fn report_body(buf: Seq<u8>, expected_len: nat) -> Seq<u8> {
    if buf.len() == expected_len + 1 {
        buf.drop_first()
    } else {
        buf
    }
}

pub open spec fn consumer_note(code: nat) -> Seq<char> {
    if code == 0 {
        "<-- consumer release"@
    } else {
        match consumer_name_of(code) {
            Some(name) => "<-- consumer "@ + prefixed_hex(code, 4) + " ("@ + name + ")"@,
            None => "<-- consumer "@ + prefixed_hex(code, 4),
        }
    }
}

/// `buf` decoded as one collection's layout, or nothing when it does not fit.
pub open spec fn decoded_as(page: u16, usage: u16, buf: Seq<u8>) -> Seq<char> {
    if page == 0x000C {
        let body = report_body(buf, 2);
        if body.len() != 2 {
            Seq::empty()
        } else {
            consumer_note((body[0] + body[1] * 256) as nat)
        }
    } else if page == 0x0001 && usage == 0x0006 {
        let body = report_body(buf, 8);
        if body.len() != 8 || body[1] != 0 {
            Seq::empty()
        } else {
            "<-- keyboard mods=["@ + join(flag_words(body[0], modifier_table()), "+"@) + "] keys=["@
                + join(key_words(body.subrange(2, 8)), " "@) + "]"@
        }
    } else if page == 0x0001 && usage == 0x0002 {
        let body = report_body(buf, 3);
        if !(3 <= body.len() <= 4) {
            Seq::empty()
        } else {
            "<-- mouse buttons=["@ + join(flag_words(body[0], button_table()), "+"@) + "] dx="@
                + signed_decimal(signed_byte(body[1])) + " dy="@ + signed_decimal(signed_byte(body[2]))
                + " wheel="@ + signed_decimal(if body.len() == 4 { signed_byte(body[3]) } else { 0 })
        }
    } else if page == 0xFF00 && buf.len() > 2 && buf[0] == 0x03 && 16 <= buf[2] <= 27 {
        "<-- vendor slot key_id="@ + decimal(buf[2] as nat)
    } else {
        Seq::empty()
    }
}

/// Whether the device declares this collection. On the generic desktop
/// page the usage must match too; elsewhere the page alone decides.
pub open spec fn declares(usages: Seq<(u16, u16)>, page: u16, usage: u16) -> bool {
    exists|i: int| 0 <= i < usages.len() && (#[trigger] usages[i]).0 == page
        && (page != 0x0001 || usages[i].1 == usage)
}

/// What one layout makes of the report, when the device declares it.
pub open spec fn layout_note(usages: Seq<(u16, u16)>, page: u16, usage: u16, buf: Seq<u8>) -> Seq<char> {
    if declares(usages, page, usage) {
        decoded_as(page, usage, buf)
    } else {
        Seq::empty()
    }
}

/// The note beside a hex dump: the first declared layout, most specific
/// first (vendor, consumer, keyboard, mouse), that reads the report.
pub open spec fn decoded_input(usages: Seq<(u16, u16)>, buf: Seq<u8>) -> Seq<char> {
    let vendor = layout_note(usages, 0xFF00, 0x0001, buf);
    let consumer = layout_note(usages, 0x000C, 0x0001, buf);
    let keyboard = layout_note(usages, 0x0001, 0x0006, buf);
    let mouse = layout_note(usages, 0x0001, 0x0002, buf);
    if vendor.len() > 0 {
        vendor
    } else if consumer.len() > 0 {
        consumer
    } else if keyboard.len() > 0 {
        keyboard
    } else {
        mouse
    }
}

fn key_list(body: &Vec<u8>, off: usize) -> (r: Vec<String>)
    requires
        off + 8 <= body.len(),
    ensures
        r@.map_values(|s: String| s@) == key_words(body@.subrange(off + 2, off + 8)),
{
    let ghost keys = body@.subrange(off + 2, off + 8);
    let mut out: Vec<String> = Vec::new();
    let mut i: usize = 0;
    while i < 6
        invariant
            i <= 6,
            off + 8 <= body.len(),
            keys == body@.subrange(off + 2, off + 8),
            out@.map_values(|s: String| s@) == key_words(keys.take(i as int)),
        decreases 6 - i,
    {
        let k: u8 = body[off + 2 + i];
        assert(keys.take(i + 1).drop_last() =~= keys.take(i as int));
        assert(keys.take(i + 1).last() == k);
        if k != 0 {
            let mut w = String::new();
            push_hex(&mut w, k as u64, 2);
            assert(w@ =~= hex(k as nat, 2));
            let ghost before = out@;
            out.push(w);
            proof {
                lemma_map_push(before, w, |s: String| s@);
            }
        }
        i = i + 1;
    }
    assert(keys.take(6) =~= keys);
    out
}

fn signed_value(b: u8) -> (r: i64)
    ensures
        r == signed_byte(b),
{
    if b < 128 {
        b as i64
    } else {
        b as i64 - 256
    }
}

/// Decode `buf` as one specific collection's layout, or "" if it does not fit.
fn decode_as(usage_page: u16, usage: u16, buf: &Vec<u8>) -> (r: String)
    ensures
        r@ == decoded_as(usage_page, usage, buf@),
{
    if usage_page == 0x000C {
        let off: usize = if buf.len() == 3 { 1 } else { 0 };
        let ghost body = report_body(buf@, 2);
        assert(body =~= buf@.subrange(off as int, buf.len() as int));
        if buf.len() - off != 2 {
            return String::new();
        }
        let code: u32 = buf[off] as u32 + buf[off + 1] as u32 * 256;
        let mut s = String::new();
        if code == 0 {
            push_str(&mut s, "<-- consumer release");
            return s;
        }
        push_str(&mut s, "<-- consumer ");
        push_prefixed_hex(&mut s, code as u64, 4);
        match consumer_name(code as u16) {
            Some(name) => {
                push_str(&mut s, " (");
                push_str(&mut s, name);
                push_str(&mut s, ")");
            },
            None => {},
        }
        assert(s@ =~= consumer_note(code as nat));
        s
    } else if usage_page == 0x0001 && usage == 0x0006 {
        let off: usize = if buf.len() == 9 { 1 } else { 0 };
        let ghost body = report_body(buf@, 8);
        assert(body =~= buf@.subrange(off as int, buf.len() as int));
        if buf.len() - off != 8 || buf[off + 1] != 0 {
            return String::new();
        }
        assert(body.subrange(2, 8) =~= buf@.subrange(off + 2, off + 8));
        let mods = modifier_names(buf[off]);
        let keys = key_list(buf, off);
        let mut s = String::new();
        push_str(&mut s, "<-- keyboard mods=[");
        let m = join_strings(&mods, "+");
        push_str(&mut s, m.as_str());
        push_str(&mut s, "] keys=[");
        let k = join_strings(&keys, " ");
        push_str(&mut s, k.as_str());
        push_str(&mut s, "]");
        assert(s@ =~= decoded_as(usage_page, usage, buf@));
        s
    } else if usage_page == 0x0001 && usage == 0x0002 {
        let off: usize = if buf.len() == 4 { 1 } else { 0 };
        let ghost body = report_body(buf@, 3);
        assert(body =~= buf@.subrange(off as int, buf.len() as int));
        let blen: usize = buf.len() - off;
        if !(3 <= blen && blen <= 4) {
            return String::new();
        }
        let names = button_names(buf[off]);
        let mut s = String::new();
        push_str(&mut s, "<-- mouse buttons=[");
        let n = join_strings(&names, "+");
        push_str(&mut s, n.as_str());
        push_str(&mut s, "] dx=");
        push_signed(&mut s, signed_value(buf[off + 1]));
        push_str(&mut s, " dy=");
        push_signed(&mut s, signed_value(buf[off + 2]));
        push_str(&mut s, " wheel=");
        let wheel: i64 = if blen == 4 { signed_value(buf[off + 3]) } else { 0 };
        push_signed(&mut s, wheel);
        assert(s@ =~= decoded_as(usage_page, usage, buf@));
        s
    } else if usage_page == 0xFF00 && buf.len() > 2 && buf[0] == 0x03 && 16 <= buf[2] && buf[2] <= 27 {
        let mut s = String::new();
        push_str(&mut s, "<-- vendor slot key_id=");
        push_decimal(&mut s, buf[2] as u128);
        s
    } else {
        String::new()
    }
}

fn declared(usages: &Vec<(u16, u16)>, page: u16, usage: u16) -> (r: bool)
    ensures
        r == declares(usages@, page, usage),
{
    let mut i: usize = 0;
    while i < usages.len()
        invariant
            i <= usages.len(),
            forall|j: int| 0 <= j < i ==> !((#[trigger] usages@[j]).0 == page
                && (page != 0x0001 || usages@[j].1 == usage)),
        decreases usages.len() - i,
    {
        let (p, u) = usages[i];
        if p == page && (page != 0x0001 || u == usage) {
            return true;
        }
        i = i + 1;
    }
    false
}

fn try_layout(usages: &Vec<(u16, u16)>, page: u16, usage: u16, buf: &Vec<u8>) -> (r: String)
    ensures
        r@ == layout_note(usages@, page, usage, buf@),
{
    if declared(usages, page, usage) {
        decode_as(page, usage, buf)
    } else {
        String::new()
    }
}

/// Best-effort note beside the hex dump. Never fails; an unknown layout
/// gives an empty string rather than a confident wrong reading. `usages`
/// is every top-level collection the opened device declares.
pub fn decode_input(usages: &Vec<(u16, u16)>, buf: &Vec<u8>) -> (r: String)
    ensures
        r@ == decoded_input(usages@, buf@),
{
    let vendor = try_layout(usages, 0xFF00, 0x0001, buf);
    if vendor.as_str().unicode_len() > 0 {
        return vendor;
    }
    let consumer = try_layout(usages, 0x000C, 0x0001, buf);
    if consumer.as_str().unicode_len() > 0 {
        return consumer;
    }
    let keyboard = try_layout(usages, 0x0001, 0x0006, buf);
    if keyboard.as_str().unicode_len() > 0 {
        return keyboard;
    }
    try_layout(usages, 0x0001, 0x0002, buf)
}

} // verus!
