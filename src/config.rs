use crate::text::{
    is_blank, lemma_next_newline_bounds, line_end, next_newline, skip_blanks, skip_blanks_from,
    trim_end, trim_end_from, NEWLINE, SPACE,
};
use vstd::prelude::*;
use vstd::slice::slice_to_vec;

verus! {

/// Byte value of `'='`.
pub const EQUALS: u8 = 61;

/// Byte value of `'"'`.
pub const DOUBLE_QUOTE: u8 = 34;

/// Byte value of `'\''`.
pub const SINGLE_QUOTE: u8 = 39;

/// An ASCII letter in lower case; other bytes stay as they are.
pub open spec fn ascii_lower(b: u8) -> u8 {
    if 65 <= b <= 90 {
        (b + 32) as u8
    } else {
        b
    }
}

/// The key that names a profile's interface, in lower case.
pub open spec fn interface_key() -> Seq<u8> {
    seq![105u8, 110u8, 116u8, 101u8, 114u8, 102u8, 97u8, 99u8, 101u8]
}

/// The line starts with the key, in any case.
pub open spec fn starts_with_key(line: Seq<u8>) -> bool {
    &&& line.len() >= interface_key().len()
    &&& forall|k: int|
        0 <= k < interface_key().len() ==> ascii_lower(#[trigger] line[k]) == interface_key()[k]
}

/// A value without one pair of enclosing quotes, double or single.
pub open spec fn unquote(v: Seq<u8>) -> Seq<u8> {
    if v.len() >= 2 && (v[0] == DOUBLE_QUOTE || v[0] == SINGLE_QUOTE) && v[v.len() - 1] == v[0] {
        v.subrange(1, v.len() - 1)
    } else {
        v
    }
}

/// The value of a line `Interface = value`: the key in any case, blanks
/// around `=`, the value trimmed and unquoted. Other lines give nothing.
pub open spec fn interface_line(line: Seq<u8>) -> Option<Seq<u8>> {
    if starts_with_key(line) {
        let eq = skip_blanks(line, interface_key().len() as int);
        if eq < line.len() && line[eq] == EQUALS {
            let lo = skip_blanks(line, eq + 1);
            let hi = trim_end(line, lo, line.len() as int);
            Some(unquote(line.subrange(lo, hi)))
        } else {
            None
        }
    } else {
        None
    }
}

/// The value of the first interface line from the line at `i` on.
pub open spec fn interface_from(s: Seq<u8>, i: int) -> Option<Seq<u8>>
    decreases s.len() - i,
    via interface_from_decreases
{
    if i < 0 || i >= s.len() {
        None
    } else {
        let e = next_newline(s, i);
        match interface_line(s.subrange(i, e)) {
            Some(v) => Some(v),
            None => if e < s.len() {
                interface_from(s, e + 1)
            } else {
                None
            },
        }
    }
}

#[via_fn]
proof fn interface_from_decreases(s: Seq<u8>, i: int) {
    if 0 <= i < s.len() {
        lemma_next_newline_bounds(s, i);
    }
}

/// The interface a profile file names: the value of its first interface line.
pub open spec fn interface_of(config: Seq<u8>) -> Option<Seq<u8>> {
    interface_from(config, 0)
}

/// The key as profile files usually write it, `Interface`.
pub open spec fn capital_key() -> Seq<u8> {
    seq![73u8, 110u8, 116u8, 101u8, 114u8, 102u8, 97u8, 99u8, 101u8]
}

/// A plain interface name: not empty, without blanks, newlines or quotes.
pub open spec fn plain_name(v: Seq<u8>) -> bool {
    &&& v.len() > 0
    &&& forall|k: int|
        0 <= k < v.len() ==> !is_blank(#[trigger] v[k]) && v[k] != NEWLINE && v[k]
            != DOUBLE_QUOTE && v[k] != SINGLE_QUOTE
}

/// The line `Interface=v`.
pub open spec fn bare_form(v: Seq<u8>) -> Seq<u8> {
    capital_key() + seq![EQUALS] + v
}

/// The line `Interface = "v"`.
pub open spec fn double_quoted_form(v: Seq<u8>) -> Seq<u8> {
    capital_key() + seq![SPACE, EQUALS, SPACE, DOUBLE_QUOTE] + v + seq![DOUBLE_QUOTE]
}

/// The line `interface='v'`.
pub open spec fn single_quoted_form(v: Seq<u8>) -> Seq<u8> {
    interface_key() + seq![EQUALS, SINGLE_QUOTE] + v + seq![SINGLE_QUOTE]
}

/// A file of one line without a newline reads as that line.
proof fn lemma_one_line(line: Seq<u8>)
    requires
        line.len() > 0,
        forall|k: int| 0 <= k < line.len() ==> #[trigger] line[k] != NEWLINE,
    ensures
        interface_of(line) == interface_line(line),
{
    lemma_next_newline_bounds(line, 0);
    assert(line.subrange(0, line.len() as int) =~= line);
}

/// A line that starts with a key in any case, spelled out letter by letter.
proof fn lemma_key_prefix(line: Seq<u8>, key: Seq<u8>)
    requires
        key == capital_key() || key == interface_key(),
        line.len() >= 9,
        line.subrange(0, 9) == key,
    ensures
        starts_with_key(line),
{
    assert forall|k: int| 0 <= k < interface_key().len() implies ascii_lower(#[trigger] line[k])
        == interface_key()[k] by {
        assert(line[k] == line.subrange(0, 9)[k]);
        if k == 0 {
        } else if k == 1 {
        } else if k == 2 {
        } else if k == 3 {
        } else if k == 4 {
        } else if k == 5 {
        } else if k == 6 {
        } else if k == 7 {
        } else {
        }
    }
}

/// The three ways of writing the interface line, `Interface=v`,
/// `Interface = "v"` and `interface='v'`, all name the interface `v`: the key
/// matches in any case, blanks around `=` are passed over, and the quotes are
/// dropped.
pub proof fn lemma_interface_forms(v: Seq<u8>)
    requires
        plain_name(v),
    ensures
        interface_of(bare_form(v)) == Some(v),
        interface_of(double_quoted_form(v)) == Some(v),
        interface_of(single_quoted_form(v)) == Some(v),
{
    let n = v.len() as int;
    let a = bare_form(v);
    assert(a.subrange(0, 9) =~= capital_key());
    lemma_key_prefix(a, capital_key());
    assert(a[9] == EQUALS);
    assert(a[10] == v[0]);
    assert(a[a.len() - 1] == v[n - 1]);
    assert(skip_blanks(a, 9) == 9);
    assert(skip_blanks(a, 10) == 10);
    assert(trim_end(a, 10, a.len() as int) == a.len());
    assert(a.subrange(10, a.len() as int) =~= v);
    assert(forall|k: int| 0 <= k < a.len() ==> #[trigger] a[k] != NEWLINE) by {
        assert forall|k: int| 0 <= k < a.len() implies #[trigger] a[k] != NEWLINE by {
            if k >= 10 {
                assert(a[k] == v[k - 10]);
            }
        }
    }
    lemma_one_line(a);

    let b = double_quoted_form(v);
    assert(b.subrange(0, 9) =~= capital_key());
    lemma_key_prefix(b, capital_key());
    assert(b[9] == SPACE && b[10] == EQUALS && b[11] == SPACE && b[12] == DOUBLE_QUOTE);
    assert(b[b.len() - 1] == DOUBLE_QUOTE);
    assert(skip_blanks(b, 10) == 10);
    assert(skip_blanks(b, 9) == 10);
    assert(skip_blanks(b, 12) == 12);
    assert(skip_blanks(b, 11) == 12);
    assert(trim_end(b, 12, b.len() as int) == b.len());
    let bq = b.subrange(12, b.len() as int);
    assert(bq.subrange(1, bq.len() - 1) =~= v);
    assert(forall|k: int| 0 <= k < b.len() ==> #[trigger] b[k] != NEWLINE) by {
        assert forall|k: int| 0 <= k < b.len() implies #[trigger] b[k] != NEWLINE by {
            if 13 <= k < 13 + n {
                assert(b[k] == v[k - 13]);
            }
        }
    }
    lemma_one_line(b);

    let c = single_quoted_form(v);
    assert(c.subrange(0, 9) =~= interface_key());
    lemma_key_prefix(c, interface_key());
    assert(c[9] == EQUALS && c[10] == SINGLE_QUOTE);
    assert(c[c.len() - 1] == SINGLE_QUOTE);
    assert(skip_blanks(c, 9) == 9);
    assert(skip_blanks(c, 10) == 10);
    assert(trim_end(c, 10, c.len() as int) == c.len());
    let cq = c.subrange(10, c.len() as int);
    assert(cq.subrange(1, cq.len() - 1) =~= v);
    assert(forall|k: int| 0 <= k < c.len() ==> #[trigger] c[k] != NEWLINE) by {
        assert forall|k: int| 0 <= k < c.len() implies #[trigger] c[k] != NEWLINE by {
            if 11 <= k < 11 + n {
                assert(c[k] == v[k - 11]);
            }
        }
    }
    lemma_one_line(c);
}

fn lower_byte(b: u8) -> (r: u8)
    ensures
        r == ascii_lower(b),
{
    if 65 <= b && b <= 90 {
        b + 32
    } else {
        b
    }
}

fn line_starts_with_key(line: &[u8]) -> (r: bool)
    ensures
        r == starts_with_key(line@),
{
    let key: [u8; 9] = [105, 110, 116, 101, 114, 102, 97, 99, 101];
    assert(key@ == interface_key());
    if line.len() < 9 {
        return false;
    }
    let mut k: usize = 0;
    while k < 9
        invariant
            k <= 9 <= line@.len(),
            key@ == interface_key(),
            forall|m: int| 0 <= m < k ==> ascii_lower(#[trigger] line@[m]) == interface_key()[m],
        decreases 9 - k,
    {
        if lower_byte(line[k]) != key[k] {
            return false;
        }
        k = k + 1;
    }
    true
}

/// Reads the interface from one line of a profile file.
pub fn parse_interface_line(line: &[u8]) -> (r: Option<Vec<u8>>)
    ensures
        match r {
            Some(v) => interface_line(line@) == Some(v@),
            None => interface_line(line@) is None,
        },
{
    if !line_starts_with_key(line) {
        return None;
    }
    let eq = skip_blanks_from(line, 9);
    if eq >= line.len() || line[eq] != EQUALS {
        return None;
    }
    let lo = skip_blanks_from(line, eq + 1);
    let hi = trim_end_from(line, lo, line.len());
    let value = &line[lo..hi];
    if value.len() >= 2 && (value[0] == DOUBLE_QUOTE || value[0] == SINGLE_QUOTE) && value[
    value.len() - 1] == value[0] {
        Some(slice_to_vec(&value[1..value.len() - 1]))
    } else {
        Some(slice_to_vec(value))
    }
}

/// Finds the interface a profile file names, from its contents: the value of
/// the first line `Interface = value`, where the key may be in any case,
/// blanks may stand around `=`, and the value may be quoted.
pub fn profile_interface(config: &[u8]) -> (r: Option<Vec<u8>>)
    ensures
        match r {
            Some(v) => interface_of(config@) == Some(v@),
            None => interface_of(config@) is None,
        },
{
    let mut i: usize = 0;
    while i < config.len()
        invariant
            i <= config@.len(),
            interface_from(config@, i as int) == interface_of(config@),
        decreases config@.len() - i,
    {
        let e = line_end(config, i);
        match parse_interface_line(&config[i..e]) {
            Some(v) => {
                return Some(v);
            },
            None => {},
        }
        if e >= config.len() {
            return None;
        }
        i = e + 1;
    }
    None
}

} // verus!
