use crate::config::{
    bare_form, double_quoted_form, interface_of, lemma_interface_forms, plain_name,
    profile_interface, single_quoted_form,
};
use crate::text::{
    lemma_next_newline_bounds, lemma_skip_blanks_bounds, lemma_skip_word_bounds, line_end,
    next_newline, skip_blanks, skip_blanks_from, skip_word, skip_word_from,
};
use vstd::prelude::*;

verus! {

/// Lines at the top of the wireless statistics table that hold no interface.
pub const HEADER_LINES: usize = 2;

/// Largest link quality a wireless interface reports.
pub const MAX_LINK_QUALITY: u8 = 70;

pub open spec fn is_digit(b: u8) -> bool {
    48 <= b <= 57
}

pub open spec fn all_digits(v: Seq<u8>) -> bool {
    forall|k: int| 0 <= k < v.len() ==> is_digit(#[trigger] v[k])
}

/// The number that a string of decimal digits writes.
pub open spec fn digits_value(v: Seq<u8>) -> int
    decreases v.len(),
{
    if v.len() == 0 {
        0
    } else {
        digits_value(v.drop_last()) * 10 + (v.last() - 48)
    }
}

/// A word without its last byte when that byte is not a digit.
pub open spec fn strip_suffix(v: Seq<u8>) -> Seq<u8> {
    if v.len() > 0 && !is_digit(v.last()) {
        v.drop_last()
    } else {
        v
    }
}

/// The quality a column holds, such as `45.`: digits with one optional
/// trailing mark, for a value up to the largest link quality.
pub open spec fn quality_text(v: Seq<u8>) -> Option<int> {
    let d = strip_suffix(v);
    if d.len() > 0 && all_digits(d) && digits_value(d) <= MAX_LINK_QUALITY {
        Some(digits_value(d))
    } else {
        None
    }
}

/// Where column `n` of a row starts; columns are separated by blanks.
pub open spec fn column_start(l: Seq<u8>, n: nat) -> int
    decreases n,
{
    if n == 0 {
        skip_blanks(l, 0)
    } else {
        skip_blanks(l, skip_word(l, column_start(l, (n - 1) as nat)))
    }
}

/// Column `n` of a row, empty when the row has fewer columns.
pub open spec fn column(l: Seq<u8>, n: nat) -> Seq<u8> {
    l.subrange(column_start(l, n), skip_word(l, column_start(l, n)))
}

/// The row's first column starts with the interface name.
pub open spec fn row_matches(l: Seq<u8>, iface: Seq<u8>) -> bool {
    let c = column(l, 0);
    c.len() > 0 && iface.len() <= c.len() && c.subrange(0, iface.len() as int) == iface
}

/// The link quality of a row: its third column.
pub open spec fn row_quality(l: Seq<u8>) -> Option<int> {
    quality_text(column(l, 2))
}

/// The quality on the first row from the line at `i` on that names the
/// interface, once `headers` lines are passed over.
pub open spec fn quality_from(s: Seq<u8>, i: int, headers: nat, iface: Seq<u8>) -> Option<int>
    decreases s.len() - i,
    via quality_from_decreases
{
    if i < 0 || i >= s.len() {
        None
    } else {
        let e = next_newline(s, i);
        let line = s.subrange(i, e);
        if headers == 0 && row_matches(line, iface) {
            row_quality(line)
        } else if e < s.len() {
            quality_from(
                s,
                e + 1,
                if headers > 0 {
                    (headers - 1) as nat
                } else {
                    0
                },
                iface,
            )
        } else {
            None
        }
    }
}

#[via_fn]
proof fn quality_from_decreases(s: Seq<u8>, i: int, headers: nat, iface: Seq<u8>) {
    if 0 <= i < s.len() {
        lemma_next_newline_bounds(s, i);
    }
}

/// The link quality that the statistics table gives an interface: the
/// quality on the first row below the header whose first column starts with
/// the interface name. Nothing when no row names it or that row is malformed.
pub open spec fn link_quality_of(table: Seq<u8>, iface: Seq<u8>) -> Option<int> {
    quality_from(table, 0, HEADER_LINES as nat, iface)
}

/// The strength of a profile's connection: the link quality of the
/// interface its file names, 0 when it names none or the table lacks it.
pub open spec fn strength_of(config: Seq<u8>, table: Seq<u8>) -> int {
    match interface_of(config) {
        Some(iface) => if iface.len() > 0 {
            match link_quality_of(table, iface) {
                Some(q) => q,
                None => 0,
            }
        } else {
            0
        },
        None => 0,
    }
}

/// The strength of a profile whose file holds `Interface=v`,
/// `Interface = "v"` or `interface='v'` is the link quality the table gives
/// `v`, or 0 when it gives none.
pub proof fn lemma_strength_of_forms(v: Seq<u8>, table: Seq<u8>)
    requires
        plain_name(v),
    ensures
        strength_of(bare_form(v), table) == (match link_quality_of(table, v) {
            Some(q) => q,
            None => 0,
        }),
        strength_of(double_quoted_form(v), table) == strength_of(bare_form(v), table),
        strength_of(single_quoted_form(v), table) == strength_of(bare_form(v), table),
{
    lemma_interface_forms(v);
}

/// A prefix of a digit string writes a number no larger than the whole.
pub proof fn lemma_digits_prefix(v: Seq<u8>, k: int)
    requires
        all_digits(v),
        0 <= k <= v.len(),
    ensures
        0 <= digits_value(v.take(k)) <= digits_value(v),
    decreases v.len(),
{
    if k < v.len() {
        let w = v.drop_last();
        assert(all_digits(w));
        assert(w.take(k) =~= v.take(k));
        lemma_digits_prefix(w, k);
    } else {
        assert(v.take(k) =~= v);
        if v.len() > 0 {
            let w = v.drop_last();
            assert(all_digits(w));
            assert(w.take(w.len() as int) =~= w);
            lemma_digits_prefix(w, w.len() as int);
        }
    }
}

/// Every column starts within the row.
pub proof fn lemma_column_start_bounds(l: Seq<u8>, n: nat)
    ensures
        0 <= column_start(l, n) <= l.len(),
    decreases n,
{
    if n == 0 {
        lemma_skip_blanks_bounds(l, 0);
    } else {
        lemma_column_start_bounds(l, (n - 1) as nat);
        let a = column_start(l, (n - 1) as nat);
        lemma_skip_word_bounds(l, a);
        lemma_skip_blanks_bounds(l, skip_word(l, a));
    }
}

fn is_digit_byte(b: u8) -> (r: bool)
    ensures
        r == is_digit(b),
{
    48 <= b && b <= 57
}

/// Reads a quality column such as `45.`.
pub fn parse_quality(word: &[u8]) -> (r: Option<u8>)
    ensures
        match r {
            Some(q) => quality_text(word@) == Some(q as int),
            None => quality_text(word@) is None,
        },
        r matches Some(q) ==> q <= MAX_LINK_QUALITY,
{
    let mut end: usize = word.len();
    if end > 0 && !is_digit_byte(word[end - 1]) {
        end = end - 1;
    }
    if end == 0 {
        return None;
    }
    let d = &word[0..end];
    assert(d@ == strip_suffix(word@));
    let mut acc: u8 = 0;
    let mut k: usize = 0;
    while k < end
        invariant
            k <= end == d@.len(),
            d@ == strip_suffix(word@),
            all_digits(d@.take(k as int)),
            acc == digits_value(d@.take(k as int)),
            acc <= MAX_LINK_QUALITY,
        decreases end - k,
    {
        if !is_digit_byte(d[k]) {
            return None;
        }
        let next: u32 = acc as u32 * 10 + (d[k] - 48) as u32;
        assert(d@.take(k + 1).drop_last() =~= d@.take(k as int));
        assert(digits_value(d@.take(k + 1)) == next);
        if next > 70 {
            proof {
                if all_digits(d@) {
                    lemma_digits_prefix(d@, k + 1);
                }
            }
            return None;
        }
        acc = next as u8;
        k = k + 1;
        assert(all_digits(d@.take(k as int)));
    }
    assert(d@.take(end as int) =~= d@);
    Some(acc)
}

/// Finds where column `n` of a row starts and ends.
fn column_bounds(l: &[u8], n: usize) -> (r: (usize, usize))
    ensures
        r.0 == column_start(l@, n as nat),
        r.1 == skip_word(l@, column_start(l@, n as nat)),
        r.0 <= r.1 <= l@.len(),
{
    let mut a = skip_blanks_from(l, 0);
    let mut k: usize = 0;
    while k < n
        invariant
            k <= n,
            a == column_start(l@, k as nat),
            a <= l@.len(),
        decreases n - k,
    {
        let w = skip_word_from(l, a);
        a = skip_blanks_from(l, w);
        k = k + 1;
    }
    let b = skip_word_from(l, a);
    (a, b)
}

/// Reads the link quality from a row of the statistics table: its third
/// column, such as `45.`.
pub fn quality_of_row(row: &[u8]) -> (r: Option<u8>)
    ensures
        match r {
            Some(q) => row_quality(row@) == Some(q as int),
            None => row_quality(row@) is None,
        },
        r matches Some(q) ==> q <= MAX_LINK_QUALITY,
{
    let (a, b) = column_bounds(row, 2);
    parse_quality(&row[a..b])
}

/// Tells whether a row's first column starts with the interface name.
pub fn row_names_interface(row: &[u8], interface: &[u8]) -> (r: bool)
    ensures
        r == row_matches(row@, interface@),
{
    let (a, b) = column_bounds(row, 0);
    let c = &row[a..b];
    assert(c@ == column(row@, 0));
    if c.len() == 0 || interface.len() > c.len() {
        return false;
    }
    let mut k: usize = 0;
    while k < interface.len()
        invariant
            k <= interface@.len() <= c@.len(),
            c@ == column(row@, 0),
            forall|m: int| 0 <= m < k ==> c@[m] == interface@[m],
        decreases interface@.len() - k,
    {
        if c[k] != interface[k] {
            assert(c@.subrange(0, interface@.len() as int)[k as int] != interface@[k as int]);
            assert(c@.subrange(0, interface@.len() as int) != interface@);
            return false;
        }
        k = k + 1;
    }
    assert(c@.subrange(0, interface@.len() as int) =~= interface@);
    true
}

/// Finds the link quality of an interface in the wireless statistics table:
/// past the two header lines, the first row whose first column starts with
/// the interface name gives it in its third column. Nothing when no row
/// names the interface or that row is malformed.
pub fn link_quality(table: &[u8], interface: &[u8]) -> (r: Option<u8>)
    ensures
        match r {
            Some(q) => link_quality_of(table@, interface@) == Some(q as int),
            None => link_quality_of(table@, interface@) is None,
        },
        r matches Some(q) ==> q <= MAX_LINK_QUALITY,
{
    let mut i: usize = 0;
    let mut headers: usize = HEADER_LINES;
    while i < table.len()
        invariant
            i <= table@.len(),
            quality_from(table@, i as int, headers as nat, interface@) == link_quality_of(
                table@,
                interface@,
            ),
        decreases table@.len() - i,
    {
        let e = line_end(table, i);
        let line = &table[i..e];
        if headers == 0 && row_names_interface(line, interface) {
            return quality_of_row(line);
        }
        if e >= table.len() {
            return None;
        }
        if headers > 0 {
            headers = headers - 1;
        }
        i = e + 1;
    }
    None
}

/// The strength of a profile's connection, from the contents of its file and
/// the wireless statistics table: the link quality of the interface the file
/// names, 0 when it names none or the table lacks it.
pub fn conn_strength(config: &[u8], table: &[u8]) -> (r: u8)
    ensures
        r == strength_of(config@, table@),
        r <= MAX_LINK_QUALITY,
{
    match profile_interface(config) {
        Some(iface) => {
            if iface.len() == 0 {
                0
            } else {
                match link_quality(table, iface.as_slice()) {
                    Some(q) => q,
                    None => 0,
                }
            }
        },
        None => 0,
    }
}

} // verus!
