use vstd::prelude::*;
use vstd::utf8::{decode_utf8, valid_utf8};

verus! {

/// Byte value of `'\n'`.
pub const NEWLINE: u8 = 10;

/// Byte value of `' '`.
pub const SPACE: u8 = 32;

/// Blanks inside a line: space, tab, vertical tab, form feed and carriage return.
pub open spec fn is_blank(b: u8) -> bool {
    b == 32 || b == 9 || b == 11 || b == 12 || b == 13
}

/// Index of the first `'\n'` at or after `i`, or the length when there is none.
pub open spec fn next_newline(s: Seq<u8>, i: int) -> int
    decreases s.len() - i,
{
    if i < 0 || i >= s.len() {
        s.len() as int
    } else if s[i] == NEWLINE {
        i
    } else {
        next_newline(s, i + 1)
    }
}

/// The line end lies between `i` and the length, on a newline or at the end,
/// with no newline before it.
pub proof fn lemma_next_newline_bounds(s: Seq<u8>, i: int)
    requires
        0 <= i <= s.len(),
    ensures
        i <= next_newline(s, i) <= s.len(),
        next_newline(s, i) < s.len() ==> s[next_newline(s, i)] == NEWLINE,
        forall|k: int| i <= k < next_newline(s, i) ==> s[k] != NEWLINE,
    decreases s.len() - i,
{
    if i < s.len() && s[i] != NEWLINE {
        lemma_next_newline_bounds(s, i + 1);
    }
}

/// Index of the first non-blank byte at or after `i`, or the length.
pub open spec fn skip_blanks(l: Seq<u8>, i: int) -> int
    decreases l.len() - i,
{
    if 0 <= i < l.len() && is_blank(l[i]) {
        skip_blanks(l, i + 1)
    } else {
        i
    }
}

/// Index of the first blank byte at or after `i`, or the length.
pub open spec fn skip_word(l: Seq<u8>, i: int) -> int
    decreases l.len() - i,
{
    if 0 <= i < l.len() && !is_blank(l[i]) {
        skip_word(l, i + 1)
    } else {
        i
    }
}

/// End of `l[lo..j]` once trailing blanks are dropped.
pub open spec fn trim_end(l: Seq<u8>, lo: int, j: int) -> int
    decreases j - lo,
{
    if j > lo && is_blank(l[j - 1]) {
        trim_end(l, lo, j - 1)
    } else {
        j
    }
}

/// Skipping blanks stays in bounds and passes over blanks only.
pub proof fn lemma_skip_blanks_bounds(l: Seq<u8>, i: int)
    requires
        0 <= i <= l.len(),
    ensures
        i <= skip_blanks(l, i) <= l.len(),
        forall|k: int| i <= k < skip_blanks(l, i) ==> is_blank(l[k]),
        skip_blanks(l, i) < l.len() ==> !is_blank(l[skip_blanks(l, i)]),
    decreases l.len() - i,
{
    if i < l.len() && is_blank(l[i]) {
        lemma_skip_blanks_bounds(l, i + 1);
    }
}

/// Skipping a word stays in bounds and passes over non-blanks only.
pub proof fn lemma_skip_word_bounds(l: Seq<u8>, i: int)
    requires
        0 <= i <= l.len(),
    ensures
        i <= skip_word(l, i) <= l.len(),
        forall|k: int| i <= k < skip_word(l, i) ==> !is_blank(l[k]),
    decreases l.len() - i,
{
    if i < l.len() && !is_blank(l[i]) {
        lemma_skip_word_bounds(l, i + 1);
    }
}

/// Trimming stays between `lo` and `j`.
pub proof fn lemma_trim_end_bounds(l: Seq<u8>, lo: int, j: int)
    requires
        0 <= lo <= j <= l.len(),
    ensures
        lo <= trim_end(l, lo, j) <= j,
    decreases j - lo,
{
    if j > lo && is_blank(l[j - 1]) {
        lemma_trim_end_bounds(l, lo, j - 1);
    }
}

/// Finds the end of the line that starts at `start`.
pub fn line_end(s: &[u8], start: usize) -> (e: usize)
    requires
        start <= s@.len(),
    ensures
        e == next_newline(s@, start as int),
        start <= e <= s@.len(),
{
    proof {
        lemma_next_newline_bounds(s@, start as int);
    }
    let mut j: usize = start;
    while j < s.len() && s[j] != NEWLINE
        invariant
            start <= j <= s@.len(),
            next_newline(s@, j as int) == next_newline(s@, start as int),
        decreases s@.len() - j,
    {
        j = j + 1;
    }
    j
}

/// Skips the blanks of `l` from `i` on.
pub fn skip_blanks_from(l: &[u8], i: usize) -> (j: usize)
    requires
        i <= l@.len(),
    ensures
        j == skip_blanks(l@, i as int),
        i <= j <= l@.len(),
{
    proof {
        lemma_skip_blanks_bounds(l@, i as int);
    }
    let mut j: usize = i;
    while j < l.len() && is_blank_byte(l[j])
        invariant
            i <= j <= l@.len(),
            skip_blanks(l@, j as int) == skip_blanks(l@, i as int),
        decreases l@.len() - j,
    {
        j = j + 1;
    }
    j
}

/// Skips the non-blank bytes of `l` from `i` on.
pub fn skip_word_from(l: &[u8], i: usize) -> (j: usize)
    requires
        i <= l@.len(),
    ensures
        j == skip_word(l@, i as int),
        i <= j <= l@.len(),
{
    proof {
        lemma_skip_word_bounds(l@, i as int);
    }
    let mut j: usize = i;
    while j < l.len() && !is_blank_byte(l[j])
        invariant
            i <= j <= l@.len(),
            skip_word(l@, j as int) == skip_word(l@, i as int),
        decreases l@.len() - j,
    {
        j = j + 1;
    }
    j
}

/// Drops the trailing blanks of `l[lo..j]`, giving the new end.
pub fn trim_end_from(l: &[u8], lo: usize, j: usize) -> (e: usize)
    requires
        lo <= j <= l@.len(),
    ensures
        e == trim_end(l@, lo as int, j as int),
        lo <= e <= j,
{
    proof {
        lemma_trim_end_bounds(l@, lo as int, j as int);
    }
    let mut e: usize = j;
    while e > lo && is_blank_byte(l[e - 1])
        invariant
            lo <= e <= j <= l@.len(),
            trim_end(l@, lo as int, e as int) == trim_end(l@, lo as int, j as int),
        decreases e - lo,
    {
        e = e - 1;
    }
    e
}

/// Tells whether a byte is a blank.
pub fn is_blank_byte(b: u8) -> (r: bool)
    ensures
        r == is_blank(b),
{
    b == 32 || b == 9 || b == 11 || b == 12 || b == 13
}

/// The characters of an optional name.
pub open spec fn name_view(o: Option<String>) -> Option<Seq<char>> {
    match o {
        Some(s) => Some(s@),
        None => None,
    }
}

/// The decimal digit character for `d` in `0..10`.
pub open spec fn digit_char(d: nat) -> char {
    ((48 + d) as u32) as char
}

/// The decimal writing of `n`, without sign or leading zeros.
pub open spec fn decimal(n: nat) -> Seq<char>
    decreases n,
{
    if n < 10 {
        seq![digit_char(n)]
    } else {
        decimal(n / 10) + seq![digit_char(n % 10)]
    }
}

/// Relies on the `Display` of `u64` behind `to_string`: an unsigned integer
/// is written in decimal, without sign or leading zeros.
#[verifier::external_body]
pub fn decimal_text(n: u64) -> (r: String)
    ensures
        r@ == decimal(n as nat),
{
    n.to_string()
}

/// Relies on std::str::from_utf8: it accepts exactly the valid UTF-8 byte
/// strings and decodes them.
#[verifier::external_body]
pub fn decode_text(b: &[u8]) -> (r: Option<String>)
    ensures
        r is Some <==> valid_utf8(b@),
        r matches Some(t) ==> t@ == decode_utf8(b@),
{
    match std::str::from_utf8(b) {
        Ok(t) => Some(t.to_owned()),
        Err(_) => None,
    }
}

} // verus!
