use crate::text::{decode_text, line_end, name_view, next_newline, lemma_next_newline_bounds, SPACE};
use vstd::prelude::*;
use vstd::utf8::{decode_utf8, valid_utf8};

verus! {

/// Byte value of `'*'`, the marker of the active profile.
pub const ACTIVE_MARKER: u8 = 42;

/// One line of the network manager's listing: `"* name"` for the active
/// profile, `"  name"` for another one. Any other line is malformed.
pub open spec fn listing_line(line: Seq<u8>) -> Option<(bool, Seq<char>)> {
    if line.len() >= 2 && (line[0] == ACTIVE_MARKER || line[0] == SPACE) && line[1] == SPACE
        && valid_utf8(line.subrange(2, line.len() as int)) {
        Some((line[0] == ACTIVE_MARKER, decode_utf8(line.subrange(2, line.len() as int))))
    } else {
        None
    }
}

/// The entries of the listing `s` from the line that starts at `i` on, in
/// order, malformed lines left out.
pub open spec fn listing_from(s: Seq<u8>, i: int) -> Seq<(bool, Seq<char>)>
    decreases s.len() - i,
    via listing_from_decreases
{
    if i < 0 || i >= s.len() {
        seq![]
    } else {
        let e = next_newline(s, i);
        let rest = if e < s.len() {
            listing_from(s, e + 1)
        } else {
            seq![]
        };
        match listing_line(s.subrange(i, e)) {
            Some(x) => seq![x] + rest,
            None => rest,
        }
    }
}

#[via_fn]
proof fn listing_from_decreases(s: Seq<u8>, i: int) {
    if 0 <= i < s.len() {
        lemma_next_newline_bounds(s, i);
    }
}

/// All entries of a listing.
pub open spec fn listing(s: Seq<u8>) -> Seq<(bool, Seq<char>)> {
    listing_from(s, 0)
}

/// The entries with their names as characters.
pub open spec fn entries_view(v: Seq<(bool, String)>) -> Seq<(bool, Seq<char>)> {
    v.map_values(|p: (bool, String)| (p.0, p.1@))
}

/// The name of the first entry marked active from position `i` on.
pub open spec fn first_active_from(entries: Seq<(bool, Seq<char>)>, i: int) -> Option<Seq<char>>
    decreases entries.len() - i,
{
    if i < 0 || i >= entries.len() {
        None
    } else if entries[i].0 {
        Some(entries[i].1)
    } else {
        first_active_from(entries, i + 1)
    }
}

/// The active profile of a list of entries: the first one marked active.
pub open spec fn first_active(entries: Seq<(bool, Seq<char>)>) -> Option<Seq<char>> {
    first_active_from(entries, 0)
}

/// The line marks the active profile: it starts with the marker and a space.
pub open spec fn marked_line(line: Seq<u8>) -> bool {
    line.len() >= 2 && line[0] == ACTIVE_MARKER && line[1] == SPACE
}

/// The active profile that the listing `s` names from the line at `i` on:
/// the name on the first marked line, or nothing when that name is not text
/// or no line is marked. Later marked lines are ignored.
pub open spec fn marked_from(s: Seq<u8>, i: int) -> Option<Seq<char>>
    decreases s.len() - i,
    via marked_from_decreases
{
    if i < 0 || i >= s.len() {
        None
    } else {
        let e = next_newline(s, i);
        let line = s.subrange(i, e);
        if marked_line(line) {
            let name = line.subrange(2, line.len() as int);
            if valid_utf8(name) {
                Some(decode_utf8(name))
            } else {
                None
            }
        } else if e < s.len() {
            marked_from(s, e + 1)
        } else {
            None
        }
    }
}

#[via_fn]
proof fn marked_from_decreases(s: Seq<u8>, i: int) {
    if 0 <= i < s.len() {
        lemma_next_newline_bounds(s, i);
    }
}

/// The active profile a listing names.
pub open spec fn listed_active(s: Seq<u8>) -> Option<Seq<char>> {
    marked_from(s, 0)
}

/// Finds the active profile in the listing: the name on the first line that
/// starts with `"* "`; nothing when no line does, or when that name is not
/// text. Later marked lines are ignored.
pub fn active_in_listing(raw: &[u8]) -> (r: Option<String>)
    ensures
        name_view(r) == listed_active(raw@),
{
    let mut i: usize = 0;
    while i < raw.len()
        invariant
            i <= raw@.len(),
            marked_from(raw@, i as int) == listed_active(raw@),
        decreases raw@.len() - i,
    {
        let e = line_end(raw, i);
        let line = &raw[i..e];
        if line.len() >= 2 && line[0] == ACTIVE_MARKER && line[1] == SPACE {
            return decode_text(&line[2..line.len()]);
        }
        if e >= raw.len() {
            return None;
        }
        i = e + 1;
    }
    None
}

/// Reads one listing line.
pub fn parse_listing_line(line: &[u8]) -> (r: Option<(bool, String)>)
    ensures
        match r {
            Some(p) => listing_line(line@) == Some((p.0, p.1@)),
            None => listing_line(line@) is None,
        },
{
    if line.len() < 2 || (line[0] != ACTIVE_MARKER && line[0] != SPACE) || line[1] != SPACE {
        return None;
    }
    let name = &line[2..line.len()];
    match decode_text(name) {
        Some(n) => Some((line[0] == ACTIVE_MARKER, n)),
        None => None,
    }
}

/// Reads the listing of profiles: one `(active, name)` pair for each
/// well-formed line, in order.
pub fn get_profiles(raw: &[u8]) -> (r: Vec<(bool, String)>)
    ensures
        entries_view(r@) == listing(raw@),
{
    let mut out: Vec<(bool, String)> = Vec::new();
    let mut i: usize = 0;
    while i < raw.len()
        invariant
            i <= raw@.len(),
            entries_view(out@) + listing_from(raw@, i as int) == listing(raw@),
        decreases raw@.len() - i,
    {
        let e = line_end(raw, i);
        let line = &raw[i..e];
        let parsed = parse_listing_line(line);
        let ghost before = out@;
        match parsed {
            Some(p) => {
                out.push(p);
                assert(entries_view(out@) =~= entries_view(before) + seq![(p.0, p.1@)]);
            },
            None => {},
        }
        if e < raw.len() {
            i = e + 1;
        } else {
            i = e;
        }
        assert(entries_view(out@) + listing_from(raw@, i as int) =~= listing(raw@));
    }
    out
}

/// The active profile named by a list of entries, if any.
pub fn active_profile(profiles: &Vec<(bool, String)>) -> (r: Option<String>)
    ensures
        name_view(r) == first_active(entries_view(profiles@)),
{
    let ghost entries = entries_view(profiles@);
    let mut i: usize = 0;
    while i < profiles.len()
        invariant
            i <= profiles@.len(),
            entries == entries_view(profiles@),
            first_active_from(entries, i as int) == first_active(entries),
        decreases profiles@.len() - i,
    {
        if profiles[i].0 {
            return Some(profiles[i].1.clone());
        }
        i = i + 1;
    }
    None
}

} // verus!
