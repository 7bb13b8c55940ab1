use vstd::prelude::*;

verus! {

/// What the tray shows: `NoProfile` when no profile is active, otherwise the
/// signal tier together with whether the reachability probe succeeded.
#[derive(Clone, Copy, Debug, PartialEq, Eq, Structural)]
pub enum Status {
    NoProfile,
    Good(bool),
    Medium(bool),
    Bad(bool),
    NoSignal(bool),
}

/// Signal tier of a link quality: `ceil(q / 24)`, capped at 3.
pub open spec fn tier_of(q: int) -> int {
    let t = (q + 23) / 24;
    if t > 3 {
        3
    } else {
        t
    }
}

/// The bucket for a profile presence, a link quality and a reachability flag.
pub open spec fn status_of(has_profile: bool, q: int, reachable: bool) -> Status {
    if !has_profile {
        Status::NoProfile
    } else {
        let t = tier_of(q);
        if t <= 0 {
            Status::NoSignal(reachable)
        } else if t == 1 {
            Status::Bad(reachable)
        } else if t == 2 {
            Status::Medium(reachable)
        } else {
            Status::Good(reachable)
        }
    }
}

/// The inputs that belong to a bucket, written out as quality ranges.
pub open spec fn in_region(b: Status, has_profile: bool, q: int, reachable: bool) -> bool {
    match b {
        Status::NoProfile => !has_profile,
        Status::NoSignal(r) => has_profile && q <= 0 && r == reachable,
        Status::Bad(r) => has_profile && 1 <= q <= 24 && r == reachable,
        Status::Medium(r) => has_profile && 25 <= q <= 48 && r == reachable,
        Status::Good(r) => has_profile && 49 <= q && r == reachable,
    }
}

/// Position of a bucket's icon in the tray's icon table.
pub open spec fn status_icon_index(s: Status) -> int {
    match s {
        Status::NoProfile => 0,
        Status::Good(true) => 1,
        Status::Medium(true) => 2,
        Status::Bad(true) => 3,
        Status::NoSignal(true) => 4,
        Status::Good(false) => 5,
        Status::Medium(false) => 6,
        Status::Bad(false) => 7,
        Status::NoSignal(false) => 8,
    }
}

/// Classifies a snapshot: no profile gives `NoProfile`, otherwise the tier of
/// the link quality paired with the reachability flag.
pub fn classify(has_profile: bool, link_quality: u8, reachable: bool) -> (s: Status)
    ensures
        s == status_of(has_profile, link_quality as int, reachable),
{
    if !has_profile {
        return Status::NoProfile;
    }
    let tier: u8 = if link_quality >= 72 {
        3
    } else {
        (link_quality + 23) / 24
    };
    match tier {
        0 => Status::NoSignal(reachable),
        1 => Status::Bad(reachable),
        2 => Status::Medium(reachable),
        _ => Status::Good(reachable),
    }
}

/// Index of the icon that stands for a status.
pub fn status_icon(s: Status) -> (i: usize)
    ensures
        i == status_icon_index(s),
        i < 9,
{
    match s {
        Status::NoProfile => 0,
        Status::Good(true) => 1,
        Status::Medium(true) => 2,
        Status::Bad(true) => 3,
        Status::NoSignal(true) => 4,
        Status::Good(false) => 5,
        Status::Medium(false) => 6,
        Status::Bad(false) => 7,
        Status::NoSignal(false) => 8,
    }
}

/// The buckets partition the inputs: each (profile presence, link quality,
/// reachability) lies in the region of exactly one bucket, the one the
/// classifier returns.
pub proof fn lemma_buckets_partition(has_profile: bool, link_quality: u8, reachable: bool)
    ensures
        forall|b: Status|
            #[trigger] in_region(b, has_profile, link_quality as int, reachable) <==> b
                == status_of(has_profile, link_quality as int, reachable),
{
}

/// Distinct buckets have distinct icons, all among the nine of the table.
pub proof fn lemma_icon_table_injective(a: Status, b: Status)
    ensures
        0 <= status_icon_index(a) < 9,
        status_icon_index(a) == status_icon_index(b) ==> a == b,
{
}

} // verus!
