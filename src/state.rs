use crate::config::{interface_of, profile_interface};
use crate::listing::{active_in_listing, listed_active};
use crate::status::{classify, status_icon, status_icon_index, status_of, Status};
use crate::text::name_view;
use crate::wireless::{link_quality, link_quality_of, MAX_LINK_QUALITY};
use vstd::prelude::*;

verus! {

/// The monitor's snapshot of the network: the active profile, the link
/// quality of its interface and the round trip of the last reachability
/// probe.
pub struct State {
    /// Link quality of the active profile's interface, at most 70.
    pub link_quality: u8,
    /// Round trip of the last probe in milliseconds; `None` when the host
    /// could not be reached in time.
    pub ping: Option<u64>,
    /// The profile the network manager reports as active.
    pub active_profile: Option<String>,
}

/// What one tick read from the outside; `None` where the reading failed.
pub struct Probe {
    /// Output of the profile listing command.
    pub listing: Option<Vec<u8>>,
    /// Contents of the file of the profile that `listing` marks active (or,
    /// without a listing, of the profile active before).
    pub config: Option<Vec<u8>>,
    /// Contents of the wireless statistics table.
    pub wireless: Option<Vec<u8>>,
    /// Round trip of the reachability probe in milliseconds; `None` when the
    /// connection failed or timed out.
    pub ping: Option<u64>,
}

/// A change of the active profile between two ticks.
pub enum Transition {
    Started(String),
    Stopped(String),
    Switched(String, String),
}

/// The snapshot as values.
pub struct Snapshot {
    pub link_quality: int,
    pub ping: Option<u64>,
    pub active_profile: Option<Seq<char>>,
}

/// A tick's readings as values.
pub struct Readings {
    pub listing: Option<Seq<u8>>,
    pub config: Option<Seq<u8>>,
    pub wireless: Option<Seq<u8>>,
    pub ping: Option<u64>,
}

impl State {
    /// This state as values.
    pub open spec fn snapshot(&self) -> Snapshot {
        Snapshot {
            link_quality: self.link_quality as int,
            ping: self.ping,
            active_profile: name_view(self.active_profile),
        }
    }

    /// The snapshot before the first tick: no profile, no signal, and a
    /// round trip of zero.
    pub fn new() -> (r: State)
        ensures
            r.link_quality == 0,
            r.ping == Some(0u64),
            r.active_profile is None,
    {
        State { link_quality: 0, ping: Some(0), active_profile: None }
    }
}

/// The bytes of an optional reading.
pub open spec fn bytes_view(o: Option<Vec<u8>>) -> Option<Seq<u8>> {
    match o {
        Some(v) => Some(v@),
        None => None,
    }
}

impl Probe {
    /// These readings as values.
    pub open spec fn readings(&self) -> Readings {
        Readings {
            listing: bytes_view(self.listing),
            config: bytes_view(self.config),
            wireless: bytes_view(self.wireless),
            ping: self.ping,
        }
    }
}

/// The active profile after a tick: the listing decides; without a listing
/// the previous one stays.
pub open spec fn active_after(prev: Option<Seq<char>>, raw: Option<Seq<u8>>) -> Option<Seq<char>> {
    match raw {
        Some(l) => listed_active(l),
        None => prev,
    }
}

/// The link quality after a tick. Without an active profile, or where a
/// file could not be read or the table has no row for the interface, the
/// previous value stays; a profile file that names no interface means no
/// signal.
pub open spec fn quality_after(
    prev: int,
    active: Option<Seq<char>>,
    config: Option<Seq<u8>>,
    wireless: Option<Seq<u8>>,
) -> int {
    match (active, config) {
        (Some(_), Some(c)) => match interface_of(c) {
            Some(iface) => if iface.len() == 0 {
                0
            } else {
                match wireless {
                    Some(t) => match link_quality_of(t, iface) {
                        Some(q) => q,
                        None => prev,
                    },
                    None => prev,
                }
            },
            None => 0,
        },
        _ => prev,
    }
}

/// The snapshot after a tick with the given readings.
pub open spec fn state_after(s: Snapshot, r: Readings) -> Snapshot {
    let active = active_after(s.active_profile, r.listing);
    Snapshot {
        link_quality: quality_after(s.link_quality, active, r.config, r.wireless),
        ping: r.ping,
        active_profile: active,
    }
}

/// `t` is the event for a change of active profile from `before` to `after`.
pub open spec fn is_transition(
    before: Option<Seq<char>>,
    after: Option<Seq<char>>,
    t: Option<Transition>,
) -> bool {
    match (before, after) {
        (None, None) => t is None,
        (None, Some(n)) => t matches Some(Transition::Started(x)) && x@ == n,
        (Some(o), None) => t matches Some(Transition::Stopped(x)) && x@ == o,
        (Some(o), Some(n)) => if o == n {
            t is None
        } else {
            t matches Some(Transition::Switched(x, y)) && x@ == o && y@ == n
        },
    }
}

/// The profile whose file a tick must read: the one the listing marks
/// active, or without a listing the one active before.
pub fn active_after_listing(state: &State, raw: &Option<Vec<u8>>) -> (r: Option<String>)
    ensures
        name_view(r) == active_after(name_view(state.active_profile), bytes_view(*raw)),
{
    match raw {
        Some(l) => active_in_listing(l.as_slice()),
        None => match &state.active_profile {
            Some(n) => Some(n.clone()),
            None => None,
        },
    }
}

/// Updates the snapshot with one tick's readings: the active profile from
/// the listing, the link quality of its interface from its file and the
/// wireless table, and the round trip of the probe. A reading that failed
/// leaves the field it feeds as it was.
pub fn update_state(state: &mut State, probe: &Probe)
    ensures
        final(state).snapshot() == state_after(old(state).snapshot(), probe.readings()),
        old(state).link_quality <= MAX_LINK_QUALITY ==> final(state).link_quality
            <= MAX_LINK_QUALITY,
{
    let active = active_after_listing(state, &probe.listing);
    if active.is_some() {
        match &probe.config {
            Some(c) => match profile_interface(c.as_slice()) {
                Some(iface) => {
                    if iface.len() == 0 {
                        state.link_quality = 0;
                    } else {
                        match &probe.wireless {
                            Some(t) => match link_quality(t.as_slice(), iface.as_slice()) {
                                Some(q) => {
                                    state.link_quality = q;
                                },
                                None => {},
                            },
                            None => {},
                        }
                    }
                },
                None => {
                    state.link_quality = 0;
                },
            },
            None => {},
        }
    }
    state.active_profile = active;
    state.ping = probe.ping;
}

fn copy_name(o: &Option<String>) -> (r: Option<String>)
    ensures
        r == *o,
{
    match o {
        Some(n) => Some(n.clone()),
        None => None,
    }
}

/// The event for a change of active profile: a start, a stop or a switch;
/// nothing when the profile stayed the same.
pub fn transition(before: &Option<String>, after: &Option<String>) -> (t: Option<Transition>)
    ensures
        is_transition(name_view(*before), name_view(*after), t),
{
    match (before, after) {
        (None, None) => None,
        (None, Some(n)) => Some(Transition::Started(n.clone())),
        (Some(o), None) => Some(Transition::Stopped(o.clone())),
        (Some(o), Some(n)) => {
            if *o == *n {
                None
            } else {
                Some(Transition::Switched(o.clone(), n.clone()))
            }
        },
    }
}

impl State {
    /// One polling tick: updates the snapshot and returns the event for a
    /// change of active profile, if there was one.
    pub fn tick(&mut self, probe: &Probe) -> (t: Option<Transition>)
        ensures
            final(self).snapshot() == state_after(old(self).snapshot(), probe.readings()),
            old(self).link_quality <= MAX_LINK_QUALITY ==> final(self).link_quality
                <= MAX_LINK_QUALITY,
            is_transition(
                old(self).snapshot().active_profile,
                final(self).snapshot().active_profile,
                t,
            ),
    {
        let before = copy_name(&self.active_profile);
        update_state(self, probe);
        transition(&before, &self.active_profile)
    }
}

/// A tick is idempotent: with the same readings, a second tick leaves the
/// snapshot as the first left it, and reports no change of profile.
pub proof fn lemma_tick_idempotent(s: Snapshot, r: Readings)
    ensures
        state_after(state_after(s, r), r) == state_after(s, r),
        forall|t: Option<Transition>|
            is_transition(
                state_after(s, r).active_profile,
                state_after(state_after(s, r), r).active_profile,
                t,
            ) <==> t is None,
{
}

/// A profile that stays the same gives no event, and a change always gives one.
pub proof fn lemma_transition_iff_change(
    before: Option<Seq<char>>,
    after: Option<Seq<char>>,
    t: Option<Transition>,
)
    requires
        is_transition(before, after, t),
    ensures
        t is None <==> before == after,
{
}

/// The status bucket of a snapshot.
pub fn get_status(state: &State) -> (s: Status)
    ensures
        s == status_of(
            state.active_profile is Some,
            state.link_quality as int,
            state.ping is Some,
        ),
{
    classify(state.active_profile.is_some(), state.link_quality, state.ping.is_some())
}

/// The index of the icon for a snapshot's status.
pub fn get_status_icon(state: &State) -> (i: usize)
    ensures
        i == status_icon_index(
            status_of(state.active_profile is Some, state.link_quality as int, state.ping is Some),
        ),
        i < 9,
{
    status_icon(get_status(state))
}

} // verus!
