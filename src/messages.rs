use crate::state::{State, Transition};
use crate::text::{decimal, decimal_text, name_view};
use vstd::prelude::*;

verus! {

/// Text of the notification for a change of active profile.
pub open spec fn transition_text(t: Transition) -> Seq<char> {
    match t {
        Transition::Started(n) => "Profile <b>"@ + n@ + "</b> started."@,
        Transition::Stopped(o) => "Profile <b>"@ + o@ + "</b> stopped."@,
        Transition::Switched(o, n) => "Profile switched: from <b>"@ + o@ + "</b> to <b>"@ + n@
            + "</b>."@,
    }
}

/// A round trip in milliseconds as text, or `∞` when there is none.
pub open spec fn rtt_text(rtt: Option<u64>) -> Seq<char> {
    match rtt {
        Some(n) => decimal(n as nat),
        None => "∞"@,
    }
}

/// Text of the status notification for a snapshot: the active profile (or
/// `none`), the round trip in milliseconds (or `∞`) and the link
/// quality out of 70.
pub open spec fn summary_text(name: Option<Seq<char>>, ping: Option<u64>, quality: u8) -> Seq<
    char,
> {
    let profile = match name {
        Some(n) => n,
        None => "none"@,
    };
    let rtt = match ping {
        Some(p) => decimal(p as nat),
        None => "∞"@,
    };
    "Profile: <b>"@ + profile + "</b>, Ping: <b>"@ + rtt + " ms</b>, Quality: <b>"@ + decimal(
        quality as nat,
    ) + "/70</b>"@
}

impl Transition {
    /// The notification text for this change.
    pub fn message(&self) -> (r: String)
        ensures
            r@ == transition_text(*self),
    {
        match self {
            Transition::Started(n) => {
                let mut s = String::from_str("Profile <b>");
                s.append(n.as_str());
                s.append("</b> started.");
                s
            },
            Transition::Stopped(o) => {
                let mut s = String::from_str("Profile <b>");
                s.append(o.as_str());
                s.append("</b> stopped.");
                s
            },
            Transition::Switched(o, n) => {
                let mut s = String::from_str("Profile switched: from <b>");
                s.append(o.as_str());
                s.append("</b> to <b>");
                s.append(n.as_str());
                s.append("</b>.");
                s
            },
        }
    }
}

/// A round trip in milliseconds as text, or `∞` when the host was not reached.
pub fn get_rtt_str(rtt: Option<u64>) -> (r: String)
    ensures
        r@ == rtt_text(rtt),
{
    match rtt {
        Some(n) => decimal_text(n),
        None => String::from_str("∞"),
    }
}

impl State {
    /// The status notification text for this snapshot.
    pub fn summary(&self) -> (r: String)
        ensures
            r@ == summary_text(name_view(self.active_profile), self.ping, self.link_quality),
    {
        let mut s = String::from_str("Profile: <b>");
        match &self.active_profile {
            Some(n) => s.append(n.as_str()),
            None => s.append("none"),
        }
        s.append("</b>, Ping: <b>");
        match self.ping {
            Some(p) => {
                let t = decimal_text(p);
                s.append(t.as_str());
            },
            None => s.append("∞"),
        }
        s.append(" ms</b>, Quality: <b>");
        let q = decimal_text(self.link_quality as u64);
        s.append(q.as_str());
        s.append("/70</b>");
        s
    }
}

} // verus!
