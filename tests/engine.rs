use netctl_tray::{
    active_after_listing, get_rtt_str, group_flags, list_command, profile_menu, switch_commands,
    transition, update_state, Flavor, Probe, ProfileSet, State, Transition,
};

const TABLE: &[u8] = b"h1\nh2\nwlan0 0000   45.  -256  -34   0   0   0   0\n";

fn probe(listing: Option<&[u8]>, config: Option<&[u8]>, ping: Option<u64>) -> Probe {
    Probe {
        listing: listing.map(|l| l.to_vec()),
        config: config.map(|c| c.to_vec()),
        wireless: Some(TABLE.to_vec()),
        ping,
    }
}

fn name(t: &Option<Transition>) -> Option<String> {
    t.as_ref().map(|t| t.message())
}

#[test]
fn transition_sequence_gives_three_events() {
    let seq: Vec<Option<String>> = vec![
        None,
        Some("A".to_string()),
        Some("A".to_string()),
        Some("B".to_string()),
        None,
    ];
    let mut events = Vec::new();
    for w in seq.windows(2) {
        if let Some(t) = transition(&w[0], &w[1]) {
            events.push(t);
        }
    }
    assert_eq!(events.len(), 3);
    assert!(matches!(&events[0], Transition::Started(n) if n == "A"));
    assert!(matches!(&events[1], Transition::Switched(a, b) if a == "A" && b == "B"));
    assert!(matches!(&events[2], Transition::Stopped(n) if n == "B"));
    assert_eq!(events[0].message(), "Profile <b>A</b> started.");
    assert_eq!(events[1].message(), "Profile switched: from <b>A</b> to <b>B</b>.");
    assert_eq!(events[2].message(), "Profile <b>B</b> stopped.");
}

#[test]
fn ticks_report_profile_changes() {
    let mut st = State::new();
    let t = st.tick(&probe(Some(b"  home\n"), None, Some(3)));
    assert!(t.is_none());
    let t = st.tick(&probe(Some(b"* home\n"), Some(b"Interface=wlan0\n"), Some(3)));
    assert_eq!(name(&t), Some("Profile <b>home</b> started.".to_string()));
    assert_eq!(st.link_quality, 45);
    let t = st.tick(&probe(Some(b"* home\n"), Some(b"Interface=wlan0\n"), Some(3)));
    assert!(t.is_none());
    let t = st.tick(&probe(Some(b"  home\n"), None, None));
    assert_eq!(name(&t), Some("Profile <b>home</b> stopped.".to_string()));
}

#[test]
fn repeated_ticks_are_idempotent() {
    let mut st = State::new();
    let p = probe(Some(b"* home\n"), Some(b"Interface=wlan0\n"), Some(7));
    st.tick(&p);
    let (q, ping, active) = (st.link_quality, st.ping, st.active_profile.clone());
    for _ in 0..3 {
        assert!(st.tick(&p).is_none());
        assert_eq!((st.link_quality, st.ping, st.active_profile.clone()), (q, ping, active.clone()));
    }
}

#[test]
fn failed_readings_keep_previous_values() {
    let mut st = State::new();
    update_state(&mut st, &probe(Some(b"* home\n"), Some(b"Interface=wlan0\n"), Some(5)));
    assert_eq!(st.active_profile, Some("home".to_string()));
    assert_eq!(st.link_quality, 45);
    // listing failed: the active profile stays; the file could not be read: quality stays
    update_state(&mut st, &probe(None, None, None));
    assert_eq!(st.active_profile, Some("home".to_string()));
    assert_eq!(st.link_quality, 45);
    assert_eq!(st.ping, None);
    // no row for the interface: quality stays
    update_state(&mut st, &probe(Some(b"* home\n"), Some(b"Interface=wlan9\n"), Some(5)));
    assert_eq!(st.link_quality, 45);
    // no interface in the file: no signal
    update_state(&mut st, &probe(Some(b"* home\n"), Some(b"Connection=wireless\n"), Some(5)));
    assert_eq!(st.link_quality, 0);
}

#[test]
fn file_to_read_follows_the_listing() {
    let mut st = State::new();
    assert_eq!(active_after_listing(&st, &Some(b"* w\n".to_vec())), Some("w".to_string()));
    assert_eq!(active_after_listing(&st, &None), None);
    st.active_profile = Some("old".to_string());
    assert_eq!(active_after_listing(&st, &None), Some("old".to_string()));
    assert_eq!(active_after_listing(&st, &Some(b"  w\n".to_vec())), None);
    assert_eq!(active_after_listing(&st, &Some(b"* \xfe\n* w\n".to_vec())), None);
}

#[test]
fn rtt_text() {
    assert_eq!(get_rtt_str(Some(45)), "45");
    assert_eq!(get_rtt_str(Some(0)), "0");
    assert_eq!(get_rtt_str(Some(1200)), "1200");
    assert_eq!(get_rtt_str(None), "∞");
}

#[test]
fn summary_text() {
    let mut st = State::new();
    st.ping = None;
    assert_eq!(
        st.summary(),
        "Profile: <b>none</b>, Ping: <b>∞ ms</b>, Quality: <b>0/70</b>"
    );
    st.active_profile = Some("home".to_string());
    st.ping = Some(23);
    st.link_quality = 45;
    assert_eq!(
        st.summary(),
        "Profile: <b>home</b>, Ping: <b>23 ms</b>, Quality: <b>45/70</b>"
    );
}

#[test]
fn commands_per_flavor() {
    assert_eq!(list_command(Flavor::Netctl), vec!["netctl", "list"]);
    assert_eq!(list_command(Flavor::NetctlAuto), vec!["netctl-auto", "list"]);
    let t = "work".to_string();
    assert_eq!(
        switch_commands(Flavor::Netctl, &Some("home".to_string()), &t),
        vec![vec!["netctl", "stop", "home"], vec!["netctl", "start", "work"]]
    );
    assert_eq!(
        switch_commands(Flavor::Netctl, &None, &t),
        vec![vec!["netctl", "start", "work"]]
    );
    assert_eq!(
        switch_commands(Flavor::NetctlAuto, &Some("home".to_string()), &t),
        vec![vec!["netctl-auto", "switch-to", "work"]]
    );
}

#[test]
fn menu_checks_the_active_profile() {
    let mut set = ProfileSet::new();
    set.insert("home".to_string());
    set.insert("work".to_string());
    let menu = profile_menu(&set, &Some("work".to_string()));
    assert_eq!(menu, vec![("home".to_string(), false), ("work".to_string(), true)]);
    let menu = profile_menu(&set, &None);
    assert_eq!(menu, vec![("home".to_string(), false), ("work".to_string(), false)]);
}

#[test]
fn group_membership() {
    let g = |v: &[&str]| v.iter().map(|x| x.to_string()).collect::<Vec<_>>();
    assert_eq!(group_flags(&g(&["users", "wheel"])), (true, false));
    assert_eq!(group_flags(&g(&["network", "wheel"])), (true, true));
    assert_eq!(group_flags(&g(&[])), (false, false));
    assert_eq!(group_flags(&g(&["networks"])), (false, false));
}
