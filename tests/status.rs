use netctl_tray::{classify, get_status, get_status_icon, status_icon, State, Status};

#[test]
fn no_profile_is_its_own_bucket() {
    for q in 0u8..=70 {
        assert_eq!(classify(false, q, true), Status::NoProfile);
        assert_eq!(classify(false, q, false), Status::NoProfile);
    }
}

#[test]
fn tiers_follow_quality_ranges() {
    assert_eq!(classify(true, 0, true), Status::NoSignal(true));
    assert_eq!(classify(true, 1, true), Status::Bad(true));
    assert_eq!(classify(true, 24, false), Status::Bad(false));
    assert_eq!(classify(true, 25, true), Status::Medium(true));
    assert_eq!(classify(true, 48, false), Status::Medium(false));
    assert_eq!(classify(true, 49, true), Status::Good(true));
    assert_eq!(classify(true, 70, false), Status::Good(false));
    assert_eq!(classify(true, 255, true), Status::Good(true));
}

#[test]
fn every_input_has_exactly_one_bucket() {
    for has in [false, true] {
        for r in [false, true] {
            for q in 0u8..=70 {
                let s = classify(has, q, r);
                let expected = if !has {
                    Status::NoProfile
                } else if q == 0 {
                    Status::NoSignal(r)
                } else if q <= 24 {
                    Status::Bad(r)
                } else if q <= 48 {
                    Status::Medium(r)
                } else {
                    Status::Good(r)
                };
                assert_eq!(s, expected);
            }
        }
    }
}

#[test]
fn icon_table_is_a_bijection() {
    let all = [
        Status::NoProfile,
        Status::Good(true),
        Status::Medium(true),
        Status::Bad(true),
        Status::NoSignal(true),
        Status::Good(false),
        Status::Medium(false),
        Status::Bad(false),
        Status::NoSignal(false),
    ];
    for (i, s) in all.iter().enumerate() {
        assert_eq!(status_icon(*s), i);
    }
}

#[test]
fn status_of_a_snapshot() {
    let mut st = State::new();
    assert_eq!(get_status(&st), Status::NoProfile);
    assert_eq!(get_status_icon(&st), 0);
    st.active_profile = Some("home".to_string());
    st.link_quality = 45;
    st.ping = Some(12);
    assert_eq!(get_status(&st), Status::Medium(true));
    assert_eq!(get_status_icon(&st), 2);
    st.ping = None;
    assert_eq!(get_status(&st), Status::Medium(false));
    assert_eq!(get_status_icon(&st), 6);
    st.link_quality = 0;
    assert_eq!(get_status_icon(&st), 8);
}
