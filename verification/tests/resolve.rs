use tmux_selector::pane::TmuxPane;
use tmux_selector::resolve::{find_most_recent_pane, first_other_pane};

fn pane(session: &str, last_used: u64, is_active: bool) -> TmuxPane {
    TmuxPane::new(
        session.to_string(),
        "0".to_string(),
        "0".to_string(),
        format!("title of {}", session),
        last_used,
        is_active,
    )
}

#[test]
fn tie_on_time_goes_to_the_first_pane() {
    let panes = vec![pane("a", 5, false), pane("b", 5, false), pane("c", 3, false)];
    assert_eq!(find_most_recent_pane(&panes, "none:0.0"), Some(0));
}

#[test]
fn active_pane_overrides_a_later_time() {
    let panes = vec![pane("a", 100, false), pane("b", 1, true)];
    assert_eq!(find_most_recent_pane(&panes, "none:0.0"), Some(1));
}

#[test]
fn current_pane_is_never_picked() {
    let panes = vec![pane("a", 100, true), pane("b", 1, false)];
    assert_eq!(find_most_recent_pane(&panes, "a:0.0"), Some(1));
    let panes = vec![pane("a", 1, false), pane("b", 100, true)];
    assert_eq!(find_most_recent_pane(&panes, "b:0.0"), Some(0));
}

#[test]
fn falls_back_on_the_first_other_pane() {
    let panes = vec![pane("me", 7, true), pane("a", 0, false), pane("b", 0, false)];
    assert_eq!(find_most_recent_pane(&panes, "me:0.0"), Some(1));
    let panes = vec![pane("a", 0, false), pane("me", 7, true), pane("b", 0, false)];
    assert_eq!(find_most_recent_pane(&panes, "me:0.0"), Some(0));
}

#[test]
fn nothing_is_picked_without_another_pane() {
    let none: Vec<TmuxPane> = Vec::new();
    assert_eq!(find_most_recent_pane(&none, "me:0.0"), None);
    let only_me = vec![pane("me", 9, true)];
    assert_eq!(find_most_recent_pane(&only_me, "me:0.0"), None);
    let twice_me = vec![pane("me", 9, true), pane("me", 3, false)];
    assert_eq!(find_most_recent_pane(&twice_me, "me:0.0"), None);
}

#[test]
fn later_active_pane_overrides_an_earlier_one() {
    let panes = vec![pane("a", 50, true), pane("b", 10, true), pane("c", 20, false)];
    // `b` takes over from `a` because it is active; `c` then takes over from
    // `b` because 20 is later than 10.
    assert_eq!(find_most_recent_pane(&panes, "none:0.0"), Some(2));
    let panes = vec![pane("a", 50, true), pane("b", 10, true), pane("c", 10, false)];
    assert_eq!(find_most_recent_pane(&panes, "none:0.0"), Some(1));
}

#[test]
fn active_pane_never_used_beats_an_earlier_inactive_one() {
    let panes = vec![pane("a", 90, false), pane("b", 0, true)];
    assert_eq!(find_most_recent_pane(&panes, "none:0.0"), Some(1));
    // The other way round the inactive pane comes last and was used later
    // than time 0, so it takes over.
    let panes = vec![pane("b", 0, true), pane("a", 90, false)];
    assert_eq!(find_most_recent_pane(&panes, "none:0.0"), Some(1));
}

#[test]
fn latest_time_wins_among_inactive_panes() {
    let panes = vec![pane("a", 3, false), pane("b", 8, false), pane("c", 5, false)];
    assert_eq!(find_most_recent_pane(&panes, "none:0.0"), Some(1));
    assert_eq!(find_most_recent_pane(&panes, "b:0.0"), Some(2));
}

#[test]
fn first_other_pane_skips_the_current_one() {
    let panes = vec![pane("me", 1, false), pane("me", 2, false), pane("a", 0, false)];
    assert_eq!(first_other_pane(&panes, "me:0.0"), Some(2));
    assert_eq!(first_other_pane(&panes, "a:0.0"), Some(0));
    assert_eq!(first_other_pane(&panes[..2], "me:0.0"), None);
}
