use blackout::app::{Action, Logic, Mode, PickKey};
use blackout::config::Style;

fn ids(names: &[&str]) -> Vec<String> {
    names.iter().map(|s| s.to_string()).collect()
}

#[test]
fn new_is_idle_and_follows_pointer() {
    let l = Logic::new(Style::Tint);
    assert_eq!(l.mode, Mode::Idle);
    assert_eq!(l.style, Style::Tint);
    assert!(l.candidate.is_none() && l.cinema.is_none());
    assert!(l.follow_pointer);
}

#[test]
fn toggle_without_display_does_nothing() {
    let mut l = Logic::new(Style::Solid);
    assert_eq!(l.on_toggle(None), Action::Nothing);
    assert_eq!(l.mode, Mode::Idle);
}

#[test]
fn toggle_twice_returns_to_idle() {
    let mut l = Logic::new(Style::Solid);
    assert_eq!(
        l.on_toggle(Some("B".to_string())),
        Action::ShowPick { candidate: "B".to_string() }
    );
    assert_eq!(l.mode, Mode::Pick);
    assert_eq!(l.candidate.as_deref(), Some("B"));
    assert_eq!(l.on_toggle(Some("A".to_string())), Action::HideAll);
    assert_eq!(l.mode, Mode::Idle);
    assert!(l.candidate.is_none() && l.cinema.is_none() && l.follow_pointer);
}

#[test]
fn pointer_moves_candidate_only_in_pick() {
    let mut l = Logic::new(Style::Solid);
    assert_eq!(l.on_pointer("A"), Action::Nothing);
    l.on_toggle(Some("A".to_string()));
    assert_eq!(l.on_pointer("A"), Action::Nothing);
    assert_eq!(l.on_pointer("B"), Action::RefreshPick { candidate: "B".to_string() });
    assert_eq!(l.candidate.as_deref(), Some("B"));
}

#[test]
fn click_locks_clicked_display_then_dismisses() {
    let mut l = Logic::new(Style::Solid);
    assert_eq!(l.on_click("A"), Action::Nothing);
    l.on_toggle(Some("A".to_string()));
    assert_eq!(l.on_click("C"), Action::ShowLocked { cinema: "C".to_string() });
    assert_eq!(l.mode, Mode::Locked);
    assert_eq!(l.cinema.as_deref(), Some("C"));
    assert!(l.candidate.is_none());
    assert_eq!(l.on_click("A"), Action::HideAll);
    assert_eq!(l.mode, Mode::Idle);
}

#[test]
fn digits_pick_by_position_and_stop_following() {
    let ds = ids(&["L", "M", "R"]);
    let mut l = Logic::new(Style::Solid);
    l.on_toggle(Some("L".to_string()));
    assert_eq!(
        l.on_pick_key(PickKey::Digit(3), &ds),
        Action::RefreshPick { candidate: "R".to_string() }
    );
    assert!(!l.follow_pointer);
    assert_eq!(l.on_pointer("M"), Action::Nothing);
    assert_eq!(l.on_pick_key(PickKey::Digit(4), &ds), Action::Nothing);
    assert_eq!(
        l.on_pick_key(PickKey::Digit(0), &ds),
        Action::RefreshPick { candidate: "L".to_string() }
    );
    l.allow_pointer();
    assert_eq!(l.on_pointer("M"), Action::RefreshPick { candidate: "M".to_string() });
}

#[test]
fn arrows_cycle_and_invert() {
    let ds = ids(&["L", "M", "R"]);
    let mut l = Logic::new(Style::Solid);
    l.on_toggle(Some("R".to_string()));
    assert_eq!(
        l.on_pick_key(PickKey::Right, &ds),
        Action::RefreshPick { candidate: "L".to_string() }
    );
    assert_eq!(
        l.on_pick_key(PickKey::Left, &ds),
        Action::RefreshPick { candidate: "R".to_string() }
    );
    assert_eq!(
        l.on_pick_key(PickKey::Left, &ds),
        Action::RefreshPick { candidate: "M".to_string() }
    );
    assert_eq!(l.on_pick_key(PickKey::Left, &[]), Action::Nothing);
}

#[test]
fn arrows_from_unknown_candidate_start_at_first() {
    let ds = ids(&["L", "M"]);
    let mut l = Logic::new(Style::Solid);
    l.on_toggle(Some("gone".to_string()));
    assert_eq!(
        l.on_pick_key(PickKey::Right, &ds),
        Action::RefreshPick { candidate: "M".to_string() }
    );
}

#[test]
fn enter_locks_candidate_and_escape_dismisses() {
    let ds = ids(&["L", "M"]);
    let mut l = Logic::new(Style::Solid);
    assert_eq!(l.on_pick_key(PickKey::Enter, &ds), Action::Nothing);
    l.on_toggle(Some("M".to_string()));
    assert_eq!(
        l.on_pick_key(PickKey::Enter, &ds),
        Action::ShowLocked { cinema: "M".to_string() }
    );
    assert_eq!(l.on_pick_key(PickKey::Escape, &ds), Action::Nothing);
    assert_eq!(l.mode, Mode::Locked);
    l.on_toggle(None);
    l.on_toggle(Some("L".to_string()));
    assert_eq!(l.on_pick_key(PickKey::Escape, &ds), Action::HideAll);
    assert_eq!(l.mode, Mode::Idle);
}

#[test]
fn style_change_redraws_only_when_shown() {
    let mut l = Logic::new(Style::Solid);
    assert_eq!(l.set_style(Style::Frost), Action::Nothing);
    assert_eq!(l.style, Style::Frost);
    l.on_toggle(Some("A".to_string()));
    assert_eq!(l.set_style(Style::Frost), Action::Nothing);
    assert_eq!(l.set_style(Style::Tint), Action::RefreshPick { candidate: "A".to_string() });
    l.on_click("A");
    assert_eq!(l.set_style(Style::Solid), Action::ShowLocked { cinema: "A".to_string() });
}

#[test]
fn hotplug_keeps_or_resets() {
    let mut l = Logic::new(Style::Solid);
    assert_eq!(l.restore_after_hotplug(&ids(&["A"])), Action::HideAll);
    l.on_toggle(Some("B".to_string()));
    assert_eq!(
        l.restore_after_hotplug(&ids(&["A", "B"])),
        Action::ShowPick { candidate: "B".to_string() }
    );
    assert_eq!(
        l.restore_after_hotplug(&ids(&["A", "C"])),
        Action::ShowPick { candidate: "A".to_string() }
    );
    assert_eq!(l.candidate.as_deref(), Some("A"));
    assert_eq!(l.restore_after_hotplug(&[]), Action::Nothing);
    assert_eq!(l.mode, Mode::Pick);
    l.on_click("A");
    assert_eq!(
        l.restore_after_hotplug(&ids(&["A"])),
        Action::ShowLocked { cinema: "A".to_string() }
    );
    assert_eq!(l.restore_after_hotplug(&ids(&["B"])), Action::HideAll);
    assert_eq!(l.mode, Mode::Idle);
}

#[test]
fn dismiss_and_lock_directly() {
    let mut l = Logic::new(Style::Solid);
    assert_eq!(l.lock("X"), Action::ShowLocked { cinema: "X".to_string() });
    assert_eq!(l.mode, Mode::Locked);
    assert_eq!(l.dismiss(), Action::HideAll);
    assert_eq!(l.enter_pick(Some("Y".to_string())), Action::ShowPick { candidate: "Y".to_string() });
    assert!(l.follow_pointer);
}
