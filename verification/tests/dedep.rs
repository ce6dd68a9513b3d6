use dedep::action::DedepAction;
use dedep::classify::classify;
use dedep::classify::partition;
use dedep::controller::event_for_key;
use dedep::controller::Controller;
use dedep::controller::InputEvent;
use dedep::package::DedepPackage;
use dedep::package::InstallReason;
use dedep::package::PackageMeta;

fn meta(name: &str, reason: InstallReason, required_by: u64, optional_for: u64) -> PackageMeta {
    PackageMeta::new(name.to_string(), reason, required_by, optional_for)
}

fn candidate(name: &str, optional_for: u64) -> DedepPackage {
    DedepPackage::new(meta(name, InstallReason::Dependency, 0, optional_for))
}

#[test]
fn action_tags() {
    assert_eq!(DedepAction::Explicit.as_char(), 'E');
    assert_eq!(DedepAction::Nothing.as_char(), ' ');
    assert_eq!(DedepAction::Remove.as_char(), 'R');
}

#[test]
fn display_form_per_action() {
    let mut e = candidate("foo", 0);
    assert_eq!(e.display_line(), "[ ] foo");
    e.stage_action(DedepAction::Explicit);
    assert_eq!(e.display_line(), "[E] foo");
    e.stage_action(DedepAction::Remove);
    assert_eq!(e.display_line(), "[R] foo");
}

#[test]
fn staging_is_idempotent() {
    let mut e = candidate("foo", 0);
    e.stage_action(DedepAction::Explicit);
    assert_eq!(e.action, DedepAction::Explicit);
    e.stage_action(DedepAction::Explicit);
    assert_eq!(e.action, DedepAction::Explicit);
}

#[test]
fn staging_overwrites_any_prior_action() {
    let mut e = candidate("foo", 0);
    assert_eq!(e.action, DedepAction::Nothing);
    e.stage_action(DedepAction::Explicit);
    e.stage_action(DedepAction::Remove);
    assert_eq!(e.action, DedepAction::Remove);
    e.stage_action(DedepAction::Nothing);
    assert_eq!(e.action, DedepAction::Nothing);
}

#[test]
fn classifier_keeps_exactly_the_orphan_candidates() {
    let all = vec![
        meta("A", InstallReason::Explicit, 0, 0),
        meta("B", InstallReason::Dependency, 0, 0),
        meta("C", InstallReason::Dependency, 1, 0),
        meta("D", InstallReason::Dependency, 0, 2),
    ];
    let out = classify(all);
    assert_eq!(out.len(), 2);
    assert_eq!(out[0].meta.name, "B");
    assert_eq!(out[1].meta.name, "D");
    for e in &out {
        assert_eq!(e.action, DedepAction::Nothing);
        assert_eq!(e.meta.reason, InstallReason::Dependency);
        assert_eq!(e.meta.required_by, 0);
    }
}

#[test]
fn classifier_on_empty_database() {
    let out = classify(Vec::new());
    assert!(out.is_empty());
}

#[test]
fn partition_splits_true_and_pseudo_orphans() {
    let all = vec![
        meta("A", InstallReason::Explicit, 0, 0),
        meta("B", InstallReason::Dependency, 0, 0),
        meta("C", InstallReason::Dependency, 1, 0),
        meta("D", InstallReason::Dependency, 0, 2),
    ];
    let (true_orphans, pseudo_orphans) = partition(classify(all));
    assert_eq!(true_orphans.len(), 1);
    assert_eq!(true_orphans[0].meta.name, "B");
    assert_eq!(pseudo_orphans.len(), 1);
    assert_eq!(pseudo_orphans[0].meta.name, "D");
}

#[test]
fn partition_is_complete_and_keeps_order() {
    let candidates = vec![
        candidate("n0", 0),
        candidate("n1", 1),
        candidate("n2", 0),
        candidate("n3", 3),
        candidate("n4", 0),
    ];
    let total = candidates.len();
    let (true_orphans, pseudo_orphans) = partition(candidates);
    assert_eq!(true_orphans.len() + pseudo_orphans.len(), total);
    let true_names: Vec<&str> = true_orphans.iter().map(|e| e.name_str()).collect();
    let pseudo_names: Vec<&str> = pseudo_orphans.iter().map(|e| e.name_str()).collect();
    assert_eq!(true_names, vec!["n0", "n2", "n4"]);
    assert_eq!(pseudo_names, vec!["n1", "n3"]);
    for n in &true_names {
        assert!(!pseudo_names.contains(n));
    }
}

#[test]
fn key_bindings() {
    assert_eq!(event_for_key('q'), InputEvent::Quit);
    assert_eq!(event_for_key('k'), InputEvent::MoveUp);
    assert_eq!(event_for_key('j'), InputEvent::MoveDown);
    assert_eq!(event_for_key('E'), InputEvent::StageExplicit);
    assert_eq!(event_for_key('x'), InputEvent::Other);
    assert_eq!(event_for_key('Q'), InputEvent::Other);
}

#[test]
fn cursor_stays_in_bounds() {
    let list = vec![candidate("a", 0), candidate("b", 0), candidate("c", 0)];
    let mut c = Controller::new(list);
    assert_eq!(c.selected(), None);
    c.step(InputEvent::MoveDown);
    assert_eq!(c.selected(), Some(0));
    c.step(InputEvent::MoveDown);
    c.step(InputEvent::MoveDown);
    c.step(InputEvent::MoveDown);
    assert_eq!(c.selected(), Some(2));
    c.step(InputEvent::MoveUp);
    c.step(InputEvent::MoveUp);
    c.step(InputEvent::MoveUp);
    c.step(InputEvent::MoveUp);
    assert_eq!(c.selected(), Some(0));
    for ev in [
        InputEvent::MoveUp,
        InputEvent::MoveDown,
        InputEvent::MoveDown,
        InputEvent::MoveUp,
        InputEvent::MoveUp,
        InputEvent::MoveUp,
        InputEvent::MoveDown,
    ] {
        c.step(ev);
        let sel = c.selected().expect("cursor set after a move");
        assert!(sel < c.len());
    }
}

#[test]
fn move_up_from_unset_selects_last_row() {
    let list = vec![candidate("a", 0), candidate("b", 0), candidate("c", 0)];
    let mut c = Controller::new(list);
    c.step(InputEvent::MoveUp);
    assert_eq!(c.selected(), Some(2));
}

#[test]
fn moves_on_empty_list_do_nothing() {
    let mut c = Controller::new(Vec::new());
    assert!(!c.step(InputEvent::MoveDown));
    assert_eq!(c.selected(), None);
    assert!(!c.step(InputEvent::MoveUp));
    assert_eq!(c.selected(), None);
    assert!(!c.step(InputEvent::StageExplicit));
    assert!(c.step(InputEvent::Quit));
}

#[test]
fn staging_without_cursor_does_nothing() {
    let mut c = Controller::new(vec![candidate("a", 0)]);
    c.step(InputEvent::StageExplicit);
    assert_eq!(c.entries()[0].action, DedepAction::Nothing);
}

#[test]
fn unbound_keys_do_nothing() {
    let mut c = Controller::new(vec![candidate("a", 0)]);
    c.step(InputEvent::MoveDown);
    assert!(!c.step(InputEvent::Other));
    assert_eq!(c.selected(), Some(0));
    assert_eq!(c.entries()[0].action, DedepAction::Nothing);
}

#[test]
fn display_lines_follow_the_entries() {
    let mut c = Controller::new(vec![candidate("a", 0), candidate("b", 0)]);
    c.step(InputEvent::MoveDown);
    c.step(InputEvent::MoveDown);
    c.step(InputEvent::StageExplicit);
    let lines = c.display_lines();
    assert_eq!(lines, vec!["[ ] a".to_string(), "[E] b".to_string()]);
}

#[test]
fn staging_session_scenario() {
    let all = vec![
        meta("A", InstallReason::Explicit, 0, 0),
        meta("B", InstallReason::Dependency, 0, 0),
        meta("C", InstallReason::Dependency, 1, 0),
        meta("D", InstallReason::Dependency, 0, 2),
    ];
    let (true_orphans, _pseudo_orphans) = partition(classify(all));
    let mut c = Controller::new(true_orphans);
    assert_eq!(c.selected(), None);
    assert!(!c.step(InputEvent::MoveDown));
    assert_eq!(c.selected(), Some(0));
    assert!(!c.step(InputEvent::StageExplicit));
    assert_eq!(c.entries()[0].action, DedepAction::Explicit);
    assert_eq!(c.entries()[0].display_line(), "[E] B");
    assert!(c.step(InputEvent::Quit));
    let back = c.into_entries();
    assert_eq!(back.len(), 1);
    assert_eq!(back[0].meta.name, "B");
    assert_eq!(back[0].action, DedepAction::Explicit);
}
