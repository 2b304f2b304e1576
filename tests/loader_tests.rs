use app_loader::aspace::IsolationMode;
use app_loader::error::LoadError;
use app_loader::loader::{Action, Event, Loader, Phase};

fn two_app_container() -> Vec<u8> {
    vec![0, 0, 0, 2, 0, 0, 0, 1, 0, 0, 0, 2, 0xAA, 0xBB, 0xCC]
}

#[test]
fn runs_every_app_in_order_with_domain_switches() {
    let mut l = Loader::from_container(&two_app_container(), IsolationMode::PerAppDomain, 64).unwrap();
    assert_eq!(l.step(Event::Start), Action::Activate(0));
    assert_eq!(l.step(Event::Activated), Action::Copy { source_offset: 12, size: 1 });
    assert_eq!(l.step(Event::Copied), Action::Jump);
    assert_eq!(l.step(Event::Returned), Action::Activate(1));
    assert_eq!(l.cursor(), 1);
    assert_eq!(l.step(Event::Activated), Action::Copy { source_offset: 13, size: 2 });
    assert_eq!(l.step(Event::Copied), Action::Jump);
    assert_eq!(l.step(Event::Returned), Action::Finished);
    assert_eq!(l.phase(), Phase::Idle);
}

#[test]
fn single_window_mode_copies_without_switching() {
    let mut l = Loader::from_container(&two_app_container(), IsolationMode::SingleWindow, 64).unwrap();
    assert_eq!(l.step(Event::Start), Action::Copy { source_offset: 12, size: 1 });
    assert_eq!(l.step(Event::Copied), Action::Jump);
    assert_eq!(l.step(Event::Returned), Action::Copy { source_offset: 13, size: 2 });
}

#[test]
fn terminate_halts_and_cursor_stays() {
    let mut l = Loader::from_container(&two_app_container(), IsolationMode::PerAppDomain, 64).unwrap();
    l.step(Event::Start);
    l.step(Event::Activated);
    l.step(Event::Copied);
    assert_eq!(l.step(Event::Terminated), Action::Halt);
    assert_eq!(l.phase(), Phase::Halted);
    assert_eq!(l.step(Event::Returned), Action::Wait);
    assert_eq!(l.step(Event::Start), Action::Wait);
    assert_eq!(l.cursor(), 0);
    assert_eq!(l.phase(), Phase::Halted);
}

#[test]
fn empty_container_finishes_at_once() {
    let mut l = Loader::from_container(&[0, 0, 0, 0], IsolationMode::PerAppDomain, 64).unwrap();
    assert_eq!(l.step(Event::Start), Action::Finished);
    assert_eq!(l.phase(), Phase::Idle);
    assert_eq!(l.step(Event::Returned), Action::Wait);
}

#[test]
fn app_larger_than_window_aborts() {
    let mut l = Loader::from_container(&two_app_container(), IsolationMode::SingleWindow, 1).unwrap();
    assert_eq!(l.step(Event::Start), Action::Copy { source_offset: 12, size: 1 });
    l.step(Event::Copied);
    assert_eq!(l.step(Event::Returned), Action::Abort(LoadError::WindowOverflow));
    assert_eq!(l.phase(), Phase::Failed);
    assert_eq!(l.step(Event::Terminated), Action::Wait);
}

#[test]
fn malformed_container_is_refused() {
    assert!(matches!(
        Loader::from_container(&[0, 0, 0, 1], IsolationMode::PerAppDomain, 64),
        Err(LoadError::MalformedContainer)
    ));
}

#[test]
fn out_of_order_events_change_nothing() {
    let mut l = Loader::from_container(&two_app_container(), IsolationMode::PerAppDomain, 64).unwrap();
    assert_eq!(l.step(Event::Copied), Action::Wait);
    assert_eq!(l.phase(), Phase::Ready);
    assert_eq!(l.step(Event::Start), Action::Activate(0));
    assert_eq!(l.step(Event::Returned), Action::Wait);
    assert_eq!(l.phase(), Phase::Activating);
}
