use focusd::daemon::{Action, Event, FocusSource, LoopState, Phase, Sampler};
use focusd::date::Date;
use focusd::db::Db;
use focusd::focus::FocusedWindow;
use focusd::x11::X11Backend;

fn window(app: &str) -> FocusedWindow {
    FocusedWindow { app_identity: app.to_string(), title: "title".to_string() }
}

fn accumulate(app: &str, seconds: u64) -> Action {
    Action::Accumulate { app_identity: app.to_string(), title: "title".to_string(), seconds }
}

#[test]
fn a_tick_attributes_the_interval_to_the_focused_application() {
    let (mut s, first) = Sampler::new(5, FocusSource::Compositor);
    assert_eq!(first, Action::Sleep(5));
    assert_eq!(s.step(Event::Slept), Action::QueryIdle);
    assert_eq!(s.step(Event::Idle(false)), Action::QueryFocus(FocusSource::Compositor));
    assert_eq!(s.state, LoopState::Active);
    assert_eq!(s.step(Event::Focus(Some(window("Firefox")))), accumulate("Firefox", 5));
    assert_eq!(s.phase, Phase::AwaitStore);
    assert_eq!(s.step(Event::Stored(true)), Action::Sleep(5));
    assert_eq!(s.phase, Phase::Sleeping);
}

#[test]
fn an_idle_tick_attributes_nothing() {
    let (mut s, _) = Sampler::new(1, FocusSource::Compositor);
    s.step(Event::Slept);
    assert_eq!(s.step(Event::Idle(true)), Action::Sleep(1));
    assert_eq!(s.state, LoopState::IdleSkipped);
    assert_eq!(s.phase, Phase::Sleeping);
    assert_eq!(s.step(Event::Focus(Some(window("Firefox")))), Action::Sleep(1));
    assert_eq!(s.phase, Phase::Sleeping);
    assert_eq!(s.step(Event::Slept), Action::QueryIdle);
    assert_eq!(s.step(Event::Idle(false)), Action::QueryFocus(FocusSource::Compositor));
    assert_eq!(s.state, LoopState::Active);
}

#[test]
fn no_focus_attributes_nothing() {
    let (mut s, _) = Sampler::new(1, FocusSource::Compositor);
    s.step(Event::Slept);
    s.step(Event::Idle(false));
    assert_eq!(s.step(Event::Focus(None)), Action::Sleep(1));
    assert_eq!(s.phase, Phase::Sleeping);
}

#[test]
fn a_blank_identity_attributes_nothing() {
    for blank in ["", " ", "\t\n"] {
        let (mut s, _) = Sampler::new(1, FocusSource::Compositor);
        s.step(Event::Slept);
        s.step(Event::Idle(false));
        assert_eq!(s.step(Event::Focus(Some(window(blank)))), Action::Sleep(1));
    }
    let (mut s, _) = Sampler::new(1, FocusSource::Compositor);
    s.step(Event::Slept);
    s.step(Event::Idle(false));
    assert_eq!(s.step(Event::Focus(Some(window(" a ")))), accumulate(" a ", 1));
}

#[test]
fn a_failed_write_does_not_halt_sampling() {
    let (mut s, _) = Sampler::new(2, FocusSource::Compositor);
    s.step(Event::Slept);
    s.step(Event::Idle(false));
    s.step(Event::Focus(Some(window("Firefox"))));
    assert_eq!(s.step(Event::Stored(false)), Action::Sleep(2));
    assert_eq!(s.step(Event::Slept), Action::QueryIdle);
    assert_eq!(s.step(Event::Idle(false)), Action::QueryFocus(FocusSource::Compositor));
    assert_eq!(s.step(Event::Focus(Some(window("Firefox")))), accumulate("Firefox", 2));
}

#[test]
fn an_absent_source_is_never_asked() {
    let source = FocusSource::select(false, None);
    assert_eq!(source, FocusSource::Absent);
    assert!(source.is_absent());
    let (mut s, _) = Sampler::new(1, source);
    for _ in 0..3 {
        assert_eq!(s.step(Event::Slept), Action::QueryIdle);
        assert_eq!(s.step(Event::Idle(false)), Action::Sleep(1));
    }
}

#[test]
fn the_source_is_chosen_by_the_signature_of_the_compositor() {
    let backend = X11Backend::new(Some(1), Some(2), Some(3), Some(4));
    assert_eq!(FocusSource::select(true, None), FocusSource::Compositor);
    assert_eq!(FocusSource::select(true, backend), FocusSource::Compositor);
    assert_eq!(FocusSource::select(false, backend), FocusSource::DirectProtocol(backend.unwrap()));
    assert!(FocusSource::needs_backend(false));
    assert!(!FocusSource::needs_backend(true));
    assert!(!FocusSource::Compositor.is_absent());
}

#[test]
fn an_event_out_of_turn_ends_the_tick() {
    let (mut s, _) = Sampler::new(1, FocusSource::Compositor);
    assert_eq!(s.step(Event::Stored(true)), Action::Sleep(1));
    assert_eq!(s.step(Event::Idle(false)), Action::Sleep(1));
    s.step(Event::Slept);
    assert_eq!(s.step(Event::Slept), Action::Sleep(1));
    assert_eq!(s.phase, Phase::Sleeping);
    s.step(Event::Slept);
    s.step(Event::Idle(false));
    assert_eq!(s.step(Event::Stored(true)), Action::Sleep(1));
}

#[test]
fn ticks_fill_the_store() {
    let mut db = Db::new();
    let today = Date::from_ymd(2024, 5, 6).unwrap();
    let (mut s, _) = Sampler::new(3, FocusSource::Compositor);
    let idle = [false, true, false, false];
    let focus = [Some("A"), Some("A"), None, Some("A")];
    for tick in 0..4 {
        s.step(Event::Slept);
        if let Action::QueryFocus(_) = s.step(Event::Idle(idle[tick])) {
            let seen = focus[tick].map(window);
            if let Action::Accumulate { app_identity, seconds, .. } = s.step(Event::Focus(seen)) {
                let stored = db.accumulate(&app_identity, today, seconds).is_ok();
                s.step(Event::Stored(stored));
            }
        }
    }
    assert_eq!(db.seconds_for("A", today), 6);
}
