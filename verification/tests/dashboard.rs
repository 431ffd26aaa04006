use telemetry_simulator::app::{App, AppEvent, Args, Event, KeyCode, KeyInput, CONTROL_MODIFIER};

fn app_with(count: usize) -> App {
    App::new(Args { count, delay: 250 })
}

fn key(code: KeyCode) -> KeyInput {
    KeyInput { code, modifiers: 0 }
}

#[test]
fn default_args_are_four_sensors_and_one_second() {
    let args = Args::default();
    assert_eq!(args.count, 4);
    assert_eq!(args.delay, 1000);
}

#[test]
fn new_app_runs_with_first_sensor_selected() {
    let app = App::new(Args { count: 6, delay: 500 });
    assert_eq!(app.sensor_count, 6);
    assert_eq!(app.delay, 500);
    assert!(app.running);
    assert_eq!(app.selected_sensor, 0);
}

#[test]
fn quit_keys() {
    let app = app_with(4);
    assert_eq!(app.handle_key_events(key(KeyCode::Esc)), Some(AppEvent::Quit));
    assert_eq!(app.handle_key_events(key(KeyCode::Char('q'))), Some(AppEvent::Quit));
    let ctrl_q = KeyInput { code: KeyCode::Char('q'), modifiers: CONTROL_MODIFIER };
    assert_eq!(app.handle_key_events(ctrl_q), Some(AppEvent::Quit));
    for c in ['c', 'C'] {
        let ctrl_c = KeyInput { code: KeyCode::Char(c), modifiers: CONTROL_MODIFIER };
        assert_eq!(app.handle_key_events(ctrl_c), Some(AppEvent::Quit));
    }
}

#[test]
fn c_without_control_alone_does_nothing() {
    let app = app_with(4);
    assert_eq!(app.handle_key_events(key(KeyCode::Char('c'))), None);
    // Control together with Shift is not Control alone.
    let ctrl_shift_c = KeyInput { code: KeyCode::Char('C'), modifiers: CONTROL_MODIFIER | 0b1 };
    assert_eq!(app.handle_key_events(ctrl_shift_c), None);
    assert_eq!(app.handle_key_events(key(KeyCode::Char('x'))), None);
    assert_eq!(app.handle_key_events(key(KeyCode::Other)), None);
}

#[test]
fn arrow_keys_move_the_selection() {
    let app = app_with(4);
    assert_eq!(app.handle_key_events(key(KeyCode::Down)), Some(AppEvent::Increment));
    assert_eq!(app.handle_key_events(key(KeyCode::Up)), Some(AppEvent::Decrement));
}

#[test]
fn increment_wraps_to_first_sensor() {
    let mut app = app_with(3);
    app.increment_counter();
    assert_eq!(app.selected_sensor, 1);
    app.increment_counter();
    assert_eq!(app.selected_sensor, 2);
    app.increment_counter();
    assert_eq!(app.selected_sensor, 0);
}

#[test]
fn increment_saturates_before_wrapping() {
    let mut app = app_with(7);
    app.selected_sensor = usize::MAX;
    app.increment_counter();
    assert_eq!(app.selected_sensor, usize::MAX % 7);
}

#[test]
fn decrement_wraps_to_last_sensor() {
    let mut app = app_with(3);
    app.decrement_counter();
    assert_eq!(app.selected_sensor, 2);
    app.decrement_counter();
    assert_eq!(app.selected_sensor, 1);
}

#[test]
fn up_and_down_cancel() {
    for count in 1..6usize {
        for start in 0..count {
            let mut app = app_with(count);
            app.selected_sensor = start;
            app.increment_counter();
            assert!(app.selected_sensor < count);
            app.decrement_counter();
            assert_eq!(app.selected_sensor, start);
            app.decrement_counter();
            assert!(app.selected_sensor < count);
            app.increment_counter();
            assert_eq!(app.selected_sensor, start);
        }
    }
}

#[test]
fn count_increments_come_back() {
    let mut app = app_with(5);
    app.selected_sensor = 3;
    for k in 1..=5usize {
        app.increment_counter();
        assert_eq!(app.selected_sensor, (3 + k) % 5);
    }
    assert_eq!(app.selected_sensor, 3);
}

#[test]
fn quit_stops_running() {
    let mut app = app_with(2);
    app.quit();
    assert!(!app.running);
    assert_eq!(app.sensor_count, 2);
}

#[test]
fn tick_changes_nothing() {
    let mut app = app_with(2);
    app.tick();
    assert_eq!(app.handle_event(Event::Tick), None);
    assert!(app.running);
    assert_eq!(app.selected_sensor, 0);
}

#[test]
fn key_press_asks_for_an_event_without_acting() {
    let mut app = app_with(3);
    assert_eq!(app.handle_event(Event::KeyPress(key(KeyCode::Down))), Some(AppEvent::Increment));
    assert_eq!(app.selected_sensor, 0);
    assert_eq!(app.handle_event(Event::KeyPress(key(KeyCode::Esc))), Some(AppEvent::Quit));
    assert!(app.running);
    assert_eq!(app.handle_event(Event::OtherInput), None);
}

#[test]
fn queued_events_act() {
    let mut app = app_with(3);
    assert_eq!(app.handle_event(Event::App(AppEvent::Increment)), None);
    assert_eq!(app.selected_sensor, 1);
    assert_eq!(app.handle_event(Event::App(AppEvent::Decrement)), None);
    assert_eq!(app.handle_event(Event::App(AppEvent::Decrement)), None);
    assert_eq!(app.selected_sensor, 2);
    assert_eq!(app.handle_event(Event::App(AppEvent::Quit)), None);
    assert!(!app.running);
}

#[test]
fn stopped_app_stays_stopped() {
    let mut app = app_with(3);
    app.handle_event(Event::App(AppEvent::Quit));
    let events = [
        Event::Tick,
        Event::KeyPress(key(KeyCode::Down)),
        Event::App(AppEvent::Increment),
        Event::App(AppEvent::Decrement),
        Event::OtherInput,
    ];
    for e in events {
        app.handle_event(e);
        assert!(!app.running);
        assert_eq!(app.sensor_count, 3);
    }
}
