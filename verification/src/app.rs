//! The dashboard's state and how it reacts to events.
//!
//! The terminal, the event queue and the shared flag that stops the sensor and
//! query workers live outside the library; they hand the library plain events
//! and carry out what it returns.
use vstd::arithmetic::div_mod::lemma_add_mod_noop;
use vstd::arithmetic::div_mod::lemma_small_mod;
use vstd::prelude::*;

verus! {

/// Command-line settings: how many sensors to simulate and the delay between
/// two readings of a sensor, in milliseconds.
pub struct Args {
    pub count: usize,
    pub delay: u64,
}

impl Default for Args {
    /// Four sensors, one reading per second.
    fn default() -> (args: Self)
        ensures
            args.count == 4,
            args.delay == 1000,
    {
        Args { count: 4, delay: 1000 }
    }
}

/// The key of a key press, as far as the dashboard tells keys apart.
#[derive(Clone, Copy, Debug, PartialEq, Eq)]
pub enum KeyCode {
    Esc,
    Char(char),
    Up,
    Down,
    Other,
}

/// The bit of the modifier set that stands for the Control key.
pub const CONTROL_MODIFIER: u8 = 0b0000_0010u8;

/// A key press: the key and the set of modifier keys held with it, one bit
/// per modifier (Shift, Control, Alt, Super, Hyper, Meta from the lowest bit).
#[derive(Clone, Copy, Debug, PartialEq, Eq)]
pub struct KeyInput {
    pub code: KeyCode,
    pub modifiers: u8,
}

/// What the dashboard asks of itself.
#[derive(Clone, Copy, Debug, PartialEq, Eq)]
pub enum AppEvent {
    Increment,
    Decrement,
    Quit,
}

/// What the event loop hands the dashboard: a tick of the frame clock, a key
/// press, any other terminal input (key releases, mouse, resizing), or an
/// event that the dashboard asked for.
#[derive(Clone, Copy, Debug, PartialEq, Eq)]
pub enum Event {
    Tick,
    KeyPress(KeyInput),
    OtherInput,
    App(AppEvent),
}

/// The dashboard's state.
pub struct App {
    pub sensor_count: usize,
    pub delay: u64,
    pub running: bool,
    pub selected_sensor: usize,
}

/// The event that a key press asks for: Esc and `q` quit, `c` or `C` with
/// Control alone quits, Down selects the next sensor and Up the previous one.
pub open spec fn key_action(key: KeyInput) -> Option<AppEvent> {
    match key.code {
        KeyCode::Esc => Some(AppEvent::Quit),
        KeyCode::Char(c) => {
            if c == 'q' {
                Some(AppEvent::Quit)
            } else if (c == 'c' || c == 'C') && key.modifiers == CONTROL_MODIFIER {
                Some(AppEvent::Quit)
            } else {
                None
            }
        },
        KeyCode::Down => Some(AppEvent::Increment),
        KeyCode::Up => Some(AppEvent::Decrement),
        KeyCode::Other => None,
    }
}

/// The selection after moving down: one further (saturating at the largest
/// `usize`), wrapped around the number of sensors.
pub open spec fn selection_after_increment(selected: usize, count: usize) -> usize {
    let next: int = if selected < usize::MAX { selected + 1 } else { selected as int };
    (next % (count as int)) as usize
}

/// The selection after moving up: one back, from the first sensor to the last.
pub open spec fn selection_after_decrement(selected: usize, count: usize) -> usize {
    if selected == 0 {
        (count - 1) as usize
    } else {
        (selected - 1) as usize
    }
}

/// The state after the dashboard reacts to `event`: a queued event moves the
/// selection or stops the dashboard; ticks and terminal input change nothing.
pub open spec fn after_event(app: App, event: Event) -> App {
    match event {
        Event::App(AppEvent::Increment) => App {
            selected_sensor: selection_after_increment(app.selected_sensor, app.sensor_count),
            ..app
        },
        Event::App(AppEvent::Decrement) => App {
            selected_sensor: selection_after_decrement(app.selected_sensor, app.sensor_count),
            ..app
        },
        Event::App(AppEvent::Quit) => App { running: false, ..app },
        _ => app,
    }
}

/// The event that the dashboard queues next after reacting to `event`: only a
/// key press asks for one.
pub open spec fn event_reply(event: Event) -> Option<AppEvent> {
    match event {
        Event::KeyPress(key) => key_action(key),
        _ => None,
    }
}

/// An event that changes the selection needs at least one sensor.
pub open spec fn event_allowed(app: App, event: Event) -> bool {
    (event == Event::App(AppEvent::Increment) || event == Event::App(AppEvent::Decrement))
        ==> app.sensor_count > 0
}

impl App {
    /// A running dashboard for the given settings, with the first sensor selected.
    pub fn new(args: Args) -> (app: Self)
        ensures
            app.sensor_count == args.count,
            app.delay == args.delay,
            app.running,
            app.selected_sensor == 0,
    {
        App { sensor_count: args.count, delay: args.delay, running: true, selected_sensor: 0 }
    }

    /// The event that a key press asks for, if any; the state does not change.
    pub fn handle_key_events(&self, key_event: KeyInput) -> (sent: Option<AppEvent>)
        ensures
            sent == key_action(key_event),
    {
        match key_event.code {
            KeyCode::Esc => Some(AppEvent::Quit),
            KeyCode::Char(c) => {
                if c == 'q' {
                    Some(AppEvent::Quit)
                } else if (c == 'c' || c == 'C') && key_event.modifiers == CONTROL_MODIFIER {
                    Some(AppEvent::Quit)
                } else {
                    None
                }
            },
            KeyCode::Down => Some(AppEvent::Increment),
            KeyCode::Up => Some(AppEvent::Decrement),
            KeyCode::Other => None,
        }
    }

    /// The frame clock ticked; nothing in the state depends on it.
    pub fn tick(&self) {
    }

    /// Stops the dashboard and, through it, the sensor and query workers.
    pub fn quit(&mut self)
        ensures
            !final(self).running,
            final(self).sensor_count == old(self).sensor_count,
            final(self).selected_sensor == old(self).selected_sensor,
            final(self).delay == old(self).delay,
    {
        self.running = false;
    }

    /// Selects the next sensor, from the last back to the first.
    pub fn increment_counter(&mut self)
        requires
            old(self).sensor_count > 0,
        ensures
            final(self).selected_sensor == selection_after_increment(
                old(self).selected_sensor,
                old(self).sensor_count,
            ),
            final(self).sensor_count == old(self).sensor_count,
            final(self).running == old(self).running,
            final(self).delay == old(self).delay,
    {
        self.selected_sensor = self.selected_sensor.saturating_add(1) % self.sensor_count;
    }

    /// Selects the previous sensor, from the first to the last.
    pub fn decrement_counter(&mut self)
        requires
            old(self).sensor_count > 0,
        ensures
            final(self).selected_sensor == selection_after_decrement(
                old(self).selected_sensor,
                old(self).sensor_count,
            ),
            final(self).sensor_count == old(self).sensor_count,
            final(self).running == old(self).running,
            final(self).delay == old(self).delay,
    {
        if self.selected_sensor == 0 {
            self.selected_sensor = self.sensor_count - 1;
        } else {
            self.selected_sensor -= 1;
        }
    }

    /// One turn of the event loop: reacts to `event` and returns the event, if
    /// any, that the loop is to queue next. Only a queued event changes the
    /// state; a key press only asks for one.
    pub fn handle_event(&mut self, event: Event) -> (sent: Option<AppEvent>)
        requires
            event_allowed(*old(self), event),
        ensures
            *final(self) == after_event(*old(self), event),
            sent == event_reply(event),
    {
        match event {
            Event::Tick => {
                self.tick();
                None
            },
            Event::KeyPress(key) => self.handle_key_events(key),
            Event::OtherInput => None,
            Event::App(app_event) => {
                match app_event {
                    AppEvent::Increment => self.increment_counter(),
                    AppEvent::Decrement => self.decrement_counter(),
                    AppEvent::Quit => self.quit(),
                }
                None
            },
        }
    }
}

/// Exactly Esc, `q`, and `c` or `C` with Control as the only modifier quit;
/// exactly Down moves the selection down and exactly Up moves it up; every
/// other key press asks for nothing.
pub proof fn lemma_key_meanings(key: KeyInput)
    ensures
        key_action(key) == Some(AppEvent::Quit) <==> (key.code == KeyCode::Esc || key.code
            == KeyCode::Char('q') || ((key.code == KeyCode::Char('c') || key.code == KeyCode::Char(
            'C',
        )) && key.modifiers == 2u8)),
        key_action(key) == Some(AppEvent::Increment) <==> key.code == KeyCode::Down,
        key_action(key) == Some(AppEvent::Decrement) <==> key.code == KeyCode::Up,
        key_action(key) is None <==> !(key.code == KeyCode::Esc || key.code == KeyCode::Char('q')
            || ((key.code == KeyCode::Char('c') || key.code == KeyCode::Char('C')) && key.modifiers
            == 2u8) || key.code == KeyCode::Down || key.code == KeyCode::Up),
{
}

/// Only queued events change the dashboard: a tick, a key press or other
/// terminal input leaves the whole state as it was, and only a queued
/// Increment or Decrement moves the selection.
pub proof fn lemma_only_queued_events_act(app: App, event: Event)
    ensures
        (event == Event::Tick || event == Event::OtherInput || event is KeyPress) ==> after_event(
            app,
            event,
        ) == app,
        after_event(app, event).selected_sensor != app.selected_sensor ==> (event == Event::App(
            AppEvent::Increment,
        ) || event == Event::App(AppEvent::Decrement)),
        after_event(app, event).sensor_count == app.sensor_count,
        after_event(app, event).delay == app.delay,
{
}

/// A queued Increment selects the next sensor and a queued Decrement the
/// previous one, wrapping around the configured sensors; a queued Quit only
/// stops the dashboard. Nothing else in the state changes.
pub proof fn lemma_queued_events_move_and_quit(app: App)
    requires
        app.sensor_count > 0,
    ensures
        ({
            let up = after_event(app, Event::App(AppEvent::Increment));
            let down = after_event(app, Event::App(AppEvent::Decrement));
            let sel = app.selected_sensor as int;
            let n = app.sensor_count as int;
            &&& sel < n ==> up.selected_sensor == (if sel + 1 == n { 0 } else { sel + 1 })
            &&& sel == usize::MAX ==> up.selected_sensor == sel % n
            &&& sel < n ==> down.selected_sensor == (if sel == 0 { n - 1 } else { sel - 1 })
            &&& up.running == app.running && down.running == app.running
            &&& up.sensor_count == app.sensor_count && down.sensor_count == app.sensor_count
            &&& up.delay == app.delay && down.delay == app.delay
        }),
        after_event(app, Event::App(AppEvent::Quit)) == (App { running: false, ..app }),
{
    let sel = app.selected_sensor as int;
    let n = app.sensor_count as int;
    if sel < n {
        if sel + 1 < n {
            lemma_small_mod((sel + 1) as nat, n as nat);
        } else {
            vstd::arithmetic::div_mod::lemma_mod_self_0(n);
        }
    }
    vstd::arithmetic::div_mod::lemma_mod_pos_bound(sel, n);
}

/// The state after reacting to each of `events` in turn.
pub open spec fn after_events(app: App, events: Seq<Event>) -> App
    decreases events.len(),
{
    if events.len() == 0 {
        app
    } else {
        after_event(after_events(app, events.drop_last()), events.last())
    }
}

/// The selection after moving down `k` times.
pub open spec fn selection_after_increments(selected: usize, count: usize, k: nat) -> usize
    decreases k,
{
    if k == 0 {
        selected
    } else {
        selection_after_increment(selection_after_increments(selected, count, (k - 1) as nat), count)
    }
}

/// With at least one sensor, moving the selection keeps it on a sensor.
pub proof fn lemma_selection_stays_in_range(selected: usize, count: usize)
    requires
        count > 0,
    ensures
        selection_after_increment(selected, count) < count,
        selected < count ==> selection_after_decrement(selected, count) < count,
{
}

/// Moving the selection down and then up, or up and then down, comes back to
/// the sensor that was selected.
pub proof fn lemma_up_and_down_cancel(selected: usize, count: usize)
    requires
        selected < count,
    ensures
        selection_after_decrement(selection_after_increment(selected, count), count) == selected,
        selection_after_increment(selection_after_decrement(selected, count), count) == selected,
{
    if selected + 1 < count {
        lemma_small_mod((selected + 1) as nat, count as nat);
    } else {
        assert((count as int) % (count as int) == 0) by {
            lemma_small_mod(0, count as nat);
            lemma_add_mod_noop(0, count as int, count as int);
        }
    }
    if selected == 0 {
        assert((count as int) % (count as int) == 0) by {
            lemma_small_mod(0, count as nat);
            lemma_add_mod_noop(0, count as int, count as int);
        }
    } else {
        lemma_small_mod(selected as nat, count as nat);
    }
}

/// Moving down `k` times from a sensor selects the sensor `k` places further,
/// counted around the ring of sensors.
proof fn lemma_increments_mod(selected: usize, count: usize, k: nat)
    requires
        selected < count,
    ensures
        selection_after_increments(selected, count, k) == (selected + k) % (count as int),
    decreases k,
{
    if k > 0 {
        lemma_increments_mod(selected, count, (k - 1) as nat);
        let prev = selection_after_increments(selected, count, (k - 1) as nat);
        lemma_add_mod_noop(selected + k - 1, 1, count as int);
        if count > 1 {
            lemma_small_mod(1, count as nat);
        }
        lemma_small_mod(prev as nat, count as nat);
    } else {
        lemma_small_mod(selected as nat, count as nat);
    }
}

/// Moving down `k` times from a sensor selects the sensor `k` places further,
/// counted around the ring of sensors; `count` moves come back to the start.
pub proof fn lemma_increments_wrap_around(selected: usize, count: usize, k: nat)
    requires
        selected < count,
    ensures
        selection_after_increments(selected, count, k) == (selected + k) % (count as int),
        selection_after_increments(selected, count, count as nat) == selected,
{
    lemma_increments_mod(selected, count, k);
    lemma_increments_mod(selected, count, count as nat);
    lemma_small_mod(selected as nat, count as nat);
    assert((selected + count) % (count as int) == selected) by {
        lemma_add_mod_noop(selected as int, count as int, count as int);
        lemma_small_mod(0, count as nat);
        lemma_add_mod_noop(0, count as int, count as int);
    }
}

/// The dashboard keeps running through any events until it reacts to a quit
/// event; from then on it stays stopped. The number of sensors never changes.
pub proof fn lemma_runs_until_quit(app: App, events: Seq<Event>)
    ensures
        after_events(app, events).running == (app.running && !events.contains(
            Event::App(AppEvent::Quit),
        )),
        after_events(app, events).sensor_count == app.sensor_count,
    decreases events.len(),
{
    if events.len() > 0 {
        let init = events.drop_last();
        lemma_runs_until_quit(app, init);
        assert forall|e: Event| events.contains(e) <==> (init.contains(e) || e == events.last()) by {
            if events.contains(e) {
                let i = choose|i: int| 0 <= i < events.len() && events[i] == e;
                if i < events.len() - 1 {
                    assert(init[i] == e);
                }
            }
            if init.contains(e) {
                let i = choose|i: int| 0 <= i < init.len() && init[i] == e;
                assert(events[i] == e);
            }
            if e == events.last() {
                assert(events[events.len() - 1] == e);
            }
        }
    }
}

} // verus!
