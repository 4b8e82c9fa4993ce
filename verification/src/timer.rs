//! Timer switcher: named count-up timers, one of them active, with pause,
//! reset and a once-per-second tick of the active timer.

use vstd::prelude::*;
use std::time::Instant;
use crate::event::{ActionType, ActionView};
use crate::keys::{Key, KeyOutcome};
use crate::tracker::Color;
use crate::text::{decimal, decimal_text};

verus! {

/// `std::time::Instant`, carried through the timer state as an opaque value.
#[verifier::external_type_specification]
#[verifier::external_body]
pub struct ExInstant(Instant);

/// Reads the monotonic clock with `Instant::now`. Nothing is stated of the
/// reading: it depends on the time of the call.
#[verifier::external_body]
fn clock_now() -> (r: Instant) {
    Instant::now()
}

/// The whole seconds from the clock reading `earlier` to the reading `now`
/// (zero when `now` is not later).
pub uninterp spec fn whole_secs_between(now: Instant, earlier: Instant) -> u64;

/// `Instant::duration_since`, read in whole seconds with `Duration::as_secs`.
/// Its result is named `whole_secs_between`: it depends on the two readings
/// alone (the source saturates at zero when `earlier` is later).
#[verifier::external_body]
fn secs_between(now: &Instant, earlier: &Instant) -> (r: u64)
    ensures
        r == whole_secs_between(*now, *earlier),
{
    now.duration_since(*earlier).as_secs()
}

/// `n` written with at least two digits, as `{:02}` writes it.
pub open spec fn two_digits(n: nat) -> Seq<char> {
    if n < 10 {
        seq!['0'] + decimal(n)
    } else {
        decimal(n)
    }
}

/// `seconds` as `HH:MM:SS` (hours keep all their digits past two).
pub open spec fn clock_text(seconds: nat) -> Seq<char> {
    two_digits(seconds / 3600) + seq![':'] + two_digits((seconds % 3600) / 60) + seq![':']
        + two_digits(seconds % 60)
}

fn append_two_digits(out: &mut String, n: u64)
    ensures
        final(out)@ == old(out)@ + two_digits(n as nat),
{
    if n < 10 {
        proof { reveal_strlit("0"); }
        out.append("0");
        assert("0"@ =~= seq!['0']);
    }
    let d = decimal_text(n);
    out.append(d.as_str());
    assert(final(out)@ =~= old(out)@ + two_digits(n as nat));
}

/// Format elapsed seconds as `HH:MM:SS`.
pub fn format_elapsed(seconds: u64) -> (r: String)
    ensures
        r@ == clock_text(seconds as nat),
{
    let h = seconds / 3600;
    let m = (seconds % 3600) / 60;
    let s = seconds % 60;
    let mut r = String::new();
    proof { reveal_strlit(":"); }
    append_two_digits(&mut r, h);
    r.append(":");
    append_two_digits(&mut r, m);
    r.append(":");
    append_two_digits(&mut r, s);
    assert(r@ =~= clock_text(seconds as nat));
    r
}

/// A single named timer with elapsed time in seconds.
#[derive(Debug)]
pub struct Timer {
    pub name: String,
    pub elapsed: u64,
}

impl Clone for Timer {
    fn clone(&self) -> (r: Self)
        ensures
            r == *self,
    {
        Timer { name: self.name.clone(), elapsed: self.elapsed }
    }
}

/// Commands that change the timers.
#[derive(Debug, Clone, Copy, PartialEq, Eq, Structural)]
pub enum TimerCommand {
    Cycle,
    SwitchTo(usize),
    TogglePause,
    Reset,
}

/// All timer state: the timers, which one is active, whether counting is
/// paused, and when the last counted second was taken.
#[derive(Debug)]
pub struct TimerState {
    pub timers: Vec<Timer>,
    pub active_index: usize,
    pub paused: bool,
    /// When the last second was counted by `tick`.
    pub last_tick: Option<Instant>,
}

/// The timers of `s` with the active one set to `elapsed`.
pub open spec fn with_active_elapsed(s: Seq<Timer>, a: int, elapsed: int) -> Seq<Timer> {
    s.update(a, Timer { name: s[a].name, elapsed: elapsed as u64 })
}

/// Whether a tick counts a second, given the whole seconds since the last
/// counted one (`None` when none has been counted yet): always for the
/// first, afterwards once at least one whole second has passed.
pub fn second_due(whole_secs_since_last: Option<u64>) -> (r: bool)
    ensures
        r == (match whole_secs_since_last {
            None => true,
            Some(secs) => secs >= 1,
        }),
{
    match whole_secs_since_last {
        None => true,
        Some(secs) => secs >= 1,
    }
}

impl TimerState {
    /// The active index points at a timer whenever there is one.
    pub open spec fn wf(&self) -> bool {
        self.timers@.len() > 0 ==> self.active_index < self.timers@.len()
    }

    /// A second has been counted since the state was created.
    pub open spec fn has_ticked(&self) -> bool {
        self.last_tick is Some
    }

    /// A tick can count a second: when running with timers, the active index
    /// points at a timer that has room for one more second.
    pub open spec fn can_count(&self) -> bool {
        (!self.paused && self.timers@.len() > 0) ==> (self.active_index < self.timers@.len()
            && self.timers@[self.active_index as int].elapsed < u64::MAX)
    }

    /// Whether a tick at the clock reading `now` counts a second: the
    /// timers run, there is one, and no second was counted yet or at least
    /// one whole second has passed since the last counted one.
    pub open spec fn counts_at(&self, now: Instant) -> bool {
        &&& !self.paused
        &&& self.timers@.len() > 0
        &&& match self.last_tick {
            None => true,
            Some(last) => whole_secs_between(now, last) >= 1,
        }
    }

    /// The timers after one more second of the active timer.
    pub open spec fn counted(&self) -> Seq<Timer> {
        with_active_elapsed(
            self.timers@,
            self.active_index as int,
            self.timers@[self.active_index as int].elapsed + 1,
        )
    }

    /// Create a timer for each name, all at zero, the first one active.
    pub fn new(names: Vec<String>) -> (s: Self)
        ensures
            s.timers@.len() == names@.len(),
            forall|i: int|
                0 <= i < names@.len() ==> (#[trigger] s.timers@[i]).name == names@[i]
                    && s.timers@[i].elapsed == 0,
            s.active_index == 0,
            !s.paused,
            !s.has_ticked(),
            s.wf(),
    {
        let mut timers: Vec<Timer> = Vec::new();
        for i in 0..names.len()
            invariant
                timers@.len() == i,
                forall|k: int|
                    0 <= k < i ==> (#[trigger] timers@[k]).name == names@[k] && timers@[k].elapsed
                        == 0,
        {
            timers.push(Timer { name: names[i].clone(), elapsed: 0 });
        }
        Self { timers, active_index: 0, paused: false, last_tick: None }
    }

    /// Move to the next timer, wrapping around.
    pub fn cycle(&mut self)
        requires
            old(self).timers@.len() > 0 ==> old(self).active_index < usize::MAX,
        ensures
            final(self).wf(),
            final(self).timers@ == old(self).timers@,
            final(self).paused == old(self).paused,
            final(self).last_tick == old(self).last_tick,
            final(self).active_index == (if old(self).timers@.len() > 0 {
                ((old(self).active_index + 1) % (old(self).timers@.len() as int)) as usize
            } else {
                old(self).active_index
            }),
    {
        let n = self.timers.len();
        if n > 0 {
            self.active_index = (self.active_index + 1) % n;
        }
    }

    /// Make the timer at `index` active (ignored when out of range).
    pub fn switch_to(&mut self, index: usize)
        ensures
            old(self).wf() ==> final(self).wf(),
            final(self).timers@ == old(self).timers@,
            final(self).paused == old(self).paused,
            final(self).last_tick == old(self).last_tick,
            final(self).active_index == (if index < old(self).timers@.len() {
                index
            } else {
                old(self).active_index
            }),
    {
        if index < self.timers.len() {
            self.active_index = index;
        }
    }

    /// Set the active timer back to zero.
    pub fn reset(&mut self)
        requires
            old(self).wf(),
        ensures
            final(self).wf(),
            final(self).active_index == old(self).active_index,
            final(self).paused == old(self).paused,
            final(self).last_tick == old(self).last_tick,
            final(self).timers@ == (if old(self).timers@.len() > 0 {
                with_active_elapsed(old(self).timers@, old(self).active_index as int, 0)
            } else {
                old(self).timers@
            }),
    {
        if !self.timers.is_empty() {
            let a = self.active_index;
            let mut t = self.timers[a].clone();
            t.elapsed = 0;
            self.timers.set(a, t);
        }
    }

    /// Count one second on the active timer if it is running and `due`,
    /// remembering `now` as the time of that count.
    pub fn tick_if_due(&mut self, now: Instant, due: bool)
        requires
            due ==> old(self).can_count(),
        ensures
            old(self).wf() ==> final(self).wf(),
            final(self).active_index == old(self).active_index,
            final(self).paused == old(self).paused,
            final(self).timers@ == (if !old(self).paused && old(self).timers@.len() > 0 && due {
                old(self).counted()
            } else {
                old(self).timers@
            }),
            final(self).has_ticked() == (old(self).has_ticked() || (!old(self).paused
                && old(self).timers@.len() > 0 && due)),
            !(!old(self).paused && old(self).timers@.len() > 0 && due) ==> final(self).last_tick
                == old(self).last_tick,
            (!old(self).paused && old(self).timers@.len() > 0 && due) ==> final(self).last_tick
                == Some(now),
    {
        if self.paused || self.timers.is_empty() {
            return;
        }
        if due {
            let a = self.active_index;
            let mut t = self.timers[a].clone();
            t.elapsed = t.elapsed + 1;
            self.timers.set(a, t);
            self.last_tick = Some(now);
        }
    }

    /// Count one second on the active timer at the clock reading `now`, at
    /// most once per real second: the first call after creation counts, a
    /// later one counts when at least one whole second has passed since the
    /// last counted one; a count remembers `now`.
    pub fn tick_at(&mut self, now: Instant)
        requires
            old(self).can_count(),
        ensures
            old(self).wf() ==> final(self).wf(),
            final(self).active_index == old(self).active_index,
            final(self).paused == old(self).paused,
            final(self).timers@ == (if old(self).counts_at(now) {
                old(self).counted()
            } else {
                old(self).timers@
            }),
            final(self).last_tick == (if old(self).counts_at(now) {
                Some(now)
            } else {
                old(self).last_tick
            }),
    {
        if self.paused || self.timers.is_empty() {
            return;
        }
        let since = match &self.last_tick {
            None => None,
            Some(last) => Some(secs_between(&now, last)),
        };
        let due = second_due(since);
        self.tick_if_due(now, due);
    }

    /// Count one second on the active timer, at most once per real second
    /// (see `tick_at`), reading the clock for the time: what the clock reads
    /// is not stated, so the result is one of the two outcomes stated, and a
    /// count after an earlier one comes at least one whole second after it.
    pub fn tick(&mut self)
        requires
            old(self).can_count(),
        ensures
            old(self).wf() ==> final(self).wf(),
            final(self).active_index == old(self).active_index,
            final(self).paused == old(self).paused,
            final(self).timers@ == old(self).timers@ || (!old(self).paused
                && old(self).timers@.len() > 0 && final(self).timers@ == old(self).counted()),
            (old(self).paused || old(self).timers@.len() == 0) ==> final(self).timers@ == old(
                self,
            ).timers@,
            (!old(self).paused && old(self).timers@.len() > 0 && !old(self).has_ticked())
                ==> final(self).timers@ == old(self).counted(),
            final(self).has_ticked() == (old(self).has_ticked() || (!old(self).paused
                && old(self).timers@.len() > 0)),
            final(self).timers@ == old(self).timers@ ==> final(self).last_tick == old(self).last_tick,
            (old(self).last_tick is Some && final(self).timers@ != old(self).timers@)
                ==> whole_secs_between(final(self).last_tick->0, old(self).last_tick->0) >= 1,
    {
        let now = clock_now();
        self.tick_at(now);
    }

    /// Count one second on the active timer unless paused, without looking
    /// at the clock.
    pub fn tick_test(&mut self)
        requires
            old(self).can_count(),
        ensures
            old(self).wf() ==> final(self).wf(),
            final(self).active_index == old(self).active_index,
            final(self).paused == old(self).paused,
            final(self).last_tick == old(self).last_tick,
            final(self).timers@ == (if !old(self).paused && old(self).timers@.len() > 0 {
                old(self).counted()
            } else {
                old(self).timers@
            }),
    {
        if !self.paused && !self.timers.is_empty() {
            let a = self.active_index;
            let mut t = self.timers[a].clone();
            t.elapsed = t.elapsed + 1;
            self.timers.set(a, t);
        }
    }

    /// Flip the paused state.
    pub fn toggle_pause(&mut self)
        ensures
            final(self).paused == !old(self).paused,
            final(self).timers@ == old(self).timers@,
            final(self).active_index == old(self).active_index,
            final(self).last_tick == old(self).last_tick,
    {
        self.paused = !self.paused;
    }

    /// Number of timers.
    pub fn count(&self) -> (r: usize)
        ensures
            r == self.timers@.len(),
    {
        self.timers.len()
    }

    /// A copy of the names, elapsed times, active index and paused flag.
    pub fn snapshot(&self) -> (r: TimerSnapshot)
        ensures
            r.names@.len() == self.timers@.len(),
            r.elapsed@.len() == self.timers@.len(),
            forall|i: int| 0 <= i < self.timers@.len() ==> #[trigger] r.names@[i] == self.timers@[i].name,
            forall|i: int| 0 <= i < self.timers@.len() ==> #[trigger] r.elapsed@[i] == self.timers@[i].elapsed,
            r.active_index == self.active_index,
            r.paused == self.paused,
    {
        let mut names: Vec<String> = Vec::new();
        let mut elapsed: Vec<u64> = Vec::new();
        for i in 0..self.timers.len()
            invariant
                names@.len() == i,
                elapsed@.len() == i,
                forall|k: int| 0 <= k < i ==> #[trigger] names@[k] == self.timers@[k].name,
                forall|k: int| 0 <= k < i ==> #[trigger] elapsed@[k] == self.timers@[k].elapsed,
        {
            names.push(self.timers[i].name.clone());
            elapsed.push(self.timers[i].elapsed);
        }
        TimerSnapshot { names, elapsed, active_index: self.active_index, paused: self.paused }
    }
}

impl Default for TimerState {
    /// No timers, index 0, running.
    fn default() -> (s: Self)
        ensures
            s.timers@.len() == 0,
            s.active_index == 0,
            !s.paused,
            !s.has_ticked(),
    {
        TimerState { timers: Vec::new(), active_index: 0, paused: false, last_tick: None }
    }
}

/// A consistent snapshot of all timer states for rendering.
#[derive(Debug)]
pub struct TimerSnapshot {
    pub names: Vec<String>,
    pub elapsed: Vec<u64>,
    pub active_index: usize,
    pub paused: bool,
}

impl TimerSnapshot {
    /// Number of timers in this snapshot.
    pub fn count(&self) -> (r: usize)
        ensures
            r == self.names@.len(),
    {
        self.names.len()
    }
}

/// Executes a timer command on `state`.
pub fn execute(state: &mut TimerState, cmd: TimerCommand)
    requires
        match cmd {
            TimerCommand::Cycle => old(state).timers@.len() > 0 ==> old(state).active_index < usize::MAX,
            TimerCommand::Reset => old(state).wf(),
            _ => true,
        },
    ensures
        old(state).wf() ==> final(state).wf(),
        final(state).last_tick == old(state).last_tick,
        match cmd {
            TimerCommand::Cycle => final(state).timers@ == old(state).timers@
                && final(state).paused == old(state).paused && final(state).active_index == (if old(
                state,
            ).timers@.len() > 0 {
                ((old(state).active_index + 1) % (old(state).timers@.len() as int)) as usize
            } else {
                old(state).active_index
            }),
            TimerCommand::SwitchTo(i) => final(state).timers@ == old(state).timers@
                && final(state).paused == old(state).paused && final(state).active_index == (if i
                < old(state).timers@.len() {
                i
            } else {
                old(state).active_index
            }),
            TimerCommand::TogglePause => final(state).timers@ == old(state).timers@
                && final(state).paused == !old(state).paused && final(state).active_index == old(
                state,
            ).active_index,
            TimerCommand::Reset => final(state).paused == old(state).paused
                && final(state).active_index == old(state).active_index && final(state).timers@
                == (if old(state).timers@.len() > 0 {
                with_active_elapsed(old(state).timers@, old(state).active_index as int, 0)
            } else {
                old(state).timers@
            }),
        },
{
    match cmd {
        TimerCommand::Cycle => state.cycle(),
        TimerCommand::SwitchTo(idx) => state.switch_to(idx),
        TimerCommand::TogglePause => state.toggle_pause(),
        TimerCommand::Reset => state.reset(),
    }
}

/// Ticks the active timer of `state` (see [`TimerState::tick`]).
pub fn tick(state: &mut TimerState)
    requires
        old(state).can_count(),
    ensures
        old(state).wf() ==> final(state).wf(),
        final(state).active_index == old(state).active_index,
        final(state).paused == old(state).paused,
        final(state).timers@ == old(state).timers@ || (!old(state).paused
            && old(state).timers@.len() > 0 && final(state).timers@ == old(state).counted()),
        (old(state).paused || old(state).timers@.len() == 0) ==> final(state).timers@ == old(
            state,
        ).timers@,
        (!old(state).paused && old(state).timers@.len() > 0 && !old(state).has_ticked())
            ==> final(state).timers@ == old(state).counted(),
        final(state).has_ticked() == (old(state).has_ticked() || (!old(state).paused
            && old(state).timers@.len() > 0)),
        final(state).timers@ == old(state).timers@ ==> final(state).last_tick == old(state).last_tick,
        (old(state).last_tick is Some && final(state).timers@ != old(state).timers@)
            ==> whole_secs_between(final(state).last_tick->0, old(state).last_tick->0) >= 1,
{
    state.tick();
}

/// What a remote press does: a single press switches to the button's own
/// timer in direct-map mode (cycling when that timer is already active) and
/// cycles otherwise; a double press pauses or resumes; other presses do
/// nothing.
pub open spec fn press_command(action: ActionView, direct_map: bool, idx: usize, active: usize) -> Option<TimerCommand> {
    match action {
        ActionView::Single => if direct_map && active != idx {
            Some(TimerCommand::SwitchTo(idx))
        } else {
            Some(TimerCommand::Cycle)
        },
        ActionView::Double => Some(TimerCommand::TogglePause),
        _ => None,
    }
}

/// The command for a press of the button with position `idx`, given which
/// timer is active.
pub fn command_for_press(action: &ActionType, direct_map: bool, idx: usize, active: usize) -> (r: Option<TimerCommand>)
    ensures
        r == press_command(action@, direct_map, idx, active),
{
    match action {
        ActionType::Single => {
            if direct_map {
                if active == idx {
                    Some(TimerCommand::Cycle)
                } else {
                    Some(TimerCommand::SwitchTo(idx))
                }
            } else {
                Some(TimerCommand::Cycle)
            }
        },
        ActionType::Double => Some(TimerCommand::TogglePause),
        _ => None,
    }
}

/// The colors of a timer card (background, border, name, time): an active
/// card is blue with a cyan border and name, the others dark with a grey
/// border and name; the active card's time turns amber while paused.
pub open spec fn timer_card_colors_of(is_active: bool, paused: bool) -> (Color, Color, Color, Color) {
    (
        if is_active { Color::opaque(26, 58, 92) } else { Color::opaque(40, 40, 50) },
        if is_active { Color::opaque(0, 180, 216) } else { Color::opaque(85, 85, 85) },
        if is_active { Color::opaque(144, 224, 239) } else { Color::opaque(170, 170, 170) },
        if is_active && paused { Color::opaque(255, 193, 7) } else { Color::opaque(255, 255, 255) },
    )
}

/// The colors of a timer card (background, border, name, time).
pub fn timer_card_colors(is_active: bool, paused: bool) -> (r: (Color, Color, Color, Color))
    ensures
        r == timer_card_colors_of(is_active, paused),
{
    let fill = if is_active { Color::from_rgb(26, 58, 92) } else { Color::from_rgb(40, 40, 50) };
    let border = if is_active { Color::from_rgb(0, 180, 216) } else { Color::from_rgb(85, 85, 85) };
    let name = if is_active { Color::from_rgb(144, 224, 239) } else { Color::from_rgb(170, 170, 170) };
    let time = if is_active && paused { Color::from_rgb(255, 193, 7) } else { Color::white() };
    (fill, border, name, time)
}

/// The timer window's keys: Space switches to the next timer, Enter resets
/// the active one, P pauses or resumes, Escape quits; other keys do nothing.
pub open spec fn key_outcome_of(key: Key) -> KeyOutcome<TimerCommand> {
    match key {
        Key::Space => KeyOutcome::Run(TimerCommand::Cycle),
        Key::Enter => KeyOutcome::Run(TimerCommand::Reset),
        Key::P => KeyOutcome::Run(TimerCommand::TogglePause),
        Key::Escape => KeyOutcome::Quit,
        _ => KeyOutcome::Ignore,
    }
}

/// What a key press in the timer window does.
pub fn key_outcome(key: Key) -> (r: KeyOutcome<TimerCommand>)
    ensures
        r == key_outcome_of(key),
{
    match key {
        Key::Space => KeyOutcome::Run(TimerCommand::Cycle),
        Key::Enter => KeyOutcome::Run(TimerCommand::Reset),
        Key::P => KeyOutcome::Run(TimerCommand::TogglePause),
        Key::Escape => KeyOutcome::Quit,
        _ => KeyOutcome::Ignore,
    }
}

/// The timer switcher window state.
pub struct TimerSwitcherApp {
    pub debug: bool,
}

impl TimerSwitcherApp {
    pub fn new(debug: bool) -> (r: Self)
        ensures
            r.debug == debug,
    {
        Self { debug }
    }
}

/// Why the timer switcher cannot start.
#[derive(Debug, Clone, Copy, PartialEq, Eq, Structural)]
pub enum SetupError {
    /// No button id was given.
    NoButtons,
    /// Fewer than two timers were named (the count is given).
    TooFewTimers(usize),
}

/// Checks the switcher's setup and picks its mode: with as many buttons as
/// timers each button maps to its own timer (direct map, `true`); otherwise
/// every button cycles (`false`).
pub fn switcher_mode(button_count: usize, timer_count: usize) -> (r: Result<bool, SetupError>)
    ensures
        button_count == 0 ==> r == Err::<bool, SetupError>(SetupError::NoButtons),
        button_count > 0 && timer_count < 2 ==> r == Err::<bool, SetupError>(SetupError::TooFewTimers(timer_count)),
        button_count > 0 && timer_count >= 2 ==> r == Ok::<bool, SetupError>(button_count == timer_count),
{
    if button_count == 0 {
        return Err(SetupError::NoButtons);
    }
    if timer_count < 2 {
        return Err(SetupError::TooFewTimers(timer_count));
    }
    Ok(button_count == timer_count)
}

// ---------------------------------------------------------------------------
// Laws
// ---------------------------------------------------------------------------

/// The active index after `k` cycles over `n` timers from `a`.
pub open spec fn cycled(a: int, n: int, k: nat) -> int
    decreases k,
{
    if k == 0 { a } else { (cycled(a, n, (k - 1) as nat) + 1) % n }
}

/// Cycling through `n` timers visits each in turn and comes back to the
/// start after `n` cycles.
pub proof fn lemma_cycle_comes_back(a: int, n: int)
    requires
        0 <= a < n,
    ensures
        forall|k: nat| k <= n ==> #[trigger] cycled(a, n, k) == (a + k) % n,
        cycled(a, n, n as nat) == a,
{
    assert forall|k: nat| k <= n implies #[trigger] cycled(a, n, k) == (a + k) % n by {
        lemma_cycled_closed_form(a, n, k);
    }
    lemma_cycled_closed_form(a, n, n as nat);
    vstd::arithmetic::div_mod::lemma_mod_add_multiples_vanish(a, n);
    vstd::arithmetic::div_mod::lemma_small_mod(a as nat, n as nat);
}

proof fn lemma_cycled_closed_form(a: int, n: int, k: nat)
    requires
        0 <= a < n,
    ensures
        cycled(a, n, k) == (a + k) % n,
    decreases k,
{
    if k > 0 {
        lemma_cycled_closed_form(a, n, (k - 1) as nat);
        assert(cycled(a, n, k) == (cycled(a, n, (k - 1) as nat) + 1) % n);
        vstd::arithmetic::div_mod::lemma_add_mod_noop(a + k - 1, 1, n);
        if n > 1 {
            vstd::arithmetic::div_mod::lemma_small_mod(1, n as nat);
            assert(1int % n == 1);
            assert(((a + k - 1) % n + 1) % n == (a + k) % n);
        } else {
            let x = cycled(a, n, (k - 1) as nat) + 1;
            assert((a + k) % n == 0) by (nonlinear_arith)
                requires
                    n == 1,
            ;
            assert(x % n == 0) by (nonlinear_arith)
                requires
                    n == 1,
            ;
        }
    } else {
        vstd::arithmetic::div_mod::lemma_small_mod(a as nat, n as nat);
    }
}

/// Counting a second changes only the active timer, by one, and keeps its
/// name.
pub proof fn lemma_count_touches_only_active(s: &TimerState)
    requires
        s.wf(),
        s.timers@.len() > 0,
        s.timers@[s.active_index as int].elapsed < u64::MAX,
    ensures
        s.counted().len() == s.timers@.len(),
        s.counted()[s.active_index as int].elapsed == s.timers@[s.active_index as int].elapsed + 1,
        s.counted()[s.active_index as int].name == s.timers@[s.active_index as int].name,
        forall|i: int| 0 <= i < s.timers@.len() && i != s.active_index ==> #[trigger] s.counted()[i] == s.timers@[i],
{
}


/// A double press pauses or resumes the active timer in either mode, for
/// every button and whichever timer is active; no press ever resets a
/// timer; and a single press switches to the pressed button's own timer
/// exactly in direct-map mode when that timer is not active yet, cycling
/// otherwise.
pub proof fn lemma_press_commands(action: ActionView, direct_map: bool, idx: usize, active: usize)
    ensures
        press_command(ActionView::Double, direct_map, idx, active) == Some(TimerCommand::TogglePause),
        press_command(action, direct_map, idx, active) != Some(TimerCommand::Reset),
        (press_command(ActionView::Single, direct_map, idx, active) == Some(TimerCommand::SwitchTo(idx)))
            == (direct_map && active != idx),
        !(direct_map && active != idx) ==> press_command(ActionView::Single, direct_map, idx, active)
            == Some(TimerCommand::Cycle),
{
}

} // verus!
