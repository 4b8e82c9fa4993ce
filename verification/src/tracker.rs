//! Initiative tracker: nine strategy cards (index 0 is Naalu), each enabled
//! or disabled, with one active card that moves forwards and backwards over
//! the enabled ones.

use vstd::prelude::*;
use crate::event::{ActionType, ActionView};
use crate::keys::{Key, KeyOutcome};
use crate::text::{decimal, decimal_text};

verus! {

/// Total number of strategy cards (including Naalu at index 0).
pub const NUM_INITIATIVES: usize = 9;

/// Commands that move the tracker.
#[derive(Debug, Clone, Copy, PartialEq, Eq, Structural)]
pub enum TrackerCommand {
    Next,
    Prev,
    Reset,
    ToggleEnabled(usize),
}

/// The mathematical value of a tracker: the active card, the enabled flags
/// (one per card) and the card that a reset returns to.
pub struct TrackerView {
    pub current: int,
    pub enabled: Seq<bool>,
    pub start: int,
}

impl TrackerView {
    /// Indices in range and one flag per card.
    pub open spec fn valid(self) -> bool {
        &&& 0 <= self.current < 9
        &&& 0 <= self.start < 9
        &&& self.enabled.len() == 9
    }

    /// The same tracker with another active card.
    pub open spec fn with_current(self, c: int) -> TrackerView {
        TrackerView { current: c, enabled: self.enabled, start: self.start }
    }

    /// Some card is enabled.
    pub open spec fn any_enabled(self) -> bool {
        exists|i: int| 0 <= i < 9 && #[trigger] self.enabled[i]
    }

    /// The active card is enabled, or no card is.
    pub open spec fn current_ok(self) -> bool {
        self.any_enabled() ==> self.enabled[self.current]
    }
}

/// The card `k` steps forwards from `c`, wrapping around.
pub open spec fn fwd(c: int, k: int) -> int {
    (c + k) % 9
}

/// The card `k` steps backwards from `c`, wrapping around.
pub open spec fn back(c: int, k: int) -> int {
    (c - k) % 9
}

/// Searching forwards from `c`, starting `k` steps ahead: the first enabled
/// card within nine steps, or `c` itself when there is none.
pub open spec fn search_fwd(en: Seq<bool>, c: int, k: int) -> int
    decreases 10 - k,
{
    if k > 9 || k < 1 {
        c
    } else if en[fwd(c, k)] {
        fwd(c, k)
    } else {
        search_fwd(en, c, k + 1)
    }
}

/// Searching backwards from `c`, starting `k` steps behind.
pub open spec fn search_back(en: Seq<bool>, c: int, k: int) -> int
    decreases 10 - k,
{
    if k > 9 || k < 1 {
        c
    } else if en[back(c, k)] {
        back(c, k)
    } else {
        search_back(en, c, k + 1)
    }
}

/// Where `next` moves from `c`: the next enabled card after it (wrapping),
/// `c` itself when it is the only enabled card or when none is.
pub open spec fn next_index(en: Seq<bool>, c: int) -> int {
    search_fwd(en, c, 1)
}

/// Where `prev` moves from `c`.
pub open spec fn prev_index(en: Seq<bool>, c: int) -> int {
    search_back(en, c, 1)
}

/// The lowest enabled card at or after `i`, if any.
pub open spec fn lowest_enabled_from(en: Seq<bool>, i: int) -> Option<int>
    decreases 9 - i,
{
    if i >= 9 || i < 0 {
        None
    } else if en[i] {
        Some(i)
    } else {
        lowest_enabled_from(en, i + 1)
    }
}

/// Where `reset` moves: the start card if it is enabled, else the lowest
/// enabled card, else nowhere (the active card stays).
pub open spec fn reset_index(v: TrackerView) -> int {
    if v.enabled[v.start] {
        v.start
    } else {
        match lowest_enabled_from(v.enabled, 0) {
            Some(i) => i,
            None => v.current,
        }
    }
}

/// The tracker after toggling card `index`: when the active card is then
/// disabled, the next enabled card after it becomes active.
pub open spec fn toggled(v: TrackerView, index: int) -> TrackerView {
    if index < 0 || index >= 9 {
        v
    } else {
        let en = v.enabled.update(index, !v.enabled[index]);
        let c = if !en[v.current] {
            next_index(en, v.current)
        } else {
            v.current
        };
        TrackerView { current: c, enabled: en, start: v.start }
    }
}

/// Number of `true` flags.
pub open spec fn count_true(s: Seq<bool>) -> nat
    decreases s.len(),
{
    if s.len() == 0 {
        0
    } else {
        count_true(s.drop_last()) + if s.last() { 1nat } else { 0nat }
    }
}

/// All initiative tracker state.
#[derive(Debug)]
pub struct TrackerState {
    /// Active initiative index (0-8).
    current: usize,
    /// Whether each initiative is enabled.
    enabled: [bool; NUM_INITIATIVES],
    /// Reset target.
    start: usize,
}

impl View for TrackerState {
    type V = TrackerView;

    closed spec fn view(&self) -> TrackerView {
        TrackerView { current: self.current as int, enabled: self.enabled@, start: self.start as int }
    }
}

impl TrackerState {
    #[verifier::type_invariant]
    spec fn inv(self) -> bool {
        self.current < 9 && self.start < 9
    }

    /// Create a new tracker state with the given reset target (an out of
    /// range target becomes 0). All nine entries start enabled.
    pub fn new(start: usize) -> (s: Self)
        ensures
            s@.valid(),
            s@.start == (if start < 9 { start as int } else { 0 }),
            s@.current == s@.start,
            forall|i: int| 0 <= i < 9 ==> #[trigger] s@.enabled[i],
    {
        let enabled = [true; NUM_INITIATIVES];
        let start = if start < NUM_INITIATIVES { start } else { 0 };
        let s = Self { current: start, enabled, start };
        proof {
            assert(s@.enabled.len() == 9);
        }
        s
    }

    /// The current active initiative index.
    pub fn current(&self) -> (r: usize)
        ensures
            r == self@.current,
            r < 9,
    {
        proof { use_type_invariant(self); }
        self.current
    }

    /// Whether the initiative at `index` is enabled (false out of range).
    pub fn enabled(&self, index: usize) -> (r: bool)
        ensures
            r == (index < 9 && self@.enabled[index as int]),
    {
        if index < NUM_INITIATIVES {
            self.enabled[index]
        } else {
            false
        }
    }

    /// Sets the enabled flag of one card directly, leaving the active card
    /// where it is.
    pub fn set_enabled(&mut self, index: usize, value: bool)
        requires
            index < 9,
        ensures
            final(self)@ == (TrackerView {
                current: old(self)@.current,
                enabled: old(self)@.enabled.update(index as int, value),
                start: old(self)@.start,
            }),
    {
        proof { use_type_invariant(&*self); }
        self.enabled[index] = value;
    }
    /// Advance to the next enabled initiative (wraps around).
    pub fn next(&mut self)
        ensures
            old(self)@.valid(),
            final(self)@.valid(),
            final(self)@ == old(self)@.with_current(next_index(old(self)@.enabled, old(self)@.current)),
    {
        proof { use_type_invariant(&*self); }
        let n = NUM_INITIATIVES;
        let start = self.current;
        let ghost en = self.enabled@;
        let ghost mut k: int = 1;
        loop
            invariant
                1 <= k <= 9,
                n == 9,
                start < 9,
                self.current < 9,
                self.start < 9,
                self.current == fwd(start as int, k - 1),
                self.enabled@ == en,
                self.start == old(self).start,
                en.len() == 9,
                old(self)@.current == start,
                old(self)@.enabled == en,
                search_fwd(en, start as int, 1) == search_fwd(en, start as int, k),
            decreases 10 - k,
        {
            self.current = (self.current + 1) % n;
            assert(self.current == fwd(start as int, k));
            if self.enabled[self.current] {
                return;
            }
            if self.current == start {
                assert(k == 9);
                assert(search_fwd(en, start as int, 10) == start as int);
                return;
            }
            proof { k = k + 1; }
        }
    }

    /// Go to the previous enabled initiative (wraps around).
    pub fn prev(&mut self)
        ensures
            old(self)@.valid(),
            final(self)@.valid(),
            final(self)@ == old(self)@.with_current(prev_index(old(self)@.enabled, old(self)@.current)),
    {
        proof { use_type_invariant(&*self); }
        let n = NUM_INITIATIVES;
        let start = self.current;
        let ghost en = self.enabled@;
        let ghost mut k: int = 1;
        loop
            invariant
                1 <= k <= 9,
                n == 9,
                start < 9,
                self.current < 9,
                self.start < 9,
                self.current == back(start as int, k - 1),
                self.enabled@ == en,
                self.start == old(self).start,
                en.len() == 9,
                old(self)@.current == start,
                old(self)@.enabled == en,
                search_back(en, start as int, 1) == search_back(en, start as int, k),
            decreases 10 - k,
        {
            self.current = (self.current + n - 1) % n;
            assert(self.current == back(start as int, k));
            if self.enabled[self.current] {
                return;
            }
            if self.current == start {
                assert(k == 9);
                assert(search_back(en, start as int, 10) == start as int);
                return;
            }
            proof { k = k + 1; }
        }
    }
    /// Reset to the configured start initiative if it is enabled, else to
    /// the first enabled initiative; with none enabled nothing moves.
    pub fn reset(&mut self)
        ensures
            old(self)@.valid(),
            final(self)@.valid(),
            final(self)@ == old(self)@.with_current(reset_index(old(self)@)),
    {
        proof { use_type_invariant(&*self); }
        if self.start < NUM_INITIATIVES && self.enabled[self.start] {
            self.current = self.start;
        } else {
            let ghost en = self.enabled@;
            for i in 0..NUM_INITIATIVES
                invariant
                    self.current < 9,
                    self.start < 9,
                    self@ == old(self)@,
                    en == old(self)@.enabled,
                    en.len() == 9,
                    !en[old(self)@.start],
                    lowest_enabled_from(en, 0) == lowest_enabled_from(en, i as int),
            {
                if self.enabled[i] {
                    self.current = i;
                    return;
                }
            }
        }
    }

    /// Toggle the enabled state of the initiative at `index` (ignored out of
    /// range). When the active initiative is then disabled, the next enabled
    /// one after it becomes active.
    pub fn toggle_enabled(&mut self, index: usize)
        ensures
            old(self)@.valid(),
            final(self)@.valid(),
            final(self)@ == toggled(old(self)@, index as int),
            index < 9 ==> final(self)@.current_ok(),
    {
        proof {
            use_type_invariant(&*self);
            if index < 9 {
                lemma_command_keeps_current_enabled(self@, TrackerCommand::ToggleEnabled(index));
            }
        }
        if index >= NUM_INITIATIVES {
            return;
        }
        self.enabled[index] = !self.enabled[index];
        let from = self.current;
        if !self.enabled[from] {
            let ghost en = self.enabled@;
            for j in 0..NUM_INITIATIVES
                invariant
                    index < 9,
                    from < 9,
                    old(self)@.valid(),
                    old(self)@.current == from,
                    !en[from as int],
                    self.current == from,
                    self.start < 9,
                    self.start == old(self).start,
                    self.enabled@ == en,
                    en.len() == 9,
                    en == old(self)@.enabled.update(index as int, !old(self)@.enabled[index as int]),
                    search_fwd(en, from as int, 1) == search_fwd(en, from as int, j + 1),
            {
                let idx = (from + 1 + j) % NUM_INITIATIVES;
                assert(idx == fwd(from as int, j + 1));
                if self.enabled[idx] {
                    self.current = idx;
                    return;
                }
            }
            assert(search_fwd(en, from as int, 10) == from as int);
        }
    }

    /// All enabled flags, one per card.
    pub fn all_enabled(&self) -> (r: Vec<bool>)
        ensures
            r@ == self@.enabled,
            r@.len() == 9,
    {
        let mut r: Vec<bool> = Vec::new();
        for i in 0..NUM_INITIATIVES
            invariant
                r@ == self@.enabled.take(i as int),
                self@.enabled.len() == 9,
        {
            r.push(self.enabled[i]);
            assert(self@.enabled.take(i + 1) =~= self@.enabled.take(i as int).push(self@.enabled[i as int]));
        }
        assert(self@.enabled.take(9) =~= self@.enabled);
        r
    }

    /// The number of enabled initiatives.
    pub fn num_enabled(&self) -> (r: usize)
        ensures
            r == count_true(self@.enabled),
    {
        let mut count: usize = 0;
        for i in 0..NUM_INITIATIVES
            invariant
                count == count_true(self@.enabled.take(i as int)),
                count <= i,
                self@.enabled.len() == 9,
        {
            assert(self@.enabled.take(i + 1).drop_last() =~= self@.enabled.take(i as int));
            if self.enabled[i] {
                count = count + 1;
            }
        }
        assert(self@.enabled.take(9) =~= self@.enabled);
        count
    }
}

impl Default for TrackerState {
    /// Active card 0, every card disabled, reset target 0.
    fn default() -> (s: Self)
        ensures
            s@.valid(),
            s@.current == 0,
            s@.start == 0,
            forall|i: int| 0 <= i < 9 ==> !(#[trigger] s@.enabled[i]),
    {
        let s = Self { current: 0, enabled: [false; NUM_INITIATIVES], start: 0 };
        proof {
            assert(s@.enabled.len() == 9);
        }
        s
    }
}

impl Clone for TrackerState {
    fn clone(&self) -> (r: Self)
        ensures
            r@ == self@,
    {
        proof { use_type_invariant(self); }
        Self { current: self.current, enabled: self.enabled, start: self.start }
    }
}

/// A consistent snapshot of tracker state for rendering.
#[derive(Debug)]
pub struct TrackerSnapshot {
    pub current: usize,
    pub all_enabled: Vec<bool>,
}

/// Takes a snapshot of `state` for rendering.
pub fn snapshot(state: &TrackerState) -> (r: TrackerSnapshot)
    ensures
        r.current == state@.current,
        r.all_enabled@ == state@.enabled,
{
    TrackerSnapshot { current: state.current(), all_enabled: state.all_enabled() }
}

/// The tracker after `cmd`.
pub open spec fn command_result(v: TrackerView, cmd: TrackerCommand) -> TrackerView {
    match cmd {
        TrackerCommand::Next => v.with_current(next_index(v.enabled, v.current)),
        TrackerCommand::Prev => v.with_current(prev_index(v.enabled, v.current)),
        TrackerCommand::Reset => v.with_current(reset_index(v)),
        TrackerCommand::ToggleEnabled(i) => toggled(v, i as int),
    }
}

/// Executes a tracker command on `state`.
pub fn execute(state: &mut TrackerState, cmd: TrackerCommand)
    ensures
        final(state)@ == command_result(old(state)@, cmd),
        final(state)@.valid(),
{
    match cmd {
        TrackerCommand::Next => state.next(),
        TrackerCommand::Prev => state.prev(),
        TrackerCommand::Reset => state.reset(),
        TrackerCommand::ToggleEnabled(idx) => state.toggle_enabled(idx),
    }
}


// ---------------------------------------------------------------------------
// Card data and colors
// ---------------------------------------------------------------------------

/// An sRGBA color with premultiplied alpha, as egui stores its `Color32`.
#[derive(Clone, Copy, Debug, PartialEq, Eq, Structural)]
pub struct Color {
    pub r: u8,
    pub g: u8,
    pub b: u8,
    pub a: u8,
}

impl Color {
    /// An opaque color.
    pub open spec fn opaque(r: u8, g: u8, b: u8) -> Color {
        Color { r, g, b, a: 255 }
    }

    /// An opaque color from its red, green and blue parts.
    pub fn from_rgb(r: u8, g: u8, b: u8) -> (c: Color)
        ensures
            c == Color::opaque(r, g, b),
    {
        Color { r, g, b, a: 255 }
    }

    /// Opaque white.
    pub fn white() -> (c: Color)
        ensures
            c == Color::opaque(255, 255, 255),
    {
        Color::from_rgb(255, 255, 255)
    }
}

/// `egui::Color32::from_rgba_unmultiplied`, read back with `to_tuple` as its
/// premultiplied `(r, g, b, a)`. As its source shows, the alpha is kept, an
/// opaque color is unchanged and a fully transparent one is all zero. The
/// color channels of other alphas come from gamma lookup tables computed
/// with floating point, which may differ between machines, and are not
/// stated.
#[verifier::external_body]
fn color_from_unmultiplied(r: u8, g: u8, b: u8, a: u8) -> (c: (u8, u8, u8, u8))
    ensures
        c.3 == a,
        a == 255 ==> c == (r, g, b, 255u8),
        a == 0 ==> c == (0u8, 0u8, 0u8, 0u8),
{
    egui::Color32::from_rgba_unmultiplied(r, g, b, a).to_tuple()
}

/// The card color of each initiative.
pub open spec fn initiative_color_of(index: int) -> Color {
    if index == 0 { Color::opaque(0x00, 0xB4, 0xD8) }
    else if index == 1 { Color::opaque(0xDF, 0x23, 0x22) }
    else if index == 2 { Color::opaque(0xED, 0x92, 0x37) }
    else if index == 3 { Color::opaque(0xFA, 0xF0, 0x1D) }
    else if index == 4 { Color::opaque(0x30, 0xAF, 0x60) }
    else if index == 5 { Color::opaque(0x03, 0xA6, 0x91) }
    else if index == 6 { Color::opaque(0x1B, 0x8B, 0xCD) }
    else if index == 7 { Color::opaque(0x1B, 0x45, 0x97) }
    else { Color::opaque(0x89, 0x4A, 0xA5) }
}

/// The card color of initiative `index` (0 Naalu, teal; 1 Leadership, red;
/// 2 Diplomacy, orange; 3 Politics, yellow; 4 Construction, green; 5 Trade,
/// teal; 6 Warfare, light blue; 7 Technology, dark blue; 8 Imperial, purple).
pub fn initiative_color(index: usize) -> (c: Color)
    requires
        index < 9,
    ensures
        c == initiative_color_of(index as int),
{
    if index == 0 { Color::from_rgb(0x00, 0xB4, 0xD8) }
    else if index == 1 { Color::from_rgb(0xDF, 0x23, 0x22) }
    else if index == 2 { Color::from_rgb(0xED, 0x92, 0x37) }
    else if index == 3 { Color::from_rgb(0xFA, 0xF0, 0x1D) }
    else if index == 4 { Color::from_rgb(0x30, 0xAF, 0x60) }
    else if index == 5 { Color::from_rgb(0x03, 0xA6, 0x91) }
    else if index == 6 { Color::from_rgb(0x1B, 0x8B, 0xCD) }
    else if index == 7 { Color::from_rgb(0x1B, 0x45, 0x97) }
    else { Color::from_rgb(0x89, 0x4A, 0xA5) }
}

/// `c` with its alpha set to `alpha`, premultiplied as egui does it: the
/// alpha is `alpha`, an opaque result keeps the channels of `c`, and a fully
/// transparent one is all zero.
pub fn dim_color(c: Color, alpha: u8) -> (r: Color)
    ensures
        r.a == alpha,
        alpha == 255 ==> r == Color::opaque(c.r, c.g, c.b),
        alpha == 0 ==> r == (Color { r: 0, g: 0, b: 0, a: 0 }),
{
    let (r, g, b, a) = color_from_unmultiplied(c.r, c.g, c.b, alpha);
    Color { r, g, b, a }
}

/// The color a card's background starts from and the alpha it is shown
/// with: opaque grey when disabled, the card color opaque when active, and
/// the card color at alpha 0x4D otherwise.
pub fn card_background(index: usize, is_active: bool, is_enabled: bool) -> (r: (Color, u8))
    requires
        is_enabled ==> index < 9,
    ensures
        r == (if !is_enabled {
            (Color::opaque(0x33, 0x33, 0x33), 255u8)
        } else if is_active {
            (initiative_color_of(index as int), 255u8)
        } else {
            (initiative_color_of(index as int), 0x4Du8)
        }),
{
    if !is_enabled {
        (Color::from_rgb(0x33, 0x33, 0x33), 255)
    } else if is_active {
        (initiative_color(index), 255)
    } else {
        (initiative_color(index), 0x4D)
    }
}

/// The (background, number, name) colors of a card: greys when disabled,
/// the card color with white text when active, else the card color dimmed
/// to alpha 0x4D with grey text.
pub fn card_colors(index: usize, is_active: bool, is_enabled: bool) -> (r: (Color, Color, Color))
    requires
        is_enabled ==> index < 9,
    ensures
        !is_enabled ==> r == (Color::opaque(0x33, 0x33, 0x33), Color::opaque(0x55, 0x55, 0x55),
            Color::opaque(0x44, 0x44, 0x44)),
        is_enabled && is_active ==> r == (initiative_color_of(index as int), Color::opaque(255, 255, 255),
            Color::opaque(255, 255, 255)),
        is_enabled && !is_active ==> r.0.a == 0x4D && r.1 == Color::opaque(0x99, 0x99, 0x99)
            && r.2 == Color::opaque(0x88, 0x88, 0x88),
{
    let (base, alpha) = card_background(index, is_active, is_enabled);
    let background = if alpha == 255 { base } else { dim_color(base, alpha) };
    if !is_enabled {
        (background, Color::from_rgb(0x55, 0x55, 0x55), Color::from_rgb(0x44, 0x44, 0x44))
    } else if is_active {
        (background, Color::white(), Color::white())
    } else {
        (background, Color::from_rgb(0x99, 0x99, 0x99), Color::from_rgb(0x88, 0x88, 0x88))
    }
}

/// The border color of a card: white for the active card, grey otherwise.
pub fn card_border(is_active: bool) -> (r: Color)
    ensures
        r == (if is_active { Color::opaque(255, 255, 255) } else { Color::opaque(136, 136, 136) }),
{
    if is_active {
        Color::white()
    } else {
        Color::from_rgb(136, 136, 136)
    }
}

/// The number printed on a card: its index in decimal (`0`, `1`, `12`).
pub fn card_number(index: usize) -> (r: String)
    ensures
        r@ == decimal(index as nat),
{
    decimal_text(index as u64)
}

/// The name of each card.
pub open spec fn card_name_of(index: int) -> Seq<char> {
    if index == 0 { "Naalu"@ }
    else if index == 1 { "Leadership"@ }
    else if index == 2 { "Diplomacy"@ }
    else if index == 3 { "Politics"@ }
    else if index == 4 { "Construction"@ }
    else if index == 5 { "Trade"@ }
    else if index == 6 { "Warfare"@ }
    else if index == 7 { "Technology"@ }
    else if index == 8 { "Imperial"@ }
    else { Seq::empty() }
}

/// The name of card `index`, empty out of range.
pub fn card_name(index: usize) -> (r: &'static str)
    ensures
        r@ == card_name_of(index as int),
{
    if index == 0 { "Naalu" }
    else if index == 1 { "Leadership" }
    else if index == 2 { "Diplomacy" }
    else if index == 3 { "Politics" }
    else if index == 4 { "Construction" }
    else if index == 5 { "Trade" }
    else if index == 6 { "Warfare" }
    else if index == 7 { "Technology" }
    else if index == 8 { "Imperial" }
    else {
        proof { reveal_strlit(""); }
        assert(""@ =~= Seq::<char>::empty());
        ""
    }
}

// ---------------------------------------------------------------------------
// The tracker window and the remote buttons
// ---------------------------------------------------------------------------

/// The window state: how many cards it shows (8 or 9), from which index
/// (1 without Naalu, 0 with it), and whether quitting was asked for.
pub struct InitiativeTrackerApp {
    pub num_cards: usize,
    pub offset: usize,
    pub quit_requested: bool,
}

impl InitiativeTrackerApp {
    /// Eight cards start at index 1 (Naalu hidden); any other count at 0.
    pub fn new(num_cards: usize) -> (r: Self)
        ensures
            r.num_cards == num_cards,
            r.offset == (if num_cards == 8 { 1usize } else { 0usize }),
            !r.quit_requested,
    {
        let offset = if num_cards == 8 { 1 } else { 0 };
        Self { num_cards, offset, quit_requested: false }
    }

    /// The card indices shown, left to right.
    pub fn show_indices(&self) -> (r: Vec<usize>)
        requires
            self.num_cards + self.offset <= usize::MAX,
        ensures
            r@.len() == self.num_cards,
            forall|i: int| 0 <= i < self.num_cards ==> #[trigger] r@[i] == i + self.offset,
    {
        let mut r: Vec<usize> = Vec::new();
        for i in 0..self.num_cards
            invariant
                self.num_cards + self.offset <= usize::MAX,
                r@.len() == i,
                forall|k: int| 0 <= k < i ==> #[trigger] r@[k] == k + self.offset,
        {
            r.push(i + self.offset);
        }
        r
    }

    /// A key pressed in the window: once quitting was asked for, nothing
    /// changes any more; Escape asks for it; any other key runs its command
    /// on `state`, if it has one.
    pub fn on_key(&mut self, state: &mut TrackerState, key: Key)
        ensures
            old(self).quit_requested ==> *final(self) == *old(self) && final(state)@ == old(state)@,
            !old(self).quit_requested ==> match key_outcome_of(key) {
                KeyOutcome::Run(cmd) => *final(self) == *old(self) && final(state)@ == command_result(
                    old(state)@,
                    cmd,
                ),
                KeyOutcome::Quit => final(self).quit_requested && final(self).num_cards
                    == old(self).num_cards && final(self).offset == old(self).offset
                    && final(state)@ == old(state)@,
                KeyOutcome::Ignore => *final(self) == *old(self) && final(state)@ == old(state)@,
            },
    {
        if self.quit_requested {
            return;
        }
        match key_outcome(key) {
            KeyOutcome::Run(cmd) => execute(state, cmd),
            KeyOutcome::Quit => {
                self.quit_requested = true;
            },
            KeyOutcome::Ignore => {},
        }
    }

    /// A click on card `index`: toggles it, unless quitting was asked for.
    pub fn on_click(&self, state: &mut TrackerState, index: usize)
        ensures
            final(state)@ == (if self.quit_requested {
                old(state)@
            } else {
                toggled(old(state)@, index as int)
            }),
    {
        if !self.quit_requested {
            execute(state, TrackerCommand::ToggleEnabled(index));
        }
    }
}

/// What a remote press does to the tracker: a single press moves to the
/// next card, a double press resets, anything else is ignored.
pub open spec fn press_command(action: ActionView) -> Option<TrackerCommand> {
    match action {
        ActionView::Single => Some(TrackerCommand::Next),
        ActionView::Double => Some(TrackerCommand::Reset),
        _ => None,
    }
}

/// The tracker command for a remote press.
pub fn command_for_press(action: &ActionType) -> (r: Option<TrackerCommand>)
    ensures
        r == press_command(action@),
{
    match action {
        ActionType::Single => Some(TrackerCommand::Next),
        ActionType::Double => Some(TrackerCommand::Reset),
        _ => None,
    }
}

/// The tracker window's keys: Space, Right and Up move to the next card;
/// Left, Down, Backspace and Delete to the previous one; R resets; Escape
/// quits; the digits 0 to 8 toggle that card.
pub open spec fn key_outcome_of(key: Key) -> KeyOutcome<TrackerCommand> {
    match key {
        Key::Space | Key::ArrowRight | Key::ArrowUp => KeyOutcome::Run(TrackerCommand::Next),
        Key::ArrowLeft | Key::ArrowDown | Key::Backspace | Key::Delete => KeyOutcome::Run(
            TrackerCommand::Prev,
        ),
        Key::R => KeyOutcome::Run(TrackerCommand::Reset),
        Key::Escape => KeyOutcome::Quit,
        Key::Digit(d) => if d <= 8 {
            KeyOutcome::Run(TrackerCommand::ToggleEnabled(d as usize))
        } else {
            KeyOutcome::Ignore
        },
        _ => KeyOutcome::Ignore,
    }
}

/// What a key press in the tracker window does.
pub fn key_outcome(key: Key) -> (r: KeyOutcome<TrackerCommand>)
    ensures
        r == key_outcome_of(key),
{
    match key {
        Key::Space | Key::ArrowRight | Key::ArrowUp => KeyOutcome::Run(TrackerCommand::Next),
        Key::ArrowLeft | Key::ArrowDown | Key::Backspace | Key::Delete => KeyOutcome::Run(
            TrackerCommand::Prev,
        ),
        Key::R => KeyOutcome::Run(TrackerCommand::Reset),
        Key::Escape => KeyOutcome::Quit,
        Key::Digit(d) => if d <= 8 {
            KeyOutcome::Run(TrackerCommand::ToggleEnabled(d as usize))
        } else {
            KeyOutcome::Ignore
        },
        _ => KeyOutcome::Ignore,
    }
}

/// The tracker the app starts with: eight cards without Naalu (card 0
/// disabled) unless Naalu is included; an out of range start card becomes
/// Leadership (1).
pub fn initial_state(naalu: bool, start: usize) -> (r: (usize, TrackerState))
    ensures
        r.0 == (if naalu { 9usize } else { 8usize }),
        ({
            let s = if start < 9 { start as int } else { 1 };
            let fresh = TrackerView {
                current: s,
                enabled: Seq::new(9, |i: int| true),
                start: s,
            };
            r.1@ == (if naalu { fresh } else { toggled(fresh, 0) })
        }),
{
    let num_cards = if naalu { 9 } else { 8 };
    let start = if start < NUM_INITIATIVES { start } else { 1 };
    let mut state = TrackerState::new(start);
    assert(state@.enabled =~= Seq::new(9, |i: int| true));
    if !naalu {
        state.toggle_enabled(0);
    }
    (num_cards, state)
}


// ---------------------------------------------------------------------------
// Laws
// ---------------------------------------------------------------------------

/// Characterizes `search_fwd`: it returns the first enabled card `m` steps
/// ahead (`m` from `k` to 9), or `c` when there is none (`m == 10`).
proof fn lemma_search_fwd(en: Seq<bool>, c: int, k: int) -> (m: int)
    requires
        en.len() == 9,
        0 <= c < 9,
        1 <= k <= 10,
    ensures
        k <= m <= 10,
        forall|j: int| k <= j < m ==> !#[trigger] en[fwd(c, j)],
        m <= 9 ==> en[fwd(c, m)] && search_fwd(en, c, k) == fwd(c, m),
        m == 10 ==> search_fwd(en, c, k) == c,
    decreases 10 - k,
{
    if k > 9 {
        10
    } else if en[fwd(c, k)] {
        k
    } else {
        lemma_search_fwd(en, c, k + 1)
    }
}

/// Characterizes `search_back` in the same way as `lemma_search_fwd`.
proof fn lemma_search_back(en: Seq<bool>, c: int, k: int) -> (m: int)
    requires
        en.len() == 9,
        0 <= c < 9,
        1 <= k <= 10,
    ensures
        k <= m <= 10,
        forall|j: int| k <= j < m ==> !#[trigger] en[back(c, j)],
        m <= 9 ==> en[back(c, m)] && search_back(en, c, k) == back(c, m),
        m == 10 ==> search_back(en, c, k) == c,
    decreases 10 - k,
{
    if k > 9 {
        10
    } else if en[back(c, k)] {
        k
    } else {
        lemma_search_back(en, c, k + 1)
    }
}

/// Every card is reached within nine forward steps from `c`.
proof fn lemma_fwd_reaches(c: int, i: int) -> (j: int)
    requires
        0 <= c < 9,
        0 <= i < 9,
    ensures
        1 <= j <= 9,
        fwd(c, j) == i,
{
    if i > c { i - c } else { i - c + 9 }
}

/// Every card is reached within nine backward steps from `c`.
proof fn lemma_back_reaches(c: int, i: int) -> (j: int)
    requires
        0 <= c < 9,
        0 <= i < 9,
    ensures
        1 <= j <= 9,
        back(c, j) == i,
{
    if i < c { c - i } else { c - i + 9 }
}

/// `next` lands on an enabled card whenever some card is enabled.
pub proof fn lemma_next_lands_on_enabled(v: TrackerView)
    requires
        v.valid(),
        v.any_enabled(),
    ensures
        v.enabled[next_index(v.enabled, v.current)],
{
    let m = lemma_search_fwd(v.enabled, v.current, 1);
    if m == 10 {
        let i = choose|i: int| 0 <= i < 9 && #[trigger] v.enabled[i];
        let j = lemma_fwd_reaches(v.current, i);
        assert(!v.enabled[fwd(v.current, j)]);
    }
}

/// `prev` lands on an enabled card whenever some card is enabled.
pub proof fn lemma_prev_lands_on_enabled(v: TrackerView)
    requires
        v.valid(),
        v.any_enabled(),
    ensures
        v.enabled[prev_index(v.enabled, v.current)],
{
    let m = lemma_search_back(v.enabled, v.current, 1);
    if m == 10 {
        let i = choose|i: int| 0 <= i < 9 && #[trigger] v.enabled[i];
        let j = lemma_back_reaches(v.current, i);
        assert(!v.enabled[back(v.current, j)]);
    }
}

/// `search_back` from `r` stops at the first enabled card `t` steps back
/// when the cards `k .. t - 1` steps back are disabled.
proof fn lemma_search_back_hits(en: Seq<bool>, r: int, k: int, t: int)
    requires
        en.len() == 9,
        0 <= r < 9,
        1 <= k <= t <= 9,
        en[back(r, t)],
        forall|i: int| k <= i < t ==> !#[trigger] en[back(r, i)],
    ensures
        search_back(en, r, k) == back(r, t),
    decreases t - k,
{
    if k < t {
        lemma_search_back_hits(en, r, k + 1, t);
    }
}

/// `search_fwd` from `r` stops at the first enabled card `t` steps ahead
/// when the cards `k .. t - 1` steps ahead are disabled.
proof fn lemma_search_fwd_hits(en: Seq<bool>, r: int, k: int, t: int)
    requires
        en.len() == 9,
        0 <= r < 9,
        1 <= k <= t <= 9,
        en[fwd(r, t)],
        forall|i: int| k <= i < t ==> !#[trigger] en[fwd(r, i)],
    ensures
        search_fwd(en, r, k) == fwd(r, t),
    decreases t - k,
{
    if k < t {
        lemma_search_fwd_hits(en, r, k + 1, t);
    }
}

/// Going `i` steps back after `m` steps forward is going `m - i` forward.
proof fn lemma_back_of_fwd(c: int, m: int, i: int)
    requires
        0 <= c < 9,
        0 <= i <= m <= 9,
    ensures
        back(fwd(c, m), i) == fwd(c, m - i),
{
    if c + m >= 9 {
        assert(fwd(c, m) == c + m - 9);
    } else {
        assert(fwd(c, m) == c + m);
    }
}

/// Going `i` steps forward after `m` steps back is going `m - i` back.
proof fn lemma_fwd_of_back(c: int, m: int, i: int)
    requires
        0 <= c < 9,
        0 <= i <= m <= 9,
    ensures
        fwd(back(c, m), i) == back(c, m - i),
{
    if c - m < 0 {
        assert(back(c, m) == c - m + 9);
    } else {
        assert(back(c, m) == c - m);
    }
}

/// From an enabled active card, `prev` undoes `next`.
pub proof fn lemma_prev_undoes_next(v: TrackerView)
    requires
        v.valid(),
        v.enabled[v.current],
    ensures
        prev_index(v.enabled, next_index(v.enabled, v.current)) == v.current,
{
    let en = v.enabled;
    let c = v.current;
    let m = lemma_search_fwd(en, c, 1);
    if m == 10 {
        assert(!en[fwd(c, 9)]);
        assert(fwd(c, 9) == c);
    }
    let r = fwd(c, m);
    assert forall|i: int| 1 <= i < m implies !#[trigger] en[back(r, i)] by {
        lemma_back_of_fwd(c, m, i);
        assert(!en[fwd(c, m - i)]);
    }
    lemma_back_of_fwd(c, m, m);
    lemma_search_back_hits(en, r, 1, m);
}

/// From an enabled active card, `next` undoes `prev`.
pub proof fn lemma_next_undoes_prev(v: TrackerView)
    requires
        v.valid(),
        v.enabled[v.current],
    ensures
        next_index(v.enabled, prev_index(v.enabled, v.current)) == v.current,
{
    let en = v.enabled;
    let c = v.current;
    let m = lemma_search_back(en, c, 1);
    if m == 10 {
        assert(!en[back(c, 9)]);
        assert(back(c, 9) == c);
    }
    let r = back(c, m);
    assert forall|i: int| 1 <= i < m implies !#[trigger] en[fwd(r, i)] by {
        lemma_fwd_of_back(c, m, i);
        assert(!en[back(c, m - i)]);
    }
    lemma_fwd_of_back(c, m, m);
    lemma_search_fwd_hits(en, r, 1, m);
}

/// Characterizes `lowest_enabled_from`.
proof fn lemma_lowest_enabled(en: Seq<bool>, i: int)
    requires
        en.len() == 9,
        0 <= i <= 9,
    ensures
        match lowest_enabled_from(en, i) {
            Some(j) => i <= j < 9 && en[j],
            None => forall|j: int| i <= j < 9 ==> !#[trigger] en[j],
        },
    decreases 9 - i,
{
    if i < 9 {
        lemma_lowest_enabled(en, i + 1);
    }
}

/// The tracker never rests on a disabled card while another card is
/// enabled: every command leaves the active card enabled whenever some card
/// is, from any state (a toggle of a card out of range changes nothing, so
/// it keeps this only where it already held).
pub proof fn lemma_command_keeps_current_enabled(v: TrackerView, cmd: TrackerCommand)
    requires
        v.valid(),
        v.current_ok() || !(cmd matches TrackerCommand::ToggleEnabled(i) && i >= 9),
    ensures
        command_result(v, cmd).valid(),
        command_result(v, cmd).current_ok(),
{
    let r = command_result(v, cmd);
    match cmd {
        TrackerCommand::Next => {
            if v.any_enabled() {
                lemma_next_lands_on_enabled(v);
            }
            let m = lemma_search_fwd(v.enabled, v.current, 1);
        },
        TrackerCommand::Prev => {
            if v.any_enabled() {
                lemma_prev_lands_on_enabled(v);
            }
            let m = lemma_search_back(v.enabled, v.current, 1);
        },
        TrackerCommand::Reset => {
            lemma_lowest_enabled(v.enabled, 0);
            if r.any_enabled() && !v.enabled[v.start] {
                let i = choose|i: int| 0 <= i < 9 && #[trigger] v.enabled[i];
                assert(v.enabled[i]);
            }
        },
        TrackerCommand::ToggleEnabled(index) => {
            let i = index as int;
            if i < 9 {
                let en = v.enabled.update(i, !v.enabled[i]);
                if !en[v.current] {
                    let w = TrackerView { current: v.current, enabled: en, start: v.start };
                    if w.any_enabled() {
                        lemma_next_lands_on_enabled(w);
                    }
                    let m = lemma_search_fwd(en, v.current, 1);
                        } else {
                    assert(en[v.current]);
                }
            }
        },
    }
}

/// Toggling the same card twice restores every enabled flag.
pub proof fn lemma_toggle_twice_restores_flags(v: TrackerView, index: int)
    requires
        v.valid(),
    ensures
        toggled(toggled(v, index), index).enabled == v.enabled,
{
    if 0 <= index < 9 {
        let once = toggled(v, index);
        if !once.enabled[v.current] {
            let m = lemma_search_fwd(once.enabled, v.current, 1);
        }
        assert(toggled(once, index).enabled =~= v.enabled);
    }
}


/// Toggling a card never moves an active card that stays enabled, and
/// changes exactly the toggled card's flag.
pub proof fn lemma_toggle_keeps_enabled_active_card(v: TrackerView, index: int)
    requires
        v.valid(),
        v.enabled[v.current],
        toggled(v, index).enabled[v.current],
    ensures
        toggled(v, index).current == v.current,
        0 <= index < 9 ==> toggled(v, index).enabled == v.enabled.update(index, !v.enabled[index]),
        !(0 <= index < 9) ==> toggled(v, index) == v,
        toggled(v, index).start == v.start,
{
}

/// The color each card is shown in, by its name: Naalu teal, Leadership
/// red, Diplomacy orange, Politics yellow, Construction green, Trade teal,
/// Warfare light blue, Technology dark blue, Imperial purple.
pub open spec fn color_of_card_named(name: Seq<char>) -> Color {
    if name == "Naalu"@ { Color::opaque(0x00, 0xB4, 0xD8) }
    else if name == "Leadership"@ { Color::opaque(0xDF, 0x23, 0x22) }
    else if name == "Diplomacy"@ { Color::opaque(0xED, 0x92, 0x37) }
    else if name == "Politics"@ { Color::opaque(0xFA, 0xF0, 0x1D) }
    else if name == "Construction"@ { Color::opaque(0x30, 0xAF, 0x60) }
    else if name == "Trade"@ { Color::opaque(0x03, 0xA6, 0x91) }
    else if name == "Warfare"@ { Color::opaque(0x1B, 0x8B, 0xCD) }
    else if name == "Technology"@ { Color::opaque(0x1B, 0x45, 0x97) }
    else { Color::opaque(0x89, 0x4A, 0xA5) }
}

/// Every card is shown in the color of its name, and the nine colors are
/// all different.
pub proof fn lemma_card_colors_follow_names(i: int, j: int)
    requires
        0 <= i < 9,
        0 <= j < 9,
    ensures
        initiative_color_of(i) == color_of_card_named(card_name_of(i)),
        i != j ==> initiative_color_of(i) != initiative_color_of(j),
{
    reveal_strlit("Naalu");
    reveal_strlit("Leadership");
    reveal_strlit("Diplomacy");
    reveal_strlit("Politics");
    reveal_strlit("Construction");
    reveal_strlit("Trade");
    reveal_strlit("Warfare");
    reveal_strlit("Technology");
    reveal_strlit("Imperial");
    assert("Naalu"@.len() == 5 && "Naalu"@[0] == 'N');
    assert("Leadership"@.len() == 10 && "Leadership"@[0] == 'L');
    assert("Diplomacy"@.len() == 9 && "Diplomacy"@[0] == 'D');
    assert("Politics"@.len() == 8 && "Politics"@[0] == 'P');
    assert("Construction"@.len() == 12 && "Construction"@[0] == 'C');
    assert("Trade"@.len() == 5 && "Trade"@[0] == 'T');
    assert("Warfare"@.len() == 7 && "Warfare"@[0] == 'W');
    assert("Technology"@.len() == 10 && "Technology"@[0] == 'T');
    assert("Imperial"@.len() == 8 && "Imperial"@[0] == 'I');
}

} // verus!
