use vstd::prelude::*;

use crate::grid::{applied_all, GridState};
use crate::ime::{after_key, after_preedit, swallows_key, ImeState};
use crate::input::{key_text, key_to_nvim, KeyInput, Modifiers, WheelDirection};
use crate::redraw::{CursorStyle, RedrawEvent};
use crate::text::{chars_of, has_prefix, starts_with};

verus! {

/// Whether Neovim mode `mode` takes text, so that the input method should
/// be available: insert, replace, command-line and terminal modes.
pub fn mode_allows_ime(mode: &str) -> (r: bool)
    ensures
        r == takes_text(mode@),
{
    let chars = chars_of(mode);
    starts_with(&chars, "insert") || starts_with(&chars, "replace") || starts_with(
        &chars,
        "cmdline",
    ) || starts_with(&chars, "terminal")
}

/// The input that closes Neovim when the window is closed: leave the
/// current mode, then quit all windows, letting Neovim ask about unsaved
/// changes.
pub fn close_command() -> (r: String)
    ensures
        r@ == "<Esc>:confirm qa<CR>"@,
{
    String::from_str("<Esc>:confirm qa<CR>")
}

/// The window title: it says that Neovim is starting until its first
/// frame has arrived.
pub fn window_title(has_received_first_frame: bool) -> (r: &'static str)
    ensures
        r@ == if has_received_first_frame {
            "Mado"@
        } else {
            "Mado — Starting…"@
        },
{
    if has_received_first_frame {
        "Mado"
    } else {
        "Mado — Starting…"
    }
}

/// The `nvim_input_mouse` action of a wheel step.
pub open spec fn wheel_text(direction: WheelDirection) -> Seq<char> {
    match direction {
        WheelDirection::Up => "up"@,
        WheelDirection::Down => "down"@,
        WheelDirection::Left => "left"@,
        WheelDirection::Right => "right"@,
    }
}

/// The `nvim_input_mouse` action of a wheel step.
pub fn wheel_action(direction: WheelDirection) -> (r: &'static str)
    ensures
        r@ == wheel_text(direction),
{
    match direction {
        WheelDirection::Up => "up",
        WheelDirection::Down => "down",
        WheelDirection::Left => "left",
        WheelDirection::Right => "right",
    }
}

/// An event of the platform's input method.
#[derive(Debug, Clone, PartialEq, Eq)]
pub enum ImeEvent {
    Enabled,
    Preedit(String, Option<(usize, usize)>),
    Commit(String),
    Disabled,
}

/// Applies an input method event; returns the text to send to Neovim, which
/// only a non-empty commit gives.
pub fn handle_ime_event(ime: &mut ImeState, event: ImeEvent) -> (r: Option<String>)
    ensures
        match event {
            ImeEvent::Enabled => r is None && *final(ime) == *old(ime),
            ImeEvent::Preedit(text, cursor) => r is None && *final(ime) == after_preedit(
                *old(ime),
                text,
                cursor,
            ),
            ImeEvent::Commit(text) => *final(ime) is Idle && r == if text@.len() == 0 {
                None
            } else {
                Some(text)
            },
            ImeEvent::Disabled => r is None && *final(ime) is Idle,
        },
{
    match event {
        ImeEvent::Enabled => None,
        ImeEvent::Preedit(text, cursor) => {
            ime.set_preedit(text, cursor);
            None
        },
        ImeEvent::Commit(text) => ime.commit(text),
        ImeEvent::Disabled => {
            ime.cancel();
            None
        },
    }
}

/// A key event: the input to send to Neovim, unless the input method takes
/// the key or the key means nothing to Neovim.
pub fn handle_key(ime: &mut ImeState, event: &KeyInput, modifiers: Modifiers) -> (r: Option<String>)
    ensures
        *final(ime) == after_key(*old(ime)),
        swallows_key(*old(ime)) ==> r is None,
        !swallows_key(*old(ime)) ==> match r {
            Some(s) => key_text(*event, modifiers) == Some(s@),
            None => key_text(*event, modifiers) is None,
        },
{
    if ime.blocks_keyboard_input() {
        None
    } else {
        key_to_nvim(event, modifiers)
    }
}

/// Mode `mode` takes text (see `mode_allows_ime`).
pub open spec fn takes_text(mode: Seq<char>) -> bool {
    has_prefix(mode, "insert"@) || has_prefix(mode, "replace"@) || has_prefix(mode, "cmdline"@)
        || has_prefix(mode, "terminal"@)
}

/// Makes the input method available exactly in modes that take text. When
/// it becomes unavailable, any composition is dropped. Returns whether the
/// availability changed, so that the window is told.
pub fn set_ime_for_mode(ime_allowed: &mut bool, ime: &mut ImeState, mode: &str) -> (changed: bool)
    ensures
        *final(ime_allowed) == takes_text(mode@),
        changed == (*old(ime_allowed) != takes_text(mode@)),
        changed && !takes_text(mode@) ==> *final(ime) is Idle,
        !(changed && !takes_text(mode@)) ==> *final(ime) == *old(ime),
{
    let allowed = mode_allows_ime(mode);
    if *ime_allowed == allowed {
        return false;
    }
    *ime_allowed = allowed;
    if !allowed {
        ime.cancel();
    }
    true
}

/// Notes that a batch was drawn (`flush`); returns whether this is the
/// first frame, after which the window title changes.
pub fn note_frame(has_received_first_frame: &mut bool, flush: bool) -> (first: bool)
    ensures
        first == (flush && !*old(has_received_first_frame)),
        *final(has_received_first_frame) == (*old(has_received_first_frame) || flush),
{
    if flush && !*has_received_first_frame {
        *has_received_first_frame = true;
        true
    } else {
        false
    }
}

/// A mouse button that Neovim is told about.
#[derive(Debug, Clone, Copy, PartialEq, Eq)]
pub enum PointerButton {
    Left,
    Right,
    Middle,
}

pub open spec fn button_text(button: PointerButton) -> Seq<char> {
    match button {
        PointerButton::Left => "left"@,
        PointerButton::Right => "right"@,
        PointerButton::Middle => "middle"@,
    }
}

/// The `nvim_input_mouse` name of a button.
pub fn button_name(button: PointerButton) -> (r: &'static str)
    ensures
        r@ == button_text(button),
{
    match button {
        PointerButton::Left => "left",
        PointerButton::Right => "right",
        PointerButton::Middle => "middle",
    }
}

/// The `nvim_input_mouse` action of a button going down (`pressed`) or up.
pub open spec fn button_action_text(pressed: bool) -> Seq<char> {
    if pressed {
        "press"@
    } else {
        "release"@
    }
}

/// Which button is held, so that pointer motion is reported as a drag.
#[derive(Debug, Clone, Copy, PartialEq, Eq)]
pub struct MouseTracker {
    pub pressed: Option<PointerButton>,
}

impl Default for MouseTracker {
    fn default() -> (r: Self)
        ensures
            r.pressed is None,
    {
        MouseTracker { pressed: None }
    }
}

impl MouseTracker {
    /// A button went down (`pressed`) or up: returns the button's name and
    /// the action to report; a press is held until a release.
    pub fn button(&mut self, button: PointerButton, pressed: bool) -> (r: (&'static str, &'static str))
        ensures
            final(self).pressed == if pressed {
                Some(button)
            } else {
                None
            },
            r.0@ == button_text(button),
            r.1@ == button_action_text(pressed),
    {
        if pressed {
            self.pressed = Some(button);
            (button_name(button), "press")
        } else {
            self.pressed = None;
            (button_name(button), "release")
        }
    }

    /// The pointer moved: the held button, whose drag is reported.
    pub fn drag(&self) -> (r: Option<&'static str>)
        ensures
            match self.pressed {
                Some(b) => r matches Some(name) && name@ == button_text(b),
                None => r is None,
            },
    {
        match self.pressed {
            Some(button) => Some(button_name(button)),
            None => None,
        }
    }
}

/// Applies the events of a redraw batch to the grid, in order; returns
/// whether the batch completes a frame (holds a `flush`).
pub fn apply_redraw_events(grid: &mut GridState, events: &Vec<RedrawEvent>) -> (flush: bool)
    ensures
        final(grid)@ == applied_all(old(grid)@, events@),
        flush == exists|i: int| 0 <= i < events@.len() && #[trigger] events@[i] is Flush,
{
    let mut flush = false;
    let mut i: usize = 0;
    assert(events@.take(0) =~= Seq::<RedrawEvent>::empty());
    while i < events.len()
        invariant
            i <= events@.len(),
            grid@ == applied_all(old(grid)@, events@.take(i as int)),
            flush == exists|j: int| 0 <= j < i && #[trigger] events@[j] is Flush,
        decreases events@.len() - i,
    {
        let ended = grid.apply(&events[i]);
        proof {
            let next = events@.take(i + 1);
            assert(next.drop_last() =~= events@.take(i as int));
            assert(next.last() == events@[i as int]);
            if ended {
                assert(events@[i as int] is Flush);
            }
        }
        flush = flush || ended;
        i += 1;
    }
    assert(events@.take(events@.len() as int) =~= events@);
    flush
}

/// Whether a redraw batch moves the cursor or changes its style, which
/// restarts the cursor blink.
pub fn events_restart_blink(events: &Vec<RedrawEvent>) -> (r: bool)
    ensures
        r == exists|i: int|
            0 <= i < events@.len() && (#[trigger] events@[i] is GridCursorGoto || events@[i] is ModeChange
                || events@[i] is ModeInfoSet),
{
    let mut i: usize = 0;
    while i < events.len()
        invariant
            i <= events@.len(),
            forall|j: int|
                0 <= j < i ==> !(#[trigger] events@[j] is GridCursorGoto || events@[j] is ModeChange
                    || events@[j] is ModeInfoSet),
        decreases events@.len() - i,
    {
        match &events[i] {
            RedrawEvent::GridCursorGoto { .. } | RedrawEvent::ModeChange { .. }
            | RedrawEvent::ModeInfoSet { .. } => {
                return true;
            },
            _ => {},
        }
        i += 1;
    }
    false
}

#[derive(Debug, Clone, Copy, PartialEq, Eq)]
pub enum BlinkPhase {
    Waiting,
    Visible,
    Hidden,
}

/// The state of the cursor blink, times in milliseconds.
pub struct BlinkModel {
    pub visible: bool,
    pub phase: BlinkPhase,
    pub deadline: Option<u64>,
    pub blink_on: u64,
    pub blink_off: u64,
}

/// Where the blink stands at `now` when it stood in `phase`, showing the
/// cursor or not, with its next change due at `deadline`: past each due time
/// the cursor hides for `off`, then shows for `on`, and so on.
pub open spec fn blink_steps(
    phase: BlinkPhase,
    visible: bool,
    deadline: int,
    on: int,
    off: int,
    now: int,
) -> (BlinkPhase, bool, int)
    decreases (if now >= deadline {
        now - deadline + 1
    } else {
        0
    }),
{
    if now < deadline || on <= 0 || off <= 0 {
        (phase, visible, deadline)
    } else {
        match phase {
            BlinkPhase::Hidden => blink_steps(BlinkPhase::Visible, true, deadline + on, on, off, now),
            _ => blink_steps(BlinkPhase::Hidden, false, deadline + off, on, off, now),
        }
    }
}

/// The blink state at `now` of a blink whose cycle started at `start`, with
/// the cursor hidden for `off` and then shown for `on`, in turn: within
/// each cycle of `on + off`, hidden for the first `off` and shown after.
pub open spec fn blink_at(start: int, on: int, off: int, now: int) -> (BlinkPhase, bool, int) {
    let k = (now - start) % (on + off);
    let cycle = now - k;
    if k < off {
        (BlinkPhase::Hidden, false, cycle + off)
    } else {
        (BlinkPhase::Visible, true, cycle + on + off)
    }
}

/// Blinking from the end of the wait at `start` follows the cycle: the
/// cursor is hidden for `off`, shown for `on`, and so on, with the next
/// change due at the end of the current half of the cycle.
pub proof fn lemma_blink_cycle(phase: BlinkPhase, visible: bool, start: int, on: int, off: int, now: int)
    requires
        phase != BlinkPhase::Hidden,
        on > 0,
        off > 0,
        start <= now,
    ensures
        blink_steps(phase, visible, start, on, off, now) == blink_at(start, on, off, now),
    decreases now - start,
{
    let p = on + off;
    assert(blink_steps(phase, visible, start, on, off, now) == blink_steps(
        BlinkPhase::Hidden,
        false,
        start + off,
        on,
        off,
        now,
    ));
    if now < start + off {
        assert((now - start) % p == now - start) by {
            vstd::arithmetic::div_mod::lemma_small_mod((now - start) as nat, p as nat);
        }
    } else if now < start + p {
        assert((now - start) % p == now - start) by {
            vstd::arithmetic::div_mod::lemma_small_mod((now - start) as nat, p as nat);
        }
        assert(blink_steps(BlinkPhase::Hidden, false, start + off, on, off, now)
            == blink_steps(BlinkPhase::Visible, true, start + off + on, on, off, now));
        assert(blink_steps(BlinkPhase::Visible, true, start + off + on, on, off, now) == (
        BlinkPhase::Visible, true, start + off + on));
    } else {
        lemma_blink_cycle(BlinkPhase::Visible, true, start + p, on, off, now);
        assert((now - (start + p)) % p == (now - start) % p) by {
            vstd::arithmetic::div_mod::lemma_mod_sub_multiples_vanish(now - start, p);
        }
        assert(blink_steps(BlinkPhase::Hidden, false, start + off, on, off, now)
            == blink_steps(BlinkPhase::Visible, true, start + off + on, on, off, now));
    }
}

/// The cursor blink as a whole: shown until the wait ends at `deadline`,
/// then hidden for `off` and shown for `on` in turn; with either duration
/// zero it never changes.
pub proof fn lemma_blink_schedule(deadline: int, on: int, off: int, now: int)
    ensures
        on > 0 && off > 0 && now >= deadline ==> blink_steps(
            BlinkPhase::Waiting,
            true,
            deadline,
            on,
            off,
            now,
        ) == blink_at(deadline, on, off, now),
        now < deadline || on <= 0 || off <= 0 ==> blink_steps(
            BlinkPhase::Waiting,
            true,
            deadline,
            on,
            off,
            now,
        ) == (BlinkPhase::Waiting, true, deadline),
        on > 0 && off > 0 && now >= deadline ==> (blink_steps(
            BlinkPhase::Waiting,
            true,
            deadline,
            on,
            off,
            now,
        ).1 <==> (now - deadline) % (on + off) >= off),
{
    if on > 0 && off > 0 && now >= deadline {
        lemma_blink_cycle(BlinkPhase::Waiting, true, deadline, on, off, now);
    }
}

/// Cursor blinking as Neovim's `guicursor` describes it: after `blinkwait`
/// the cursor hides for `blinkoff`, then shows for `blinkon`, in turn.
#[derive(Debug)]
pub struct CursorBlink {
    visible: bool,
    phase: BlinkPhase,
    deadline: Option<u64>,
    blink_on: u64,
    blink_off: u64,
}

impl View for CursorBlink {
    type V = BlinkModel;

    closed spec fn view(&self) -> BlinkModel {
        BlinkModel {
            visible: self.visible,
            phase: self.phase,
            deadline: self.deadline,
            blink_on: self.blink_on,
            blink_off: self.blink_off,
        }
    }
}

impl BlinkModel {
    /// A blink is due only with both durations positive.
    pub open spec fn wf(self) -> bool {
        self.deadline is Some ==> self.blink_on > 0 && self.blink_off > 0
    }
}

impl CursorBlink {
    #[verifier::type_invariant]
    spec fn due_only_with_durations(self) -> bool {
        self.deadline is Some ==> self.blink_on > 0 && self.blink_off > 0
    }

    /// Whether the cursor is shown.
    pub fn visible(&self) -> (r: bool)
        ensures
            r == self@.visible,
    {
        self.visible
    }
}

impl Default for CursorBlink {
    fn default() -> (b: Self)
        ensures
            b@ == (BlinkModel {
                visible: true,
                phase: BlinkPhase::Waiting,
                deadline: None,
                blink_on: 0,
                blink_off: 0,
            }),
    {
        CursorBlink {
            visible: true,
            phase: BlinkPhase::Waiting,
            deadline: None,
            blink_on: 0,
            blink_off: 0,
        }
    }
}

impl CursorBlink {
    /// Shows the cursor and starts the blink of `style` at `now`; a style
    /// without both durations does not blink.
    pub fn reset(&mut self, style: &CursorStyle, now: u64)
        requires
            style.blink_on > 0 && style.blink_off > 0 ==> now + style.blink_wait <= u64::MAX,
        ensures
            final(self)@ == (BlinkModel {
                visible: true,
                phase: BlinkPhase::Waiting,
                deadline: if style.blink_on > 0 && style.blink_off > 0 {
                    Some((now + style.blink_wait) as u64)
                } else {
                    None
                },
                blink_on: style.blink_on,
                blink_off: style.blink_off,
            }),
            final(self)@.wf(),
    {
        proof {
            use_type_invariant(&*self);
        }
        self.visible = true;
        self.phase = BlinkPhase::Waiting;
        self.deadline = None;
        self.blink_on = style.blink_on;
        self.blink_off = style.blink_off;
        self.deadline = if style.blink_on > 0 && style.blink_off > 0 {
            Some(now + style.blink_wait)
        } else {
            None
        };
    }

    /// Whether a change of the blink is due at some time.
    pub fn is_scheduled(&self) -> (r: bool)
        ensures
            r == self@.deadline is Some,
    {
        self.deadline.is_some()
    }

    /// How long the cursor stays shown and hidden, in milliseconds.
    pub fn durations(&self) -> (r: (u64, u64))
        ensures
            r == (self@.blink_on, self@.blink_off),
    {
        (self.blink_on, self.blink_off)
    }

    /// Shows the cursor and stops blinking.
    pub fn suspend(&mut self)
        ensures
            final(self)@ == (BlinkModel { visible: true, deadline: None, ..old(self)@ }),
            final(self)@.wf(),
    {
        proof {
            use_type_invariant(&*self);
        }
        self.visible = true;
        self.deadline = None;
    }

    /// Moves the blink on to `now`; returns whether the cursor changed from
    /// shown to hidden or back.
    pub fn advance(&mut self, now: u64) -> (changed: bool)
        requires
            old(self)@.deadline is Some ==> now + old(self)@.blink_on + old(self)@.blink_off
                <= u64::MAX,
        ensures
            final(self)@.wf(),
            match old(self)@.deadline {
                None => final(self)@ == old(self)@ && !changed,
                Some(d) => {
                    let (phase, visible, deadline) = blink_steps(
                        old(self)@.phase,
                        old(self)@.visible,
                        d as int,
                        old(self)@.blink_on as int,
                        old(self)@.blink_off as int,
                        now as int,
                    );
                    &&& final(self)@ == (BlinkModel {
                        visible,
                        phase,
                        deadline: Some(deadline as u64),
                        ..old(self)@
                    })
                    &&& changed == (visible != old(self)@.visible)
                }
            },
    {
        proof {
            use_type_invariant(&*self);
        }
        let mut deadline = match self.deadline {
            Some(d) => d,
            None => {
                return false;
            },
        };
        if now < deadline {
            return false;
        }
        let previous = self.visible;
        let ghost start = self@;
        while now >= deadline
            invariant
                self@ == (BlinkModel { visible: self.visible, phase: self.phase, ..start }),
                start.blink_on > 0 && start.blink_off > 0,
                now + start.blink_on + start.blink_off <= u64::MAX,
                deadline <= now + start.blink_on + start.blink_off,
                blink_steps(
                    self.phase,
                    self.visible,
                    deadline as int,
                    start.blink_on as int,
                    start.blink_off as int,
                    now as int,
                ) == blink_steps(
                    start.phase,
                    start.visible,
                    start.deadline->0 as int,
                    start.blink_on as int,
                    start.blink_off as int,
                    now as int,
                ),
            decreases now + start.blink_on + start.blink_off - deadline,
        {
            match self.phase {
                BlinkPhase::Waiting | BlinkPhase::Visible => {
                    self.visible = false;
                    self.phase = BlinkPhase::Hidden;
                    deadline = deadline + self.blink_off;
                },
                BlinkPhase::Hidden => {
                    self.visible = true;
                    self.phase = BlinkPhase::Visible;
                    deadline = deadline + self.blink_on;
                },
            }
        }
        self.deadline = Some(deadline);
        previous != self.visible
    }
}

/// Each mouse button is reported to `nvim_input_mouse` under its own name:
/// the left button as `left`, the right one as `right` and the middle one
/// as `middle`, so no two buttons share a name.
pub proof fn lemma_buttons_have_their_own_names(button: PointerButton)
    ensures
        (button_text(button) == "left"@) == (button is Left),
        (button_text(button) == "right"@) == (button is Right),
        (button_text(button) == "middle"@) == (button is Middle),
{
    reveal_strlit("left");
    reveal_strlit("right");
    reveal_strlit("middle");
    assert("left"@.len() == 4);
    assert("right"@.len() == 5);
    assert("middle"@.len() == 6);
}

/// Each wheel step is reported under the name of its direction: up as
/// `up`, down as `down`, left as `left` and right as `right`.
pub proof fn lemma_wheel_steps_name_their_direction(direction: WheelDirection)
    ensures
        (wheel_text(direction) == "up"@) == (direction is Up),
        (wheel_text(direction) == "down"@) == (direction is Down),
        (wheel_text(direction) == "left"@) == (direction is Left),
        (wheel_text(direction) == "right"@) == (direction is Right),
{
    reveal_strlit("up");
    reveal_strlit("down");
    reveal_strlit("left");
    reveal_strlit("right");
    assert("up"@.len() == 2);
    assert("down"@.len() == 4 && "down"@[0] == 'd');
    assert("left"@.len() == 4 && "left"@[0] == 'l');
    assert("right"@.len() == 5);
}

/// A button going down is reported as `press` and one going up as
/// `release`.
pub proof fn lemma_button_actions_follow_the_button(pressed: bool)
    ensures
        (button_action_text(pressed) == "press"@) == pressed,
        (button_action_text(pressed) == "release"@) == !pressed,
{
    reveal_strlit("press");
    reveal_strlit("release");
    assert("press"@.len() == 5);
    assert("release"@.len() == 7);
}

} // verus!
