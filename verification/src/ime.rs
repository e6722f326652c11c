use vstd::prelude::*;

verus! {

/// Composition state of the platform input method.
///
/// Text being composed (preedit) must never reach Neovim: only a commit
/// produces input, and key events go to the input method while composing.
/// A composition cleared without a commit leaves the state waiting for the
/// commit; the next key event ends that wait and reaches Neovim.
#[derive(Debug, Clone, PartialEq, Eq)]
pub enum ImeState {
    Idle,
    Composing { text: String, cursor: Option<(usize, usize)> },
    AwaitingCommit,
}

impl Default for ImeState {
    fn default() -> (s: Self)
        ensures
            s is Idle,
    {
        ImeState::Idle
    }
}

/// The state after the input method reports the preedit `text`.
pub open spec fn after_preedit(s: ImeState, text: String, cursor: Option<(usize, usize)>) -> ImeState {
    if text@.len() == 0 {
        if s is Composing {
            ImeState::AwaitingCommit
        } else {
            ImeState::Idle
        }
    } else {
        ImeState::Composing { text, cursor }
    }
}

/// Whether a key event belongs to the input method.
pub open spec fn swallows_key(s: ImeState) -> bool {
    s is Composing
}

/// The state after a key event: a wait for a commit ends.
pub open spec fn after_key(s: ImeState) -> ImeState {
    if s is AwaitingCommit {
        ImeState::Idle
    } else {
        s
    }
}

/// While text is being composed, key events go to the input method.
pub proof fn lemma_composing_swallows_keys(s: ImeState, text: String, cursor: Option<(usize, usize)>)
    requires
        text@.len() > 0,
    ensures
        swallows_key(after_preedit(s, text, cursor)),
        after_key(after_preedit(s, text, cursor)) == after_preedit(s, text, cursor),
{
}

/// A composition cleared without a commit lets the next key event through,
/// and the one after it too.
pub proof fn lemma_cleared_preedit_releases_next_key(
    s: ImeState,
    text: String,
    cursor: Option<(usize, usize)>,
    empty: String,
    empty_cursor: Option<(usize, usize)>,
)
    requires
        text@.len() > 0,
        empty@.len() == 0,
    ensures
        ({
            let cleared = after_preedit(after_preedit(s, text, cursor), empty, empty_cursor);
            &&& cleared is AwaitingCommit
            &&& !swallows_key(cleared)
            &&& after_key(cleared) is Idle
            &&& !swallows_key(after_key(cleared))
        }),
{
}

impl ImeState {
    /// Records the preedit text reported by the input method. An empty text
    /// ends the composition: after a composition the state waits for the
    /// commit, otherwise it is idle.
    pub fn set_preedit(&mut self, text: String, cursor: Option<(usize, usize)>)
        ensures
            *final(self) == after_preedit(*old(self), text, cursor),
    {
        if text.as_str().is_empty() {
            let composing = match self {
                ImeState::Composing { .. } => true,
                _ => false,
            };
            *self = if composing { ImeState::AwaitingCommit } else { ImeState::Idle };
        } else {
            *self = ImeState::Composing { text, cursor };
        }
    }

    /// Ends any composition and hands on the committed text, unless it is
    /// empty.
    pub fn commit(&mut self, text: String) -> (r: Option<String>)
        ensures
            *final(self) is Idle,
            text@.len() == 0 ==> r is None,
            text@.len() != 0 ==> r == Some(text),
    {
        *self = ImeState::Idle;
        if text.as_str().is_empty() {
            None
        } else {
            Some(text)
        }
    }

    /// Drops any composition without producing input.
    pub fn cancel(&mut self)
        ensures
            *final(self) is Idle,
    {
        *self = ImeState::Idle;
    }

    /// Whether a key event must be kept from Neovim: while composing, every
    /// key belongs to the input method. A key event ends a wait for a commit.
    pub fn blocks_keyboard_input(&mut self) -> (r: bool)
        ensures
            r == swallows_key(*old(self)),
            *final(self) == after_key(*old(self)),
    {
        match self {
            ImeState::Composing { .. } => true,
            ImeState::AwaitingCommit => {
                *self = ImeState::Idle;
                false
            },
            ImeState::Idle => false,
        }
    }

    /// The preedit text and its cursor while composing.
    pub fn preedit(&self) -> (r: Option<(&str, Option<(usize, usize)>)>)
        ensures
            match *self {
                ImeState::Composing { text, cursor } => (r matches Some((t, c)) && t@ == text@
                    && c == cursor),
                _ => r is None,
            },
    {
        match self {
            ImeState::Composing { text, cursor } => Some((text.as_str(), *cursor)),
            _ => None,
        }
    }
}

} // verus!
