//! Keys and the events that drive the client.
use vstd::prelude::*;
use crate::gh::{PrDetails, PrId, PullRequest};

verus! {

/// The key that was pressed.
#[derive(Clone, Copy, Debug, PartialEq, Eq, Structural)]
pub enum KeyCode {
    Char(char),
    Tab,
    BackTab,
    Up,
    Down,
    Esc,
    Enter,
    Backspace,
    Other,
}

/// The modifier keys held with it.
#[derive(Clone, Copy, Debug, PartialEq, Eq, Structural)]
pub struct KeyModifiers {
    pub shift: bool,
    pub control: bool,
    pub alt: bool,
    pub super_key: bool,
    pub hyper: bool,
    pub meta: bool,
}

/// A key press.
#[derive(Clone, Copy, Debug, PartialEq, Eq, Structural)]
pub struct KeyEvent {
    pub code: KeyCode,
    pub modifiers: KeyModifiers,
}

/// Control and no other modifier.
pub open spec fn control_only(m: KeyModifiers) -> bool {
    m.control && !m.shift && !m.alt && !m.super_key && !m.hyper && !m.meta
}

/// `q` with any modifiers, or Control-C.
pub open spec fn quits(key: KeyEvent) -> bool {
    key.code == KeyCode::Char('q') || (key.code == KeyCode::Char('c') && control_only(key.modifiers))
}

/// Whether the key quits the client (see `quits`).
pub fn is_quit(key: &KeyEvent) -> (r: bool)
    ensures
        r == quits(*key),
{
    match key.code {
        KeyCode::Char(c) => c == 'q' || (c == 'c' && key.modifiers.control && !key.modifiers.shift
            && !key.modifiers.alt && !key.modifiers.super_key && !key.modifiers.hyper && !key.modifiers.meta),
        _ => false,
    }
}

/// What happens to the client.
pub enum AppEvent {
    Key(KeyEvent),
    TabLoaded(usize, Vec<PullRequest>),
    TabError(usize, String),
    DetailLoaded(PrId, PrDetails),
    DetailError(PrId),
}

/// What the client asks its surroundings to do.
pub enum Effect {
    /// Stop the client.
    Quit,
    /// Fetch the pull requests of all five tabs.
    FetchAllTabs,
    /// Fetch the details of one pull request.
    FetchDetail(PrId),
    /// Fetch the details of each of these pull requests.
    FetchDetails(Vec<PrId>),
    /// Write the marks (done, snoozed, pinned, read) to disk.
    SaveLocalState,
    /// Open a page in the browser.
    OpenUrl(String),
}

} // verus!
