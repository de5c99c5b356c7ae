//! What a focus source reports, whatever the window system behind it.

use vstd::prelude::*;

verus! {

/// The window that holds input focus: the stable identity of its application, and its title,
/// which may be empty.
#[derive(Debug, Clone, PartialEq, Eq)]
pub struct FocusedWindow {
    pub app_identity: String,
    pub title: String,
}

/// What one look at the focus came to. Only `Focused` leads to an attribution; the others say
/// why there is none.
#[derive(Debug, Clone, PartialEq, Eq)]
pub enum FocusReading {
    /// A window has focus and its application is known.
    Focused(FocusedWindow),
    /// The window system answered that no window has focus.
    NothingFocused,
    /// A window has focus but names no application.
    NoIdentity,
    /// The window system did not answer, or not in the form that it should.
    Unavailable,
}

/// What a command that was run left behind: whether it ended in success, and what it wrote
/// to its standard output.
#[derive(Debug, Clone, PartialEq, Eq)]
pub struct CommandOutput {
    pub success: bool,
    pub stdout: Vec<u8>,
}

/// The text that `String::from_utf8_lossy` makes of `bytes`: the text that they encode, with
/// U+FFFD in place of what is not UTF-8.
pub uninterp spec fn utf8_lossy(bytes: Seq<u8>) -> Seq<char>;

/// `String::from_utf8_lossy`, with the result as an owned `String`. Trusted: the text is the
/// one that the standard library makes of these bytes.
#[verifier::external_body]
pub(crate) fn lossy_text(bytes: &[u8]) -> (text: String)
    ensures
        text@ == utf8_lossy(bytes@),
{
    String::from_utf8_lossy(bytes).into_owned()
}

impl FocusReading {
    /// The window, where one was found.
    pub open spec fn window(self) -> Option<FocusedWindow> {
        match self {
            FocusReading::Focused(w) => Some(w),
            _ => None,
        }
    }

    /// The window, where one was found: every other reading comes to `None`.
    pub fn into_window(self) -> (r: Option<FocusedWindow>)
        ensures
            r == self.window(),
    {
        match self {
            FocusReading::Focused(w) => Some(w),
            _ => None,
        }
    }
}

} // verus!
