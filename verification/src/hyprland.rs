//! The focus source for a compositor that answers a query for the active window with a
//! structured reply on the standard output of its control program.

use crate::focus::{lossy_text, utf8_lossy, CommandOutput, FocusReading, FocusedWindow};
use crate::text::{same_text, trim, trimmed};
use vstd::prelude::*;

verus! {

/// The active window as the compositor's reply describes it.
#[derive(Debug, Clone, PartialEq, Eq)]
pub struct HyprWindow {
    pub class: String,
    pub title: String,
}

/// The control program of the compositor.
pub fn program() -> (r: &'static str)
    ensures
        r@ == "hyprctl"@,
{
    "hyprctl"
}

/// The arguments that ask the control program for the active window as a structured reply.
pub fn arguments() -> (r: Vec<&'static str>)
    ensures
        r@.len() == 2,
        r@[0]@ == "activewindow"@,
        r@[1]@ == "-j"@,
{
    let mut r: Vec<&'static str> = Vec::new();
    r.push("activewindow");
    r.push("-j");
    r
}

/// Whether a reply is the empty object, by which the compositor says that nothing has focus.
pub open spec fn is_empty_object(text: Seq<char>) -> bool {
    trimmed(text) == "{}"@
}

/// What a query comes to, given what the control program left behind (`None` where it could
/// not be run) and the window that its output describes (`None` where the output describes
/// none).
pub open spec fn reading_of(output: Option<CommandOutput>, decoded: Option<HyprWindow>) -> FocusReading {
    match output {
        None => FocusReading::Unavailable,
        Some(o) => if !o.success {
            FocusReading::Unavailable
        } else if is_empty_object(utf8_lossy(o.stdout@)) {
            FocusReading::NothingFocused
        } else {
            match decoded {
                None => FocusReading::Unavailable,
                Some(w) => if w.class@.len() == 0 {
                    FocusReading::NoIdentity
                } else {
                    FocusReading::Focused(FocusedWindow { app_identity: w.class, title: w.title })
                },
            }
        },
    }
}

/// The text of the reply: the output of the control program, read as UTF-8.
pub fn reply_text(output: &CommandOutput) -> (text: String)
    ensures
        text@ == utf8_lossy(output.stdout@),
{
    lossy_text(output.stdout.as_slice())
}

/// What a query comes to: see `reading_of`.
pub fn read_focus(output: Option<CommandOutput>, decoded: Option<HyprWindow>) -> (r: FocusReading)
    ensures
        r == reading_of(output, decoded),
{
    match output {
        None => FocusReading::Unavailable,
        Some(o) => {
            if !o.success {
                return FocusReading::Unavailable;
            }
            let text = reply_text(&o);
            if same_text(trim(text.as_str()), "{}") {
                return FocusReading::NothingFocused;
            }
            match decoded {
                None => FocusReading::Unavailable,
                Some(w) => {
                    if w.class.as_str().is_empty() {
                        FocusReading::NoIdentity
                    } else {
                        FocusReading::Focused(
                            FocusedWindow { app_identity: w.class, title: w.title },
                        )
                    }
                },
            }
        },
    }
}

/// The focused window, where the query found one with an identity: the class of the reply
/// is the identity. A query that failed, an empty object, a reply that describes no window
/// and a window without a class all come to `None`.
pub fn get_focused_window(output: Option<CommandOutput>, decoded: Option<HyprWindow>) -> (r: Option<
    FocusedWindow,
>)
    ensures
        r == reading_of(output, decoded).window(),
{
    read_focus(output, decoded).into_window()
}

} // verus!
