//! The focus source for a display server that is asked for window properties: the root
//! window names the active window, and that window names its class and its title.

use crate::focus::{lossy_text, utf8_lossy, FocusReading, FocusedWindow};
use crate::text::{class_name, last_segment};
use vstd::prelude::*;

verus! {

/// The type that a property is asked for.
#[derive(Debug, Clone, Copy, PartialEq, Eq, Structural)]
pub enum PropertyType {
    /// The predefined type of window references.
    Window,
    /// The predefined type of legacy strings.
    String,
    /// The type of UTF-8 strings, an atom that the server assigns.
    Utf8String,
}

/// A request for one property of one window, without deleting it.
#[derive(Debug, Clone, Copy, PartialEq, Eq, Structural)]
pub struct PropertyQuery {
    pub window: u32,
    pub property: u32,
    pub property_type: PropertyType,
    pub type_atom: Option<u32>,
    pub long_offset: u32,
    pub long_length: u32,
}

/// The server's answer to a property request: the number of items of the value, and the
/// value as raw bytes.
#[derive(Debug, Clone, PartialEq, Eq)]
pub struct PropertyReply {
    pub value_len: u32,
    pub value: Vec<u8>,
}

/// The names of the atoms that the source needs, in the order in which `X11Backend::new`
/// takes them.
pub fn atom_names() -> (r: Vec<&'static str>)
    ensures
        r@.len() == 4,
        r@[0]@ == "_NET_ACTIVE_WINDOW"@,
        r@[1]@ == "WM_CLASS"@,
        r@[2]@ == "UTF8_STRING"@,
        r@[3]@ == "_NET_WM_NAME"@,
{
    let mut r: Vec<&'static str> = Vec::new();
    r.push("_NET_ACTIVE_WINDOW");
    r.push("WM_CLASS");
    r.push("UTF8_STRING");
    r.push("_NET_WM_NAME");
    r
}

/// The focus source: the atoms by which the server knows the properties that are asked for.
#[derive(Debug, Clone, Copy, PartialEq, Eq, Structural)]
pub struct X11Backend {
    pub atom_net_active_window: u32,
    pub atom_wm_class: u32,
    pub atom_utf8_string: u32,
    pub atom_net_wm_name: u32,
}

/// Where a look at the focus stands between two requests.
#[derive(Debug, Clone, PartialEq, Eq)]
pub enum Probe {
    /// The root window was asked for the active window.
    AwaitActiveWindow,
    /// The active window was asked for its class.
    AwaitClass { window: u32 },
    /// The active window was asked for its title; its class is known.
    AwaitTitle { window: u32, class: Vec<u8> },
}

/// What a look at the focus does next.
#[derive(Debug, Clone, PartialEq, Eq)]
pub enum ProbeStep {
    /// Send the request and come back with the answer.
    Ask(Probe, PropertyQuery),
    /// The look is over.
    Done(FocusReading),
}

/// Four bytes read as a number with the lowest byte first.
pub open spec fn u32_low_first(b: Seq<u8>) -> int {
    b[0] as int + 256 * (b[1] as int) + 65536 * (b[2] as int) + 16777216 * (b[3] as int)
}

/// Four bytes read as a number with the highest byte first.
pub open spec fn u32_high_first(b: Seq<u8>) -> int {
    b[3] as int + 256 * (b[2] as int) + 65536 * (b[1] as int) + 16777216 * (b[0] as int)
}

/// Whether `id` is what the first four bytes of `value` stand for in the byte order of some
/// machine.
pub open spec fn names_window(value: Seq<u8>, id: u32) -> bool {
    value.len() >= 4 && (id == u32_low_first(value.take(4)) || id == u32_high_first(
        value.take(4),
    ))
}

/// `u32::from_ne_bytes`. Trusted: the result is what the four bytes stand for with the lowest
/// byte first or with the highest byte first; which of the two depends on the machine.
#[verifier::external_body]
fn native_u32(b0: u8, b1: u8, b2: u8, b3: u8) -> (r: u32)
    ensures
        r == u32_low_first(seq![b0, b1, b2, b3]) || r == u32_high_first(seq![b0, b1, b2, b3]),
{
    u32::from_ne_bytes([b0, b1, b2, b3])
}

/// The window that the root window's answer names. `None` where the answer holds no item, or
/// fewer bytes than a window reference has.
pub fn active_window(reply: &PropertyReply) -> (r: Option<u32>)
    ensures
        r is Some <==> reply.value_len != 0 && reply.value@.len() >= 4,
        r matches Some(id) ==> names_window(reply.value@, id),
{
    if reply.value_len == 0 || reply.value.len() < 4 {
        return None;
    }
    let id = native_u32(reply.value[0], reply.value[1], reply.value[2], reply.value[3]);
    assert(reply.value@.take(4) =~= seq![
        reply.value@[0],
        reply.value@[1],
        reply.value@[2],
        reply.value@[3],
    ]);
    Some(id)
}

/// What the class and the title of the active window come to: the identity is the last of the
/// NUL-separated segments of the class, and a window whose identity is empty is none.
pub open spec fn window_reading(class: Seq<u8>, title: Seq<u8>, r: FocusReading) -> bool {
    let identity = last_segment(utf8_lossy(class));
    if identity.len() == 0 {
        r == FocusReading::NoIdentity
    } else {
        &&& r matches FocusReading::Focused(w)
        &&& w.app_identity@ == identity
        &&& w.title@ == utf8_lossy(title)
    }
}

/// The reading for a window with this class and this title: see `window_reading`.
pub fn read_window(class: &[u8], title: &[u8]) -> (r: FocusReading)
    ensures
        window_reading(class@, title@, r),
{
    let app_id = lossy_text(class);
    let title = lossy_text(title);
    let stable_id = class_name(app_id.as_str());
    if stable_id.as_str().is_empty() {
        FocusReading::NoIdentity
    } else {
        FocusReading::Focused(FocusedWindow { app_identity: stable_id, title })
    }
}

/// What a whole look at the focus comes to, given the answers to its three requests, each
/// `None` where the request failed; the second and third count only where a look gets that far.
pub open spec fn reading_of(
    active: Option<PropertyReply>,
    class: Option<PropertyReply>,
    title: Option<PropertyReply>,
    r: FocusReading,
) -> bool {
    match active {
        None => r == FocusReading::Unavailable,
        Some(a) => if a.value_len == 0 {
            r == FocusReading::NothingFocused
        } else if a.value@.len() < 4 {
            r == FocusReading::Unavailable
        } else if class is None || title is None {
            r == FocusReading::Unavailable
        } else {
            window_reading(class->0.value@, title->0.value@, r)
        },
    }
}

impl X11Backend {
    /// The source, where the server knows all four atoms; each argument is the atom that it
    /// gave for one of `atom_names`, or `None` where it gave none.
    pub fn new(
        atom_net_active_window: Option<u32>,
        atom_wm_class: Option<u32>,
        atom_utf8_string: Option<u32>,
        atom_net_wm_name: Option<u32>,
    ) -> (r: Option<X11Backend>)
        ensures
            r is Some <==> atom_net_active_window is Some && atom_wm_class is Some
                && atom_utf8_string is Some && atom_net_wm_name is Some,
            r matches Some(b) ==> b == (X11Backend {
                atom_net_active_window: atom_net_active_window->0,
                atom_wm_class: atom_wm_class->0,
                atom_utf8_string: atom_utf8_string->0,
                atom_net_wm_name: atom_net_wm_name->0,
            }),
    {
        match (atom_net_active_window, atom_wm_class, atom_utf8_string, atom_net_wm_name) {
            (Some(a), Some(c), Some(u), Some(n)) => Some(
                X11Backend {
                    atom_net_active_window: a,
                    atom_wm_class: c,
                    atom_utf8_string: u,
                    atom_net_wm_name: n,
                },
            ),
            _ => None,
        }
    }

    /// The request for the active window, to the root window `root`.
    pub open spec fn active_window_query(self, root: u32) -> PropertyQuery {
        PropertyQuery {
            window: root,
            property: self.atom_net_active_window,
            property_type: PropertyType::Window,
            type_atom: None,
            long_offset: 0,
            long_length: 1,
        }
    }

    /// The request for the class of `window`.
    pub open spec fn class_query(self, window: u32) -> PropertyQuery {
        PropertyQuery {
            window: window,
            property: self.atom_wm_class,
            property_type: PropertyType::String,
            type_atom: None,
            long_offset: 0,
            long_length: 1024,
        }
    }

    /// The request for the title of `window`.
    pub open spec fn title_query(self, window: u32) -> PropertyQuery {
        PropertyQuery {
            window: window,
            property: self.atom_net_wm_name,
            property_type: PropertyType::Utf8String,
            type_atom: Some(self.atom_utf8_string),
            long_offset: 0,
            long_length: 1024,
        }
    }

    /// Starts a look at the focus: the root window is asked for the active window.
    pub fn begin(&self, root: u32) -> (step: ProbeStep)
        ensures
            step == ProbeStep::Ask(Probe::AwaitActiveWindow, self.active_window_query(root)),
    {
        ProbeStep::Ask(
            Probe::AwaitActiveWindow,
            PropertyQuery {
                window: root,
                property: self.atom_net_active_window,
                property_type: PropertyType::Window,
                type_atom: None,
                long_offset: 0,
                long_length: 1,
            },
        )
    }

    /// What follows the answer `reply` to the request that `probe` waits for; `None` stands
    /// for a request that failed.
    pub open spec fn follows(self, probe: Probe, reply: Option<PropertyReply>, step: ProbeStep) -> bool {
        match probe {
            Probe::AwaitActiveWindow => match reply {
                None => step == ProbeStep::Done(FocusReading::Unavailable),
                Some(a) => if a.value_len == 0 {
                    step == ProbeStep::Done(FocusReading::NothingFocused)
                } else if a.value@.len() < 4 {
                    step == ProbeStep::Done(FocusReading::Unavailable)
                } else {
                    exists|window: u32| #[trigger]
                        names_window(a.value@, window) && step == ProbeStep::Ask(
                            Probe::AwaitClass { window: window },
                            self.class_query(window),
                        )
                },
            },
            Probe::AwaitClass { window } => match reply {
                None => step == ProbeStep::Done(FocusReading::Unavailable),
                Some(c) => step == ProbeStep::Ask(
                    Probe::AwaitTitle { window: window, class: c.value },
                    self.title_query(window),
                ),
            },
            Probe::AwaitTitle { window, class } => match reply {
                None => step == ProbeStep::Done(FocusReading::Unavailable),
                Some(t) => step matches ProbeStep::Done(r) && window_reading(
                    class@,
                    t.value@,
                    r,
                ),
            },
        }
    }

    /// Takes the answer to the request that `probe` waits for and says what comes next: see
    /// `follows`.
    pub fn advance(&self, probe: Probe, reply: Option<PropertyReply>) -> (step: ProbeStep)
        ensures
            self.follows(probe, reply, step),
    {
        let reply = match reply {
            None => {
                return ProbeStep::Done(FocusReading::Unavailable);
            },
            Some(reply) => reply,
        };
        match probe {
            Probe::AwaitActiveWindow => {
                if reply.value_len == 0 {
                    return ProbeStep::Done(FocusReading::NothingFocused);
                }
                match active_window(&reply) {
                    None => ProbeStep::Done(FocusReading::Unavailable),
                    Some(window) => ProbeStep::Ask(
                        Probe::AwaitClass { window },
                        PropertyQuery {
                            window,
                            property: self.atom_wm_class,
                            property_type: PropertyType::String,
                            type_atom: None,
                            long_offset: 0,
                            long_length: 1024,
                        },
                    ),
                }
            },
            Probe::AwaitClass { window } => ProbeStep::Ask(
                Probe::AwaitTitle { window, class: reply.value },
                PropertyQuery {
                    window,
                    property: self.atom_net_wm_name,
                    property_type: PropertyType::Utf8String,
                    type_atom: Some(self.atom_utf8_string),
                    long_offset: 0,
                    long_length: 1024,
                },
            ),
            Probe::AwaitTitle { window, class } => ProbeStep::Done(
                read_window(class.as_slice(), reply.value.as_slice()),
            ),
        }
    }

    /// The focused window, given the answers to the three requests of a look, each `None`
    /// where the request failed or was not made: see `reading_of`.
    pub fn get_focused_window(
        &self,
        active: Option<PropertyReply>,
        class: Option<PropertyReply>,
        title: Option<PropertyReply>,
    ) -> (r: Option<FocusedWindow>)
        ensures
            exists|reading: FocusReading| #[trigger]
                reading_of(active, class, title, reading) && r == reading.window(),
    {
        let active = match active {
            None => {
                assert(reading_of(active, class, title, FocusReading::Unavailable));
                return None;
            },
            Some(a) => a,
        };
        if active.value_len == 0 {
            assert(reading_of(Some(active), class, title, FocusReading::NothingFocused));
            return None;
        }
        if active.value.len() < 4 {
            assert(reading_of(Some(active), class, title, FocusReading::Unavailable));
            return None;
        }
        match (class, title) {
            (Some(c), Some(t)) => {
                let reading = read_window(c.value.as_slice(), t.value.as_slice());
                assert(reading_of(Some(active), Some(c), Some(t), reading));
                reading.into_window()
            },
            _ => {
                assert(reading_of(Some(active), class, title, FocusReading::Unavailable));
                None
            },
        }
    }
}

} // verus!
