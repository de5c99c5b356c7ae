//! The sampling loop as a machine: on every tick it asks the idle gate, then the focus source,
//! and attributes the tick to the focused application. The machine decides; whoever runs it
//! sleeps, asks and stores, and hands back what came of it.

use crate::focus::FocusedWindow;
use crate::text::{is_blank, trimmed};
use crate::x11::X11Backend;
use vstd::prelude::*;

verus! {

/// The focus source of a process, chosen once when it starts.
#[derive(Debug, Clone, Copy, PartialEq, Eq, Structural)]
pub enum FocusSource {
    /// The compositor is asked through its control program.
    Compositor,
    /// The display server is asked for window properties.
    DirectProtocol(X11Backend),
    /// No source could be set up: every look at the focus finds nothing.
    Absent,
}

/// Whether the last tick was attributed or skipped because the user was away.
#[derive(Debug, Clone, Copy, PartialEq, Eq, Structural)]
pub enum LoopState {
    Active,
    IdleSkipped,
}

/// What the machine waits for.
#[derive(Debug, Clone, Copy, PartialEq, Eq, Structural)]
pub enum Phase {
    /// The end of the sleep before the next tick.
    Sleeping,
    /// The answer of the idle gate.
    AwaitIdle,
    /// The answer of the focus source.
    AwaitFocus,
    /// The outcome of the write to the store.
    AwaitStore,
}

/// What happened outside the machine.
#[derive(Debug, Clone, PartialEq, Eq)]
pub enum Event {
    /// The sleep is over.
    Slept,
    /// The idle gate has answered.
    Idle(bool),
    /// The focus source has answered.
    Focus(Option<FocusedWindow>),
    /// The store has taken the seconds (`true`) or refused them (`false`).
    Stored(bool),
}

/// What is to be done outside the machine.
#[derive(Debug, Clone, PartialEq, Eq)]
pub enum Action {
    /// Sleep for so many seconds, then report `Slept`.
    Sleep(u64),
    /// Ask the idle gate, then report `Idle`.
    QueryIdle,
    /// Ask this focus source, then report `Focus`.
    QueryFocus(FocusSource),
    /// Add `seconds` to today's record of `app_identity`, then report `Stored`; a refusal is
    /// to be logged and nothing more.
    Accumulate { app_identity: String, title: String, seconds: u64 },
}

/// The state of the machine between two steps.
#[derive(Debug, Clone, Copy, PartialEq, Eq, Structural)]
pub struct Sampler {
    pub interval: u64,
    pub source: FocusSource,
    pub state: LoopState,
    pub phase: Phase,
}

/// The source for a desktop: the compositor where its signature is present, else the
/// display server where a backend could be set up, else none.
pub open spec fn source_for(compositor_present: bool, backend: Option<X11Backend>) -> FocusSource {
    if compositor_present {
        FocusSource::Compositor
    } else {
        match backend {
            Some(b) => FocusSource::DirectProtocol(b),
            None => FocusSource::Absent,
        }
    }
}

impl FocusSource {
    /// Whether the direct protocol is to be set up at all: only where no compositor signature
    /// is present.
    pub fn needs_backend(compositor_present: bool) -> (r: bool)
        ensures
            r == !compositor_present,
    {
        !compositor_present
    }

    /// The source for a desktop: see `source_for`.
    pub fn select(compositor_present: bool, backend: Option<X11Backend>) -> (r: FocusSource)
        ensures
            r == source_for(compositor_present, backend),
    {
        if compositor_present {
            FocusSource::Compositor
        } else {
            match backend {
                Some(b) => FocusSource::DirectProtocol(b),
                None => FocusSource::Absent,
            }
        }
    }

    /// Whether the process runs without a focus source, which is worth one warning when it
    /// starts.
    pub fn is_absent(&self) -> (r: bool)
        ensures
            r == (*self == FocusSource::Absent),
    {
        match self {
            FocusSource::Absent => true,
            _ => false,
        }
    }
}

/// Whether a window is attributed: its identity must hold more than white space.
pub open spec fn attributable(focus: Option<FocusedWindow>) -> bool {
    focus is Some && trimmed(focus->0.app_identity@).len() > 0
}

impl Sampler {
    /// The machine after `event`.
    pub open spec fn next(self, event: Event) -> Sampler {
        match (self.phase, event) {
            (Phase::Sleeping, Event::Slept) => Sampler { phase: Phase::AwaitIdle, ..self },
            (Phase::AwaitIdle, Event::Idle(idle)) => if idle {
                Sampler { phase: Phase::Sleeping, state: LoopState::IdleSkipped, ..self }
            } else if self.source == FocusSource::Absent {
                Sampler { phase: Phase::Sleeping, state: LoopState::Active, ..self }
            } else {
                Sampler { phase: Phase::AwaitFocus, state: LoopState::Active, ..self }
            },
            (Phase::AwaitFocus, Event::Focus(focus)) => if attributable(focus) {
                Sampler { phase: Phase::AwaitStore, ..self }
            } else {
                Sampler { phase: Phase::Sleeping, ..self }
            },
            _ => Sampler { phase: Phase::Sleeping, ..self },
        }
    }

    /// Whether `action` is what the machine asks for on `event`. An event that the machine
    /// does not wait for ends the tick without attribution.
    pub open spec fn asks(self, event: Event, action: Action) -> bool {
        match self.next(event).phase {
            Phase::Sleeping => action == Action::Sleep(self.interval),
            Phase::AwaitIdle => action == Action::QueryIdle,
            Phase::AwaitFocus => action == Action::QueryFocus(self.source),
            Phase::AwaitStore => {
                &&& event matches Event::Focus(Some(w))
                &&& action == (Action::Accumulate {
                    app_identity: w.app_identity,
                    title: w.title,
                    seconds: self.interval,
                })
            },
        }
    }

    /// A machine that sleeps before its first tick.
    pub fn new(interval: u64, source: FocusSource) -> (r: (Sampler, Action))
        ensures
            r.0 == (Sampler {
                interval: interval,
                source: source,
                state: LoopState::Active,
                phase: Phase::Sleeping,
            }),
            r.1 == Action::Sleep(interval),
    {
        (
            Sampler { interval, source, state: LoopState::Active, phase: Phase::Sleeping },
            Action::Sleep(interval),
        )
    }

    /// Takes what happened and says what is to be done next: see `next` and `asks`.
    pub fn step(&mut self, event: Event) -> (action: Action)
        ensures
            *final(self) == old(self).next(event),
            old(self).asks(event, action),
    {
        match (self.phase, event) {
            (Phase::Sleeping, Event::Slept) => {
                self.phase = Phase::AwaitIdle;
                Action::QueryIdle
            },
            (Phase::AwaitIdle, Event::Idle(idle)) => {
                if idle {
                    self.phase = Phase::Sleeping;
                    self.state = LoopState::IdleSkipped;
                    Action::Sleep(self.interval)
                } else if self.source.is_absent() {
                    self.phase = Phase::Sleeping;
                    self.state = LoopState::Active;
                    Action::Sleep(self.interval)
                } else {
                    self.phase = Phase::AwaitFocus;
                    self.state = LoopState::Active;
                    Action::QueryFocus(self.source)
                }
            },
            (Phase::AwaitFocus, Event::Focus(focus)) => {
                match focus {
                    Some(w) => {
                        if is_blank(w.app_identity.as_str()) {
                            self.phase = Phase::Sleeping;
                            Action::Sleep(self.interval)
                        } else {
                            self.phase = Phase::AwaitStore;
                            Action::Accumulate {
                                app_identity: w.app_identity,
                                title: w.title,
                                seconds: self.interval,
                            }
                        }
                    },
                    None => {
                        self.phase = Phase::Sleeping;
                        Action::Sleep(self.interval)
                    },
                }
            },
            _ => {
                self.phase = Phase::Sleeping;
                Action::Sleep(self.interval)
            },
        }
    }

    /// Idle suppression: when the idle gate reports that the user is away, the tick ends in a
    /// sleep, and nothing that may be reported before the next tick begins, whatever the
    /// focus source has found, leads to an attribution.
    pub proof fn lemma_idle_suppresses(self, late: Event, action: Action, late_action: Action)
        requires
            self.phase == Phase::AwaitIdle,
            self.asks(Event::Idle(true), action),
            self.next(Event::Idle(true)).asks(late, late_action),
        ensures
            action == Action::Sleep(self.interval),
            self.next(Event::Idle(true)).state == LoopState::IdleSkipped,
            !(late_action is Accumulate),
    {
    }

    /// Seconds are attributed only to a window that the focus source reported while the
    /// machine waited for it, and only for its interval.
    pub proof fn lemma_attribution(self, event: Event, action: Action)
        requires
            self.asks(event, action),
            action is Accumulate,
        ensures
            self.phase == Phase::AwaitFocus,
            attributable(event->Focus_0),
            event matches Event::Focus(Some(w)) && action == (Action::Accumulate {
                app_identity: w.app_identity,
                title: w.title,
                seconds: self.interval,
            }),
    {
    }

    /// A refused write does not halt sampling: the machine goes on exactly as after a write
    /// that was taken, and the next tick attributes a focused window as any tick does.
    pub proof fn lemma_write_failure_goes_on(self, window: FocusedWindow, action: Action)
        requires
            self.phase == Phase::AwaitStore,
            self.source != FocusSource::Absent,
            attributable(Some(window)),
            self.next(Event::Stored(false)).next(Event::Slept).next(Event::Idle(false)).asks(
                Event::Focus(Some(window)),
                action,
            ),
        ensures
            self.next(Event::Stored(false)) == self.next(Event::Stored(true)),
            self.asks(Event::Stored(false), Action::Sleep(self.interval)),
            action == (Action::Accumulate {
                app_identity: window.app_identity,
                title: window.title,
                seconds: self.interval,
            }),
    {
    }
}

} // verus!
