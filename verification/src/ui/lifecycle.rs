//! How a dashboard without a service of its own follows the screen and the
//! connection: what to do when it comes to the front, and when the daemon comes
//! and goes.
use crate::ui::models::PlatformCapabilities;
use crate::ui::models::TransportLifecycleEvent;
use vstd::prelude::*;

verus! {

#[derive(Clone, Copy, Debug, PartialEq, Eq, Structural)]
pub enum LifecycleState {
    Background,
    BackgroundDisconnected,
    Foreground,
    Reconnecting,
    Resynchronizing,
}

#[derive(Clone, Copy, Debug, PartialEq, Eq, Structural)]
pub enum LifecycleEvent {
    Foregrounded,
    Backgrounded,
    TransportConnected,
    TransportLost,
    ResyncCompleted,
}

#[derive(Clone, Copy, Debug, PartialEq, Eq, Structural)]
pub enum LifecycleAction {
    Connect,
    RequestResync,
}

#[derive(Clone, Copy, Debug, PartialEq, Eq, Structural)]
pub enum Capability {
    Available,
    Unavailable,
}

#[derive(Clone, Copy, Debug, PartialEq, Eq, Structural)]
pub struct HostCapabilities {
    pub capture: Capability,
    pub emulation: Capability,
    pub clipboard_files: Capability,
}

impl HostCapabilities {
    /// What an Android host offers: nothing of the kind.
    pub fn android_default() -> (c: HostCapabilities)
        ensures
            c == (HostCapabilities {
                capture: Capability::Unavailable,
                emulation: Capability::Unavailable,
                clipboard_files: Capability::Unavailable,
            }),
    {
        HostCapabilities {
            capture: Capability::Unavailable,
            emulation: Capability::Unavailable,
            clipboard_files: Capability::Unavailable,
        }
    }
}

impl vstd::std_specs::convert::FromSpecImpl<HostCapabilities> for PlatformCapabilities {
    open spec fn obeys_from_spec() -> bool {
        true
    }

    open spec fn from_spec(capabilities: HostCapabilities) -> PlatformCapabilities {
        PlatformCapabilities {
            capture: capabilities.capture == Capability::Available,
            emulation: capabilities.emulation == Capability::Available,
            clipboard_files: capabilities.clipboard_files == Capability::Available,
        }
    }
}

impl From<HostCapabilities> for PlatformCapabilities {
    fn from(capabilities: HostCapabilities) -> (p: PlatformCapabilities) {
        PlatformCapabilities {
            capture: capabilities.capture == Capability::Available,
            emulation: capabilities.emulation == Capability::Available,
            clipboard_files: capabilities.clipboard_files == Capability::Available,
        }
    }
}

impl LifecycleState {
    /// What the state of the connection is shown as.
    pub open spec fn shown_as(self) -> TransportLifecycleEvent {
        match self {
            LifecycleState::Foreground | LifecycleState::Background =>
                TransportLifecycleEvent::Resynchronized,
            LifecycleState::Reconnecting | LifecycleState::Resynchronizing =>
                TransportLifecycleEvent::Reconnecting,
            LifecycleState::BackgroundDisconnected => TransportLifecycleEvent::DaemonUnavailable,
        }
    }

    /// The change of the connection that the dashboard is told.
    pub fn presentation_event(self) -> (e: TransportLifecycleEvent)
        ensures
            e == self.shown_as(),
    {
        match self {
            LifecycleState::Foreground | LifecycleState::Background =>
                TransportLifecycleEvent::Resynchronized,
            LifecycleState::Reconnecting | LifecycleState::Resynchronizing =>
                TransportLifecycleEvent::Reconnecting,
            LifecycleState::BackgroundDisconnected => TransportLifecycleEvent::DaemonUnavailable,
        }
    }
}

/// Whether the dashboard is on the screen.
#[derive(Clone, Copy, Debug, PartialEq, Eq, Structural)]
pub enum Visibility {
    Foreground,
    Background,
}

/// How far the connection has come.
#[derive(Clone, Copy, Debug, PartialEq, Eq, Structural)]
pub enum Link {
    Disconnected,
    Connecting,
    Connected,
    Resynchronizing,
}

#[derive(Debug)]
pub struct Lifecycle {
    visibility: Visibility,
    link: Link,
}

/// The screen and the connection together.
pub ghost struct LifecycleModel {
    pub visibility: Visibility,
    pub link: Link,
}

impl View for Lifecycle {
    type V = LifecycleModel;

    closed spec fn view(&self) -> LifecycleModel {
        LifecycleModel { visibility: self.visibility, link: self.link }
    }
}

impl LifecycleModel {
    /// The state that the two add up to.
    pub open spec fn state(self) -> LifecycleState {
        match (self.visibility, self.link) {
            (Visibility::Foreground, Link::Connected) => LifecycleState::Foreground,
            (Visibility::Foreground, Link::Resynchronizing) => LifecycleState::Resynchronizing,
            (Visibility::Foreground, _) => LifecycleState::Reconnecting,
            (Visibility::Background, Link::Connected) => LifecycleState::Background,
            (Visibility::Background, _) => LifecycleState::BackgroundDisconnected,
        }
    }

    /// What follows an event: the next state, and what is to be done.
    pub open spec fn step(self, event: LifecycleEvent) -> (LifecycleModel, Seq<LifecycleAction>) {
        match event {
            LifecycleEvent::Foregrounded => {
                let shown = LifecycleModel { visibility: Visibility::Foreground, ..self };
                if self.link is Disconnected {
                    (
                        LifecycleModel { link: Link::Connecting, ..shown },
                        seq![LifecycleAction::Connect],
                    )
                } else {
                    (shown, Seq::empty())
                }
            },
            LifecycleEvent::Backgrounded => (
                LifecycleModel { visibility: Visibility::Background, ..self },
                Seq::empty(),
            ),
            LifecycleEvent::TransportLost => if self.link is Connected
                || self.link is Resynchronizing {
                (LifecycleModel { link: Link::Connecting, ..self }, seq![LifecycleAction::Connect])
            } else {
                (self, Seq::empty())
            },
            LifecycleEvent::TransportConnected => if self.link is Connecting {
                (
                    LifecycleModel { link: Link::Resynchronizing, ..self },
                    seq![LifecycleAction::RequestResync],
                )
            } else {
                (self, Seq::empty())
            },
            LifecycleEvent::ResyncCompleted => if self.link is Resynchronizing {
                (LifecycleModel { link: Link::Connected, ..self }, Seq::empty())
            } else {
                (self, Seq::empty())
            },
        }
    }
}

impl Lifecycle {
    /// Starts in the background.
    pub fn new(connected: bool) -> (l: Lifecycle)
        ensures
            l@ == (LifecycleModel {
                visibility: Visibility::Background,
                link: if connected {
                    Link::Connected
                } else {
                    Link::Disconnected
                },
            }),
    {
        Lifecycle {
            visibility: Visibility::Background,
            link: if connected {
                Link::Connected
            } else {
                Link::Disconnected
            },
        }
    }

    /// The present state.
    pub fn state(&self) -> (s: LifecycleState)
        ensures
            s == self@.state(),
    {
        match (self.visibility, self.link) {
            (Visibility::Foreground, Link::Connected) => LifecycleState::Foreground,
            (Visibility::Foreground, Link::Resynchronizing) => LifecycleState::Resynchronizing,
            (Visibility::Foreground, _) => LifecycleState::Reconnecting,
            (Visibility::Background, Link::Connected) => LifecycleState::Background,
            (Visibility::Background, _) => LifecycleState::BackgroundDisconnected,
        }
    }

    /// Follows an event, and says what is to be done.
    pub fn transition(&mut self, event: LifecycleEvent) -> (actions: Vec<LifecycleAction>)
        ensures
            (final(self)@, actions@) == old(self)@.step(event),
    {
        let mut actions: Vec<LifecycleAction> = Vec::new();
        match event {
            LifecycleEvent::Foregrounded => {
                self.visibility = Visibility::Foreground;
                if self.link == Link::Disconnected {
                    self.link = Link::Connecting;
                    actions.push(LifecycleAction::Connect);
                }
            },
            LifecycleEvent::Backgrounded => {
                self.visibility = Visibility::Background;
            },
            LifecycleEvent::TransportLost => {
                if self.link == Link::Connected || self.link == Link::Resynchronizing {
                    self.link = Link::Connecting;
                    actions.push(LifecycleAction::Connect);
                }
            },
            LifecycleEvent::TransportConnected => {
                if self.link == Link::Connecting {
                    self.link = Link::Resynchronizing;
                    actions.push(LifecycleAction::RequestResync);
                }
            },
            LifecycleEvent::ResyncCompleted => {
                if self.link == Link::Resynchronizing {
                    self.link = Link::Connected;
                }
            },
        }
        assert(actions@ =~= old(self)@.step(event).1);
        actions
    }
}

/// One connection is made at a time: while one is being made, no event asks for
/// another.
pub proof fn law_one_connection(m: LifecycleModel, event: LifecycleEvent)
    requires
        m.link is Connecting,
    ensures
        !m.step(event).1.contains(LifecycleAction::Connect),
{
}

/// A connection becomes ready only after a resynchronization: from any other
/// state of the connection no event leads to a ready one.
pub proof fn law_resync_before_ready(m: LifecycleModel, event: LifecycleEvent)
    requires
        !(m.link is Connected),
        m.step(event).0.link is Connected,
    ensures
        m.link is Resynchronizing,
        event is ResyncCompleted,
{
}

/// Going to the background and coming back leaves the connection as it was, and
/// starts none where one was under way.
pub proof fn law_background_keeps_progress(m: LifecycleModel)
    requires
        !(m.link is Disconnected),
    ensures
        ({
            let hidden = m.step(LifecycleEvent::Backgrounded);
            let shown = hidden.0.step(LifecycleEvent::Foregrounded);
            &&& hidden.1.len() == 0
            &&& shown.1.len() == 0
            &&& hidden.0.link == m.link
            &&& shown.0.link == m.link
        }),
{
}

/// The loss of a connection is answered once: a second report of it asks for
/// nothing and changes nothing.
pub proof fn law_one_reconnection(m: LifecycleModel)
    ensures
        ({
            let lost = m.step(LifecycleEvent::TransportLost).0;
            lost.step(LifecycleEvent::TransportLost) == (lost, Seq::<LifecycleAction>::empty())
        }),
{
}

} // verus!
