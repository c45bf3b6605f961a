//! The lifecycle of a dashboard without a service of its own.
use syntra::ui::lifecycle::{
    HostCapabilities, Lifecycle, LifecycleAction, LifecycleEvent, LifecycleState,
};
use syntra::ui::models::PlatformCapabilities;

#[test]
fn initial_foreground_starts_connection_once() {
    let mut lifecycle = Lifecycle::new(false);

    assert_eq!(lifecycle.state(), LifecycleState::BackgroundDisconnected);
    assert_eq!(
        lifecycle.transition(LifecycleEvent::Foregrounded),
        vec![LifecycleAction::Connect]
    );
    assert_eq!(lifecycle.state(), LifecycleState::Reconnecting);
    assert!(
        lifecycle
            .transition(LifecycleEvent::Foregrounded)
            .is_empty()
    );
}

#[test]
fn connected_foreground_does_not_start_another_connection() {
    let mut lifecycle = Lifecycle::new(true);

    assert!(
        lifecycle
            .transition(LifecycleEvent::Foregrounded)
            .is_empty()
    );
    assert_eq!(lifecycle.state(), LifecycleState::Foreground);
}

#[test]
fn connection_resynchronizes_before_becoming_ready() {
    let mut lifecycle = Lifecycle::new(false);
    lifecycle.transition(LifecycleEvent::Foregrounded);

    assert_eq!(
        lifecycle.transition(LifecycleEvent::TransportConnected),
        vec![LifecycleAction::RequestResync]
    );
    assert_eq!(lifecycle.state(), LifecycleState::Resynchronizing);
    assert!(
        lifecycle
            .transition(LifecycleEvent::ResyncCompleted)
            .is_empty()
    );
    assert_eq!(lifecycle.state(), LifecycleState::Foreground);
}

#[test]
fn duplicate_transport_loss_starts_one_reconnection() {
    let mut lifecycle = Lifecycle::new(true);

    assert_eq!(
        lifecycle.transition(LifecycleEvent::TransportLost),
        vec![LifecycleAction::Connect]
    );
    assert!(
        lifecycle
            .transition(LifecycleEvent::TransportLost)
            .is_empty()
    );
}

#[test]
fn background_preserves_connection_progress_without_duplicate_connect() {
    let mut lifecycle = Lifecycle::new(false);
    lifecycle.transition(LifecycleEvent::Foregrounded);

    assert!(
        lifecycle
            .transition(LifecycleEvent::Backgrounded)
            .is_empty()
    );
    assert_eq!(lifecycle.state(), LifecycleState::BackgroundDisconnected);
    assert!(
        lifecycle
            .transition(LifecycleEvent::Foregrounded)
            .is_empty()
    );
}

#[test]
fn capabilities_are_explicit() {
    let capabilities = HostCapabilities::android_default();
    assert_eq!(
        PlatformCapabilities::from(capabilities),
        PlatformCapabilities::default()
    );
}

/// What is shown of each state.
#[test]
fn states_are_shown_as_connections() {
    assert_eq!(
        LifecycleState::BackgroundDisconnected.presentation_event(),
        syntra::ui::models::TransportLifecycleEvent::DaemonUnavailable
    );
    assert_eq!(
        LifecycleState::Resynchronizing.presentation_event(),
        syntra::ui::models::TransportLifecycleEvent::Reconnecting
    );
    assert_eq!(
        LifecycleState::Foreground.presentation_event(),
        syntra::ui::models::TransportLifecycleEvent::Resynchronized
    );
}
