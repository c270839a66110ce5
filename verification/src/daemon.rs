//! The decisions of the battery daemon: when to apply the configuration,
//! when to create, update or remove the virtual battery device, and when to
//! wait. The daemon loop performs each action and reports what happened.
use vstd::prelude::*;
use crate::driver::BatteryStatus;

verus! {

/// Seconds between two battery reads, and between two attempts to open the
/// mouse.
pub const DAEMON_INTERVAL_SECS: u64 = 5;

/// What the daemon remembers between events.
#[derive(Debug, Clone, Copy, PartialEq, Eq)]
pub struct DaemonState {
    /// The virtual battery device exists.
    pub has_device: bool,
    /// The last state sent on: percentage and charging.
    pub last: Option<(u8, bool)>,
    /// The configuration was applied since the mouse was opened.
    pub configured: bool,
}

/// What happened since the last action.
#[derive(Debug, Clone, Copy, PartialEq, Eq, Structural)]
pub enum DaemonEvent {
    /// The mouse could not be opened.
    OpenFailed,
    /// The mouse was opened.
    Opened,
    /// A battery status was read.
    StatusRead { percentage: u8, is_charging: bool },
    /// The battery read timed out: the mouse sleeps or lies still.
    ReadTimedOut,
    /// The battery read failed otherwise: the mouse is gone.
    ReadFailed,
    /// The virtual battery device was created.
    DeviceCreated,
    /// The virtual battery device could not be created.
    DeviceCreationFailed,
}

/// What the daemon does next.
#[derive(Debug, Clone, Copy, PartialEq, Eq, Structural)]
pub enum DaemonAction {
    /// Remove the virtual device first if `remove_device`, then wait and
    /// try to open the mouse again.
    WaitThenOpen { remove_device: bool },
    /// Apply the configuration file first if `apply_config`, then read the
    /// battery.
    StartReading { apply_config: bool },
    /// Announce the new state, send it to the virtual device (or create the
    /// device with it when `create_device`), then wait and read again.
    Publish { percentage: u8, is_charging: bool, create_device: bool },
    /// Wait, then read the battery again.
    WaitThenRead,
    /// The mouse is gone: remove the virtual device, wait, and open again.
    Disconnected,
}

/// The daemon's state before anything happened.
pub open spec fn initial_state() -> DaemonState {
    DaemonState { has_device: false, last: None, configured: false }
}

/// Whether a status differs from the last one sent (or none was sent).
pub open spec fn status_changed(last: Option<(u8, bool)>, percentage: u8, is_charging: bool) -> bool {
    match last {
        None => true,
        Some((p, c)) => p != percentage || c != is_charging,
    }
}

/// The next state and action after an event.
pub open spec fn daemon_step(s: DaemonState, e: DaemonEvent) -> (DaemonState, DaemonAction) {
    match e {
        DaemonEvent::OpenFailed => (
            DaemonState {
                has_device: false,
                last: if s.has_device {
                    None
                } else {
                    s.last
                },
                configured: false,
            },
            DaemonAction::WaitThenOpen { remove_device: s.has_device },
        ),
        DaemonEvent::Opened => (
            DaemonState { configured: true, ..s },
            DaemonAction::StartReading { apply_config: !s.configured },
        ),
        DaemonEvent::StatusRead { percentage, is_charging } => if status_changed(
            s.last,
            percentage,
            is_charging,
        ) {
            (
                DaemonState { last: Some((percentage, is_charging)), ..s },
                DaemonAction::Publish { percentage, is_charging, create_device: !s.has_device },
            )
        } else {
            (s, DaemonAction::WaitThenRead)
        },
        DaemonEvent::ReadTimedOut => (s, DaemonAction::WaitThenRead),
        DaemonEvent::ReadFailed => (
            DaemonState { has_device: false, last: None, ..s },
            DaemonAction::Disconnected,
        ),
        DaemonEvent::DeviceCreated => (
            DaemonState { has_device: true, ..s },
            DaemonAction::WaitThenRead,
        ),
        DaemonEvent::DeviceCreationFailed => (s, DaemonAction::WaitThenRead),
    }
}

impl DaemonState {
    /// The state before anything happened: no device, nothing sent, not
    /// configured.
    pub fn new() -> (s: DaemonState)
        ensures
            s == initial_state(),
    {
        DaemonState { has_device: false, last: None, configured: false }
    }

    /// The event for a battery status that was read.
    pub fn status_event(status: &BatteryStatus) -> (e: DaemonEvent)
        ensures
            e == (DaemonEvent::StatusRead {
                percentage: status.percentage,
                is_charging: status.is_charging,
            }),
    {
        DaemonEvent::StatusRead { percentage: status.percentage, is_charging: status.is_charging }
    }

    /// Takes in an event and decides the next action.
    pub fn step(&mut self, e: DaemonEvent) -> (a: DaemonAction)
        ensures
            (*final(self), a) == daemon_step(*old(self), e),
    {
        match e {
            DaemonEvent::OpenFailed => {
                let remove = self.has_device;
                if remove {
                    self.last = None;
                }
                self.has_device = false;
                self.configured = false;
                DaemonAction::WaitThenOpen { remove_device: remove }
            },
            DaemonEvent::Opened => {
                let apply = !self.configured;
                self.configured = true;
                DaemonAction::StartReading { apply_config: apply }
            },
            DaemonEvent::StatusRead { percentage, is_charging } => {
                let changed = match self.last {
                    None => true,
                    Some((p, c)) => p != percentage || c != is_charging,
                };
                if changed {
                    self.last = Some((percentage, is_charging));
                    DaemonAction::Publish {
                        percentage,
                        is_charging,
                        create_device: !self.has_device,
                    }
                } else {
                    DaemonAction::WaitThenRead
                }
            },
            DaemonEvent::ReadTimedOut => DaemonAction::WaitThenRead,
            DaemonEvent::ReadFailed => {
                self.has_device = false;
                self.last = None;
                DaemonAction::Disconnected
            },
            DaemonEvent::DeviceCreated => {
                self.has_device = true;
                DaemonAction::WaitThenRead
            },
            DaemonEvent::DeviceCreationFailed => DaemonAction::WaitThenRead,
        }
    }
}

/// A battery status equal to the last one sent causes no traffic: the
/// daemon keeps its state and waits.
pub proof fn lemma_unchanged_status_waits(s: DaemonState, percentage: u8, is_charging: bool)
    requires
        s.last == Some((percentage, is_charging)),
    ensures
        daemon_step(s, DaemonEvent::StatusRead { percentage, is_charging }) == (
            s,
            DaemonAction::WaitThenRead,
        ),
{
}

/// A changed status is published, and remembered: the same status read
/// again right after is quiet.
pub proof fn lemma_published_status_is_remembered(s: DaemonState, percentage: u8, is_charging: bool)
    requires
        s.last != Some((percentage, is_charging)),
    ensures
        daemon_step(s, DaemonEvent::StatusRead { percentage, is_charging }).1 == (
        DaemonAction::Publish { percentage, is_charging, create_device: !s.has_device }),
        daemon_step(s, DaemonEvent::StatusRead { percentage, is_charging }).0.last == Some(
            (percentage, is_charging),
        ),
        daemon_step(
            daemon_step(s, DaemonEvent::StatusRead { percentage, is_charging }).0,
            DaemonEvent::StatusRead { percentage, is_charging },
        ).1 == DaemonAction::WaitThenRead,
{
}

/// A read that times out (the mouse sleeps) changes nothing: the last known
/// state stays with the kernel.
pub proof fn lemma_timeout_keeps_state(s: DaemonState)
    ensures
        daemon_step(s, DaemonEvent::ReadTimedOut) == (s, DaemonAction::WaitThenRead),
{
}

/// Once the mouse is lost, the next status read is published on a newly
/// created device.
pub proof fn lemma_status_after_loss_is_published(s: DaemonState, percentage: u8, is_charging: bool)
    ensures
        daemon_step(s, DaemonEvent::ReadFailed).1 == DaemonAction::Disconnected,
        daemon_step(
            daemon_step(s, DaemonEvent::ReadFailed).0,
            DaemonEvent::StatusRead { percentage, is_charging },
        ).1 == (DaemonAction::Publish { percentage, is_charging, create_device: true }),
{
}

/// The configuration is applied once after the mouse is found, and again
/// only after it could not be opened.
pub proof fn lemma_config_applied_once(s: DaemonState)
    ensures
        daemon_step(daemon_step(s, DaemonEvent::Opened).0, DaemonEvent::Opened).1
            == (DaemonAction::StartReading { apply_config: false }),
        daemon_step(daemon_step(s, DaemonEvent::OpenFailed).0, DaemonEvent::Opened).1
            == (DaemonAction::StartReading { apply_config: true }),
{
}

/// The virtual device is created once: after it was created, a changed
/// status is sent to it without creating another; a failed open removes it
/// exactly when it exists, and forgets what was sent to it.
pub proof fn lemma_device_created_once(s: DaemonState, percentage: u8, is_charging: bool)
    requires
        daemon_step(s, DaemonEvent::DeviceCreated).0.last != Some((percentage, is_charging)),
    ensures
        daemon_step(
            daemon_step(s, DaemonEvent::DeviceCreated).0,
            DaemonEvent::StatusRead { percentage, is_charging },
        ).1 == (DaemonAction::Publish { percentage, is_charging, create_device: false }),
        daemon_step(s, DaemonEvent::OpenFailed).1 == (DaemonAction::WaitThenOpen {
            remove_device: s.has_device,
        }),
        !daemon_step(s, DaemonEvent::OpenFailed).0.has_device,
        s.has_device ==> daemon_step(s, DaemonEvent::OpenFailed).0.last is None,
{
}

} // verus!
