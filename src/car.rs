use vstd::prelude::*;
use crate::control::{Axis, Button, GpEvent};

verus! {

/// How the vehicle's actuators are wired.
#[derive(Clone, Copy, Debug, PartialEq, Eq, Structural)]
pub enum Layout {
    /// Two tread motors driven straight from the two sticks; the right motor
    /// is mounted mirrored.
    DifferentialDrive,
    /// One drive motor worked by the triggers, and a steering actuator worked
    /// by the left stick.
    DriveAndSteer,
}

/// A drive channel: a motor that takes a throttle.
#[derive(Clone, Copy, Debug, PartialEq, Eq, Structural)]
pub enum Channel {
    /// The left tread motor (differential drive).
    Left,
    /// The right tread motor (differential drive).
    Right,
    /// The drive motor (drive and steer).
    Drive,
}

/// A command for one actuator channel: a throttle, or a steering input, each
/// an IEEE 754 single held as its bit pattern.
#[derive(Clone, Copy, Debug, PartialEq, Eq, Structural)]
pub enum Command {
    Throttle(Channel, u32),
    Steer(u32),
}

/// The bit pattern of `-x` for the single `x` with bit pattern `b`: negation
/// flips the sign bit.
pub open spec fn neg_bits(b: u32) -> u32 {
    if b < 0x8000_0000 {
        (b + 0x8000_0000) as u32
    } else {
        (b - 0x8000_0000) as u32
    }
}

fn negate(b: u32) -> (r: u32)
    ensures
        r == neg_bits(b),
{
    if b < 0x8000_0000 {
        b + 0x8000_0000
    } else {
        b - 0x8000_0000
    }
}

/// Whether the single with bit pattern `b` lies in `[-1.0, 1.0]`: from `+0.0`
/// up to `1.0` (`0x3F80_0000`), or from `-0.0` (`0x8000_0000`) down to `-1.0`
/// (`0xBF80_0000`).
pub open spec fn in_unit_range(b: u32) -> bool {
    b <= 0x3F80_0000 || (0x8000_0000 <= b && b <= 0xBF80_0000)
}

/// The single with bit pattern `b` clamped to `[-1.0, 1.0]`: values above
/// `1.0` (up to `+inf`) give `1.0`, values below `-1.0` (down to `-inf`) give
/// `-1.0`, and a NaN gives `+0.0`.
pub open spec fn clamp_unit(b: u32) -> u32 {
    if in_unit_range(b) {
        b
    } else if 0x3F80_0000 < b && b <= 0x7F80_0000 {
        0x3F80_0000
    } else if 0xBF80_0000 < b && b <= 0xFF80_0000 {
        0xBF80_0000
    } else {
        0
    }
}

fn clamp(b: u32) -> (r: u32)
    ensures
        r == clamp_unit(b),
        in_unit_range(r),
{
    if b <= 0x3F80_0000 || (0x8000_0000 <= b && b <= 0xBF80_0000) {
        b
    } else if 0x3F80_0000 < b && b <= 0x7F80_0000 {
        0x3F80_0000
    } else if 0xBF80_0000 < b && b <= 0xFF80_0000 {
        0xBF80_0000
    } else {
        0
    }
}

/// The command that `event` calls for under `layout`, if any. Every analog
/// value is first clamped to `[-1.0, 1.0]`.
pub open spec fn command_for(layout: Layout, event: GpEvent) -> Option<Command> {
    match layout {
        Layout::DifferentialDrive => match event {
            GpEvent::AxisChanged(Axis::LeftStickY, v) => Some(
                Command::Throttle(Channel::Left, clamp_unit(v)),
            ),
            GpEvent::AxisChanged(Axis::RightStickY, v) => Some(
                Command::Throttle(Channel::Right, neg_bits(clamp_unit(v))),
            ),
            _ => None,
        },
        Layout::DriveAndSteer => match event {
            GpEvent::AxisChanged(Axis::LeftStickX, v) => Some(Command::Steer(clamp_unit(v))),
            GpEvent::ButtonChanged(Button::LeftTrigger2, v) => Some(
                Command::Throttle(Channel::Drive, neg_bits(clamp_unit(v))),
            ),
            GpEvent::ButtonChanged(Button::RightTrigger2, v) => Some(
                Command::Throttle(Channel::Drive, clamp_unit(v)),
            ),
            _ => None,
        },
    }
}

/// The drive channels of `layout`, each once.
pub open spec fn drive_channels(layout: Layout) -> Seq<Channel> {
    match layout {
        Layout::DifferentialDrive => seq![Channel::Left, Channel::Right],
        Layout::DriveAndSteer => seq![Channel::Drive],
    }
}

/// A zero throttle for each drive channel of `layout`.
pub open spec fn neutral_commands(layout: Layout) -> Seq<Command> {
    drive_channels(layout).map_values(|c: Channel| Command::Throttle(c, 0))
}

/// The commands owed after `cmd` was applied, successfully or not: after a
/// failed throttle, a zero throttle to every drive channel; nothing otherwise.
/// A failed steering command keeps its last position.
pub open spec fn recovery_for(layout: Layout, cmd: Command, ok: bool) -> Seq<Command> {
    if !ok && cmd is Throttle {
        neutral_commands(layout)
    } else {
        seq![]
    }
}

/// The actuation state: the last drive and turn values commanded, as single
/// bit patterns, each within `[-1.0, 1.0]`. It maps each operator event to at most one actuator command
/// and, when a throttle fails, to the commands that stop every drive motor.
pub struct CarState {
    pub layout: Layout,
    pub drive: u32,
    pub turn: u32,
}

impl CarState {
    /// A vehicle at rest.
    pub fn new(layout: Layout) -> (r: CarState)
        ensures
            r.layout == layout,
            r.drive == 0,
            r.turn == 0,
    {
        CarState { layout, drive: 0, turn: 0 }
    }

    /// Applies one operator event: the command to issue, if the event is bound
    /// to a channel under this layout. The event's value is clamped to
    /// `[-1.0, 1.0]` first. A throttle sets `drive` and a steering input sets
    /// `turn` to the commanded value; other events change nothing.
    pub fn handle_event(&mut self, event: &GpEvent) -> (r: Option<Command>)
        ensures
            r == command_for(old(self).layout, *event),
            final(self).layout == old(self).layout,
            final(self).drive == (match r {
                Some(Command::Throttle(_, v)) => v,
                _ => old(self).drive,
            }),
            final(self).turn == (match r {
                Some(Command::Steer(v)) => v,
                _ => old(self).turn,
            }),
            r matches Some(Command::Throttle(_, v)) ==> in_unit_range(v),
            r matches Some(Command::Steer(v)) ==> in_unit_range(v),
            in_unit_range(old(self).drive) ==> in_unit_range(final(self).drive),
            in_unit_range(old(self).turn) ==> in_unit_range(final(self).turn),
    {
        let cmd = match self.layout {
            Layout::DifferentialDrive => match *event {
                GpEvent::AxisChanged(Axis::LeftStickY, v) => Some(
                    Command::Throttle(Channel::Left, clamp(v)),
                ),
                GpEvent::AxisChanged(Axis::RightStickY, v) => Some(
                    Command::Throttle(Channel::Right, negate(clamp(v))),
                ),
                _ => None,
            },
            Layout::DriveAndSteer => match *event {
                GpEvent::AxisChanged(Axis::LeftStickX, v) => Some(Command::Steer(clamp(v))),
                GpEvent::ButtonChanged(Button::LeftTrigger2, v) => Some(
                    Command::Throttle(Channel::Drive, negate(clamp(v))),
                ),
                GpEvent::ButtonChanged(Button::RightTrigger2, v) => Some(
                    Command::Throttle(Channel::Drive, clamp(v)),
                ),
                _ => None,
            },
        };
        match cmd {
            Some(Command::Throttle(_, v)) => {
                self.drive = v;
            },
            Some(Command::Steer(v)) => {
                self.turn = v;
            },
            None => {},
        }
        cmd
    }

    /// Takes the outcome of applying `cmd`. After a failed throttle the drive
    /// value is reset to zero and the zero throttle of every drive channel is
    /// returned, to be issued once each on a best-effort basis (their own
    /// failures are not fed back here). Otherwise nothing is owed.
    pub fn command_done(&mut self, cmd: &Command, ok: bool) -> (r: Vec<Command>)
        ensures
            r@ == recovery_for(old(self).layout, *cmd, ok),
            final(self).layout == old(self).layout,
            final(self).turn == old(self).turn,
            final(self).drive == (if !ok && cmd is Throttle {
                0
            } else {
                old(self).drive
            }),
    {
        let mut r: Vec<Command> = Vec::new();
        if !ok {
            if let Command::Throttle(_, _) = *cmd {
                self.drive = 0;
                match self.layout {
                    Layout::DifferentialDrive => {
                        r.push(Command::Throttle(Channel::Left, 0));
                        r.push(Command::Throttle(Channel::Right, 0));
                    },
                    Layout::DriveAndSteer => {
                        r.push(Command::Throttle(Channel::Drive, 0));
                    },
                }
            }
        }
        assert(r@ =~= recovery_for(old(self).layout, *cmd, ok));
        r
    }
}

/// A failed throttle, on whichever channel, is followed by exactly one zero
/// throttle to each drive channel and by nothing else; a failed steering
/// command or a success is followed by nothing.
pub proof fn lemma_fail_safe_once_per_channel(layout: Layout, cmd: Command, ok: bool)
    ensures
        !ok && cmd is Throttle ==> {
            let r = recovery_for(layout, cmd, ok);
            &&& r.len() == drive_channels(layout).len()
            &&& forall|c: Channel|
                drive_channels(layout).contains(c) ==> exists|i: int|
                    0 <= i < r.len() && #[trigger] r[i] == Command::Throttle(c, 0) && forall|j: int|
                        0 <= j < r.len() && j != i ==> r[j] != Command::Throttle(c, 0)
            &&& forall|i: int|
                0 <= i < r.len() ==> (#[trigger] r[i] matches Command::Throttle(c, v) && v == 0
                    && drive_channels(layout).contains(c))
            &&& forall|c: Channel, v: u32|
                r == #[trigger] recovery_for(layout, Command::Throttle(c, v), ok)
        },
        ok || cmd is Steer ==> recovery_for(layout, cmd, ok).len() == 0,
{
    let r = recovery_for(layout, cmd, ok);
    if !ok && cmd is Throttle {
        let d = drive_channels(layout);
        assert forall|c: Channel| d.contains(c) implies exists|i: int|
            0 <= i < r.len() && #[trigger] r[i] == Command::Throttle(c, 0) && forall|j: int|
                0 <= j < r.len() && j != i ==> r[j] != Command::Throttle(c, 0) by {
            let i = choose|i: int| 0 <= i < d.len() && d[i] == c;
            assert(r[i] == Command::Throttle(c, 0));
        }
        assert forall|i: int| 0 <= i < r.len() implies (#[trigger] r[i] matches Command::Throttle(
            c,
            v,
        ) && v == 0 && d.contains(c)) by {
            assert(r[i] == Command::Throttle(d[i], 0));
        }
    }
}

} // verus!
