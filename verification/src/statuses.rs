//! Statuses of objects and the effects that change them. Times are whole
//! milliseconds, lengths and fractions whole thousandths.

use crate::hexcoord::HexCoord;
use vstd::prelude::*;

verus! {

/// Parts of a whole in which fractions are counted.
pub const PER_MILLE: u64 = 1000;

/// What an effect remembers of an object: its id and the cell it stood on
/// when the effect was made.
#[derive(Debug, Clone, Copy, PartialEq)]
pub struct ObjectRef {
    pub oid: usize,
    pub coord: HexCoord,
}

/// The push a killed object receives, in axial steps.
#[derive(Debug, Clone, Copy, PartialEq, Eq, Structural)]
pub struct Knockback {
    pub dx: i128,
    pub dy: i128,
}

/// The kind of a status: what it is, whatever its parameters.
#[derive(Debug, Clone, Copy, PartialEq, Eq, Hash, Structural)]
pub enum StatusKind {
    Selected,
    Dragged,
    Hovered,
    Targeted,
    Killed,
    Move,
    Wobble,
    Falling,
    DelayedEffect,
}

/// A marker on an object. Lengths and fractions are in thousandths, move
/// numbers count the moves applied since play began.
#[derive(Debug, PartialEq)]
pub enum StatusType {
    Selected,
    Dragged,
    Hovered,
    Targeted,
    Killed { knockback: Knockback },
    Move { from: HexCoord, to: HexCoord, height: u64 },
    Wobble { amplitude: u64, speed: u64 },
    Falling,
    DelayedEffect {
        move_nr: usize,
        effect: Effect,
        indicator_move_nr: Option<usize>,
        indicator: Option<Effect>,
    },
}

/// A status with the time it began and how long it lasts, in milliseconds.
#[derive(Debug, PartialEq)]
pub struct Status {
    pub stype: StatusType,
    pub start_time: Option<u64>,
    pub duration: Option<u64>,
}

/// A change that the controller is asked to make.
#[derive(Debug, PartialEq)]
pub enum Effect {
    Kill {
        victim: ObjectRef,
        killer: Option<ObjectRef>,
        /// how far into the move's animation the kill happens, in thousandths
        animation_delay_frac: Option<u64>,
    },
    KillAllOn { coord: HexCoord, apply: Option<Box<StatusType>>, duration: Option<u64> },
    SetStatus { object: ObjectRef, stype: Box<StatusType>, duration: Option<u64> },
    NoOp,
}

/// The push from `killer` towards `victim`; none without a killer.
pub open spec fn spec_knockback(victim: ObjectRef, killer: Option<ObjectRef>) -> Knockback {
    match killer {
        Some(k) => Knockback {
            dx: (victim.coord.x - k.coord.x) as i128,
            dy: (victim.coord.y - k.coord.y) as i128,
        },
        None => Knockback { dx: 0, dy: 0 },
    }
}

/// `time` plus the fraction `frac` (in thousandths) of `duration`, held at
/// the largest time that can be told.
pub open spec fn spec_delayed_start(time: u64, duration: u64, frac: u64) -> u64 {
    let t = time + (duration * frac) / (PER_MILLE as int);
    if t > u64::MAX {
        u64::MAX
    } else {
        t as u64
    }
}

fn knockback_of(victim: &ObjectRef, killer: &Option<ObjectRef>) -> (r: Knockback)
    ensures
        r == spec_knockback(*victim, *killer),
{
    match killer {
        Some(k) => Knockback {
            dx: victim.coord.x as i128 - k.coord.x as i128,
            dy: victim.coord.y as i128 - k.coord.y as i128,
        },
        None => Knockback { dx: 0, dy: 0 },
    }
}

fn delayed_start(time: u64, duration: u64, frac: u64) -> (r: u64)
    ensures
        r == spec_delayed_start(time, duration, frac),
{
    assert(duration * frac <= 0xffff_ffff_ffff_ffff * 0xffff_ffff_ffff_ffff) by (nonlinear_arith)
        requires
            duration <= 0xffff_ffff_ffff_ffff,
            frac <= 0xffff_ffff_ffff_ffff,
    ;
    let part: u128 = (duration as u128 * frac as u128) / (PER_MILLE as u128);
    let t: u128 = time as u128 + part;
    if t > u64::MAX as u128 {
        u64::MAX
    } else {
        t as u64
    }
}

fn copy_stype(s: &StatusType) -> (r: StatusType)
    ensures
        r == *s,
    decreases *s,
{
    match s {
        StatusType::Selected => StatusType::Selected,
        StatusType::Dragged => StatusType::Dragged,
        StatusType::Hovered => StatusType::Hovered,
        StatusType::Targeted => StatusType::Targeted,
        StatusType::Killed { knockback } => StatusType::Killed { knockback: *knockback },
        StatusType::Move { from, to, height } => StatusType::Move {
            from: *from,
            to: *to,
            height: *height,
        },
        StatusType::Wobble { amplitude, speed } => StatusType::Wobble {
            amplitude: *amplitude,
            speed: *speed,
        },
        StatusType::Falling => StatusType::Falling,
        StatusType::DelayedEffect { move_nr, effect, indicator_move_nr, indicator } => {
            let ind = match indicator {
                Some(e) => Some(copy_effect(e)),
                None => None,
            };
            StatusType::DelayedEffect {
                move_nr: *move_nr,
                effect: copy_effect(effect),
                indicator_move_nr: *indicator_move_nr,
                indicator: ind,
            }
        },
    }
}

fn copy_effect(e: &Effect) -> (r: Effect)
    ensures
        r == *e,
    decreases *e,
{
    match e {
        Effect::Kill { victim, killer, animation_delay_frac } => Effect::Kill {
            victim: *victim,
            killer: *killer,
            animation_delay_frac: *animation_delay_frac,
        },
        Effect::KillAllOn { coord, apply, duration } => {
            let applied = match apply {
                Some(st) => Some(Box::new(copy_stype(st))),
                None => None,
            };
            Effect::KillAllOn { coord: *coord, apply: applied, duration: *duration }
        },
        Effect::SetStatus { object, stype, duration } => Effect::SetStatus {
            object: *object,
            stype: Box::new(copy_stype(stype)),
            duration: *duration,
        },
        Effect::NoOp => Effect::NoOp,
    }
}

impl Clone for StatusType {
    fn clone(&self) -> (r: Self)
        ensures
            r == *self,
    {
        copy_stype(self)
    }
}

impl Clone for Effect {
    fn clone(&self) -> (r: Self)
        ensures
            r == *self,
    {
        copy_effect(self)
    }
}

impl Clone for Status {
    fn clone(&self) -> (r: Self)
        ensures
            r == *self,
    {
        Status { stype: copy_stype(&self.stype), start_time: self.start_time, duration: self.duration }
    }
}

impl StatusType {
    pub open spec fn spec_kind(self) -> StatusKind {
        match self {
            StatusType::Selected => StatusKind::Selected,
            StatusType::Dragged => StatusKind::Dragged,
            StatusType::Hovered => StatusKind::Hovered,
            StatusType::Targeted => StatusKind::Targeted,
            StatusType::Killed { .. } => StatusKind::Killed,
            StatusType::Move { .. } => StatusKind::Move,
            StatusType::Wobble { .. } => StatusKind::Wobble,
            StatusType::Falling => StatusKind::Falling,
            StatusType::DelayedEffect { .. } => StatusKind::DelayedEffect,
        }
    }

    /// The kind of this status type.
    pub fn kind(&self) -> (k: StatusKind)
        ensures
            k == self.spec_kind(),
    {
        match self {
            StatusType::Selected => StatusKind::Selected,
            StatusType::Dragged => StatusKind::Dragged,
            StatusType::Hovered => StatusKind::Hovered,
            StatusType::Targeted => StatusKind::Targeted,
            StatusType::Killed { .. } => StatusKind::Killed,
            StatusType::Move { .. } => StatusKind::Move,
            StatusType::Wobble { .. } => StatusKind::Wobble,
            StatusType::Falling => StatusKind::Falling,
            StatusType::DelayedEffect { .. } => StatusKind::DelayedEffect,
        }
    }
}

impl Status {
    /// Whether the status has both a start and a duration, and `time` lies
    /// after their sum.
    pub open spec fn spec_is_expired(self, time: u64) -> bool {
        match (self.start_time, self.duration) {
            (Some(start), Some(duration)) => time > start + duration,
            _ => false,
        }
    }

    pub fn new(stype: StatusType) -> (s: Status)
        ensures
            s == (Status { stype, start_time: None, duration: None }),
    {
        Status { stype, start_time: None, duration: None }
    }

    pub fn new_move(from: HexCoord, to: HexCoord, start_time: u64, duration: u64, height: u64) -> (s:
        Status)
        ensures
            s == (Status {
                stype: StatusType::Move { from, to, height },
                start_time: Some(start_time),
                duration: Some(duration),
            }),
    {
        Status {
            stype: StatusType::Move { from, to, height },
            start_time: Some(start_time),
            duration: Some(duration),
        }
    }

    pub fn new_killed(knockback: Knockback, start_time: u64, duration: u64) -> (s: Status)
        ensures
            s == (Status {
                stype: StatusType::Killed { knockback },
                start_time: Some(start_time),
                duration: Some(duration),
            }),
    {
        Status {
            stype: StatusType::Killed { knockback },
            start_time: Some(start_time),
            duration: Some(duration),
        }
    }

    pub fn new_dragged() -> (s: Status)
        ensures
            s == (Status { stype: StatusType::Dragged, start_time: None, duration: None }),
    {
        Status { stype: StatusType::Dragged, start_time: None, duration: None }
    }

    pub fn new_delayed_effect(move_nr: usize, effect: Effect) -> (s: Status)
        ensures
            s == (Status {
                stype: StatusType::DelayedEffect {
                    move_nr,
                    effect,
                    indicator_move_nr: None,
                    indicator: None,
                },
                start_time: None,
                duration: None,
            }),
    {
        Status::new(
            StatusType::DelayedEffect { move_nr, effect, indicator_move_nr: None, indicator: None },
        )
    }

    pub fn new_delayed_effect_with_indicator(
        move_nr: usize,
        effect: Effect,
        indicator_move_nr: usize,
        indicator: Effect,
    ) -> (s: Status)
        ensures
            s == (Status {
                stype: StatusType::DelayedEffect {
                    move_nr,
                    effect,
                    indicator_move_nr: Some(indicator_move_nr),
                    indicator: Some(indicator),
                },
                start_time: None,
                duration: None,
            }),
    {
        Status::new(
            StatusType::DelayedEffect {
                move_nr,
                effect,
                indicator_move_nr: Some(indicator_move_nr),
                indicator: Some(indicator),
            },
        )
    }

    /// The same status, begun anew at `time`. Only a status that has a start
    /// can be restarted.
    pub fn restarted_at(&self, time: u64) -> (s: Status)
        requires
            self.start_time is Some,
        ensures
            s == (Status { stype: self.stype, start_time: Some(time), duration: self.duration }),
    {
        Status { stype: self.stype.clone(), start_time: Some(time), duration: self.duration }
    }

    pub fn with_times(&self, start_time: u64, duration: u64) -> (s: Status)
        ensures
            s == (Status {
                stype: self.stype,
                start_time: Some(start_time),
                duration: Some(duration),
            }),
    {
        Status {
            stype: self.stype.clone(),
            start_time: Some(start_time),
            duration: Some(duration),
        }
    }

    pub fn is_expired(&self, time: u64) -> (r: bool)
        ensures
            r == self.spec_is_expired(time),
    {
        match (self.start_time, self.duration) {
            (Some(start), Some(duration)) => match start.checked_add(duration) {
                Some(end) => time > end,
                None => false,
            },
            _ => false,
        }
    }
}

impl Effect {
    /// The status that applying this effect at `time` attaches to what it
    /// applies to, where kills take `kill_duration`.
    pub open spec fn spec_applying_status(self, time: u64, kill_duration: u64) -> Option<Status> {
        match self {
            Effect::Kill { victim, killer, animation_delay_frac } => Some(
                Status {
                    stype: StatusType::Killed { knockback: spec_knockback(victim, killer) },
                    start_time: Some(
                        spec_delayed_start(
                            time,
                            kill_duration,
                            match animation_delay_frac {
                                Some(f) => f,
                                None => 0,
                            },
                        ),
                    ),
                    duration: Some(kill_duration),
                },
            ),
            Effect::KillAllOn { apply, duration, .. } => match apply {
                Some(applied) => Some(
                    Status { stype: *applied, start_time: Some(time), duration },
                ),
                None => None,
            },
            Effect::SetStatus { stype, duration, .. } => Some(
                Status { stype: *stype, start_time: Some(time), duration },
            ),
            Effect::NoOp => None,
        }
    }

    pub fn applying_status(&self, time: u64, kill_duration: u64) -> (r: Option<Status>)
        ensures
            r == self.spec_applying_status(time, kill_duration),
    {
        match self {
            Effect::Kill { victim, killer, animation_delay_frac } => {
                let knockback = knockback_of(victim, killer);
                let frac: u64 = match animation_delay_frac {
                    Some(f) => *f,
                    None => 0,
                };
                let start_time = delayed_start(time, kill_duration, frac);
                Some(Status::new_killed(knockback, start_time, kill_duration))
            },
            Effect::KillAllOn { apply, duration, .. } => match apply {
                Some(applied) => Some(
                    Status { stype: copy_stype(applied), start_time: Some(time), duration: *duration },
                ),
                None => None,
            },
            Effect::SetStatus { stype, duration, .. } => Some(
                Status { stype: copy_stype(stype), start_time: Some(time), duration: *duration },
            ),
            Effect::NoOp => None,
        }
    }
}

} // verus!
