//! The servo update rule: which channel drives which servo, when a servo is
//! moved, and what one control cycle does to the whole bank.
//!
//! Positions are whole degrees. The controller only ever receives positions
//! as bytes and moves a servo straight to its target, so every position it
//! holds is a whole number of degrees between 0 and 255.

use vstd::prelude::*;

use crate::contracts::{Config, ServoConfig};

verus! {

/// Number of servos driven by the controller.
pub const SERVO_COUNT: usize = 12;

/// A servo closer to its target than this many degrees is left where it is.
pub const SETTLE_THRESHOLD: u8 = 5;

/// The highest angle a servo can be driven to, in degrees.
pub const MAX_ANGLE: u8 = 180;

/// An output channel of the PWM controller.
#[derive(Debug, Clone, Copy, PartialEq, Eq, Structural)]
pub enum Channel {
    C0,
    C1,
    C2,
    C3,
    C4,
    C5,
    C6,
    C7,
    C8,
    C9,
    C10,
    C11,
    C12,
    C13,
    C14,
    C15,
    All,
}

/// The channel that drives servo `i`; an index past the last servo maps to
/// the spare channel 15.
pub open spec fn spec_select_channel(i: int) -> Channel {
    if i == 0 {
        Channel::C0
    } else if i == 1 {
        Channel::C1
    } else if i == 2 {
        Channel::C2
    } else if i == 3 {
        Channel::C3
    } else if i == 4 {
        Channel::C4
    } else if i == 5 {
        Channel::C5
    } else if i == 6 {
        Channel::C6
    } else if i == 7 {
        Channel::C7
    } else if i == 8 {
        Channel::C8
    } else if i == 9 {
        Channel::C9
    } else if i == 10 {
        Channel::C10
    } else if i == 11 {
        Channel::C11
    } else {
        Channel::C15
    }
}

/// The PWM channel that drives servo `i`.
pub fn select_channel(i: usize) -> (c: Channel)
    ensures
        c == spec_select_channel(i as int),
{
    match i {
        0 => Channel::C0,
        1 => Channel::C1,
        2 => Channel::C2,
        3 => Channel::C3,
        4 => Channel::C4,
        5 => Channel::C5,
        6 => Channel::C6,
        7 => Channel::C7,
        8 => Channel::C8,
        9 => Channel::C9,
        10 => Channel::C10,
        11 => Channel::C11,
        _ => Channel::C15,
    }
}

/// Distinct servos are driven by distinct channels.
pub proof fn lemma_select_channel_injective(i: int, j: int)
    requires
        0 <= i < SERVO_COUNT,
        0 <= j < SERVO_COUNT,
        i != j,
    ensures
        spec_select_channel(i) != spec_select_channel(j),
{
}

/// The distance between two positions, in degrees.
pub open spec fn distance(a: u8, b: u8) -> int {
    if a >= b {
        a - b
    } else {
        b - a
    }
}

/// A servo at `state` counts as having reached `target`.
pub open spec fn settled(state: u8, target: u8) -> bool {
    distance(state, target) < SETTLE_THRESHOLD
}

/// The next position of a servo at `current` heading for `target`: the
/// controller moves it the whole error in one step.
pub fn control(current: u8, target: u8) -> (next: u8)
    ensures
        next == target,
{
    let error: i16 = target as i16 - current as i16;
    let result: i16 = current as i16 + error;
    result as u8
}

/// A request to move the servo on `channel` to `angle`, within the range `setup`.
#[derive(Debug, Clone, Copy, PartialEq, Eq, Structural)]
pub struct ServoCommand {
    pub channel: Channel,
    pub angle: u8,
    pub setup: ServoConfig,
}

/// One update of one servo at `state` heading for `target`: its new position,
/// and the command to send to its channel, if any. A servo that has not yet
/// settled is moved to the target; a settled one is sent nothing, and its
/// position is taken to be the target.
pub fn controll_servo(state: u8, target: u8, channel: Channel, config: &ServoConfig) -> (r: (
    u8,
    Option<ServoCommand>,
))
    ensures
        r.0 == target,
        settled(state, target) ==> r.1 is None,
        !settled(state, target) ==> r.1 == Some(
            ServoCommand { channel: channel, angle: target, setup: *config },
        ),
        state < target + 5 && target < state + 5 ==> r.1 is None,
        state >= target + 5 || target >= state + 5 ==> r.1 == Some(
            ServoCommand { channel: channel, angle: target, setup: *config },
        ),
{
    let dist: u8 = if state >= target {
        state - target
    } else {
        target - state
    };
    if dist < SETTLE_THRESHOLD {
        return (target, None);
    }
    let new_state = control(state, target);
    (new_state, Some(ServoCommand { channel, angle: new_state, setup: *config }))
}

/// The upper end of a servo's range, capped at the highest drivable angle.
pub open spec fn capped_higher(setup: ServoConfig) -> u8 {
    if setup.higher > MAX_ANGLE {
        MAX_ANGLE
    } else {
        setup.higher
    }
}

/// `x` clamped into `[lo, hi]`.
pub open spec fn clamp(x: u8, lo: u8, hi: u8) -> u8 {
    if x < lo {
        lo
    } else if x > hi {
        hi
    } else {
        x
    }
}

/// An angle clamped into a servo's range, with the width of that range.
/// The pulse for the angle is `100 + 500 * angle / span` timer counts.
#[derive(Debug, Clone, Copy, PartialEq, Eq, Structural)]
pub struct ClampedAngle {
    pub angle: u8,
    pub span: u8,
}

impl ServoConfig {
    /// `state` clamped into this range, its upper end capped at 180 degrees,
    /// with the width of that range. There is none where the lower end lies
    /// above the capped upper end: such a range holds no angle.
    pub fn clamp_angle(&self, state: u8) -> (r: Option<ClampedAngle>)
        ensures
            r is None <==> self.lower > capped_higher(*self),
            r matches Some(a) ==> a == (ClampedAngle {
                angle: clamp(state, self.lower, capped_higher(*self)),
                span: (capped_higher(*self) - self.lower) as u8,
            }),
            r matches Some(a) ==> self.lower <= a.angle && a.angle <= self.higher && a.angle
                <= 180,
            r matches Some(a) ==> (self.lower <= state && state <= self.higher && state <= 180
                ==> a.angle == state),
            r matches Some(a) ==> (state < self.lower ==> a.angle == self.lower),
            r matches Some(a) ==> (state > self.higher && self.higher <= 180 ==> a.angle
                == self.higher),
            r matches Some(a) ==> (state > 180 && self.higher >= 180 ==> a.angle == 180),
            r matches Some(a) ==> a.span + self.lower == (if self.higher <= 180 {
                self.higher as int
            } else {
                180
            }),
    {
        let lower = self.lower;
        let mut upper = self.higher;
        if upper > MAX_ANGLE {
            upper = MAX_ANGLE;
        }
        if lower > upper {
            return None;
        }
        let angle = if state < lower {
            lower
        } else if state > upper {
            upper
        } else {
            state
        };
        Some(ClampedAngle { angle, span: upper - lower })
    }
}

/// The commands that one pass over servos `0..n` sends, in channel order,
/// when the servos stand at `state` and head for `target`.
pub open spec fn pending_commands(
    state: Seq<u8>,
    target: Seq<u8>,
    setup: ServoConfig,
    n: nat,
) -> Seq<ServoCommand>
    decreases n,
{
    if n == 0 {
        seq![]
    } else {
        let i = n - 1;
        let prev = pending_commands(state, target, setup, i as nat);
        if settled(state[i], target[i]) {
            prev
        } else {
            prev.push(
                ServoCommand { channel: spec_select_channel(i), angle: target[i], setup: setup },
            )
        }
    }
}

/// The positions of all servos.
pub struct ServoBank {
    positions: Vec<u8>,
}

impl View for ServoBank {
    type V = Seq<u8>;

    closed spec fn view(&self) -> Seq<u8> {
        self.positions@
    }
}

impl ServoBank {
    #[verifier::type_invariant]
    spec fn one_position_per_servo(self) -> bool {
        self.positions@.len() == SERVO_COUNT
    }

    /// Every servo at position 0.
    pub fn new() -> (b: ServoBank)
        ensures
            b@ == Seq::new(SERVO_COUNT as nat, |i: int| 0u8),
    {
        let mut positions: Vec<u8> = Vec::new();
        while positions.len() < SERVO_COUNT
            invariant
                positions@.len() <= SERVO_COUNT,
                forall|i: int| 0 <= i < positions@.len() ==> positions@[i] == 0u8,
            decreases SERVO_COUNT - positions@.len(),
        {
            positions.push(0u8);
        }
        assert(positions@ =~= Seq::new(SERVO_COUNT as nat, |i: int| 0u8));
        ServoBank { positions }
    }

    /// The positions, in channel order.
    pub fn positions(&self) -> (p: Vec<u8>)
        ensures
            p@ == self@,
            p@.len() == SERVO_COUNT,
    {
        proof {
            use_type_invariant(self);
        }
        let mut p: Vec<u8> = Vec::new();
        let mut i: usize = 0;
        while i < self.positions.len()
            invariant
                i <= self.positions@.len(),
                p@ == self.positions@.subrange(0, i as int),
            decreases self.positions@.len() - i,
        {
            p.push(self.positions[i]);
            i = i + 1;
            assert(p@ =~= self.positions@.subrange(0, i as int));
        }
        assert(p@ =~= self.positions@);
        p
    }

    /// One control cycle towards `target`: `config.position_steps` passes over
    /// the servos in channel order, each servo updated by `controll_servo`
    /// with the range of servo 0. Returns the commands sent, in order.
    ///
    /// The first pass brings every servo to its target and commands those that
    /// had not settled; later passes find every servo settled and send nothing.
    /// With no passes, nothing changes.
    pub fn tick(&mut self, config: &Config, target: &[u8; 12]) -> (cmds: Vec<ServoCommand>)
        ensures
            final(self)@.len() == SERVO_COUNT,
            config.position_steps == 0 ==> final(self)@ == old(self)@ && cmds@.len() == 0,
            config.position_steps > 0 ==> final(self)@ == target@ && cmds@ == pending_commands(
                old(self)@,
                target@,
                config.c0_config,
                SERVO_COUNT as nat,
            ),
    {
        proof {
            use_type_invariant(&*self);
        }
        let ghost start = self.positions@;
        let mut state = self.positions();
        let mut cmds: Vec<ServoCommand> = Vec::new();
        let steps = config.position_steps;
        let mut step: u8 = 0;
        while step < steps
            invariant
                state@.len() == SERVO_COUNT,
                start.len() == SERVO_COUNT,
                step <= steps,
                step == 0 ==> state@ == start && cmds@.len() == 0,
                step > 0 ==> state@ == target@ && cmds@ == pending_commands(
                    start,
                    target@,
                    config.c0_config,
                    SERVO_COUNT as nat,
                ),
            decreases steps - step,
        {
            let mut i: usize = 0;
            while i < SERVO_COUNT
                invariant
                    state@.len() == SERVO_COUNT,
                    start.len() == SERVO_COUNT,
                    i <= SERVO_COUNT,
                    forall|j: int| 0 <= j < i ==> state@[j] == target@[j],
                    forall|j: int|
                        i <= j < SERVO_COUNT ==> state@[j] == (if step == 0 {
                            start[j]
                        } else {
                            target@[j]
                        }),
                    step == 0 ==> cmds@ == pending_commands(
                        start,
                        target@,
                        config.c0_config,
                        i as nat,
                    ),
                    step > 0 ==> cmds@ == pending_commands(
                        start,
                        target@,
                        config.c0_config,
                        SERVO_COUNT as nat,
                    ),
                decreases SERVO_COUNT - i,
            {
                let (next, cmd) = controll_servo(
                    state[i],
                    target[i],
                    select_channel(i),
                    &config.c0_config,
                );
                match cmd {
                    Some(c) => {
                        cmds.push(c);
                    },
                    None => {},
                }
                state.set(i, next);
                i = i + 1;
            }
            assert(state@ =~= target@);
            step = step + 1;
        }
        self.positions = state;
        cmds
    }
}

/// A cycle towards the positions the servos already hold sends nothing: once
/// a cycle has brought the bank to its target, repeating it is quiet.
pub proof fn lemma_settled_bank_is_quiet(target: Seq<u8>, setup: ServoConfig, n: nat)
    requires
        n <= target.len(),
    ensures
        pending_commands(target, target, setup, n) == Seq::<ServoCommand>::empty(),
    decreases n,
{
    if n > 0 {
        lemma_settled_bank_is_quiet(target, setup, (n - 1) as nat);
    }
}

/// Every command of a pass names a servo that had not settled, and asks for
/// its target: the `k`-th command drives channel `i` to `target[i]` for some
/// unsettled servo `i < n`.
pub proof fn lemma_pending_commands_target_unsettled(
    state: Seq<u8>,
    target: Seq<u8>,
    setup: ServoConfig,
    n: nat,
    k: int,
)
    requires
        n <= state.len(),
        n <= target.len(),
        0 <= k < pending_commands(state, target, setup, n).len(),
    ensures
        exists|i: int|
            0 <= i < n && !settled(state[i], target[i]) && #[trigger] pending_commands(
                state,
                target,
                setup,
                n,
            )[k] == (ServoCommand {
                channel: spec_select_channel(i),
                angle: target[i],
                setup: setup,
            }),
    decreases n,
{
    let i = n - 1;
    let prev = pending_commands(state, target, setup, i as nat);
    if k < prev.len() {
        lemma_pending_commands_target_unsettled(state, target, setup, i as nat, k);
        let w = choose|w: int|
            0 <= w < i && !settled(state[w], target[w]) && #[trigger] pending_commands(
                state,
                target,
                setup,
                i as nat,
            )[k] == (ServoCommand {
                channel: spec_select_channel(w),
                angle: target[w],
                setup: setup,
            });
        assert(pending_commands(state, target, setup, n)[k] == prev[k]);
        assert(0 <= w < n);
    } else {
        assert(!settled(state[i], target[i]));
        assert(pending_commands(state, target, setup, n)[k] == (ServoCommand {
            channel: spec_select_channel(i),
            angle: target[i],
            setup: setup,
        }));
    }
}

/// A servo has settled exactly when it stands less than 5 degrees from its
/// target, on either side.
pub proof fn lemma_settled_is_within_threshold(state: u8, target: u8)
    ensures
        settled(state, target) <==> (state < target + 5 && target < state + 5),
{
}

/// The standard clamp: an `x` inside `[lo, hi]` is kept, one below is raised
/// to `lo`, one above is lowered to `hi`.
pub proof fn lemma_clamp_keeps_inside_moves_outside(x: u8, lo: u8, hi: u8)
    requires
        lo <= hi,
    ensures
        lo <= x && x <= hi ==> clamp(x, lo, hi) == x,
        x < lo ==> clamp(x, lo, hi) == lo,
        x > hi ==> clamp(x, lo, hi) == hi,
        lo <= clamp(x, lo, hi) && clamp(x, lo, hi) <= hi,
{
}

/// The upper end of a range is the configured one, or 180 where that is higher.
pub proof fn lemma_capped_higher_is_min_with_180(setup: ServoConfig)
    ensures
        setup.higher <= 180 ==> capped_higher(setup) == setup.higher,
        setup.higher > 180 ==> capped_higher(setup) == 180,
{
}

/// Every servo that stands 5 degrees or more from its target, above or below
/// it, is commanded to its target by a pass.
pub proof fn lemma_pending_commands_complete(
    state: Seq<u8>,
    target: Seq<u8>,
    setup: ServoConfig,
    n: nat,
    i: int,
)
    requires
        n <= state.len(),
        n <= target.len(),
        0 <= i < n,
        state[i] >= target[i] + 5 || target[i] >= state[i] + 5,
    ensures
        exists|k: int|
            0 <= k < pending_commands(state, target, setup, n).len() && #[trigger] pending_commands(
                state,
                target,
                setup,
                n,
            )[k] == (ServoCommand {
                channel: spec_select_channel(i),
                angle: target[i],
                setup: setup,
            }),
    decreases n,
{
    let m = (n - 1) as nat;
    let prev = pending_commands(state, target, setup, m);
    let cur = pending_commands(state, target, setup, n);
    if i == n - 1 {
        assert(!settled(state[i], target[i]));
        assert(cur == prev.push(
            ServoCommand { channel: spec_select_channel(i), angle: target[i], setup: setup },
        ));
        assert(cur[prev.len() as int] == (ServoCommand {
            channel: spec_select_channel(i),
            angle: target[i],
            setup: setup,
        }));
    } else {
        lemma_pending_commands_complete(state, target, setup, m, i);
        let k = choose|k: int|
            0 <= k < prev.len() && #[trigger] pending_commands(state, target, setup, m)[k] == (
            ServoCommand { channel: spec_select_channel(i), angle: target[i], setup: setup });
        assert(cur[k] == prev[k]);
    }
}

/// Every command of a pass drives a servo that stood 5 degrees or more from
/// its target, to that target.
pub proof fn lemma_pending_commands_sound(
    state: Seq<u8>,
    target: Seq<u8>,
    setup: ServoConfig,
    n: nat,
    k: int,
)
    requires
        n <= state.len(),
        n <= target.len(),
        0 <= k < pending_commands(state, target, setup, n).len(),
    ensures
        exists|i: int|
            0 <= i < n && (state[i] >= target[i] + 5 || target[i] >= state[i] + 5)
                && #[trigger] pending_commands(state, target, setup, n)[k] == (ServoCommand {
                channel: spec_select_channel(i),
                angle: target[i],
                setup: setup,
            }),
{
    lemma_pending_commands_target_unsettled(state, target, setup, n, k);
    let i = choose|i: int|
        0 <= i < n && !settled(state[i], target[i]) && #[trigger] pending_commands(
            state,
            target,
            setup,
            n,
        )[k] == (ServoCommand { channel: spec_select_channel(i), angle: target[i], setup: setup });
    lemma_settled_is_within_threshold(state[i], target[i]);
}

/// The commands of a pass come in channel order, each servo at most once: an
/// earlier command drives a servo of lower index than a later one.
pub proof fn lemma_pending_commands_ordered(
    state: Seq<u8>,
    target: Seq<u8>,
    setup: ServoConfig,
    n: nat,
    k1: int,
    k2: int,
    i1: int,
    i2: int,
)
    requires
        n <= SERVO_COUNT,
        n <= state.len(),
        n <= target.len(),
        0 <= k1 < k2 < pending_commands(state, target, setup, n).len(),
        0 <= i1 < SERVO_COUNT,
        0 <= i2 < SERVO_COUNT,
        pending_commands(state, target, setup, n)[k1].channel == spec_select_channel(i1),
        pending_commands(state, target, setup, n)[k2].channel == spec_select_channel(i2),
    ensures
        i1 < i2,
    decreases n,
{
    let m = (n - 1) as nat;
    let prev = pending_commands(state, target, setup, m);
    let cur = pending_commands(state, target, setup, n);
    if settled(state[m as int], target[m as int]) {
        lemma_pending_commands_ordered(state, target, setup, m, k1, k2, i1, i2);
    } else {
        assert(cur == prev.push(
            ServoCommand {
                channel: spec_select_channel(m as int),
                angle: target[m as int],
                setup: setup,
            },
        ));
        if k2 < prev.len() {
            assert(cur[k1] == prev[k1]);
            assert(cur[k2] == prev[k2]);
            lemma_pending_commands_ordered(state, target, setup, m, k1, k2, i1, i2);
        } else {
            assert(cur[k2].channel == spec_select_channel(m as int));
            if i2 != m {
                lemma_select_channel_injective(i2, m as int);
            }
            assert(cur[k1] == prev[k1]);
            lemma_pending_commands_target_unsettled(state, target, setup, m, k1);
            let w = choose|w: int|
                0 <= w < m && !settled(state[w], target[w]) && #[trigger] pending_commands(
                    state,
                    target,
                    setup,
                    m,
                )[k1] == (ServoCommand {
                    channel: spec_select_channel(w),
                    angle: target[w],
                    setup: setup,
                });
            if i1 != w {
                lemma_select_channel_injective(i1, w);
            }
        }
    }
}

} // verus!
