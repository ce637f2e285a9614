//! Messages received over the serial link and the servo configuration.

use vstd::prelude::*;

verus! {

/// A message decoded from one serial frame.
#[derive(Debug, Clone, Copy, PartialEq, Eq, Structural)]
pub enum IncomingMessage {
    /// New target positions for the servos.
    Sensor(ServoSetup),
    /// A new configuration.
    Config(Config),
}

/// Target positions, one per servo channel, in degrees.
#[derive(Debug, Clone, Copy, PartialEq, Eq, Structural)]
pub struct ServoSetup {
    pub position_c0: u8,
    pub position_c1: u8,
    pub position_c2: u8,
    pub position_c3: u8,
    pub position_c4: u8,
    pub position_c5: u8,
    pub position_c6: u8,
    pub position_c7: u8,
    pub position_c8: u8,
    pub position_c9: u8,
    pub position_c10: u8,
    pub position_c11: u8,
}

/// Driver configuration: interpolation steps and one angle range per servo.
#[derive(Debug, Clone, Copy, PartialEq, Eq, Structural)]
pub struct Config {
    /// How many update passes one control cycle makes.
    pub position_steps: u8,
    pub c0_config: ServoConfig,
    pub c1_config: ServoConfig,
    pub c2_config: ServoConfig,
    pub c3_config: ServoConfig,
    pub c4_config: ServoConfig,
    pub c5_config: ServoConfig,
    pub c6_config: ServoConfig,
    pub c7_config: ServoConfig,
    pub c8_config: ServoConfig,
    pub c9_config: ServoConfig,
    pub c10_config: ServoConfig,
    pub c11_config: ServoConfig,
}

/// The angle range of one servo, in degrees (0 to 180).
#[derive(Debug, Clone, Copy, PartialEq, Eq, Structural)]
pub struct ServoConfig {
    pub lower: u8,
    pub higher: u8,
}

/// The full range of a hobby servo: 0 to 180 degrees.
pub open spec fn full_range() -> ServoConfig {
    ServoConfig { lower: 0, higher: 180 }
}

impl Config {
    /// The configuration in force before any is received.
    pub open spec fn spec_default() -> Config {
        Config {
            position_steps: 10,
            c0_config: full_range(),
            c1_config: full_range(),
            c2_config: full_range(),
            c3_config: full_range(),
            c4_config: full_range(),
            c5_config: full_range(),
            c6_config: full_range(),
            c7_config: full_range(),
            c8_config: full_range(),
            c9_config: full_range(),
            c10_config: full_range(),
            c11_config: full_range(),
        }
    }

    /// Ten interpolation steps, every servo over its full range of 0 to 180 degrees.
    pub fn default() -> (c: Config)
        ensures
            c == Config::spec_default(),
    {
        Config {
            position_steps: 10,
            c0_config: ServoConfig { lower: 0, higher: 180 },
            c1_config: ServoConfig { lower: 0, higher: 180 },
            c2_config: ServoConfig { lower: 0, higher: 180 },
            c3_config: ServoConfig { lower: 0, higher: 180 },
            c4_config: ServoConfig { lower: 0, higher: 180 },
            c5_config: ServoConfig { lower: 0, higher: 180 },
            c6_config: ServoConfig { lower: 0, higher: 180 },
            c7_config: ServoConfig { lower: 0, higher: 180 },
            c8_config: ServoConfig { lower: 0, higher: 180 },
            c9_config: ServoConfig { lower: 0, higher: 180 },
            c10_config: ServoConfig { lower: 0, higher: 180 },
            c11_config: ServoConfig { lower: 0, higher: 180 },
        }
    }
}

impl Default for Config {
    fn default() -> (c: Config)
        ensures
            c == Config::spec_default(),
    {
        Config::default()
    }
}

impl ServoSetup {
    /// The target positions in channel order.
    pub open spec fn spec_targets(self) -> Seq<u8> {
        seq![
            self.position_c0,
            self.position_c1,
            self.position_c2,
            self.position_c3,
            self.position_c4,
            self.position_c5,
            self.position_c6,
            self.position_c7,
            self.position_c8,
            self.position_c9,
            self.position_c10,
            self.position_c11,
        ]
    }

    /// The target positions in channel order: entry `i` is the position for channel `i`.
    pub fn targets(&self) -> (t: [u8; 12])
        ensures
            t@ == self.spec_targets(),
            t[0] == self.position_c0,
            t[1] == self.position_c1,
            t[2] == self.position_c2,
            t[3] == self.position_c3,
            t[4] == self.position_c4,
            t[5] == self.position_c5,
            t[6] == self.position_c6,
            t[7] == self.position_c7,
            t[8] == self.position_c8,
            t[9] == self.position_c9,
            t[10] == self.position_c10,
            t[11] == self.position_c11,
    {
        let t = [
            self.position_c0,
            self.position_c1,
            self.position_c2,
            self.position_c3,
            self.position_c4,
            self.position_c5,
            self.position_c6,
            self.position_c7,
            self.position_c8,
            self.position_c9,
            self.position_c10,
            self.position_c11,
        ];
        assert(t@ =~= self.spec_targets());
        t
    }
}

impl IncomingMessage {
    /// The servo setup that a received message carries on to the servos:
    /// target positions are forwarded, configurations are not.
    pub fn servo_setup(self) -> (s: Option<ServoSetup>)
        ensures
            s == (match self {
                IncomingMessage::Sensor(setup) => Some(setup),
                IncomingMessage::Config(_) => None::<ServoSetup>,
            }),
    {
        match self {
            IncomingMessage::Sensor(setup) => Some(setup),
            IncomingMessage::Config(_) => None,
        }
    }
}

/// Entry `i` of the targets is the position received for channel `i`,
/// unchanged.
pub proof fn lemma_targets_are_received_positions(setup: ServoSetup)
    ensures
        setup.spec_targets().len() == 12,
        setup.spec_targets()[0] == setup.position_c0,
        setup.spec_targets()[1] == setup.position_c1,
        setup.spec_targets()[2] == setup.position_c2,
        setup.spec_targets()[3] == setup.position_c3,
        setup.spec_targets()[4] == setup.position_c4,
        setup.spec_targets()[5] == setup.position_c5,
        setup.spec_targets()[6] == setup.position_c6,
        setup.spec_targets()[7] == setup.position_c7,
        setup.spec_targets()[8] == setup.position_c8,
        setup.spec_targets()[9] == setup.position_c9,
        setup.spec_targets()[10] == setup.position_c10,
        setup.spec_targets()[11] == setup.position_c11,
{
}

} // verus!
