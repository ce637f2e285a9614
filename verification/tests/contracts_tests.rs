use servo_link::contracts::{Config, IncomingMessage, ServoConfig, ServoSetup};

fn setup(values: [u8; 12]) -> ServoSetup {
    ServoSetup {
        position_c0: values[0],
        position_c1: values[1],
        position_c2: values[2],
        position_c3: values[3],
        position_c4: values[4],
        position_c5: values[5],
        position_c6: values[6],
        position_c7: values[7],
        position_c8: values[8],
        position_c9: values[9],
        position_c10: values[10],
        position_c11: values[11],
    }
}

#[test]
fn default_config_has_ten_steps_and_full_ranges() {
    let c = Config::default();
    assert_eq!(c.position_steps, 10);
    let full = ServoConfig { lower: 0, higher: 180 };
    for r in [
        c.c0_config, c.c1_config, c.c2_config, c.c3_config, c.c4_config, c.c5_config,
        c.c6_config, c.c7_config, c.c8_config, c.c9_config, c.c10_config, c.c11_config,
    ] {
        assert_eq!(r, full);
    }
}

#[test]
fn default_trait_matches_inherent_default() {
    let a: Config = Default::default();
    assert_eq!(a, Config::default());
}

#[test]
fn targets_follow_channel_order() {
    let s = setup([1, 2, 3, 4, 5, 6, 7, 8, 9, 10, 11, 12]);
    assert_eq!(s.targets(), [1, 2, 3, 4, 5, 6, 7, 8, 9, 10, 11, 12]);
}

#[test]
fn sensor_message_is_forwarded() {
    let s = setup([90; 12]);
    assert_eq!(IncomingMessage::Sensor(s).servo_setup(), Some(s));
}

#[test]
fn config_message_is_not_forwarded() {
    assert_eq!(IncomingMessage::Config(Config::default()).servo_setup(), None);
}
