use servo_link::contracts::{Config, ServoConfig};
use servo_link::servo::{
    control, controll_servo, select_channel, Channel, ClampedAngle, ServoBank, ServoCommand,
};

#[test]
fn channels_follow_servo_index() {
    let expected = [
        Channel::C0, Channel::C1, Channel::C2, Channel::C3, Channel::C4, Channel::C5,
        Channel::C6, Channel::C7, Channel::C8, Channel::C9, Channel::C10, Channel::C11,
    ];
    for (i, c) in expected.iter().enumerate() {
        assert_eq!(select_channel(i), *c);
    }
}

#[test]
fn index_past_last_servo_maps_to_spare_channel() {
    assert_eq!(select_channel(12), Channel::C15);
    assert_eq!(select_channel(usize::MAX), Channel::C15);
}

#[test]
fn control_reaches_target_in_one_step() {
    assert_eq!(control(0, 180), 180);
    assert_eq!(control(200, 3), 3);
    assert_eq!(control(255, 0), 0);
}

#[test]
fn servo_within_threshold_is_not_commanded() {
    let r = ServoConfig { lower: 0, higher: 180 };
    assert_eq!(controll_servo(10, 14, Channel::C3, &r), (14, None));
    assert_eq!(controll_servo(14, 10, Channel::C3, &r), (10, None));
}

#[test]
fn servo_at_threshold_is_commanded() {
    let r = ServoConfig { lower: 0, higher: 180 };
    assert_eq!(
        controll_servo(10, 15, Channel::C3, &r),
        (15, Some(ServoCommand { channel: Channel::C3, angle: 15, setup: r }))
    );
    assert_eq!(
        controll_servo(15, 10, Channel::C4, &r),
        (10, Some(ServoCommand { channel: Channel::C4, angle: 10, setup: r }))
    );
}

#[test]
fn clamp_inside_range_keeps_angle() {
    let r = ServoConfig { lower: 10, higher: 170 };
    assert_eq!(r.clamp_angle(90), Some(ClampedAngle { angle: 90, span: 160 }));
}

#[test]
fn clamp_below_and_above_range() {
    let r = ServoConfig { lower: 10, higher: 170 };
    assert_eq!(r.clamp_angle(3), Some(ClampedAngle { angle: 10, span: 160 }));
    assert_eq!(r.clamp_angle(200), Some(ClampedAngle { angle: 170, span: 160 }));
}

#[test]
fn clamp_caps_upper_end_at_180() {
    let r = ServoConfig { lower: 0, higher: 250 };
    assert_eq!(r.clamp_angle(220), Some(ClampedAngle { angle: 180, span: 180 }));
}

#[test]
fn clamp_of_empty_range_is_none() {
    assert_eq!(ServoConfig { lower: 100, higher: 50 }.clamp_angle(70), None);
    assert_eq!(ServoConfig { lower: 200, higher: 250 }.clamp_angle(70), None);
}

#[test]
fn clamp_of_single_angle_range_has_zero_span() {
    let r = ServoConfig { lower: 40, higher: 40 };
    assert_eq!(r.clamp_angle(0), Some(ClampedAngle { angle: 40, span: 0 }));
}

#[test]
fn new_bank_holds_zeros() {
    assert_eq!(ServoBank::new().positions(), vec![0u8; 12]);
}

#[test]
fn tick_moves_every_servo_and_commands_unsettled_ones() {
    let mut bank = ServoBank::new();
    let config = Config::default();
    let target = [90, 3, 4, 5, 0, 0, 0, 0, 0, 0, 0, 180];
    let cmds = bank.tick(&config, &target);
    assert_eq!(bank.positions(), target.to_vec());
    let full = ServoConfig { lower: 0, higher: 180 };
    assert_eq!(
        cmds,
        vec![
            ServoCommand { channel: Channel::C0, angle: 90, setup: full },
            ServoCommand { channel: Channel::C3, angle: 5, setup: full },
            ServoCommand { channel: Channel::C11, angle: 180, setup: full },
        ]
    );
}

#[test]
fn tick_uses_range_of_servo_zero_for_every_channel() {
    let mut bank = ServoBank::new();
    let mut config = Config::default();
    config.c0_config = ServoConfig { lower: 20, higher: 160 };
    config.c5_config = ServoConfig { lower: 50, higher: 60 };
    let mut target = [0u8; 12];
    target[5] = 100;
    let cmds = bank.tick(&config, &target);
    assert_eq!(
        cmds,
        vec![ServoCommand {
            channel: Channel::C5,
            angle: 100,
            setup: ServoConfig { lower: 20, higher: 160 }
        }]
    );
}

#[test]
fn second_tick_to_same_target_is_quiet() {
    let mut bank = ServoBank::new();
    let config = Config::default();
    let target = [10, 20, 30, 40, 50, 60, 70, 80, 90, 100, 110, 120];
    assert_eq!(bank.tick(&config, &target).len(), 12);
    assert!(bank.tick(&config, &target).is_empty());
    assert_eq!(bank.positions(), target.to_vec());
}

#[test]
fn small_moves_update_position_without_command() {
    let mut bank = ServoBank::new();
    let config = Config::default();
    let target = [4u8; 12];
    assert!(bank.tick(&config, &target).is_empty());
    assert_eq!(bank.positions(), vec![4u8; 12]);
}

#[test]
fn tick_without_steps_changes_nothing() {
    let mut bank = ServoBank::new();
    let mut config = Config::default();
    config.position_steps = 0;
    let cmds = bank.tick(&config, &[100u8; 12]);
    assert!(cmds.is_empty());
    assert_eq!(bank.positions(), vec![0u8; 12]);
}

#[test]
fn single_step_tick_equals_many_step_tick() {
    let target = [7, 200, 0, 33, 34, 35, 36, 37, 38, 39, 40, 41];
    let mut one = Config::default();
    one.position_steps = 1;
    let mut a = ServoBank::new();
    let mut b = ServoBank::new();
    assert_eq!(a.tick(&one, &target), b.tick(&Config::default(), &target));
    assert_eq!(a.positions(), b.positions());
}
