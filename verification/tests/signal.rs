use acpr_haptics::offset::Offset;
use acpr_haptics::config::Config;
use acpr_haptics::control::{
    initial_state, step, ActuationMode, ControlLoopState, Settings, TriggerMode,
};
use acpr_haptics::dispatcher::{Action, Command, VibrationCommand};
use acpr_haptics::mapper::MappingPolicy;
use acpr_haptics::ratio::Ratio;
use acpr_haptics::registry::Device;
use acpr_haptics::signal::{hitstun_flag, sample, GameSignal, PlayerState};

#[test]
fn sample_without_players_is_neutral() {
    let player = PlayerState::new(40, true);
    let neutral = GameSignal { hitstop: 0, either_player_in_hitstun: false };
    assert_eq!(sample(None, None), neutral);
    assert_eq!(sample(Some(player), None), neutral);
    assert_eq!(sample(None, Some(player)), neutral);
    assert_eq!(GameSignal::neutral(), neutral);
    assert!(neutral.is_quiet());
}

#[test]
fn sample_takes_the_larger_hitstop_counter() {
    let signal = sample(Some(PlayerState::new(10, false)), Some(PlayerState::new(27, false)));
    assert_eq!(signal.hitstop, 27);
    let signal = sample(Some(PlayerState::new(54, false)), Some(PlayerState::new(3, false)));
    assert_eq!(signal.hitstop, 54);
    let signal = sample(Some(PlayerState::new(1, false)), Some(PlayerState::new(0, false)));
    assert_eq!(signal.hitstop, 1);
    assert!(!signal.is_quiet());
    let signal = sample(Some(PlayerState::new(0, false)), Some(PlayerState::new(0, true)));
    assert_eq!(signal.hitstop, 0);
    assert!(signal.is_quiet());
    let signal = sample(Some(PlayerState::new(255, false)), Some(PlayerState::new(255, false)));
    assert_eq!(signal.hitstop, 255);
}

#[test]
fn sample_is_the_larger_counter_for_every_pair() {
    for first in 0..=255u8 {
        for second in 0..=255u8 {
            let signal =
                sample(Some(PlayerState::new(first, false)), Some(PlayerState::new(second, false)));
            assert_eq!(signal.hitstop, first.max(second));
        }
    }
}

#[test]
fn sample_reports_hitstun_of_either_player() {
    let cases = [
        (false, false, false),
        (true, false, true),
        (false, true, true),
        (true, true, true),
    ];
    for (first, second, expected) in cases {
        let signal = sample(Some(PlayerState::new(10, first)), Some(PlayerState::new(4, second)));
        assert_eq!(signal, GameSignal { hitstop: 10, either_player_in_hitstun: expected });
    }
}

#[test]
fn hitstun_flag_is_the_lowest_bit() {
    assert!(!hitstun_flag(0));
    assert!(hitstun_flag(1));
    assert!(!hitstun_flag(2));
    assert!(hitstun_flag(3));
    assert!(!hitstun_flag(0x20));
    assert!(hitstun_flag(0x21));
    assert!(!hitstun_flag(0xFE));
    assert!(hitstun_flag(0xFF));
    for status in 0..=255u8 {
        assert_eq!(hitstun_flag(status), status % 2 == 1);
    }
}

#[test]
fn a_raw_hitstop_of_one_starts_actuation() {
    let settings = Settings::new(
        Config::default(),
        MappingPolicy::new(28, true).unwrap(),
        ActuationMode::Continuous,
        TriggerMode::Periodic(7),
    )
    .unwrap();
    let devices = vec![Device::new(1, String::from("pad"), true, true)];
    let signal = sample(
        Some(PlayerState::new(1, hitstun_flag(1))),
        Some(PlayerState::new(0, hitstun_flag(0))),
    );
    let tick = step(initial_state(), signal, &devices, &settings);
    assert_eq!(tick.state, ControlLoopState::Active);
    assert_eq!(
        tick.commands,
        vec![Command {
            device: 1,
            action: Action::Vibrate(VibrationCommand {
                speed: Ratio { num: 1, den: 28 },
                duration_ms: None
            }),
        }]
    );
}

#[test]
fn offset_is_added_to_the_base() {
    let offset = Offset::new(0x11AA80);
    assert_eq!(offset.get_address(0x400000), 0x51AA80);
    assert_eq!(Offset::new(0).get_address(0x400000), 0x400000);
    assert_eq!(Offset::new(7).get_address(usize::MAX - 7), usize::MAX);
}
