use acpr_haptics::config::Config;
use acpr_haptics::dispatcher::speed;
use acpr_haptics::mapper::{attenuate, MappingPolicy};
use acpr_haptics::ratio::Ratio;
use acpr_haptics::signal::GameSignal;

fn value(r: Ratio) -> f64 {
    r.num as f64 / r.den as f64
}

#[test]
fn policy_rejects_zero_ceiling() {
    assert!(MappingPolicy::new(0, false).is_none());
    assert!(MappingPolicy::new(0, true).is_none());
    assert_eq!(
        MappingPolicy::new(28, true),
        Some(MappingPolicy { ceiling: 28, contextual: true })
    );
}

#[test]
fn map_zero_is_exactly_zero() {
    for ceiling in [1u8, 28, 60, 255] {
        let policy = MappingPolicy::new(ceiling, false).unwrap();
        let mapped = policy.map(0);
        assert_eq!(mapped.num, 0);
        assert_eq!(value(mapped), 0.0);
    }
}

#[test]
fn map_stays_in_unit_interval_for_every_raw_value() {
    for ceiling in [28u8, 60] {
        let policy = MappingPolicy::new(ceiling, false).unwrap();
        for raw in 0..=255u8 {
            let mapped = policy.map(raw);
            assert!(mapped.den > 0);
            assert!(mapped.num <= mapped.den);
            assert!((0.0..=1.0).contains(&value(mapped)));
        }
    }
}

#[test]
fn map_is_non_decreasing_then_constant_at_one() {
    for ceiling in [28u8, 60] {
        let policy = MappingPolicy::new(ceiling, false).unwrap();
        let mut previous = policy.map(0);
        for raw in 1..=255u8 {
            let mapped = policy.map(raw);
            assert!(previous.num * mapped.den <= mapped.num * previous.den);
            if raw < ceiling {
                assert!(value(mapped) < 1.0);
                assert!(value(mapped) > value(previous));
            } else {
                assert_eq!(value(mapped), 1.0);
            }
            previous = mapped;
        }
    }
}

#[test]
fn map_exact_values() {
    let policy = MappingPolicy::new(28, false).unwrap();
    assert_eq!(policy.map(14), Ratio { num: 14, den: 28 });
    assert_eq!(value(policy.map(14)), 0.5);
    assert_eq!(policy.map(27), Ratio { num: 27, den: 28 });
    assert_eq!(policy.map(28), Ratio { num: 28, den: 28 });
    assert_eq!(policy.map(200), Ratio { num: 28, den: 28 });
    let wide = MappingPolicy::new(60, false).unwrap();
    assert_eq!(wide.map(15), Ratio { num: 15, den: 60 });
    assert_eq!(value(wide.map(15)), 0.25);
    assert_eq!(value(wide.map(61)), 1.0);
}

#[test]
fn attenuation_is_exactly_half() {
    let policy = MappingPolicy::new(28, false).unwrap();
    for raw in 0..=255u8 {
        let base = policy.map(raw);
        let half = attenuate(base);
        assert_eq!(half.num * base.den * 2, base.num * half.den);
        assert_eq!(value(half), value(base) / 2.0);
    }
    assert_eq!(attenuate(Ratio { num: 3, den: 4 }), Ratio { num: 3, den: 8 });
}

#[test]
fn contextual_policy_halves_only_blocked_hits() {
    let contextual = MappingPolicy::new(28, true).unwrap();
    let plain = MappingPolicy::new(28, false).unwrap();
    let blocked = GameSignal { hitstop: 14, either_player_in_hitstun: false };
    let landed = GameSignal { hitstop: 14, either_player_in_hitstun: true };
    assert_eq!(contextual.intensity_of(blocked), Ratio { num: 14, den: 56 });
    assert_eq!(contextual.intensity_of(landed), Ratio { num: 14, den: 28 });
    assert_eq!(plain.intensity_of(blocked), Ratio { num: 14, den: 28 });
    assert_eq!(plain.intensity_of(landed), Ratio { num: 14, den: 28 });
    assert_eq!(value(contextual.intensity_of(blocked)), 0.25);
}

#[test]
fn speed_applies_strength_and_clamps() {
    let mut config = Config::default();
    let half = Ratio { num: 1, den: 2 };
    assert_eq!(speed(half, &config), Ratio { num: 1, den: 2 });
    config.vibration_strength = Ratio { num: 3, den: 1 };
    assert_eq!(speed(half, &config), Ratio { num: 1, den: 1 });
    config.vibration_strength = Ratio { num: 3, den: 2 };
    assert_eq!(speed(half, &config), Ratio { num: 3, den: 4 });
    config.vibration_strength = Ratio { num: 2, den: 1 };
    assert_eq!(speed(half, &config), Ratio { num: 1, den: 1 });
    config.vibration_strength = Ratio { num: 0, den: 1 };
    assert_eq!(speed(half, &config), Ratio { num: 0, den: 2 });
}

#[test]
fn ratio_constructors() {
    assert_eq!(Ratio::new(1, 0), None);
    assert_eq!(Ratio::new(3, 7), Some(Ratio { num: 3, den: 7 }));
    assert_eq!(Ratio::zero(), Ratio { num: 0, den: 1 });
    assert_eq!(Ratio::one(), Ratio { num: 1, den: 1 });
    assert_eq!(Ratio { num: 5, den: 9 }.halved(), Ratio { num: 5, den: 18 });
    assert_eq!(
        Ratio { num: 2, den: 3 }.scaled_clamped(Ratio { num: 1, den: 5 }),
        Ratio { num: 2, den: 15 }
    );
}

#[test]
fn widest_strength_still_scales_every_mapped_intensity() {
    let mut config = Config::default();
    config.vibration_strength =
        Ratio { num: acpr_haptics::config::STRENGTH_NUM_LIMIT, den: 1 };
    assert_eq!(speed(Ratio { num: 255, den: 255 }, &config), Ratio { num: 1, den: 1 });
    config.vibration_strength =
        Ratio { num: 1, den: acpr_haptics::config::STRENGTH_DEN_LIMIT };
    assert_eq!(
        speed(Ratio { num: 1, den: 510 }, &config),
        Ratio { num: 1, den: 510 * acpr_haptics::config::STRENGTH_DEN_LIMIT }
    );
}
