use fw_fanctrl::curve::duty_for;
use fw_fanctrl::fan_config::SpeedPoint;

fn p(degrees: i32, percent: i32) -> SpeedPoint {
    SpeedPoint { temp: degrees * 1000, speed: percent * 1000 }
}

fn laziest() -> Vec<SpeedPoint> {
    vec![p(0, 0), p(45, 0), p(65, 25), p(70, 35), p(75, 50), p(85, 100)]
}

#[test]
fn interpolates_between_neighbouring_points() {
    assert_eq!(duty_for(50_000, &laziest()), 6_250);
}

#[test]
fn clamps_above_the_last_point() {
    assert_eq!(duty_for(90_000, &laziest()), 100_000);
    assert_eq!(duty_for(85_000, &laziest()), 100_000);
    assert_eq!(duty_for(i32::MAX, &laziest()), 100_000);
}

#[test]
fn clamps_below_the_first_point() {
    assert_eq!(duty_for(-5_000, &laziest()), 0);
    assert_eq!(duty_for(0, &laziest()), 0);
    assert_eq!(duty_for(i32::MIN, &laziest()), 0);
}

#[test]
fn empty_curve_gives_zero() {
    assert_eq!(duty_for(50_000, &[]), 0);
}

#[test]
fn single_point_curve_is_constant() {
    let curve = vec![p(40, 30)];
    assert_eq!(duty_for(0, &curve), 30_000);
    assert_eq!(duty_for(40_000, &curve), 30_000);
    assert_eq!(duty_for(99_000, &curve), 30_000);
}

#[test]
fn control_points_map_to_their_own_duty() {
    let curve = laziest();
    for point in curve.iter() {
        if point.temp > 0 {
            assert_eq!(duty_for(point.temp, &curve), point.speed);
        }
    }
}

#[test]
fn fraction_is_dropped_towards_the_left_point() {
    let rising = vec![
        SpeedPoint { temp: 0, speed: 0 },
        SpeedPoint { temp: 3, speed: 10 },
    ];
    assert_eq!(duty_for(1, &rising), 3);
    assert_eq!(duty_for(2, &rising), 6);
    let falling = vec![
        SpeedPoint { temp: 0, speed: 10 },
        SpeedPoint { temp: 3, speed: 0 },
    ];
    assert_eq!(duty_for(1, &falling), 7);
    assert_eq!(duty_for(2, &falling), 4);
}

#[test]
fn duplicate_temperature_does_not_fault() {
    let curve = vec![p(0, 0), p(10, 50), p(10, 20), p(20, 60)];
    assert_eq!(duty_for(10_000, &curve), 50_000);
    assert_eq!(duty_for(15_000, &curve), 40_000);
    let twin = vec![p(5, 10), p(5, 20)];
    assert_eq!(duty_for(5_000, &twin), 10_000);
    assert_eq!(duty_for(6_000, &twin), 20_000);
}

#[test]
fn degenerate_first_match_takes_the_left_duty() {
    let curve = vec![p(0, 0), p(50, 10), p(20, 70), p(20, 90), p(60, 100)];
    assert_eq!(duty_for(20_000, &curve), 4_000);
    let odd = vec![p(0, 0), p(0, 5), p(30, 40), p(30, 80), p(90, 100)];
    assert_eq!(duty_for(30_000, &odd), 40_000);
}

#[test]
fn unsorted_curve_uses_the_first_enclosing_segment() {
    let curve = vec![p(0, 0), p(-10, 40), p(50, 80)];
    assert_eq!(duty_for(10_000, &curve), 53_333);
    let later = vec![p(0, 10), p(-20, 30), p(-10, 50), p(40, 70)];
    assert_eq!(duty_for(20_000, &later), 62_000);
    let first_wins = vec![p(0, 0), p(100, 100), p(0, 50), p(100, 60), p(200, 0)];
    assert_eq!(duty_for(50_000, &first_wins), 50_000);
    let below_first = vec![p(50, 10), p(20, 90)];
    assert_eq!(duty_for(30_000, &below_first), 10_000);
}

#[test]
fn duty_rises_with_temperature_on_a_rising_curve() {
    let curve = laziest();
    let mut previous = duty_for(-10_000, &curve);
    let mut t = -10_000;
    while t <= 100_000 {
        let duty = duty_for(t, &curve);
        assert!(duty >= previous);
        assert!(0 <= duty && duty <= 100_000);
        previous = duty;
        t += 250;
    }
}

#[test]
fn duty_stays_within_the_curve_s_speeds_on_any_curve() {
    let curve = vec![p(0, 80), p(30, 20), p(60, 90), p(90, 40)];
    let mut t = -5_000;
    while t <= 95_000 {
        let duty = duty_for(t, &curve);
        assert!(20_000 <= duty && duty <= 90_000);
        t += 500;
    }
}

#[test]
fn extreme_values_do_not_overflow() {
    let curve = vec![
        SpeedPoint { temp: i32::MIN, speed: i32::MIN },
        SpeedPoint { temp: i32::MAX, speed: i32::MAX },
    ];
    assert_eq!(duty_for(0, &curve), 0);
    assert_eq!(duty_for(i32::MAX - 1, &curve), i32::MAX - 1);
    let falling = vec![
        SpeedPoint { temp: i32::MIN, speed: i32::MAX },
        SpeedPoint { temp: i32::MAX, speed: i32::MIN },
    ];
    assert_eq!(duty_for(0, &falling), -1);
}
