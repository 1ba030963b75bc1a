use fw_fanctrl::fan_config::{SpeedPoint, Strategy};
use fw_fanctrl::fan_control::FanController;
use fw_fanctrl::smoothing::{sorted_copy, trim, trimmed_mean_duty};

fn identity(window: u32) -> Strategy {
    Strategy {
        fan_speed_update_frequency: 1000,
        moving_average_interval: window,
        speed_curve: vec![
            SpeedPoint { temp: 0, speed: 0 },
            SpeedPoint { temp: 100_000, speed: 100_000 },
        ],
    }
}

#[test]
fn trimmed_mean_of_five_drops_one_from_each_end() {
    let strategy = identity(5);
    let mut controller = FanController::new(&strategy);
    assert_eq!(controller.update(10_000, &strategy), 10);
    assert_eq!(controller.update(90_000, &strategy), 50);
    assert_eq!(controller.update(12_000, &strategy), 12);
    assert_eq!(controller.update(11_000, &strategy), 11);
    assert_eq!(controller.update(13_000, &strategy), 12);
    assert_eq!(controller.len(), 5);
}

#[test]
fn oldest_entry_leaves_when_the_window_is_full() {
    let strategy = identity(2);
    let mut controller = FanController::new(&strategy);
    assert_eq!(controller.update(10_000, &strategy), 10);
    assert_eq!(controller.update(20_000, &strategy), 15);
    assert_eq!(controller.update(40_000, &strategy), 30);
    assert_eq!(controller.update(40_000, &strategy), 40);
    assert_eq!(controller.len(), 2);
}

#[test]
fn window_of_zero_remembers_nothing() {
    let strategy = identity(0);
    let mut controller = FanController::new(&strategy);
    assert_eq!(controller.update(70_000, &strategy), 0);
    assert_eq!(controller.len(), 0);
}

#[test]
fn reset_forgets_the_history() {
    let strategy = identity(5);
    let mut controller = FanController::new(&strategy);
    controller.update(90_000, &strategy);
    controller.update(90_000, &strategy);
    controller.reset();
    assert_eq!(controller.len(), 0);
    assert_eq!(controller.update(20_000, &strategy), 20);
}

#[test]
fn update_never_leaves_zero_to_hundred() {
    let strategy = Strategy {
        fan_speed_update_frequency: 1000,
        moving_average_interval: 3,
        speed_curve: vec![
            SpeedPoint { temp: 0, speed: -500_000 },
            SpeedPoint { temp: 100_000, speed: 900_000 },
        ],
    };
    let mut controller = FanController::new(&strategy);
    assert_eq!(controller.update(0, &strategy), 0);
    let mut t = 0;
    while t <= 100_000 {
        let duty = controller.update(t, &strategy);
        assert!(duty <= 100);
        t += 5_000;
    }
    assert_eq!(controller.update(100_000, &strategy), 100);
}

#[test]
fn up_to_two_values_give_the_plain_mean() {
    assert_eq!(trimmed_mean_duty(&vec![]), 0);
    assert_eq!(trimmed_mean_duty(&vec![37_999]), 37);
    assert_eq!(trimmed_mean_duty(&vec![90_000, 10_000]), 50);
    assert_eq!(trimmed_mean_duty(&vec![10_000, 11_999]), 10);
}

#[test]
fn trim_count_is_a_fifth_and_at_least_one() {
    assert_eq!(trimmed_mean_duty(&vec![0, 30_000, 100_000]), 30);
    assert_eq!(trimmed_mean_duty(&vec![100_000, 0, 20_000, 40_000]), 30);
    let nine = vec![0, 0, 10_000, 20_000, 30_000, 40_000, 50_000, 100_000, 100_000];
    assert_eq!(trimmed_mean_duty(&nine), 35);
    let ten = vec![
        100_000, 100_000, 0, 0, 10_000, 20_000, 30_000, 40_000, 50_000, 60_000,
    ];
    assert_eq!(trimmed_mean_duty(&ten), 35);
    let eleven = vec![
        100_000, 100_000, 0, 0, 10_000, 20_000, 30_000, 40_000, 50_000, 60_000, 70_000,
    ];
    assert_eq!(trimmed_mean_duty(&eleven), 40);
}

#[test]
fn mean_is_truncated_not_rounded() {
    assert_eq!(trimmed_mean_duty(&vec![12_999]), 12);
    assert_eq!(trimmed_mean_duty(&vec![999]), 0);
    assert_eq!(trimmed_mean_duty(&vec![10_000, 10_000, 11_000, 11_999, 99_000]), 10);
}

#[test]
fn mean_is_held_within_zero_and_hundred() {
    assert_eq!(trimmed_mean_duty(&vec![i32::MAX, i32::MAX]), 100);
    assert_eq!(trimmed_mean_duty(&vec![i32::MIN, i32::MIN]), 0);
    assert_eq!(trimmed_mean_duty(&vec![-1]), 0);
    assert_eq!(trimmed_mean_duty(&vec![100_000]), 100);
    assert_eq!(trimmed_mean_duty(&vec![99_999]), 99);
}

#[test]
fn sorted_copy_sorts_ascending_and_keeps_duplicates() {
    assert_eq!(sorted_copy(&vec![10, 90, 12, 11, 13]), vec![10, 11, 12, 13, 90]);
    assert_eq!(sorted_copy(&vec![3, -1, 3, 0, -1]), vec![-1, -1, 0, 3, 3]);
    assert_eq!(sorted_copy(&vec![]), Vec::<i32>::new());
}

#[test]
fn trim_is_zero_up_to_two_then_a_fifth_and_at_least_one() {
    let expected = [0, 0, 0, 1, 1, 1, 1, 1, 1, 1, 2, 2, 2, 2, 2, 3];
    for (n, cut) in expected.iter().enumerate() {
        assert_eq!(trim(n), *cut);
    }
    assert_eq!(trim(40), 8);
    assert_eq!(trim(usize::MAX), usize::MAX / 5);
}
