use fw_fanctrl::control::ControlLoop;
use fw_fanctrl::fan_config::default::default_fan_config;
use fw_fanctrl::fan_config::{FanConfig, SpeedPoint, Strategy, StrategyTable};
use fw_fanctrl::protocol::{parse_command, PrintFormat};
use fw_fanctrl::state::{Effect, Reply, RuntimeState, StartupError, TickPlan};

fn started() -> RuntimeState {
    RuntimeState::new(default_fan_config()).unwrap()
}

fn reply_text(state: &mut RuntimeState, input: &str) -> String {
    state.handle(parse_command(input)).reply.unwrap().text()
}

fn identity(window: u32) -> Strategy {
    Strategy {
        fan_speed_update_frequency: 250,
        moving_average_interval: window,
        speed_curve: vec![
            SpeedPoint { temp: 0, speed: 0 },
            SpeedPoint { temp: 100_000, speed: 100_000 },
        ],
    }
}

fn small_config(default: &str) -> FanConfig {
    let mut strategies = StrategyTable::new();
    strategies.insert("line".to_string(), identity(5));
    strategies.insert("short".to_string(), identity(2));
    FanConfig {
        default_strategy: default.to_string(),
        strategy_on_discharging: String::new(),
        strategies,
    }
}

fn sample_plan(state: &mut RuntimeState) -> (Strategy, bool) {
    match state.begin_tick() {
        TickPlan::Sample { strategy, fresh } => (strategy, fresh),
        TickPlan::Suspend => panic!("the loop is suspended"),
    }
}

#[test]
fn starts_on_the_default_strategy() {
    let mut state = started();
    let status = state.status();
    assert_eq!(status.strategy, "lazy");
    assert_eq!(status.speed, 0);
    assert!(!status.active);
    assert!(!state.is_paused());
    let (strategy, fresh) = sample_plan(&mut state);
    assert!(!fresh);
    assert_eq!(strategy.fan_speed_update_frequency, 2000);
    assert_eq!(strategy.moving_average_interval, 30);
}

#[test]
fn start_fails_without_the_default_strategy() {
    let result = RuntimeState::new(small_config("missing"));
    assert!(matches!(result, Err(StartupError::MissingDefaultStrategy)));
    let empty = FanConfig {
        default_strategy: String::new(),
        strategy_on_discharging: String::new(),
        strategies: StrategyTable::new(),
    };
    assert!(matches!(RuntimeState::new(empty), Err(StartupError::MissingDefaultStrategy)));
}

#[test]
fn use_switches_to_a_known_strategy() {
    let mut state = started();
    let outcome = state.handle(parse_command("use agile"));
    assert!(matches!(outcome.effect, Effect::Nothing));
    let reply = outcome.reply.unwrap();
    assert!(!reply.is_error());
    assert_eq!(reply.text(), "Switched to strategy: agile");
    assert_eq!(state.status().strategy, "agile");
    let (strategy, fresh) = sample_plan(&mut state);
    assert!(fresh);
    assert_eq!(strategy.fan_speed_update_frequency, 500);
    assert_eq!(strategy.moving_average_interval, 15);
    let (_, again) = sample_plan(&mut state);
    assert!(!again);
}

#[test]
fn use_of_an_unknown_name_changes_nothing() {
    let mut state = started();
    state.record_duty(33);
    let outcome = state.handle(parse_command("use unknown-name"));
    assert!(matches!(outcome.effect, Effect::Nothing));
    let reply = outcome.reply.unwrap();
    assert!(reply.is_error());
    assert!(matches!(&reply, Reply::UnknownStrategy(name) if name == "unknown-name"));
    assert_eq!(reply.text(), "Unknown strategy: unknown-name");
    assert_eq!(
        reply_text(&mut state, "print"),
        "{\"strategy\":\"lazy\",\"speed\":33,\"active\":false}"
    );
    let (strategy, fresh) = sample_plan(&mut state);
    assert!(!fresh);
    assert_eq!(strategy.moving_average_interval, 30);
    assert!(!state.use_strategy("Lazy"));
    assert_eq!(state.status().strategy, "lazy");
}

#[test]
fn print_reports_in_both_forms() {
    let mut state = started();
    state.record_duty(57);
    assert_eq!(
        reply_text(&mut state, "print json"),
        "{\"strategy\":\"lazy\",\"speed\":57,\"active\":false}"
    );
    assert_eq!(
        reply_text(&mut state, "print human"),
        "Strategy: lazy\nSpeed: 57\nActive: false"
    );
    state.pause();
    assert_eq!(
        reply_text(&mut state, "print"),
        "{\"strategy\":\"lazy\",\"speed\":57,\"active\":true}"
    );
    let outcome = state.handle(parse_command("print human"));
    assert!(matches!(outcome.effect, Effect::Nothing));
    assert!(matches!(outcome.reply, Some(Reply::Status(_, PrintFormat::Human))));
}

#[test]
fn reset_activates_the_default_again() {
    let mut state = started();
    assert!(state.use_strategy("deaf"));
    sample_plan(&mut state);
    let outcome = state.handle(parse_command("reset"));
    assert!(matches!(outcome.effect, Effect::Nothing));
    let reply = outcome.reply.unwrap();
    assert!(!reply.is_error());
    assert_eq!(reply.text(), "Strategy reset to default! Strategy in use: lazy");
    assert_eq!(state.status().strategy, "lazy");
    let (strategy, fresh) = sample_plan(&mut state);
    assert!(fresh);
    assert_eq!(strategy.moving_average_interval, 30);
}

#[test]
fn pause_then_resume_leaves_the_loop_runnable() {
    let mut state = started();
    let paused = state.handle(parse_command("pause"));
    assert!(matches!(paused.effect, Effect::ReleaseFan));
    assert_eq!(paused.reply.unwrap().text(), "Service paused!");
    assert!(state.is_paused());
    assert!(matches!(state.begin_tick(), TickPlan::Suspend));
    assert!(matches!(state.begin_tick(), TickPlan::Suspend));
    let resumed = state.handle(parse_command("resume"));
    assert!(matches!(resumed.effect, Effect::WakeLoop));
    assert_eq!(resumed.reply.unwrap().text(), "Service resumed!");
    assert!(!state.is_paused());
    let (strategy, _) = sample_plan(&mut state);
    assert_eq!(strategy.fan_speed_update_frequency, 2000);
}

#[test]
fn switch_during_a_pause_is_still_fresh_after_resume() {
    let mut state = started();
    state.pause();
    assert!(state.use_strategy("medium"));
    assert!(matches!(state.begin_tick(), TickPlan::Suspend));
    state.resume();
    let (_, fresh) = sample_plan(&mut state);
    assert!(fresh);
}

#[test]
fn tool_hands_its_arguments_on() {
    let mut state = started();
    let outcome = state.handle(parse_command("tool --fansetduty 40"));
    assert!(outcome.reply.is_none());
    match outcome.effect {
        Effect::RunTool(args) => assert_eq!(args, vec!["--fansetduty", "40"]),
        other => panic!("unexpected effect {:?}", other),
    }
    assert_eq!(state.status().strategy, "lazy");
}

#[test]
fn reload_takes_a_valid_configuration_without_switching() {
    let mut state = started();
    let outcome = state.handle(parse_command("reload"));
    assert!(outcome.reply.is_none());
    assert!(matches!(outcome.effect, Effect::ReloadConfig));
    let reply = state.reload(small_config("line"));
    assert!(!reply.is_error());
    assert_eq!(reply.text(), "Config reloaded");
    assert_eq!(state.status().strategy, "lazy");
    let (strategy, fresh) = sample_plan(&mut state);
    assert!(!fresh);
    assert_eq!(strategy.moving_average_interval, 30);
    assert!(!state.use_strategy("lazy"));
    assert!(state.use_strategy("short"));
    state.reset();
    assert_eq!(state.status().strategy, "line");
}

#[test]
fn reload_refuses_a_configuration_without_its_default() {
    let mut state = started();
    let reply = state.reload(small_config("gone"));
    assert!(reply.is_error());
    assert_eq!(reply.text(), "Config rejected: default strategy missing");
    assert!(state.use_strategy("agile"));
    assert!(!state.use_strategy("line"));
    state.reset();
    assert_eq!(state.status().strategy, "lazy");
}

#[test]
fn unknown_command_changes_nothing() {
    let mut state = started();
    let outcome = state.handle(parse_command("fly"));
    assert!(matches!(outcome.effect, Effect::Nothing));
    let reply = outcome.reply.unwrap();
    assert!(reply.is_error());
    assert_eq!(reply.text(), "unknown or unfinished argument");
    assert_eq!(state.status().strategy, "lazy");
    assert!(!state.is_paused());
}

#[test]
fn recorded_duty_is_held_at_hundred() {
    let mut state = started();
    state.record_duty(100);
    assert_eq!(state.status().speed, 100);
    state.record_duty(101);
    assert_eq!(state.status().speed, 100);
    state.record_duty(255);
    assert_eq!(state.status().speed, 100);
    state.record_duty(0);
    assert_eq!(state.status().speed, 0);
}

#[test]
fn step_smooths_over_the_reports() {
    let strategy = identity(5);
    let mut control = ControlLoop::new(&strategy);
    assert_eq!(control.step(&strategy, false, Some("APU: 10 C")), Some(10));
    assert_eq!(control.step(&strategy, false, Some("APU: 90 C")), Some(50));
    assert_eq!(control.step(&strategy, false, Some("APU: 12 C\ndGPU temp:NotPowered")), Some(12));
    assert_eq!(control.step(&strategy, false, Some("dGPU temp:11")), Some(11));
    assert_eq!(control.step(&strategy, false, Some("APU: 13 C\nAPU: 13 C")), Some(12));
}

#[test]
fn failed_query_commands_nothing_and_adds_nothing() {
    let strategy = identity(5);
    let mut control = ControlLoop::new(&strategy);
    assert_eq!(control.step(&strategy, false, Some("APU: 40 C")), Some(40));
    assert_eq!(control.step(&strategy, false, None), None);
    assert_eq!(control.step(&strategy, false, Some("APU: 60 C")), Some(50));
}

#[test]
fn report_without_the_two_channels_counts_as_zero_degrees() {
    let strategy = identity(5);
    let mut control = ControlLoop::new(&strategy);
    assert_eq!(control.step(&strategy, false, Some("APU: 40 C")), Some(40));
    assert_eq!(control.step(&strategy, false, Some("")), Some(20));
    assert_eq!(control.step(&strategy, false, Some("F75303_CPU: 99 C")), Some(0));
}

#[test]
fn first_step_after_a_switch_starts_from_an_empty_history() {
    let mut state = RuntimeState::new(small_config("line")).unwrap();
    let (strategy, fresh) = sample_plan(&mut state);
    let mut control = ControlLoop::new(&strategy);
    assert_eq!(control.step(&strategy, fresh, Some("APU: 90 C")), Some(90));
    assert_eq!(control.step(&strategy, fresh, Some("APU: 90 C")), Some(90));
    assert!(state.use_strategy("short"));
    let (strategy, fresh) = sample_plan(&mut state);
    assert!(fresh);
    assert_eq!(control.step(&strategy, fresh, Some("APU: 20 C")), Some(20));
    let mut untouched = ControlLoop::new(&strategy);
    assert_eq!(untouched.step(&strategy, false, Some("APU: 20 C")), Some(20));
    let (strategy, fresh) = sample_plan(&mut state);
    assert!(!fresh);
    assert_eq!(control.step(&strategy, fresh, Some("APU: 40 C")), Some(30));
    assert_eq!(control.step(&strategy, fresh, Some("APU: 60 C")), Some(50));
}

#[test]
fn fresh_step_with_a_failed_query_still_drops_the_history() {
    let strategy = identity(5);
    let mut control = ControlLoop::new(&strategy);
    assert_eq!(control.step(&strategy, false, Some("APU: 90 C")), Some(90));
    assert_eq!(control.step(&strategy, true, None), None);
    assert_eq!(control.step(&strategy, false, Some("APU: 10 C")), Some(10));
}

#[test]
fn active_strategy_is_a_copy_that_reloads_do_not_touch() {
    let mut state = started();
    assert!(state.use_strategy("laziest"));
    assert_eq!(state.active_strategy().moving_average_interval, 40);
    state.reload(small_config("line"));
    assert_eq!(state.active_strategy().moving_average_interval, 40);
    assert_eq!(state.active_strategy().speed_curve.len(), 6);
    state.reset();
    assert_eq!(state.active_strategy().moving_average_interval, 5);
}

#[test]
fn duty_is_stored_only_where_the_hardware_took_it() {
    let mut state = started();
    state.record_command(40, true);
    assert_eq!(state.status().speed, 40);
    state.record_command(70, false);
    assert_eq!(state.status().speed, 40);
    state.record_command(200, true);
    assert_eq!(state.status().speed, 100);
    state.record_command(0, true);
    assert_eq!(state.status().speed, 0);
}
