//! One step of the control loop: from a sensor report to the duty to
//! command.

use crate::curve::duty_at;
use crate::fan_config::{Strategy, StrategyView};
use crate::fan_control::{appended, FanController};
use crate::protocol::CommandView;
use crate::sensors::{hotter, parse_temp, reading_of, scaled, to_thousandths};
use crate::smoothing::smoothed_duty;
use crate::state::{next_state, plan_of, RuntimeView, TickPlanView};
use vstd::prelude::*;

verus! {

/// The temperature that a report stands for, in thousandths of a degree: the
/// hotter of its APU and discrete GPU channels.
pub open spec fn sampled_temperature(report: Seq<char>) -> i32 {
    scaled(hotter(reading_of(report).apu, reading_of(report).dgpu_temp))
}

/// The history that a step starts from: nothing after a strategy switch,
/// else what was remembered.
pub open spec fn base_history(history: Seq<i32>, fresh: bool) -> Seq<i32> {
    if fresh {
        Seq::empty()
    } else {
        history
    }
}

/// The history after a step. A failed query adds nothing.
pub open spec fn history_after(
    history: Seq<i32>,
    strategy: StrategyView,
    fresh: bool,
    report: Option<Seq<char>>,
) -> Seq<i32> {
    match report {
        Some(text) => appended(
            base_history(history, fresh),
            duty_at(strategy.curve, sampled_temperature(text) as int) as i32,
            strategy.window,
        ),
        None => base_history(history, fresh),
    }
}

/// The duty to command after a step, in whole percent; none after a failed
/// query.
pub open spec fn duty_after(
    history: Seq<i32>,
    strategy: StrategyView,
    fresh: bool,
    report: Option<Seq<char>>,
) -> Option<u8> {
    match report {
        Some(_) => Some(smoothed_duty(history_after(history, strategy, fresh, report)) as u8),
        None => None,
    }
}

/// The control loop's own state: the smoothed controller.
pub struct ControlLoop {
    controller: FanController,
}

impl View for ControlLoop {
    type V = Seq<i32>;

    /// The smoothing history, oldest raw duty first.
    closed spec fn view(&self) -> Seq<i32> {
        self.controller@
    }
}

impl ControlLoop {
    /// A control loop with an empty smoothing history.
    pub fn new(strategy: &Strategy) -> (control: Self)
        ensures
            control@ == Seq::<i32>::empty(),
    {
        ControlLoop { controller: FanController::new(strategy) }
    }

    /// Takes one step under `strategy`.
    ///
    /// `fresh` says that the strategy was activated since the previous step:
    /// the history is then dropped first. `report` is the text of the thermal
    /// query, or `None` where the query failed; a failed query commands no
    /// duty and adds nothing to the history.
    pub fn step(&mut self, strategy: &Strategy, fresh: bool, report: Option<&str>) -> (duty: Option<
        u8,
    >)
        ensures
            final(self)@ == history_after(
                old(self)@,
                strategy@,
                fresh,
                match report {
                    Some(text) => Some(text@),
                    None => None,
                },
            ),
            duty == duty_after(
                old(self)@,
                strategy@,
                fresh,
                match report {
                    Some(text) => Some(text@),
                    None => None,
                },
            ),
            duty matches Some(d) ==> d <= 100,
    {
        if fresh {
            self.controller.reset();
        }
        match report {
            Some(text) => {
                let reading = parse_temp(text);
                let temperature = to_thousandths(reading.representative_temperature());
                Some(self.controller.update(temperature, strategy))
            },
            None => None,
        }
    }
}

/// After a switch to a configured strategy the control loop's next step
/// starts from an empty history: its plan is marked fresh, and the step's
/// history and duty are those of a controller that has seen nothing before.
pub proof fn lemma_switch_resets_history(
    s: RuntimeView,
    name: Seq<char>,
    history: Seq<i32>,
    report: Option<Seq<char>>,
)
    requires
        s.config.strategies.contains_key(name),
        !s.paused,
    ensures
        plan_of(next_state(s, CommandView::Use(name))) == (TickPlanView::Sample {
            strategy: s.config.strategies[name],
            fresh: true,
        }),
        history_after(history, s.config.strategies[name], true, report) == history_after(
            Seq::empty(),
            s.config.strategies[name],
            false,
            report,
        ),
        duty_after(history, s.config.strategies[name], true, report) == duty_after(
            Seq::empty(),
            s.config.strategies[name],
            false,
            report,
        ),
{
}

} // verus!
