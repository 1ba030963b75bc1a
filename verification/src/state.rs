//! The daemon's runtime state and the effect of each command on it.
//!
//! The state is one value that a daemon keeps behind a single lock. Every
//! operation here is one atomic step on it: it reads or changes the state
//! and says what the caller has to do next, without performing any input or
//! output itself.

use crate::fan_config::{FanConfig, FanConfigView, Strategy, StrategyView};
use crate::protocol::{Command, CommandView, PrintFormat};
use crate::status::{
    json_string_text, status_human_text, status_json_text, Status, StatusView,
};
use crate::text::texts_of;
use vstd::prelude::*;
use vstd::string::*;

verus! {

/// Why a daemon cannot start.
#[derive(Clone, Copy, Debug, PartialEq, Eq, Structural)]
pub enum StartupError {
    /// The configuration holds no strategy of the name it gives as default.
    MissingDefaultStrategy,
}

/// What the daemon answers to a command.
#[derive(Debug)]
pub enum Reply {
    /// The strategy of this name is now active.
    Switched(String),
    /// The configuration holds no strategy of this name.
    UnknownStrategy(String),
    /// The status, to be written in the given form.
    Status(Status, PrintFormat),
    /// The default strategy, which bears this name, is active again.
    ResetTo(String),
    Paused,
    Resumed,
    Reloaded,
    /// The configuration read on `reload` lacks its default strategy and was
    /// not taken over.
    ConfigRejected,
    UnknownCommand,
}

/// The mathematical value of a `Reply`.
pub ghost enum ReplyView {
    Switched(Seq<char>),
    UnknownStrategy(Seq<char>),
    Status(StatusView, PrintFormat),
    ResetTo(Seq<char>),
    Paused,
    Resumed,
    Reloaded,
    ConfigRejected,
    UnknownCommand,
}

impl View for Reply {
    type V = ReplyView;

    open spec fn view(&self) -> ReplyView {
        match self {
            Reply::Switched(name) => ReplyView::Switched(name@),
            Reply::UnknownStrategy(name) => ReplyView::UnknownStrategy(name@),
            Reply::Status(status, format) => ReplyView::Status(status@, *format),
            Reply::ResetTo(name) => ReplyView::ResetTo(name@),
            Reply::Paused => ReplyView::Paused,
            Reply::Resumed => ReplyView::Resumed,
            Reply::Reloaded => ReplyView::Reloaded,
            Reply::ConfigRejected => ReplyView::ConfigRejected,
            Reply::UnknownCommand => ReplyView::UnknownCommand,
        }
    }
}

/// The reply reports that the command was refused.
pub open spec fn is_error_reply(reply: ReplyView) -> bool {
    reply is UnknownStrategy || reply is ConfigRejected || reply is UnknownCommand
}

/// The text sent to the client for a reply.
pub open spec fn reply_text(reply: ReplyView) -> Seq<char> {
    match reply {
        ReplyView::Switched(name) => "Switched to strategy: "@ + name,
        ReplyView::UnknownStrategy(name) => "Unknown strategy: "@ + name,
        ReplyView::Status(status, PrintFormat::Json) => status_json_text(
            json_string_text(status.strategy),
            status.speed,
            status.active,
        ),
        ReplyView::Status(status, PrintFormat::Human) => status_human_text(status),
        ReplyView::ResetTo(name) => "Strategy reset to default! Strategy in use: "@ + name,
        ReplyView::Paused => "Service paused!"@,
        ReplyView::Resumed => "Service resumed!"@,
        ReplyView::Reloaded => "Config reloaded"@,
        ReplyView::ConfigRejected => "Config rejected: default strategy missing"@,
        ReplyView::UnknownCommand => "unknown or unfinished argument"@,
    }
}

impl Reply {
    /// Whether the reply reports that the command was refused.
    pub fn is_error(&self) -> (r: bool)
        ensures
            r == is_error_reply(self@),
    {
        match self {
            Reply::UnknownStrategy(_) => true,
            Reply::ConfigRejected => true,
            Reply::UnknownCommand => true,
            _ => false,
        }
    }

    /// The text to send to the client.
    pub fn text(&self) -> (text: String)
        ensures
            text@ == reply_text(self@),
    {
        match self {
            Reply::Switched(name) => String::from_str("Switched to strategy: ").concat(
                name.as_str(),
            ),
            Reply::UnknownStrategy(name) => String::from_str("Unknown strategy: ").concat(
                name.as_str(),
            ),
            Reply::Status(status, PrintFormat::Json) => match status.to_json() {
                Ok(text) => text,
                // Not reached: the encoder takes every name.
                Err(_) => String::from_str("Failed to serialize status"),
            },
            Reply::Status(status, PrintFormat::Human) => status.to_human(),
            Reply::ResetTo(name) => String::from_str(
                "Strategy reset to default! Strategy in use: ",
            ).concat(name.as_str()),
            Reply::Paused => String::from_str("Service paused!"),
            Reply::Resumed => String::from_str("Service resumed!"),
            Reply::Reloaded => String::from_str("Config reloaded"),
            Reply::ConfigRejected => String::from_str("Config rejected: default strategy missing"),
            Reply::UnknownCommand => String::from_str("unknown or unfinished argument"),
        }
    }
}

/// What the caller has to do after a command, outside the state's lock.
#[derive(Debug)]
pub enum Effect {
    /// Nothing.
    Nothing,
    /// Tell the hardware to control the fan by itself again, then wake the
    /// control loop so that it sees the pause.
    ReleaseFan,
    /// Wake the control loop.
    WakeLoop,
    /// Read the stored configuration and hand it to `RuntimeState::reload`;
    /// its reply goes to the client.
    ReloadConfig,
    /// Run the hardware tool with these arguments; its diagnostic output
    /// goes to the client.
    RunTool(Vec<String>),
}

/// The mathematical value of an `Effect`.
pub ghost enum EffectView {
    Nothing,
    ReleaseFan,
    WakeLoop,
    ReloadConfig,
    RunTool(Seq<Seq<char>>),
}

impl View for Effect {
    type V = EffectView;

    open spec fn view(&self) -> EffectView {
        match self {
            Effect::Nothing => EffectView::Nothing,
            Effect::ReleaseFan => EffectView::ReleaseFan,
            Effect::WakeLoop => EffectView::WakeLoop,
            Effect::ReloadConfig => EffectView::ReloadConfig,
            Effect::RunTool(args) => EffectView::RunTool(texts_of(args@)),
        }
    }
}

/// The result of a command: the reply, where the state alone decides it, and
/// what is left to do.
#[derive(Debug)]
pub struct Outcome {
    pub reply: Option<Reply>,
    pub effect: Effect,
}

/// The mathematical value of an `Outcome`.
pub ghost struct OutcomeView {
    pub reply: Option<ReplyView>,
    pub effect: EffectView,
}

impl View for Outcome {
    type V = OutcomeView;

    open spec fn view(&self) -> OutcomeView {
        OutcomeView {
            reply: match self.reply {
                Some(reply) => Some(reply@),
                None => None,
            },
            effect: self.effect@,
        }
    }
}

/// What the control loop does next.
#[derive(Debug)]
pub enum TickPlan {
    /// Control is paused: wait to be woken.
    Suspend,
    /// Sample the sensors and command the fan under this strategy. `fresh`
    /// says that the strategy was activated since the previous sample, so the
    /// smoothing history collected before does not apply.
    Sample { strategy: Strategy, fresh: bool },
}

/// The mathematical value of a `TickPlan`.
pub ghost enum TickPlanView {
    Suspend,
    Sample { strategy: StrategyView, fresh: bool },
}

impl View for TickPlan {
    type V = TickPlanView;

    open spec fn view(&self) -> TickPlanView {
        match self {
            TickPlan::Suspend => TickPlanView::Suspend,
            TickPlan::Sample { strategy, fresh } => TickPlanView::Sample {
                strategy: strategy@,
                fresh: *fresh,
            },
        }
    }
}

/// The state shared by the control loop, the command server and the
/// notifier.
#[derive(Debug)]
pub struct RuntimeState {
    active_strategy_name: String,
    active_strategy: Strategy,
    paused: bool,
    last_duty: u8,
    config: FanConfig,
    switched: bool,
}

/// The mathematical value of a `RuntimeState`.
pub ghost struct RuntimeView {
    /// Name of the active strategy.
    pub active_strategy_name: Seq<char>,
    /// The active strategy, as it was when it was activated.
    pub active_strategy: StrategyView,
    pub paused: bool,
    /// The duty last commanded, in whole percent.
    pub last_duty: u8,
    pub config: FanConfigView,
    /// A strategy was activated since the control loop last took a sample.
    pub switched: bool,
}

/// The state holds a duty of at most 100 percent and a configuration with
/// its default strategy.
pub open spec fn valid(s: RuntimeView) -> bool {
    &&& s.last_duty <= 100
    &&& s.config.strategies.contains_key(s.config.default_strategy)
}

/// The state in which a daemon starts on a configuration.
pub open spec fn initial(config: FanConfigView) -> RuntimeView {
    RuntimeView {
        active_strategy_name: config.default_strategy,
        active_strategy: config.strategies[config.default_strategy],
        paused: false,
        last_duty: 0,
        config,
        switched: false,
    }
}

/// The state after the configured strategy `name` has been activated.
pub open spec fn activated(s: RuntimeView, name: Seq<char>) -> RuntimeView {
    RuntimeView {
        active_strategy_name: name,
        active_strategy: s.config.strategies[name],
        switched: true,
        ..s
    }
}

/// What clients observe of a state.
pub open spec fn status_of(s: RuntimeView) -> StatusView {
    StatusView { strategy: s.active_strategy_name, speed: s.last_duty, active: s.paused }
}

/// The state after a command.
pub open spec fn next_state(s: RuntimeView, command: CommandView) -> RuntimeView {
    match command {
        CommandView::Use(name) => if s.config.strategies.contains_key(name) {
            activated(s, name)
        } else {
            s
        },
        CommandView::Reset => activated(s, s.config.default_strategy),
        CommandView::Pause => RuntimeView { paused: true, ..s },
        CommandView::Resume => RuntimeView { paused: false, ..s },
        _ => s,
    }
}

/// The reply to a command and what is left to do after it.
pub open spec fn outcome_of(s: RuntimeView, command: CommandView) -> OutcomeView {
    match command {
        CommandView::Use(name) => OutcomeView {
            reply: Some(
                if s.config.strategies.contains_key(name) {
                    ReplyView::Switched(name)
                } else {
                    ReplyView::UnknownStrategy(name)
                },
            ),
            effect: EffectView::Nothing,
        },
        CommandView::Print(format) => OutcomeView {
            reply: Some(ReplyView::Status(status_of(s), format)),
            effect: EffectView::Nothing,
        },
        CommandView::Tool(args) => OutcomeView { reply: None, effect: EffectView::RunTool(args) },
        CommandView::Reset => OutcomeView {
            reply: Some(ReplyView::ResetTo(s.config.default_strategy)),
            effect: EffectView::Nothing,
        },
        CommandView::Pause => OutcomeView {
            reply: Some(ReplyView::Paused),
            effect: EffectView::ReleaseFan,
        },
        CommandView::Resume => OutcomeView {
            reply: Some(ReplyView::Resumed),
            effect: EffectView::WakeLoop,
        },
        CommandView::Reload => OutcomeView { reply: None, effect: EffectView::ReloadConfig },
        CommandView::Unknown => OutcomeView {
            reply: Some(ReplyView::UnknownCommand),
            effect: EffectView::Nothing,
        },
    }
}

/// The state after a configuration was offered on `reload`: it replaces the
/// old one if it holds its default strategy, and nothing else changes.
pub open spec fn reloaded(s: RuntimeView, config: FanConfigView) -> RuntimeView {
    if config.strategies.contains_key(config.default_strategy) {
        RuntimeView { config, ..s }
    } else {
        s
    }
}

/// The state after the control loop commanded `duty`: where the hardware
/// took the command the duty is stored, held at 100 percent, and where it
/// did not, nothing changes.
pub open spec fn commanded(s: RuntimeView, duty: u8, accepted: bool) -> RuntimeView {
    if accepted {
        RuntimeView {
            last_duty: if duty <= 100 {
                duty
            } else {
                100u8
            },
            ..s
        }
    } else {
        s
    }
}

/// What the control loop does next in a state.
pub open spec fn plan_of(s: RuntimeView) -> TickPlanView {
    if s.paused {
        TickPlanView::Suspend
    } else {
        TickPlanView::Sample { strategy: s.active_strategy, fresh: s.switched }
    }
}

/// The state after the control loop has taken its plan.
pub open spec fn planned(s: RuntimeView) -> RuntimeView {
    if s.paused {
        s
    } else {
        RuntimeView { switched: false, ..s }
    }
}

/// Every command, every reload, every plan of the control loop and every
/// commanded duty leaves a valid state valid.
pub proof fn lemma_steps_keep_validity(s: RuntimeView, command: CommandView, config: FanConfigView)
    requires
        valid(s),
    ensures
        valid(next_state(s, command)),
        valid(reloaded(s, config)),
        valid(planned(s)),
        forall|duty: u8, accepted: bool| valid(#[trigger] commanded(s, duty, accepted)),
        config.strategies.contains_key(config.default_strategy) ==> valid(initial(config)),
{
}

/// A command that is refused leaves the state as it was.
pub proof fn lemma_refused_command_changes_nothing(s: RuntimeView, command: CommandView)
    requires
        outcome_of(s, command).reply matches Some(reply) && is_error_reply(reply),
    ensures
        next_state(s, command) == s,
{
}

/// After `resume` the control loop samples again, whatever came before.
pub proof fn lemma_resume_ends_suspension(s: RuntimeView)
    ensures
        plan_of(next_state(s, CommandView::Resume)) is Sample,
        plan_of(next_state(next_state(s, CommandView::Pause), CommandView::Resume)) is Sample,
        plan_of(next_state(s, CommandView::Pause)) is Suspend,
{
}

/// Only `use` and `reset` change which strategy is active, and only `pause`
/// and `resume` change the pause flag; no command changes the stored duty or
/// the configuration.
pub proof fn lemma_commands_change_only_their_part(s: RuntimeView, command: CommandView)
    ensures
        next_state(s, command).last_duty == s.last_duty,
        next_state(s, command).config == s.config,
        !(command is Use || command is Reset) ==> {
            &&& next_state(s, command).active_strategy_name == s.active_strategy_name
            &&& next_state(s, command).active_strategy == s.active_strategy
            &&& next_state(s, command).switched == s.switched
        },
        !(command is Pause || command is Resume) ==> next_state(s, command).paused == s.paused,
{
}

impl View for RuntimeState {
    type V = RuntimeView;

    closed spec fn view(&self) -> RuntimeView {
        RuntimeView {
            active_strategy_name: self.active_strategy_name@,
            active_strategy: self.active_strategy@,
            paused: self.paused,
            last_duty: self.last_duty,
            config: self.config@,
            switched: self.switched,
        }
    }
}

impl RuntimeState {
    #[verifier::type_invariant]
    spec fn well_formed(&self) -> bool {
        valid(self@)
    }

    /// Starts on a configuration: its default strategy is active, control is
    /// not paused and no duty has been commanded.
    pub fn new(config: FanConfig) -> (r: Result<RuntimeState, StartupError>)
        ensures
            match r {
                Ok(state) => config.has_default() && state@ == initial(config@) && valid(state@),
                Err(e) => !config.has_default() && e == StartupError::MissingDefaultStrategy,
            },
    {
        let strategy = match config.default_profile() {
            Some(strategy) => strategy.clone(),
            None => {
                return Err(StartupError::MissingDefaultStrategy);
            },
        };
        Ok(
            RuntimeState {
                active_strategy_name: config.default_strategy.clone(),
                active_strategy: strategy,
                paused: false,
                last_duty: 0,
                config,
                switched: false,
            },
        )
    }

    /// Every state is valid: this call does nothing but let its caller's
    /// proof know.
    pub fn assert_valid(&self)
        ensures
            valid(self@),
    {
        proof {
            use_type_invariant(self);
        }
    }

    /// Activates the strategy `name` if the configuration holds it; otherwise
    /// the state stays as it is.
    pub fn use_strategy(&mut self, name: &str) -> (known: bool)
        ensures
            known == old(self)@.config.strategies.contains_key(name@),
            final(self)@ == next_state(old(self)@, CommandView::Use(name@)),
            known ==> final(self)@ == activated(old(self)@, name@),
            !known ==> final(self)@ == old(self)@,
    {
        proof {
            use_type_invariant(&*self);
        }
        let strategy = match self.config.strategies.get(name) {
            Some(strategy) => strategy.clone(),
            None => {
                return false;
            },
        };
        self.active_strategy_name = String::from_str(name);
        self.active_strategy = strategy;
        self.switched = true;
        true
    }

    /// Activates the default strategy again.
    pub fn reset(&mut self)
        ensures
            final(self)@ == activated(old(self)@, old(self)@.config.default_strategy),
    {
        proof {
            use_type_invariant(&*self);
        }
        match self.config.default_profile() {
            Some(strategy) => {
                let strategy = strategy.clone();
                self.active_strategy_name = self.config.default_strategy.clone();
                self.active_strategy = strategy;
                self.switched = true;
            },
            None => {},
        }
    }

    /// Pauses automatic control.
    pub fn pause(&mut self)
        ensures
            final(self)@ == (RuntimeView { paused: true, ..old(self)@ }),
    {
        proof {
            use_type_invariant(&*self);
        }
        self.paused = true;
    }

    /// Ends a pause.
    pub fn resume(&mut self)
        ensures
            final(self)@ == (RuntimeView { paused: false, ..old(self)@ }),
    {
        proof {
            use_type_invariant(&*self);
        }
        self.paused = false;
    }

    /// Takes over a configuration that was read again, unless it lacks its
    /// default strategy. The active strategy stays as it is either way.
    pub fn reload(&mut self, config: FanConfig) -> (reply: Reply)
        ensures
            final(self)@ == reloaded(old(self)@, config@),
            reply@ == if config.has_default() {
                ReplyView::Reloaded
            } else {
                ReplyView::ConfigRejected
            },
    {
        proof {
            use_type_invariant(&*self);
        }
        if config.default_profile().is_some() {
            self.config = config;
            Reply::Reloaded
        } else {
            Reply::ConfigRejected
        }
    }

    /// Stores the duty that was just commanded, held at 100 percent.
    pub fn record_duty(&mut self, duty: u8)
        ensures
            final(self)@ == (RuntimeView {
                last_duty: if duty <= 100 {
                    duty
                } else {
                    100u8
                },
                ..old(self)@
            }),
    {
        proof {
            use_type_invariant(&*self);
        }
        self.last_duty = if duty <= 100 {
            duty
        } else {
            100
        };
    }

    /// Closes a sample: the duty is stored if the hardware took the command,
    /// and the state stays as it is if it did not.
    pub fn record_command(&mut self, duty: u8, accepted: bool)
        ensures
            final(self)@ == commanded(old(self)@, duty, accepted),
    {
        if accepted {
            self.record_duty(duty);
        }
    }

    /// A snapshot of what clients observe.
    pub fn status(&self) -> (status: Status)
        ensures
            status@ == status_of(self@),
            status@.speed <= 100,
    {
        proof {
            use_type_invariant(self);
        }
        Status {
            strategy: self.active_strategy_name.clone(),
            speed: self.last_duty,
            active: self.paused,
        }
    }

    /// A copy of the active strategy.
    pub fn active_strategy(&self) -> (strategy: Strategy)
        ensures
            strategy@ == self@.active_strategy,
    {
        self.active_strategy.clone()
    }

    /// Whether automatic control is paused.
    pub fn is_paused(&self) -> (paused: bool)
        ensures
            paused == self@.paused,
    {
        self.paused
    }

    /// Plans the control loop's next step. Taking a sample plan clears the
    /// mark that a strategy was activated.
    pub fn begin_tick(&mut self) -> (plan: TickPlan)
        ensures
            plan@ == plan_of(old(self)@),
            final(self)@ == planned(old(self)@),
    {
        proof {
            use_type_invariant(&*self);
        }
        if self.paused {
            TickPlan::Suspend
        } else {
            let fresh = self.switched;
            self.switched = false;
            TickPlan::Sample { strategy: self.active_strategy.clone(), fresh }
        }
    }

    /// Carries out one command on the state.
    pub fn handle(&mut self, command: Command) -> (outcome: Outcome)
        ensures
            final(self)@ == next_state(old(self)@, command@),
            outcome@ == outcome_of(old(self)@, command@),
    {
        proof {
            use_type_invariant(&*self);
        }
        match command {
            Command::Use(name) => {
                let known = self.use_strategy(name.as_str());
                Outcome {
                    reply: Some(
                        if known {
                            Reply::Switched(name)
                        } else {
                            Reply::UnknownStrategy(name)
                        },
                    ),
                    effect: Effect::Nothing,
                }
            },
            Command::Print(format) => Outcome {
                reply: Some(Reply::Status(self.status(), format)),
                effect: Effect::Nothing,
            },
            Command::Tool(args) => Outcome { reply: None, effect: Effect::RunTool(args) },
            Command::Reset => {
                self.reset();
                Outcome {
                    reply: Some(Reply::ResetTo(self.config.default_strategy.clone())),
                    effect: Effect::Nothing,
                }
            },
            Command::Pause => {
                self.pause();
                Outcome { reply: Some(Reply::Paused), effect: Effect::ReleaseFan }
            },
            Command::Resume => {
                self.resume();
                Outcome { reply: Some(Reply::Resumed), effect: Effect::WakeLoop }
            },
            Command::Reload => Outcome { reply: None, effect: Effect::ReloadConfig },
            Command::Unknown => Outcome {
                reply: Some(Reply::UnknownCommand),
                effect: Effect::Nothing,
            },
        }
    }
}

} // verus!
