use vstd::prelude::*;
use crate::config::Config;
use crate::dispatcher::{fan_out, lemma_mapped_is_scalable, planned, Command, Request};
use crate::mapper::MappingPolicy;
use crate::ratio::Ratio;
use crate::registry::Device;
use crate::signal::GameSignal;

verus! {

/// Whether devices are being driven.
#[derive(Clone, Copy, Debug, PartialEq, Eq, Structural)]
pub enum ControlLoopState {
    /// No device is being driven.
    Idle,
    /// A start or pulse has gone out since the hitstop last rose above zero.
    Active,
}

/// How a device is driven while the hitstop lasts.
#[derive(Clone, Copy, Debug, PartialEq, Eq, Structural)]
pub enum ActuationMode {
    /// The speed is set anew on every tick and stopped by a later command.
    Continuous,
    /// Every command is a pulse that ends by itself.
    Discrete,
}

/// What makes the loop run.
#[derive(Clone, Copy, Debug, PartialEq, Eq, Structural)]
pub enum TriggerMode {
    /// The signal is sampled once per interval, given in milliseconds.
    Periodic(u64),
    /// The loop waits for hit events and pulses on each.
    EventDriven,
}

/// A notification pushed by the game when the loop is driven by events.
#[derive(Clone, Copy, Debug, PartialEq, Eq, Structural)]
pub enum Event {
    /// A hit has occurred.
    Hit,
}

/// Everything the control loop is set up with.
#[derive(Clone, Copy, Debug, PartialEq, Eq, Structural)]
pub struct Settings {
    pub config: Config,
    pub mapping: MappingPolicy,
    pub actuation: ActuationMode,
    pub trigger: TriggerMode,
}

/// What one tick decided: the state to go on with and the commands to send.
#[derive(Debug)]
pub struct Tick {
    pub state: ControlLoopState,
    pub commands: Vec<Command>,
}

/// The state after a tick that was taken in `state` and sampled `signal`.
/// Only the signal decides it.
pub open spec fn next_state(state: ControlLoopState, signal: GameSignal) -> ControlLoopState {
    if signal.hitstop == 0 {
        ControlLoopState::Idle
    } else {
        ControlLoopState::Active
    }
}

/// What a tick asks of the devices, if anything.
pub open spec fn tick_request(
    state: ControlLoopState,
    signal: GameSignal,
    settings: Settings,
) -> Option<Request> {
    if signal.hitstop == 0 {
        match state {
            ControlLoopState::Active => Some(Request::Stop),
            ControlLoopState::Idle => None,
        }
    } else {
        match settings.actuation {
            ActuationMode::Continuous => Some(Request::Start(settings.mapping.intensity(signal))),
            ActuationMode::Discrete => Some(Request::Pulse(settings.mapping.intensity(signal))),
        }
    }
}

/// The commands of a tick.
pub open spec fn tick_commands(
    state: ControlLoopState,
    signal: GameSignal,
    devices: Seq<Device>,
    settings: Settings,
) -> Seq<Command> {
    match tick_request(state, signal, settings) {
        Some(request) => planned(devices, request, settings.config),
        None => Seq::empty(),
    }
}

/// The state in which the loop is found after it has taken the ticks
/// `signals`, one after the other, starting from `start`.
pub open spec fn state_after(start: ControlLoopState, signals: Seq<GameSignal>) -> ControlLoopState
    decreases signals.len(),
{
    if signals.len() == 0 {
        start
    } else {
        next_state(state_after(start, signals.drop_last()), signals.last())
    }
}

/// The commands that one hit event gives rise to: a pulse at full
/// intensity for every device.
pub open spec fn event_commands(event: Event, devices: Seq<Device>, settings: Settings) -> Seq<
    Command,
> {
    planned(devices, Request::Pulse(Ratio { num: 1, den: 1 }), settings.config)
}

impl Settings {
    /// Settings can be used when the configuration and the mapping can.
    pub open spec fn wf(&self) -> bool {
        self.config.wf() && self.mapping.wf()
    }

    /// Puts settings together, or nothing when a part cannot be used.
    pub fn new(
        config: Config,
        mapping: MappingPolicy,
        actuation: ActuationMode,
        trigger: TriggerMode,
    ) -> (result: Option<Settings>)
        ensures
            result.is_some() <==> config.wf() && mapping.wf(),
            result.is_some() ==> result.unwrap() == (Settings {
                config,
                mapping,
                actuation,
                trigger,
            }),
    {
        if config.is_usable() && mapping.ceiling > 0 {
            Some(Settings { config, mapping, actuation, trigger })
        } else {
            None
        }
    }
}

/// The way of driving devices that a configuration calls for: pulses when
/// it names a pulse time, continuous actuation when it names none.
pub fn actuation_for(config: &Config) -> (result: ActuationMode)
    ensures
        result == (if config.vibration_time.is_some() {
            ActuationMode::Discrete
        } else {
            ActuationMode::Continuous
        }),
{
    match config.vibration_time {
        Some(_) => ActuationMode::Discrete,
        None => ActuationMode::Continuous,
    }
}

/// The state in which every control loop starts.
pub fn initial_state() -> (result: ControlLoopState)
    ensures
        result == ControlLoopState::Idle,
{
    ControlLoopState::Idle
}

/// One tick of the periodic loop.
///
/// With no hitstop, an active loop stops every device once and goes idle,
/// and an idle loop does nothing. With hitstop, every device is driven at
/// the mapped intensity and the loop is active.
pub fn step(
    state: ControlLoopState,
    signal: GameSignal,
    devices: &Vec<Device>,
    settings: &Settings,
) -> (result: Tick)
    requires
        settings.wf(),
    ensures
        result.state == next_state(state, signal),
        result.commands@ == tick_commands(state, signal, devices@, *settings),
        signal.hitstop == 0 && state == ControlLoopState::Idle ==> result.commands@.len() == 0,
        signal.hitstop != 0 || state == ControlLoopState::Active ==> result.commands@.len()
            == devices@.len(),
{
    if signal.hitstop == 0 {
        match state {
            ControlLoopState::Active => Tick {
                state: ControlLoopState::Idle,
                commands: fan_out(devices, Request::Stop, &settings.config),
            },
            ControlLoopState::Idle => Tick { state: ControlLoopState::Idle, commands: Vec::new() },
        }
    } else {
        let intensity = settings.mapping.intensity_of(signal);
        proof {
            lemma_mapped_is_scalable(intensity, settings.config);
        }
        let request = match settings.actuation {
            ActuationMode::Continuous => Request::Start(intensity),
            ActuationMode::Discrete => Request::Pulse(intensity),
        };
        Tick {
            state: ControlLoopState::Active,
            commands: fan_out(devices, request, &settings.config),
        }
    }
}

/// The event-driven loop: every hit pulses every device once, and there is
/// no state to keep between events.
pub fn on_event(event: Event, devices: &Vec<Device>, settings: &Settings) -> (result: Vec<Command>)
    requires
        settings.wf(),
    ensures
        result@ == event_commands(event, devices@, *settings),
        result@.len() == devices@.len(),
{
    proof {
        lemma_mapped_is_scalable(Ratio { num: 1, den: 1 }, settings.config);
    }
    match event {
        Event::Hit => fan_out(devices, Request::Pulse(Ratio::one()), &settings.config),
    }
}

/// A second tick without hitstop changes nothing: whatever the state was,
/// the first such tick leaves the loop idle, and the next one sends no
/// command and leaves it idle.
pub proof fn lemma_quiet_ticks_settle(
    state: ControlLoopState,
    first: GameSignal,
    second: GameSignal,
    devices: Seq<Device>,
    settings: Settings,
)
    requires
        first.hitstop == 0,
        second.hitstop == 0,
    ensures
        next_state(state, first) == ControlLoopState::Idle,
        tick_commands(next_state(state, first), second, devices, settings) == Seq::<
            Command,
        >::empty(),
        next_state(next_state(state, first), second) == ControlLoopState::Idle,
{
}

/// A stop goes out exactly on the tick that ends a run of hitstop: a tick
/// plans a stop if and only if it finds no hitstop while the loop is
/// active.
pub proof fn lemma_stop_only_on_falling_edge(
    state: ControlLoopState,
    signal: GameSignal,
    settings: Settings,
)
    ensures
        tick_request(state, signal, settings) == Some(Request::Stop) <==> signal.hitstop == 0
            && state == ControlLoopState::Active,
        tick_request(state, signal, settings).is_none() <==> signal.hitstop == 0 && state
            == ControlLoopState::Idle,
{
}

/// Over any run of ticks, the tick at `at` sends stops exactly when it is
/// the first tick without hitstop after one with hitstop (or, at the very
/// start, when the loop began active), and it sends nothing exactly when
/// the tick before it found no hitstop either (or the loop began idle).
pub proof fn lemma_one_stop_per_run(
    start: ControlLoopState,
    signals: Seq<GameSignal>,
    at: int,
    settings: Settings,
)
    requires
        0 <= at < signals.len(),
    ensures
        ({
            let before = state_after(start, signals.take(at));
            let request = tick_request(before, signals[at], settings);
            let was_driven = if at == 0 {
                start == ControlLoopState::Active
            } else {
                signals[at - 1].hitstop != 0
            };
            &&& request == Some(Request::Stop) <==> signals[at].hitstop == 0 && was_driven
            &&& request.is_none() <==> signals[at].hitstop == 0 && !was_driven
            &&& state_after(start, signals.take(at + 1)) == next_state(before, signals[at])
        }),
{
    if at > 0 {
        assert(signals.take(at).last() == signals[at - 1]);
    }
    assert(signals.take(at + 1).last() == signals[at]);
    assert(signals.take(at + 1).drop_last() =~= signals.take(at));
}

} // verus!
