use vstd::prelude::*;
use crate::config::Config;
use crate::ratio::{unit_product, Ratio};
use crate::registry::Device;

verus! {

/// A speed to set, and for how long when the command is a one-shot pulse.
#[derive(Clone, Copy, Debug, PartialEq, Eq, Structural)]
pub struct VibrationCommand {
    /// The actuator speed, between zero and one.
    pub speed: Ratio,
    /// Present on a pulse only: the hold time in milliseconds, after which
    /// the device is stopped.
    pub duration_ms: Option<u64>,
}

/// What is to be done with one device.
#[derive(Clone, Copy, Debug, PartialEq, Eq, Structural)]
pub enum Action {
    Vibrate(VibrationCommand),
    Stop,
    /// The device cannot be driven by a speed: nothing is sent to it.
    Skip,
}

/// What a tick asks of every device.
#[derive(Clone, Copy, Debug, PartialEq, Eq, Structural)]
pub enum Request {
    /// Set the speed and return at once.
    Start(Ratio),
    /// Set the speed, hold it for the configured time, then stop.
    Pulse(Ratio),
    Stop,
}

/// One action, addressed to one device.
#[derive(Clone, Copy, Debug, PartialEq, Eq, Structural)]
pub struct Command {
    pub device: u32,
    pub action: Action,
}

/// An intensity that can be multiplied with the configured strength: both
/// are fractions, and both products fit the machine word.
pub open spec fn scalable(intensity: Ratio, config: Config) -> bool {
    &&& intensity.wf()
    &&& config.vibration_strength.wf()
    &&& intensity.can_scale(config.vibration_strength)
}

/// An intensity as the mapper makes them: a fraction of at most 255 over at
/// most 510.
pub open spec fn mapped(intensity: Ratio) -> bool {
    &&& intensity.wf()
    &&& intensity.num <= 255
    &&& intensity.den <= 510
}

/// A request that `action_for` can be worked out for.
pub open spec fn request_ok(request: Request, config: Config) -> bool {
    match request {
        Request::Start(intensity) => scalable(intensity, config),
        Request::Pulse(intensity) => scalable(intensity, config),
        Request::Stop => true,
    }
}

/// The speed that an intensity is rendered at under a configuration.
pub open spec fn speed_for(intensity: Ratio, config: Config) -> Ratio {
    unit_product(intensity, config.vibration_strength)
}

/// The action that a request comes to on one device.
pub open spec fn action_for(device: Device, request: Request, config: Config) -> Action {
    if !device.supports_scalar_actuation {
        Action::Skip
    } else {
        match request {
            Request::Start(intensity) => Action::Vibrate(
                VibrationCommand { speed: speed_for(intensity, config), duration_ms: None },
            ),
            Request::Pulse(intensity) => Action::Vibrate(
                VibrationCommand {
                    speed: speed_for(intensity, config),
                    duration_ms: Some(config.hold_ms()),
                },
            ),
            Request::Stop => Action::Stop,
        }
    }
}

/// The speed at which an action leaves a device that ran at `before`, once
/// the action has run its course: a pulse ends with its own stop.
pub open spec fn speed_after(action: Action, before: Ratio) -> Ratio {
    match action {
        Action::Vibrate(command) => match command.duration_ms {
            Some(_) => Ratio { num: 0, den: 1 },
            None => command.speed,
        },
        Action::Stop => Ratio { num: 0, den: 1 },
        Action::Skip => before,
    }
}

/// The commands of one fan-out: one for each device, in the devices' order.
pub open spec fn planned(devices: Seq<Device>, request: Request, config: Config) -> Seq<Command> {
    Seq::new(
        devices.len(),
        |i: int| Command { device: devices[i].id, action: action_for(devices[i], request, config) },
    )
}

/// The devices whose command was sent and failed, in the commands' order.
pub open spec fn failures(commands: Seq<Command>, succeeded: Seq<bool>) -> Seq<u32>
    recommends
        commands.len() == succeeded.len(),
    decreases commands.len(),
{
    if commands.len() == 0 || succeeded.len() == 0 {
        Seq::empty()
    } else if commands.last().action != Action::Skip && !succeeded.last() {
        failures(commands.drop_last(), succeeded.drop_last()).push(commands.last().device)
    } else {
        failures(commands.drop_last(), succeeded.drop_last())
    }
}

/// What is planned for a device depends on that device alone: two device
/// lists that agree at one place get the same command there, whatever the
/// other devices are.
pub proof fn lemma_commands_are_independent(
    first: Seq<Device>,
    second: Seq<Device>,
    place: int,
    request: Request,
    config: Config,
)
    requires
        0 <= place < first.len(),
        place < second.len(),
        first[place] == second[place],
    ensures
        planned(first, request, config)[place] == planned(second, request, config)[place],
        planned(first, request, config)[place].device == first[place].id,
        planned(first, request, config).len() == first.len(),
{
}

/// The command at `place` was sent and did not succeed.
pub open spec fn failed_at(commands: Seq<Command>, succeeded: Seq<bool>, place: int) -> bool {
    &&& 0 <= place < commands.len()
    &&& place < succeeded.len()
    &&& commands[place].action != Action::Skip
    &&& !succeeded[place]
}

/// Some command to `device` was sent and did not succeed.
pub open spec fn device_failed(commands: Seq<Command>, succeeded: Seq<bool>, device: u32) -> bool {
    exists|k: int| #[trigger] failed_at(commands, succeeded, k) && commands[k].device == device
}

/// The failures of a fan-out are exactly the commands that were sent and
/// did not succeed: such a command's device is listed, and every listed
/// device has such a command. What became of the other commands plays no
/// part.
pub proof fn lemma_failures_exact(commands: Seq<Command>, succeeded: Seq<bool>)
    requires
        commands.len() == succeeded.len(),
    ensures
        forall|k: int| #[trigger]
            failed_at(commands, succeeded, k) ==> failures(commands, succeeded).contains(
                commands[k].device,
            ),
        forall|j: int|
            0 <= j < failures(commands, succeeded).len() ==> device_failed(
                commands,
                succeeded,
                #[trigger] failures(commands, succeeded)[j],
            ),
        failures(commands, succeeded).len() <= commands.len(),
    decreases commands.len(),
{
    if commands.len() > 0 {
        let front = commands.drop_last();
        let front_ok = succeeded.drop_last();
        let sub = failures(front, front_ok);
        let all = failures(commands, succeeded);
        let last = commands.len() - 1;
        lemma_failures_exact(front, front_ok);
        assert forall|k: int| #[trigger] failed_at(commands, succeeded, k) implies all.contains(
            commands[k].device,
        ) by {
            if k < last {
                assert(front[k] == commands[k]);
                assert(front_ok[k] == succeeded[k]);
                assert(failed_at(front, front_ok, k));
                assert(sub.contains(front[k].device));
                let w = choose|w: int| 0 <= w < sub.len() && sub[w] == front[k].device;
                assert(all[w] == commands[k].device);
            } else {
                assert(all[all.len() - 1] == commands[k].device);
            }
        }
        assert forall|j: int| 0 <= j < all.len() implies device_failed(
            commands,
            succeeded,
            #[trigger] all[j],
        ) by {
            if j < sub.len() {
                assert(all[j] == sub[j]);
                assert(device_failed(front, front_ok, sub[j]));
                let k = choose|k: int| #[trigger]
                    failed_at(front, front_ok, k) && front[k].device == sub[j];
                assert(commands[k] == front[k]);
                assert(succeeded[k] == front_ok[k]);
                assert(failed_at(commands, succeeded, k));
            } else {
                assert(failed_at(commands, succeeded, last));
            }
        }
    }
}

/// Every mapped intensity can be multiplied with the strength of every
/// usable configuration.
pub proof fn lemma_mapped_is_scalable(intensity: Ratio, config: Config)
    requires
        mapped(intensity),
        config.wf(),
    ensures
        scalable(intensity, config),
{
    let s = config.vibration_strength;
    assert(intensity.num * s.num <= 255 * 72340172838076673) by (nonlinear_arith)
        requires
            0 <= intensity.num <= 255,
            0 <= s.num <= 72340172838076673,
    ;
    assert(intensity.den * s.den <= 510 * 36170086419038336) by (nonlinear_arith)
        requires
            0 <= intensity.den <= 510,
            0 <= s.den <= 36170086419038336,
    ;
}

/// Every speed lies between zero and one: it is one exactly when the
/// intensity times the strength reaches one, and zero when either is zero.
pub proof fn lemma_speed_range(intensity: Ratio, config: Config)
    requires
        scalable(intensity, config),
    ensures
        speed_for(intensity, config).wf(),
        speed_for(intensity, config).in_unit(),
        intensity.is_zero() || config.vibration_strength.is_zero() ==> speed_for(
            intensity,
            config,
        ).is_zero(),
        intensity.num * config.vibration_strength.num >= intensity.den
            * config.vibration_strength.den <==> speed_for(intensity, config).is_one(),
{
    let strength = config.vibration_strength;
    assert(intensity.den * strength.den > 0) by (nonlinear_arith)
        requires
            intensity.den > 0,
            strength.den > 0,
    ;
    assert(intensity.is_zero() || strength.is_zero() ==> intensity.num * strength.num == 0)
        by (nonlinear_arith);
}

/// The speed at which `intensity` is rendered: the intensity times the
/// configured strength, cut off at one.
pub fn speed(intensity: Ratio, config: &Config) -> (result: Ratio)
    requires
        scalable(intensity, *config),
    ensures
        result == speed_for(intensity, *config),
        result.wf(),
        result.in_unit(),
{
    intensity.scaled_clamped(config.vibration_strength)
}

/// Continuous actuation: the speed is set and stays until a stop follows.
/// A device without scalar actuation is skipped.
pub fn start(device: &Device, intensity: Ratio, config: &Config) -> (result: Action)
    requires
        scalable(intensity, *config),
    ensures
        result == action_for(*device, Request::Start(intensity), *config),
{
    if device.supports_scalar_actuation {
        Action::Vibrate(VibrationCommand { speed: speed(intensity, config), duration_ms: None })
    } else {
        Action::Skip
    }
}

/// One-shot actuation: the speed is set, held for the configured time and
/// then stopped, as one unit. A device without scalar actuation is skipped.
pub fn pulse(device: &Device, intensity: Ratio, config: &Config) -> (result: Action)
    requires
        scalable(intensity, *config),
    ensures
        result == action_for(*device, Request::Pulse(intensity), *config),
{
    if device.supports_scalar_actuation {
        let hold: u64 = match config.vibration_time {
            Some(ms) => ms,
            None => 0,
        };
        Action::Vibrate(
            VibrationCommand { speed: speed(intensity, config), duration_ms: Some(hold) },
        )
    } else {
        Action::Skip
    }
}

/// Silences a device, whatever it was doing. A device without scalar
/// actuation is skipped.
pub fn stop(device: &Device) -> (result: Action)
    ensures
        result == (if device.supports_scalar_actuation {
            Action::Stop
        } else {
            Action::Skip
        }),
        forall|config: Config| result == action_for(*device, Request::Stop, config),
{
    if device.supports_scalar_actuation {
        Action::Stop
    } else {
        Action::Skip
    }
}

/// The speed at which a device that ran at `before` is left by an action
/// that succeeded.
pub fn settle(action: Action, before: Ratio) -> (result: Ratio)
    ensures
        result == speed_after(action, before),
{
    match action {
        Action::Vibrate(command) => match command.duration_ms {
            Some(_) => Ratio::zero(),
            None => command.speed,
        },
        Action::Stop => Ratio::zero(),
        Action::Skip => before,
    }
}

/// Stopping is idempotent: a stop leaves a device at rest, and a further
/// stop leaves it exactly as the first did.
pub proof fn lemma_stop_is_idempotent(device: Device, config: Config, before: Ratio)
    ensures
        ({
            let action = action_for(device, Request::Stop, config);
            let once = speed_after(action, before);
            &&& speed_after(action, once) == once
            &&& device.supports_scalar_actuation ==> once.is_zero()
            &&& !device.supports_scalar_actuation ==> once == before
        }),
{
}

/// Plans one fan-out: every device gets its command, whatever becomes of
/// the commands to the others.
pub fn fan_out(devices: &Vec<Device>, request: Request, config: &Config) -> (result: Vec<Command>)
    requires
        request_ok(request, *config),
    ensures
        result@ == planned(devices@, request, *config),
        result@.len() == devices@.len(),
        forall|i: int| 0 <= i < devices@.len() ==> (#[trigger] result@[i]).device == devices@[i].id,
{
    let mut commands: Vec<Command> = Vec::new();
    let mut i: usize = 0;
    while i < devices.len()
        invariant
            i <= devices.len(),
            request_ok(request, *config),
            commands@ == planned(devices@.take(i as int), request, *config),
        decreases devices.len() - i,
    {
        let device = &devices[i];
        let action = match request {
            Request::Start(intensity) => start(device, intensity, config),
            Request::Pulse(intensity) => pulse(device, intensity, config),
            Request::Stop => stop(device),
        };
        commands.push(Command { device: device.id, action });
        assert(commands@ =~= planned(devices@.take(i + 1), request, *config));
        i += 1;
    }
    assert(devices@.take(i as int) =~= devices@);
    commands
}

/// Reads the outcomes of one fan-out: the devices whose command was sent
/// and failed. `succeeded` holds one flag for each command, in order. A
/// failure is only ever reported; it changes nothing for the other devices.
pub fn failed_devices(commands: &Vec<Command>, succeeded: &Vec<bool>) -> (result: Vec<u32>)
    requires
        commands@.len() == succeeded@.len(),
    ensures
        result@ == failures(commands@, succeeded@),
{
    let mut failed: Vec<u32> = Vec::new();
    let mut i: usize = 0;
    while i < commands.len()
        invariant
            i <= commands.len(),
            commands@.len() == succeeded@.len(),
            failed@ == failures(commands@.take(i as int), succeeded@.take(i as int)),
        decreases commands.len() - i,
    {
        proof {
            assert(commands@.take(i + 1).drop_last() =~= commands@.take(i as int));
            assert(succeeded@.take(i + 1).drop_last() =~= succeeded@.take(i as int));
        }
        let sent = match commands[i].action {
            Action::Skip => false,
            _ => true,
        };
        if sent && !succeeded[i] {
            failed.push(commands[i].device);
        }
        i += 1;
    }
    proof {
        assert(commands@.take(i as int) =~= commands@);
        assert(succeeded@.take(i as int) =~= succeeded@);
    }
    failed
}

} // verus!
