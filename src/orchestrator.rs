//! The decisions taken on each inbound command, and the state machine of one
//! wake request. The caller performs the actions (send, wait, probe, reply)
//! and hands the outcomes back.
use vstd::prelude::*;
use crate::auth::AllowList;
use crate::command::{Command, CommandView};
use crate::mac::{encode, magic_packet};
use crate::registry::{
    DeviceRegistry,
    DeviceView,
    device_named,
    has_name,
    lemma_device_named,
    unique_names,
};
use crate::reply::{Reply, ReplyView, strings_view};

verus! {

/// Where a wake request stands.
#[derive(Clone, Copy, Debug, PartialEq, Eq, Structural)]
pub enum WakePhase {
    /// The magic packet is to be sent.
    Transmitting,
    /// The packet went out; the device is checked once the delay has passed.
    Verifying,
    /// The outcome was reported.
    Reported,
    /// The packet could not be sent; nothing more happens.
    Failed,
}

/// One accepted wake request, owning everything its verification needs.
pub struct WakeRequest {
    pub name: String,
    pub network_address: String,
    pub timeout_secs: u64,
    pub phase: WakePhase,
}

pub struct WakeRequestView {
    pub name: Seq<char>,
    pub network_address: Seq<char>,
    pub timeout_secs: u64,
    pub phase: WakePhase,
}

impl View for WakeRequest {
    type V = WakeRequestView;

    open spec fn view(&self) -> WakeRequestView {
        WakeRequestView {
            name: self.name@,
            network_address: self.network_address@,
            timeout_secs: self.timeout_secs,
            phase: self.phase,
        }
    }
}

/// What the caller does after a transmission outcome.
pub enum WakeAction {
    /// Send `ack` now; then, without holding up other commands, wait
    /// `delay_secs`, probe `network_address` once, and hand the result to
    /// `WakeRequest::probed`.
    AckAndVerify { ack: Reply, delay_secs: u64, network_address: String },
    /// Send `reply`; the request is over.
    Finish { reply: Reply },
}

pub enum WakeActionView {
    AckAndVerify { ack: ReplyView, delay_secs: u64, network_address: Seq<char> },
    Finish { reply: ReplyView },
}

impl View for WakeAction {
    type V = WakeActionView;

    open spec fn view(&self) -> WakeActionView {
        match self {
            WakeAction::AckAndVerify { ack, delay_secs, network_address } =>
                WakeActionView::AckAndVerify {
                    ack: ack@,
                    delay_secs: *delay_secs,
                    network_address: network_address@,
                },
            WakeAction::Finish { reply } => WakeActionView::Finish { reply: reply@ },
        }
    }
}

/// The request `w` in phase `p`.
pub open spec fn with_phase(w: WakeRequestView, p: WakePhase) -> WakeRequestView {
    WakeRequestView { phase: p, ..w }
}

/// The state after the transmission of `w` succeeded (`sent`) or failed.
pub open spec fn transmitted_state(w: WakeRequestView, sent: bool) -> WakeRequestView {
    if sent {
        with_phase(w, WakePhase::Verifying)
    } else {
        with_phase(w, WakePhase::Failed)
    }
}

/// The action after the transmission of `w`: on success an immediate
/// acknowledgment that carries the delay, then one probe after that delay; on
/// failure a network error and nothing more.
pub open spec fn transmitted_action(w: WakeRequestView, sent: bool) -> WakeActionView {
    if sent {
        WakeActionView::AckAndVerify {
            ack: ReplyView::Sent { name: w.name, timeout_secs: w.timeout_secs },
            delay_secs: w.timeout_secs,
            network_address: w.network_address,
        }
    } else {
        WakeActionView::Finish { reply: ReplyView::NetworkError }
    }
}

/// The report once the probe of `w` answered `online`.
pub open spec fn probed_reply(w: WakeRequestView, online: bool) -> ReplyView {
    ReplyView::WakeResult { name: w.name, online }
}

impl WakeRequest {
    /// Takes the outcome of sending the magic packet.
    pub fn transmitted(&mut self, sent: bool) -> (r: WakeAction)
        requires
            old(self).phase == WakePhase::Transmitting,
        ensures
            final(self)@ == transmitted_state(old(self)@, sent),
            r@ == transmitted_action(old(self)@, sent),
    {
        if sent {
            self.phase = WakePhase::Verifying;
            WakeAction::AckAndVerify {
                ack: Reply::Sent { name: self.name.clone(), timeout_secs: self.timeout_secs },
                delay_secs: self.timeout_secs,
                network_address: self.network_address.clone(),
            }
        } else {
            self.phase = WakePhase::Failed;
            WakeAction::Finish { reply: Reply::NetworkError }
        }
    }

    /// Takes the outcome of the single probe made after the delay, and gives
    /// the one report that ends the request.
    pub fn probed(&mut self, online: bool) -> (r: Reply)
        requires
            old(self).phase == WakePhase::Verifying,
        ensures
            final(self)@ == with_phase(old(self)@, WakePhase::Reported),
            r@ == probed_reply(old(self)@, online),
    {
        self.phase = WakePhase::Reported;
        Reply::WakeResult { name: self.name.clone(), online }
    }
}

/// What the caller does with an inbound command.
pub enum Step {
    /// Nothing: no reply at all.
    Silent,
    /// Send `reply`.
    Reply { reply: Reply },
    /// Probe `network_address`, then send `status_reply(name, result)`.
    ProbeOne { name: String, network_address: String },
    /// Probe each address in turn, then send `network_status_reply`.
    ProbeAll { names: Vec<String>, network_addresses: Vec<String> },
    /// Broadcast `packet`, then hand the outcome to `request.transmitted`.
    Transmit { packet: Vec<u8>, request: WakeRequest },
}

pub enum StepView {
    Silent,
    Reply { reply: ReplyView },
    ProbeOne { name: Seq<char>, network_address: Seq<char> },
    ProbeAll { names: Seq<Seq<char>>, network_addresses: Seq<Seq<char>> },
    Transmit { packet: Seq<u8>, request: WakeRequestView },
}

impl View for Step {
    type V = StepView;

    open spec fn view(&self) -> StepView {
        match self {
            Step::Silent => StepView::Silent,
            Step::Reply { reply } => StepView::Reply { reply: reply@ },
            Step::ProbeOne { name, network_address } => StepView::ProbeOne {
                name: name@,
                network_address: network_address@,
            },
            Step::ProbeAll { names, network_addresses } => StepView::ProbeAll {
                names: strings_view(names@),
                network_addresses: strings_view(network_addresses@),
            },
            Step::Transmit { packet, request } => StepView::Transmit {
                packet: packet@,
                request: request@,
            },
        }
    }
}

/// The shared, read-only context of every command: the devices and the callers
/// allowed to act on them.
pub struct Orchestrator {
    registry: DeviceRegistry,
    allowed: AllowList,
}

pub struct OrchestratorView {
    pub devices: Seq<DeviceView>,
    pub allowed: Set<u64>,
}

impl View for Orchestrator {
    type V = OrchestratorView;

    closed spec fn view(&self) -> OrchestratorView {
        OrchestratorView { devices: self.registry@, allowed: self.allowed@ }
    }
}

/// The step for command `cmd` from `caller`. A caller outside the allow-list
/// gets no reply whatever the command. An allowed one gets an explicit error
/// for a device that is not known or a device name that is missing; asking to
/// wake an unknown device builds no packet. Text that is no command gets no
/// reply.
pub open spec fn step_spec(o: OrchestratorView, caller: u64, cmd: CommandView) -> StepView {
    if !o.allowed.contains(caller) {
        StepView::Silent
    } else {
        match cmd {
            CommandView::Help => StepView::Reply { reply: ReplyView::Menu },
            CommandView::List => StepView::Reply {
                reply: ReplyView::DeviceList { names: o.devices.map_values(|d: DeviceView| d.name) },
            },
            CommandView::StatusAll => StepView::ProbeAll {
                names: o.devices.map_values(|d: DeviceView| d.name),
                network_addresses: o.devices.map_values(|d: DeviceView| d.network_address),
            },
            CommandView::Status { name } => if has_name(o.devices, name) {
                StepView::ProbeOne {
                    name,
                    network_address: device_named(o.devices, name).network_address,
                }
            } else {
                StepView::Reply { reply: ReplyView::DeviceNotFound }
            },
            CommandView::Wake { name } => if has_name(o.devices, name) {
                let d = device_named(o.devices, name);
                StepView::Transmit {
                    packet: magic_packet(d.mac),
                    request: WakeRequestView {
                        name,
                        network_address: d.network_address,
                        timeout_secs: d.timeout_secs,
                        phase: WakePhase::Transmitting,
                    },
                }
            } else {
                StepView::Reply { reply: ReplyView::DeviceNotFound }
            },
            CommandView::MissingDeviceName => StepView::Reply {
                reply: ReplyView::MissingDeviceName,
            },
            CommandView::Ignored => StepView::Silent,
        }
    }
}

impl Orchestrator {
    pub open spec fn wf(&self) -> bool {
        unique_names(self@.devices)
    }

    pub fn new(registry: DeviceRegistry, allowed: AllowList) -> (r: Orchestrator)
        requires
            registry.wf(),
        ensures
            r.wf(),
            r@.devices == registry@,
            r@.allowed == allowed@,
    {
        Orchestrator { registry, allowed }
    }

    /// The registry of devices.
    pub fn registry(&self) -> (r: &DeviceRegistry)
        ensures
            r@ == self@.devices,
    {
        &self.registry
    }

    /// Whether `caller` is on the allow-list.
    pub fn is_allowed(&self, caller: u64) -> (r: bool)
        ensures
            r == self@.allowed.contains(caller),
    {
        self.allowed.check(caller)
    }

    /// Decides what to do with command `cmd` from `caller`.
    pub fn handle(&self, caller: u64, cmd: &Command) -> (r: Step)
        requires
            self.wf(),
        ensures
            r@ == step_spec(self@, caller, cmd@),
    {
        if !self.allowed.check(caller) {
            return Step::Silent;
        }
        match cmd {
            Command::Help => Step::Reply { reply: Reply::Menu },
            Command::List => {
                let names = self.registry.names();
                assert(strings_view(names@) =~= self@.devices.map_values(|d: DeviceView| d.name));
                Step::Reply { reply: Reply::DeviceList { names } }
            },
            Command::StatusAll => {
                let names = self.registry.names();
                let network_addresses = self.registry.network_addresses();
                assert(strings_view(names@) =~= self@.devices.map_values(|d: DeviceView| d.name));
                assert(strings_view(network_addresses@) =~= self@.devices.map_values(
                    |d: DeviceView| d.network_address,
                ));
                Step::ProbeAll { names, network_addresses }
            },
            Command::Status { name } => match self.registry.lookup(name.as_str()) {
                Some(d) => {
                    proof {
                        lemma_device_named(self@.devices, d@);
                    }
                    Step::ProbeOne {
                        name: name.clone(),
                        network_address: d.network_address.clone(),
                    }
                },
                None => Step::Reply { reply: Reply::DeviceNotFound },
            },
            Command::Wake { name } => match self.registry.lookup(name.as_str()) {
                Some(d) => {
                    proof {
                        lemma_device_named(self@.devices, d@);
                    }
                    let packet = encode(&d.mac);
                    Step::Transmit {
                        packet,
                        request: WakeRequest {
                            name: name.clone(),
                            network_address: d.network_address.clone(),
                            timeout_secs: d.timeout_secs,
                            phase: WakePhase::Transmitting,
                        },
                    }
                },
                None => Step::Reply { reply: Reply::DeviceNotFound },
            },
            Command::MissingDeviceName => Step::Reply { reply: Reply::MissingDeviceName },
            Command::Ignored => Step::Silent,
        }
    }
}

/// A caller outside the allow-list gets no reply, whatever the command.
pub proof fn lemma_unauthorized_silent(o: OrchestratorView, caller: u64, cmd: CommandView)
    requires
        !o.allowed.contains(caller),
    ensures
        step_spec(o, caller, cmd) == StepView::Silent,
{
}

/// Waking, or asking the state of, a device that the registry does not hold
/// builds no packet, probes and sends nothing, and gives exactly the not-found
/// reply.
pub proof fn lemma_wake_unknown_device(o: OrchestratorView, caller: u64, name: Seq<char>)
    requires
        o.allowed.contains(caller),
        !has_name(o.devices, name),
    ensures
        step_spec(o, caller, CommandView::Wake { name }) == (StepView::Reply {
            reply: ReplyView::DeviceNotFound,
        }),
        step_spec(o, caller, CommandView::Status { name }) == (StepView::Reply {
            reply: ReplyView::DeviceNotFound,
        }),
{
}

/// Waking a known device goes, in order: the device's magic packet is sent;
/// on success an acknowledgment carrying the device's timeout is sent at
/// once, and one probe is made after that many seconds; then exactly one
/// report follows, whose content depends on the probe result alone.
pub proof fn lemma_wake_known_device(o: OrchestratorView, caller: u64, name: Seq<char>)
    requires
        o.allowed.contains(caller),
        has_name(o.devices, name),
    ensures
        ({
            let d = device_named(o.devices, name);
            let w = WakeRequestView {
                name,
                network_address: d.network_address,
                timeout_secs: d.timeout_secs,
                phase: WakePhase::Transmitting,
            };
            &&& d.name == name
            &&& step_spec(o, caller, CommandView::Wake { name }) == (StepView::Transmit {
                packet: magic_packet(d.mac),
                request: w,
            })
            &&& transmitted_action(w, true) == (WakeActionView::AckAndVerify {
                ack: ReplyView::Sent { name, timeout_secs: d.timeout_secs },
                delay_secs: d.timeout_secs,
                network_address: d.network_address,
            })
            &&& transmitted_state(w, true).phase == WakePhase::Verifying
            &&& forall|online: bool|
                probed_reply(transmitted_state(w, true), online) == (ReplyView::WakeResult {
                    name,
                    online,
                })
        }),
{
    let i = choose|i: int| 0 <= i < o.devices.len() && (#[trigger] o.devices[i]).name == name;
    assert(o.devices[i].name == name);
}

/// Two wake requests for two devices each carry their own device: the
/// acknowledgment, the probed address and the final report of each name the
/// device that its request named, whatever the other does.
pub proof fn lemma_wakes_independent(
    o: OrchestratorView,
    caller_a: u64,
    a: Seq<char>,
    caller_b: u64,
    b: Seq<char>,
    online_a: bool,
    online_b: bool,
)
    requires
        o.allowed.contains(caller_a),
        o.allowed.contains(caller_b),
        has_name(o.devices, a),
        has_name(o.devices, b),
    ensures
        ({
            let sa = step_spec(o, caller_a, CommandView::Wake { name: a });
            let sb = step_spec(o, caller_b, CommandView::Wake { name: b });
            &&& sa is Transmit && sb is Transmit
            &&& transmitted_action(sa->request, true) == (WakeActionView::AckAndVerify {
                ack: ReplyView::Sent {
                    name: a,
                    timeout_secs: device_named(o.devices, a).timeout_secs,
                },
                delay_secs: device_named(o.devices, a).timeout_secs,
                network_address: device_named(o.devices, a).network_address,
            })
            &&& transmitted_action(sb->request, true) == (WakeActionView::AckAndVerify {
                ack: ReplyView::Sent {
                    name: b,
                    timeout_secs: device_named(o.devices, b).timeout_secs,
                },
                delay_secs: device_named(o.devices, b).timeout_secs,
                network_address: device_named(o.devices, b).network_address,
            })
            &&& probed_reply(transmitted_state(sa->request, true), online_a) == (
            ReplyView::WakeResult { name: a, online: online_a })
            &&& probed_reply(transmitted_state(sb->request, true), online_b) == (
            ReplyView::WakeResult { name: b, online: online_b })
        }),
{
    lemma_wake_known_device(o, caller_a, a);
    lemma_wake_known_device(o, caller_b, b);
}

/// The reply to a single status request once its probe answered `online`.
pub fn status_reply(name: &String, online: bool) -> (r: Reply)
    ensures
        r@ == (ReplyView::DeviceStatus { name: name@, online }),
{
    Reply::DeviceStatus { name: name.clone(), online }
}

/// The reply to a status request over all devices, `online[i]` being the
/// probe result for `names[i]`.
pub fn network_status_reply(names: Vec<String>, online: Vec<bool>) -> (r: Reply)
    requires
        names@.len() == online@.len(),
    ensures
        r@ == (ReplyView::NetworkStatus { names: strings_view(names@), online: online@ }),
{
    Reply::NetworkStatus { names, online }
}

} // verus!
