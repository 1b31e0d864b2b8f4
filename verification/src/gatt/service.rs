//! The GATT service through which links run, and how a peripheral offers it.
use vstd::prelude::*;

verus! {

/// The Zenoh service, `24A9597F-1060-41BB-AB31-B638662BDCCC`.
pub const SERVICE_UUID: u128 = 0x24A9597F_1060_41BB_AB31_B638662BDCCC;

/// The characteristic that a central writes to,
/// `7E54E1BC-82BF-4B0E-9B3A-3C187934BD89`.
pub const RX_CHAR_UUID: u128 = 0x7E54E1BC_82BF_4B0E_9B3A_3C187934BD89;

/// The characteristic that notifies a central,
/// `F47EA3E5-4D04-4EEE-9ACA-E397C4408952`.
pub const TX_CHAR_UUID: u128 = 0xF47EA3E5_4D04_4EEE_9ACA_E397C4408952;

/// The name in the advertisement. It is short so that it fits into one that is
/// not extended.
pub const ADVERTISED_NAME: &'static str = "ZN";

/// The shortest pause between advertisements, in milliseconds. It is long, so
/// that more radio time is left to the connections that exist.
pub const MIN_ADVERTISING_INTERVAL_MS: u64 = 1500;

/// The longest pause between advertisements, in milliseconds.
pub const MAX_ADVERTISING_INTERVAL_MS: u64 = 2000;

/// What a peripheral advertises.
pub struct AdvertisementPlan {
    /// Whether the adapter offers connections, as a peripheral does.
    pub peripheral: bool,
    pub service: u128,
    pub discoverable: bool,
    pub local_name: &'static str,
    pub min_interval_ms: u64,
    pub max_interval_ms: u64,
}

/// What a listener advertises.
pub open spec fn advertisement_plan() -> AdvertisementPlan {
    AdvertisementPlan {
        peripheral: true,
        service: SERVICE_UUID,
        discoverable: true,
        local_name: ADVERTISED_NAME,
        min_interval_ms: MIN_ADVERTISING_INTERVAL_MS,
        max_interval_ms: MAX_ADVERTISING_INTERVAL_MS,
    }
}

/// The advertisement of a listener.
pub fn advertisement() -> (plan: AdvertisementPlan)
    ensures
        plan == (AdvertisementPlan {
            peripheral: true,
            service: SERVICE_UUID,
            discoverable: true,
            local_name: ADVERTISED_NAME,
            min_interval_ms: MIN_ADVERTISING_INTERVAL_MS,
            max_interval_ms: MAX_ADVERTISING_INTERVAL_MS,
        }),
        plan.min_interval_ms <= plan.max_interval_ms,
        plan == advertisement_plan(),
{
    AdvertisementPlan {
        peripheral: true,
        service: SERVICE_UUID,
        discoverable: true,
        local_name: ADVERTISED_NAME,
        min_interval_ms: MIN_ADVERTISING_INTERVAL_MS,
        max_interval_ms: MAX_ADVERTISING_INTERVAL_MS,
    }
}

/// What a central may do with a characteristic. Both ways of transfer go
/// through a socket.
pub enum CharacteristicUse {
    /// Write to it, with or without waiting for a response.
    Write { with_response: bool, without_response: bool },
    /// Be told of changes, with or without confirming them.
    Notify { notify: bool, indicate: bool },
}

/// A characteristic of the service.
pub struct CharacteristicPlan {
    pub uuid: u128,
    pub usage: CharacteristicUse,
}

/// The service that a peripheral serves.
pub struct ServicePlan {
    pub uuid: u128,
    pub primary: bool,
    pub rx: CharacteristicPlan,
    pub tx: CharacteristicPlan,
}

/// What a listener serves.
pub open spec fn service_plan() -> ServicePlan {
    ServicePlan {
        uuid: SERVICE_UUID,
        primary: true,
        rx: CharacteristicPlan {
            uuid: RX_CHAR_UUID,
            usage: CharacteristicUse::Write { with_response: true, without_response: true },
        },
        tx: CharacteristicPlan {
            uuid: TX_CHAR_UUID,
            usage: CharacteristicUse::Notify { notify: true, indicate: true },
        },
    }
}

/// The service of a listener: one characteristic to be written to and one that
/// notifies, in this order.
pub fn service() -> (plan: ServicePlan)
    ensures
        plan.uuid == SERVICE_UUID,
        plan.primary,
        plan.rx.uuid == RX_CHAR_UUID,
        plan.rx.usage == (CharacteristicUse::Write { with_response: true, without_response: true }),
        plan.tx.uuid == TX_CHAR_UUID,
        plan.tx.usage == (CharacteristicUse::Notify { notify: true, indicate: true }),
        plan == service_plan(),
{
    ServicePlan {
        uuid: SERVICE_UUID,
        primary: true,
        rx: CharacteristicPlan {
            uuid: RX_CHAR_UUID,
            usage: CharacteristicUse::Write { with_response: true, without_response: true },
        },
        tx: CharacteristicPlan {
            uuid: TX_CHAR_UUID,
            usage: CharacteristicUse::Notify { notify: true, indicate: true },
        },
    }
}

/// A step towards a running listener.
#[derive(Clone, Copy, PartialEq, Eq, Structural, Debug)]
pub enum SetupStep {
    OpenSession,
    SelectAdapter,
    CheckPower,
    PowerOn,
    CountAdvertisements,
    StopDiscoverable,
    Advertise,
    ServeApplication,
    WatchAdapter,
    Run,
}

/// How a step went.
#[derive(Clone, Copy, PartialEq, Eq, Structural, Debug)]
pub enum SetupAnswer {
    Done,
    /// Whether the adapter is powered.
    Powered(bool),
    /// How many advertisements are active.
    Active(u64),
    Failed,
}

/// Whether an answer is one that a step can give.
pub open spec fn setup_answer_fits(step: SetupStep, answer: SetupAnswer) -> bool {
    match answer {
        SetupAnswer::Failed => step != SetupStep::Run,
        SetupAnswer::Powered(_) => step == SetupStep::CheckPower,
        SetupAnswer::Active(_) => step == SetupStep::CountAdvertisements,
        SetupAnswer::Done => step != SetupStep::CheckPower && step
            != SetupStep::CountAdvertisements && step != SetupStep::Run,
    }
}

/// The step that follows, unless the setup is given up.
pub open spec fn setup_next(step: SetupStep, answer: SetupAnswer) -> Option<SetupStep> {
    match (step, answer) {
        (_, SetupAnswer::Failed) => None,
        (SetupStep::OpenSession, _) => Some(SetupStep::SelectAdapter),
        (SetupStep::SelectAdapter, _) => Some(SetupStep::CheckPower),
        (SetupStep::CheckPower, SetupAnswer::Powered(false)) => Some(SetupStep::PowerOn),
        (SetupStep::CheckPower, _) => Some(SetupStep::CountAdvertisements),
        (SetupStep::PowerOn, _) => Some(SetupStep::CountAdvertisements),
        (SetupStep::CountAdvertisements, SetupAnswer::Active(n)) => if n > 0 {
            Some(SetupStep::StopDiscoverable)
        } else {
            Some(SetupStep::Advertise)
        },
        (SetupStep::CountAdvertisements, _) => Some(SetupStep::Advertise),
        (SetupStep::StopDiscoverable, _) => Some(SetupStep::Advertise),
        (SetupStep::Advertise, _) => Some(SetupStep::ServeApplication),
        (SetupStep::ServeApplication, _) => Some(SetupStep::WatchAdapter),
        (SetupStep::WatchAdapter, _) => Some(SetupStep::Run),
        (SetupStep::Run, _) => None,
    }
}

/// Decides on the step that follows. An adapter without power is powered on;
/// earlier advertisements are ended; any failure ends the setup.
pub fn next_setup_step(step: SetupStep, answer: SetupAnswer) -> (next: Option<SetupStep>)
    requires
        setup_answer_fits(step, answer),
    ensures
        next == setup_next(step, answer),
{
    match answer {
        SetupAnswer::Failed => {
            return None;
        },
        _ => {},
    }
    let next = match step {
        SetupStep::OpenSession => SetupStep::SelectAdapter,
        SetupStep::SelectAdapter => SetupStep::CheckPower,
        SetupStep::CheckPower => match answer {
            SetupAnswer::Powered(false) => SetupStep::PowerOn,
            _ => SetupStep::CountAdvertisements,
        },
        SetupStep::PowerOn => SetupStep::CountAdvertisements,
        SetupStep::CountAdvertisements => match answer {
            SetupAnswer::Active(n) => if n > 0 {
                SetupStep::StopDiscoverable
            } else {
                SetupStep::Advertise
            },
            _ => SetupStep::Advertise,
        },
        SetupStep::StopDiscoverable => SetupStep::Advertise,
        SetupStep::Advertise => SetupStep::ServeApplication,
        SetupStep::ServeApplication => SetupStep::WatchAdapter,
        SetupStep::WatchAdapter => SetupStep::Run,
        SetupStep::Run => {
            return None;
        },
    };
    Some(next)
}

/// How an adapter with this power state and this many active advertisements
/// answers a step that succeeds.
pub open spec fn setup_answer_of(powered: bool, active: u64, step: SetupStep) -> SetupAnswer {
    match step {
        SetupStep::CheckPower => SetupAnswer::Powered(powered),
        SetupStep::CountAdvertisements => SetupAnswer::Active(active),
        _ => SetupAnswer::Done,
    }
}

/// The steps from `step` on, with an adapter on which nothing fails.
pub open spec fn setup_steps(powered: bool, active: u64, step: SetupStep, fuel: nat) -> Seq<
    SetupStep,
>
    decreases fuel,
{
    if fuel == 0 {
        Seq::empty()
    } else {
        match setup_next(step, setup_answer_of(powered, active, step)) {
            Some(next) if step != SetupStep::Run => seq![step] + setup_steps(
                powered,
                active,
                next,
                (fuel - 1) as nat,
            ),
            _ => seq![step],
        }
    }
}

/// A setup in which nothing fails opens the adapter, powers it on exactly where
/// it has no power, ends the advertising exactly where some is active, and then
/// advertises before it serves the application.
pub proof fn law_setup_order(powered: bool, active: u64)
    ensures
        setup_steps(powered, active, SetupStep::OpenSession, 10) == seq![
            SetupStep::OpenSession,
            SetupStep::SelectAdapter,
            SetupStep::CheckPower,
        ] + (if powered {
            seq![]
        } else {
            seq![SetupStep::PowerOn]
        }) + seq![SetupStep::CountAdvertisements] + (if active == 0 {
            seq![]
        } else {
            seq![SetupStep::StopDiscoverable]
        }) + seq![
            SetupStep::Advertise,
            SetupStep::ServeApplication,
            SetupStep::WatchAdapter,
            SetupStep::Run,
        ],
{
    reveal_with_fuel(setup_steps, 11);
}

/// A setup is given up exactly where a step fails, whichever step that is.
pub proof fn law_setup_goes_on_unless_it_fails(step: SetupStep, answer: SetupAnswer)
    requires
        setup_answer_fits(step, answer),
    ensures
        setup_next(step, answer) is None <==> answer == SetupAnswer::Failed,
        step != SetupStep::Run ==> setup_answer_fits(step, SetupAnswer::Failed),
{
}

} // verus!
