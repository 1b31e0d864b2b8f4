//! Starting to listen.
use vstd::prelude::*;
use crate::gatt::service;
use crate::gatt::service::{SetupAnswer, SetupStep};
use crate::listeners;
use crate::locator;
use crate::locator::EndPoint;

verus! {

/// What is to be done next to listen.
#[derive(Clone, Copy, PartialEq, Eq, Structural, Debug)]
pub enum ListenPhase {
    /// Take this step of the setup; `Run` is to start waiting for centrals.
    SettingUp(SetupStep),
    /// Nothing: the listener is running and filed.
    Listening,
    /// Nothing: this step failed.
    Failed(SetupStep),
}

/// How it went.
pub enum ListenEvent<H> {
    /// How a step of the setup went.
    Answered(SetupAnswer),
    /// The listener at an endpoint was started; its task is stopped and awaited
    /// by `handle`.
    Started { endpoint: EndPoint, handle: H },
}

/// Whether an event is one that a phase can bring.
pub open spec fn listen_event_fits<H>(phase: ListenPhase, event: ListenEvent<H>) -> bool {
    match event {
        ListenEvent::Answered(answer) => phase matches ListenPhase::SettingUp(step)
            && service::setup_answer_fits(step, answer),
        ListenEvent::Started { .. } => phase == ListenPhase::SettingUp(SetupStep::Run),
    }
}

/// The phase that follows. A step that fails ends it.
pub open spec fn listen_next<H>(phase: ListenPhase, event: ListenEvent<H>) -> ListenPhase {
    match (phase, event) {
        (_, ListenEvent::Started { .. }) => ListenPhase::Listening,
        (ListenPhase::SettingUp(step), ListenEvent::Answered(answer)) => match service::setup_next(
            step,
            answer,
        ) {
            Some(next) => ListenPhase::SettingUp(next),
            None => ListenPhase::Failed(step),
        },
        _ => phase,
    }
}

/// The endpoints that are told once an event was taken in.
pub open spec fn told_after<H>(told: Seq<Seq<char>>, event: ListenEvent<H>) -> Seq<Seq<char>> {
    match event {
        ListenEvent::Started { endpoint, .. } => listeners::others(
            told,
            locator::endpoint_locator(endpoint@),
        ).push(endpoint@),
        ListenEvent::Answered(_) => told,
    }
}

/// The phase and the endpoints that are told after a run of events, given those
/// told before.
pub open spec fn listen_run<H>(told: Seq<Seq<char>>, events: Seq<ListenEvent<H>>) -> (
    ListenPhase,
    Seq<Seq<char>>,
)
    decreases events.len(),
{
    if events.len() == 0 {
        (ListenPhase::SettingUp(SetupStep::OpenSession), told)
    } else {
        let before = listen_run(told, events.drop_last());
        (listen_next(before.0, events.last()), told_after(before.1, events.last()))
    }
}

/// Whether each event of a run is one that its phase can bring.
pub open spec fn listen_run_fits<H>(told: Seq<Seq<char>>, events: Seq<ListenEvent<H>>) -> bool
    decreases events.len(),
{
    events.len() > 0 ==> listen_run_fits(told, events.drop_last()) && listen_event_fits(
        listen_run(told, events.drop_last()).0,
        events.last(),
    )
}

/// Whether an event says that a step succeeded.
pub open spec fn is_success<H>(event: ListenEvent<H>) -> bool {
    event matches ListenEvent::Answered(answer) && answer != SetupAnswer::Failed
}

/// Whether all events but the last say that a step succeeded.
pub open spec fn succeeds_until_last<H>(events: Seq<ListenEvent<H>>) -> bool {
    forall|i: int| 0 <= i < events.len() - 1 ==> is_success(#[trigger] events[i])
}

/// Listening fails exactly where a step of the setup does, and the endpoints told
/// are then those told before. A listener is started only after every step of
/// the setup succeeded, and the endpoints told are then those told before with
/// another locator, and its own.
pub proof fn law_listener_is_told_or_nothing_changes<H>(
    told: Seq<Seq<char>>,
    events: Seq<ListenEvent<H>>,
)
    requires
        listen_run_fits(told, events),
    ensures
        succeeds_until_last(events),
        match listen_run(told, events).0 {
            ListenPhase::SettingUp(_) => events.len() > 0 ==> is_success(events.last()),
            ListenPhase::Failed(_) => events.len() > 0 && events.last()
                == ListenEvent::<H>::Answered(SetupAnswer::Failed),
            ListenPhase::Listening => events.len() > 0 && events.last() is Started && listen_run(
                told,
                events.drop_last(),
            ).0 == ListenPhase::SettingUp(SetupStep::Run),
        },
        listen_run(told, events).0 != ListenPhase::Listening ==> listen_run(told, events).1 == told,
        listen_run(told, events).0 == ListenPhase::Listening ==> (events.last()
            matches ListenEvent::Started { endpoint, .. } && listen_run(told, events).1
            == listeners::others(told, locator::endpoint_locator(endpoint@)).push(endpoint@)),
    decreases events.len(),
{
    if events.len() > 0 {
        let before = events.drop_last();
        law_listener_is_told_or_nothing_changes(told, before);
        assert forall|i: int| 0 <= i < events.len() - 1 implies is_success(
            #[trigger] events[i],
        ) by {
            assert(events[i] == before[i]);
            if i == before.len() - 1 {
                assert(before.last() == events[i]);
            }
        }
    }
}

/// The answers of an adapter on which nothing fails: whether it has power, and how
/// many advertisements are active, with the steps in between that follow.
pub open spec fn good_answers(powered: bool, active: u64) -> Seq<SetupAnswer> {
    seq![SetupAnswer::Done, SetupAnswer::Done, SetupAnswer::Powered(powered)] + (if powered {
        seq![]
    } else {
        seq![SetupAnswer::Done]
    }) + seq![SetupAnswer::Active(active)] + (if active == 0 {
        seq![]
    } else {
        seq![SetupAnswer::Done]
    }) + seq![SetupAnswer::Done, SetupAnswer::Done, SetupAnswer::Done]
}

/// One event more.
proof fn lemma_listen_push<H>(
    told: Seq<Seq<char>>,
    events: Seq<ListenEvent<H>>,
    event: ListenEvent<H>,
)
    ensures
        listen_run(told, events.push(event)).0 == listen_next(listen_run(told, events).0, event),
        listen_run(told, events.push(event)).1 == told_after(listen_run(told, events).1, event),
        listen_run_fits(told, events.push(event)) <==> listen_run_fits(told, events)
            && listen_event_fits(listen_run(told, events).0, event),
{
    assert(events.push(event).drop_last() =~= events);
}

/// The events of answers.
pub open spec fn answered<H>(answers: Seq<SetupAnswer>) -> Seq<ListenEvent<H>> {
    answers.map_values(|answer: SetupAnswer| ListenEvent::<H>::Answered(answer))
}

/// What a setup has come to after answers.
proof fn lemma_answers<H>(told: Seq<Seq<char>>, answers: Seq<SetupAnswer>, answer: SetupAnswer)
    requires
        listen_run_fits(told, answered::<H>(answers)),
        listen_event_fits(
            listen_run(told, answered::<H>(answers)).0,
            ListenEvent::<H>::Answered(answer),
        ),
    ensures
        listen_run_fits(told, answered::<H>(answers.push(answer))),
        listen_run(told, answered::<H>(answers.push(answer))).0 == listen_next(
            listen_run(told, answered::<H>(answers)).0,
            ListenEvent::<H>::Answered(answer),
        ),
        listen_run(told, answered::<H>(answers.push(answer))).1 == listen_run(
            told,
            answered::<H>(answers),
        ).1,
{
    lemma_listen_push(told, answered::<H>(answers), ListenEvent::<H>::Answered(answer));
    assert(answered::<H>(answers.push(answer)) =~= answered::<H>(answers).push(
        ListenEvent::<H>::Answered(answer),
    ));
}

/// On an adapter on which nothing fails, with or without power and with however
/// many active advertisements, the setup ends in a listener that is told of.
pub proof fn law_good_setup_ends_in_a_listener<H>(
    told: Seq<Seq<char>>,
    powered: bool,
    active: u64,
    endpoint: EndPoint,
    handle: H,
)
    ensures
        ({
            let events = answered::<H>(good_answers(powered, active)).push(
                ListenEvent::Started { endpoint, handle },
            );
            &&& listen_run_fits(told, events)
            &&& listen_run(told, events).0 == ListenPhase::Listening
            &&& listen_run(told, events).1.last() == endpoint@
        }),
{
    let none = Seq::<SetupAnswer>::empty();
    assert(answered::<H>(none) =~= Seq::empty());
    let a = none.push(SetupAnswer::Done);
    lemma_answers::<H>(told, none, SetupAnswer::Done);
    let b = a.push(SetupAnswer::Done);
    lemma_answers::<H>(told, a, SetupAnswer::Done);
    let c = b.push(SetupAnswer::Powered(powered));
    lemma_answers::<H>(told, b, SetupAnswer::Powered(powered));
    let d = if powered {
        c
    } else {
        c.push(SetupAnswer::Done)
    };
    if !powered {
        lemma_answers::<H>(told, c, SetupAnswer::Done);
    }
    let e = d.push(SetupAnswer::Active(active));
    lemma_answers::<H>(told, d, SetupAnswer::Active(active));
    let f = if active == 0 {
        e
    } else {
        e.push(SetupAnswer::Done)
    };
    if active != 0 {
        lemma_answers::<H>(told, e, SetupAnswer::Done);
    }
    let g = f.push(SetupAnswer::Done);
    lemma_answers::<H>(told, f, SetupAnswer::Done);
    let h = g.push(SetupAnswer::Done);
    lemma_answers::<H>(told, g, SetupAnswer::Done);
    let i = h.push(SetupAnswer::Done);
    lemma_answers::<H>(told, h, SetupAnswer::Done);
    assert(i =~= good_answers(powered, active));
    lemma_listen_push(told, answered::<H>(i), ListenEvent::Started { endpoint, handle });
}

} // verus!
