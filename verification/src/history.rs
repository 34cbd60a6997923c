//! What holds after any history of the plugin.

use crate::element::Event;
use crate::laws;
use crate::message::Incoming;
use crate::screen;
use crate::state;
use crate::ui;
use vstd::prelude::*;

verus! {

/// Something that happens to the plugin.
pub enum Happening {
    /// The host shows the plugin in an element.
    Shown { element_id: Seq<char> },
    /// The user does something to an element that reports it under a name.
    Touched { event: Event, name: Seq<char> },
    /// A timer fires with a payload.
    TimerFired { tag: Seq<char> },
    /// A message comes in.
    Received { message: Incoming, now: u128 },
    /// The user has picked a file.
    Picked { name: Seq<char>, bytes: Seq<u8> },
    /// The host has said which devices are connected.
    DevicesListed { devices: Seq<Seq<char>> },
    /// The device has said which apps it has, or has not.
    AppsListed { packages: Option<Seq<Seq<char>>> },
    /// The app was opened, or could not be.
    AppLaunched { launched: bool },
    /// Messages are delivered.
    Registered,
    /// The start was announced, or could not be.
    StartSent { sent: bool },
    /// The speed is known.
    Measured { rate: usize },
    /// A chunk was sent, or could not be.
    ChunkSent { sent: bool },
}

/// Something that happened, and the ids of the timers that were started for it: `ids[i]` is the id
/// of the timer that the `i`-th effect started, if that started one.
pub struct Entry {
    pub happening: Happening,
    pub ids: Seq<u64>,
}

/// What the plugin remembers, and the question that is open.
pub struct Situation {
    pub state: state::UiModel,
    pub ask: state::AskModel,
}

/// Whether something can happen in a situation: an answer comes when its question is open, and
/// everything else when none is.
pub open spec fn can_happen(now: Situation, happening: Happening) -> bool {
    match happening {
        Happening::Shown { .. } => now.ask is Nothing,
        Happening::Touched { .. } => now.ask is Nothing,
        Happening::TimerFired { .. } => now.ask is Nothing,
        Happening::Received { .. } => now.ask is Nothing,
        Happening::Picked { bytes, .. } => now.ask is PickFile && bytes.len() <= usize::MAX,
        Happening::DevicesListed { .. } => now.ask is ListDevices,
        Happening::AppsListed { .. } => now.ask is ListApps,
        Happening::AppLaunched { .. } => now.ask is LaunchApp,
        Happening::Registered => now.ask is RegisterReceiver,
        Happening::StartSent { .. } => now.ask is SendStart,
        Happening::Measured { .. } => now.ask is MeasureChunk,
        Happening::ChunkSent { .. } => now.ask is SendChunk,
    }
}

/// What comes of an answer to the question that is open. Other answers change nothing.
#[verifier::opaque]
pub open spec fn answered(now: Situation, happening: Happening) -> state::Outcome {
    match (now.ask, happening) {
        (
            state::AskModel::ListDevices { job },
            Happening::DevicesListed { devices },
        ) => ui::after_devices_listed(now.state, job, devices),
        (
            state::AskModel::ListApps { job, device_addr },
            Happening::AppsListed { packages },
        ) => ui::after_apps_listed(now.state, job, device_addr, packages),
        (
            state::AskModel::LaunchApp { job, device_addr, .. },
            Happening::AppLaunched { launched },
        ) => ui::after_app_launched(now.state, job, device_addr, launched),
        (
            state::AskModel::RegisterReceiver { job, device_addr },
            Happening::Registered,
        ) => ui::after_receiver_registered(now.state, job, device_addr),
        (
            state::AskModel::SendStart { .. },
            Happening::StartSent { sent },
        ) => ui::after_start_sent(now.state, sent),
        (
            state::AskModel::MeasureChunk { chunk },
            Happening::Measured { rate },
        ) => ui::after_chunk_measured(now.state, chunk, rate),
        (
            state::AskModel::SendChunk { .. },
            Happening::ChunkSent { sent },
        ) => ui::after_chunk_sent(now.state, sent),
        _ => now.state.unchanged().asking(now.ask),
    }
}

/// What comes of something that happens.
#[verifier::opaque]
pub open spec fn outcome(now: Situation, happening: Happening) -> state::Outcome {
    match happening {
        Happening::Shown { element_id } => screen::after_shown(
            now.state,
            element_id,
        ).unchanged(),
        Happening::Touched { event, name } => ui::after_ui_event(now.state, event, name),
        Happening::TimerFired { tag } => ui::after_timer(now.state, tag),
        Happening::Received { message, now: time } => ui::after_message(now.state, message, time),
        Happening::Picked { name, bytes } => ui::after_file_picked(now.state, name, bytes),
        _ => answered(now, happening),
    }
}

/// The state once the effects were carried out.
pub open spec fn effects_done(
    state: state::UiModel,
    effects: Seq<state::EffectModel>,
    ids: Seq<u64>,
) -> state::UiModel
    decreases effects.len(),
{
    if effects.len() == 0 {
        state
    } else {
        let before = effects_done(state, effects.drop_last(), ids);
        match effects.last() {
            state::EffectModel::StartTimer { timer, .. } => state::after_timer_started(
                before,
                timer,
                ids[effects.len() - 1],
            ),
            _ => before,
        }
    }
}

/// The situation after one more entry.
pub open spec fn next_situation(now: Situation, entry: Entry) -> Situation {
    let outcome = outcome(now, entry.happening);
    Situation {
        state: effects_done(outcome.state, outcome.effects, entry.ids),
        ask: outcome.ask,
    }
}

/// The situation after a history.
pub open spec fn situation_after(history: Seq<Entry>) -> Situation
    decreases history.len(),
{
    if history.len() == 0 {
        Situation { state: state::initial_model(), ask: state::AskModel::Nothing }
    } else {
        next_situation(situation_after(history.drop_last()), history.last())
    }
}

/// Whether each entry of a history can happen where it does.
pub open spec fn possible(history: Seq<Entry>) -> bool
    decreases history.len(),
{
    history.len() == 0 || (possible(history.drop_last()) && can_happen(
        situation_after(history.drop_last()),
        history.last().happening,
    ))
}

/// The element that the plugin was last shown in, if it was shown.
pub open spec fn last_shown(history: Seq<Entry>) -> Option<Seq<char>>
    decreases history.len(),
{
    if history.len() == 0 {
        None
    } else {
        match history.last().happening {
            Happening::Shown { element_id } => Some(element_id),
            _ => last_shown(history.drop_last()),
        }
    }
}

/// Whether a situation is as it should be: the state is consistent, the question fits it, and
/// unless the plugin is on the way to a transfer, a file is being sent exactly if there is one.
pub open spec fn in_order(now: Situation) -> bool {
    let outcome = now.state.unchanged().asking(now.ask);
    laws::sound(outcome) && laws::settles(outcome)
}

/// Whether the outcome is in order, and a timer for the handshake is started only for a transfer.
#[verifier::opaque]
spec fn leaves_order(outcome: state::Outcome) -> bool {
    &&& laws::sound(outcome)
    &&& laws::settles(outcome)
    &&& laws::starts_handshake_timer(outcome.effects) ==> outcome.state.transfer is Some
}

proof fn lemma_answers_leave_order(now: Situation, happening: Happening)
    requires
        in_order(now),
        can_happen(now, happening),
        !(now.ask is Nothing),
        !(now.ask is PickFile),
    ensures
        leaves_order(answered(now, happening)),
{
    reveal(answered);
    match (now.ask, happening) {
        (state::AskModel::ListDevices { job }, Happening::DevicesListed { devices }) => {
            lemma_send_answers_leave_order(now.state, job, Seq::empty(), devices, None, false);
        },
        (state::AskModel::ListApps { job, device_addr }, Happening::AppsListed { packages }) => {
            lemma_send_answers_leave_order(
                now.state,
                job,
                device_addr,
                Seq::empty(),
                packages,
                false,
            );
        },
        (
            state::AskModel::LaunchApp { job, device_addr, .. },
            Happening::AppLaunched { launched },
        ) => {
            lemma_send_answers_leave_order(
                now.state,
                job,
                device_addr,
                Seq::empty(),
                None,
                launched,
            );
        },
        (state::AskModel::RegisterReceiver { job, device_addr }, Happening::Registered) => {
            lemma_send_answers_leave_order(now.state, job, device_addr, Seq::empty(), None, false);
        },
        (state::AskModel::MeasureChunk { chunk }, Happening::Measured { rate }) => {
            lemma_measured_chunks_leave_order(now.state, chunk, rate);
        },
        (_, Happening::StartSent { sent }) => lemma_sent_leaves_order(now.state, sent),
        (_, Happening::ChunkSent { sent }) => lemma_sent_leaves_order(now.state, sent),
        _ => {},
    }
}

proof fn lemma_send_answers_leave_order(
    state: state::UiModel,
    job: state::SendJobModel,
    device_addr: Seq<char>,
    devices: Seq<Seq<char>>,
    packages: Option<Seq<Seq<char>>>,
    launched: bool,
)
    requires
        laws::consistent(state),
        laws::awaits_device(state, job),
    ensures
        leaves_order(ui::after_devices_listed(state, job, devices)),
        leaves_order(ui::after_apps_listed(state, job, device_addr, packages)),
        leaves_order(ui::after_app_launched(state, job, device_addr, launched)),
        leaves_order(ui::after_receiver_registered(state, job, device_addr)),
{
    reveal(leaves_order);
    laws::law_send_answers_keep_consistent(
        state,
        job,
        device_addr,
        devices,
        packages,
        launched,
    );
    laws::law_send_answers_mind_timers(state, job, device_addr, devices, packages, launched);
}

proof fn lemma_measured_chunks_leave_order(
    state: state::UiModel,
    chunk: state::ChunkJobModel,
    rate: usize,
)
    requires
        laws::consistent(state),
        state.transfer is Some,
        chunk.count < chunk.total,
    ensures
        leaves_order(ui::after_chunk_measured(state, chunk, rate)),
{
    reveal(leaves_order);
    laws::law_transfer_answers_keep_consistent(state, chunk, rate, true);
    laws::law_transfer_answers_mind_timers(state, chunk, rate, true);
}

proof fn lemma_sent_leaves_order(state: state::UiModel, sent: bool)
    requires
        laws::consistent(state),
        state.transfer is Some,
    ensures
        leaves_order(ui::after_start_sent(state, sent)),
        leaves_order(ui::after_chunk_sent(state, sent)),
{
    reveal(leaves_order);
    let chunk = state::ChunkJobModel {
        device_addr: Seq::empty(),
        count: 0,
        total: 1,
        data: Seq::empty(),
        resend: false,
        elapsed: None,
    };
    laws::law_transfer_answers_keep_consistent(state, chunk, 0, sent);
    laws::law_transfer_answers_mind_timers(state, chunk, 0, sent);
}

proof fn lemma_events_leave_order(
    state: state::UiModel,
    event: Event,
    name: Seq<char>,
    element_id: Seq<char>,
)
    requires
        laws::settled(state),
    ensures
        leaves_order(ui::after_ui_event(state, event, name)),
        leaves_order(ui::after_timer(state, name)),
        leaves_order(screen::after_shown(state, element_id).unchanged()),
{
    reveal(leaves_order);
    laws::law_clicks_keep_consistent(state, event, name);
    laws::law_clicks_mind_timers(state, event, name);
    laws::law_timers_keep_consistent(state, name);
    laws::law_timers_mind_timers(state, name);
    laws::law_showing_keeps_consistent(state, element_id);
}

proof fn lemma_messages_leave_order(state: state::UiModel, message: Incoming, now: u128)
    requires
        laws::settled(state),
    ensures
        leaves_order(ui::after_message(state, message, now)),
{
    reveal(leaves_order);
    laws::law_messages_keep_consistent(state, message, now);
    laws::law_messages_mind_timers(state, message, now);
}

proof fn lemma_picked_files_leave_order(state: state::UiModel, name: Seq<char>, bytes: Seq<u8>)
    requires
        laws::settled(state),
        bytes.len() <= usize::MAX,
    ensures
        leaves_order(ui::after_file_picked(state, name, bytes)),
{
    reveal(leaves_order);
    laws::law_picked_file_keeps_consistent(state, name, bytes);
    laws::law_picked_file_minds_timers(state, name, bytes);
}

proof fn lemma_outcomes_leave_order(now: Situation, happening: Happening)
    requires
        in_order(now),
        can_happen(now, happening),
    ensures
        leaves_order(outcome(now, happening)),
{
    reveal(outcome);
    match happening {
        Happening::Shown { element_id } => {
            lemma_events_leave_order(now.state, Event::Other, Seq::empty(), element_id);
        },
        Happening::Touched { event, name } => {
            lemma_events_leave_order(now.state, event, name, Seq::empty());
        },
        Happening::TimerFired { tag } => {
            lemma_events_leave_order(now.state, Event::Other, tag, Seq::empty());
        },
        Happening::Received { message, now: time } => {
            lemma_messages_leave_order(now.state, message, time);
        },
        Happening::Picked { name, bytes } => {
            lemma_picked_files_leave_order(now.state, name, bytes);
        },
        _ => {
            lemma_answers_leave_order(now, happening);
        },
    }
}

/// The effects change nothing but which timers are running.
proof fn lemma_effects_only_start_timers(
    state: state::UiModel,
    effects: Seq<state::EffectModel>,
    ids: Seq<u64>,
)
    ensures
        ({
            let after = effects_done(state, effects, ids);
            &&& after == state::UiModel {
                hide_message_timer_id: after.hide_message_timer_id,
                handshake_timer_id: after.handshake_timer_id,
                ..state
            }
            &&& after.handshake_timer_id == state.handshake_timer_id
                || laws::starts_handshake_timer(effects)
        }),
    decreases effects.len(),
{
    if effects.len() > 0 {
        let before = effects.drop_last();
        lemma_effects_only_start_timers(state, before, ids);
        if laws::starts_handshake_timer(before) {
            let i = choose|i: int|
                0 <= i < before.len() && (#[trigger] before[i] matches state::EffectModel::StartTimer {
                    timer,
                    ..
                } && timer != state::TimerKind::HideMessage);
            assert(effects[i] == before[i]);
        }
        assert(effects[effects.len() - 1] == effects.last());
    }
}

/// After any history the state is consistent, the question that is open fits it, and unless the
/// plugin is on the way to a transfer, a file is being sent exactly if there is a transfer.
pub proof fn law_always_in_order(history: Seq<Entry>)
    requires
        possible(history),
    ensures
        in_order(situation_after(history)),
    decreases history.len(),
{
    if history.len() == 0 {
        laws::law_initially_consistent();
    } else {
        let before = situation_after(history.drop_last());
        let entry = history.last();
        law_always_in_order(history.drop_last());
        lemma_outcomes_leave_order(before, entry.happening);
        lemma_effects_leave_order(outcome(before, entry.happening), entry.ids);
    }
}

proof fn lemma_effects_leave_order(outcome: state::Outcome, ids: Seq<u64>)
    requires
        leaves_order(outcome),
    ensures
        in_order(
            Situation {
                state: effects_done(outcome.state, outcome.effects, ids),
                ask: outcome.ask,
            },
        ),
{
    reveal(leaves_order);
    lemma_effects_only_start_timers(outcome.state, outcome.effects, ids);
}

proof fn lemma_messages_keep_root(state: state::UiModel, message: Incoming, now: u128)
    ensures
        ui::after_message(state, message, now).state.root_element_id == state.root_element_id,
{
}

proof fn lemma_answers_keep_root(now: Situation, happening: Happening)
    ensures
        answered(now, happening).state.root_element_id == now.state.root_element_id,
{
    reveal(answered);
}

/// The plugin is shown in the element that it was last shown in, whatever has happened since, and
/// nowhere if it never was. What is shown there is the screen of the state.
pub proof fn law_shown_where_last_asked(history: Seq<Entry>)
    ensures
        situation_after(history).state.root_element_id == last_shown(history),
        screen::shown(situation_after(history).state) == match last_shown(history) {
            Some(root) => Some((root, screen::main_element(situation_after(history).state))),
            None => None,
        },
    decreases history.len(),
{
    if history.len() > 0 {
        let before = situation_after(history.drop_last());
        let entry = history.last();
        let outcome = outcome(before, entry.happening);
        law_shown_where_last_asked(history.drop_last());
        lemma_outcomes_keep_root(before, entry.happening);
        lemma_effects_only_start_timers(outcome.state, outcome.effects, entry.ids);
    }
}

proof fn lemma_outcomes_keep_root(now: Situation, happening: Happening)
    ensures
        outcome(now, happening).state.root_element_id == match happening {
            Happening::Shown { element_id } => Some(element_id),
            _ => now.state.root_element_id,
        },
{
    reveal(outcome);
    match happening {
        Happening::Received { message, now: time } => {
            lemma_messages_keep_root(now.state, message, time);
        },
        _ => {
            lemma_answers_keep_root(now, happening);
        },
    }
}

} // verus!
