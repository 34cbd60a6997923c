//! What each handler does, told by what goes in and what comes out.

use crate::element::Event;
use crate::json;
use crate::message;
use crate::message::{FileMessage, Incoming};
use crate::rounding;
use crate::screen;
use crate::session;
use crate::state;
use crate::state::{Ask, Effect, Progress, Step, StatusTone, TimerKind, UiState};
use crate::transfer;
use crate::transfer::TransferState;
use crate::ui;
use crate::units;
use vstd::prelude::*;
use vstd::utf8::*;

verus! {

// Words

/// The effects that stop a timer, if there is one.
pub open spec fn stopping(id: Option<u64>) -> Seq<state::EffectModel> {
    match id {
        Some(id) => seq![state::EffectModel::ClearTimer { id }],
        None => Seq::empty(),
    }
}

/// The effect that has the status message hidden after three seconds.
pub open spec fn hiding() -> Seq<state::EffectModel> {
    seq![state::EffectModel::StartTimer { timer: TimerKind::HideMessage, delay_ms: 3000 }]
}

/// The effect that brings the screen up to date.
pub open spec fn rendering() -> Seq<state::EffectModel> {
    seq![state::EffectModel::Render]
}

/// The effect that sends a message.
pub open spec fn sending(
    device_addr: Seq<char>,
    message: message::OutgoingModel,
) -> Seq<state::EffectModel> {
    seq![state::EffectModel::Send { device_addr, payload: message::encoded(message) }]
}

/// Whether nothing changes and nothing is wanted.
pub open spec fn nothing_done(before: state::UiModel, outcome: state::Outcome) -> bool {
    &&& outcome.state == before
    &&& outcome.effects.len() == 0
    &&& outcome.ask is Nothing
}

/// Whether nothing changes, and nothing is wanted but the answer to a question.
pub open spec fn only_asked(
    before: state::UiModel,
    outcome: state::Outcome,
    ask: state::AskModel,
) -> bool {
    &&& outcome.state == before
    &&& outcome.effects.len() == 0
    &&& outcome.ask == ask
}

/// Whether the sending is over: nothing is left of it but a status message, which is hidden after a
/// while. Before that, the effects `told` were wanted.
pub open spec fn over(
    before: state::UiModel,
    outcome: state::Outcome,
    told: Seq<state::EffectModel>,
    message: Seq<char>,
    tone: StatusTone,
) -> bool {
    &&& outcome.state == state::UiModel {
        progress: Progress { done: 0, total: 1 },
        speed_text: None,
        status_message: Some(message),
        status_tone: tone,
        is_sending: false,
        transfer: None,
        hide_message_timer_id: None,
        handshake_timer_id: None,
        ..before
    }
    &&& outcome.effects == told + stopping(before.hide_message_timer_id) + hiding() + stopping(
        before.handshake_timer_id,
    ) + rendering()
    &&& outcome.ask is Nothing
}

// The parts that handlers are made of

/// The plugin begins with nothing.
pub proof fn law_begins_with_nothing()
    ensures
        ({
            let state = state::initial_model();
            &&& state.root_element_id is None
            &&& state.file_name is None
            &&& state.file_size_bytes == 0
            &&& state.file_text is None
            &&& state.progress.done == 0 && state.progress.total == 1
            &&& state.speed_text is None
            &&& state.status_message is None
            &&& state.status_tone == StatusTone::Neutral
            &&& !state.is_sending
            &&& state.transfer is None
            &&& state.hide_message_timer_id is None
            &&& state.handshake_timer_id is None
        }),
{
}

/// A status message is set and replaces the one before it, whose timer is stopped. It is hidden
/// after three seconds, or stays.
pub proof fn law_status_is_set(
    before: state::Outcome,
    message: Seq<char>,
    tone: StatusTone,
    auto_hide: bool,
)
    ensures
        before.status(message, tone, auto_hide).state == (state::UiModel {
            status_message: Some(message),
            status_tone: tone,
            hide_message_timer_id: None,
            ..before.state
        }),
        before.status(message, tone, auto_hide).effects == before.effects + stopping(
            before.state.hide_message_timer_id,
        ) + if auto_hide {
            hiding()
        } else {
            Seq::empty()
        },
        before.status(message, tone, auto_hide).ask == before.ask,
{
    let expected = before.effects + stopping(before.state.hide_message_timer_id) + if auto_hide {
        hiding()
    } else {
        Seq::empty()
    };
    assert(before.status(message, tone, auto_hide).effects =~= expected);
}

/// A transfer that is finished leaves nothing behind, but for the progress if that is wanted, and
/// the timer of its handshake is stopped.
pub proof fn law_finishing_leaves_nothing(before: state::Outcome, clear_progress: bool)
    ensures
        ({
            let after = before.finished(clear_progress);
            &&& after.state == state::UiModel {
                progress: if clear_progress {
                    Progress { done: 0, total: 1 }
                } else {
                    before.state.progress
                },
                speed_text: None,
                is_sending: false,
                transfer: None,
                handshake_timer_id: None,
                ..before.state
            }
            &&& after.effects == before.effects + stopping(before.state.handshake_timer_id)
            &&& after.ask == before.ask
        }),
{
    assert(before.finished(clear_progress).effects =~= before.effects + stopping(
        before.state.handshake_timer_id,
    ));
}

/// A sending that ends is over.
pub proof fn law_ending_is_over(before: state::UiModel, message: Seq<char>, tone: StatusTone)
    ensures
        over(before, before.unchanged().ended(message, tone), Seq::empty(), message, tone),
        over(before, before.unchanged().failed(message), Seq::empty(), message, StatusTone::Error),
{
    lemma_ended(before.unchanged(), message, tone);
    lemma_ended(before.unchanged(), message, StatusTone::Error);
}

proof fn lemma_ended(before: state::Outcome, message: Seq<char>, tone: StatusTone)
    requires
        before.ask is Nothing,
    ensures
        over(before.state, before.ended(message, tone), before.effects, message, tone),
        before.failed(message) == before.ended(message, StatusTone::Error),
{
    let after = before.ended(message, tone);
    assert(after.effects =~= before.effects + stopping(before.state.hide_message_timer_id)
        + hiding() + stopping(before.state.handshake_timer_id) + rendering());
}

/// The effects that are added one by one.
pub proof fn law_effects_are_added(
    before: state::Outcome,
    effect: state::EffectModel,
    device_addr: Seq<char>,
    message: message::OutgoingModel,
    ask: state::AskModel,
)
    ensures
        before.effect(effect) == (state::Outcome { effects: before.effects.push(effect), ..before }),
        before.rendered().effects == before.effects + rendering(),
        before.rendered().state == before.state && before.rendered().ask == before.ask,
        before.sent(device_addr, message).effects == before.effects + sending(
            device_addr,
            message,
        ),
        before.sent(device_addr, message).state == before.state,
        before.sent(device_addr, message).ask == before.ask,
        before.asking(ask) == (state::Outcome { ask, ..before }),
{
    assert(before.rendered().effects =~= before.effects + rendering());
    assert(before.sent(device_addr, message).effects =~= before.effects + sending(
        device_addr,
        message,
    ));
}

/// Timers are stopped by the id under which they were started, and the handshake has three seconds
/// to go on.
pub proof fn law_timers_are_stopped(before: state::Outcome)
    ensures
        before.hide_timer_cleared().state == (state::UiModel {
            hide_message_timer_id: None,
            ..before.state
        }),
        before.hide_timer_cleared().effects == before.effects + stopping(
            before.state.hide_message_timer_id,
        ),
        before.hide_timer_cleared().ask == before.ask,
        before.handshake_timer_cleared().state == (state::UiModel {
            handshake_timer_id: None,
            ..before.state
        }),
        before.handshake_timer_cleared().effects == before.effects + stopping(
            before.state.handshake_timer_id,
        ),
        before.handshake_timer_cleared().ask == before.ask,
        before.hide_scheduled().state == before.hide_timer_cleared().state,
        before.hide_scheduled().effects == before.effects + stopping(
            before.state.hide_message_timer_id,
        ) + hiding(),
        before.hide_scheduled().ask == before.ask,
        before.handshake_timeout_scheduled().state == before.handshake_timer_cleared().state,
        before.handshake_timeout_scheduled().effects == before.effects + stopping(
            before.state.handshake_timer_id,
        ) + seq![
            state::EffectModel::StartTimer { timer: TimerKind::HandshakeTimeout, delay_ms: 3000 },
        ],
        before.handshake_timeout_scheduled().ask == before.ask,
{
    assert(before.hide_timer_cleared().effects =~= before.effects + stopping(
        before.state.hide_message_timer_id,
    ));
    assert(before.handshake_timer_cleared().effects =~= before.effects + stopping(
        before.state.handshake_timer_id,
    ));
    assert(before.hide_scheduled().effects =~= before.effects + stopping(
        before.state.hide_message_timer_id,
    ) + hiding());
    assert(before.handshake_timeout_scheduled().effects =~= before.effects + stopping(
        before.state.handshake_timer_id,
    ) + seq![
        state::EffectModel::StartTimer { timer: TimerKind::HandshakeTimeout, delay_ms: 3000 },
    ]);
}

/// The id of a timer is remembered where it is stopped from, and nowhere else.
pub proof fn law_started_timer_is_remembered(state: state::UiModel, id: u64)
    ensures
        state::after_timer_started(state, TimerKind::HideMessage, id) == (state::UiModel {
            hide_message_timer_id: Some(id),
            ..state
        }),
        state::after_timer_started(state, TimerKind::StartHandshake, id) == (state::UiModel {
            handshake_timer_id: Some(id),
            ..state
        }),
        state::after_timer_started(state, TimerKind::HandshakeTimeout, id) == (state::UiModel {
            handshake_timer_id: Some(id),
            ..state
        }),
{
}

/// The plugin is shown where the host asks for it, and nothing else changes.
pub proof fn law_showing_changes_only_the_place(state: state::UiModel, element_id: Seq<char>)
    ensures
        screen::after_shown(state, element_id) == (state::UiModel {
            root_element_id: Some(element_id),
            ..state
        }),
        screen::shown(state) == match state.root_element_id {
            Some(root) => Some((root, screen::main_element(state))),
            None => None,
        },
{
}

/// The payloads that timers fire with.
pub proof fn law_timer_payloads()
    ensures
        TimerKind::HideMessage.tag_text() == "timer_hide_message"@,
        TimerKind::StartHandshake.tag_text() == "timer_start_handshake"@,
        TimerKind::HandshakeTimeout.tag_text() == "timer_handshake_timeout"@,
{
}

// What the contracts speak of

/// The view of the state shows each field.
pub proof fn law_state_is_seen_whole(state: UiState)
    ensures
        match state.root_element_id {
            Some(id) => state@.root_element_id == Some(id@),
            None => state@.root_element_id is None,
        },
        match state.file_name {
            Some(name) => state@.file_name == Some(name@),
            None => state@.file_name is None,
        },
        state@.file_size_bytes == state.file_size_bytes,
        match state.file_text {
            Some(text) => state@.file_text == Some(text@),
            None => state@.file_text is None,
        },
        state@.progress == state.progress,
        match state.speed_text {
            Some(speed) => state@.speed_text == Some(speed@),
            None => state@.speed_text is None,
        },
        match state.status_message {
            Some(message) => state@.status_message == Some(message@),
            None => state@.status_message is None,
        },
        state@.status_tone == state.status_tone,
        state@.is_sending == state.is_sending,
        match state.transfer {
            Some(transfer) => state@.transfer == Some(transfer@),
            None => state@.transfer is None,
        },
        state@.hide_message_timer_id == state.hide_message_timer_id,
        state@.handshake_timer_id == state.handshake_timer_id,
{
}

/// The view of a transfer shows each field.
pub proof fn law_transfer_is_seen_whole(transfer: TransferState)
    ensures
        transfer@.device_addr == transfer.device_addr@,
        transfer@.file_name == transfer.file_name@,
        transfer@.text == transfer.text@,
        transfer@.total_chunks == transfer.total_chunks,
        transfer@.boundaries == transfer.boundaries@,
        transfer@.current_chunk == transfer.current_chunk,
        transfer@.last_chunk_time == transfer.last_chunk_time,
        transfer@.pending_start == transfer.pending_start,
        transfer@.handshake_complete == transfer.handshake_complete,
{
}

/// The view of an outcome shows the state, each effect in its place, and the question.
pub proof fn law_outcome_is_seen_whole(state: UiState, step: Step)
    ensures
        state::outcome_of(state, step).state == state@,
        state::outcome_of(state, step).effects.len() == step.effects@.len(),
        forall|i: int|
            0 <= i < step.effects@.len() ==> #[trigger] state::outcome_of(state, step).effects[i]
                == step.effects@[i]@,
        state::outcome_of(state, step).ask == step.ask@,
        state::outcome_so_far(state, step.effects@).state == state@,
        state::outcome_so_far(state, step.effects@).effects == state::outcome_of(
            state,
            step,
        ).effects,
        state::outcome_so_far(state, step.effects@).ask is Nothing,
        state::effects_of(step.effects@) == state::outcome_of(state, step).effects,
{
}

/// The view of an effect shows what it is and each field.
pub proof fn law_effect_is_seen_whole(effect: Effect)
    ensures
        match effect {
            Effect::ClearTimer { id } => effect@ == (state::EffectModel::ClearTimer { id }),
            Effect::StartTimer { timer, delay_ms } => effect@ == (state::EffectModel::StartTimer {
                timer,
                delay_ms,
            }),
            Effect::Send { device_addr, payload } => effect@ == (state::EffectModel::Send {
                device_addr: device_addr@,
                payload: payload@,
            }),
            Effect::Render => effect@ == state::EffectModel::Render,
        },
{
}

/// Lists of texts are seen text by text, in their order, and a list that is missing is missing.
pub proof fn law_texts_are_seen_whole(texts: Vec<String>, word: &str)
    ensures
        ui::texts_of(texts@).len() == texts@.len(),
        forall|i: int|
            0 <= i < texts@.len() ==> #[trigger] ui::texts_of(texts@)[i] == texts@[i]@,
        ui::optional_texts_of(Some(texts)) == Some(ui::texts_of(texts@)),
        ui::optional_texts_of(None) is None,
        message::chars_of(Some(word)) == Some(word@),
        message::chars_of(None) is None,
{
}

/// The view of what a question carries shows each field.
pub proof fn law_jobs_are_seen_whole(job: state::SendJob, chunk: state::ChunkJob)
    ensures
        job_seen(job, job@),
        chunk@.device_addr == chunk.device_addr@,
        chunk@.count == chunk.count,
        chunk@.total == chunk.total,
        chunk@.data == chunk.data@,
        chunk@.resend == chunk.resend,
        chunk@.elapsed == chunk.elapsed,
{
}

/// Whether a job is seen whole.
pub open spec fn job_seen(job: state::SendJob, model: state::SendJobModel) -> bool {
    &&& model.file_name == job.file_name@
    &&& model.text == job.text@
    &&& model.file_size == job.file_size
}

/// The view of a question shows what it is and each field.
pub proof fn law_question_is_seen_whole(ask: Ask)
    ensures
        match ask {
            Ask::Nothing => ask@ is Nothing,
            Ask::PickFile => ask@ is PickFile,
            Ask::ListDevices { job } => ask@ matches state::AskModel::ListDevices { job: model }
                && job_seen(job, model),
            Ask::ListApps { job, device_addr } => ask@ matches state::AskModel::ListApps {
                job: model,
                device_addr: addr,
            } && job_seen(job, model) && addr == device_addr@,
            Ask::LaunchApp { job, device_addr, app } => ask@ matches state::AskModel::LaunchApp {
                job: model,
                device_addr: addr,
                app: index,
            } && job_seen(job, model) && addr == device_addr@ && index == app,
            Ask::RegisterReceiver {
                job,
                device_addr,
            } => ask@ matches state::AskModel::RegisterReceiver { job: model, device_addr: addr }
                && job_seen(job, model) && addr == device_addr@,
            Ask::SendStart { device_addr, payload } => ask@ == (state::AskModel::SendStart {
                device_addr: device_addr@,
                payload: payload@,
            }),
            Ask::MeasureChunk { chunk } => ask@ matches state::AskModel::MeasureChunk {
                chunk: model,
            } && model.device_addr == chunk.device_addr@ && model.count == chunk.count
                && model.total == chunk.total && model.data == chunk.data@ && model.resend
                == chunk.resend && model.elapsed == chunk.elapsed && model == chunk@,
            Ask::SendChunk { device_addr, payload } => ask@ == (state::AskModel::SendChunk {
                device_addr: device_addr@,
                payload: payload@,
            }),
        },
{
}

// Clicks

/// A click on the button that picks a file has one picked, and does nothing else.
pub proof fn law_pick_click(state: state::UiModel)
    ensures
        only_asked(
            state,
            ui::after_ui_event(state, Event::Click, "pick_file"@),
            state::AskModel::PickFile,
        ),
{
}

/// A click on the button that sends the file does nothing while one is being sent, complains if
/// there is none, and else takes the file as it was picked on its way: it is shown that the file is
/// prepared, nothing of it has been sent, and the devices are asked for.
pub proof fn law_send_click(state: state::UiModel)
    ensures
        ({
            let outcome = ui::after_ui_event(state, Event::Click, "send_file"@);
            if state.is_sending {
                nothing_done(state, outcome)
            } else {
                match (state.file_name, state.file_text) {
                    (Some(name), Some(text)) => {
                        &&& outcome.state == state::UiModel {
                            is_sending: true,
                            progress: Progress { done: 0, total: 1 },
                            speed_text: None,
                            status_message: Some("准备发送中..."@),
                            status_tone: StatusTone::Neutral,
                            hide_message_timer_id: None,
                            ..state
                        }
                        &&& outcome.effects == stopping(state.hide_message_timer_id) + rendering()
                        &&& outcome.ask matches state::AskModel::ListDevices { job }
                        &&& job.file_name == name
                        &&& job.text == text
                        &&& job.file_size == state.file_size_bytes
                    },
                    _ => {
                        &&& outcome.state == state::UiModel {
                            status_message: Some("请先选择文件"@),
                            status_tone: StatusTone::Error,
                            hide_message_timer_id: None,
                            ..state
                        }
                        &&& outcome.effects == stopping(state.hide_message_timer_id) + hiding()
                            + rendering()
                        &&& outcome.ask is Nothing
                    },
                }
            }
        }),
        ui::after_ui_event(state, Event::Click, "send_file"@) == ui::after_send_requested(state),
{
    session::law_buttons_are_told_apart();
    let outcome = ui::after_ui_event(state, Event::Click, "send_file"@);
    if !state.is_sending {
        if state.file_name is Some && state.file_text is Some {
            assert(outcome.effects =~= stopping(state.hide_message_timer_id) + rendering());
        } else {
            assert(outcome.effects =~= stopping(state.hide_message_timer_id) + hiding()
                + rendering());
        }
    }
}

/// A click on the button that cancels does nothing unless a file is being sent. Else the sending is
/// over, and if there is a transfer, started or not, its device is told so, once and before that.
pub proof fn law_cancel_click(state: state::UiModel)
    ensures
        ({
            let outcome = ui::after_ui_event(state, Event::Click, "cancel_send"@);
            let told = match state.transfer {
                Some(transfer) => sending(
                    transfer.device_addr,
                    message::OutgoingModel::Cancel,
                ),
                None => Seq::empty(),
            };
            if state.is_sending {
                &&& over(state, outcome, told, "已取消发送"@, StatusTone::Neutral)
                &&& session::messages_in(outcome.effects) == told
            } else {
                nothing_done(state, outcome)
            }
        }),
        ui::after_ui_event(state, Event::Click, "cancel_send"@) == ui::after_cancel_requested(
            state,
        ),
{
    session::law_buttons_are_told_apart();
    let outcome = ui::after_ui_event(state, Event::Click, "cancel_send"@);
    if state.is_sending {
        let before = match state.transfer {
            Some(transfer) => state.unchanged().sent(
                transfer.device_addr,
                message::OutgoingModel::Cancel,
            ),
            None => state.unchanged(),
        };
        let told = match state.transfer {
            Some(transfer) => sending(transfer.device_addr, message::OutgoingModel::Cancel),
            None => Seq::empty(),
        };
        assert(before.effects =~= told);
        lemma_ended(before, "已取消发送"@, StatusTone::Neutral);
        lemma_cancel_messages(state);
    }
}

proof fn lemma_cancel_messages(state: state::UiModel)
    requires
        state.is_sending,
    ensures
        session::messages_in(ui::after_cancel_requested(state).effects) == match state.transfer {
            Some(transfer) => sending(transfer.device_addr, message::OutgoingModel::Cancel),
            None => Seq::empty(),
        },
{
    broadcast use session::lemma_messages_in_more;

    session::lemma_no_messages_in_nothing();
}

/// What is no click, or a click on something else than the three buttons, does nothing.
pub proof fn law_other_events(state: state::UiModel, event: Event, name: Seq<char>)
    requires
        event is Click ==> name != "pick_file"@ && name != "send_file"@ && name != "cancel_send"@,
    ensures
        nothing_done(state, ui::after_ui_event(state, event, name)),
{
}

// A file that was picked

/// A file that is not a text is forgotten with all that was known of a file, and the user is told.
pub proof fn law_picked_no_text(state: state::UiModel, name: Seq<char>, bytes: Seq<u8>)
    requires
        !valid_utf8(bytes),
    ensures
        ({
            let outcome = ui::after_file_picked(state, name, bytes);
            &&& outcome.state == state::UiModel {
                file_name: None,
                file_text: None,
                file_size_bytes: 0,
                progress: Progress { done: 0, total: 1 },
                speed_text: None,
                status_message: Some("文件不是 UTF-8 文本，无法发送"@),
                status_tone: StatusTone::Error,
                hide_message_timer_id: None,
                ..state
            }
            &&& outcome.effects == stopping(state.hide_message_timer_id) + hiding() + rendering()
            &&& outcome.ask is Nothing
        }),
{
    let outcome = ui::after_file_picked(state, name, bytes);
    assert(outcome.effects =~= stopping(state.hide_message_timer_id) + hiding() + rendering());
}

/// While a file is being sent, another is refused and nothing else changes.
pub proof fn law_picked_while_sending(state: state::UiModel, name: Seq<char>, bytes: Seq<u8>)
    requires
        valid_utf8(bytes),
        state.is_sending,
    ensures
        ({
            let outcome = ui::after_file_picked(state, name, bytes);
            &&& outcome.state == state::UiModel {
                status_message: Some("正在发送中，无法更换文件"@),
                status_tone: StatusTone::Error,
                hide_message_timer_id: None,
                ..state
            }
            &&& outcome.effects == stopping(state.hide_message_timer_id) + hiding() + rendering()
            &&& outcome.ask is Nothing
        }),
{
    let outcome = ui::after_file_picked(state, name, bytes);
    assert(outcome.effects =~= stopping(state.hide_message_timer_id) + hiding() + rendering());
}

/// Else the file is taken byte for byte, under its name and with its size, nothing of it has been
/// sent, and no message is left.
pub proof fn law_picked_text(state: state::UiModel, name: Seq<char>, bytes: Seq<u8>)
    requires
        valid_utf8(bytes),
        bytes.len() <= usize::MAX,
        !state.is_sending,
    ensures
        ({
            let outcome = ui::after_file_picked(state, name, bytes);
            &&& outcome.state.file_text matches Some(text) && encode_utf8(text) == bytes
            &&& outcome.state == state::UiModel {
                file_name: Some(name),
                file_text: outcome.state.file_text,
                file_size_bytes: bytes.len() as usize,
                progress: Progress { done: 0, total: 1 },
                speed_text: None,
                status_message: None,
                status_tone: StatusTone::Neutral,
                is_sending: false,
                transfer: None,
                handshake_timer_id: None,
                ..state
            }
            &&& outcome.effects == stopping(state.handshake_timer_id) + rendering()
            &&& outcome.ask is Nothing
        }),
{
    let outcome = ui::after_file_picked(state, name, bytes);
    decode_utf8_encode_utf8(bytes);
    assert(outcome.effects =~= stopping(state.handshake_timer_id) + rendering());
}

// The way to a transfer

/// The first device that is connected is asked for its apps. Without one the sending is over.
pub proof fn law_devices(
    state: state::UiModel,
    job: state::SendJobModel,
    devices: Seq<Seq<char>>,
)
    ensures
        devices.len() > 0 ==> only_asked(
            state,
            ui::after_devices_listed(state, job, devices),
            state::AskModel::ListApps { job, device_addr: devices[0] },
        ),
        devices.len() == 0 ==> over(
            state,
            ui::after_devices_listed(state, job, devices),
            Seq::empty(),
            "未找到设备"@,
            StatusTone::Error,
        ),
{
    lemma_ended(state.unchanged(), "未找到设备"@, StatusTone::Error);
}

/// The first app of a list with the name of the package is the one that is opened.
pub proof fn law_app_is_opened(
    state: state::UiModel,
    job: state::SendJobModel,
    device_addr: Seq<char>,
    packages: Seq<Seq<char>>,
    index: int,
)
    requires
        0 <= index < packages.len(),
        index <= usize::MAX,
        packages[index] == "com.charlie.hyperbox"@,
        forall|i: int| 0 <= i < index ==> packages[i] != "com.charlie.hyperbox"@,
    ensures
        only_asked(
            state,
            ui::after_apps_listed(state, job, device_addr, Some(packages)),
            state::AskModel::LaunchApp { job, device_addr, app: index as usize },
        ),
        ui::app_index(packages) == Some(index),
{
    lemma_first_app(packages, index);
}

proof fn lemma_first_app(packages: Seq<Seq<char>>, index: int)
    requires
        0 <= index < packages.len(),
        packages[index] == "com.charlie.hyperbox"@,
        forall|i: int| 0 <= i < index ==> packages[i] != "com.charlie.hyperbox"@,
    ensures
        ui::app_index(packages) == Some(index),
    decreases index,
{
    if index > 0 {
        let rest = packages.drop_first();
        assert(packages[0] != "com.charlie.hyperbox"@);
        assert forall|i: int| 0 <= i < index - 1 implies rest[i] != "com.charlie.hyperbox"@ by {
            assert(rest[i] == packages[i + 1]);
        }
        lemma_first_app(rest, index - 1);
    }
}

/// Without such an app, or if the device does not say which it has, the sending is over.
pub proof fn law_app_is_missing(
    state: state::UiModel,
    job: state::SendJobModel,
    device_addr: Seq<char>,
    packages: Seq<Seq<char>>,
)
    ensures
        !packages.contains("com.charlie.hyperbox"@) ==> over(
            state,
            ui::after_apps_listed(state, job, device_addr, Some(packages)),
            Seq::empty(),
            "请先在手环/手表安装 Hyper Box"@,
            StatusTone::Error,
        ) && ui::app_index(packages) is None,
        over(
            state,
            ui::after_apps_listed(state, job, device_addr, None),
            Seq::empty(),
            "获取应用列表失败"@,
            StatusTone::Error,
        ),
{
    if !packages.contains("com.charlie.hyperbox"@) {
        lemma_no_app(packages);
        lemma_ended(
            state.unchanged(),
            "请先在手环/手表安装 Hyper Box"@,
            StatusTone::Error,
        );
    }
    lemma_ended(state.unchanged(), "获取应用列表失败"@, StatusTone::Error);
}

proof fn lemma_no_app(packages: Seq<Seq<char>>)
    requires
        !packages.contains("com.charlie.hyperbox"@),
    ensures
        ui::app_index(packages) is None,
    decreases packages.len(),
{
    if packages.len() > 0 {
        let rest = packages.drop_first();
        assert(packages.contains(packages[0]));
        if rest.contains("com.charlie.hyperbox"@) {
            let i = choose|i: int| 0 <= i < rest.len() && rest[i] == "com.charlie.hyperbox"@;
            assert(packages[i + 1] == rest[i]);
        }
        lemma_no_app(rest);
    }
}

/// Once the app is open, messages of the device are asked for. If it does not open, the sending is
/// over.
pub proof fn law_app_launched(
    state: state::UiModel,
    job: state::SendJobModel,
    device_addr: Seq<char>,
)
    ensures
        only_asked(
            state,
            ui::after_app_launched(state, job, device_addr, true),
            state::AskModel::RegisterReceiver { job, device_addr },
        ),
        over(
            state,
            ui::after_app_launched(state, job, device_addr, false),
            Seq::empty(),
            "启动应用失败"@,
            StatusTone::Error,
        ),
{
    lemma_ended(state.unchanged(), "启动应用失败"@, StatusTone::Error);
}

/// Then there is a transfer of the text to the device, of which nothing has happened yet. It is in
/// as many chunks as chunks of 48 KiB would be needed, and the handshake begins after one and a
/// half seconds. An empty file is not sent.
pub proof fn law_receiver_registered(
    state: state::UiModel,
    job: state::SendJobModel,
    device_addr: Seq<char>,
)
    ensures
        ({
            let outcome = ui::after_receiver_registered(state, job, device_addr);
            if job.file_size == 0 || job.text.len() == 0 {
                over(state, outcome, Seq::empty(), "文件为空"@, StatusTone::Error)
            } else {
                &&& outcome.state.transfer matches Some(transfer)
                &&& transfer.device_addr == device_addr
                &&& transfer.file_name == job.file_name
                &&& transfer.text == job.text
                &&& transfer == transfer::transfer_of(
                    device_addr,
                    job.file_name,
                    job.text,
                    job.file_size as int,
                )
                &&& (transfer.total_chunks - 1) * 49152 < job.file_size
                &&& job.file_size <= transfer.total_chunks * 49152
                &&& transfer.current_chunk == 0
                &&& transfer.last_chunk_time is None
                &&& transfer.pending_start
                &&& !transfer.handshake_complete
                &&& outcome.state == state::UiModel { transfer: Some(transfer), ..state }
                &&& outcome.effects == seq![
                    state::EffectModel::StartTimer {
                        timer: TimerKind::StartHandshake,
                        delay_ms: 1500,
                    },
                    state::EffectModel::Render,
                ]
                &&& outcome.ask is Nothing
            }
        }),
{
    let outcome = ui::after_receiver_registered(state, job, device_addr);
    if job.file_size == 0 || job.text.len() == 0 {
        lemma_ended(state.unchanged(), "文件为空"@, StatusTone::Error);
    } else {
        transfer::law_chunk_count_is_least(
            device_addr,
            job.file_name,
            job.text,
            job.file_size,
        );
        assert(transfer::FILE_CHUNK_BYTES == 49152);
        assert(outcome.effects =~= seq![
            state::EffectModel::StartTimer {
                timer: TimerKind::StartHandshake,
                delay_ms: 1500,
            },
            state::EffectModel::Render,
        ]);
    }
}

// Timers

/// The timer that hides the status message hides it, and the screen shows that if there is one.
pub proof fn law_hide_timer(state: state::UiModel)
    ensures
        ({
            let outcome = ui::after_timer(state, "timer_hide_message"@);
            &&& outcome.state == state::UiModel {
                status_message: None,
                status_tone: StatusTone::Neutral,
                hide_message_timer_id: None,
                ..state
            }
            &&& outcome.effects == if state.root_element_id is Some {
                rendering()
            } else {
                Seq::empty()
            }
            &&& outcome.ask is Nothing
        }),
{
    let outcome = ui::after_timer(state, "timer_hide_message"@);
    assert(state.root_element_id is Some ==> outcome.effects =~= rendering());
}

/// The timer that starts the handshake sends its first step to the device and gives it three seconds
/// to answer. Without a transfer it does nothing.
pub proof fn law_start_timer(state: state::UiModel)
    ensures
        ({
            let outcome = ui::after_timer(state, "timer_start_handshake"@);
            &&& outcome.state == state::UiModel { handshake_timer_id: None, ..state }
            &&& outcome.effects == match state.transfer {
                Some(transfer) => seq![
                    state::EffectModel::StartTimer {
                        timer: TimerKind::HandshakeTimeout,
                        delay_ms: 3000,
                    },
                ] + sending(
                    transfer.device_addr,
                    message::OutgoingModel::Handshake { count: 0 },
                ),
                None => Seq::empty(),
            }
            &&& outcome.ask is Nothing
        }),
{
    session::law_timers_are_told_apart(TimerKind::HideMessage, TimerKind::StartHandshake);
    let outcome = ui::after_timer(state, "timer_start_handshake"@);
    match state.transfer {
        Some(transfer) => {
            assert(outcome.effects =~= seq![
                state::EffectModel::StartTimer {
                    timer: TimerKind::HandshakeTimeout,
                    delay_ms: 3000,
                },
            ] + sending(
                transfer.device_addr,
                message::OutgoingModel::Handshake { count: 0 },
            ));
        },
        None => {},
    }
}

/// The timer for the answer ends the sending, if there is one.
pub proof fn law_timeout_timer(state: state::UiModel)
    ensures
        ({
            let outcome = ui::after_timer(state, "timer_handshake_timeout"@);
            let fired = state::UiModel { handshake_timer_id: None, ..state };
            if state.is_sending {
                over(
                    fired,
                    outcome,
                    Seq::empty(),
                    "连接超时，请确认手环端应用已打开"@,
                    StatusTone::Error,
                )
            } else {
                nothing_done(fired, outcome)
            }
        }),
{
    session::law_timers_are_told_apart(TimerKind::HideMessage, TimerKind::HandshakeTimeout);
    session::law_timers_are_told_apart(TimerKind::StartHandshake, TimerKind::HandshakeTimeout);
    let fired = state::UiModel { handshake_timer_id: None, ..state };
    lemma_ended(
        fired.unchanged(),
        "连接超时，请确认手环端应用已打开"@,
        StatusTone::Error,
    );
}

/// Other timers do nothing.
pub proof fn law_other_timers(state: state::UiModel, tag: Seq<char>)
    requires
        tag != "timer_hide_message"@,
        tag != "timer_start_handshake"@,
        tag != "timer_handshake_timeout"@,
    ensures
        nothing_done(state, ui::after_timer(state, tag)),
{
}

// The handshake

/// Without a transfer a step of the handshake does nothing.
pub proof fn law_handshake_without_transfer(state: state::UiModel, count: usize)
    requires
        state.transfer is None,
    ensures
        nothing_done(state, ui::after_handshake(state, count)),
{
}

/// A step of the handshake but its first connects and stops the timer that waits for it. The first
/// two are answered with the number after theirs. If the transfer has not started, and is connected
/// now or was before, that is shown and its start is announced to its device, under the name of the
/// file and with the number of its chunks.
pub proof fn law_handshake(state: state::UiModel, count: usize)
    requires
        state.transfer is Some,
    ensures
        ({
            let transfer = state.transfer.unwrap();
            let outcome = ui::after_handshake(state, count);
            let starts = transfer.pending_start && (count > 0 || transfer.handshake_complete);
            let waited = if count > 0 {
                stopping(state.handshake_timer_id)
            } else {
                Seq::empty()
            };
            let answered = if count == 0 {
                sending(transfer.device_addr, message::OutgoingModel::Handshake { count: 1 })
            } else if count == 1 {
                sending(transfer.device_addr, message::OutgoingModel::Handshake { count: 2 })
            } else {
                Seq::empty()
            };
            let met = state::UiModel {
                transfer: Some(
                    transfer::TransferModel {
                        handshake_complete: transfer.handshake_complete || count > 0,
                        pending_start: transfer.pending_start && !starts,
                        ..transfer
                    },
                ),
                handshake_timer_id: if count > 0 {
                    None
                } else {
                    state.handshake_timer_id
                },
                ..state
            };
            if starts {
                &&& outcome.state == state::UiModel {
                    status_message: Some("已连接，开始传输..."@),
                    status_tone: StatusTone::Neutral,
                    hide_message_timer_id: None,
                    ..met
                }
                &&& outcome.effects == waited + answered + stopping(state.hide_message_timer_id)
                    + rendering()
                &&& outcome.ask == (state::AskModel::SendStart {
                    device_addr: transfer.device_addr,
                    payload: message::encoded(
                        message::OutgoingModel::StartTransfer {
                            file_name: transfer.file_name,
                            total: transfer.total_chunks,
                        },
                    ),
                })
            } else {
                &&& outcome.state == met
                &&& outcome.effects == waited + answered
                &&& outcome.ask is Nothing
            }
        }),
{
    let transfer = state.transfer.unwrap();
    let outcome = ui::after_handshake(state, count);
    let starts = transfer.pending_start && (count > 0 || transfer.handshake_complete);
    let waited = if count > 0 {
        stopping(state.handshake_timer_id)
    } else {
        Seq::empty()
    };
    let answered = if count == 0 {
        sending(transfer.device_addr, message::OutgoingModel::Handshake { count: 1 })
    } else if count == 1 {
        sending(transfer.device_addr, message::OutgoingModel::Handshake { count: 2 })
    } else {
        Seq::empty()
    };
    if starts {
        assert(outcome.effects =~= waited + answered + stopping(state.hide_message_timer_id)
            + rendering());
    } else {
        assert(outcome.effects =~= waited + answered);
    }
}

/// The start is announced to the device of the transfer, under the name of the file and with the
/// number of its chunks, and is no longer pending. Without a transfer nothing is announced.
pub proof fn law_start_is_announced(before: state::Outcome)
    ensures
        match before.state.transfer {
            Some(transfer) => ui::start_announced(before) == (state::Outcome {
                state: state::UiModel {
                    transfer: Some(
                        transfer::TransferModel { pending_start: false, ..transfer },
                    ),
                    ..before.state
                },
                effects: before.effects,
                ask: state::AskModel::SendStart {
                    device_addr: transfer.device_addr,
                    payload: message::encoded(
                        message::OutgoingModel::StartTransfer {
                            file_name: transfer.file_name,
                            total: transfer.total_chunks,
                        },
                    ),
                },
            }),
            None => ui::start_announced(before) == before,
        },
{
}

/// If the start or a chunk cannot be sent, the sending is over. If it can, nothing changes, and for
/// a chunk the screen is brought up to date.
pub proof fn law_sent_or_not(state: state::UiModel)
    ensures
        nothing_done(state, ui::after_start_sent(state, true)),
        over(
            state,
            ui::after_start_sent(state, false),
            Seq::empty(),
            "发送失败，请重试"@,
            StatusTone::Error,
        ),
        ui::after_chunk_sent(state, true).state == state,
        ui::after_chunk_sent(state, true).effects == rendering(),
        ui::after_chunk_sent(state, true).ask is Nothing,
        over(
            state,
            ui::after_chunk_sent(state, false),
            Seq::empty(),
            "发送失败，请重试"@,
            StatusTone::Error,
        ),
{
    lemma_ended(state.unchanged(), "发送失败，请重试"@, StatusTone::Error);
    assert(ui::after_chunk_sent(state, true).effects =~= rendering());
}

// Chunks

/// The chunk right behind the last is sent empty, and not as a resend. Those further behind, and all
/// without a transfer, are not sent at all.
pub proof fn law_chunk_behind_the_last(
    state: state::UiModel,
    index: usize,
    resend: bool,
    now: u128,
)
    ensures
        ({
            let outcome = ui::after_chunk_wanted(state, index, resend, now);
            match state.transfer {
                Some(transfer) => {
                    &&& index > transfer.total_chunks ==> nothing_done(state, outcome)
                    &&& index == transfer.total_chunks ==> {
                        &&& outcome.state == state
                        &&& outcome.effects == sending(
                            transfer.device_addr,
                            message::OutgoingModel::Chunk {
                                count: index,
                                data: Seq::empty(),
                                resend: false,
                            },
                        )
                        &&& outcome.ask is Nothing
                    }
                },
                None => nothing_done(state, outcome),
            }
        }),
{
    reveal_strlit("");
    assert(""@ =~= Seq::<char>::empty());
    match state.transfer {
        Some(transfer) => {
            if index == transfer.total_chunks {
                assert(ui::after_chunk_wanted(state, index, resend, now).effects =~= sending(
                    transfer.device_addr,
                    message::OutgoingModel::Chunk {
                        count: index,
                        data: Seq::empty(),
                        resend: false,
                    },
                ));
            }
        },
        None => {},
    }
}

/// Another chunk is measured before it is sent: its number, the number of all, its characters, and
/// the time since the one before it. It is noted as the one that was wanted last, and when. If the
/// text cannot be cut where the chunk is, the sending is over.
pub proof fn law_chunk_is_measured(
    state: state::UiModel,
    index: usize,
    resend: bool,
    now: u128,
)
    requires
        state.transfer is Some,
        index < state.transfer.unwrap().total_chunks,
    ensures
        ({
            let transfer = state.transfer.unwrap();
            let outcome = ui::after_chunk_wanted(state, index, resend, now);
            match transfer.chunk(index as int) {
                Some(data) => {
                    &&& outcome.state == state::UiModel {
                        transfer: Some(
                            transfer::TransferModel {
                                current_chunk: index,
                                last_chunk_time: Some(now),
                                ..transfer
                            },
                        ),
                        ..state
                    }
                    &&& outcome.effects.len() == 0
                    &&& outcome.ask matches state::AskModel::MeasureChunk { chunk }
                    &&& chunk.device_addr == transfer.device_addr
                    &&& chunk.count == index
                    &&& chunk.total == transfer.total_chunks
                    &&& chunk.data == data
                    &&& chunk.resend == resend
                    &&& match transfer.last_chunk_time {
                        Some(last) => if last < now {
                            chunk.elapsed matches Some(elapsed) && last + elapsed == now
                        } else {
                            chunk.elapsed is None
                        },
                        None => chunk.elapsed is None,
                    }
                },
                None => over(
                    state,
                    outcome,
                    Seq::empty(),
                    "分块失败"@,
                    StatusTone::Error,
                ),
            }
        }),
{
    lemma_ended(state.unchanged(), "分块失败"@, StatusTone::Error);
}

/// The time between two moments is what has to be added to the earlier one, if it is the earlier
/// one.
pub proof fn law_time_between(before: Option<u128>, now: u128)
    ensures
        match before {
            Some(last) => if last < now {
                ui::time_between(before, now) matches Some(elapsed) && last + elapsed == now
            } else {
                ui::time_between(before, now) is None
            },
            None => ui::time_between(before, now) is None,
        },
{
}

/// A chunk that was measured is sent to its device as it is. What was sent before it is shown: as a
/// share of all chunks, and in words, with the speed if time has passed.
pub proof fn law_measured_chunk_is_sent(
    state: state::UiModel,
    chunk: state::ChunkJobModel,
    rate: usize,
)
    ensures
        ({
            let outcome = ui::after_chunk_measured(state, chunk, rate);
            &&& outcome.state == state::UiModel {
                progress: Progress { done: chunk.count, total: chunk.total },
                speed_text: match chunk.elapsed {
                    Some(_) => Some(units::bytes_text(rate as nat) + "/s"@),
                    None => None,
                },
                status_message: Some(
                    "发送中 "@ + units::decimal(
                        rounding::percentage(chunk.count as nat, chunk.total as nat),
                    ) + "%"@,
                ),
                status_tone: StatusTone::Neutral,
                hide_message_timer_id: None,
                ..state
            }
            &&& outcome.effects == stopping(state.hide_message_timer_id)
            &&& outcome.ask == (state::AskModel::SendChunk {
                device_addr: chunk.device_addr,
                payload: message::encoded(
                    message::OutgoingModel::Chunk {
                        count: chunk.count,
                        data: chunk.data,
                        resend: chunk.resend,
                    },
                ),
            })
        }),
        units::speed_text(chunk.elapsed, rate) == match chunk.elapsed {
            Some(_) => Some(units::bytes_text(rate as nat) + "/s"@),
            None => None,
        },
{
    let outcome = ui::after_chunk_measured(state, chunk, rate);
    assert(outcome.effects =~= stopping(state.hide_message_timer_id));
}

// What the device says about the file

/// A device that uses more than 25 MiB gets nothing: the sending is over, whatever else it says.
pub proof fn law_full_device(
    state: state::UiModel,
    usage: u64,
    found: bool,
    length: u64,
    now: u128,
)
    requires
        usage > 26_214_400,
    ensures
        over(
            state,
            ui::after_file_message(state, FileMessage::Ready { usage, found, length }, now),
            Seq::empty(),
            "手环端存储空间不足"@,
            StatusTone::Error,
        ),
{
    lemma_ended(state.unchanged(), "手环端存储空间不足"@, StatusTone::Error);
}

/// A device that has nothing of the file gets it from the beginning.
pub proof fn law_new_file(
    state: state::UiModel,
    usage: u64,
    found: bool,
    length: u64,
    now: u128,
)
    requires
        usage <= 26_214_400,
        !found || length == 0,
    ensures
        ui::after_file_message(state, FileMessage::Ready { usage, found, length }, now)
            == ui::after_chunk_wanted(state, 0, false, now),
{
}

/// A device that has the first `length` bytes goes back to the chunk, of 48 KiB each, that it has
/// only a part of or nothing of: none of the bytes behind what it has is skipped, and fewer than a
/// chunk are sent again. It is told to go back.
pub proof fn law_resumed_file(
    state: state::UiModel,
    usage: u64,
    length: u64,
    now: u128,
    index: usize,
)
    requires
        usage <= 26_214_400,
        0 < length <= usize::MAX,
        index * 49152 <= length < (index + 1) * 49152,
    ensures
        ui::after_file_message(state, FileMessage::Ready { usage, found: true, length }, now)
            == ui::after_chunk_wanted(state, index, true, now),
        state.transfer is Some && index < state.transfer.unwrap().total_chunks
            && state.transfer.unwrap().chunk(index as int) is Some ==> ({
            let outcome = ui::after_file_message(
                state,
                FileMessage::Ready { usage, found: true, length },
                now,
            );
            &&& outcome.ask matches state::AskModel::MeasureChunk { chunk }
            &&& chunk.count * 49152 <= length
            &&& length < (chunk.count + 1) * 49152
            &&& chunk.resend
            &&& Some(chunk.data) == state.transfer.unwrap().chunk(chunk.count as int)
        }),
{
    assert(transfer::FILE_CHUNK_BYTES == 49152);
    let length = length as usize;
    assert(length / 49152 == index) by (nonlinear_arith)
        requires
            index * 49152 <= length < (index + 1) * 49152,
    ;
}

/// A chunk that the device reports as broken is sent again, and one that it asks for is sent.
pub proof fn law_wanted_by_number(state: state::UiModel, count: u64, now: u128)
    requires
        count <= usize::MAX,
    ensures
        ui::after_file_message(state, FileMessage::Error { count }, now)
            == ui::after_chunk_wanted(state, count as usize, true, now),
        ui::after_file_message(state, FileMessage::Next { count }, now)
            == ui::after_chunk_wanted(state, count as usize, false, now),
{
}

/// Once the device has the file, the sending is over, but all of the file is shown as sent.
pub proof fn law_success(state: state::UiModel, now: u128)
    ensures
        ({
            let outcome = ui::after_file_message(state, FileMessage::Success, now);
            &&& outcome.state == state::UiModel {
                progress: Progress { done: 1, total: 1 },
                speed_text: None,
                status_message: Some("发送成功"@),
                status_tone: StatusTone::Success,
                is_sending: false,
                transfer: None,
                hide_message_timer_id: None,
                handshake_timer_id: None,
                ..state
            }
            &&& outcome.effects == stopping(state.hide_message_timer_id) + hiding() + stopping(
                state.handshake_timer_id,
            ) + rendering()
            &&& outcome.ask is Nothing
        }),
{
    let outcome = ui::after_file_message(state, FileMessage::Success, now);
    assert(outcome.effects =~= stopping(state.hide_message_timer_id) + hiding() + stopping(
        state.handshake_timer_id,
    ) + rendering());
}

/// If the device gives up, the sending is over. What it says else does nothing.
pub proof fn law_device_gives_up(state: state::UiModel, now: u128)
    ensures
        over(
            state,
            ui::after_file_message(state, FileMessage::Cancel, now),
            Seq::empty(),
            "传输已取消"@,
            StatusTone::Neutral,
        ),
        nothing_done(state, ui::after_file_message(state, FileMessage::Unknown, now)),
{
    lemma_ended(state.unchanged(), "传输已取消"@, StatusTone::Neutral);
}

/// Messages are handled by what they are about.
pub proof fn law_messages_are_handed_on(
    state: state::UiModel,
    count: u64,
    message: FileMessage,
    now: u128,
)
    ensures
        count <= usize::MAX ==> ui::after_message(state, Incoming::Handshake { count }, now)
            == ui::after_handshake(state, count as usize),
        ui::after_message(state, Incoming::File(message), now) == ui::after_file_message(
            state,
            message,
            now,
        ),
        nothing_done(state, ui::after_message(state, Incoming::Unknown, now)),
{
}

/// An event brings a text. The message that the text says is handled. A text that is no document
/// does nothing.
pub proof fn law_events_are_handed_on(state: state::UiModel, event: Seq<char>, now: u128)
    ensures
        match json::parsed(message::payload_text(event)) {
            Some(document) => ui::after_interconnect_event(state, event, now) == ui::after_message(
                state,
                message::incoming_of(document),
                now,
            ),
            None => nothing_done(state, ui::after_interconnect_event(state, event, now)),
        },
{
}

} // verus!
