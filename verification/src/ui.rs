//! What the plugin does when something happens.
//!
//! Each handler has a counterpart among the specifications, which says what comes of it as an
//! [`Outcome`](crate::state::Outcome).

use crate::element::Event;
use crate::json;
use crate::message;
use crate::message::{FileMessage, Incoming, Outgoing};
use crate::rounding;
use crate::state;
use crate::state::{
    Ask, ChunkJob, Effect, Progress, SendJob, StatusTone, Step, TimerKind, UiState,
};
use crate::state::{
    clear_handshake_timer, clear_transfer_state, emit, end_transfer, finish_transfer,
    schedule_handshake_timeout, send_handshake_message, send_interconnect_message, set_status_message,
};
use crate::state::{PACKAGE_NAME, START_HANDSHAKE_DELAY_MS};
use crate::text;
use crate::transfer;
use crate::transfer::{FILE_CHUNK_BYTES, build_transfer_state};
use crate::units;
use vstd::prelude::*;
use vstd::utf8::*;

verus! {

/// The name under which a click on the button that picks a file is reported.
pub const EVENT_PICK_FILE: &'static str = "pick_file";

/// The name under which a click on the button that sends the file is reported.
pub const EVENT_SEND_FILE: &'static str = "send_file";

/// The name under which a click on the button that cancels the transfer is reported.
pub const EVENT_CANCEL_SEND: &'static str = "cancel_send";

/// The storage that may be in use on a device that receives a file, in bytes.
pub const MAX_DEVICE_USAGE: u64 = 25 * 1024 * 1024;

// Picking a file

/// The user has picked a file. It has to be a text, and none may be on its way.
pub open spec fn after_file_picked(
    state: state::UiModel,
    name: Seq<char>,
    bytes: Seq<u8>,
) -> state::Outcome {
    if !valid_utf8(bytes) {
        let told = state.unchanged().status(
            "文件不是 UTF-8 文本，无法发送"@,
            StatusTone::Error,
            true,
        );
        state::Outcome {
            state: state::UiModel {
                file_name: None,
                file_text: None,
                file_size_bytes: 0,
                progress: state::no_progress(),
                speed_text: None,
                ..told.state
            },
            ..told
        }.rendered()
    } else if state.is_sending {
        state.unchanged().status(
            "正在发送中，无法更换文件"@,
            StatusTone::Error,
            true,
        ).rendered()
    } else {
        state::UiModel {
            file_size_bytes: bytes.len() as usize,
            file_name: Some(name),
            file_text: Some(decode_utf8(bytes)),
            status_message: None,
            status_tone: StatusTone::Neutral,
            ..state
        }.unchanged().finished(true).rendered()
    }
}

/// Lets the user pick a file.
pub fn handle_pick_file() -> (step: Step)
    ensures
        state::effects_of(step.effects@) == Seq::<state::EffectModel>::empty(),
        step.ask@ == state::AskModel::PickFile,
{
    let effects: Vec<Effect> = Vec::new();
    assert(state::effects_of(effects@) =~= Seq::empty());
    Step { effects, ask: Ask::PickFile }
}

/// Takes the file that the user has picked.
pub fn file_picked(state: &mut UiState, name: String, bytes: Vec<u8>) -> (step: Step)
    ensures
        state::outcome_of(*final(state), step) == after_file_picked(old(state)@, name@, bytes@),
{
    let mut effects: Vec<Effect> = Vec::new();
    assert(state::effects_of(effects@) =~= Seq::empty());
    let size: usize = bytes.len();
    match text::text_from_utf8(bytes) {
        None => {
            set_status_message(
                state,
                &mut effects,
                "文件不是 UTF-8 文本，无法发送",
                StatusTone::Error,
                true,
            );
            state.file_name = None;
            state.file_text = None;
            state.file_size_bytes = 0;
            state.progress = Progress { done: 0, total: 1 };
            state.speed_text = None;
        },
        Some(text) => {
            if state.is_sending {
                set_status_message(
                    state,
                    &mut effects,
                    "正在发送中，无法更换文件",
                    StatusTone::Error,
                    true,
                );
            } else {
                state.file_size_bytes = size;
                state.file_name = Some(name);
                state.file_text = Some(text);
                state.status_message = None;
                state.status_tone = StatusTone::Neutral;
                clear_transfer_state(state, &mut effects, true);
            }
        },
    }
    emit(&mut effects, Effect::Render);
    Step { effects, ask: Ask::Nothing }
}

// Sending the file

/// The user wants the file sent.
pub open spec fn after_send_requested(state: state::UiModel) -> state::Outcome {
    if state.is_sending {
        state.unchanged()
    } else {
        match (state.file_name, state.file_text) {
            (Some(file_name), Some(text)) => state::UiModel {
                is_sending: true,
                progress: state::no_progress(),
                speed_text: None,
                ..state
            }.unchanged().status(
                "准备发送中..."@,
                StatusTone::Neutral,
                false,
            ).rendered().asking(
                state::AskModel::ListDevices {
                    job: state::SendJobModel {
                        file_name,
                        text,
                        file_size: state.file_size_bytes,
                    },
                },
            ),
            _ => state.unchanged().status("请先选择文件"@, StatusTone::Error, true).rendered(),
        }
    }
}

/// The connected devices are known. The first of them receives the file.
pub open spec fn after_devices_listed(
    state: state::UiModel,
    job: state::SendJobModel,
    devices: Seq<Seq<char>>,
) -> state::Outcome {
    if devices.len() > 0 {
        state.unchanged().asking(state::AskModel::ListApps { job, device_addr: devices[0] })
    } else {
        state.unchanged().failed("未找到设备"@)
    }
}

/// The number of the first app in a list of package names that is the one that receives files.
pub open spec fn app_index(packages: Seq<Seq<char>>) -> Option<int>
    decreases packages.len(),
{
    if packages.len() == 0 {
        None
    } else if packages[0] == PACKAGE_NAME@ {
        Some(0)
    } else {
        match app_index(packages.drop_first()) {
            Some(index) => Some(index + 1),
            None => None,
        }
    }
}

/// The apps on the device are known, if it has said.
pub open spec fn after_apps_listed(
    state: state::UiModel,
    job: state::SendJobModel,
    device_addr: Seq<char>,
    packages: Option<Seq<Seq<char>>>,
) -> state::Outcome {
    match packages {
        Some(packages) => match app_index(packages) {
            Some(index) => state.unchanged().asking(
                state::AskModel::LaunchApp { job, device_addr, app: index as usize },
            ),
            None => state.unchanged().failed("请先在手环/手表安装 Hyper Box"@),
        },
        None => state.unchanged().failed("获取应用列表失败"@),
    }
}

/// The app on the device was opened, or not.
pub open spec fn after_app_launched(
    state: state::UiModel,
    job: state::SendJobModel,
    device_addr: Seq<char>,
    launched: bool,
) -> state::Outcome {
    if launched {
        state.unchanged().asking(state::AskModel::RegisterReceiver { job, device_addr })
    } else {
        state.unchanged().failed("启动应用失败"@)
    }
}

/// Messages from the device will be delivered. The handshake begins after a while.
pub open spec fn after_receiver_registered(
    state: state::UiModel,
    job: state::SendJobModel,
    device_addr: Seq<char>,
) -> state::Outcome {
    if job.file_size == 0 || job.text.len() == 0 {
        state.unchanged().failed("文件为空"@)
    } else {
        state::UiModel {
            transfer: Some(
                transfer::transfer_of(
                    device_addr,
                    job.file_name,
                    job.text,
                    job.file_size as int,
                ),
            ),
            ..state
        }.unchanged().effect(
            state::EffectModel::StartTimer {
                timer: TimerKind::StartHandshake,
                delay_ms: START_HANDSHAKE_DELAY_MS,
            },
        ).rendered()
    }
}

/// Begins to send the file that the user has picked.
pub fn handle_send_file(state: &mut UiState) -> (step: Step)
    ensures
        state::outcome_of(*final(state), step) == after_send_requested(old(state)@),
{
    let mut effects: Vec<Effect> = Vec::new();
    assert(state::effects_of(effects@) =~= Seq::empty());
    if state.is_sending {
        return Step { effects, ask: Ask::Nothing };
    }
    let job = match (&state.file_name, &state.file_text) {
        (Some(file_name), Some(text)) => SendJob {
            file_name: file_name.clone(),
            text: text.clone(),
            file_size: state.file_size_bytes,
        },
        _ => {
            set_status_message(
                state,
                &mut effects,
                "请先选择文件",
                StatusTone::Error,
                true,
            );
            emit(&mut effects, Effect::Render);
            return Step { effects, ask: Ask::Nothing };
        },
    };
    state.is_sending = true;
    state.progress = Progress { done: 0, total: 1 };
    state.speed_text = None;
    set_status_message(state, &mut effects, "准备发送中...", StatusTone::Neutral, false);
    emit(&mut effects, Effect::Render);
    Step { effects, ask: Ask::ListDevices { job } }
}

/// The address of the first device, or what to tell the user if there is none.
pub fn get_device_addr(devices: &Vec<String>) -> (result: Result<String, String>)
    ensures
        match result {
            Ok(addr) => devices@.len() > 0 && addr@ == devices@[0]@,
            Err(message) => devices@.len() == 0 && message@ == "未找到设备"@,
        },
{
    if devices.len() > 0 {
        Ok(devices[0].clone())
    } else {
        Err("未找到设备".to_string())
    }
}

/// The texts in a list.
pub open spec fn texts_of(texts: Seq<String>) -> Seq<Seq<char>> {
    texts.map_values(|text: String| text@)
}

/// The texts in a list that may be missing.
pub open spec fn optional_texts_of(texts: Option<Vec<String>>) -> Option<Seq<Seq<char>>> {
    match texts {
        Some(texts) => Some(texts_of(texts@)),
        None => None,
    }
}

/// The number of the app that receives files, or what to tell the user if it is not there or the
/// device has not said.
pub fn get_app_info(packages: &Option<Vec<String>>) -> (result: Result<usize, String>)
    ensures
        match result {
            Ok(index) => optional_texts_of(*packages) is Some && app_index(
                optional_texts_of(*packages).unwrap(),
            ) == Some(index as int),
            Err(message) => match optional_texts_of(*packages) {
                Some(packages) => app_index(packages) is None && message@
                    == "请先在手环/手表安装 Hyper Box"@,
                None => message@ == "获取应用列表失败"@,
            },
        },
{
    let list = match packages {
        Some(list) => list,
        None => return Err("获取应用列表失败".to_string()),
    };
    let ghost names = texts_of(list@);
    let mut i: usize = 0;
    assert(names.skip(0) =~= names);
    while i < list.len()
        invariant
            i <= list@.len(),
            names == texts_of(list@),
            optional_texts_of(*packages) == Some(names),
            app_index(names) == (match app_index(names.skip(i as int)) {
                Some(index) => Some(index + i),
                None => None,
            }),
        decreases list.len() - i,
    {
        assert(names.skip(i as int)[0] == list@[i as int]@);
        if text::same_text(list[i].as_str(), PACKAGE_NAME) {
            return Ok(i);
        }
        assert(names.skip(i as int).drop_first() =~= names.skip(i + 1));
        i += 1;
    }
    assert(names.skip(i as int).len() == 0);
    Err("请先在手环/手表安装 Hyper Box".to_string())
}

/// Goes on to send a file once the connected devices are known.
pub fn devices_listed(state: &mut UiState, job: SendJob, devices: Vec<String>) -> (step: Step)
    ensures
        state::outcome_of(*final(state), step) == after_devices_listed(
            old(state)@,
            job@,
            texts_of(devices@),
        ),
{
    let mut effects: Vec<Effect> = Vec::new();
    assert(state::effects_of(effects@) =~= Seq::empty());
    match get_device_addr(&devices) {
        Ok(device_addr) => Step { effects, ask: Ask::ListApps { job, device_addr } },
        Err(message) => {
            end_transfer(state, &mut effects, message.as_str(), StatusTone::Error);
            Step { effects, ask: Ask::Nothing }
        },
    }
}

/// Goes on to send a file once the device has said which apps it has, or failed to.
pub fn apps_listed(
    state: &mut UiState,
    job: SendJob,
    device_addr: String,
    packages: Option<Vec<String>>,
) -> (step: Step)
    ensures
        state::outcome_of(*final(state), step) == after_apps_listed(
            old(state)@,
            job@,
            device_addr@,
            optional_texts_of(packages),
        ),
{
    let mut effects: Vec<Effect> = Vec::new();
    assert(state::effects_of(effects@) =~= Seq::empty());
    match get_app_info(&packages) {
        Ok(app) => Step { effects, ask: Ask::LaunchApp { job, device_addr, app } },
        Err(message) => {
            end_transfer(state, &mut effects, message.as_str(), StatusTone::Error);
            Step { effects, ask: Ask::Nothing }
        },
    }
}

/// Goes on to send a file once the app on the device was opened, or could not be.
pub fn app_launched(
    state: &mut UiState,
    job: SendJob,
    device_addr: String,
    launched: bool,
) -> (step: Step)
    ensures
        state::outcome_of(*final(state), step) == after_app_launched(
            old(state)@,
            job@,
            device_addr@,
            launched,
        ),
{
    let mut effects: Vec<Effect> = Vec::new();
    assert(state::effects_of(effects@) =~= Seq::empty());
    if launched {
        Step { effects, ask: Ask::RegisterReceiver { job, device_addr } }
    } else {
        end_transfer(state, &mut effects, "启动应用失败", StatusTone::Error);
        Step { effects, ask: Ask::Nothing }
    }
}

/// Goes on to send a file once messages from the device are delivered.
pub fn receiver_registered(state: &mut UiState, job: SendJob, device_addr: String) -> (step: Step)
    ensures
        state::outcome_of(*final(state), step) == after_receiver_registered(
            old(state)@,
            job@,
            device_addr@,
        ),
{
    let mut effects: Vec<Effect> = Vec::new();
    assert(state::effects_of(effects@) =~= Seq::empty());
    match build_transfer_state(device_addr, job.file_name, job.text, job.file_size) {
        Ok(transfer) => {
            state.transfer = Some(transfer);
            emit(
                &mut effects,
                Effect::StartTimer {
                    timer: TimerKind::StartHandshake,
                    delay_ms: START_HANDSHAKE_DELAY_MS,
                },
            );
            emit(&mut effects, Effect::Render);
        },
        Err(message) => {
            end_transfer(state, &mut effects, message.as_str(), StatusTone::Error);
        },
    }
    Step { effects, ask: Ask::Nothing }
}

// Giving up

/// The user wants the transfer given up.
pub open spec fn after_cancel_requested(state: state::UiModel) -> state::Outcome {
    if !state.is_sending {
        state.unchanged()
    } else {
        let told = match state.transfer {
            Some(transfer) => state.unchanged().sent(
                transfer.device_addr,
                message::OutgoingModel::Cancel,
            ),
            None => state.unchanged(),
        };
        told.ended("已取消发送"@, StatusTone::Neutral)
    }
}

/// Gives up the transfer, and tells the device if there is one.
pub fn handle_cancel_send(state: &mut UiState) -> (step: Step)
    ensures
        state::outcome_of(*final(state), step) == after_cancel_requested(old(state)@),
        old(state).is_sending && old(state)@.transfer is Some ==> {
            &&& step.effects@.len() > 0
            &&& step.effects@[0] matches Effect::Send { device_addr, payload }
            &&& device_addr@ == old(state)@.transfer.unwrap().device_addr
            &&& json::parsed(payload@) matches Some(document)
            &&& document.member("tag"@) == Some(json::Json::Text("file"@))
            &&& document.member("stat"@) == Some(json::Json::Text("cancel"@))
        },
{
    let mut effects: Vec<Effect> = Vec::new();
    assert(state::effects_of(effects@) =~= Seq::empty());
    if state.is_sending {
        if let Some(transfer) = &state.transfer {
            proof {
                message::lemma_names_differ();
            }
            send_interconnect_message(
                &mut effects,
                transfer.device_addr.as_str(),
                &Outgoing::Cancel,
            );
        }
        end_transfer(state, &mut effects, "已取消发送", StatusTone::Neutral);
    }
    proof {
        if old(state).is_sending && old(state)@.transfer is Some {
            let document = message::outgoing_json(message::OutgoingModel::Cancel);
            assert(json::parsed(message::encoded(message::OutgoingModel::Cancel)) == Some(
                document,
            ));
            assert(document.member("tag"@) == Some(json::Json::Text("file"@)));
            assert(document.member("stat"@) == Some(json::Json::Text("cancel"@)));
            assert(effects@.len() == state::effects_of(effects@).len());
            assert(effects@[0]@ == state::effects_of(effects@)[0]);
            assert(state::effects_of(effects@)[0] == (state::EffectModel::Send {
                device_addr: old(state)@.transfer.unwrap().device_addr,
                payload: message::encoded(message::OutgoingModel::Cancel),
            }));
        }
    }
    Step { effects, ask: Ask::Nothing }
}

// Clicks

/// The user has done something to an element that reports it under a name.
pub open spec fn after_ui_event(
    state: state::UiModel,
    event: Event,
    name: Seq<char>,
) -> state::Outcome {
    match event {
        Event::Click => if name == EVENT_PICK_FILE@ {
            state.unchanged().asking(state::AskModel::PickFile)
        } else if name == EVENT_SEND_FILE@ {
            after_send_requested(state)
        } else if name == EVENT_CANCEL_SEND@ {
            after_cancel_requested(state)
        } else {
            state.unchanged()
        },
        Event::Other => state.unchanged(),
    }
}

/// Handles what the user does to an element.
pub fn ui_event_processor(state: &mut UiState, evtype: Event, event: &str) -> (step: Step)
    ensures
        state::outcome_of(*final(state), step) == after_ui_event(old(state)@, evtype, event@),
{
    match evtype {
        Event::Click => {
            if text::same_text(event, EVENT_PICK_FILE) {
                return handle_pick_file();
            }
            if text::same_text(event, EVENT_SEND_FILE) {
                return handle_send_file(state);
            }
            if text::same_text(event, EVENT_CANCEL_SEND) {
                return handle_cancel_send(state);
            }
        },
        Event::Other => {},
    }
    let effects: Vec<Effect> = Vec::new();
    assert(state::effects_of(effects@) =~= Seq::empty());
    Step { effects, ask: Ask::Nothing }
}

// Timers

/// A timer has fired with a payload.
pub open spec fn after_timer(state: state::UiModel, tag: Seq<char>) -> state::Outcome {
    if tag == TimerKind::HideMessage.tag_text() {
        let hidden = state::UiModel {
            status_message: None,
            status_tone: StatusTone::Neutral,
            hide_message_timer_id: None,
            ..state
        };
        if state.root_element_id is Some {
            hidden.unchanged().rendered()
        } else {
            hidden.unchanged()
        }
    } else if tag == TimerKind::StartHandshake.tag_text() {
        let fired = state::UiModel { handshake_timer_id: None, ..state };
        match state.transfer {
            Some(transfer) => fired.unchanged().handshake_timeout_scheduled().sent(
                transfer.device_addr,
                message::OutgoingModel::Handshake { count: 0 },
            ),
            None => fired.unchanged(),
        }
    } else if tag == TimerKind::HandshakeTimeout.tag_text() {
        let fired = state::UiModel { handshake_timer_id: None, ..state };
        if state.is_sending {
            fired.unchanged().failed("连接超时，请确认手环端应用已打开"@)
        } else {
            fired.unchanged()
        }
    } else {
        state.unchanged()
    }
}

/// Handles the timer that fires with the payload `tag`.
pub fn handle_timer(state: &mut UiState, tag: &str) -> (step: Step)
    ensures
        state::outcome_of(*final(state), step) == after_timer(old(state)@, tag@),
{
    let mut effects: Vec<Effect> = Vec::new();
    assert(state::effects_of(effects@) =~= Seq::empty());
    if text::same_text(tag, TimerKind::HideMessage.tag()) {
        state.status_message = None;
        state.status_tone = StatusTone::Neutral;
        state.hide_message_timer_id = None;
        if state.root_element_id.is_some() {
            emit(&mut effects, Effect::Render);
        }
    } else if text::same_text(tag, TimerKind::StartHandshake.tag()) {
        state.handshake_timer_id = None;
        let device_addr = match &state.transfer {
            Some(transfer) => transfer.device_addr.clone(),
            None => return Step { effects, ask: Ask::Nothing },
        };
        schedule_handshake_timeout(state, &mut effects);
        send_handshake_message(&mut effects, device_addr.as_str(), 0);
    } else if text::same_text(tag, TimerKind::HandshakeTimeout.tag()) {
        state.handshake_timer_id = None;
        if state.is_sending {
            end_transfer(
                state,
                &mut effects,
                "连接超时，请确认手环端应用已打开",
                StatusTone::Error,
            );
        }
    }
    Step { effects, ask: Ask::Nothing }
}

/// Handles an event that says that a timer has fired.
pub fn handle_timer_event(state: &mut UiState, event_payload: &str) -> (step: Step)
    ensures
        state::outcome_of(*final(state), step) == after_timer(
            old(state)@,
            message::payload_text(event_payload@),
        ),
{
    let tag = message::extract_payload_text(event_payload);
    handle_timer(state, tag.as_str())
}

// Messages from the device

/// The device is told that the transfer starts, if there is one.
pub open spec fn start_announced(before: state::Outcome) -> state::Outcome {
    match before.state.transfer {
        Some(transfer) => state::Outcome {
            state: state::UiModel {
                transfer: Some(transfer::TransferModel { pending_start: false, ..transfer }),
                ..before.state
            },
            ..before
        }.asking(
            state::AskModel::SendStart {
                device_addr: transfer.device_addr,
                payload: message::encoded(
                    message::OutgoingModel::StartTransfer {
                        file_name: transfer.file_name,
                        total: transfer.total_chunks,
                    },
                ),
            },
        ),
        None => before,
    }
}

/// The device was told that the transfer starts, or could not be.
pub open spec fn after_start_sent(state: state::UiModel, sent: bool) -> state::Outcome {
    if sent {
        state.unchanged()
    } else {
        state.unchanged().failed("发送失败，请重试"@)
    }
}

/// A step of the handshake has come in. From the second step on there is a connection, which is
/// answered up to the third. The first time that there is one, the transfer starts.
pub open spec fn after_handshake(state: state::UiModel, count: usize) -> state::Outcome {
    match state.transfer {
        Some(transfer) => {
            let connected = count > 0 || transfer.handshake_complete;
            let starts = transfer.pending_start && connected;
            let met = state::UiModel {
                transfer: Some(
                    transfer::TransferModel {
                        handshake_complete: connected,
                        pending_start: transfer.pending_start && !connected,
                        ..transfer
                    },
                ),
                ..state
            }.unchanged();
            let waited = if count > 0 {
                met.handshake_timer_cleared()
            } else {
                met
            };
            let answered = if count < 2 {
                waited.sent(
                    transfer.device_addr,
                    message::OutgoingModel::Handshake { count: (count + 1) as usize },
                )
            } else {
                waited
            };
            if starts {
                start_announced(
                    answered.status(
                        "已连接，开始传输..."@,
                        StatusTone::Neutral,
                        false,
                    ).rendered(),
                )
            } else {
                answered
            }
        },
        None => state.unchanged(),
    }
}

/// The time between two moments, if any has passed.
pub open spec fn time_between(before: Option<u128>, now: u128) -> Option<u128> {
    match before {
        Some(before) => if before < now {
            Some((now - before) as u128)
        } else {
            None
        },
        None => None,
    }
}

/// Chunk `index` is wanted. The one behind the last is empty, and there are no others.
pub open spec fn after_chunk_wanted(
    state: state::UiModel,
    index: usize,
    resend: bool,
    now: u128,
) -> state::Outcome {
    match state.transfer {
        Some(transfer) => if index == transfer.total_chunks {
            state.unchanged().sent(
                transfer.device_addr,
                message::OutgoingModel::Chunk { count: index, data: ""@, resend: false },
            )
        } else if index > transfer.total_chunks {
            state.unchanged()
        } else {
            match transfer.chunk(index as int) {
                Some(data) => state::UiModel {
                    transfer: Some(
                        transfer::TransferModel {
                            current_chunk: index,
                            last_chunk_time: Some(now),
                            ..transfer
                        },
                    ),
                    ..state
                }.unchanged().asking(
                    state::AskModel::MeasureChunk {
                        chunk: state::ChunkJobModel {
                            device_addr: transfer.device_addr,
                            count: index,
                            total: transfer.total_chunks,
                            data,
                            resend,
                            elapsed: time_between(transfer.last_chunk_time, now),
                        },
                    },
                ),
                None => state.unchanged().failed("分块失败"@),
            }
        },
        None => state.unchanged(),
    }
}

/// The speed of the transfer is known. The chunk is sent, and the share that was sent before it
/// is shown.
pub open spec fn after_chunk_measured(
    state: state::UiModel,
    chunk: state::ChunkJobModel,
    rate: usize,
) -> state::Outcome {
    state::UiModel {
        progress: Progress { done: chunk.count, total: chunk.total },
        speed_text: units::speed_text(chunk.elapsed, rate),
        ..state
    }.unchanged().status(
        "发送中 "@ + units::decimal(rounding::percentage(chunk.count as nat, chunk.total as nat))
            + "%"@,
        StatusTone::Neutral,
        false,
    ).asking(
        state::AskModel::SendChunk {
            device_addr: chunk.device_addr,
            payload: message::encoded(
                message::OutgoingModel::Chunk {
                    count: chunk.count,
                    data: chunk.data,
                    resend: chunk.resend,
                },
            ),
        },
    )
}

/// A chunk was sent, or could not be.
pub open spec fn after_chunk_sent(state: state::UiModel, sent: bool) -> state::Outcome {
    if sent {
        state.unchanged().rendered()
    } else {
        state.unchanged().failed("发送失败，请重试"@)
    }
}

/// The device has said something about the file.
pub open spec fn after_file_message(
    state: state::UiModel,
    message: FileMessage,
    now: u128,
) -> state::Outcome {
    match message {
        FileMessage::Ready { usage, found, length } => if usage > MAX_DEVICE_USAGE {
            state.unchanged().failed("手环端存储空间不足"@)
        } else if found && length > 0 {
            after_chunk_wanted(state, (length as usize) / FILE_CHUNK_BYTES, true, now)
        } else {
            after_chunk_wanted(state, 0, false, now)
        },
        FileMessage::Error { count } => after_chunk_wanted(state, count as usize, true, now),
        FileMessage::Next { count } => after_chunk_wanted(state, count as usize, false, now),
        FileMessage::Success => state::UiModel {
            progress: state::full_progress(),
            ..state
        }.unchanged().status("发送成功"@, StatusTone::Success, true).finished(
            false,
        ).rendered(),
        FileMessage::Cancel => state.unchanged().ended("传输已取消"@, StatusTone::Neutral),
        FileMessage::Unknown => state.unchanged(),
    }
}

/// The device has said something.
pub open spec fn after_message(
    state: state::UiModel,
    message: Incoming,
    now: u128,
) -> state::Outcome {
    match message {
        Incoming::Handshake { count } => after_handshake(state, count as usize),
        Incoming::File(message) => after_file_message(state, message, now),
        Incoming::Unknown => state.unchanged(),
    }
}

/// An event with a message from the device has come in. What is not a document is ignored.
pub open spec fn after_interconnect_event(
    state: state::UiModel,
    event_payload: Seq<char>,
    now: u128,
) -> state::Outcome {
    match message::decoded(message::payload_text(event_payload)) {
        Some(message) => after_message(state, message, now),
        None => state.unchanged(),
    }
}

/// Tells the device that the transfer starts.
pub fn send_start_transfer(state: &mut UiState, effects: &mut Vec<Effect>) -> (ask: Ask)
    ensures
        state::outcome_so_far(*final(state), final(effects)@).asking(ask@) == start_announced(
            state::outcome_so_far(*old(state), old(effects)@),
        ),
        match old(state)@.transfer {
            Some(transfer) => {
                let message = message::OutgoingModel::StartTransfer {
                    file_name: transfer.file_name,
                    total: transfer.total_chunks,
                };
                json::parsed(message::encoded(message)) == Some(message::outgoing_json(message))
            },
            None => true,
        },
{
    match &mut state.transfer {
        Some(transfer) => {
            transfer.pending_start = false;
            let message = Outgoing::StartTransfer {
                file_name: transfer.file_name.clone(),
                total: transfer.total_chunks,
            };
            Ask::SendStart {
                device_addr: transfer.device_addr.clone(),
                payload: message::encode_message(&message),
            }
        },
        None => Ask::Nothing,
    }
}

/// Goes on once the device was told that the transfer starts, or could not be.
pub fn start_sent(state: &mut UiState, sent: bool) -> (step: Step)
    ensures
        state::outcome_of(*final(state), step) == after_start_sent(old(state)@, sent),
{
    let mut effects: Vec<Effect> = Vec::new();
    assert(state::effects_of(effects@) =~= Seq::empty());
    if !sent {
        end_transfer(state, &mut effects, "发送失败，请重试", StatusTone::Error);
    }
    Step { effects, ask: Ask::Nothing }
}

/// Handles a step of the handshake.
pub fn handle_handshake_message(state: &mut UiState, count: usize) -> (step: Step)
    ensures
        state::outcome_of(*final(state), step) == after_handshake(old(state)@, count),
        step.ask matches Ask::SendStart { device_addr, payload } ==> {
            &&& old(state)@.transfer matches Some(transfer)
            &&& device_addr@ == transfer.device_addr
            &&& json::parsed(payload@) matches Some(document)
            &&& document.member("tag"@) == Some(json::Json::Text("file"@))
            &&& document.member("stat"@) == Some(json::Json::Text("startTransfer"@))
            &&& document.member("filename"@) == Some(json::Json::Text(transfer.file_name))
            &&& document.member("total"@) == Some(
                json::Json::Unsigned(transfer.total_chunks as u64),
            )
            &&& document.member("chunkSize"@) == Some(json::Json::Unsigned(49152))
        },
{
    let mut effects: Vec<Effect> = Vec::new();
    assert(state::effects_of(effects@) =~= Seq::empty());
    let (device_addr, should_start) = match &mut state.transfer {
        Some(transfer) => {
            if count > 0 {
                transfer.handshake_complete = true;
            }
            let should_start = transfer.pending_start && transfer.handshake_complete;
            if should_start {
                transfer.pending_start = false;
            }
            (transfer.device_addr.clone(), should_start)
        },
        None => return Step { effects, ask: Ask::Nothing },
    };
    if count > 0 {
        clear_handshake_timer(state, &mut effects);
    }
    if count < 2 {
        send_handshake_message(&mut effects, device_addr.as_str(), count + 1);
    }
    let ask = if should_start {
        set_status_message(
            state,
            &mut effects,
            "已连接，开始传输...",
            StatusTone::Neutral,
            false,
        );
        emit(&mut effects, Effect::Render);
        proof {
            message::lemma_names_differ();
        }
        send_start_transfer(state, &mut effects)
    } else {
        Ask::Nothing
    };
    Step { effects, ask }
}

/// Notes that a chunk is sent now, and gives the time since the one before it.
pub fn note_chunk_time(last_time: &mut Option<u128>, now: u128) -> (elapsed: Option<u128>)
    ensures
        elapsed == time_between(*old(last_time), now),
        *final(last_time) == Some(now),
{
    let elapsed: Option<u128> = match *last_time {
        Some(before) => if before < now {
            Some(now - before)
        } else {
            None
        },
        None => None,
    };
    *last_time = Some(now);
    elapsed
}

/// Prepares a chunk to be sent. `now` is the time on the host's clock, in nanoseconds.
pub fn send_next_chunk(
    state: &mut UiState,
    current_chunk: usize,
    is_resend: bool,
    now: u128,
) -> (step: Step)
    ensures
        state::outcome_of(*final(state), step) == after_chunk_wanted(
            old(state)@,
            current_chunk,
            is_resend,
            now,
        ),
{
    let mut effects: Vec<Effect> = Vec::new();
    assert(state::effects_of(effects@) =~= Seq::empty());
    match &mut state.transfer {
        Some(transfer) => {
            if current_chunk == transfer.total_chunks {
                let message = Outgoing::Chunk {
                    count: current_chunk,
                    data: "".to_string(),
                    resend: false,
                };
                send_interconnect_message(
                    &mut effects,
                    transfer.device_addr.as_str(),
                    &message,
                );
                return Step { effects, ask: Ask::Nothing };
            }
            if current_chunk > transfer.total_chunks {
                return Step { effects, ask: Ask::Nothing };
            }
            let data: Option<String> = match transfer.chunk(current_chunk) {
                Some(chunk) => Some(chunk.to_string()),
                None => None,
            };
            if let Some(data) = data {
                transfer.current_chunk = current_chunk;
                let elapsed = note_chunk_time(&mut transfer.last_chunk_time, now);
                let chunk = ChunkJob {
                    device_addr: transfer.device_addr.clone(),
                    count: current_chunk,
                    total: transfer.total_chunks,
                    data,
                    resend: is_resend,
                    elapsed,
                };
                return Step { effects, ask: Ask::MeasureChunk { chunk } };
            }
        },
        None => return Step { effects, ask: Ask::Nothing },
    }
    end_transfer(state, &mut effects, "分块失败", StatusTone::Error);
    Step { effects, ask: Ask::Nothing }
}

/// Sends a chunk once the speed of the transfer, in bytes per second, is known. The speed counts
/// only if time has passed since the chunk before it.
pub fn chunk_measured(state: &mut UiState, chunk: ChunkJob, rate: usize) -> (step: Step)
    ensures
        state::outcome_of(*final(state), step) == after_chunk_measured(
            old(state)@,
            chunk@,
            rate,
        ),
        ({
            let message = message::OutgoingModel::Chunk {
                count: chunk.count,
                data: chunk.data@,
                resend: chunk.resend,
            };
            json::parsed(message::encoded(message)) == Some(message::outgoing_json(message))
        }),
        ({
            &&& step.ask matches Ask::SendChunk { device_addr, payload }
            &&& device_addr@ == chunk.device_addr@
            &&& json::parsed(payload@) matches Some(document)
            &&& document.member("tag"@) == Some(json::Json::Text("file"@))
            &&& document.member("stat"@) == Some(json::Json::Text("d"@))
            &&& document.member("count"@) == Some(json::Json::Unsigned(chunk.count as u64))
            &&& document.member("data"@) == Some(json::Json::Text(chunk.data@))
            &&& document.member("setCount"@) == Some(
                if chunk.resend {
                    json::Json::Unsigned(chunk.count as u64)
                } else {
                    json::Json::Null
                },
            )
        }),
{
    let mut effects: Vec<Effect> = Vec::new();
    assert(state::effects_of(effects@) =~= Seq::empty());
    state.progress = Progress { done: chunk.count, total: chunk.total };
    state.speed_text = units::compute_speed_text(chunk.elapsed, rate);
    let percent_text = units::decimal_text(rounding::find_percentage(chunk.count, chunk.total));
    let mut status = "发送中 ".to_string();
    status.append(percent_text.as_str());
    status.append("%");
    set_status_message(state, &mut effects, status.as_str(), StatusTone::Neutral, false);
    let message = Outgoing::Chunk {
        count: chunk.count,
        data: chunk.data,
        resend: chunk.resend,
    };
    let payload = message::encode_message(&message);
    proof {
        message::lemma_names_differ();
    }
    Step { effects, ask: Ask::SendChunk { device_addr: chunk.device_addr, payload } }
}

/// Goes on once a chunk was sent, or could not be.
pub fn chunk_sent(state: &mut UiState, sent: bool) -> (step: Step)
    ensures
        state::outcome_of(*final(state), step) == after_chunk_sent(old(state)@, sent),
{
    let mut effects: Vec<Effect> = Vec::new();
    assert(state::effects_of(effects@) =~= Seq::empty());
    if sent {
        emit(&mut effects, Effect::Render);
    } else {
        end_transfer(state, &mut effects, "发送失败，请重试", StatusTone::Error);
    }
    Step { effects, ask: Ask::Nothing }
}

/// Handles a message about the file.
pub fn handle_file_message(state: &mut UiState, message: FileMessage, now: u128) -> (step: Step)
    ensures
        state::outcome_of(*final(state), step) == after_file_message(old(state)@, message, now),
{
    let mut effects: Vec<Effect> = Vec::new();
    assert(state::effects_of(effects@) =~= Seq::empty());
    match message {
        FileMessage::Ready { usage, found, length } => {
            if usage > MAX_DEVICE_USAGE {
                end_transfer(
                    state,
                    &mut effects,
                    "手环端存储空间不足",
                    StatusTone::Error,
                );
            } else if found && length > 0 {
                return send_next_chunk(state, (length as usize) / FILE_CHUNK_BYTES, true, now);
            } else {
                return send_next_chunk(state, 0, false, now);
            }
        },
        FileMessage::Error { count } => {
            return send_next_chunk(state, count as usize, true, now);
        },
        FileMessage::Next { count } => {
            return send_next_chunk(state, count as usize, false, now);
        },
        FileMessage::Success => {
            state.progress = Progress { done: 1, total: 1 };
            set_status_message(
                state,
                &mut effects,
                "发送成功",
                StatusTone::Success,
                true,
            );
            finish_transfer(state, &mut effects, false);
            emit(&mut effects, Effect::Render);
        },
        FileMessage::Cancel => {
            end_transfer(state, &mut effects, "传输已取消", StatusTone::Neutral);
        },
        FileMessage::Unknown => {},
    }
    Step { effects, ask: Ask::Nothing }
}

/// Handles a message from the device.
pub fn handle_message(state: &mut UiState, message: Incoming, now: u128) -> (step: Step)
    ensures
        state::outcome_of(*final(state), step) == after_message(old(state)@, message, now),
        step.ask matches Ask::SendStart { device_addr, payload } ==> {
            &&& old(state)@.transfer matches Some(transfer)
            &&& device_addr@ == transfer.device_addr
            &&& json::parsed(payload@) matches Some(document)
            &&& document.member("tag"@) == Some(json::Json::Text("file"@))
            &&& document.member("stat"@) == Some(json::Json::Text("startTransfer"@))
            &&& document.member("filename"@) == Some(json::Json::Text(transfer.file_name))
            &&& document.member("total"@) == Some(
                json::Json::Unsigned(transfer.total_chunks as u64),
            )
            &&& document.member("chunkSize"@) == Some(json::Json::Unsigned(49152))
        },
{
    match message {
        Incoming::Handshake { count } => handle_handshake_message(state, count as usize),
        Incoming::File(message) => handle_file_message(state, message, now),
        Incoming::Unknown => {
            let effects: Vec<Effect> = Vec::new();
            assert(state::effects_of(effects@) =~= Seq::empty());
            Step { effects, ask: Ask::Nothing }
        },
    }
}

/// Handles an event with a message from the device. A plain document that the event carries is the
/// message.
pub fn handle_interconnect_message(state: &mut UiState, event_payload: &str, now: u128) -> (step:
    Step)
    ensures
        state::outcome_of(*final(state), step) == after_interconnect_event(
            old(state)@,
            event_payload@,
            now,
        ),
        match message::carried_document(event_payload@) {
            Some(document) => document.is_plain(json::MAX_LEVELS as nat) ==> state::outcome_of(
                *final(state),
                step,
            ) == after_message(old(state)@, message::incoming_of(document), now),
            None => true,
        },
        step.ask matches Ask::SendStart { device_addr, payload } ==> {
            &&& old(state)@.transfer matches Some(transfer)
            &&& device_addr@ == transfer.device_addr
            &&& json::parsed(payload@) matches Some(document)
            &&& document.member("tag"@) == Some(json::Json::Text("file"@))
            &&& document.member("stat"@) == Some(json::Json::Text("startTransfer"@))
            &&& document.member("filename"@) == Some(json::Json::Text(transfer.file_name))
            &&& document.member("total"@) == Some(
                json::Json::Unsigned(transfer.total_chunks as u64),
            )
            &&& document.member("chunkSize"@) == Some(json::Json::Unsigned(49152))
        },
{
    let payload = message::extract_payload_text(event_payload);
    match message::decode_message(payload.as_str()) {
        Some(message) => handle_message(state, message, now),
        None => {
            let effects: Vec<Effect> = Vec::new();
            assert(state::effects_of(effects@) =~= Seq::empty());
            Step { effects, ask: Ask::Nothing }
        },
    }
}

} // verus!
