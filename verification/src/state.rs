//! What the plugin remembers, and what it wants done.
//!
//! A handler changes the [`UiState`] and gives back a [`Step`]: effects that the host carries out
//! in order, and then a question whose answer goes to the function that the question names.

use crate::json;
use crate::message::{Outgoing, encode_message};
use crate::message;
use crate::transfer::TransferState;
use crate::transfer;
use vstd::prelude::*;

verus! {

/// The package name of the app on the device, to which all messages go.
pub const PACKAGE_NAME: &'static str = "com.charlie.hyperbox";

/// The page that the app on the device is opened at.
pub const LAUNCH_PAGE: &'static str = "/index";

/// How long a message stays on the screen, in milliseconds.
pub const HIDE_MESSAGE_DELAY_MS: u64 = 3000;

/// How long the app on the device is given to start, in milliseconds.
pub const START_HANDSHAKE_DELAY_MS: u64 = 1500;

/// How long the app on the device is given to answer, in milliseconds.
pub const HANDSHAKE_TIMEOUT_MS: u64 = 3000;

/// What kind of news a status message is.
#[derive(Clone, Copy, Debug, PartialEq, Eq, Structural)]
pub enum StatusTone {
    Neutral,
    Success,
    Error,
}

/// How much of a file has been sent: `done` of `total` parts.
#[derive(Clone, Copy, Debug, PartialEq, Eq, Structural)]
pub struct Progress {
    pub done: usize,
    pub total: usize,
}

/// What a timer is for.
#[derive(Clone, Copy, Debug, PartialEq, Eq, Structural)]
pub enum TimerKind {
    HideMessage,
    StartHandshake,
    HandshakeTimeout,
}

impl TimerKind {
    /// The payload that the timer fires with.
    pub open spec fn tag_text(self) -> Seq<char> {
        match self {
            TimerKind::HideMessage => "timer_hide_message"@,
            TimerKind::StartHandshake => "timer_start_handshake"@,
            TimerKind::HandshakeTimeout => "timer_handshake_timeout"@,
        }
    }

    /// The payload that the timer fires with.
    pub fn tag(self) -> (tag: &'static str)
        ensures
            tag@ == self.tag_text(),
    {
        match self {
            TimerKind::HideMessage => "timer_hide_message",
            TimerKind::StartHandshake => "timer_start_handshake",
            TimerKind::HandshakeTimeout => "timer_handshake_timeout",
        }
    }
}

/// What the plugin remembers.
#[derive(Debug, PartialEq, Eq)]
pub struct UiState {
    /// The element of the host's screen that the plugin is shown in.
    pub root_element_id: Option<String>,
    pub file_name: Option<String>,
    pub file_size_bytes: usize,
    pub file_text: Option<String>,
    pub progress: Progress,
    pub speed_text: Option<String>,
    pub status_message: Option<String>,
    pub status_tone: StatusTone,
    pub is_sending: bool,
    pub transfer: Option<TransferState>,
    /// The timer that will hide the status message.
    pub hide_message_timer_id: Option<u64>,
    /// The timer that the handshake waits for.
    pub handshake_timer_id: Option<u64>,
}

/// What a [`UiState`] stands for.
pub struct UiModel {
    pub root_element_id: Option<Seq<char>>,
    pub file_name: Option<Seq<char>>,
    pub file_size_bytes: usize,
    pub file_text: Option<Seq<char>>,
    pub progress: Progress,
    pub speed_text: Option<Seq<char>>,
    pub status_message: Option<Seq<char>>,
    pub status_tone: StatusTone,
    pub is_sending: bool,
    pub transfer: Option<transfer::TransferModel>,
    pub hide_message_timer_id: Option<u64>,
    pub handshake_timer_id: Option<u64>,
}

/// The characters of a text that may be missing.
pub open spec fn text_of(text: Option<String>) -> Option<Seq<char>> {
    match text {
        Some(text) => Some(text@),
        None => None,
    }
}

impl View for UiState {
    type V = UiModel;

    open spec fn view(&self) -> UiModel {
        UiModel {
            root_element_id: text_of(self.root_element_id),
            file_name: text_of(self.file_name),
            file_size_bytes: self.file_size_bytes,
            file_text: text_of(self.file_text),
            progress: self.progress,
            speed_text: text_of(self.speed_text),
            status_message: text_of(self.status_message),
            status_tone: self.status_tone,
            is_sending: self.is_sending,
            transfer: match self.transfer {
                Some(transfer) => Some(transfer@),
                None => None,
            },
            hide_message_timer_id: self.hide_message_timer_id,
            handshake_timer_id: self.handshake_timer_id,
        }
    }
}

/// Something that the host is to do.
#[derive(Debug, PartialEq, Eq)]
pub enum Effect {
    ClearTimer { id: u64 },
    /// Start a timer and report its id to [`timer_started`] at once.
    StartTimer { timer: TimerKind, delay_ms: u64 },
    /// Send a message to the app on a device. It does not matter whether this works.
    Send { device_addr: String, payload: String },
    /// Show what the state says.
    Render,
}

/// What an [`Effect`] stands for.
pub enum EffectModel {
    ClearTimer { id: u64 },
    StartTimer { timer: TimerKind, delay_ms: u64 },
    Send { device_addr: Seq<char>, payload: Seq<char> },
    Render,
}

impl View for Effect {
    type V = EffectModel;

    open spec fn view(&self) -> EffectModel {
        match self {
            Effect::ClearTimer { id } => EffectModel::ClearTimer { id: *id },
            Effect::StartTimer { timer, delay_ms } => EffectModel::StartTimer {
                timer: *timer,
                delay_ms: *delay_ms,
            },
            Effect::Send { device_addr, payload } => EffectModel::Send {
                device_addr: device_addr@,
                payload: payload@,
            },
            Effect::Render => EffectModel::Render,
        }
    }
}

/// A file that the user wants to send.
#[derive(Debug, PartialEq, Eq)]
pub struct SendJob {
    pub file_name: String,
    pub text: String,
    pub file_size: usize,
}

/// What a [`SendJob`] stands for.
pub struct SendJobModel {
    pub file_name: Seq<char>,
    pub text: Seq<char>,
    pub file_size: usize,
}

impl View for SendJob {
    type V = SendJobModel;

    open spec fn view(&self) -> SendJobModel {
        SendJobModel {
            file_name: self.file_name@,
            text: self.text@,
            file_size: self.file_size,
        }
    }
}

/// A chunk that is about to be sent.
#[derive(Debug, PartialEq, Eq)]
pub struct ChunkJob {
    pub device_addr: String,
    /// The number of the chunk.
    pub count: usize,
    /// How many chunks there are.
    pub total: usize,
    pub data: String,
    /// Whether the device has to be told to go back to this chunk.
    pub resend: bool,
    /// The time since the chunk before this one, in nanoseconds, if any has passed.
    pub elapsed: Option<u128>,
}

/// What a [`ChunkJob`] stands for.
pub struct ChunkJobModel {
    pub device_addr: Seq<char>,
    pub count: usize,
    pub total: usize,
    pub data: Seq<char>,
    pub resend: bool,
    pub elapsed: Option<u128>,
}

impl View for ChunkJob {
    type V = ChunkJobModel;

    open spec fn view(&self) -> ChunkJobModel {
        ChunkJobModel {
            device_addr: self.device_addr@,
            count: self.count,
            total: self.total,
            data: self.data@,
            resend: self.resend,
            elapsed: self.elapsed,
        }
    }
}

/// Something that the plugin wants to know from the host before it goes on.
#[derive(Debug, PartialEq, Eq)]
pub enum Ask {
    Nothing,
    /// Let the user pick a file. The answer goes to [`crate::ui::file_picked`].
    PickFile,
    /// Which devices are connected? The answer goes to [`crate::ui::devices_listed`].
    ListDevices { job: SendJob },
    /// Which apps does the device have? The answer goes to [`crate::ui::apps_listed`].
    ListApps { job: SendJob, device_addr: String },
    /// Open the app with this number in the list at [`LAUNCH_PAGE`]. Whether that worked goes to
    /// [`crate::ui::app_launched`].
    LaunchApp { job: SendJob, device_addr: String, app: usize },
    /// Have messages of [`PACKAGE_NAME`] on the device delivered, and go on with
    /// [`crate::ui::receiver_registered`].
    RegisterReceiver { job: SendJob, device_addr: String },
    /// Send a message. Whether that worked goes to [`crate::ui::start_sent`].
    SendStart { device_addr: String, payload: String },
    /// How many bytes per second is the chunk in the time since the one before it? The answer goes
    /// to [`crate::ui::chunk_measured`].
    MeasureChunk { chunk: ChunkJob },
    /// Send a message. Whether that worked goes to [`crate::ui::chunk_sent`].
    SendChunk { device_addr: String, payload: String },
}

/// What an [`Ask`] stands for.
pub enum AskModel {
    Nothing,
    PickFile,
    ListDevices { job: SendJobModel },
    ListApps { job: SendJobModel, device_addr: Seq<char> },
    LaunchApp { job: SendJobModel, device_addr: Seq<char>, app: usize },
    RegisterReceiver { job: SendJobModel, device_addr: Seq<char> },
    SendStart { device_addr: Seq<char>, payload: Seq<char> },
    MeasureChunk { chunk: ChunkJobModel },
    SendChunk { device_addr: Seq<char>, payload: Seq<char> },
}

impl View for Ask {
    type V = AskModel;

    open spec fn view(&self) -> AskModel {
        match self {
            Ask::Nothing => AskModel::Nothing,
            Ask::PickFile => AskModel::PickFile,
            Ask::ListDevices { job } => AskModel::ListDevices { job: job@ },
            Ask::ListApps { job, device_addr } => AskModel::ListApps {
                job: job@,
                device_addr: device_addr@,
            },
            Ask::LaunchApp { job, device_addr, app } => AskModel::LaunchApp {
                job: job@,
                device_addr: device_addr@,
                app: *app,
            },
            Ask::RegisterReceiver { job, device_addr } => AskModel::RegisterReceiver {
                job: job@,
                device_addr: device_addr@,
            },
            Ask::SendStart { device_addr, payload } => AskModel::SendStart {
                device_addr: device_addr@,
                payload: payload@,
            },
            Ask::MeasureChunk { chunk } => AskModel::MeasureChunk { chunk: chunk@ },
            Ask::SendChunk { device_addr, payload } => AskModel::SendChunk {
                device_addr: device_addr@,
                payload: payload@,
            },
        }
    }
}

/// What a handler gives back.
#[derive(Debug, PartialEq, Eq)]
pub struct Step {
    /// What the host is to do, in this order.
    pub effects: Vec<Effect>,
    /// What the plugin wants to know after that.
    pub ask: Ask,
}

/// What a list of effects stands for.
pub open spec fn effects_of(effects: Seq<Effect>) -> Seq<EffectModel> {
    effects.map_values(|effect: Effect| effect@)
}

/// The state that a handler leaves behind and what it wants done.
pub struct Outcome {
    pub state: UiModel,
    pub effects: Seq<EffectModel>,
    pub ask: AskModel,
}

/// The outcome of a handler that has not asked anything yet.
pub open spec fn outcome_so_far(state: UiState, effects: Seq<Effect>) -> Outcome {
    Outcome { state: state@, effects: effects_of(effects), ask: AskModel::Nothing }
}

/// The outcome of a handler.
pub open spec fn outcome_of(state: UiState, step: Step) -> Outcome {
    Outcome { state: state@, effects: effects_of(step.effects@), ask: step.ask@ }
}

/// Nothing of a file has been sent.
pub open spec fn no_progress() -> Progress {
    Progress { done: 0, total: 1 }
}

/// All of a file has been sent.
pub open spec fn full_progress() -> Progress {
    Progress { done: 1, total: 1 }
}

/// The state of a plugin that nothing has happened to.
pub open spec fn initial_model() -> UiModel {
    UiModel {
        root_element_id: None,
        file_name: None,
        file_size_bytes: 0,
        file_text: None,
        progress: no_progress(),
        speed_text: None,
        status_message: None,
        status_tone: StatusTone::Neutral,
        is_sending: false,
        transfer: None,
        hide_message_timer_id: None,
        handshake_timer_id: None,
    }
}

impl UiModel {
    /// Nothing wanted done in this state.
    pub open spec fn unchanged(self) -> Outcome {
        Outcome { state: self, effects: Seq::empty(), ask: AskModel::Nothing }
    }
}

impl Outcome {
    /// One more effect.
    pub open spec fn effect(self, effect: EffectModel) -> Outcome {
        Outcome { effects: self.effects.push(effect), ..self }
    }

    /// The screen is brought up to date.
    pub open spec fn rendered(self) -> Outcome {
        self.effect(EffectModel::Render)
    }

    /// A message is sent, and it does not matter whether that works.
    pub open spec fn sent(
        self,
        device_addr: Seq<char>,
        message: message::OutgoingModel,
    ) -> Outcome {
        self.effect(EffectModel::Send { device_addr, payload: message::encoded(message) })
    }

    /// A question is asked.
    pub open spec fn asking(self, ask: AskModel) -> Outcome {
        Outcome { ask, ..self }
    }

    /// The timer that hides the status message is stopped if there is one.
    pub open spec fn hide_timer_cleared(self) -> Outcome {
        let cleared = Outcome {
            state: UiModel { hide_message_timer_id: None, ..self.state },
            ..self
        };
        match self.state.hide_message_timer_id {
            Some(id) => cleared.effect(EffectModel::ClearTimer { id }),
            None => cleared,
        }
    }

    /// The timer that the handshake waits for is stopped if there is one.
    pub open spec fn handshake_timer_cleared(self) -> Outcome {
        let cleared = Outcome {
            state: UiModel { handshake_timer_id: None, ..self.state },
            ..self
        };
        match self.state.handshake_timer_id {
            Some(id) => cleared.effect(EffectModel::ClearTimer { id }),
            None => cleared,
        }
    }

    /// The status message is about to be hidden, once.
    pub open spec fn hide_scheduled(self) -> Outcome {
        self.hide_timer_cleared().effect(
            EffectModel::StartTimer {
                timer: TimerKind::HideMessage,
                delay_ms: HIDE_MESSAGE_DELAY_MS,
            },
        )
    }

    /// The handshake is about to time out, once.
    pub open spec fn handshake_timeout_scheduled(self) -> Outcome {
        self.handshake_timer_cleared().effect(
            EffectModel::StartTimer {
                timer: TimerKind::HandshakeTimeout,
                delay_ms: HANDSHAKE_TIMEOUT_MS,
            },
        )
    }

    /// A status message is set. It is hidden after a while if `auto_hide` is set, and otherwise
    /// stays.
    pub open spec fn status(
        self,
        message: Seq<char>,
        tone: StatusTone,
        auto_hide: bool,
    ) -> Outcome {
        let told = Outcome {
            state: UiModel { status_message: Some(message), status_tone: tone, ..self.state },
            ..self
        };
        if auto_hide {
            told.hide_scheduled()
        } else {
            told.hide_timer_cleared()
        }
    }

    /// There is no transfer any more.
    pub open spec fn finished(self, clear_progress: bool) -> Outcome {
        Outcome {
            state: UiModel {
                is_sending: false,
                transfer: None,
                progress: if clear_progress {
                    no_progress()
                } else {
                    self.state.progress
                },
                speed_text: None,
                ..self.state
            },
            ..self
        }.handshake_timer_cleared()
    }

    /// The transfer ends with a status message that is hidden after a while.
    pub open spec fn ended(self, message: Seq<char>, tone: StatusTone) -> Outcome {
        self.status(message, tone, true).finished(true).rendered()
    }

    /// The transfer fails.
    pub open spec fn failed(self, message: Seq<char>) -> Outcome {
        self.ended(message, StatusTone::Error)
    }
}

impl UiState {
    /// The state of a plugin that nothing has happened to.
    pub fn new() -> (state: UiState)
        ensures
            state@ == initial_model(),
    {
        UiState {
            root_element_id: None,
            file_name: None,
            file_size_bytes: 0,
            file_text: None,
            progress: Progress { done: 0, total: 1 },
            speed_text: None,
            status_message: None,
            status_tone: StatusTone::Neutral,
            is_sending: false,
            transfer: None,
            hide_message_timer_id: None,
            handshake_timer_id: None,
        }
    }
}

/// Adds an effect.
pub fn emit(effects: &mut Vec<Effect>, effect: Effect)
    ensures
        effects_of(final(effects)@) == effects_of(old(effects)@).push(effect@),
{
    effects.push(effect);
    assert(effects_of(effects@) =~= effects_of(old(effects)@).push(effect@));
}

/// Sends a message. It does not matter whether this works.
pub fn send_interconnect_message(
    effects: &mut Vec<Effect>,
    device_addr: &str,
    message: &Outgoing,
)
    ensures
        effects_of(final(effects)@) == effects_of(old(effects)@).push(
            EffectModel::Send {
                device_addr: device_addr@,
                payload: message::encoded(message@),
            },
        ),
        json::parsed(message::encoded(message@)) == Some(message::outgoing_json(message@)),
{
    emit(
        effects,
        Effect::Send {
            device_addr: device_addr.to_string(),
            payload: encode_message(message),
        },
    );
}

/// Sends a step of the handshake.
pub fn send_handshake_message(effects: &mut Vec<Effect>, device_addr: &str, count: usize)
    ensures
        effects_of(final(effects)@) == effects_of(old(effects)@).push(
            EffectModel::Send {
                device_addr: device_addr@,
                payload: message::encoded(message::OutgoingModel::Handshake { count }),
            },
        ),
        json::parsed(message::encoded(message::OutgoingModel::Handshake { count })) == Some(
            message::outgoing_json(message::OutgoingModel::Handshake { count }),
        ),
{
    send_interconnect_message(effects, device_addr, &Outgoing::Handshake { count });
}

/// A timer was started. The two that the handshake waits for are never needed together.
pub open spec fn after_timer_started(state: UiModel, timer: TimerKind, id: u64) -> UiModel {
    match timer {
        TimerKind::HideMessage => UiModel { hide_message_timer_id: Some(id), ..state },
        _ => UiModel { handshake_timer_id: Some(id), ..state },
    }
}

/// Remembers the id of a timer that was started.
pub fn timer_started(state: &mut UiState, timer: TimerKind, id: u64)
    ensures
        final(state)@ == after_timer_started(old(state)@, timer, id),
{
    match timer {
        TimerKind::HideMessage => {
            state.hide_message_timer_id = Some(id);
        },
        TimerKind::StartHandshake | TimerKind::HandshakeTimeout => {
            state.handshake_timer_id = Some(id);
        },
    }
}

/// Stops the timer that hides the status message.
pub fn clear_hide_message_timer(state: &mut UiState, effects: &mut Vec<Effect>)
    ensures
        outcome_so_far(*final(state), final(effects)@) == outcome_so_far(
            *old(state),
            old(effects)@,
        ).hide_timer_cleared(),
{
    if let Some(id) = state.hide_message_timer_id.take() {
        emit(effects, Effect::ClearTimer { id });
    }
}

/// Stops the timer that the handshake waits for.
pub fn clear_handshake_timer(state: &mut UiState, effects: &mut Vec<Effect>)
    ensures
        outcome_so_far(*final(state), final(effects)@) == outcome_so_far(
            *old(state),
            old(effects)@,
        ).handshake_timer_cleared(),
{
    if let Some(id) = state.handshake_timer_id.take() {
        emit(effects, Effect::ClearTimer { id });
    }
}

/// Has the status message hidden after a while.
pub fn schedule_hide_message(state: &mut UiState, effects: &mut Vec<Effect>)
    ensures
        outcome_so_far(*final(state), final(effects)@) == outcome_so_far(
            *old(state),
            old(effects)@,
        ).hide_scheduled(),
{
    clear_hide_message_timer(state, effects);
    emit(
        effects,
        Effect::StartTimer { timer: TimerKind::HideMessage, delay_ms: HIDE_MESSAGE_DELAY_MS },
    );
}

/// Has the handshake time out after a while.
pub fn schedule_handshake_timeout(state: &mut UiState, effects: &mut Vec<Effect>)
    ensures
        outcome_so_far(*final(state), final(effects)@) == outcome_so_far(
            *old(state),
            old(effects)@,
        ).handshake_timeout_scheduled(),
{
    clear_handshake_timer(state, effects);
    emit(
        effects,
        Effect::StartTimer {
            timer: TimerKind::HandshakeTimeout,
            delay_ms: HANDSHAKE_TIMEOUT_MS,
        },
    );
}

/// Sets the status message.
pub fn set_status_message(
    state: &mut UiState,
    effects: &mut Vec<Effect>,
    message: &str,
    tone: StatusTone,
    auto_hide: bool,
)
    ensures
        outcome_so_far(*final(state), final(effects)@) == outcome_so_far(
            *old(state),
            old(effects)@,
        ).status(message@, tone, auto_hide),
{
    state.status_message = Some(message.to_string());
    state.status_tone = tone;
    if auto_hide {
        schedule_hide_message(state, effects);
    } else {
        clear_hide_message_timer(state, effects);
    }
}

/// Ends the transfer, if there is one.
pub fn finish_transfer(state: &mut UiState, effects: &mut Vec<Effect>, clear_progress: bool)
    ensures
        outcome_so_far(*final(state), final(effects)@) == outcome_so_far(
            *old(state),
            old(effects)@,
        ).finished(clear_progress),
{
    state.is_sending = false;
    state.transfer = None;
    if clear_progress {
        state.progress = Progress { done: 0, total: 1 };
    }
    state.speed_text = None;
    clear_handshake_timer(state, effects);
}

/// Forgets the transfer, if there is one, before another file takes its place.
pub fn clear_transfer_state(
    state: &mut UiState,
    effects: &mut Vec<Effect>,
    clear_progress: bool,
)
    ensures
        outcome_so_far(*final(state), final(effects)@) == outcome_so_far(
            *old(state),
            old(effects)@,
        ).finished(clear_progress),
{
    finish_transfer(state, effects, clear_progress);
}

/// Ends the transfer with a status message and shows that.
pub fn end_transfer(
    state: &mut UiState,
    effects: &mut Vec<Effect>,
    message: &str,
    tone: StatusTone,
)
    ensures
        outcome_so_far(*final(state), final(effects)@) == outcome_so_far(
            *old(state),
            old(effects)@,
        ).ended(message@, tone),
{
    set_status_message(state, effects, message, tone, true);
    finish_transfer(state, effects, true);
    emit(effects, Effect::Render);
}

} // verus!
