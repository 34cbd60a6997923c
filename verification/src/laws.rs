//! What holds of the plugin as a whole.

use crate::element::Event;
use crate::message::{FileMessage, Incoming};
use crate::rounding;
use crate::screen;
use crate::state;
use crate::state::{Progress, TimerKind};
use crate::transfer;
use crate::transfer::FILE_CHUNK_BYTES;
use crate::ui;
use vstd::prelude::*;
use vstd::utf8::*;

verus! {

/// Whether what the plugin remembers fits together.
pub open spec fn consistent(state: state::UiModel) -> bool {
    // A file has a name, a text and the size of the text.
    &&& state.file_name is Some <==> state.file_text is Some
    &&& match state.file_text {
        Some(text) => state.file_size_bytes == encode_utf8(text).len(),
        None => state.file_size_bytes == 0,
    }
    // Some share of a file has been sent.
    &&& state.progress.done <= state.progress.total
    &&& state.progress.total > 0
    // Transfers, speeds and handshakes belong to a file that is being sent.
    &&& state.transfer is Some ==> state.is_sending
    &&& state.speed_text is Some ==> state.is_sending
    &&& state.handshake_timer_id is Some ==> state.transfer is Some
    // A transfer starts when its handshake is complete.
    &&& match state.transfer {
        Some(transfer) => transfer.well_formed() && transfer.pending_start
            != transfer.handshake_complete,
        None => true,
    }
}

/// Whether a file that is to be sent has the size of its text, which fits into memory.
pub open spec fn job_consistent(job: state::SendJobModel) -> bool {
    job.file_size == encode_utf8(job.text).len()
}

/// Whether a file is to be sent, but there is no transfer of it yet.
pub open spec fn awaits_device(state: state::UiModel, job: state::SendJobModel) -> bool {
    job_consistent(job) && state.is_sending && state.transfer is None
}

/// Whether a question fits the state in which it is asked.
pub open spec fn question_fits(state: state::UiModel, ask: state::AskModel) -> bool {
    match ask {
        state::AskModel::Nothing => true,
        state::AskModel::PickFile => true,
        state::AskModel::ListDevices { job } => awaits_device(state, job),
        state::AskModel::ListApps { job, .. } => awaits_device(state, job),
        state::AskModel::LaunchApp { job, .. } => awaits_device(state, job),
        state::AskModel::RegisterReceiver { job, .. } => awaits_device(state, job),
        state::AskModel::SendStart { .. } => state.transfer is Some,
        state::AskModel::MeasureChunk { chunk } => state.transfer is Some && chunk.count
            < chunk.total,
        state::AskModel::SendChunk { .. } => state.transfer is Some,
    }
}

/// Whether the plugin is either at rest or in the middle of a transfer: a file is being sent exactly
/// if there is a transfer of it.
pub open spec fn settled(state: state::UiModel) -> bool {
    consistent(state) && (state.is_sending <==> state.transfer is Some)
}

/// Whether an outcome leaves a settled state, unless it asks for what the way to a transfer needs.
pub open spec fn settles(outcome: state::Outcome) -> bool {
    match outcome.ask {
        state::AskModel::ListDevices { .. } => true,
        state::AskModel::ListApps { .. } => true,
        state::AskModel::LaunchApp { .. } => true,
        state::AskModel::RegisterReceiver { .. } => true,
        _ => settled(outcome.state),
    }
}

/// The state in which the plugin begins is consistent and settled.
pub proof fn law_initially_consistent()
    ensures
        consistent(state::initial_model()),
        settled(state::initial_model()),
{
}

/// Showing the plugin in an element of the host's screen keeps the state consistent, and settled
/// if it was.
pub proof fn law_showing_keeps_consistent(state: state::UiModel, element_id: Seq<char>)
    requires
        consistent(state),
    ensures
        consistent(screen::after_shown(state, element_id)),
        settled(state) ==> settled(screen::after_shown(state, element_id)),
{
}

/// Whether an outcome leaves a consistent state and asks a question that fits it.
pub open spec fn sound(outcome: state::Outcome) -> bool {
    consistent(outcome.state) && question_fits(outcome.state, outcome.ask)
}

/// Clicks keep the state consistent, and settled if it was.
pub proof fn law_clicks_keep_consistent(state: state::UiModel, event: Event, name: Seq<char>)
    requires
        consistent(state),
    ensures
        sound(ui::after_ui_event(state, event, name)),
        settled(state) ==> settles(ui::after_ui_event(state, event, name)),
{
}

/// Timers keep the state consistent, and settled if it was.
pub proof fn law_timers_keep_consistent(state: state::UiModel, tag: Seq<char>)
    requires
        consistent(state),
    ensures
        sound(ui::after_timer(state, tag)),
        settled(state) ==> settles(ui::after_timer(state, tag)),
{
}

/// Messages keep the state consistent, and settled if it was.
pub proof fn law_messages_keep_consistent(state: state::UiModel, message: Incoming, now: u128)
    requires
        consistent(state),
    ensures
        sound(ui::after_message(state, message, now)),
        settled(state) ==> settles(ui::after_message(state, message, now)),
{
    match message {
        Incoming::Handshake { count } => lemma_handshakes_are_sound(state, count as usize),
        Incoming::File(message) => lemma_file_messages_are_sound(state, message, now),
        Incoming::Unknown => {},
    }
}

proof fn lemma_handshakes_are_sound(state: state::UiModel, count: usize)
    requires
        consistent(state),
    ensures
        sound(ui::after_handshake(state, count)),
        settled(state) ==> settles(ui::after_handshake(state, count)),
{
}

proof fn lemma_wanted_chunks_are_sound(
    state: state::UiModel,
    index: usize,
    resend: bool,
    now: u128,
)
    requires
        consistent(state),
    ensures
        sound(ui::after_chunk_wanted(state, index, resend, now)),
        settled(state) ==> settles(ui::after_chunk_wanted(state, index, resend, now)),
{
}

proof fn lemma_file_messages_are_sound(state: state::UiModel, message: FileMessage, now: u128)
    requires
        consistent(state),
    ensures
        sound(ui::after_file_message(state, message, now)),
        settled(state) ==> settles(ui::after_file_message(state, message, now)),
{
    match message {
        FileMessage::Ready { usage, found, length } => {
            lemma_wanted_chunks_are_sound(
                state,
                (length as usize) / FILE_CHUNK_BYTES,
                true,
                now,
            );
            lemma_wanted_chunks_are_sound(state, 0, false, now);
        },
        FileMessage::Error { count } => {
            lemma_wanted_chunks_are_sound(state, count as usize, true, now);
        },
        FileMessage::Next { count } => {
            lemma_wanted_chunks_are_sound(state, count as usize, false, now);
        },
        _ => {},
    }
}

/// A file that the user has picked keeps the state consistent, and settled if it was.
pub proof fn law_picked_file_keeps_consistent(
    state: state::UiModel,
    name: Seq<char>,
    bytes: Seq<u8>,
)
    requires
        consistent(state),
        bytes.len() <= usize::MAX,
    ensures
        sound(ui::after_file_picked(state, name, bytes)),
        settled(state) ==> settles(ui::after_file_picked(state, name, bytes)),
{
    if valid_utf8(bytes) {
        decode_utf8_encode_utf8(bytes);
    }
}

/// The answers that a file that is to be sent waits for keep the state consistent, and leave it
/// settled when nothing more is asked.
pub proof fn law_send_answers_keep_consistent(
    state: state::UiModel,
    job: state::SendJobModel,
    device_addr: Seq<char>,
    devices: Seq<Seq<char>>,
    packages: Option<Seq<Seq<char>>>,
    launched: bool,
)
    requires
        consistent(state),
        awaits_device(state, job),
    ensures
        sound(ui::after_devices_listed(state, job, devices)),
        sound(ui::after_apps_listed(state, job, device_addr, packages)),
        sound(ui::after_app_launched(state, job, device_addr, launched)),
        sound(ui::after_receiver_registered(state, job, device_addr)),
        settles(ui::after_devices_listed(state, job, devices)),
        settles(ui::after_apps_listed(state, job, device_addr, packages)),
        settles(ui::after_app_launched(state, job, device_addr, launched)),
        settles(ui::after_receiver_registered(state, job, device_addr)),
{
    if job.file_size > 0 && job.text.len() > 0 {
        transfer::lemma_transfer_well_formed(
            device_addr,
            job.file_name,
            job.text,
            job.file_size,
        );
    }
}

/// The answers that a transfer waits for keep the state consistent and settled.
pub proof fn law_transfer_answers_keep_consistent(
    state: state::UiModel,
    chunk: state::ChunkJobModel,
    rate: usize,
    sent: bool,
)
    requires
        consistent(state),
        state.transfer is Some,
        chunk.count < chunk.total,
    ensures
        sound(ui::after_start_sent(state, sent)),
        sound(ui::after_chunk_measured(state, chunk, rate)),
        sound(ui::after_chunk_sent(state, sent)),
        settles(ui::after_start_sent(state, sent)),
        settles(ui::after_chunk_measured(state, chunk, rate)),
        settles(ui::after_chunk_sent(state, sent)),
{
}

/// Whether a timer that the plugin has started is still known or is being stopped.
pub open spec fn accounted_for(
    id: Option<u64>,
    later: Option<u64>,
    effects: Seq<state::EffectModel>,
) -> bool {
    match id {
        Some(id) => later == Some(id) || effects.contains(state::EffectModel::ClearTimer { id }),
        None => true,
    }
}

/// Whether an outcome forgets no timer that was running without stopping it, and starts a timer
/// for the handshake only for a transfer that has none.
pub open spec fn minds_timers(before: state::UiModel, outcome: state::Outcome) -> bool {
    &&& accounted_for(
        before.hide_message_timer_id,
        outcome.state.hide_message_timer_id,
        outcome.effects,
    )
    &&& accounted_for(
        before.handshake_timer_id,
        outcome.state.handshake_timer_id,
        outcome.effects,
    )
    &&& starts_handshake_timer(outcome.effects) ==> outcome.state.transfer is Some
        && outcome.state.handshake_timer_id is None
}

/// Whether a timer for the handshake is started.
pub open spec fn starts_handshake_timer(effects: Seq<state::EffectModel>) -> bool {
    exists|i: int|
        0 <= i < effects.len() && (#[trigger] effects[i] matches state::EffectModel::StartTimer {
            timer,
            ..
        } && timer != TimerKind::HideMessage)
}

/// Clicks forget no timer.
pub proof fn law_clicks_mind_timers(state: state::UiModel, event: Event, name: Seq<char>)
    requires
        consistent(state),
    ensures
        minds_timers(state, ui::after_ui_event(state, event, name)),
{
    broadcast use vstd::seq_lib::lemma_seq_contains_after_push;

}

proof fn lemma_handshakes_mind_timers(state: state::UiModel, count: usize)
    requires
        consistent(state),
    ensures
        minds_timers(state, ui::after_handshake(state, count)),
{
    broadcast use vstd::seq_lib::lemma_seq_contains_after_push;

}

proof fn lemma_wanted_chunks_mind_timers(
    state: state::UiModel,
    index: usize,
    resend: bool,
    now: u128,
)
    requires
        consistent(state),
    ensures
        minds_timers(state, ui::after_chunk_wanted(state, index, resend, now)),
{
    broadcast use vstd::seq_lib::lemma_seq_contains_after_push;

}

proof fn lemma_file_messages_mind_timers(state: state::UiModel, message: FileMessage, now: u128)
    requires
        consistent(state),
    ensures
        minds_timers(state, ui::after_file_message(state, message, now)),
{
    broadcast use vstd::seq_lib::lemma_seq_contains_after_push;

    match message {
        FileMessage::Ready { usage, found, length } => {
            lemma_wanted_chunks_mind_timers(
                state,
                (length as usize) / FILE_CHUNK_BYTES,
                true,
                now,
            );
            lemma_wanted_chunks_mind_timers(state, 0, false, now);
        },
        FileMessage::Error { count } => {
            lemma_wanted_chunks_mind_timers(state, count as usize, true, now);
        },
        FileMessage::Next { count } => {
            lemma_wanted_chunks_mind_timers(state, count as usize, false, now);
        },
        _ => {},
    }
}

/// A file that the user has picked lets no timer be forgotten.
pub proof fn law_picked_file_minds_timers(
    state: state::UiModel,
    name: Seq<char>,
    bytes: Seq<u8>,
)
    requires
        consistent(state),
    ensures
        minds_timers(state, ui::after_file_picked(state, name, bytes)),
{
    broadcast use vstd::seq_lib::lemma_seq_contains_after_push;

}

/// A timer that fires lets no other timer be forgotten.
pub proof fn law_timers_mind_timers(state: state::UiModel, tag: Seq<char>)
    requires
        consistent(state),
    ensures
        ({
            let outcome = ui::after_timer(state, tag);
            &&& tag != TimerKind::HideMessage.tag_text() ==> accounted_for(
                state.hide_message_timer_id,
                outcome.state.hide_message_timer_id,
                outcome.effects,
            )
            &&& tag != TimerKind::StartHandshake.tag_text() && tag
                != TimerKind::HandshakeTimeout.tag_text() ==> accounted_for(
                state.handshake_timer_id,
                outcome.state.handshake_timer_id,
                outcome.effects,
            )
            &&& starts_handshake_timer(outcome.effects) ==> outcome.state.transfer is Some
                && outcome.state.handshake_timer_id is None
        }),
{
    broadcast use vstd::seq_lib::lemma_seq_contains_after_push;

}

/// Messages forget no timer.
pub proof fn law_messages_mind_timers(state: state::UiModel, message: Incoming, now: u128)
    requires
        consistent(state),
    ensures
        minds_timers(state, ui::after_message(state, message, now)),
{
    match message {
        Incoming::Handshake { count } => lemma_handshakes_mind_timers(state, count as usize),
        Incoming::File(message) => lemma_file_messages_mind_timers(state, message, now),
        Incoming::Unknown => {},
    }
}

/// The answers that a file that is to be sent waits for let no timer be forgotten.
pub proof fn law_send_answers_mind_timers(
    state: state::UiModel,
    job: state::SendJobModel,
    device_addr: Seq<char>,
    devices: Seq<Seq<char>>,
    packages: Option<Seq<Seq<char>>>,
    launched: bool,
)
    requires
        consistent(state),
        awaits_device(state, job),
    ensures
        minds_timers(state, ui::after_devices_listed(state, job, devices)),
        minds_timers(state, ui::after_apps_listed(state, job, device_addr, packages)),
        minds_timers(state, ui::after_app_launched(state, job, device_addr, launched)),
        minds_timers(state, ui::after_receiver_registered(state, job, device_addr)),
{
    broadcast use vstd::seq_lib::lemma_seq_contains_after_push;

}

/// The answers that a transfer waits for let no timer be forgotten.
pub proof fn law_transfer_answers_mind_timers(
    state: state::UiModel,
    chunk: state::ChunkJobModel,
    rate: usize,
    sent: bool,
)
    requires
        consistent(state),
        state.transfer is Some,
    ensures
        minds_timers(state, ui::after_start_sent(state, sent)),
        minds_timers(state, ui::after_chunk_measured(state, chunk, rate)),
        minds_timers(state, ui::after_chunk_sent(state, sent)),
{
    broadcast use vstd::seq_lib::lemma_seq_contains_after_push;

}

/// A timer that was started keeps the state consistent, if one for the handshake is started only
/// for a transfer.
pub proof fn law_started_timer_keeps_consistent(
    state: state::UiModel,
    timer: TimerKind,
    id: u64,
)
    requires
        consistent(state),
        timer == TimerKind::HideMessage || state.transfer is Some,
    ensures
        consistent(state::after_timer_started(state, timer, id)),
        settled(state) ==> settled(state::after_timer_started(state, timer, id)),
{
}

/// Whether two states agree on all that is shown of them.
pub open spec fn same_shown(a: state::UiModel, b: state::UiModel) -> bool {
    &&& a.file_name == b.file_name
    &&& a.file_size_bytes == b.file_size_bytes
    &&& a.file_text is Some <==> b.file_text is Some
    &&& a.progress == b.progress
    &&& a.speed_text == b.speed_text
    &&& a.status_message == b.status_message
    &&& a.status_tone == b.status_tone
    &&& a.is_sending == b.is_sending
}

/// States that agree on all that is shown of them look the same.
pub proof fn law_screen_shows_only_this(a: state::UiModel, b: state::UiModel)
    requires
        same_shown(a, b),
    ensures
        screen::main_element(a) == screen::main_element(b),
{
    assert(screen::file_info_text(a) == screen::file_info_text(b));
    assert(screen::button_row_element(a) == screen::button_row_element(b));
    assert(screen::speed_element(a) == screen::speed_element(b));
    assert(screen::status_element(a) == screen::status_element(b));
}

/// The filled part of the progress bar is no wider than the bar. There is one exactly if something
/// was sent, and then it can be seen.
pub proof fn law_bar_holds_filled_part(progress: Progress)
    ensures
        screen::filled_width(progress) <= screen::PROGRESS_BAR_WIDTH,
        screen::filled_width(progress) == 0 <==> progress.done == 0,
        progress.done > 0 ==> screen::filled_width(progress) >= screen::MIN_PROGRESS_WIDTH,
{
    rounding::law_length_share_at_most_length(
        progress.done as nat,
        progress.total as nat,
        screen::PROGRESS_BAR_WIDTH as nat,
    );
}

/// Once everything was sent, the progress bar is full.
pub proof fn law_bar_is_full_in_the_end(progress: Progress)
    requires
        0 < progress.total <= progress.done,
    ensures
        screen::filled_width(progress) == screen::PROGRESS_BAR_WIDTH,
{
    rounding::law_whole_takes_up_length(
        progress.done as nat,
        progress.total as nat,
        screen::PROGRESS_BAR_WIDTH as nat,
    );
}

/// What was sent, as a share of the file in single precision.
pub open spec fn sent_share(progress: Progress) -> rounding::Ratio {
    rounding::single_quotient(progress.done as nat, progress.total as nat)
}

/// The filled part of the progress bar never gets narrower as the share that was sent grows.
pub proof fn law_bar_grows_with_progress(before: Progress, after: Progress)
    requires
        before.total > 0,
        after.total > 0,
        rounding::at_most(sent_share(before), sent_share(after)),
    ensures
        screen::filled_width(before) <= screen::filled_width(after),
{
    let length = screen::PROGRESS_BAR_WIDTH as nat;
    rounding::law_length_share_grows(
        before.done as nat,
        before.total as nat,
        after.done as nat,
        after.total as nat,
        length,
    );
    rounding::law_length_share_at_most_length(before.done as nat, before.total as nat, length);
    rounding::law_length_share_at_most_length(after.done as nat, after.total as nat, length);
    if before.done > 0 && after.done == 0 {
        rounding::law_more_than_nothing(before.done as nat, before.total as nat, after.total as nat);
    }
}

/// The filled part of the progress bar never gets narrower as more of a file is sent, nor for a
/// file of which a larger part was sent, unless the number of parts of a file is too large to be
/// represented exactly.
pub proof fn law_bar_grows_with_parts(before: Progress, after: Progress)
    requires
        before.done <= before.total,
        after.done <= after.total,
        before.total > 0,
        after.total > 0,
        before.done * after.total <= after.done * before.total,
        before.total == after.total || (before.total <= rounding::SINGLE_LIMIT && after.total
            <= rounding::SINGLE_LIMIT),
    ensures
        screen::filled_width(before) <= screen::filled_width(after),
{
    rounding::law_single_quotient_grows(
        before.done as nat,
        before.total as nat,
        after.done as nat,
        after.total as nat,
    );
    law_bar_grows_with_progress(before, after);
}

/// Whether the last effect brings the screen up to date.
pub open spec fn ends_with_render(outcome: state::Outcome) -> bool {
    outcome.effects.len() > 0 && outcome.effects.last() == state::EffectModel::Render
}

/// Whether an outcome changes nothing that is shown, or has the screen brought up to date after
/// it. For a chunk that happens once it was sent or could not be.
pub open spec fn minds_screen(before: state::UiModel, outcome: state::Outcome) -> bool {
    ||| same_shown(before, outcome.state)
    ||| ends_with_render(outcome)
    ||| outcome.ask is SendChunk && ends_with_render(ui::after_chunk_sent(outcome.state, true))
        && ends_with_render(ui::after_chunk_sent(outcome.state, false))
}

/// Clicks have the screen brought up to date.
pub proof fn law_clicks_mind_screen(state: state::UiModel, event: Event, name: Seq<char>)
    ensures
        minds_screen(state, ui::after_ui_event(state, event, name)),
{
}

/// Timers have the screen brought up to date if there is one.
pub proof fn law_timers_mind_screen(state: state::UiModel, tag: Seq<char>)
    requires
        state.root_element_id is Some,
    ensures
        minds_screen(state, ui::after_timer(state, tag)),
{
}

proof fn lemma_handshakes_mind_screen(state: state::UiModel, count: usize)
    ensures
        minds_screen(state, ui::after_handshake(state, count)),
{
}

proof fn lemma_wanted_chunks_mind_screen(
    state: state::UiModel,
    index: usize,
    resend: bool,
    now: u128,
)
    ensures
        minds_screen(state, ui::after_chunk_wanted(state, index, resend, now)),
{
}

proof fn lemma_file_messages_mind_screen(state: state::UiModel, message: FileMessage, now: u128)
    ensures
        minds_screen(state, ui::after_file_message(state, message, now)),
{
    match message {
        FileMessage::Ready { usage, found, length } => {
            lemma_wanted_chunks_mind_screen(
                state,
                (length as usize) / FILE_CHUNK_BYTES,
                true,
                now,
            );
            lemma_wanted_chunks_mind_screen(state, 0, false, now);
        },
        FileMessage::Error { count } => {
            lemma_wanted_chunks_mind_screen(state, count as usize, true, now);
        },
        FileMessage::Next { count } => {
            lemma_wanted_chunks_mind_screen(state, count as usize, false, now);
        },
        _ => {},
    }
}

/// Messages have the screen brought up to date.
pub proof fn law_messages_mind_screen(state: state::UiModel, message: Incoming, now: u128)
    ensures
        minds_screen(state, ui::after_message(state, message, now)),
{
    match message {
        Incoming::Handshake { count } => lemma_handshakes_mind_screen(state, count as usize),
        Incoming::File(message) => lemma_file_messages_mind_screen(state, message, now),
        Incoming::Unknown => {},
    }
}

/// A file that the user has picked has the screen brought up to date.
pub proof fn law_picked_file_minds_screen(
    state: state::UiModel,
    name: Seq<char>,
    bytes: Seq<u8>,
)
    ensures
        minds_screen(state, ui::after_file_picked(state, name, bytes)),
{
}

/// The answers that a file that is to be sent waits for have the screen brought up to date.
pub proof fn law_send_answers_mind_screen(
    state: state::UiModel,
    job: state::SendJobModel,
    device_addr: Seq<char>,
    devices: Seq<Seq<char>>,
    packages: Option<Seq<Seq<char>>>,
    launched: bool,
)
    ensures
        minds_screen(state, ui::after_devices_listed(state, job, devices)),
        minds_screen(state, ui::after_apps_listed(state, job, device_addr, packages)),
        minds_screen(state, ui::after_app_launched(state, job, device_addr, launched)),
        minds_screen(state, ui::after_receiver_registered(state, job, device_addr)),
{
}

/// The answers that a transfer waits for have the screen brought up to date.
pub proof fn law_transfer_answers_mind_screen(
    state: state::UiModel,
    chunk: state::ChunkJobModel,
    rate: usize,
    sent: bool,
)
    ensures
        minds_screen(state, ui::after_start_sent(state, sent)),
        minds_screen(state, ui::after_chunk_measured(state, chunk, rate)),
        minds_screen(state, ui::after_chunk_sent(state, sent)),
{
}

} // verus!
