//! What becomes of a transfer, from the handshake to the last chunk.

use crate::element::Event;
use crate::json;
use crate::laws;
use crate::message;
use crate::message::{FILE_TAG, FileMessage, HANDSHAKE_TAG, Incoming};
use crate::screen;
use crate::state;
use crate::state::{PACKAGE_NAME, StatusTone, TimerKind};
use crate::text;
use crate::transfer;
use crate::transfer::FILE_CHUNK_BYTES;
use crate::ui;
use crate::ui::{EVENT_CANCEL_SEND, EVENT_PICK_FILE, EVENT_SEND_FILE};
use vstd::prelude::*;
use vstd::utf8::*;

verus! {

/// Whether two transfers are one transfer at an earlier and a later time: what is sent and where
/// to is the same, and the handshake and the start are not undone.
pub open spec fn same_transfer(
    before: transfer::TransferModel,
    after: transfer::TransferModel,
) -> bool {
    &&& after.device_addr == before.device_addr
    &&& after.file_name == before.file_name
    &&& after.text == before.text
    &&& after.total_chunks == before.total_chunks
    &&& after.boundaries == before.boundaries
    &&& before.handshake_complete ==> after.handshake_complete
    &&& after.pending_start ==> before.pending_start
}

/// Whether an outcome goes on with the transfer that there was, if it goes on with any, and
/// announces its start exactly if it has been pending and is no longer.
pub open spec fn keeps_transfer(before: state::UiModel, outcome: state::Outcome) -> bool {
    match outcome.state.transfer {
        Some(after) => {
            &&& before.transfer is Some
            &&& same_transfer(before.transfer.unwrap(), after)
            &&& outcome.ask is SendStart <==> before.transfer.unwrap().pending_start
                && !after.pending_start
        },
        None => outcome.ask !is SendStart,
    }
}

/// Clicks keep the transfer or end it.
pub proof fn law_clicks_keep_transfer(state: state::UiModel, event: Event, name: Seq<char>)
    ensures
        keeps_transfer(state, ui::after_ui_event(state, event, name)),
{
}

/// Timers keep the transfer or end it.
pub proof fn law_timers_keep_transfer(state: state::UiModel, tag: Seq<char>)
    ensures
        keeps_transfer(state, ui::after_timer(state, tag)),
{
}

/// A file that the user has picked keeps the transfer. There is none to end: a file is taken only
/// if none is being sent.
pub proof fn law_picked_file_keeps_transfer(
    state: state::UiModel,
    name: Seq<char>,
    bytes: Seq<u8>,
)
    requires
        laws::consistent(state),
    ensures
        keeps_transfer(state, ui::after_file_picked(state, name, bytes)),
        ui::after_file_picked(state, name, bytes).state.transfer == state.transfer,
{
}

proof fn lemma_handshakes_keep_transfer(state: state::UiModel, count: usize)
    ensures
        keeps_transfer(state, ui::after_handshake(state, count)),
{
}

proof fn lemma_wanted_chunks_keep_transfer(
    state: state::UiModel,
    index: usize,
    resend: bool,
    now: u128,
)
    ensures
        keeps_transfer(state, ui::after_chunk_wanted(state, index, resend, now)),
{
}

/// Messages keep the transfer or end it.
pub proof fn law_messages_keep_transfer(state: state::UiModel, message: Incoming, now: u128)
    ensures
        keeps_transfer(state, ui::after_message(state, message, now)),
{
    match message {
        Incoming::Handshake { count } => lemma_handshakes_keep_transfer(state, count as usize),
        Incoming::File(FileMessage::Ready { usage, found, length }) => {
            lemma_wanted_chunks_keep_transfer(
                state,
                (length as usize) / FILE_CHUNK_BYTES,
                true,
                now,
            );
            lemma_wanted_chunks_keep_transfer(state, 0, false, now);
        },
        Incoming::File(FileMessage::Error { count }) => {
            lemma_wanted_chunks_keep_transfer(state, count as usize, true, now);
        },
        Incoming::File(FileMessage::Next { count }) => {
            lemma_wanted_chunks_keep_transfer(state, count as usize, false, now);
        },
        _ => {},
    }
}

/// The answers that a transfer waits for keep it or end it.
pub proof fn law_transfer_answers_keep_transfer(
    state: state::UiModel,
    chunk: state::ChunkJobModel,
    rate: usize,
    sent: bool,
)
    ensures
        keeps_transfer(state, ui::after_start_sent(state, sent)),
        keeps_transfer(state, ui::after_chunk_measured(state, chunk, rate)),
        keeps_transfer(state, ui::after_chunk_sent(state, sent)),
{
}

/// A transfer begins once messages from the device are delivered, with its start pending, and with
/// the file that was to be sent.
pub proof fn law_transfer_begins_pending(
    state: state::UiModel,
    job: state::SendJobModel,
    device_addr: Seq<char>,
    devices: Seq<Seq<char>>,
    packages: Option<Seq<Seq<char>>>,
    launched: bool,
)
    requires
        laws::awaits_device(state, job),
    ensures
        ui::after_devices_listed(state, job, devices).state.transfer is None,
        ui::after_apps_listed(state, job, device_addr, packages).state.transfer is None,
        ui::after_app_launched(state, job, device_addr, launched).state.transfer is None,
        match ui::after_receiver_registered(state, job, device_addr).state.transfer {
            Some(transfer) => transfer.pending_start && !transfer.handshake_complete
                && transfer.text == job.text && transfer.file_name == job.file_name
                && transfer.device_addr == device_addr && job.text.len() > 0,
            None => job.text.len() == 0,
        },
{
    text::lemma_utf8_len(job.text);
}

/// What comes of the wish to send the file if the connected devices are `devices`, the apps on
/// the first of them are `packages`, and the one that receives files can be opened.
pub open spec fn send_prepared(
    state: state::UiModel,
    devices: Seq<Seq<char>>,
    packages: Seq<Seq<char>>,
) -> state::Outcome {
    let requested = ui::after_send_requested(state);
    match requested.ask {
        state::AskModel::ListDevices { job } => {
            let found = ui::after_devices_listed(requested.state, job, devices);
            match found.ask {
                state::AskModel::ListApps { job, device_addr } => {
                    let known = ui::after_apps_listed(
                        found.state,
                        job,
                        device_addr,
                        Some(packages),
                    );
                    match known.ask {
                        state::AskModel::LaunchApp { job, device_addr, .. } => {
                            let opened = ui::after_app_launched(
                                known.state,
                                job,
                                device_addr,
                                true,
                            );
                            match opened.ask {
                                state::AskModel::RegisterReceiver {
                                    job,
                                    device_addr,
                                } => ui::after_receiver_registered(
                                    opened.state,
                                    job,
                                    device_addr,
                                ),
                                _ => opened,
                            }
                        },
                        _ => known,
                    }
                },
                _ => found,
            }
        },
        _ => requested,
    }
}

/// The file that the user has picked is the one that is sent, byte for byte, to the first device.
pub proof fn law_picked_file_is_sent(
    state: state::UiModel,
    name: Seq<char>,
    bytes: Seq<u8>,
    devices: Seq<Seq<char>>,
    packages: Seq<Seq<char>>,
)
    requires
        laws::consistent(state),
        !state.is_sending,
        valid_utf8(bytes),
        0 < bytes.len() <= usize::MAX,
        devices.len() > 0,
        packages.contains(PACKAGE_NAME@),
    ensures
        ({
            let picked = ui::after_file_picked(state, name, bytes).state;
            let outcome = send_prepared(picked, devices, packages);
            &&& laws::consistent(outcome.state)
            &&& outcome.state.transfer matches Some(transfer) && encode_utf8(transfer.text)
                == bytes && transfer.file_name == name && transfer.device_addr == devices[0]
            &&& outcome.effects.contains(
                state::EffectModel::StartTimer {
                    timer: TimerKind::StartHandshake,
                    delay_ms: state::START_HANDSHAKE_DELAY_MS,
                },
            )
        }),
{
    broadcast use vstd::seq_lib::lemma_seq_contains_after_push;

    let text = decode_utf8(bytes);
    decode_utf8_encode_utf8(bytes);
    text::lemma_utf8_len(text);
    lemma_app_is_found(packages);
    transfer::lemma_transfer_well_formed(devices[0], name, text, bytes.len() as usize);
}

proof fn lemma_app_is_found(packages: Seq<Seq<char>>)
    requires
        packages.contains(PACKAGE_NAME@),
    ensures
        ui::app_index(packages) is Some,
    decreases packages.len(),
{
    let i = choose|i: int| 0 <= i < packages.len() && packages[i] == PACKAGE_NAME@;
    if packages[0] != PACKAGE_NAME@ {
        assert(packages.drop_first()[i - 1] == PACKAGE_NAME@);
        lemma_app_is_found(packages.drop_first());
    }
}

/// The transfer starts with the first step of the handshake that is not its first, and with no
/// other.
pub proof fn law_start_follows_handshake(state: state::UiModel, count: usize)
    requires
        laws::consistent(state),
    ensures
        ui::after_handshake(state, count).ask is SendStart <==> count > 0 && state.transfer is Some
            && state.transfer.unwrap().pending_start,
        state.transfer is Some ==> ui::after_handshake(
            state,
            count,
        ).state.transfer.unwrap().pending_start == (state.transfer.unwrap().pending_start && count
            == 0),
{
}

/// The messages that are sent without asking whether that works, in order.
pub open spec fn messages_in(effects: Seq<state::EffectModel>) -> Seq<state::EffectModel> {
    effects.filter(|effect: state::EffectModel| effect is Send)
}

/// One more effect is one more message if it sends one.
pub broadcast proof fn lemma_messages_in_more(
    effects: Seq<state::EffectModel>,
    effect: state::EffectModel,
)
    ensures
        #[trigger] messages_in(effects.push(effect)) == if effect is Send {
            messages_in(effects).push(effect)
        } else {
            messages_in(effects)
        },
{
    reveal(Seq::filter);
    assert(effects.push(effect).drop_last() =~= effects);
}

/// Where there are no effects there are no messages.
pub proof fn lemma_no_messages_in_nothing()
    ensures
        messages_in(Seq::empty()) == Seq::<state::EffectModel>::empty(),
{
    reveal(Seq::filter);
}

/// The first two steps of the handshake are answered once, with the step after them, and no later
/// one is, so that two sides that do this come to an end.
pub proof fn law_handshake_ends(state: state::UiModel, count: usize)
    requires
        state.transfer is Some,
    ensures
        messages_in(ui::after_handshake(state, count).effects) == if count < 2 {
            seq![
                state::EffectModel::Send {
                    device_addr: state.transfer.unwrap().device_addr,
                    payload: message::encoded(
                        message::OutgoingModel::Handshake { count: (count + 1) as usize },
                    ),
                },
            ]
        } else {
            Seq::empty()
        },
{
    broadcast use lemma_messages_in_more;

    lemma_no_messages_in_nothing();
}

/// A step of the handshake is read as what was written.
pub proof fn law_handshake_is_read_back(count: usize)
    ensures
        message::incoming_of(
            message::outgoing_json(message::OutgoingModel::Handshake { count }),
        ) == (Incoming::Handshake { count: count as u64 }),
{
    reveal_strlit("tag");
    reveal_strlit("count");
    assert("tag"@.len() != "count"@.len());
}

/// A chunk that is wanted, measured and ready to be sent.
pub open spec fn chunk_prepared(
    state: state::UiModel,
    index: usize,
    resend: bool,
    now: u128,
    rate: usize,
) -> state::Outcome {
    let wanted = ui::after_chunk_wanted(state, index, resend, now);
    match wanted.ask {
        state::AskModel::MeasureChunk { chunk } => ui::after_chunk_measured(
            wanted.state,
            chunk,
            rate,
        ),
        _ => wanted,
    }
}

/// The message with chunk `index` of a transfer.
pub open spec fn chunk_message(
    transfer: transfer::TransferModel,
    index: int,
    resend: bool,
) -> message::OutgoingModel {
    message::OutgoingModel::Chunk {
        count: index as usize,
        data: transfer.chunk(index).unwrap(),
        resend,
    }
}

/// Each chunk that the device may want is there and is sent to it, as it was cut and under its
/// number, whenever and however often it is wanted.
pub proof fn law_wanted_chunk_is_sent(
    state: state::UiModel,
    index: usize,
    resend: bool,
    now: u128,
    rate: usize,
)
    requires
        laws::consistent(state),
        state.transfer is Some,
        index < state.transfer.unwrap().total_chunks,
    ensures
        state.transfer.unwrap().chunk(index as int) is Some,
        chunk_prepared(state, index, resend, now, rate).ask == (state::AskModel::SendChunk {
            device_addr: state.transfer.unwrap().device_addr,
            payload: message::encoded(
                chunk_message(state.transfer.unwrap(), index as int, resend),
            ),
        }),
        ({
            let prepared = chunk_prepared(state, index, resend, now, rate);
            &&& laws::consistent(prepared.state)
            &&& prepared.state.transfer is Some
            &&& same_transfer(state.transfer.unwrap(), prepared.state.transfer.unwrap())
        }),
{
    transfer::law_chunk_is_run_of_characters(state.transfer.unwrap(), index as int);
}

/// The state after the first `count` chunks were wanted in turn and sent. Chunk `i` is wanted at
/// the time `times[i]`, and the speed is then `rates[i]`.
pub open spec fn after_chunks(
    state: state::UiModel,
    times: Seq<u128>,
    rates: Seq<usize>,
    count: nat,
) -> state::UiModel
    decreases count,
{
    if count == 0 {
        state
    } else {
        let before = after_chunks(state, times, rates, (count - 1) as nat);
        ui::after_chunk_sent(
            chunk_prepared(
                before,
                (count - 1) as usize,
                false,
                times[count - 1],
                rates[count - 1],
            ).state,
            true,
        ).state
    }
}

proof fn lemma_after_chunks(
    state: state::UiModel,
    times: Seq<u128>,
    rates: Seq<usize>,
    count: nat,
)
    requires
        laws::consistent(state),
        state.transfer is Some,
        count <= state.transfer.unwrap().total_chunks,
    ensures
        laws::consistent(after_chunks(state, times, rates, count)),
        after_chunks(state, times, rates, count).transfer is Some,
        same_transfer(
            state.transfer.unwrap(),
            after_chunks(state, times, rates, count).transfer.unwrap(),
        ),
    decreases count,
{
    if count > 0 {
        lemma_after_chunks(state, times, rates, (count - 1) as nat);
        law_wanted_chunk_is_sent(
            after_chunks(state, times, rates, (count - 1) as nat),
            (count - 1) as usize,
            false,
            times[count - 1],
            rates[count - 1],
        );
    }
}

/// A device that wants one chunk after the other gets the text: chunk by chunk, each once and
/// under its number, and after the last an empty one.
pub proof fn law_chunks_in_turn_deliver_text(
    state: state::UiModel,
    times: Seq<u128>,
    rates: Seq<usize>,
    end: u128,
)
    requires
        laws::consistent(state),
        state.transfer is Some,
    ensures
        forall|i: int|
            #![trigger after_chunks(state, times, rates, i as nat)]
            0 <= i < state.transfer.unwrap().total_chunks ==> chunk_prepared(
                after_chunks(state, times, rates, i as nat),
                i as usize,
                false,
                times[i],
                rates[i],
            ).ask == (state::AskModel::SendChunk {
                device_addr: state.transfer.unwrap().device_addr,
                payload: message::encoded(chunk_message(state.transfer.unwrap(), i, false)),
            }),
        transfer::joined_chunks(
            state.transfer.unwrap(),
            state.transfer.unwrap().total_chunks as nat,
        ) == state.transfer.unwrap().text,
        ({
            let total = state.transfer.unwrap().total_chunks;
            ui::after_chunk_wanted(
                after_chunks(state, times, rates, total as nat),
                total,
                false,
                end,
            ).effects == seq![
                state::EffectModel::Send {
                    device_addr: state.transfer.unwrap().device_addr,
                    payload: message::encoded(
                        message::OutgoingModel::Chunk { count: total, data: ""@, resend: false },
                    ),
                },
            ]
        }),
{
    let current = state.transfer.unwrap();
    assert forall|i: int|
        #![trigger after_chunks(state, times, rates, i as nat)]
        0 <= i < current.total_chunks implies chunk_prepared(
        after_chunks(state, times, rates, i as nat),
        i as usize,
        false,
        times[i],
        rates[i],
    ).ask == (state::AskModel::SendChunk {
        device_addr: current.device_addr,
        payload: message::encoded(chunk_message(current, i, false)),
    }) by {
        lemma_after_chunks(state, times, rates, i as nat);
        law_wanted_chunk_is_sent(
            after_chunks(state, times, rates, i as nat),
            i as usize,
            false,
            times[i],
            rates[i],
        );
    }
    transfer::law_chunks_make_up_text(current);
    lemma_after_chunks(state, times, rates, current.total_chunks as nat);
}

/// A transfer that fails or is given up is over: nothing of it is left, what went wrong is shown
/// for a while, and the user can send again.
pub proof fn law_failure_ends_transfer(
    before: state::Outcome,
    message: Seq<char>,
    tone: StatusTone,
)
    ensures
        ({
            let after = before.ended(message, tone);
            &&& !after.state.is_sending
            &&& after.state.transfer is None
            &&& after.state.progress == state::no_progress()
            &&& after.state.speed_text is None
            &&& after.state.handshake_timer_id is None
            &&& after.state.status_message == Some(message)
            &&& after.state.status_tone == tone
            &&& after.effects.contains(
                state::EffectModel::StartTimer {
                    timer: TimerKind::HideMessage,
                    delay_ms: state::HIDE_MESSAGE_DELAY_MS,
                },
            )
            &&& after.effects.last() == state::EffectModel::Render
            &&& screen::can_pick(after.state)
            &&& before.state.file_text is Some ==> screen::can_send(after.state)
        }),
{
    broadcast use vstd::seq_lib::lemma_seq_contains_after_push;

}

/// The timers are told apart by what they fire with.
pub proof fn law_timers_are_told_apart(a: TimerKind, b: TimerKind)
    ensures
        a.tag_text() == b.tag_text() <==> a == b,
{
    reveal_strlit("timer_hide_message");
    reveal_strlit("timer_start_handshake");
    reveal_strlit("timer_handshake_timeout");
    assert("timer_hide_message"@.len() < "timer_start_handshake"@.len());
    assert("timer_start_handshake"@.len() < "timer_handshake_timeout"@.len());
}

/// The buttons are told apart by the names that they report clicks under.
pub proof fn law_buttons_are_told_apart()
    ensures
        EVENT_PICK_FILE@ != EVENT_SEND_FILE@,
        EVENT_PICK_FILE@ != EVENT_CANCEL_SEND@,
        EVENT_SEND_FILE@ != EVENT_CANCEL_SEND@,
{
    reveal_strlit("pick_file");
    reveal_strlit("send_file");
    reveal_strlit("cancel_send");
    assert(EVENT_PICK_FILE@[0] != EVENT_SEND_FILE@[0]);
}

/// Messages of the handshake and about the file are told apart by their tags.
pub proof fn law_tags_are_told_apart()
    ensures
        HANDSHAKE_TAG@ != FILE_TAG@,
{
    reveal_strlit("__hs__");
    reveal_strlit("file");
    assert(HANDSHAKE_TAG@.len() > FILE_TAG@.len());
}

/// A status message that is hidden after a while is gone when the timer for that fires.
pub proof fn law_hide_timer_hides(state: state::UiModel)
    ensures
        ui::after_timer(state, TimerKind::HideMessage.tag_text()).state == (state::UiModel {
            status_message: None,
            status_tone: StatusTone::Neutral,
            hide_message_timer_id: None,
            ..state
        }),
{
}

/// A click on a button that is disabled during a transfer, or while there is none, does nothing.
pub proof fn law_disabled_buttons_do_nothing(state: state::UiModel)
    ensures
        state.is_sending ==> ui::after_ui_event(state, Event::Click, EVENT_SEND_FILE@)
            == state.unchanged(),
        !screen::can_cancel(state) ==> ui::after_ui_event(state, Event::Click, EVENT_CANCEL_SEND@)
            == state.unchanged(),
{
    law_buttons_are_told_apart();
}

/// What the plugin does not know is ignored.
pub proof fn law_unknown_is_ignored(
    state: state::UiModel,
    event: Event,
    text: Seq<char>,
    now: u128,
)
    ensures
        event != Event::Click || (text != EVENT_PICK_FILE@ && text != EVENT_SEND_FILE@ && text
            != EVENT_CANCEL_SEND@) ==> ui::after_ui_event(state, event, text) == state.unchanged(),
        (forall|timer: TimerKind| text != #[trigger] timer.tag_text()) ==> ui::after_timer(
            state,
            text,
        ) == state.unchanged(),
        json::parsed(message::payload_text(text)) is None ==> ui::after_interconnect_event(
            state,
            text,
            now,
        ) == state.unchanged(),
        ui::after_message(state, Incoming::Unknown, now) == state.unchanged(),
        ui::after_message(state, Incoming::File(FileMessage::Unknown), now) == state.unchanged(),
{
    assert((forall|timer: TimerKind| text != #[trigger] timer.tag_text()) ==> text
        != TimerKind::HideMessage.tag_text() && text != TimerKind::StartHandshake.tag_text()
        && text != TimerKind::HandshakeTimeout.tag_text());
}

/// A message about the file may be wrapped in the member `data` of a document.
pub proof fn law_file_message_may_be_wrapped(document: json::Json, inner: json::Json)
    requires
        document.member("data"@) == Some(inner),
        inner.member("data"@) is None,
    ensures
        message::file_message_of(document) == message::file_message_of(inner),
{
}

/// An event that is not a document, or carries no text, is the text that it brings.
pub proof fn law_bare_event_is_its_text(event: Seq<char>)
    requires
        match json::parsed(event) {
            Some(document) => document.member("payloadText"@) is None && document.member(
                "payload"@,
            ) is None,
            None => true,
        },
    ensures
        message::payload_text(event) == event,
{
}

} // verus!
