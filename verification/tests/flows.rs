use hyperbox::element::Event;
use hyperbox::message::{FileMessage, Incoming, Outgoing, encode_message};
use hyperbox::screen::{build_main_ui, render_from_state, render_main_ui};
use hyperbox::state::{
    Ask, ChunkJob, Effect, Progress, SendJob, StatusTone, Step, TimerKind, UiState, timer_started,
};
use hyperbox::ui::{
    app_launched, apps_listed, chunk_measured, chunk_sent, devices_listed, file_picked,
    get_app_info, get_device_addr, handle_file_message, handle_handshake_message,
    handle_interconnect_message, handle_message, handle_timer_event, note_chunk_time,
    receiver_registered, send_next_chunk, start_sent, ui_event_processor,
};

const PACKAGE: &str = "com.charlie.hyperbox";

/// A host that carries out effects and keeps a record of them.
struct Host {
    state: UiState,
    next_timer: u64,
    log: Vec<String>,
}

impl Host {
    fn new() -> Host {
        Host {
            state: UiState::new(),
            next_timer: 1,
            log: vec![],
        }
    }

    fn run(&mut self, step: Step) -> Ask {
        for effect in step.effects {
            match effect {
                Effect::ClearTimer { id } => self.log.push(format!("clear {}", id)),
                Effect::StartTimer { timer, delay_ms } => {
                    let id = self.next_timer;
                    self.next_timer += 1;
                    self.log.push(format!("start {} {} {}", id, timer.tag(), delay_ms));
                    timer_started(&mut self.state, timer, id);
                }
                Effect::Send {
                    device_addr,
                    payload,
                } => self.log.push(format!("send {} {}", device_addr, payload)),
                Effect::Render => self.log.push("render".to_string()),
            }
        }
        if matches!(step.ask, Ask::Nothing | Ask::PickFile) {
            assert_eq!(self.state.is_sending, self.state.transfer.is_some());
        }
        step.ask
    }

    fn taken(&mut self) -> Vec<String> {
        std::mem::take(&mut self.log)
    }

    fn click(&mut self, name: &str) -> Ask {
        let step = ui_event_processor(&mut self.state, Event::Click, name);
        self.run(step)
    }

    fn pick(&mut self, name: &str, bytes: &[u8]) -> Ask {
        assert_eq!(self.click("pick_file"), Ask::PickFile);
        let step = file_picked(&mut self.state, name.to_string(), bytes.to_vec());
        self.run(step)
    }

    fn timer(&mut self, payload: &str) -> Ask {
        let step = handle_timer_event(&mut self.state, payload);
        self.run(step)
    }

    fn message(&mut self, payload: &str, now: u128) -> Ask {
        let step = handle_interconnect_message(&mut self.state, payload, now);
        self.run(step)
    }

    /// Goes from the click on the button to the transfer that waits for its handshake.
    fn prepare(&mut self, text: &str) {
        self.pick("file.txt", text.as_bytes());
        let job = match self.click("send_file") {
            Ask::ListDevices { job } => job,
            other => panic!("{:?}", other),
        };
        let step = devices_listed(&mut self.state, job, vec!["dev".to_string()]);
        let (job, device_addr) = match self.run(step) {
            Ask::ListApps { job, device_addr } => (job, device_addr),
            other => panic!("{:?}", other),
        };
        let step = apps_listed(
            &mut self.state,
            job,
            device_addr,
            Some(vec!["other".to_string(), PACKAGE.to_string()]),
        );
        let (job, device_addr) = match self.run(step) {
            Ask::LaunchApp {
                job,
                device_addr,
                app,
            } => {
                assert_eq!(app, 1);
                (job, device_addr)
            }
            other => panic!("{:?}", other),
        };
        let step = app_launched(&mut self.state, job, device_addr, true);
        let (job, device_addr) = match self.run(step) {
            Ask::RegisterReceiver { job, device_addr } => (job, device_addr),
            other => panic!("{:?}", other),
        };
        let step = receiver_registered(&mut self.state, job, device_addr);
        assert_eq!(self.run(step), Ask::Nothing);
    }

    /// Goes on to the transfer that was announced.
    fn connect(&mut self) {
        assert_eq!(self.timer("timer_start_handshake"), Ask::Nothing);
        match self.message(r#"{"tag":"__hs__","count":1}"#, 0) {
            Ask::SendStart { device_addr, .. } => assert_eq!(device_addr, "dev"),
            other => panic!("{:?}", other),
        }
        let step = start_sent(&mut self.state, true);
        assert_eq!(self.run(step), Ask::Nothing);
        self.taken();
    }

    fn chunk(&mut self, payload: &str, now: u128, rate: usize) -> String {
        let chunk = match self.message(payload, now) {
            Ask::MeasureChunk { chunk } => chunk,
            other => panic!("{:?}", other),
        };
        let step = chunk_measured(&mut self.state, chunk, rate);
        match self.run(step) {
            Ask::SendChunk {
                device_addr,
                payload,
            } => {
                assert_eq!(device_addr, "dev");
                let step = chunk_sent(&mut self.state, true);
                assert_eq!(self.run(step), Ask::Nothing);
                payload
            }
            other => panic!("{:?}", other),
        }
    }
}

fn shown(state: &UiState) -> (Option<&str>, StatusTone) {
    (state.status_message.as_deref(), state.status_tone)
}

fn idle(state: &UiState) -> bool {
    !state.is_sending
        && state.transfer.is_none()
        && state.speed_text.is_none()
        && state.handshake_timer_id.is_none()
}

#[test]
fn nothing_has_happened_at_first() {
    let state = UiState::new();
    assert_eq!(state.root_element_id, None);
    assert_eq!(state.file_name, None);
    assert_eq!(state.file_size_bytes, 0);
    assert_eq!(state.file_text, None);
    assert_eq!(state.progress, Progress { done: 0, total: 1 });
    assert_eq!(shown(&state), (None, StatusTone::Neutral));
    assert!(idle(&state));
    assert_eq!(state.hide_message_timer_id, None);
}

#[test]
fn a_picked_file_is_remembered() {
    let mut host = Host::new();
    assert_eq!(host.pick("歌.txt", "漢字".as_bytes()), Ask::Nothing);
    assert_eq!(host.state.file_name.as_deref(), Some("歌.txt"));
    assert_eq!(host.state.file_text.as_deref(), Some("漢字"));
    assert_eq!(host.state.file_size_bytes, 6);
    assert_eq!(host.taken(), vec!["render"]);
}

#[test]
fn a_file_that_is_not_a_text_is_refused_and_forgotten() {
    let mut host = Host::new();
    host.pick("a.txt", b"a");
    host.taken();
    assert_eq!(host.pick("b.bin", &[0x61, 0xff]), Ask::Nothing);
    assert_eq!(host.state.file_name, None);
    assert_eq!(host.state.file_text, None);
    assert_eq!(host.state.file_size_bytes, 0);
    assert_eq!(
        shown(&host.state),
        (Some("文件不是 UTF-8 文本，无法发送"), StatusTone::Error)
    );
    assert_eq!(
        host.taken(),
        vec!["start 1 timer_hide_message 3000", "render"]
    );
    assert_eq!(host.state.hide_message_timer_id, Some(1));
}

#[test]
fn a_surrogate_is_not_a_text() {
    let mut host = Host::new();
    host.pick("b.bin", &[0xed, 0xa0, 0x80]);
    assert_eq!(host.state.file_text, None);
    host.pick("b.bin", &[0xc0, 0x80]);
    assert_eq!(host.state.file_text, None);
    host.pick("b.txt", &[0xf4, 0x8f, 0xbf, 0xbf]);
    assert_eq!(host.state.file_text.as_deref(), Some("\u{10ffff}"));
}

#[test]
fn a_file_cannot_be_exchanged_while_it_is_sent() {
    let mut host = Host::new();
    host.prepare("hello");
    host.taken();
    assert_eq!(host.pick("b.txt", b"other"), Ask::Nothing);
    assert_eq!(host.state.file_name.as_deref(), Some("file.txt"));
    assert_eq!(host.state.file_text.as_deref(), Some("hello"));
    assert!(host.state.is_sending);
    assert!(host.state.transfer.is_some());
    assert_eq!(
        shown(&host.state),
        (Some("正在发送中，无法更换文件"), StatusTone::Error)
    );
    assert_eq!(
        host.taken(),
        vec!["start 2 timer_hide_message 3000", "render"]
    );
}

#[test]
fn there_is_nothing_to_send_without_a_file() {
    let mut host = Host::new();
    assert_eq!(host.click("send_file"), Ask::Nothing);
    assert_eq!(
        shown(&host.state),
        (Some("请先选择文件"), StatusTone::Error)
    );
    assert!(!host.state.is_sending);
    assert_eq!(
        host.taken(),
        vec!["start 1 timer_hide_message 3000", "render"]
    );
    assert_eq!(host.click("send_file"), Ask::Nothing);
    assert_eq!(
        host.taken(),
        vec!["clear 1", "start 2 timer_hide_message 3000", "render"]
    );
}

#[test]
fn sending_begins_with_a_message_that_stays() {
    let mut host = Host::new();
    host.pick("file.txt", b"hello");
    host.taken();
    assert_eq!(
        host.click("send_file"),
        Ask::ListDevices {
            job: SendJob {
                file_name: "file.txt".to_string(),
                text: "hello".to_string(),
                file_size: 5,
            }
        }
    );
    assert!(host.state.is_sending);
    assert_eq!(
        shown(&host.state),
        (Some("准备发送中..."), StatusTone::Neutral)
    );
    assert_eq!(host.taken(), vec!["render"]);
}

fn job(text: &str) -> SendJob {
    SendJob {
        file_name: "file.txt".to_string(),
        text: text.to_string(),
        file_size: text.len(),
    }
}

fn sending() -> Host {
    let mut host = Host::new();
    host.pick("file.txt", b"hello");
    host.click("send_file");
    host.taken();
    host
}

#[test]
fn the_first_device_receives_the_file() {
    let devices = vec!["one".to_string(), "two".to_string()];
    assert_eq!(get_device_addr(&devices), Ok("one".to_string()));
    let mut host = sending();
    let step = devices_listed(&mut host.state, job("hello"), devices);
    assert_eq!(
        host.run(step),
        Ask::ListApps {
            job: job("hello"),
            device_addr: "one".to_string()
        }
    );
    assert!(host.taken().is_empty());
}

#[test]
fn without_a_device_sending_fails() {
    assert_eq!(get_device_addr(&vec![]), Err("未找到设备".to_string()));
    let mut host = sending();
    let step = devices_listed(&mut host.state, job("hello"), vec![]);
    assert_eq!(host.run(step), Ask::Nothing);
    assert_eq!(shown(&host.state), (Some("未找到设备"), StatusTone::Error));
    assert!(idle(&host.state));
    assert_eq!(
        host.taken(),
        vec!["start 1 timer_hide_message 3000", "render"]
    );
}

#[test]
fn the_app_is_found_by_its_package_name() {
    let packages = |names: &[&str]| Some(names.iter().map(|name| name.to_string()).collect());
    assert_eq!(get_app_info(&packages(&["a", PACKAGE, PACKAGE])), Ok(1));
    assert_eq!(get_app_info(&packages(&[PACKAGE])), Ok(0));
    assert_eq!(
        get_app_info(&packages(&["com.charlie.hyperbox2", "com.charlie"])),
        Err("请先在手环/手表安装 Hyper Box".to_string())
    );
    assert_eq!(
        get_app_info(&packages(&[])),
        Err("请先在手环/手表安装 Hyper Box".to_string())
    );
    assert_eq!(get_app_info(&None), Err("获取应用列表失败".to_string()));
}

#[test]
fn without_the_app_sending_fails() {
    for (packages, message) in [
        (Some(vec!["other".to_string()]), "请先在手环/手表安装 Hyper Box"),
        (None, "获取应用列表失败"),
    ] {
        let mut host = sending();
        let step = apps_listed(&mut host.state, job("hello"), "dev".to_string(), packages);
        assert_eq!(host.run(step), Ask::Nothing);
        assert_eq!(shown(&host.state), (Some(message), StatusTone::Error));
        assert!(idle(&host.state));
    }
}

#[test]
fn if_the_app_does_not_open_sending_fails() {
    let mut host = sending();
    let step = app_launched(&mut host.state, job("hello"), "dev".to_string(), false);
    assert_eq!(host.run(step), Ask::Nothing);
    assert_eq!(
        shown(&host.state),
        (Some("启动应用失败"), StatusTone::Error)
    );
    assert!(idle(&host.state));
}

#[test]
fn an_empty_file_is_not_sent() {
    let mut host = sending();
    let step = receiver_registered(&mut host.state, job(""), "dev".to_string());
    assert_eq!(host.run(step), Ask::Nothing);
    assert_eq!(shown(&host.state), (Some("文件为空"), StatusTone::Error));
    assert!(idle(&host.state));
}

#[test]
fn the_handshake_begins_after_a_while() {
    let mut host = Host::new();
    host.prepare("hello");
    assert_eq!(
        host.taken(),
        vec![
            "render",
            "render",
            "start 1 timer_start_handshake 1500",
            "render"
        ]
    );
    assert_eq!(host.state.handshake_timer_id, Some(1));
    let transfer = host.state.transfer.as_ref().unwrap();
    assert_eq!(transfer.text, "hello");
    assert_eq!(transfer.device_addr, "dev");
    assert!(transfer.pending_start);

    assert_eq!(
        host.timer(r#"{"payload":"timer_start_handshake"}"#),
        Ask::Nothing
    );
    assert_eq!(
        host.taken(),
        vec![
            "start 2 timer_handshake_timeout 3000",
            r#"send dev {"count":0,"tag":"__hs__"}"#
        ]
    );
    assert_eq!(host.state.handshake_timer_id, Some(2));
}

#[test]
fn the_handshake_does_not_begin_without_a_transfer() {
    let mut host = Host::new();
    host.state.handshake_timer_id = Some(9);
    assert_eq!(host.timer("timer_start_handshake"), Ask::Nothing);
    assert_eq!(host.state.handshake_timer_id, None);
    assert!(host.taken().is_empty());
}

#[test]
fn the_transfer_starts_once_there_is_a_connection() {
    let mut host = Host::new();
    host.prepare("hello");
    host.timer("timer_start_handshake");
    host.taken();

    assert_eq!(host.message(r#"{"tag":"__hs__","count":0}"#, 0), Ask::Nothing);
    assert_eq!(host.taken(), vec![r#"send dev {"count":1,"tag":"__hs__"}"#]);
    assert_eq!(host.state.handshake_timer_id, Some(2));

    assert_eq!(
        host.message(r#"{"tag":"__hs__","count":1}"#, 0),
        Ask::SendStart {
            device_addr: "dev".to_string(),
            payload: encode_message(&Outgoing::StartTransfer {
                file_name: "file.txt".to_string(),
                total: 1,
            }),
        }
    );
    assert_eq!(
        host.taken(),
        vec!["clear 2", r#"send dev {"count":2,"tag":"__hs__"}"#, "render"]
    );
    assert_eq!(
        shown(&host.state),
        (Some("已连接，开始传输..."), StatusTone::Neutral)
    );
    assert_eq!(host.state.handshake_timer_id, None);
    let transfer = host.state.transfer.as_ref().unwrap();
    assert!(!transfer.pending_start);
    assert!(transfer.handshake_complete);

    assert_eq!(host.message(r#"{"tag":"__hs__","count":1}"#, 0), Ask::Nothing);
    assert_eq!(host.taken(), vec![r#"send dev {"count":2,"tag":"__hs__"}"#]);
    assert_eq!(host.message(r#"{"tag":"__hs__","count":2}"#, 0), Ask::Nothing);
    assert!(host.taken().is_empty());
}

#[test]
fn a_late_step_of_the_handshake_starts_the_transfer_without_an_answer() {
    let mut host = Host::new();
    host.prepare("hello");
    host.taken();
    let step = handle_handshake_message(&mut host.state, 2);
    assert!(matches!(host.run(step), Ask::SendStart { .. }));
    assert_eq!(host.taken(), vec!["clear 1", "render"]);
}

#[test]
fn two_sides_come_to_an_end_of_the_handshake() {
    let mut a = Host::new();
    let mut b = Host::new();
    a.prepare("hello");
    b.prepare("world");
    a.timer("timer_start_handshake");
    let mut to_b: Vec<String> = a.taken();
    let mut rounds = 0;
    loop {
        let sent: Vec<String> = to_b
            .iter()
            .filter_map(|line| line.strip_prefix("send dev ").map(|text| text.to_string()))
            .collect();
        if sent.is_empty() {
            break;
        }
        rounds += 1;
        let receiver = if rounds % 2 == 1 { &mut b } else { &mut a };
        receiver.taken();
        for text in sent {
            receiver.message(&text, 0);
        }
        to_b = receiver.taken();
    }
    assert_eq!(rounds, 3);
    assert!(a.state.transfer.as_ref().unwrap().handshake_complete);
    assert!(b.state.transfer.as_ref().unwrap().handshake_complete);
}

#[test]
fn a_handshake_without_a_transfer_is_ignored() {
    let mut host = Host::new();
    assert_eq!(host.message(r#"{"tag":"__hs__","count":1}"#, 0), Ask::Nothing);
    assert!(host.taken().is_empty());
    assert_eq!(host.state, UiState::new());
}

#[test]
fn the_handshake_times_out() {
    let mut host = Host::new();
    host.prepare("hello");
    host.timer("timer_start_handshake");
    host.taken();
    assert_eq!(host.timer("timer_handshake_timeout"), Ask::Nothing);
    assert_eq!(
        shown(&host.state),
        (Some("连接超时，请确认手环端应用已打开"), StatusTone::Error)
    );
    assert!(idle(&host.state));
    assert_eq!(
        host.taken(),
        vec!["start 3 timer_hide_message 3000", "render"]
    );
    assert_eq!(host.timer("timer_handshake_timeout"), Ask::Nothing);
    assert!(host.taken().is_empty());
}

#[test]
fn a_start_that_cannot_be_announced_fails() {
    let mut host = Host::new();
    host.prepare("hello");
    host.message(r#"{"tag":"__hs__","count":1}"#, 0);
    host.taken();
    let step = start_sent(&mut host.state, false);
    assert_eq!(host.run(step), Ask::Nothing);
    assert_eq!(
        shown(&host.state),
        (Some("发送失败，请重试"), StatusTone::Error)
    );
    assert!(idle(&host.state));
    assert_eq!(
        host.taken(),
        vec!["start 2 timer_hide_message 3000", "render"]
    );
}

#[test]
fn a_file_is_sent_from_the_first_to_the_last_chunk() {
    let text = "漢字x".repeat(20_000);
    let mut host = Host::new();
    host.prepare(&text);
    host.connect();
    let total = host.state.transfer.as_ref().unwrap().total_chunks;
    assert_eq!(total, 3);
    let mut received = String::new();
    let second = 1_000_000_000u128;
    let wanted = [
        r#"{"tag":"file","type":"ready","usage":0,"found":false,"length":0}"#,
        r#"{"tag":"file","type":"next","count":1}"#,
        r#"{"tag":"file","type":"next","count":2}"#,
    ];
    for (i, payload) in wanted.iter().enumerate() {
        let sent = host.chunk(payload, (i as u128 + 5) * second, 46_668 + i);
        let value: serde_json::Value = serde_json::from_str(&sent).unwrap();
        assert_eq!(value.get("count").unwrap().as_u64(), Some(i as u64));
        assert!(value.get("setCount").unwrap().is_null());
        received.push_str(value.get("data").unwrap().as_str().unwrap());
        assert_eq!(host.state.progress, Progress { done: i, total });
        assert_eq!(host.state.transfer.as_ref().unwrap().current_chunk, i);
        assert_eq!(host.taken(), vec!["render"]);
        let expected = ["发送中 0%", "发送中 33%", "发送中 67%"][i];
        assert_eq!(shown(&host.state), (Some(expected), StatusTone::Neutral));
        let speed = [None, Some("45.58 KB/s"), Some("45.58 KB/s")][i];
        assert_eq!(host.state.speed_text.as_deref(), speed);
    }
    assert_eq!(received, text);

    assert_eq!(
        host.message(r#"{"tag":"file","type":"next","count":3}"#, 9 * second),
        Ask::Nothing
    );
    assert_eq!(
        host.taken(),
        vec![r#"send dev {"count":3,"data":"","setCount":null,"stat":"d","tag":"file"}"#]
    );
    assert_eq!(
        host.message(r#"{"tag":"file","type":"next","count":4}"#, 9 * second),
        Ask::Nothing
    );
    assert!(host.taken().is_empty());

    assert_eq!(
        host.message(r#"{"tag":"file","data":{"type":"success"}}"#, 10 * second),
        Ask::Nothing
    );
    assert_eq!(shown(&host.state), (Some("发送成功"), StatusTone::Success));
    assert_eq!(host.state.progress, Progress { done: 1, total: 1 });
    assert!(idle(&host.state));
    assert_eq!(host.state.file_name.as_deref(), Some("file.txt"));
    assert_eq!(
        host.taken(),
        vec!["start 3 timer_hide_message 3000", "render"]
    );
}

#[test]
fn a_device_that_has_a_part_goes_on_behind_it() {
    let text = "x".repeat(5 * 49152);
    let mut host = Host::new();
    host.prepare(&text);
    host.connect();
    let sent = host.chunk(
        r#"{"tag":"file","type":"ready","usage":1,"found":true,"length":98304}"#,
        1,
        0,
    );
    let value: serde_json::Value = serde_json::from_str(&sent).unwrap();
    assert_eq!(value.get("count").unwrap().as_u64(), Some(2));
    assert_eq!(value.get("setCount").unwrap().as_u64(), Some(2));
    assert_eq!(shown(&host.state).0, Some("发送中 40%"));
}

#[test]
fn a_device_that_found_nothing_begins_with_the_first_chunk() {
    for ready in [
        r#"{"tag":"file","type":"ready","found":true,"length":0}"#,
        r#"{"tag":"file","type":"ready","found":false,"length":98304}"#,
        r#"{"tag":"file","type":"ready"}"#,
    ] {
        let mut host = Host::new();
        host.prepare(&"x".repeat(3 * 49152));
        host.connect();
        let sent = host.chunk(ready, 1, 0);
        let value: serde_json::Value = serde_json::from_str(&sent).unwrap();
        assert_eq!(value.get("count").unwrap().as_u64(), Some(0));
        assert!(value.get("setCount").unwrap().is_null());
    }
}

#[test]
fn a_chunk_is_sent_again_after_an_error() {
    let mut host = Host::new();
    host.prepare(&"x".repeat(3 * 49152));
    host.connect();
    host.chunk(r#"{"tag":"file","type":"next","count":2}"#, 1, 0);
    let sent = host.chunk(r#"{"tag":"file","type":"error","count":1}"#, 2, 0);
    let value: serde_json::Value = serde_json::from_str(&sent).unwrap();
    assert_eq!(value.get("count").unwrap().as_u64(), Some(1));
    assert_eq!(value.get("setCount").unwrap().as_u64(), Some(1));
    assert_eq!(host.state.progress, Progress { done: 1, total: 3 });
}

#[test]
fn a_device_with_too_little_storage_gets_nothing() {
    let limit = 25 * 1024 * 1024u64;
    let mut host = Host::new();
    host.prepare("hello");
    host.connect();
    let ready = FileMessage::Ready {
        usage: limit + 1,
        found: false,
        length: 0,
    };
    let step = handle_file_message(&mut host.state, ready, 0);
    assert_eq!(host.run(step), Ask::Nothing);
    assert_eq!(
        shown(&host.state),
        (Some("手环端存储空间不足"), StatusTone::Error)
    );
    assert!(idle(&host.state));

    let mut host = Host::new();
    host.prepare("hello");
    host.connect();
    let ready = FileMessage::Ready {
        usage: limit,
        found: false,
        length: 0,
    };
    let step = handle_file_message(&mut host.state, ready, 0);
    assert!(matches!(host.run(step), Ask::MeasureChunk { .. }));
}

#[test]
fn a_chunk_that_cannot_be_sent_fails() {
    let mut host = Host::new();
    host.prepare("hello");
    host.connect();
    let step = chunk_sent(&mut host.state, false);
    assert_eq!(host.run(step), Ask::Nothing);
    assert_eq!(
        shown(&host.state),
        (Some("发送失败，请重试"), StatusTone::Error)
    );
    assert!(idle(&host.state));
    assert_eq!(host.state.progress, Progress { done: 0, total: 1 });
}

#[test]
fn a_chunk_that_is_not_there_fails() {
    let mut host = Host::new();
    host.prepare("hello");
    host.connect();
    host.state.transfer.as_mut().unwrap().boundaries = vec![0];
    let step = send_next_chunk(&mut host.state, 0, false, 0);
    assert_eq!(host.run(step), Ask::Nothing);
    assert_eq!(shown(&host.state), (Some("分块失败"), StatusTone::Error));
    assert!(idle(&host.state));
    assert_eq!(
        host.taken(),
        vec!["start 3 timer_hide_message 3000", "render"]
    );
}

#[test]
fn no_chunk_is_sent_without_a_transfer() {
    let mut host = Host::new();
    let step = send_next_chunk(&mut host.state, 0, false, 0);
    assert_eq!(host.run(step), Ask::Nothing);
    assert_eq!(host.state, UiState::new());
}

#[test]
fn a_wanted_chunk_waits_for_its_speed() {
    let mut host = Host::new();
    host.prepare("hello");
    host.connect();
    let step = send_next_chunk(&mut host.state, 0, true, 100);
    assert_eq!(
        host.run(step),
        Ask::MeasureChunk {
            chunk: ChunkJob {
                device_addr: "dev".to_string(),
                count: 0,
                total: 1,
                data: "hello".to_string(),
                resend: true,
                elapsed: None,
            }
        }
    );
    let step = send_next_chunk(&mut host.state, 0, false, 350);
    match host.run(step) {
        Ask::MeasureChunk { chunk } => assert_eq!(chunk.elapsed, Some(250)),
        other => panic!("{:?}", other),
    }
}

#[test]
fn time_counts_only_if_it_has_passed() {
    let mut last = None;
    assert_eq!(note_chunk_time(&mut last, 10), None);
    assert_eq!(last, Some(10));
    assert_eq!(note_chunk_time(&mut last, 10), None);
    assert_eq!(note_chunk_time(&mut last, 13), Some(3));
    assert_eq!(note_chunk_time(&mut last, 12), None);
    assert_eq!(last, Some(12));
}

#[test]
fn the_device_can_give_up() {
    let mut host = Host::new();
    host.prepare("hello");
    host.connect();
    assert_eq!(
        host.message(r#"{"tag":"file","type":"cancel"}"#, 0),
        Ask::Nothing
    );
    assert_eq!(
        shown(&host.state),
        (Some("传输已取消"), StatusTone::Neutral)
    );
    assert!(idle(&host.state));
}

#[test]
fn the_user_can_give_up() {
    let mut host = Host::new();
    host.prepare("hello");
    host.taken();
    assert_eq!(host.click("cancel_send"), Ask::Nothing);
    assert_eq!(
        host.taken(),
        vec![
            r#"send dev {"stat":"cancel","tag":"file"}"#,
            "start 2 timer_hide_message 3000",
            "clear 1",
            "render"
        ]
    );
    assert_eq!(
        shown(&host.state),
        (Some("已取消发送"), StatusTone::Neutral)
    );
    assert!(idle(&host.state));
    assert_eq!(host.state.file_text.as_deref(), Some("hello"));
}

#[test]
fn the_user_can_give_up_before_there_is_a_device() {
    let mut host = sending();
    assert_eq!(host.click("cancel_send"), Ask::Nothing);
    assert_eq!(
        host.taken(),
        vec!["start 1 timer_hide_message 3000", "render"]
    );
    assert!(idle(&host.state));
}

#[test]
fn disabled_buttons_do_nothing() {
    let mut host = Host::new();
    assert_eq!(host.click("cancel_send"), Ask::Nothing);
    assert_eq!(host.state, UiState::new());
    assert!(host.taken().is_empty());

    let mut host = Host::new();
    host.prepare("hello");
    host.taken();
    assert_eq!(host.click("send_file"), Ask::Nothing);
    assert!(host.taken().is_empty());
}

#[test]
fn what_is_unknown_is_ignored() {
    let mut host = Host::new();
    assert_eq!(host.click("pick"), Ask::Nothing);
    let step = ui_event_processor(&mut host.state, Event::Other, "pick_file");
    assert_eq!(host.run(step), Ask::Nothing);
    assert_eq!(host.timer("timer"), Ask::Nothing);
    assert_eq!(host.message("hello", 0), Ask::Nothing);
    assert_eq!(host.message(r#"{"tag":"file"}"#, 0), Ask::Nothing);
    let step = handle_message(&mut host.state, Incoming::Unknown, 0);
    assert_eq!(host.run(step), Ask::Nothing);
    assert_eq!(host.state, UiState::new());
    assert!(host.taken().is_empty());
}

#[test]
fn a_message_is_hidden_when_its_timer_fires() {
    let mut host = Host::new();
    host.click("send_file");
    host.taken();
    assert_eq!(
        host.timer(r#"{"payloadText":"timer_hide_message"}"#),
        Ask::Nothing
    );
    assert_eq!(shown(&host.state), (None, StatusTone::Neutral));
    assert_eq!(host.state.hide_message_timer_id, None);
    assert!(host.taken().is_empty());

    host.state.root_element_id = Some("root".to_string());
    host.click("send_file");
    host.taken();
    host.timer("timer_hide_message");
    assert_eq!(host.taken(), vec!["render"]);
}

#[test]
fn a_message_that_stays_stops_the_timer_of_the_one_before() {
    let mut host = Host::new();
    host.click("send_file");
    host.pick("file.txt", b"hello");
    host.taken();
    host.click("send_file");
    assert_eq!(host.taken(), vec!["clear 1", "render"]);
    assert_eq!(host.state.hide_message_timer_id, None);
}

#[test]
fn the_plugin_stays_where_it_was_last_shown() {
    let mut host = Host::new();
    render_main_ui(&mut host.state, "first");
    host.prepare("hello");
    assert_eq!(host.state.root_element_id.as_deref(), Some("first"));
    render_main_ui(&mut host.state, "second");
    host.connect();
    host.chunk(r#"{"tag":"file","type":"next","count":0}"#, 1, 0);
    host.message(r#"{"tag":"file","type":"success"}"#, 2);
    host.timer("timer_hide_message");
    host.pick("b.bin", &[0xff]);
    let (root, ui) = render_from_state(&host.state).unwrap();
    assert_eq!(root, "second");
    assert_eq!(ui, build_main_ui(&host.state));
}

#[test]
fn timers_are_remembered_by_what_they_are_for() {
    let mut state = UiState::new();
    timer_started(&mut state, TimerKind::HideMessage, 4);
    timer_started(&mut state, TimerKind::StartHandshake, 5);
    assert_eq!(state.hide_message_timer_id, Some(4));
    assert_eq!(state.handshake_timer_id, Some(5));
    timer_started(&mut state, TimerKind::HandshakeTimeout, 6);
    assert_eq!(state.handshake_timer_id, Some(6));
    assert_eq!(state.hide_message_timer_id, Some(4));
}

#[test]
fn a_message_may_come_inside_an_event() {
    let mut host = Host::new();
    host.prepare("hello");
    host.taken();
    assert!(matches!(
        host.message(r#"{"payload":{"tag":"__hs__","count":2}}"#, 0),
        Ask::SendStart { .. }
    ));
    let mut host = Host::new();
    host.prepare("hello");
    host.taken();
    assert!(matches!(
        host.message(r#"{"payloadText":"{\"tag\":\"__hs__\",\"count\":2}"}"#, 0),
        Ask::SendStart { .. }
    ));
}
