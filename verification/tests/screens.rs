use hyperbox::element::{Element, ElementType, Event, FlexDirection, Item};
use hyperbox::screen::{build_main_ui, render_from_state, render_main_ui};
use hyperbox::state::{Progress, StatusTone, UiState};

fn children(element: &Element) -> Vec<&Element> {
    element
        .items
        .iter()
        .filter_map(|item| match item {
            Item::Child(child) => Some(child),
            _ => None,
        })
        .collect()
}

fn text(element: &Element) -> &str {
    element.text.as_deref().unwrap()
}

fn disabled(element: &Element) -> bool {
    element.items.contains(&Item::Disabled)
}

fn color(element: &Element) -> Option<&'static str> {
    element
        .items
        .iter()
        .filter_map(|item| match item {
            Item::TextColor(color) => Some(*color),
            _ => None,
        })
        .last()
}

fn filled(element: &Element) -> u32 {
    let bar = children(children(element)[4])[0];
    match bar.items[2] {
        Item::Width(width) => width,
        _ => panic!("{:?}", bar),
    }
}

fn buttons(element: &Element) -> Vec<bool> {
    children(children(element)[2])
        .iter()
        .map(|button| !disabled(button))
        .collect()
}

#[test]
fn the_screen_of_a_plugin_that_nothing_has_happened_to() {
    let ui = build_main_ui(&UiState::new());
    assert_eq!(ui.kind, ElementType::Div);
    assert_eq!(ui.text, None);
    assert_eq!(
        ui.items[..6],
        [
            Item::Flex,
            Item::Direction(FlexDirection::Column),
            Item::Padding(16),
            Item::Border(1, "#1f1f1f"),
            Item::Radius(10),
            Item::WidthFull,
        ]
    );
    let rows = children(&ui);
    assert_eq!(rows.len(), 7);
    assert_eq!(ui.items.len(), 13);

    assert_eq!(
        *rows[0],
        Element {
            kind: ElementType::P,
            text: Some("文件".to_string()),
            items: vec![
                Item::Size(12),
                Item::TextColor("#666666"),
                Item::MarginBottom(4)
            ],
        }
    );
    assert_eq!(
        *rows[1],
        Element {
            kind: ElementType::P,
            text: Some("未选择文件".to_string()),
            items: vec![Item::Size(14), Item::MarginBottom(12)],
        }
    );
    assert_eq!(
        *rows[2],
        Element {
            kind: ElementType::Div,
            text: None,
            items: vec![
                Item::Flex,
                Item::Direction(FlexDirection::Row),
                Item::AlignCenter,
                Item::Child(Element {
                    kind: ElementType::Button,
                    text: Some("选择文件".to_string()),
                    items: vec![Item::Bg("f0f0f0"), Item::On(Event::Click, "pick_file")],
                }),
                Item::Child(Element {
                    kind: ElementType::Button,
                    text: Some("发送".to_string()),
                    items: vec![
                        Item::Bg("f0f0f0"),
                        Item::On(Event::Click, "send_file"),
                        Item::Disabled,
                        Item::MarginLeft(8),
                    ],
                }),
                Item::Child(Element {
                    kind: ElementType::Button,
                    text: Some("取消".to_string()),
                    items: vec![
                        Item::Bg("f0f0f0"),
                        Item::On(Event::Click, "cancel_send"),
                        Item::Disabled,
                        Item::MarginLeft(8),
                    ],
                }),
                Item::MarginBottom(12),
            ],
        }
    );
    assert_eq!(
        *rows[3],
        Element {
            kind: ElementType::Div,
            text: None,
            items: vec![
                Item::Flex,
                Item::Direction(FlexDirection::Row),
                Item::AlignCenter,
                Item::MarginBottom(6),
                Item::Child(Element {
                    kind: ElementType::P,
                    text: Some("速率 -".to_string()),
                    items: vec![Item::Size(12), Item::TextColor("#666666")],
                }),
            ],
        }
    );
    assert_eq!(
        *rows[4],
        Element {
            kind: ElementType::Div,
            text: None,
            items: vec![
                Item::Bg("#F0F0F0"),
                Item::Radius(6),
                Item::Width(240),
                Item::Height(6),
                Item::Child(Element {
                    kind: ElementType::Div,
                    text: None,
                    items: vec![
                        Item::Bg("#1781FF"),
                        Item::Height(6),
                        Item::Width(0),
                        Item::Radius(6),
                        Item::Transition("width 200ms ease"),
                    ],
                }),
                Item::MarginBottom(12),
            ],
        }
    );
    assert_eq!(
        *rows[5],
        Element {
            kind: ElementType::P,
            text: Some(" ".to_string()),
            items: vec![Item::Size(12), Item::MarginBottom(4)],
        }
    );
    assert_eq!(
        *rows[6],
        Element {
            kind: ElementType::Span,
            text: Some("若要直接通过手环搜索歌曲，请使用「网桥FetchBridge」插件。".to_string()),
            items: vec![
                Item::Size(14),
                Item::TextColor("#ffffff"),
                Item::MarginBottom(12)
            ],
        }
    );
}

#[test]
fn a_file_is_shown_with_its_size() {
    let mut state = UiState::new();
    state.file_name = Some("歌.txt".to_string());
    state.file_text = Some("x".repeat(1536));
    state.file_size_bytes = 1536;
    let ui = build_main_ui(&state);
    assert_eq!(text(children(&ui)[1]), "歌.txt | 1.50 KB");
    assert_eq!(buttons(&ui), vec![true, true, false]);
}

#[test]
fn only_giving_up_is_possible_while_a_file_is_sent() {
    let mut state = UiState::new();
    state.file_name = Some("a".to_string());
    state.file_text = Some("a".to_string());
    state.is_sending = true;
    assert_eq!(buttons(&build_main_ui(&state)), vec![false, false, true]);
    state.is_sending = false;
    assert_eq!(buttons(&build_main_ui(&state)), vec![true, true, false]);
}

#[test]
fn the_status_message_has_the_colour_of_its_tone() {
    let mut state = UiState::new();
    state.status_message = Some("news".to_string());
    for (tone, expected) in [
        (StatusTone::Neutral, None),
        (StatusTone::Success, Some("#2E7D32")),
        (StatusTone::Error, Some("#B00020")),
    ] {
        state.status_tone = tone;
        let ui = build_main_ui(&state);
        assert_eq!(text(children(&ui)[5]), "news");
        assert_eq!(color(children(&ui)[5]), expected);
    }
    state.status_message = None;
    let ui = build_main_ui(&state);
    assert_eq!(text(children(&ui)[5]), " ");
    assert_eq!(color(children(&ui)[5]), None);
}

#[test]
fn speed_and_progress_are_shown() {
    let mut state = UiState::new();
    state.speed_text = Some("48.00 KB/s".to_string());
    state.progress = Progress { done: 1, total: 3 };
    let ui = build_main_ui(&state);
    assert_eq!(text(children(children(&ui)[3])[0]), "速率 48.00 KB/s");
    assert_eq!(filled(&ui), 80);
    state.progress = Progress { done: 1, total: 1 };
    assert_eq!(filled(&build_main_ui(&state)), 240);
    state.progress = Progress {
        done: 1,
        total: 100_000,
    };
    assert_eq!(filled(&build_main_ui(&state)), 2);
}

#[test]
fn the_screen_is_shown_where_it_was_asked_for() {
    let mut state = UiState::new();
    assert_eq!(render_from_state(&state), None);
    let ui = render_main_ui(&mut state, "root");
    assert_eq!(state.root_element_id.as_deref(), Some("root"));
    assert_eq!(ui, build_main_ui(&state));
    assert_eq!(render_from_state(&state), Some(("root".to_string(), ui)));
    render_main_ui(&mut state, "other");
    assert_eq!(state.root_element_id.as_deref(), Some("other"));
}

#[test]
fn what_is_not_shown_makes_no_difference() {
    let mut a = UiState::new();
    let mut b = UiState::new();
    a.file_text = Some("one".to_string());
    b.file_text = Some("two".to_string());
    b.hide_message_timer_id = Some(4);
    b.handshake_timer_id = Some(5);
    b.root_element_id = Some("root".to_string());
    assert_eq!(build_main_ui(&a), build_main_ui(&b));
}
