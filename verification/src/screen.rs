//! What is shown on the screen.

use crate::element;
use crate::element::{Element, ElementType, Event, FlexDirection, Item};
use crate::rounding;
use crate::state;
use crate::state::{Progress, StatusTone, UiState};
use crate::ui::{EVENT_CANCEL_SEND, EVENT_PICK_FILE, EVENT_SEND_FILE};
use crate::units;
use vstd::prelude::*;

verus! {

/// The width of a full progress bar.
pub const PROGRESS_BAR_WIDTH: u32 = 240;

/// The least width of a progress bar that is not empty.
pub const MIN_PROGRESS_WIDTH: u32 = 2;

/// The width of the filled part of the progress bar.
pub open spec fn filled_width(progress: Progress) -> u32 {
    let share = rounding::length_share(
        progress.done as nat,
        progress.total as nat,
        PROGRESS_BAR_WIDTH as nat,
    ) as u32;
    if progress.done == 0 {
        0
    } else if share < MIN_PROGRESS_WIDTH {
        MIN_PROGRESS_WIDTH
    } else {
        share
    }
}

/// What is said about the file.
pub open spec fn file_info_text(state: state::UiModel) -> Seq<char> {
    match state.file_name {
        Some(name) => name + " | "@ + units::bytes_text(state.file_size_bytes as nat),
        None => "未选择文件"@,
    }
}

/// What is said about the speed of the transfer.
pub open spec fn speed_label_text(state: state::UiModel) -> Seq<char> {
    "速率 "@ + match state.speed_text {
        Some(text) => text,
        None => "-"@,
    }
}

/// The status message, or a blank in its place.
pub open spec fn status_text(state: state::UiModel) -> Seq<char> {
    match state.status_message {
        Some(message) => message,
        None => " "@,
    }
}

/// The colour of the status message, if it is not the usual one.
pub open spec fn status_color(state: state::UiModel) -> Option<Seq<char>> {
    if state.status_message is None {
        None
    } else {
        match state.status_tone {
            StatusTone::Success => Some("#2E7D32"@),
            StatusTone::Error => Some("#B00020"@),
            StatusTone::Neutral => None,
        }
    }
}

/// Whether the user can pick a file.
pub open spec fn can_pick(state: state::UiModel) -> bool {
    !state.is_sending
}

/// Whether the user can have the file sent.
pub open spec fn can_send(state: state::UiModel) -> bool {
    !state.is_sending && state.file_text is Some
}

/// Whether the user can have the transfer given up.
pub open spec fn can_cancel(state: state::UiModel) -> bool {
    state.is_sending
}

/// A button that reports clicks under a name while it is enabled.
pub open spec fn button_element(
    label: Seq<char>,
    event: Seq<char>,
    enabled: bool,
) -> element::ElementModel {
    let button = element::ElementModel::new(ElementType::Button, Some(label)).with(
        element::ItemModel::Bg("f0f0f0"@),
    ).with(element::ItemModel::On(Event::Click, event));
    if enabled {
        button
    } else {
        button.with(element::ItemModel::Disabled)
    }
}

/// The row of buttons.
pub open spec fn button_row_element(state: state::UiModel) -> element::ElementModel {
    element::ElementModel::new(ElementType::Div, None).with(element::ItemModel::Flex).with(
        element::ItemModel::Direction(FlexDirection::Row),
    ).with(element::ItemModel::AlignCenter).with(
        element::ItemModel::Child(
            button_element("选择文件"@, EVENT_PICK_FILE@, can_pick(state)),
        ),
    ).with(
        element::ItemModel::Child(
            button_element("发送"@, EVENT_SEND_FILE@, can_send(state)).with(
                element::ItemModel::MarginLeft(8),
            ),
        ),
    ).with(
        element::ItemModel::Child(
            button_element("取消"@, EVENT_CANCEL_SEND@, can_cancel(state)).with(
                element::ItemModel::MarginLeft(8),
            ),
        ),
    ).with(element::ItemModel::MarginBottom(12))
}

/// The line with the speed of the transfer.
pub open spec fn speed_element(state: state::UiModel) -> element::ElementModel {
    element::ElementModel::new(ElementType::Div, None).with(element::ItemModel::Flex).with(
        element::ItemModel::Direction(FlexDirection::Row),
    ).with(element::ItemModel::AlignCenter).with(element::ItemModel::MarginBottom(6)).with(
        element::ItemModel::Child(
            element::ElementModel::new(ElementType::P, Some(speed_label_text(state))).with(
                element::ItemModel::Size(12),
            ).with(element::ItemModel::TextColor("#666666"@)),
        ),
    )
}

/// The progress bar, filled up to a width.
pub open spec fn progress_element(width: u32) -> element::ElementModel {
    element::ElementModel::new(ElementType::Div, None).with(
        element::ItemModel::Bg("#F0F0F0"@),
    ).with(element::ItemModel::Radius(6)).with(
        element::ItemModel::Width(PROGRESS_BAR_WIDTH),
    ).with(element::ItemModel::Height(6)).with(
        element::ItemModel::Child(
            element::ElementModel::new(ElementType::Div, None).with(
                element::ItemModel::Bg("#1781FF"@),
            ).with(element::ItemModel::Height(6)).with(element::ItemModel::Width(width)).with(
                element::ItemModel::Radius(6),
            ).with(element::ItemModel::Transition("width 200ms ease"@)),
        ),
    ).with(element::ItemModel::MarginBottom(12))
}

/// The line with the status message.
pub open spec fn status_element(state: state::UiModel) -> element::ElementModel {
    let line = element::ElementModel::new(ElementType::P, Some(status_text(state))).with(
        element::ItemModel::Size(12),
    ).with(element::ItemModel::MarginBottom(4));
    match status_color(state) {
        Some(color) => line.with(element::ItemModel::TextColor(color)),
        None => line,
    }
}

/// The whole screen.
pub open spec fn main_element(state: state::UiModel) -> element::ElementModel {
    element::ElementModel::new(ElementType::Div, None).with(element::ItemModel::Flex).with(
        element::ItemModel::Direction(FlexDirection::Column),
    ).with(element::ItemModel::Padding(16)).with(
        element::ItemModel::Border(1, "#1f1f1f"@),
    ).with(element::ItemModel::Radius(10)).with(element::ItemModel::WidthFull).with(
        element::ItemModel::Child(
            element::ElementModel::new(ElementType::P, Some("文件"@)).with(
                element::ItemModel::Size(12),
            ).with(element::ItemModel::TextColor("#666666"@)).with(
                element::ItemModel::MarginBottom(4),
            ),
        ),
    ).with(
        element::ItemModel::Child(
            element::ElementModel::new(ElementType::P, Some(file_info_text(state))).with(
                element::ItemModel::Size(14),
            ).with(element::ItemModel::MarginBottom(12)),
        ),
    ).with(element::ItemModel::Child(button_row_element(state))).with(
        element::ItemModel::Child(speed_element(state)),
    ).with(
        element::ItemModel::Child(progress_element(filled_width(state.progress))),
    ).with(element::ItemModel::Child(status_element(state))).with(
        element::ItemModel::Child(
            element::ElementModel::new(
                ElementType::Span,
                Some(
                    "若要直接通过手环搜索歌曲，请使用「网桥FetchBridge」插件。"@,
                ),
            ).with(element::ItemModel::Size(14)).with(
                element::ItemModel::TextColor("#ffffff"@),
            ).with(element::ItemModel::MarginBottom(12)),
        ),
    )
}

fn build_button(label: &str, event: &'static str, enabled: bool) -> (button: Element)
    ensures
        button@ == button_element(label@, event@, enabled),
{
    let button = Element::new(ElementType::Button, Some(label)).with(Item::Bg("f0f0f0")).with(
        Item::On(Event::Click, event),
    );
    if enabled {
        button
    } else {
        button.with(Item::Disabled)
    }
}

fn build_button_row(state: &UiState) -> (row: Element)
    ensures
        row@ == button_row_element(state@),
{
    let pick_button = build_button("选择文件", EVENT_PICK_FILE, !state.is_sending);
    let send_button = build_button(
        "发送",
        EVENT_SEND_FILE,
        !state.is_sending && state.file_text.is_some(),
    );
    let cancel_button = build_button("取消", EVENT_CANCEL_SEND, state.is_sending);
    Element::new(ElementType::Div, None).with(Item::Flex).with(
        Item::Direction(FlexDirection::Row),
    ).with(Item::AlignCenter).with(Item::Child(pick_button)).with(
        Item::Child(send_button.with(Item::MarginLeft(8))),
    ).with(Item::Child(cancel_button.with(Item::MarginLeft(8)))).with(Item::MarginBottom(12))
}

fn build_speed(state: &UiState) -> (line: Element)
    ensures
        line@ == speed_element(state@),
{
    let mut label = "速率 ".to_string();
    match &state.speed_text {
        Some(text) => label.append(text.as_str()),
        None => label.append("-"),
    }
    let speed_text = Element::new(ElementType::P, Some(label.as_str())).with(Item::Size(12)).with(
        Item::TextColor("#666666"),
    );
    Element::new(ElementType::Div, None).with(Item::Flex).with(
        Item::Direction(FlexDirection::Row),
    ).with(Item::AlignCenter).with(Item::MarginBottom(6)).with(Item::Child(speed_text))
}

fn build_progress(width: u32) -> (bar: Element)
    ensures
        bar@ == progress_element(width),
{
    let progress_fill = Element::new(ElementType::Div, None).with(Item::Bg("#1781FF")).with(
        Item::Height(6),
    ).with(Item::Width(width)).with(Item::Radius(6)).with(Item::Transition("width 200ms ease"));
    Element::new(ElementType::Div, None).with(Item::Bg("#F0F0F0")).with(Item::Radius(6)).with(
        Item::Width(PROGRESS_BAR_WIDTH),
    ).with(Item::Height(6)).with(Item::Child(progress_fill)).with(Item::MarginBottom(12))
}

fn build_status(state: &UiState) -> (line: Element)
    ensures
        line@ == status_element(state@),
{
    match &state.status_message {
        Some(message) => {
            let line = Element::new(ElementType::P, Some(message.as_str())).with(
                Item::Size(12),
            ).with(Item::MarginBottom(4));
            match state.status_tone {
                StatusTone::Success => line.with(Item::TextColor("#2E7D32")),
                StatusTone::Error => line.with(Item::TextColor("#B00020")),
                StatusTone::Neutral => line,
            }
        },
        None => Element::new(ElementType::P, Some(" ")).with(Item::Size(12)).with(
            Item::MarginBottom(4),
        ),
    }
}

/// Finds the width of the filled part of the progress bar.
pub fn progress_width(progress: Progress) -> (width: u32)
    ensures
        width == filled_width(progress),
{
    let share: u32 = rounding::find_length_share(
        progress.done,
        progress.total,
        PROGRESS_BAR_WIDTH,
    );
    if progress.done == 0 {
        0
    } else if share < MIN_PROGRESS_WIDTH {
        MIN_PROGRESS_WIDTH
    } else {
        share
    }
}

/// Describes the screen.
pub fn build_main_ui(state: &UiState) -> (ui: Element)
    ensures
        ui@ == main_element(state@),
{
    let file_label = Element::new(ElementType::P, Some("文件")).with(Item::Size(12)).with(
        Item::TextColor("#666666"),
    ).with(Item::MarginBottom(4));
    let file_info = match &state.file_name {
        Some(name) => {
            let size = units::format_bytes(state.file_size_bytes);
            let mut info = name.clone();
            info.append(" | ");
            info.append(size.as_str());
            info
        },
        None => "未选择文件".to_string(),
    };
    let file_info = Element::new(ElementType::P, Some(file_info.as_str())).with(
        Item::Size(14),
    ).with(Item::MarginBottom(12));
    let button_row = build_button_row(state);
    let progress_meta = build_speed(state);
    let progress_bar = build_progress(progress_width(state.progress));
    let status = build_status(state);
    let text_display = Element::new(
        ElementType::Span,
        Some("若要直接通过手环搜索歌曲，请使用「网桥FetchBridge」插件。"),
    ).with(Item::Size(14)).with(Item::TextColor("#ffffff")).with(Item::MarginBottom(12));
    Element::new(ElementType::Div, None).with(Item::Flex).with(
        Item::Direction(FlexDirection::Column),
    ).with(Item::Padding(16)).with(Item::Border(1, "#1f1f1f")).with(Item::Radius(10)).with(
        Item::WidthFull,
    ).with(Item::Child(file_label)).with(Item::Child(file_info)).with(
        Item::Child(button_row),
    ).with(Item::Child(progress_meta)).with(Item::Child(progress_bar)).with(
        Item::Child(status),
    ).with(Item::Child(text_display))
}

/// The plugin is shown in an element of the host's screen from now on.
pub open spec fn after_shown(state: state::UiModel, element_id: Seq<char>) -> state::UiModel {
    state::UiModel { root_element_id: Some(element_id), ..state }
}

/// Shows the plugin in an element of the host's screen from now on, and describes the screen.
pub fn render_main_ui(state: &mut UiState, element_id: &str) -> (ui: Element)
    ensures
        final(state)@ == after_shown(old(state)@, element_id@),
        ui@ == main_element(final(state)@),
{
    state.root_element_id = Some(element_id.to_string());
    build_main_ui(state)
}

/// Where the screen is shown and what is shown there, if it is shown anywhere.
pub open spec fn shown(state: state::UiModel) -> Option<(Seq<char>, element::ElementModel)> {
    match state.root_element_id {
        Some(root) => Some((root, main_element(state))),
        None => None,
    }
}

/// Describes the screen and says where it is shown, if it is shown anywhere.
pub fn render_from_state(state: &UiState) -> (result: Option<(String, Element)>)
    ensures
        match result {
            Some((root, ui)) => shown(state@) == Some((root@, ui@)),
            None => shown(state@) is None,
        },
{
    match &state.root_element_id {
        Some(root) => Some((root.clone(), build_main_ui(state))),
        None => None,
    }
}

} // verus!
