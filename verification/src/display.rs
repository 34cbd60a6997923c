//! What is on the screen, part by part.

use crate::element;
use crate::element::{Element, ElementType, Event, FlexDirection, Item};
use crate::numerals;
use crate::screen;
use crate::state;
use crate::state::StatusTone;
use crate::units;
use vstd::prelude::*;

verus! {

/// The element that an item adds.
pub open spec fn child_of(item: element::ItemModel) -> element::ElementModel {
    item->Child_0
}

/// Whether an element is of a kind, has a text, and has so many items.
pub open spec fn is_element(
    element: element::ElementModel,
    kind: ElementType,
    text: Option<Seq<char>>,
    items: nat,
) -> bool {
    element.kind == kind && element.text == text && element.items.len() == items
}

/// The screen is a column with a border, of seven parts.
pub proof fn law_screen_is_a_column(state: state::UiModel)
    ensures
        ({
            let ui = screen::main_element(state);
            &&& is_element(ui, ElementType::Div, None, 13)
            &&& ui.items[0] == element::ItemModel::Flex
            &&& ui.items[1] == element::ItemModel::Direction(FlexDirection::Column)
            &&& ui.items[2] == element::ItemModel::Padding(16)
            &&& ui.items[3] == element::ItemModel::Border(1, "#1f1f1f"@)
            &&& ui.items[4] == element::ItemModel::Radius(10)
            &&& ui.items[5] == element::ItemModel::WidthFull
            &&& forall|i: int| 6 <= i < 13 ==> #[trigger] ui.items[i] is Child
        }),
{
}

/// The first part names the second, which names the file and its size, if there is one.
pub proof fn law_screen_shows_file(state: state::UiModel)
    ensures
        ({
            let label = child_of(screen::main_element(state).items[6]);
            let info = child_of(screen::main_element(state).items[7]);
            &&& is_element(label, ElementType::P, Some("文件"@), 3)
            &&& label.items[0] == element::ItemModel::Size(12)
            &&& label.items[1] == element::ItemModel::TextColor("#666666"@)
            &&& label.items[2] == element::ItemModel::MarginBottom(4)
            &&& is_element(
                info,
                ElementType::P,
                Some(
                    match state.file_name {
                        Some(name) => name + " | "@ + units::bytes_text(
                            state.file_size_bytes as nat,
                        ),
                        None => "未选择文件"@,
                    },
                ),
                2,
            )
            &&& info.items[0] == element::ItemModel::Size(14)
            &&& info.items[1] == element::ItemModel::MarginBottom(12)
        }),
{
}

/// Whether an element is a button with a label that reports clicks under a name, and is disabled or
/// not. `more` items follow.
pub open spec fn is_button(
    button: element::ElementModel,
    label: Seq<char>,
    name: Seq<char>,
    disabled: bool,
    more: Seq<element::ItemModel>,
) -> bool {
    let shut = if disabled {
        seq![element::ItemModel::Disabled]
    } else {
        Seq::empty()
    };
    &&& button.kind == ElementType::Button
    &&& button.text == Some(label)
    &&& button.items == seq![
        element::ItemModel::Bg("f0f0f0"@),
        element::ItemModel::On(Event::Click, name),
    ] + shut + more
}

/// The third part is a row of three buttons. A file can be picked and sent while none is being sent,
/// and sent only if there is one. Sending can be cancelled while it goes on.
pub proof fn law_screen_shows_buttons(state: state::UiModel)
    ensures
        ({
            let row = child_of(screen::main_element(state).items[8]);
            let margin = seq![element::ItemModel::MarginLeft(8)];
            &&& is_element(row, ElementType::Div, None, 7)
            &&& row.items[0] == element::ItemModel::Flex
            &&& row.items[1] == element::ItemModel::Direction(FlexDirection::Row)
            &&& row.items[2] == element::ItemModel::AlignCenter
            &&& row.items[3] is Child && row.items[4] is Child && row.items[5] is Child
            &&& is_button(
                child_of(row.items[3]),
                "选择文件"@,
                "pick_file"@,
                state.is_sending,
                Seq::empty(),
            )
            &&& is_button(
                child_of(row.items[4]),
                "发送"@,
                "send_file"@,
                state.is_sending || state.file_text is None,
                margin,
            )
            &&& is_button(
                child_of(row.items[5]),
                "取消"@,
                "cancel_send"@,
                !state.is_sending,
                margin,
            )
            &&& row.items[6] == element::ItemModel::MarginBottom(12)
        }),
{
    let row = child_of(screen::main_element(state).items[8]);
    lemma_button("选择文件"@, "pick_file"@, !state.is_sending);
    lemma_button("发送"@, "send_file"@, !state.is_sending && state.file_text is Some);
    lemma_button("取消"@, "cancel_send"@, state.is_sending);
    assert(row == screen::button_row_element(state));
}

proof fn lemma_button(label: Seq<char>, name: Seq<char>, enabled: bool)
    ensures
        is_button(
            screen::button_element(label, name, enabled),
            label,
            name,
            !enabled,
            Seq::empty(),
        ),
        is_button(
            screen::button_element(label, name, enabled).with(element::ItemModel::MarginLeft(8)),
            label,
            name,
            !enabled,
            seq![element::ItemModel::MarginLeft(8)],
        ),
{
    let button = screen::button_element(label, name, enabled);
    let base = seq![
        element::ItemModel::Bg("f0f0f0"@),
        element::ItemModel::On(Event::Click, name),
    ];
    let shut = if enabled {
        Seq::empty()
    } else {
        seq![element::ItemModel::Disabled]
    };
    assert(button.items =~= base + shut + Seq::empty());
    assert(button.with(element::ItemModel::MarginLeft(8)).items =~= base + shut + seq![
        element::ItemModel::MarginLeft(8),
    ]);
}

/// The fourth part is a line with the speed, or a dash.
pub proof fn law_screen_shows_speed(state: state::UiModel)
    ensures
        ({
            let row = child_of(screen::main_element(state).items[9]);
            let line = child_of(row.items[4]);
            &&& is_element(row, ElementType::Div, None, 5)
            &&& row.items[0] == element::ItemModel::Flex
            &&& row.items[1] == element::ItemModel::Direction(FlexDirection::Row)
            &&& row.items[2] == element::ItemModel::AlignCenter
            &&& row.items[3] == element::ItemModel::MarginBottom(6)
            &&& row.items[4] is Child
            &&& is_element(
                line,
                ElementType::P,
                Some(
                    "速率 "@ + match state.speed_text {
                        Some(speed) => speed,
                        None => "-"@,
                    },
                ),
                2,
            )
            &&& line.items[0] == element::ItemModel::Size(12)
            &&& line.items[1] == element::ItemModel::TextColor("#666666"@)
        }),
{
}

/// The fifth part is the progress bar. It is 240 wide and filled, in every state, as far as the file
/// was sent: not at all if nothing was, else at least 2, at most 240, and but for that within a
/// half, and hardly more, of 240 times the share that was sent.
pub proof fn law_screen_shows_progress(state: state::UiModel)
    ensures
        ({
            let bar = child_of(screen::main_element(state).items[10]);
            let fill = child_of(bar.items[4]);
            let width = fill.items[2]->Width_0;
            let done = state.progress.done;
            let total = state.progress.total;
            &&& is_element(bar, ElementType::Div, None, 6)
            &&& bar.items[0] == element::ItemModel::Bg("#F0F0F0"@)
            &&& bar.items[1] == element::ItemModel::Radius(6)
            &&& bar.items[2] == element::ItemModel::Width(240)
            &&& bar.items[3] == element::ItemModel::Height(6)
            &&& bar.items[4] is Child
            &&& bar.items[5] == element::ItemModel::MarginBottom(12)
            &&& is_element(fill, ElementType::Div, None, 5)
            &&& fill.items[0] == element::ItemModel::Bg("#1781FF"@)
            &&& fill.items[1] == element::ItemModel::Height(6)
            &&& fill.items[2] is Width
            &&& fill.items[3] == element::ItemModel::Radius(6)
            &&& fill.items[4] == element::ItemModel::Transition("width 200ms ease"@)
            &&& width <= 240
            &&& width == 0 <==> done == 0
            &&& done > 0 ==> width >= 2
            &&& done >= total > 0 ==> width == 240
            &&& 0 < done <= total <= 0x100_0000 ==> (240 * done - width * total) * 0x8000 <= total
                * 0x4001
            &&& 0 < done <= total <= 0x100_0000 && width > 2 ==> (width * total - 240 * done)
                * 0x8000 <= total * 0x4001
            &&& done > 0 && total > 0 ==> exists|part: int| #[trigger]
                numerals::is_share(part, 240, done as nat, total as nat, true) && width
                    == if part < 2 {
                    2
                } else {
                    part
                }
        }),
{
    let progress = state.progress;
    crate::laws::law_bar_holds_filled_part(progress);
    if progress.done >= progress.total && progress.total > 0 {
        crate::laws::law_bar_is_full_in_the_end(progress);
    }
    if 0 < progress.done <= progress.total && progress.total <= 0x100_0000 {
        numerals::law_filled_width_is_close(progress);
    }
    if progress.done > 0 && progress.total > 0 {
        numerals::law_filled_width_is_share(progress);
    }
    let bar = child_of(screen::main_element(state).items[10]);
    assert(bar == screen::progress_element(screen::filled_width(progress)));
}

/// The sixth part is the status message in the colour of its tone, or a blank.
pub proof fn law_screen_shows_status(state: state::UiModel)
    ensures
        ({
            let line = child_of(screen::main_element(state).items[11]);
            &&& line.kind == ElementType::P
            &&& line.text == Some(
                match state.status_message {
                    Some(message) => message,
                    None => " "@,
                },
            )
            &&& line.items.len() >= 2
            &&& line.items[0] == element::ItemModel::Size(12)
            &&& line.items[1] == element::ItemModel::MarginBottom(4)
            &&& match (state.status_message, state.status_tone) {
                (Some(_), StatusTone::Success) => line.items.len() == 3 && line.items[2]
                    == element::ItemModel::TextColor("#2E7D32"@),
                (Some(_), StatusTone::Error) => line.items.len() == 3 && line.items[2]
                    == element::ItemModel::TextColor("#B00020"@),
                _ => line.items.len() == 2,
            }
        }),
{
}

/// The last part says where songs can be searched for.
pub proof fn law_screen_shows_hint(state: state::UiModel)
    ensures
        ({
            let hint = child_of(screen::main_element(state).items[12]);
            &&& is_element(
                hint,
                ElementType::Span,
                Some("若要直接通过手环搜索歌曲，请使用「网桥FetchBridge」插件。"@),
                3,
            )
            &&& hint.items[0] == element::ItemModel::Size(14)
            &&& hint.items[1] == element::ItemModel::TextColor("#ffffff"@)
            &&& hint.items[2] == element::ItemModel::MarginBottom(12)
        }),
{
}

/// The view of an element shows its kind, its text and each item in its place.
pub proof fn law_element_is_seen_whole(element: Element)
    ensures
        element@.kind == element.kind,
        match element.text {
            Some(text) => element@.text == Some(text@),
            None => element@.text is None,
        },
        element@.items.len() == element.items@.len(),
        forall|i: int|
            0 <= i < element.items@.len() ==> #[trigger] element@.items[i] == element.items@[i]@,
{
    assert forall|i: int| 0 <= i < element.items@.len() implies #[trigger] element@.items[i]
        == element.items@[i]@ by {
        assert(element.items@[i]@ == element.items@[i].model());
    }
}

/// The view of an item shows what it is and each field.
pub proof fn law_item_is_seen_whole(item: Item)
    ensures
        match item {
            Item::Size(size) => item@ == element::ItemModel::Size(size),
            Item::TextColor(color) => item@ == element::ItemModel::TextColor(color@),
            Item::Bg(color) => item@ == element::ItemModel::Bg(color@),
            Item::MarginBottom(margin) => item@ == element::ItemModel::MarginBottom(margin),
            Item::MarginLeft(margin) => item@ == element::ItemModel::MarginLeft(margin),
            Item::Padding(padding) => item@ == element::ItemModel::Padding(padding),
            Item::Border(width, color) => item@ == element::ItemModel::Border(width, color@),
            Item::Radius(radius) => item@ == element::ItemModel::Radius(radius),
            Item::Width(width) => item@ == element::ItemModel::Width(width),
            Item::WidthFull => item@ is WidthFull,
            Item::Height(height) => item@ == element::ItemModel::Height(height),
            Item::Transition(text) => item@ == element::ItemModel::Transition(text@),
            Item::Flex => item@ is Flex,
            Item::Direction(direction) => item@ == element::ItemModel::Direction(direction),
            Item::AlignCenter => item@ is AlignCenter,
            Item::Disabled => item@ is Disabled,
            Item::On(event, name) => item@ == element::ItemModel::On(event, name@),
            Item::Child(child) => item@ == element::ItemModel::Child(child@),
        },
{
}

/// Elements are built up item by item.
pub proof fn law_elements_are_built_up(
    kind: ElementType,
    text: Option<Seq<char>>,
    before: element::ElementModel,
    item: element::ItemModel,
)
    ensures
        is_element(element::ElementModel::new(kind, text), kind, text, 0),
        is_element(before.with(item), before.kind, before.text, before.items.len() + 1),
        before.with(item).items.drop_last() == before.items,
        before.with(item).items.last() == item,
{
    assert(before.with(item).items.drop_last() =~= before.items);
}

} // verus!
