//! A description of what is shown on the screen.

use vstd::prelude::*;

verus! {

/// The kinds of elements.
#[derive(Clone, Copy, Debug, PartialEq, Eq, Structural)]
pub enum ElementType {
    P,
    Button,
    Div,
    Span,
}

/// How the children of an element are laid out.
#[derive(Clone, Copy, Debug, PartialEq, Eq, Structural)]
pub enum FlexDirection {
    Row,
    Column,
}

/// What a user does to an element.
#[derive(Clone, Copy, Debug, PartialEq, Eq, Structural)]
pub enum Event {
    Click,
    Other,
}

/// An element: its kind, its text and what was added to it, in order.
#[derive(Debug, PartialEq, Eq)]
pub struct Element {
    pub kind: ElementType,
    pub text: Option<String>,
    pub items: Vec<Item>,
}

/// One addition to an element.
#[derive(Debug, PartialEq, Eq)]
pub enum Item {
    Size(u32),
    TextColor(&'static str),
    Bg(&'static str),
    MarginBottom(u32),
    MarginLeft(u32),
    Padding(u32),
    Border(u32, &'static str),
    Radius(u32),
    Width(u32),
    WidthFull,
    Height(u32),
    Transition(&'static str),
    Flex,
    Direction(FlexDirection),
    AlignCenter,
    Disabled,
    /// The event that is reported, under a name, when the user does something to the element.
    On(Event, &'static str),
    Child(Element),
}

/// What an [`Element`] stands for.
pub struct ElementModel {
    pub kind: ElementType,
    pub text: Option<Seq<char>>,
    pub items: Seq<ItemModel>,
}

/// What an [`Item`] stands for.
pub enum ItemModel {
    Size(u32),
    TextColor(Seq<char>),
    Bg(Seq<char>),
    MarginBottom(u32),
    MarginLeft(u32),
    Padding(u32),
    Border(u32, Seq<char>),
    Radius(u32),
    Width(u32),
    WidthFull,
    Height(u32),
    Transition(Seq<char>),
    Flex,
    Direction(FlexDirection),
    AlignCenter,
    Disabled,
    On(Event, Seq<char>),
    Child(ElementModel),
}

impl ElementModel {
    /// An element with a text and nothing else.
    pub open spec fn new(kind: ElementType, text: Option<Seq<char>>) -> ElementModel {
        ElementModel { kind, text, items: Seq::empty() }
    }

    /// The element with one more addition.
    pub open spec fn with(self, item: ItemModel) -> ElementModel {
        ElementModel { items: self.items.push(item), ..self }
    }
}

impl Element {
    /// What this element stands for.
    pub open spec fn model(self) -> ElementModel
        decreases self,
    {
        ElementModel {
            kind: self.kind,
            text: match self.text {
                Some(text) => Some(text@),
                None => None,
            },
            items: Seq::new(
                self.items@.len(),
                |i: int|
                    if 0 <= i < self.items@.len() {
                        self.items@[i].model()
                    } else {
                        arbitrary()
                    },
            ),
        }
    }
}

impl Item {
    /// What this addition stands for.
    pub open spec fn model(self) -> ItemModel
        decreases self,
    {
        match self {
            Item::Size(size) => ItemModel::Size(size),
            Item::TextColor(color) => ItemModel::TextColor(color@),
            Item::Bg(color) => ItemModel::Bg(color@),
            Item::MarginBottom(margin) => ItemModel::MarginBottom(margin),
            Item::MarginLeft(margin) => ItemModel::MarginLeft(margin),
            Item::Padding(padding) => ItemModel::Padding(padding),
            Item::Border(width, color) => ItemModel::Border(width, color@),
            Item::Radius(radius) => ItemModel::Radius(radius),
            Item::Width(width) => ItemModel::Width(width),
            Item::WidthFull => ItemModel::WidthFull,
            Item::Height(height) => ItemModel::Height(height),
            Item::Transition(transition) => ItemModel::Transition(transition@),
            Item::Flex => ItemModel::Flex,
            Item::Direction(direction) => ItemModel::Direction(direction),
            Item::AlignCenter => ItemModel::AlignCenter,
            Item::Disabled => ItemModel::Disabled,
            Item::On(event, name) => ItemModel::On(event, name@),
            Item::Child(child) => ItemModel::Child(child.model()),
        }
    }
}

impl View for Element {
    type V = ElementModel;

    open spec fn view(&self) -> ElementModel {
        self.model()
    }
}

impl View for Item {
    type V = ItemModel;

    open spec fn view(&self) -> ItemModel {
        self.model()
    }
}

impl Element {
    /// An element with a text and nothing else.
    pub fn new(kind: ElementType, text: Option<&str>) -> (element: Element)
        ensures
            element@ == ElementModel::new(
                kind,
                match text {
                    Some(text) => Some(text@),
                    None => None,
                },
            ),
    {
        let element = Element {
            kind,
            text: match text {
                Some(text) => Some(text.to_string()),
                None => None,
            },
            items: Vec::new(),
        };
        assert(element@.items =~= Seq::<ItemModel>::empty());
        element
    }

    /// The element with one more addition.
    pub fn with(self, item: Item) -> (element: Element)
        ensures
            element@ == self@.with(item@),
    {
        let mut element = self;
        element.items.push(item);
        assert(element@.items =~= self@.items.push(item@));
        element
    }
}

} // verus!
