//! Drag-and-drop: actions, destination rectangles, payloads and events.
//!
//! Coordinates are surface-local fixed-point numbers with 8 fractional bits,
//! as the compositor sends them: 256 stands for one logical pixel.
use vstd::prelude::*;
use crate::data::copy_bytes;
use crate::mime::{contains_string, string_views, text_mime_string, text_str, Text};

pub mod state;

verus! {

/// A set of drag-and-drop actions.
#[derive(Debug, Clone, Copy, PartialEq, Eq, Structural)]
pub struct DndAction {
    pub copy: bool,
    pub moving: bool,
    pub ask: bool,
}

impl DndAction {
    /// No action.
    pub fn empty() -> (r: DndAction)
        ensures
            r == (DndAction { copy: false, moving: false, ask: false }),
    {
        DndAction { copy: false, moving: false, ask: false }
    }

    /// Only `Copy`.
    pub fn copy_only() -> (r: DndAction)
        ensures
            r == (DndAction { copy: true, moving: false, ask: false }),
    {
        DndAction { copy: true, moving: false, ask: false }
    }

    /// Only `Move`.
    pub fn move_only() -> (r: DndAction)
        ensures
            r == (DndAction { copy: false, moving: true, ask: false }),
    {
        DndAction { copy: false, moving: true, ask: false }
    }

    /// Only `Ask`.
    pub fn ask_only() -> (r: DndAction)
        ensures
            r == (DndAction { copy: false, moving: false, ask: true }),
    {
        DndAction { copy: false, moving: false, ask: true }
    }

    /// Every action.
    pub fn all() -> (r: DndAction)
        ensures
            r == (DndAction { copy: true, moving: true, ask: true }),
    {
        DndAction { copy: true, moving: true, ask: true }
    }

    /// Whether no action is in the set.
    pub open spec fn spec_is_empty(self) -> bool {
        !self.copy && !self.moving && !self.ask
    }

    /// Whether every action is in the set.
    pub open spec fn spec_is_all(self) -> bool {
        self.copy && self.moving && self.ask
    }

    /// Whether the two sets share an action.
    pub open spec fn spec_intersects(self, other: DndAction) -> bool {
        (self.copy && other.copy) || (self.moving && other.moving) || (self.ask && other.ask)
    }

    /// Whether no action is in the set.
    pub fn is_empty(&self) -> (r: bool)
        ensures
            r == self.spec_is_empty(),
    {
        !self.copy && !self.moving && !self.ask
    }

    /// Whether every action is in the set.
    pub fn is_all(&self) -> (r: bool)
        ensures
            r == self.spec_is_all(),
    {
        self.copy && self.moving && self.ask
    }

    /// Whether the two sets share an action.
    pub fn intersects(&self, other: &DndAction) -> (r: bool)
        ensures
            r == self.spec_intersects(*other),
    {
        (self.copy && other.copy) || (self.moving && other.moving) || (self.ask && other.ask)
    }
}

/// A rectangle in surface-local fixed-point coordinates.
#[derive(Debug, Clone, Copy, PartialEq, Eq, Structural)]
pub struct Rectangle {
    pub x: i32,
    pub y: i32,
    pub width: i32,
    pub height: i32,
}

impl Rectangle {
    /// Whether the point lies within the rectangle, edges included.
    pub open spec fn spec_contains(self, x: i32, y: i32) -> bool {
        self.x <= x && x <= self.x + self.width && self.y <= y && y <= self.y + self.height
    }

    /// Whether the point lies within the rectangle, edges included.
    pub fn contains(&self, x: i32, y: i32) -> (r: bool)
        ensures
            r == self.spec_contains(x, y),
    {
        let right = self.x as i64 + self.width as i64;
        let bottom = self.y as i64 + self.height as i64;
        self.x <= x && (x as i64) <= right && self.y <= y && (y as i64) <= bottom
    }
}

/// A drop target within a registered surface.
#[derive(Debug)]
pub struct DndDestinationRectangle {
    /// The id reported with the events of this rectangle.
    pub id: u128,
    /// Where the rectangle lies.
    pub rectangle: Rectangle,
    /// Accepted MIME types; empty accepts any.
    pub mime_types: Vec<String>,
    /// Accepted actions.
    pub actions: DndAction,
    /// Preferred action.
    pub preferred: DndAction,
}

/// Data offered by a drag.
#[derive(Debug)]
pub struct DndData {
    /// The MIME types this data is available in.
    pub mime_types: Vec<String>,
    /// The data.
    pub data: Vec<u8>,
}

impl DndData {
    /// Drag data with the given bytes and MIME types.
    pub fn new(data: Vec<u8>, mime_types: Vec<String>) -> (r: DndData)
        ensures
            r.data == data,
            r.mime_types == mime_types,
    {
        DndData { data, mime_types }
    }

    /// Drag data holding the UTF-8 bytes of `text`, offered as every
    /// well-known text MIME type.
    pub fn from_text(text: &str) -> (r: DndData)
        ensures
            r.data@ == vstd::utf8::encode_utf8(text@),
            string_views(r.mime_types@) == seq![
                text_str(Text::TextPlainUtf8),
                text_str(Text::Utf8String),
                text_str(Text::TextPlain),
            ],
    {
        let mut mime_types: Vec<String> = Vec::new();
        mime_types.push(text_mime_string(Text::TextPlainUtf8));
        mime_types.push(text_mime_string(Text::Utf8String));
        mime_types.push(text_mime_string(Text::TextPlain));
        let r = DndData { data: copy_bytes(text.as_bytes()), mime_types };
        assert(string_views(r.mime_types@) =~= seq![
            text_str(Text::TextPlainUtf8),
            text_str(Text::Utf8String),
            text_str(Text::TextPlain),
        ]);
        r
    }

    /// Whether the data is offered as `mime`.
    pub fn offers(&self, mime: &String) -> (r: bool)
        ensures
            r == string_views(self.mime_types@).contains(mime@),
    {
        contains_string(&self.mime_types, mime)
    }
}

/// An icon for an outgoing drag.
#[derive(Debug)]
pub enum Icon<S> {
    /// An existing surface.
    Surface(S),
    /// Pixels, 4 bytes each (ARGB8888 or XRGB8888, premultiplied).
    Buffer { width: u32, height: u32, data: Vec<u8>, transparent: bool },
}

/// Events of an outgoing drag.
#[derive(Debug)]
pub enum SourceEvent {
    /// The drag ended.
    Finished,
    /// The drag was cancelled.
    Cancelled,
    /// The compositor chose an action.
    Action(DndAction),
    /// The destination accepted a MIME type, or none.
    Mime(Option<String>),
    /// The drop happened; the drag goes on until `Finished`.
    Dropped,
}

/// Events of an incoming drag, on a surface identified by its protocol id.
#[derive(Debug)]
pub enum OfferEvent {
    /// A drag entered the surface.
    Enter { x: i32, y: i32, mime_types: Vec<String>, surface: u32 },
    /// The drag moved.
    Motion { x: i32, y: i32 },
    /// The drag is no longer on the destination rectangle.
    LeaveDestination,
    /// The drag left the surface.
    Leave,
    /// The drag was dropped.
    Drop,
    /// The action is `Ask`: the application is to choose one.
    SelectedAction(DndAction),
    /// The dropped data.
    Data { data: Vec<u8>, mime_type: String },
}

/// A drag-and-drop event.
#[derive(Debug)]
pub enum DndEvent {
    /// An offer event, with the id of its destination rectangle.
    Offer(Option<u128>, OfferEvent),
    /// An event of the application's own drag.
    Source(SourceEvent),
}

} // verus!
