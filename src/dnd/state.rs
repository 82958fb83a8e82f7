//! The drag-and-drop state machines: registered destinations, the incoming
//! offer, and the application's own outgoing drag. Each transition returns
//! the events for the application and the protocol requests to make.
use vstd::prelude::*;
use crate::data::{copy_bytes, ClipboardData};
use crate::dnd::{DndAction, DndData, DndDestinationRectangle, DndEvent, Icon, OfferEvent, SourceEvent};
use crate::mime::{contains_string, copy_strings, string_views};

verus! {

/// The view of an optional string.
pub open spec fn opt_view(o: Option<String>) -> Option<Seq<char>> {
    match o {
        Some(s) => Some(s@),
        None => None,
    }
}

/// Whether a rectangle's MIME constraint admits the offer.
pub open spec fn mime_ok(rect_mimes: Seq<Seq<char>>, offered: Seq<Seq<char>>) -> bool {
    rect_mimes.len() == 0 || exists|i: int| 0 <= i < rect_mimes.len() && offered.contains(#[trigger] rect_mimes[i])
}

/// Whether a rectangle takes a drag at (x, y) with these MIME types and
/// source actions.
pub open spec fn rect_matches(
    r: DndDestinationRectangle,
    x: i32,
    y: i32,
    offered: Seq<Seq<char>>,
    source_actions: DndAction,
) -> bool {
    &&& r.rectangle.spec_contains(x, y)
    &&& mime_ok(string_views(r.mime_types@), offered)
    &&& (r.actions.spec_is_all() || r.actions.spec_intersects(source_actions))
}

/// The first rectangle from index `i` on that takes the drag.
pub open spec fn first_match_from(
    rects: Seq<DndDestinationRectangle>,
    i: int,
    x: i32,
    y: i32,
    offered: Seq<Seq<char>>,
    source_actions: DndAction,
) -> Option<int>
    decreases rects.len() - i,
{
    if 0 <= i < rects.len() {
        if rect_matches(rects[i], x, y, offered, source_actions) {
            Some(i)
        } else {
            first_match_from(rects, i + 1, x, y, offered, source_actions)
        }
    } else {
        None
    }
}

/// The first of `pref` that is among `offered`.
pub open spec fn first_common(pref: Seq<Seq<char>>, offered: Seq<Seq<char>>) -> Option<Seq<char>>
    decreases pref.len(),
{
    if pref.len() == 0 {
        None
    } else if offered.contains(pref[0]) {
        Some(pref[0])
    } else {
        first_common(pref.drop_first(), offered)
    }
}

/// The MIME type accepted for a rectangle: the first of its own types that
/// the offer has, or the offer's first type when the rectangle takes any.
pub open spec fn chosen_mime(rect_mimes: Seq<Seq<char>>, offered: Seq<Seq<char>>) -> Option<Seq<char>> {
    if rect_mimes.len() == 0 {
        if offered.len() > 0 {
            Some(offered[0])
        } else {
            None
        }
    } else {
        first_common(rect_mimes, offered)
    }
}

/// The index of the first registration of `s`, from index `i` on.
pub open spec fn find_surface(dests: Seq<(u32, Vec<DndDestinationRectangle>)>, s: u32, i: int) -> Option<int>
    decreases dests.len() - i,
{
    if 0 <= i < dests.len() {
        if dests[i].0 == s {
            Some(i)
        } else {
            find_surface(dests, s, i + 1)
        }
    } else {
        None
    }
}

/// The rectangles registered for surface `s`; none when unregistered.
pub open spec fn rects_of(dests: Seq<(u32, Vec<DndDestinationRectangle>)>, s: u32) -> Seq<DndDestinationRectangle> {
    match find_surface(dests, s, 0) {
        Some(i) => dests[i].1@,
        None => seq![],
    }
}

proof fn lemma_find_surface_same_keys(
    a: Seq<(u32, Vec<DndDestinationRectangle>)>,
    b: Seq<(u32, Vec<DndDestinationRectangle>)>,
    s: u32,
    i: int,
)
    requires
        a.len() == b.len(),
        forall|k: int| 0 <= k < a.len() ==> #[trigger] a[k].0 == b[k].0,
    ensures
        find_surface(a, s, i) == find_surface(b, s, i),
    decreases a.len() - i,
{
    if 0 <= i < a.len() {
        lemma_find_surface_same_keys(a, b, s, i + 1);
    }
}

proof fn lemma_find_surface_push(
    a: Seq<(u32, Vec<DndDestinationRectangle>)>,
    e: (u32, Vec<DndDestinationRectangle>),
    s: u32,
    i: int,
)
    requires
        0 <= i <= a.len(),
    ensures
        find_surface(a.push(e), s, i) == match find_surface(a, s, i) {
            Some(j) => Some(j),
            None => if e.0 == s {
                Some(a.len() as int)
            } else {
                None
            },
        },
    decreases a.len() - i,
{
    if i < a.len() {
        assert(a.push(e)[i] == a[i]);
        lemma_find_surface_push(a, e, s, i + 1);
    } else {
        assert(a.push(e)[i] == e);
        assert(find_surface(a.push(e), s, i + 1) is None);
    }
}

proof fn lemma_find_surface_result(dests: Seq<(u32, Vec<DndDestinationRectangle>)>, s: u32, i: int)
    requires
        0 <= i,
    ensures
        find_surface(dests, s, i) matches Some(j) ==> i <= j < dests.len() && dests[j].0 == s,
    decreases dests.len() - i,
{
    if 0 <= i < dests.len() {
        lemma_find_surface_result(dests, s, i + 1);
    }
}

/// Requests to the compositor on the incoming offer.
#[derive(Debug)]
pub enum OfferAction {
    /// Accept a MIME type, or none.
    AcceptMime(Option<String>),
    /// Set the accepted and the preferred actions.
    SetActions { actions: DndAction, preferred: DndAction },
    /// Receive the data of a MIME type into a pipe; a peek does not finish.
    Receive { mime_type: String, peek: bool },
    /// Finish the offer.
    Finish,
}

/// Requests to the compositor for the application's own drag.
#[derive(Debug)]
pub enum SourceAction {
    /// Create an icon surface from pixels in a shared-memory buffer of
    /// `size` bytes with rows of `stride` bytes.
    CreateIcon { width: u32, height: u32, stride: u32, size: usize, pixels: Vec<u8> },
    /// Use an existing surface as the icon.
    UseIconSurface(u32),
    /// Start a drag that stays within the application.
    StartInternalDrag { surface: u32, icon: bool },
    /// Create a data source and start a drag with it.
    StartDrag { surface: u32, mime_types: Vec<String>, actions: DndAction, icon: bool },
    /// Destroy the icon surface and release its buffer.
    DestroyIcon,
}

/// Events and offer requests produced by one transition.
#[derive(Debug)]
pub struct DndOutput {
    pub events: Vec<DndEvent>,
    pub actions: Vec<OfferAction>,
}

/// An incoming drag.
#[derive(Debug)]
pub struct DragOfferState {
    /// The surface the drag entered.
    pub surface: u32,
    /// The MIME types the source offers.
    pub mime_types: Vec<String>,
    /// The actions the source offers.
    pub source_actions: DndAction,
    pub x: i32,
    pub y: i32,
    /// The rectangle the drag is on, if any.
    pub active: Option<u128>,
    /// The MIME type accepted for that rectangle.
    pub accepted_mime: Option<String>,
    /// The action the compositor or the application selected.
    pub selected_action: DndAction,
    /// Whether the drop happened.
    pub dropped: bool,
}

/// The application's own drag.
#[derive(Debug)]
pub struct DragSourceState {
    pub internal: bool,
    pub content: DndData,
    pub actions: DndAction,
    pub has_icon: bool,
}

/// Drag-and-drop state of the worker.
#[derive(Debug)]
pub struct DndState {
    /// Registered surfaces and their rectangles, in priority order.
    pub destinations: Vec<(u32, Vec<DndDestinationRectangle>)>,
    /// The incoming drag, if any.
    pub offer: Option<DragOfferState>,
    /// The application's own drag, if any.
    pub source: Option<DragSourceState>,
}

/// The rectangle matched for an offer at (x, y), as an index into the
/// rectangles of its surface.
pub open spec fn offer_match(
    dests: Seq<(u32, Vec<DndDestinationRectangle>)>,
    surface: u32,
    mime_types: Seq<Seq<char>>,
    source_actions: DndAction,
    x: i32,
    y: i32,
) -> Option<int> {
    first_match_from(rects_of(dests, surface), 0, x, y, mime_types, source_actions)
}

/// The id of the matched rectangle.
pub open spec fn match_id(rects: Seq<DndDestinationRectangle>, m: Option<int>) -> Option<u128> {
    match m {
        Some(i) => Some(rects[i].id),
        None => None,
    }
}

/// The MIME type accepted for a match.
pub open spec fn match_mime(rects: Seq<DndDestinationRectangle>, m: Option<int>, offered: Seq<Seq<char>>) -> Option<Seq<char>> {
    match m {
        Some(i) => chosen_mime(string_views(rects[i].mime_types@), offered),
        None => None,
    }
}

/// Whether `actions` are the negotiation requests for a match: accept its
/// MIME type and set its actions, or accept nothing and set no action.
pub open spec fn negotiation(
    actions: Seq<OfferAction>,
    rects: Seq<DndDestinationRectangle>,
    m: Option<int>,
    offered: Seq<Seq<char>>,
) -> bool {
    &&& actions.len() == 2
    &&& actions[0] matches OfferAction::AcceptMime(a) && opt_view(a) == match_mime(rects, m, offered)
    &&& actions[1] == match m {
        Some(i) => OfferAction::SetActions { actions: rects[i].actions, preferred: rects[i].preferred },
        None => OfferAction::SetActions {
            actions: DndAction { copy: false, moving: false, ask: false },
            preferred: DndAction { copy: false, moving: false, ask: false },
        },
    }
}

/// Whether `actions` begin the load of the dropped data: commit the action,
/// accept the MIME type and receive it.
pub open spec fn drop_load(actions: Seq<OfferAction>, action: DndAction, mime: Seq<char>) -> bool {
    &&& actions.len() == 3
    &&& actions[0] == OfferAction::SetActions { actions: action, preferred: action }
    &&& actions[1] matches OfferAction::AcceptMime(Some(m)) && m@ == mime
    &&& actions[2] matches OfferAction::Receive { mime_type, peek } && mime_type@ == mime && !peek
}

/// Whether a drop of `o` begins the load right away: an action other than
/// `Ask` or none is selected, and a MIME type is accepted.
pub open spec fn drop_begins_load(o: DragOfferState) -> bool {
    !o.selected_action.ask && !o.selected_action.spec_is_empty() && o.accepted_mime is Some
}

/// Whether the application's choice of action on `o` begins the load: the
/// drop happened and a MIME type is accepted.
pub open spec fn choice_begins_load(o: DragOfferState) -> bool {
    o.dropped && o.accepted_mime is Some
}

/// Whether `rect`'s MIME constraint admits `offered`.
fn mime_constraint_ok(rect_mimes: &Vec<String>, offered: &Vec<String>) -> (r: bool)
    ensures
        r == mime_ok(string_views(rect_mimes@), string_views(offered@)),
{
    if rect_mimes.len() == 0 {
        return true;
    }
    let ghost rv = string_views(rect_mimes@);
    let mut i: usize = 0;
    while i < rect_mimes.len()
        invariant
            0 <= i <= rect_mimes@.len(),
            rv == string_views(rect_mimes@),
            forall|k: int| 0 <= k < i ==> !string_views(offered@).contains(#[trigger] rv[k]),
        decreases rect_mimes@.len() - i,
    {
        if contains_string(offered, &rect_mimes[i]) {
            assert(string_views(offered@).contains(rv[i as int]));
            return true;
        }
        i = i + 1;
    }
    false
}

/// The first rectangle that takes a drag at (x, y).
pub fn find_rectangle(
    rects: &Vec<DndDestinationRectangle>,
    x: i32,
    y: i32,
    offered: &Vec<String>,
    source_actions: DndAction,
) -> (r: Option<usize>)
    ensures
        match r {
            Some(i) => i < rects@.len() && first_match_from(rects@, 0, x, y, string_views(offered@), source_actions) == Some(i as int),
            None => first_match_from(rects@, 0, x, y, string_views(offered@), source_actions) is None,
        },
{
    let ghost ov = string_views(offered@);
    let mut i: usize = 0;
    while i < rects.len()
        invariant
            0 <= i <= rects@.len(),
            ov == string_views(offered@),
            first_match_from(rects@, 0, x, y, ov, source_actions) == first_match_from(rects@, i as int, x, y, ov, source_actions),
        decreases rects@.len() - i,
    {
        let r = &rects[i];
        let fits = r.rectangle.contains(x, y) && mime_constraint_ok(&r.mime_types, offered) && (r.actions.is_all()
            || r.actions.intersects(&source_actions));
        if fits {
            return Some(i);
        }
        i = i + 1;
    }
    None
}

/// The MIME type to accept for a rectangle.
pub fn pick_mime(rect_mimes: &Vec<String>, offered: &Vec<String>) -> (r: Option<String>)
    ensures
        opt_view(r) == chosen_mime(string_views(rect_mimes@), string_views(offered@)),
{
    if rect_mimes.len() == 0 {
        if offered.len() > 0 {
            return Some(offered[0].clone());
        } else {
            return None;
        }
    }
    let ghost pv = string_views(rect_mimes@);
    let ghost ov = string_views(offered@);
    let mut i: usize = 0;
    assert(pv.subrange(0, pv.len() as int) =~= pv);
    while i < rect_mimes.len()
        invariant
            0 <= i <= rect_mimes@.len(),
            pv == string_views(rect_mimes@),
            ov == string_views(offered@),
            first_common(pv, ov) == first_common(pv.subrange(i as int, pv.len() as int), ov),
        decreases rect_mimes@.len() - i,
    {
        let ghost rest = pv.subrange(i as int, pv.len() as int);
        assert(rest[0] == rect_mimes@[i as int]@);
        assert(rest.drop_first() =~= pv.subrange(i + 1, pv.len() as int));
        if contains_string(offered, &rect_mimes[i]) {
            return Some(rect_mimes[i].clone());
        }
        i = i + 1;
    }
    assert(pv.subrange(i as int, pv.len() as int).len() == 0);
    None
}

/// The negotiation requests for the rectangle at `m` (or none).
fn negotiate(rects: &Vec<DndDestinationRectangle>, m: Option<usize>, offered: &Vec<String>) -> (r: (Vec<OfferAction>, Option<String>))
    requires
        m matches Some(i) ==> i < rects@.len(),
    ensures
        negotiation(r.0@, rects@, match m { Some(i) => Some(i as int), None => None }, string_views(offered@)),
        opt_view(r.1) == match_mime(rects@, match m { Some(i) => Some(i as int), None => None }, string_views(offered@)),
{
    let mut actions: Vec<OfferAction> = Vec::new();
    match m {
        Some(i) => {
            let mime = pick_mime(&rects[i].mime_types, offered);
            let accepted = match &mime {
                Some(s) => Some(s.clone()),
                None => None,
            };
            actions.push(OfferAction::AcceptMime(mime));
            actions.push(OfferAction::SetActions { actions: rects[i].actions, preferred: rects[i].preferred });
            (actions, accepted)
        },
        None => {
            actions.push(OfferAction::AcceptMime(None));
            actions.push(OfferAction::SetActions { actions: DndAction::empty(), preferred: DndAction::empty() });
            (actions, None)
        },
    }
}

impl DndState {
    /// No registration, no drag.
    pub fn new() -> (r: DndState)
        ensures
            r.destinations@.len() == 0,
            r.offer is None,
            r.source is None,
    {
        DndState { destinations: Vec::new(), offer: None, source: None }
    }

    /// The rectangles registered for `surface`.
    pub open spec fn rects(&self, surface: u32) -> Seq<DndDestinationRectangle> {
        rects_of(self.destinations@, surface)
    }

    /// Registers the rectangles of a surface, replacing earlier ones; an
    /// empty list unregisters it.
    pub fn register(&mut self, surface: u32, rectangles: Vec<DndDestinationRectangle>)
        ensures
            final(self).rects(surface) == rectangles@,
            forall|t: u32| t != surface ==> #[trigger] final(self).rects(t) == old(self).rects(t),
            final(self).offer == old(self).offer,
            final(self).source == old(self).source,
    {
        let ghost before = self.destinations@;
        let mut i: usize = 0;
        while i < self.destinations.len()
            invariant
                0 <= i <= self.destinations@.len(),
                self.destinations@ == before,
                before == old(self).destinations@,
                self.offer == old(self).offer,
                self.source == old(self).source,
                find_surface(before, surface, 0) == find_surface(before, surface, i as int),
            decreases self.destinations@.len() - i,
        {
            if self.destinations[i].0 == surface {
                proof {
                    lemma_find_surface_result(before, surface, 0);
                }
                self.destinations.set(i, (surface, rectangles));
                proof {
                    let after = self.destinations@;
                    assert forall|k: int| 0 <= k < before.len() implies #[trigger] before[k].0 == after[k].0 by {}
                    assert forall|t: u32| true implies find_surface(after, t, 0) == find_surface(before, t, 0) by {
                        lemma_find_surface_same_keys(before, after, t, 0);
                    }
                    assert forall|t: u32| t != surface implies #[trigger] rects_of(after, t) == rects_of(before, t) by {
                        lemma_find_surface_same_keys(before, after, t, 0);
                        lemma_find_surface_result(before, t, 0);
                    }
                }
                return;
            }
            i = i + 1;
        }
        self.destinations.push((surface, rectangles));
        proof {
            let after = self.destinations@;
            assert(after == before.push((surface, rectangles)));
            lemma_find_surface_push(before, (surface, rectangles), surface, 0);
            assert forall|t: u32| t != surface implies #[trigger] rects_of(after, t) == rects_of(before, t) by {
                lemma_find_surface_push(before, (surface, rectangles), t, 0);
                lemma_find_surface_result(before, t, 0);
            }
        }
    }

    /// The index of the registration of `surface`.
    fn surface_index(&self, surface: u32) -> (r: Option<usize>)
        ensures
            match r {
                Some(i) => find_surface(self.destinations@, surface, 0) == Some(i as int) && i < self.destinations@.len(),
                None => find_surface(self.destinations@, surface, 0) is None,
            },
    {
        let mut i: usize = 0;
        while i < self.destinations.len()
            invariant
                0 <= i <= self.destinations@.len(),
                find_surface(self.destinations@, surface, 0) == find_surface(self.destinations@, surface, i as int),
            decreases self.destinations@.len() - i,
        {
            if self.destinations[i].0 == surface {
                return Some(i);
            }
            i = i + 1;
        }
        None
    }
}


/// Whether two optional rectangle ids are equal.
fn same_id(a: Option<u128>, b: Option<u128>) -> (r: bool)
    ensures
        r == (a == b),
{
    match (a, b) {
        (Some(x), Some(y)) => x == y,
        (None, None) => true,
        _ => false,
    }
}

/// An output with no event and no request.
fn quiet() -> (r: DndOutput)
    ensures
        r.events@.len() == 0,
        r.actions@.len() == 0,
{
    DndOutput { events: Vec::new(), actions: Vec::new() }
}

/// Whether `events` are those of a motion from rectangle `old` to `new`:
/// one `LeaveDestination` for `old` when it is left, then the motion.
pub open spec fn motion_events(events: Seq<DndEvent>, old: Option<u128>, new: Option<u128>, x: i32, y: i32) -> bool {
    if old is Some && old != new {
        &&& events.len() == 2
        &&& events[0] matches DndEvent::Offer(id, OfferEvent::LeaveDestination) && id == old
        &&& events[1] matches DndEvent::Offer(id, OfferEvent::Motion { x: mx, y: my }) && id == new && mx == x && my == y
    } else {
        &&& events.len() == 1
        &&& events[0] matches DndEvent::Offer(id, OfferEvent::Motion { x: mx, y: my }) && id == new && mx == x && my == y
    }
}

/// The offer after a move to (x, y) that matched `m`.
pub open spec fn moved_offer(n: DragOfferState, o: DragOfferState, rects: Seq<DndDestinationRectangle>, m: Option<int>, x: i32, y: i32) -> bool {
    &&& n.surface == o.surface
    &&& n.mime_types == o.mime_types
    &&& n.source_actions == o.source_actions
    &&& n.x == x
    &&& n.y == y
    &&& n.active == match_id(rects, m)
    &&& opt_view(n.accepted_mime) == match_mime(rects, m, string_views(o.mime_types@))
    &&& n.selected_action == o.selected_action
    &&& n.dropped == o.dropped
}

impl DndState {
    /// The rectangles of `surface` and the match for a drag at (x, y).
    fn locate(&self, surface: u32, offered: &Vec<String>, source_actions: DndAction, x: i32, y: i32)
        -> (r: (Vec<OfferAction>, Option<String>, Option<u128>))
        ensures
            negotiation(r.0@, self.rects(surface), offer_match(self.destinations@, surface, string_views(offered@), source_actions, x, y), string_views(offered@)),
            opt_view(r.1) == match_mime(self.rects(surface), offer_match(self.destinations@, surface, string_views(offered@), source_actions, x, y), string_views(offered@)),
            r.2 == match_id(self.rects(surface), offer_match(self.destinations@, surface, string_views(offered@), source_actions, x, y)),
    {
        let empty: Vec<DndDestinationRectangle> = Vec::new();
        let rects: &Vec<DndDestinationRectangle> = match self.surface_index(surface) {
            Some(si) => &self.destinations[si].1,
            None => &empty,
        };
        assert(rects@ == self.rects(surface));
        let m = find_rectangle(rects, x, y, offered, source_actions);
        let (actions, accepted) = negotiate(rects, m, offered);
        let id = match m {
            Some(i) => Some(rects[i].id),
            None => None,
        };
        (actions, accepted, id)
    }

    /// The pointer of the incoming drag moved: re-match the rectangle,
    /// leave the old one if it changed, and negotiate again.
    pub fn motion(&mut self, x: i32, y: i32) -> (r: DndOutput)
        ensures
            final(self).destinations == old(self).destinations,
            final(self).source == old(self).source,
            old(self).offer is None ==> final(self).offer is None && r.events@.len() == 0 && r.actions@.len() == 0,
            old(self).offer matches Some(o) ==> {
                let rects = old(self).rects(o.surface);
                let m = offer_match(old(self).destinations@, o.surface, string_views(o.mime_types@), o.source_actions, x, y);
                &&& final(self).offer matches Some(n) && moved_offer(n, o, rects, m, x, y)
                &&& motion_events(r.events@, o.active, match_id(rects, m), x, y)
                &&& negotiation(r.actions@, rects, m, string_views(o.mime_types@))
            },
    {
        let o = match self.offer.take() {
            Some(o) => o,
            None => return quiet(),
        };
        let (actions, accepted, id) = self.locate(o.surface, &o.mime_types, o.source_actions, x, y);
        let mut events: Vec<DndEvent> = Vec::new();
        if o.active.is_some() && !same_id(o.active, id) {
            events.push(DndEvent::Offer(o.active, OfferEvent::LeaveDestination));
        }
        events.push(DndEvent::Offer(id, OfferEvent::Motion { x, y }));
        self.offer = Some(DragOfferState { x, y, active: id, accepted_mime: accepted, ..o });
        DndOutput { events, actions }
    }

    /// A drag entered `surface`. Unregistered surfaces are ignored.
    pub fn enter(&mut self, surface: u32, x: i32, y: i32, mime_types: Vec<String>, source_actions: DndAction) -> (r: DndOutput)
        ensures
            final(self).destinations == old(self).destinations,
            final(self).source == old(self).source,
            old(self).rects(surface).len() == 0 ==> {
                &&& final(self).offer == old(self).offer
                &&& r.events@.len() == 0
                &&& r.actions@.len() == 0
            },
            old(self).rects(surface).len() > 0 ==> {
                let rects = old(self).rects(surface);
                let m = offer_match(old(self).destinations@, surface, string_views(mime_types@), source_actions, x, y);
                &&& final(self).offer matches Some(n) && n.surface == surface && n.mime_types == mime_types
                    && n.source_actions == source_actions && n.x == x && n.y == y && n.active == match_id(rects, m)
                    && opt_view(n.accepted_mime) == match_mime(rects, m, string_views(mime_types@))
                    && n.selected_action == (DndAction { copy: false, moving: false, ask: false }) && !n.dropped
                &&& r.events@.len() == 1
                &&& r.events@[0] matches DndEvent::Offer(id, OfferEvent::Enter { x: ex, y: ey, mime_types: em, surface: es })
                    && id == match_id(rects, m) && ex == x && ey == y && es == surface
                    && string_views(em@) == string_views(mime_types@)
                &&& negotiation(r.actions@, rects, m, string_views(mime_types@))
            },
    {
        let registered = match self.surface_index(surface) {
            Some(si) => self.destinations[si].1.len() > 0,
            None => false,
        };
        if !registered {
            return quiet();
        }
        let (actions, accepted, id) = self.locate(surface, &mime_types, source_actions, x, y);
        let mut events: Vec<DndEvent> = Vec::new();
        events.push(DndEvent::Offer(id, OfferEvent::Enter { x, y, mime_types: copy_strings(&mime_types), surface }));
        self.offer = Some(DragOfferState {
            surface,
            mime_types,
            source_actions,
            x,
            y,
            active: id,
            accepted_mime: accepted,
            selected_action: DndAction::empty(),
            dropped: false,
        });
        DndOutput { events, actions }
    }

    /// The drag left: the offer ends, whatever rectangle was active.
    pub fn leave(&mut self) -> (r: DndOutput)
        ensures
            final(self).destinations == old(self).destinations,
            final(self).source == old(self).source,
            final(self).offer is None,
            r.events@.len() == 1,
            r.events@[0] matches DndEvent::Offer(None, OfferEvent::Leave),
            r.actions@.len() == 0,
    {
        self.offer = None;
        let mut events: Vec<DndEvent> = Vec::new();
        events.push(DndEvent::Offer(None, OfferEvent::Leave));
        DndOutput { events, actions: Vec::new() }
    }

    /// The compositor selected an action for the offer.
    pub fn compositor_action(&mut self, action: DndAction)
        ensures
            final(self).destinations == old(self).destinations,
            final(self).source == old(self).source,
            old(self).offer is None ==> final(self).offer is None,
            old(self).offer matches Some(o) ==> final(self).offer == Some(DragOfferState { selected_action: action, ..o }),
    {
        if let Some(o) = self.offer.take() {
            self.offer = Some(DragOfferState { selected_action: action, ..o });
        }
    }

    /// The drag was dropped. An `Ask` action waits for the application's
    /// choice; no action rejects the drop; otherwise the load begins.
    pub fn drop_performed(&mut self) -> (r: DndOutput)
        ensures
            final(self).destinations == old(self).destinations,
            final(self).source == old(self).source,
            old(self).offer is None ==> final(self).offer is None && r.events@.len() == 0 && r.actions@.len() == 0,
            old(self).offer matches Some(o) ==> {
                &&& final(self).offer == Some(DragOfferState { dropped: true, ..o })
                &&& r.events@.len() >= 1
                &&& r.events@[0] matches DndEvent::Offer(id, OfferEvent::Drop) && id == o.active
                &&& if o.selected_action.ask {
                    &&& r.events@.len() == 2
                    &&& r.events@[1] matches DndEvent::Offer(id, OfferEvent::SelectedAction(a)) && id == o.active
                        && a == (DndAction { copy: false, moving: false, ask: true })
                    &&& r.actions@.len() == 0
                } else {
                    &&& r.events@.len() == 1
                    &&& if drop_begins_load(o) {
                        drop_load(r.actions@, o.selected_action, o.accepted_mime.unwrap()@)
                    } else {
                        r.actions@.len() == 0
                    }
                }
            },
    {
        let o = match self.offer.take() {
            Some(o) => o,
            None => return quiet(),
        };
        let mut events: Vec<DndEvent> = Vec::new();
        let mut actions: Vec<OfferAction> = Vec::new();
        events.push(DndEvent::Offer(o.active, OfferEvent::Drop));
        if o.selected_action.ask {
            events.push(DndEvent::Offer(o.active, OfferEvent::SelectedAction(DndAction::ask_only())));
        } else if !o.selected_action.is_empty() {
            if let Some(m) = &o.accepted_mime {
                actions.push(OfferAction::SetActions { actions: o.selected_action, preferred: o.selected_action });
                actions.push(OfferAction::AcceptMime(Some(m.clone())));
                actions.push(OfferAction::Receive { mime_type: m.clone(), peek: false });
            }
        }
        self.offer = Some(DragOfferState { dropped: true, ..o });
        DndOutput { events, actions }
    }

    /// The application chose an action (after `Ask`): apply it, and once
    /// dropped with a MIME type accepted, begin the load.
    pub fn set_action(&mut self, action: DndAction) -> (r: DndOutput)
        ensures
            final(self).destinations == old(self).destinations,
            final(self).source == old(self).source,
            r.events@.len() == 0,
            old(self).offer is None ==> final(self).offer is None && r.actions@.len() == 0,
            old(self).offer matches Some(o) ==> {
                &&& final(self).offer == Some(DragOfferState { selected_action: action, ..o })
                &&& choice_requests(r.actions@, o, action)
            },
    {
        let o = match self.offer.take() {
            Some(o) => o,
            None => return quiet(),
        };
        let mut actions: Vec<OfferAction> = Vec::new();
        actions.push(OfferAction::SetActions { actions: action, preferred: action });
        if o.dropped {
            if let Some(m) = &o.accepted_mime {
                actions.push(OfferAction::AcceptMime(Some(m.clone())));
                actions.push(OfferAction::Receive { mime_type: m.clone(), peek: false });
            }
        }
        self.offer = Some(DragOfferState { selected_action: action, ..o });
        DndOutput { events: Vec::new(), actions }
    }

    /// A non-committal read of the offer as `mime_type`, if there is an offer.
    pub fn peek(&self, mime_type: String) -> (r: Option<OfferAction>)
        ensures
            self.offer is None <==> (r is None),
            r matches Some(a) ==> (a == (OfferAction::Receive { mime_type, peek: true })),
    {
        match &self.offer {
            Some(_) => Some(OfferAction::Receive { mime_type, peek: true }),
            None => None,
        }
    }

    /// The application finishes the offer.
    pub fn finish(&mut self) -> (r: DndOutput)
        ensures
            final(self).destinations == old(self).destinations,
            final(self).source == old(self).source,
            final(self).offer is None,
            r.events@.len() == 0,
            old(self).offer is Some ==> r.actions@.len() == 1 && r.actions@[0] == OfferAction::Finish,
            old(self).offer is None ==> r.actions@.len() == 0,
    {
        let mut actions: Vec<OfferAction> = Vec::new();
        if self.offer.is_some() {
            actions.push(OfferAction::Finish);
        }
        self.offer = None;
        DndOutput { events: Vec::new(), actions }
    }

    /// The dropped data arrived: deliver it and finish the offer.
    pub fn data_received(&mut self, data: ClipboardData) -> (r: DndOutput)
        ensures
            final(self).destinations == old(self).destinations,
            final(self).source == old(self).source,
            final(self).offer is None,
            r.events@.len() == 1,
            r.events@[0] matches DndEvent::Offer(id, OfferEvent::Data { data: d, mime_type: m })
                && d == data.data && m == data.mime_type
                && id == match old(self).offer { Some(o) => o.active, None => None },
            old(self).offer is Some ==> r.actions@.len() == 1 && r.actions@[0] == OfferAction::Finish,
            old(self).offer is None ==> r.actions@.len() == 0,
    {
        let mut actions: Vec<OfferAction> = Vec::new();
        let id = match &self.offer {
            Some(o) => {
                actions.push(OfferAction::Finish);
                o.active
            },
            None => None,
        };
        self.offer = None;
        let mut events: Vec<DndEvent> = Vec::new();
        events.push(DndEvent::Offer(id, OfferEvent::Data { data: data.data, mime_type: data.mime_type }));
        DndOutput { events, actions }
    }
}


/// The largest shared-memory buffer an icon may take.
pub const MAX_ICON_BYTES: u64 = 0x7fff_ffff;

/// The byte size of a `width` x `height` icon of 4-byte pixels, when it is
/// not empty and fits a shared-memory buffer.
pub open spec fn icon_size(width: u32, height: u32) -> Option<nat> {
    let size = width * height * 4;
    if 0 < size <= MAX_ICON_BYTES {
        Some(size as nat)
    } else {
        None
    }
}

/// Whether an icon is set up: a surface, or pixels of a usable size.
pub open spec fn icon_emitted(icon: Option<Icon<u32>>) -> bool {
    match icon {
        None => false,
        Some(Icon::Surface(_)) => true,
        Some(Icon::Buffer { width, height, .. }) => icon_size(width, height) is Some,
    }
}

/// Whether `steps` are the requests that set up `icon`.
pub open spec fn icon_steps(steps: Seq<SourceAction>, icon: Option<Icon<u32>>) -> bool {
    match icon {
        None => steps.len() == 0,
        Some(Icon::Surface(s)) => steps.len() == 1 && (steps[0] matches SourceAction::UseIconSurface(t) && t == s),
        Some(Icon::Buffer { width, height, data, transparent }) => match icon_size(width, height) {
            Some(size) => {
                &&& steps.len() == 1
                &&& steps[0] matches SourceAction::CreateIcon { width: w, height: h, stride, size: sz, pixels }
                    && w == width && h == height && stride == width * 4 && sz == size && pixels == data
            },
            None => steps.len() == 0,
        },
    }
}

/// Whether `steps` are the requests that start a drag: release a previous
/// icon, set up the new one, then start the drag.
pub open spec fn start_steps(
    steps: Seq<SourceAction>,
    had_icon: bool,
    internal: bool,
    surface: u32,
    icon: Option<Icon<u32>>,
    content: DndData,
    actions: DndAction,
) -> bool {
    let pre: int = if had_icon { 1 } else { 0 };
    let k: int = if icon_emitted(icon) { 1 } else { 0 };
    &&& steps.len() == pre + k + 1
    &&& had_icon ==> steps[0] == SourceAction::DestroyIcon
    &&& icon_steps(steps.subrange(pre, pre + k), icon)
    &&& if internal {
        steps.last() == SourceAction::StartInternalDrag { surface, icon: icon_emitted(icon) }
    } else {
        steps.last() matches SourceAction::StartDrag { surface: sf, mime_types, actions: a, icon: i }
            && sf == surface && string_views(mime_types@) == string_views(content.mime_types@) && a == actions
            && i == icon_emitted(icon)
    }
}

/// Whether `acts` are the requests of the application's choice of `action`
/// on the offer `o`.
pub open spec fn choice_requests(acts: Seq<OfferAction>, o: DragOfferState, action: DndAction) -> bool {
    if choice_begins_load(o) {
        drop_load(acts, action, o.accepted_mime.unwrap()@)
    } else {
        &&& acts.len() == 1
        &&& acts[0] == OfferAction::SetActions { actions: action, preferred: action }
    }
}

/// The requests that set up the icon, if any.
fn icon_actions(icon: Option<Icon<u32>>) -> (r: Vec<SourceAction>)
    ensures
        icon_steps(r@, icon),
        r@.len() == if icon_emitted(icon) { 1int } else { 0int },
{
    let mut actions: Vec<SourceAction> = Vec::new();
    match icon {
        None => {},
        Some(Icon::Surface(s)) => {
            actions.push(SourceAction::UseIconSurface(s));
        },
        Some(Icon::Buffer { width, height, data, transparent: _ }) => {
            let w = width as u128;
            let h = height as u128;
            assert(w * h <= 0xffff_ffffu128 * 0xffff_ffffu128) by (nonlinear_arith)
                requires
                    w <= 0xffff_ffffu128,
                    h <= 0xffff_ffffu128,
            ;
            let size = w * h * 4;
            if 0 < size && size <= MAX_ICON_BYTES as u128 {
                assert(w * 4 <= w * h * 4) by (nonlinear_arith)
                    requires
                        0 < w * h * 4,
                ;
                actions.push(SourceAction::CreateIcon {
                    width,
                    height,
                    stride: width * 4,
                    size: size as usize,
                    pixels: data,
                });
            }
        },
    }
    actions
}

impl DndState {
    /// Starts the application's own drag; the caller has checked that the
    /// latest seat has a data device. A previous icon is released first.
    pub fn start_dnd(
        &mut self,
        internal: bool,
        surface: u32,
        icon: Option<Icon<u32>>,
        content: DndData,
        actions: DndAction,
    ) -> (r: Vec<SourceAction>)
        ensures
            final(self).destinations == old(self).destinations,
            final(self).offer == old(self).offer,
            final(self).source matches Some(s) && s.internal == internal && s.content == content
                && s.actions == actions && s.has_icon == icon_emitted(icon),
            start_steps(r@, old(self).source matches Some(p) && p.has_icon, internal, surface, icon, content, actions),
    {
        let mut out: Vec<SourceAction> = Vec::new();
        if let Some(previous) = &self.source {
            if previous.has_icon {
                out.push(SourceAction::DestroyIcon);
            }
        }
        let ghost had_icon = old(self).source matches Some(p) && p.has_icon;
        let ghost pre = out@;
        let mut steps = icon_actions(icon);
        let has_icon = steps.len() > 0;
        let ghost added = steps@;
        out.append(&mut steps);
        assert(out@ == pre + added);
        if internal {
            out.push(SourceAction::StartInternalDrag { surface, icon: has_icon });
        } else {
            out.push(SourceAction::StartDrag {
                surface,
                mime_types: copy_strings(&content.mime_types),
                actions,
                icon: has_icon,
            });
        }
        proof {
            let p: int = if had_icon { 1 } else { 0 };
            let k: int = if has_icon { 1 } else { 0 };
            assert(pre.len() == p);
            assert(out@.subrange(p, p + k) =~= added);
            if had_icon {
                assert(out@[0] == pre[0]);
            }
        }
        self.source = Some(DragSourceState { internal, content, actions, has_icon });
        out
    }

    /// Ends the application's own drag and releases its icon.
    pub fn end_dnd(&mut self) -> (r: Vec<SourceAction>)
        ensures
            final(self).destinations == old(self).destinations,
            final(self).offer == old(self).offer,
            final(self).source is None,
            (old(self).source matches Some(p) && p.has_icon) ==> r@ == seq![SourceAction::DestroyIcon],
            !(old(self).source matches Some(p) && p.has_icon) ==> r@.len() == 0,
    {
        let mut out: Vec<SourceAction> = Vec::new();
        if let Some(s) = &self.source {
            if s.has_icon {
                out.push(SourceAction::DestroyIcon);
            }
        }
        self.source = None;
        proof {
            if out@.len() == 1 {
                assert(out@ =~= seq![SourceAction::DestroyIcon]);
            }
        }
        out
    }

    /// The compositor asks the application's drag for `mime`: the bytes to
    /// write, if the drag offers that type.
    pub fn source_send(&self, mime: &String) -> (r: Option<Vec<u8>>)
        ensures
            r is Some <==> (self.source matches Some(s) && !s.internal && string_views(s.content.mime_types@).contains(mime@)),
            r matches Some(b) ==> b@ == self.source.unwrap().content.data@,
    {
        match &self.source {
            Some(s) => {
                if !s.internal && s.content.offers(mime) {
                    Some(copy_bytes(s.content.data.as_slice()))
                } else {
                    None
                }
            },
            None => None,
        }
    }

    /// The compositor chose an action for the application's drag.
    pub fn source_action(&self, action: DndAction) -> (r: DndEvent)
        ensures
            r matches DndEvent::Source(SourceEvent::Action(a)) && a == action,
    {
        DndEvent::Source(SourceEvent::Action(action))
    }

    /// The destination accepted a MIME type, or none.
    pub fn source_mime(&self, mime: Option<String>) -> (r: DndEvent)
        ensures
            r matches DndEvent::Source(SourceEvent::Mime(m)) && m == mime,
    {
        DndEvent::Source(SourceEvent::Mime(mime))
    }

    /// The application's drag was dropped: the icon is released; the drag
    /// itself goes on until it finishes.
    pub fn source_dropped(&mut self) -> (r: (DndEvent, Vec<SourceAction>))
        ensures
            final(self).destinations == old(self).destinations,
            final(self).offer == old(self).offer,
            r.0 matches DndEvent::Source(SourceEvent::Dropped),
            match old(self).source {
                Some(s) => {
                    &&& final(self).source == Some(DragSourceState { has_icon: false, ..s })
                    &&& if s.has_icon { r.1@ == seq![SourceAction::DestroyIcon] } else { r.1@.len() == 0 }
                },
                None => final(self).source is None && r.1@.len() == 0,
            },
    {
        let mut out: Vec<SourceAction> = Vec::new();
        if let Some(s) = self.source.take() {
            if s.has_icon {
                out.push(SourceAction::DestroyIcon);
                assert(out@ =~= seq![SourceAction::DestroyIcon]);
            }
            self.source = Some(DragSourceState { has_icon: false, ..s });
        }
        (DndEvent::Source(SourceEvent::Dropped), out)
    }

    /// The application's drag ends: cancelled, or finished after a drop.
    /// Its content and icon are released.
    fn source_ended(&mut self, cancelled: bool) -> (r: (DndEvent, Vec<SourceAction>))
        ensures
            final(self).destinations == old(self).destinations,
            final(self).offer == old(self).offer,
            final(self).source is None,
            cancelled ==> r.0 matches DndEvent::Source(SourceEvent::Cancelled),
            !cancelled ==> r.0 matches DndEvent::Source(SourceEvent::Finished),
            (old(self).source matches Some(p) && p.has_icon) ==> r.1@ == seq![SourceAction::DestroyIcon],
            !(old(self).source matches Some(p) && p.has_icon) ==> r.1@.len() == 0,
    {
        let out = self.end_dnd();
        let event = if cancelled {
            DndEvent::Source(SourceEvent::Cancelled)
        } else {
            DndEvent::Source(SourceEvent::Finished)
        };
        (event, out)
    }

    /// The application's drag was cancelled.
    pub fn source_cancelled(&mut self) -> (r: (DndEvent, Vec<SourceAction>))
        ensures
            final(self).destinations == old(self).destinations,
            final(self).offer == old(self).offer,
            final(self).source is None,
            r.0 matches DndEvent::Source(SourceEvent::Cancelled),
            (old(self).source matches Some(p) && p.has_icon) ==> r.1@ == seq![SourceAction::DestroyIcon],
            !(old(self).source matches Some(p) && p.has_icon) ==> r.1@.len() == 0,
    {
        self.source_ended(true)
    }

    /// The application's drag finished.
    pub fn source_finished(&mut self) -> (r: (DndEvent, Vec<SourceAction>))
        ensures
            final(self).destinations == old(self).destinations,
            final(self).offer == old(self).offer,
            final(self).source is None,
            r.0 matches DndEvent::Source(SourceEvent::Finished),
            (old(self).source matches Some(p) && p.has_icon) ==> r.1@ == seq![SourceAction::DestroyIcon],
            !(old(self).source matches Some(p) && p.has_icon) ==> r.1@.len() == 0,
    {
        self.source_ended(false)
    }
}


/// Rectangles are tried in registration order, and one whose MIME
/// constraint the offer fails is skipped: when the first rectangle holds
/// the point but accepts none of the offered types, and the second takes
/// the drag, the second one is matched.
pub proof fn lemma_rectangle_precedence(
    rects: Seq<DndDestinationRectangle>,
    x: i32,
    y: i32,
    offered: Seq<Seq<char>>,
    source_actions: DndAction,
)
    requires
        rects.len() >= 2,
        rects[0].rectangle.spec_contains(x, y),
        !mime_ok(string_views(rects[0].mime_types@), offered),
        rect_matches(rects[1], x, y, offered, source_actions),
    ensures
        first_match_from(rects, 0, x, y, offered, source_actions) == Some(1int),
{
    assert(!rect_matches(rects[0], x, y, offered, source_actions));
    assert(first_match_from(rects, 1, x, y, offered, source_actions) == Some(1int));
}

/// A move onto a new rectangle reports exactly one `LeaveDestination`, for
/// the old rectangle, before the motion.
pub proof fn lemma_leave_before_motion(events: Seq<DndEvent>, old: Option<u128>, new: Option<u128>, x: i32, y: i32)
    requires
        motion_events(events, old, new, x, y),
        old is Some,
        old != new,
    ensures
        events.len() == 2,
        events[0] matches DndEvent::Offer(id, OfferEvent::LeaveDestination) && id == old,
        events[1] matches DndEvent::Offer(id, OfferEvent::Motion { .. }) && id == new,
{
}


/// The `Ask` handshake: a drop whose selected action is `Ask` begins no
/// load, and once dropped, the application's choice of action does.
pub proof fn lemma_ask_two_phase(o: DragOfferState, choice: DndAction)
    requires
        o.selected_action == (DndAction { copy: false, moving: false, ask: true }),
        o.accepted_mime is Some,
    ensures
        !drop_begins_load(o),
        choice_begins_load(DragOfferState { dropped: true, selected_action: choice, ..o }),
{
}

} // verus!
