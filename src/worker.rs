//! The worker's state and its decisions: commands from the application
//! become replies and requests to the compositor; requests from the
//! compositor are answered from the stored selection content.
use vstd::prelude::*;
use crate::data::ClipboardData;
use crate::dnd::state::{choice_requests, start_steps, DndState, DragOfferState, OfferAction, SourceAction};
use crate::dnd::{DndAction, DndData, DndDestinationRectangle, DndEvent, Icon};
use crate::error::ClipboardError;
use crate::mime::{
    copy_strings, first_allowed, is_text_mime, is_text_str, mime_model, model_str, string_views, MimeModel, MimeType,
};
use crate::seat::{SeatRecord, SeatTracker, Target};
use crate::selection::{formats_map, lemma_store_then_serve, SelectionContent};

verus! {

broadcast use vstd::std_specs::hash::group_hash_axioms;

/// Drag-and-drop commands.
#[derive(Debug)]
pub enum DndRequest {
    /// Register the surface's destination rectangles; none unregisters it.
    RegisterDestination { surface: u32, rectangles: Vec<DndDestinationRectangle> },
    /// Start a drag from `source`.
    StartDnd { internal: bool, source: u32, icon: Option<Icon<u32>>, content: DndData, actions: DndAction },
    /// End the application's drag.
    EndDnd,
    /// The application's choice of action.
    SetAction(DndAction),
    /// Read the incoming drag's data as a MIME type without finishing it.
    Peek(String),
    /// Finish the incoming drag.
    Finish,
}

/// Commands from the application to the worker.
#[derive(Debug)]
pub enum Command {
    /// Store one payload under several MIME types in the clipboard.
    Store { data: Vec<u8>, mime_types: Vec<String> },
    /// Store a payload per group of MIME types in the clipboard.
    StoreMulti { formats: Vec<(Vec<u8>, Vec<String>)> },
    /// Store one payload in the primary selection.
    StorePrimary { data: Vec<u8>, mime_types: Vec<String> },
    /// Store a payload per group in the primary selection.
    StorePrimaryMulti { formats: Vec<(Vec<u8>, Vec<String>)> },
    /// Load from the clipboard, by MIME preference.
    Load { mime_types: Vec<String> },
    /// Load from the primary selection, by MIME preference.
    LoadPrimary { mime_types: Vec<String> },
    /// The clipboard's MIME types.
    GetMimeTypes,
    /// The primary selection's MIME types.
    GetPrimaryMimeTypes,
    /// A drag-and-drop command.
    Dnd(DndRequest),
    /// Stop the worker.
    Exit,
}

/// Replies from the worker.
#[derive(Debug)]
pub enum Reply {
    /// Loaded data.
    Data(ClipboardData),
    /// Available MIME types.
    MimeTypes(Vec<String>),
    /// Done.
    Done,
}

/// A selection source to create and set.
#[derive(Debug)]
pub struct StorePlan {
    pub target: Target,
    /// The seat whose device sets the selection.
    pub seat: u32,
    /// The serial that authorizes it.
    pub serial: u32,
    /// The MIME types the source advertises.
    pub mime_types: Vec<String>,
}

/// A selection read to start.
#[derive(Debug)]
pub struct LoadPlan {
    pub target: Target,
    /// The seat whose offer is read.
    pub seat: u32,
    /// The MIME type to receive.
    pub mime_type: String,
    /// Whether line endings are normalized on completion.
    pub normalize: bool,
}

/// What the worker asks of the event loop.
#[derive(Debug)]
pub enum Effect {
    /// Send a reply to the application.
    Reply(Result<Reply, ClipboardError>),
    /// Create a selection source and set the selection.
    SetSelection(StorePlan),
    /// Receive a selection offer into a pipe.
    Receive(LoadPlan),
    /// A request on the incoming drag.
    Offer(OfferAction),
    /// A request for the application's own drag.
    Source(SourceAction),
    /// A drag-and-drop event for the application.
    Event(DndEvent),
    /// Leave the event loop.
    Exit,
}

/// How a load is decided.
pub enum LoadDecision {
    Unsupported,
    NoSeat,
    NoFocus,
    Empty,
    NoCompatibleMime,
    Read { seat: u32, mime: MimeModel },
}

/// Whether the compositor supports `target`.
pub open spec fn supports(t: SeatTracker, target: Target) -> bool {
    match target {
        Target::Clipboard => t.has_data_device_manager,
        Target::Primary => t.has_primary_manager,
    }
}

/// Whether a seat has the selection device of `target`.
pub open spec fn has_device(r: SeatRecord, target: Target) -> bool {
    match target {
        Target::Clipboard => r.has_data_device,
        Target::Primary => r.has_primary_device,
    }
}

/// The latest seat, when it is still known.
pub open spec fn latest(t: SeatTracker) -> Option<u32> {
    match t.latest_seat {
        Some(id) => if t.seats@.contains_key(id) {
            Some(id)
        } else {
            None
        },
        None => None,
    }
}

/// The decision for a load of `target` with MIME preference `allowed`.
pub open spec fn load_decision(t: SeatTracker, target: Target, allowed: Seq<MimeModel>) -> LoadDecision {
    if !supports(t, target) {
        LoadDecision::Unsupported
    } else {
        match latest(t) {
            None => LoadDecision::NoSeat,
            Some(id) => if !t.seats@[id].has_focus {
                LoadDecision::NoFocus
            } else if !t.offers(target).contains_key(id) {
                LoadDecision::Empty
            } else {
                match first_allowed(string_views(t.offers(target)[id]@), allowed) {
                    None => LoadDecision::NoCompatibleMime,
                    Some(m) => LoadDecision::Read { seat: id, mime: m },
                }
            },
        }
    }
}

/// The seat and serial that a store uses, if it may happen: a supported
/// target, a known latest seat with focus and the target's device.
pub open spec fn store_decision(t: SeatTracker, target: Target) -> Option<(u32, u32)> {
    if !supports(t, target) {
        None
    } else {
        match latest(t) {
            None => None,
            Some(id) => {
                let r = t.seats@[id];
                if r.has_focus && has_device(r, target) {
                    Some((id, r.latest_serial))
                } else {
                    None
                }
            },
        }
    }
}

/// Whether `r` is the error a failed load decision reports.
pub open spec fn load_error(d: LoadDecision, target: Target, e: ClipboardError) -> bool {
    match d {
        LoadDecision::Unsupported => match target {
            Target::Clipboard => e is DataDeviceUnsupported,
            Target::Primary => e is PrimarySelectionUnsupported,
        },
        LoadDecision::NoSeat => e is NoSeat,
        LoadDecision::NoFocus => e is NoFocus,
        LoadDecision::Empty => e is Empty,
        LoadDecision::NoCompatibleMime => e is NoCompatibleMime,
        LoadDecision::Read { .. } => false,
    }
}

/// Whether `p` is the plan of a load decided as `d`.
pub open spec fn load_plan(d: LoadDecision, target: Target, p: LoadPlan) -> bool {
    match d {
        LoadDecision::Read { seat, mime } => {
            &&& p.target == target
            &&& p.seat == seat
            &&& p.mime_type@ == model_str(mime)
            &&& p.normalize == is_text_str(model_str(mime))
        },
        _ => false,
    }
}

/// The state of a worker.
pub struct Worker {
    /// Seats and their offers.
    pub seats: SeatTracker,
    /// What the application offers as the clipboard.
    pub clipboard: SelectionContent,
    /// What the application offers as the primary selection.
    pub primary: SelectionContent,
    /// Drag and drop.
    pub dnd: DndState,
}

impl Worker {
    /// The content offered for `target`.
    pub open spec fn content(&self, target: Target) -> Map<Seq<char>, Seq<u8>> {
        match target {
            Target::Clipboard => self.clipboard.map(),
            Target::Primary => self.primary.map(),
        }
    }

    /// A worker for a compositor with the given managers, with nothing stored.
    pub fn new(has_data_device_manager: bool, has_primary_manager: bool) -> (r: Worker)
        ensures
            r.seats.wf(),
            r.seats.seats@ == Map::<u32, SeatRecord>::empty(),
            r.seats.latest_seat is None,
            r.seats.has_data_device_manager == has_data_device_manager,
            r.seats.has_primary_manager == has_primary_manager,
            r.content(Target::Clipboard) == Map::<Seq<char>, Seq<u8>>::empty(),
            r.content(Target::Primary) == Map::<Seq<char>, Seq<u8>>::empty(),
            r.dnd.offer is None,
            r.dnd.source is None,
    {
        Worker {
            seats: SeatTracker::new(has_data_device_manager, has_primary_manager),
            clipboard: SelectionContent::empty(),
            primary: SelectionContent::empty(),
            dnd: DndState::new(),
        }
    }

    /// A worker, unless the compositor offers neither the data device
    /// manager nor the primary selection manager: then nothing can be done.
    pub fn try_new(has_data_device_manager: bool, has_primary_manager: bool) -> (r: Option<Worker>)
        ensures
            r is None <==> (!has_data_device_manager && !has_primary_manager),
            r matches Some(w) ==> {
                &&& w.seats.wf()
                &&& w.seats.seats@ == Map::<u32, SeatRecord>::empty()
                &&& w.seats.latest_seat is None
                &&& w.seats.has_data_device_manager == has_data_device_manager
                &&& w.seats.has_primary_manager == has_primary_manager
                &&& w.content(Target::Clipboard) == Map::<Seq<char>, Seq<u8>>::empty()
                &&& w.content(Target::Primary) == Map::<Seq<char>, Seq<u8>>::empty()
                &&& w.dnd.offer is None
                &&& w.dnd.source is None
            },
    {
        if !has_data_device_manager && !has_primary_manager {
            None
        } else {
            Some(Worker::new(has_data_device_manager, has_primary_manager))
        }
    }

    /// The latest seat, when it is still known.
    fn latest_seat(&self) -> (r: Option<u32>)
        ensures
            r == latest(self.seats),
    {
        match self.seats.latest_seat {
            Some(id) => if self.seats.seats.contains_key(&id) {
                Some(id)
            } else {
                None
            },
            None => None,
        }
    }

    /// Whether the compositor supports `target`.
    fn supports(&self, target: Target) -> (r: bool)
        ensures
            r == supports(self.seats, target),
    {
        match target {
            Target::Clipboard => self.seats.has_data_device_manager,
            Target::Primary => self.seats.has_primary_manager,
        }
    }

    /// Records the content of a store and plans its source. A store fails
    /// silently, leaving everything as it was, when the latest seat is
    /// missing, unfocused or without the target's device.
    pub fn store_selection(&mut self, target: Target, formats: &Vec<(Vec<u8>, Vec<String>)>) -> (r: Option<StorePlan>)
        ensures
            final(self).seats == old(self).seats,
            final(self).dnd == old(self).dnd,
            match store_decision(old(self).seats, target) {
                None => {
                    &&& r is None
                    &&& final(self).clipboard == old(self).clipboard
                    &&& final(self).primary == old(self).primary
                },
                Some((seat, serial)) => {
                    &&& r matches Some(p) && p.target == target && p.seat == seat && p.serial == serial
                        && string_views(p.mime_types@).no_duplicates()
                        && (forall|m: Seq<char>| string_views(p.mime_types@).contains(m) <==> formats_map(formats@).contains_key(m))
                    &&& final(self).content(target) == formats_map(formats@)
                    &&& target == Target::Clipboard ==> final(self).primary == old(self).primary
                    &&& target == Target::Primary ==> final(self).clipboard == old(self).clipboard
                },
            },
    {
        if !self.supports(target) {
            return None;
        }
        let id = match self.latest_seat() {
            Some(id) => id,
            None => return None,
        };
        let rec = match self.seats.seats.get(&id) {
            Some(r) => *r,
            None => return None,
        };
        let device = match target {
            Target::Clipboard => rec.has_data_device,
            Target::Primary => rec.has_primary_device,
        };
        if !rec.has_focus || !device {
            return None;
        }
        let content = SelectionContent::from_formats(formats);
        let mime_types = content.mime_types();
        match target {
            Target::Clipboard => {
                self.clipboard = content;
            },
            Target::Primary => {
                self.primary = content;
            },
        }
        Some(StorePlan { target, seat: id, serial: rec.latest_serial, mime_types })
    }

    /// Decides a load: the error to reply, or the offer read to start.
    pub fn load_selection(&self, target: Target, allowed: &Vec<MimeType>) -> (r: Result<LoadPlan, ClipboardError>)
        ensures
            match r {
                Ok(p) => load_plan(load_decision(self.seats, target, allowed@.map_values(|m: MimeType| m@)), target, p),
                Err(e) => load_error(load_decision(self.seats, target, allowed@.map_values(|m: MimeType| m@)), target, e),
            },
    {
        if !self.supports(target) {
            return match target {
                Target::Clipboard => Err(ClipboardError::DataDeviceUnsupported),
                Target::Primary => Err(ClipboardError::PrimarySelectionUnsupported),
            };
        }
        let id = match self.latest_seat() {
            Some(id) => id,
            None => return Err(ClipboardError::NoSeat),
        };
        let rec = match self.seats.seats.get(&id) {
            Some(r) => *r,
            None => return Err(ClipboardError::NoSeat),
        };
        if !rec.has_focus {
            return Err(ClipboardError::NoFocus);
        }
        let offers = match target {
            Target::Clipboard => &self.seats.clipboard_offers,
            Target::Primary => &self.seats.primary_offers,
        };
        let offered = match offers.get(&id) {
            Some(o) => o,
            None => return Err(ClipboardError::Empty),
        };
        match MimeType::find_allowed(offered, allowed) {
            None => Err(ClipboardError::NoCompatibleMime),
            Some(m) => {
                let mime_type = m.to_string();
                let normalize = is_text_mime(&mime_type);
                Ok(LoadPlan { target, seat: id, mime_type, normalize })
            },
        }
    }

    /// The MIME types of the latest seat's offer for `target`, verbatim.
    pub fn get_mime_types(&self, target: Target) -> (r: Result<Vec<String>, ClipboardError>)
        ensures
            !supports(self.seats, target) ==> match target {
                Target::Clipboard => r matches Err(ClipboardError::DataDeviceUnsupported),
                Target::Primary => r matches Err(ClipboardError::PrimarySelectionUnsupported),
            },
            supports(self.seats, target) ==> match latest(self.seats) {
                None => r matches Err(ClipboardError::NoSeat),
                Some(id) => if self.seats.offers(target).contains_key(id) {
                    r matches Ok(v) && string_views(v@) == string_views(self.seats.offers(target)[id]@)
                } else {
                    r matches Err(ClipboardError::Empty)
                },
            },
    {
        if !self.supports(target) {
            return match target {
                Target::Clipboard => Err(ClipboardError::DataDeviceUnsupported),
                Target::Primary => Err(ClipboardError::PrimarySelectionUnsupported),
            };
        }
        let id = match self.latest_seat() {
            Some(id) => id,
            None => return Err(ClipboardError::NoSeat),
        };
        let offers = match target {
            Target::Clipboard => &self.seats.clipboard_offers,
            Target::Primary => &self.seats.primary_offers,
        };
        match offers.get(&id) {
            Some(o) => Ok(copy_strings(o)),
            None => Err(ClipboardError::Empty),
        }
    }

    /// The compositor asks for the stored `target` content as `mime`: the
    /// bytes to write, or nothing when that type is not stored.
    pub fn send_request(&self, target: Target, mime: &String) -> (r: Option<Vec<u8>>)
        ensures
            r is Some <==> self.content(target).contains_key(mime@),
            r matches Some(b) ==> b@ == self.content(target)[mime@],
    {
        match target {
            Target::Clipboard => self.clipboard.lookup(mime),
            Target::Primary => self.primary.lookup(mime),
        }
    }
}


/// The MIME models of a list of MIME strings.
pub open spec fn models_of(v: Seq<String>) -> Seq<MimeModel> {
    string_views(v).map_values(|s: Seq<char>| mime_model(s))
}

/// Classifies each of a list of MIME strings.
pub fn classify_all(v: &Vec<String>) -> (r: Vec<MimeType>)
    ensures
        r@.map_values(|m: MimeType| m@) == models_of(v@),
{
    let mut out: Vec<MimeType> = Vec::new();
    let mut i: usize = 0;
    while i < v.len()
        invariant
            0 <= i <= v@.len(),
            out@.len() == i,
            forall|k: int| 0 <= k < i ==> #[trigger] out@[k]@ == mime_model(v@[k]@),
        decreases v@.len() - i,
    {
        out.push(MimeType::classify(v[i].clone()));
        i = i + 1;
    }
    assert(out@.map_values(|m: MimeType| m@) =~= models_of(v@));
    out
}

/// Effects that announce events.
pub open spec fn event_effects(events: Seq<DndEvent>) -> Seq<Effect> {
    events.map_values(|e: DndEvent| Effect::Event(e))
}

/// Effects that make offer requests.
pub open spec fn offer_effects(actions: Seq<OfferAction>) -> Seq<Effect> {
    actions.map_values(|a: OfferAction| Effect::Offer(a))
}

/// Effects that make source requests.
pub open spec fn source_effects(actions: Seq<SourceAction>) -> Seq<Effect> {
    actions.map_values(|a: SourceAction| Effect::Source(a))
}

/// Whether every effect is an offer request.
pub open spec fn all_offer(effects: Seq<Effect>) -> bool {
    forall|i: int| 0 <= i < effects.len() ==> #[trigger] effects[i] is Offer
}

/// Whether every effect is a source request.
pub open spec fn all_source(effects: Seq<Effect>) -> bool {
    forall|i: int| 0 <= i < effects.len() ==> #[trigger] effects[i] is Source
}

/// The offer requests of effects that are all offer requests.
pub open spec fn offer_requests(effects: Seq<Effect>) -> Seq<OfferAction> {
    effects.map_values(|e: Effect| match e {
        Effect::Offer(a) => a,
        _ => OfferAction::Finish,
    })
}

/// The source requests of effects that are all source requests.
pub open spec fn source_requests(effects: Seq<Effect>) -> Seq<SourceAction> {
    effects.map_values(|e: Effect| match e {
        Effect::Source(a) => a,
        _ => SourceAction::DestroyIcon,
    })
}

proof fn lemma_offer_round_trip(actions: Seq<OfferAction>)
    ensures
        all_offer(offer_effects(actions)),
        offer_requests(offer_effects(actions)) == actions,
{
    assert(offer_requests(offer_effects(actions)) =~= actions);
}

proof fn lemma_source_round_trip(actions: Seq<SourceAction>)
    ensures
        all_source(source_effects(actions)),
        source_requests(source_effects(actions)) == actions,
{
    assert(source_requests(source_effects(actions)) =~= actions);
}

/// Moves offer requests and events into effects, events first.
fn push_output(effects: &mut Vec<Effect>, out: crate::dnd::state::DndOutput)
    ensures
        final(effects)@ == old(effects)@ + event_effects(out.events@) + offer_effects(out.actions@),
{
    let mut events = out.events;
    let mut actions = out.actions;
    let ghost ev0 = events@;
    let ghost ac0 = actions@;
    let ghost start = effects@;
    while events.len() > 0
        invariant
            events@.len() <= ev0.len(),
            events@ == ev0.subrange(ev0.len() - events@.len(), ev0.len() as int),
            effects@ == start + event_effects(ev0.subrange(0, ev0.len() - events@.len())),
        decreases events@.len(),
    {
        let ghost k = ev0.len() - events@.len();
        let e = events.remove(0);
        assert(e == ev0[k]);
        effects.push(Effect::Event(e));
        assert(events@ =~= ev0.subrange(k + 1, ev0.len() as int));
        assert(event_effects(ev0.subrange(0, k + 1)) =~= event_effects(ev0.subrange(0, k)).push(Effect::Event(e)));
    }
    assert(ev0.subrange(0, ev0.len() as int) =~= ev0);
    let ghost mid = effects@;
    while actions.len() > 0
        invariant
            actions@.len() <= ac0.len(),
            actions@ == ac0.subrange(ac0.len() - actions@.len(), ac0.len() as int),
            effects@ == mid + offer_effects(ac0.subrange(0, ac0.len() - actions@.len())),
        decreases actions@.len(),
    {
        let ghost k = ac0.len() - actions@.len();
        let a = actions.remove(0);
        assert(a == ac0[k]);
        effects.push(Effect::Offer(a));
        assert(actions@ =~= ac0.subrange(k + 1, ac0.len() as int));
        assert(offer_effects(ac0.subrange(0, k + 1)) =~= offer_effects(ac0.subrange(0, k)).push(Effect::Offer(a)));
    }
    assert(ac0.subrange(0, ac0.len() as int) =~= ac0);
}

/// Moves source requests into effects.
fn push_source_actions(effects: &mut Vec<Effect>, actions: Vec<SourceAction>)
    ensures
        final(effects)@ == old(effects)@ + source_effects(actions@),
{
    let mut actions = actions;
    let ghost ac0 = actions@;
    let ghost start = effects@;
    while actions.len() > 0
        invariant
            actions@.len() <= ac0.len(),
            actions@ == ac0.subrange(ac0.len() - actions@.len(), ac0.len() as int),
            effects@ == start + source_effects(ac0.subrange(0, ac0.len() - actions@.len())),
        decreases actions@.len(),
    {
        let ghost k = ac0.len() - actions@.len();
        let a = actions.remove(0);
        assert(a == ac0[k]);
        effects.push(Effect::Source(a));
        assert(actions@ =~= ac0.subrange(k + 1, ac0.len() as int));
        assert(source_effects(ac0.subrange(0, k + 1)) =~= source_effects(ac0.subrange(0, k)).push(Effect::Source(a)));
    }
    assert(ac0.subrange(0, ac0.len() as int) =~= ac0);
}

/// The effects of a store: the source to set, or nothing.
pub open spec fn store_effects(effects: Seq<Effect>, d: Option<(u32, u32)>, target: Target) -> bool {
    match d {
        None => effects.len() == 0,
        Some((seat, serial)) => {
            &&& effects.len() == 1
            &&& effects[0] matches Effect::SetSelection(p) && p.target == target && p.seat == seat && p.serial == serial
        },
    }
}

/// The effects of a MIME types query: the reply with the latest seat's
/// offered types, or the error.
pub open spec fn mime_types_effects(effects: Seq<Effect>, t: SeatTracker, target: Target) -> bool {
    &&& effects.len() == 1
    &&& if !supports(t, target) {
        match target {
            Target::Clipboard => effects[0] matches Effect::Reply(Err(ClipboardError::DataDeviceUnsupported)),
            Target::Primary => effects[0] matches Effect::Reply(Err(ClipboardError::PrimarySelectionUnsupported)),
        }
    } else {
        match latest(t) {
            None => effects[0] matches Effect::Reply(Err(ClipboardError::NoSeat)),
            Some(id) => if t.offers(target).contains_key(id) {
                effects[0] matches Effect::Reply(Ok(Reply::MimeTypes(v)))
                    && string_views(v@) == string_views(t.offers(target)[id]@)
            } else {
                effects[0] matches Effect::Reply(Err(ClipboardError::Empty))
            },
        }
    }
}

/// The effects of a load: the read to start, or the error to reply.
pub open spec fn load_effects(effects: Seq<Effect>, d: LoadDecision, target: Target) -> bool {
    &&& effects.len() == 1
    &&& match effects[0] {
        Effect::Receive(p) => load_plan(d, target, p),
        Effect::Reply(Err(e)) => load_error(d, target, e),
        _ => false,
    }
}

impl Worker {
    /// The content of a store command, as groups.
    fn single_format(data: Vec<u8>, mime_types: Vec<String>) -> (r: Vec<(Vec<u8>, Vec<String>)>)
        ensures
            r@ == seq![(data, mime_types)],
    {
        let mut formats: Vec<(Vec<u8>, Vec<String>)> = Vec::new();
        formats.push((data, mime_types));
        assert(formats@ =~= seq![(data, mime_types)]);
        formats
    }

    /// Stores and turns the plan into effects.
    fn store_command(&mut self, target: Target, formats: Vec<(Vec<u8>, Vec<String>)>) -> (r: Vec<Effect>)
        ensures
            final(self).seats == old(self).seats,
            final(self).dnd == old(self).dnd,
            store_effects(r@, store_decision(old(self).seats, target), target),
            store_decision(old(self).seats, target) is Some ==> final(self).content(target) == formats_map(formats@),
            store_decision(old(self).seats, target) is None ==> final(self).clipboard == old(self).clipboard
                && final(self).primary == old(self).primary,
            target == Target::Clipboard ==> final(self).primary == old(self).primary,
            target == Target::Primary ==> final(self).clipboard == old(self).clipboard,
    {
        let mut effects: Vec<Effect> = Vec::new();
        if let Some(plan) = self.store_selection(target, &formats) {
            effects.push(Effect::SetSelection(plan));
        }
        effects
    }

    /// Decides a load and turns it into effects.
    fn load_command(&self, target: Target, mime_types: &Vec<String>) -> (r: Vec<Effect>)
        ensures
            load_effects(r@, load_decision(self.seats, target, models_of(mime_types@)), target),
    {
        let allowed = classify_all(mime_types);
        let mut effects: Vec<Effect> = Vec::new();
        match self.load_selection(target, &allowed) {
            Ok(plan) => effects.push(Effect::Receive(plan)),
            Err(e) => effects.push(Effect::Reply(Err(e))),
        }
        effects
    }

    /// Answers a MIME types query.
    fn mime_types_command(&self, target: Target) -> (r: Vec<Effect>)
        ensures
            mime_types_effects(r@, self.seats, target),
    {
        let mut effects: Vec<Effect> = Vec::new();
        match self.get_mime_types(target) {
            Ok(v) => effects.push(Effect::Reply(Ok(Reply::MimeTypes(v)))),
            Err(e) => effects.push(Effect::Reply(Err(e))),
        }
        effects
    }

    /// Whether the latest seat has a data device to drag with.
    fn can_drag(&self) -> (r: bool)
        ensures
            r == (latest(self.seats) matches Some(id) && self.seats.seats@[id].has_data_device),
    {
        match self.latest_seat() {
            Some(id) => match self.seats.seats.get(&id) {
                Some(rec) => rec.has_data_device,
                None => false,
            },
            None => false,
        }
    }

    /// Handles one command from the application.
    pub fn handle_command(&mut self, command: Command) -> (r: Vec<Effect>)
        ensures
            final(self).seats == old(self).seats,
            !(command is Dnd) ==> final(self).dnd == old(self).dnd,
            !(command is Store || command is StoreMulti) ==> final(self).clipboard == old(self).clipboard,
            !(command is StorePrimary || command is StorePrimaryMulti) ==> final(self).primary == old(self).primary,
            match command {
                Command::Store { data, mime_types } => {
                    &&& store_effects(r@, store_decision(old(self).seats, Target::Clipboard), Target::Clipboard)
                    &&& store_decision(old(self).seats, Target::Clipboard) is Some ==> final(self).content(Target::Clipboard)
                        == formats_map(seq![(data, mime_types)])
                    &&& store_decision(old(self).seats, Target::Clipboard) is None ==> final(self).clipboard == old(self).clipboard
                },
                Command::StoreMulti { formats } => {
                    &&& store_effects(r@, store_decision(old(self).seats, Target::Clipboard), Target::Clipboard)
                    &&& store_decision(old(self).seats, Target::Clipboard) is Some ==> final(self).content(Target::Clipboard)
                        == formats_map(formats@)
                    &&& store_decision(old(self).seats, Target::Clipboard) is None ==> final(self).clipboard == old(self).clipboard
                },
                Command::StorePrimary { data, mime_types } => {
                    &&& store_effects(r@, store_decision(old(self).seats, Target::Primary), Target::Primary)
                    &&& store_decision(old(self).seats, Target::Primary) is Some ==> final(self).content(Target::Primary)
                        == formats_map(seq![(data, mime_types)])
                    &&& store_decision(old(self).seats, Target::Primary) is None ==> final(self).primary == old(self).primary
                },
                Command::StorePrimaryMulti { formats } => {
                    &&& store_effects(r@, store_decision(old(self).seats, Target::Primary), Target::Primary)
                    &&& store_decision(old(self).seats, Target::Primary) is Some ==> final(self).content(Target::Primary)
                        == formats_map(formats@)
                    &&& store_decision(old(self).seats, Target::Primary) is None ==> final(self).primary == old(self).primary
                },
                Command::Load { mime_types } => load_effects(
                    r@,
                    load_decision(old(self).seats, Target::Clipboard, models_of(mime_types@)),
                    Target::Clipboard,
                ),
                Command::LoadPrimary { mime_types } => load_effects(
                    r@,
                    load_decision(old(self).seats, Target::Primary, models_of(mime_types@)),
                    Target::Primary,
                ),
                Command::GetMimeTypes => mime_types_effects(r@, old(self).seats, Target::Clipboard),
                Command::GetPrimaryMimeTypes => mime_types_effects(r@, old(self).seats, Target::Primary),
                Command::Dnd(DndRequest::Peek(m)) => r@.len() == 1 && if old(self).dnd.offer is Some {
                    r@[0] matches Effect::Offer(OfferAction::Receive { mime_type, peek }) && mime_type == m && peek
                } else {
                    r@[0] matches Effect::Reply(Err(ClipboardError::Empty))
                },
                Command::Dnd(DndRequest::StartDnd { internal, source, icon, content, actions }) => if latest(old(self).seats) matches Some(id)
                    && old(self).seats.seats@[id].has_data_device {
                    &&& final(self).dnd.source matches Some(s) && s.internal == internal && s.content == content
                        && s.actions == actions
                    &&& all_source(r@)
                    &&& start_steps(
                        source_requests(r@),
                        old(self).dnd.source matches Some(p) && p.has_icon,
                        internal,
                        source,
                        icon,
                        content,
                        actions,
                    )
                } else {
                    r@.len() == 0 && final(self).dnd == old(self).dnd
                },
                Command::Dnd(DndRequest::RegisterDestination { surface, rectangles }) => {
                    &&& r@.len() == 0
                    &&& final(self).dnd.rects(surface) == rectangles@
                    &&& forall|t: u32| t != surface ==> #[trigger] final(self).dnd.rects(t) == old(self).dnd.rects(t)
                },
                Command::Dnd(DndRequest::EndDnd) => {
                    &&& final(self).dnd.source is None
                    &&& if old(self).dnd.source matches Some(p) && p.has_icon {
                        r@.len() == 1 && (r@[0] matches Effect::Source(SourceAction::DestroyIcon))
                    } else {
                        r@.len() == 0
                    }
                },
                Command::Dnd(DndRequest::SetAction(a)) => match old(self).dnd.offer {
                    Some(o) => {
                        &&& final(self).dnd.offer == Some(DragOfferState { selected_action: a, ..o })
                        &&& all_offer(r@)
                        &&& choice_requests(offer_requests(r@), o, a)
                    },
                    None => final(self).dnd.offer is None && r@.len() == 0,
                },
                Command::Dnd(DndRequest::Finish) => {
                    &&& final(self).dnd.offer is None
                    &&& if old(self).dnd.offer is Some {
                        r@.len() == 1 && (r@[0] matches Effect::Offer(OfferAction::Finish))
                    } else {
                        r@.len() == 0
                    }
                },
                Command::Exit => r@.len() == 1 && (r@[0] matches Effect::Exit),
            },
    {
        match command {
            Command::Store { data, mime_types } => {
                let formats = Worker::single_format(data, mime_types);
                self.store_command(Target::Clipboard, formats)
            },
            Command::StoreMulti { formats } => self.store_command(Target::Clipboard, formats),
            Command::StorePrimary { data, mime_types } => {
                let formats = Worker::single_format(data, mime_types);
                self.store_command(Target::Primary, formats)
            },
            Command::StorePrimaryMulti { formats } => self.store_command(Target::Primary, formats),
            Command::Load { mime_types } => self.load_command(Target::Clipboard, &mime_types),
            Command::LoadPrimary { mime_types } => self.load_command(Target::Primary, &mime_types),
            Command::GetMimeTypes => self.mime_types_command(Target::Clipboard),
            Command::GetPrimaryMimeTypes => self.mime_types_command(Target::Primary),
            Command::Dnd(dnd) => {
                let mut effects: Vec<Effect> = Vec::new();
                match dnd {
                    DndRequest::RegisterDestination { surface, rectangles } => {
                        self.dnd.register(surface, rectangles);
                    },
                    DndRequest::StartDnd { internal, source, icon, content, actions } => {
                        if self.can_drag() {
                            let steps = self.dnd.start_dnd(internal, source, icon, content, actions);
                            proof {
                                lemma_source_round_trip(steps@);
                            }
                            push_source_actions(&mut effects, steps);
                            assert(effects@ =~= source_effects(steps@));
                        }
                    },
                    DndRequest::EndDnd => {
                        let steps = self.dnd.end_dnd();
                        push_source_actions(&mut effects, steps);
                        assert(effects@ =~= source_effects(steps@));
                    },
                    DndRequest::SetAction(action) => {
                        let out = self.dnd.set_action(action);
                        proof {
                            lemma_offer_round_trip(out.actions@);
                        }
                        push_output(&mut effects, out);
                        assert(effects@ =~= offer_effects(out.actions@));
                    },
                    DndRequest::Peek(mime) => match self.dnd.peek(mime) {
                        Some(a) => effects.push(Effect::Offer(a)),
                        None => effects.push(Effect::Reply(Err(ClipboardError::Empty))),
                    },
                    DndRequest::Finish => {
                        let out = self.dnd.finish();
                        push_output(&mut effects, out);
                        assert(effects@ =~= offer_effects(out.actions@));
                    },
                }
                effects
            },
            Command::Exit => {
                let mut effects: Vec<Effect> = Vec::new();
                effects.push(Effect::Exit);
                effects
            },
        }
    }
}


/// A load by a latest seat without keyboard focus fails with `NoFocus`,
/// and no offer is read.
pub proof fn lemma_unfocused_load_fails(t: SeatTracker, target: Target, allowed: Seq<MimeModel>, effects: Seq<Effect>)
    requires
        supports(t, target),
        latest(t) matches Some(id) && !t.seats@[id].has_focus,
        load_effects(effects, load_decision(t, target, allowed), target),
    ensures
        load_decision(t, target, allowed) is NoFocus,
        effects.len() == 1,
        effects[0] matches Effect::Reply(Err(ClipboardError::NoFocus)),
{
}


/// Store, then load through a loopback: a store of `data` under the MIME
/// types `mime_types` that succeeds, followed by a compositor that offers
/// the stored types back to the same seat, makes a load of one of them
/// read that type from that seat, and the source serves `data` for it.
pub proof fn lemma_store_then_load(
    t: SeatTracker,
    after: SeatTracker,
    target: Target,
    data: Vec<u8>,
    mime_types: Vec<String>,
    mime: Seq<char>,
)
    requires
        store_decision(t, target) is Some,
        string_views(mime_types@).contains(mime),
        after.seats@ == t.seats@,
        after.latest_seat == t.latest_seat,
        after.has_data_device_manager == t.has_data_device_manager,
        after.has_primary_manager == t.has_primary_manager,
        after.offers(target).contains_key(store_decision(t, target).unwrap().0),
        string_views(after.offers(target)[store_decision(t, target).unwrap().0]@).contains(mime),
    ensures
        load_decision(after, target, seq![mime_model(mime)]) == (LoadDecision::Read {
            seat: store_decision(t, target).unwrap().0,
            mime: mime_model(mime),
        }),
        formats_map(seq![(data, mime_types)]).contains_key(mime),
        formats_map(seq![(data, mime_types)])[mime] == data@,
{
    crate::mime::lemma_mime_round_trip(mime);
    let allowed = seq![mime_model(mime)];
    assert(allowed.drop_first() =~= Seq::<MimeModel>::empty());
    lemma_store_then_serve(data, mime_types, mime);
}

} // verus!
