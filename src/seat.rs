//! Seat tracking: capabilities, keyboard focus, the latest serial of each
//! seat, the seat that produced the latest input, and the selection offers
//! that each seat currently holds.
use vstd::prelude::*;
use std::collections::HashMap;

verus! {

broadcast use vstd::std_specs::hash::group_hash_axioms;

/// Which selection an operation applies to.
#[derive(Debug, Clone, Copy, PartialEq, Eq, Structural)]
pub enum Target {
    /// The regular copy/paste selection.
    Clipboard,
    /// The primary selection.
    Primary,
}

/// An input capability of a seat.
#[derive(Debug, Clone, Copy, PartialEq, Eq, Structural)]
pub enum Capability {
    Keyboard,
    Pointer,
    Touch,
}

/// What the tracker knows of one seat.
#[derive(Debug, Clone, Copy, PartialEq, Eq, Structural)]
pub struct SeatRecord {
    pub has_keyboard: bool,
    pub has_pointer: bool,
    pub has_data_device: bool,
    pub has_primary_device: bool,
    pub has_focus: bool,
    /// The latest serial observed on this seat.
    pub latest_serial: u32,
}

/// Protocol objects to create or release for a seat.
#[derive(Debug, Clone, Copy, PartialEq, Eq, Structural)]
pub enum SeatAction {
    BindKeyboard,
    BindPointer,
    BindDataDevice,
    BindPrimaryDevice,
    ReleaseKeyboard,
    ReleasePointer,
    DropDataDevice,
    DropPrimaryDevice,
}

/// The record of a newly advertised seat: no capability, no focus.
pub open spec fn empty_record() -> SeatRecord {
    SeatRecord {
        has_keyboard: false,
        has_pointer: false,
        has_data_device: false,
        has_primary_device: false,
        has_focus: false,
        latest_serial: 0,
    }
}

impl SeatRecord {
    /// A record with no capability and no focus.
    pub fn empty() -> (r: SeatRecord)
        ensures
            r == empty_record(),
    {
        SeatRecord {
            has_keyboard: false,
            has_pointer: false,
            has_data_device: false,
            has_primary_device: false,
            has_focus: false,
            latest_serial: 0,
        }
    }
}

/// The record after the keyboard capability was added.
pub open spec fn with_keyboard(r: SeatRecord, data_mgr: bool, primary_mgr: bool) -> SeatRecord {
    SeatRecord {
        has_keyboard: true,
        has_data_device: r.has_data_device || data_mgr,
        has_primary_device: r.has_primary_device || primary_mgr,
        ..r
    }
}

/// The actions for an added keyboard capability.
pub open spec fn keyboard_added_actions(r: SeatRecord, data_mgr: bool, primary_mgr: bool) -> Seq<SeatAction> {
    seq![SeatAction::BindKeyboard]
        + (if !r.has_data_device && data_mgr { seq![SeatAction::BindDataDevice] } else { seq![] })
        + (if !r.has_primary_device && primary_mgr { seq![SeatAction::BindPrimaryDevice] } else { seq![] })
}

/// The record after the keyboard capability was removed: the selection
/// devices go with it.
pub open spec fn without_keyboard(r: SeatRecord) -> SeatRecord {
    SeatRecord { has_keyboard: false, has_data_device: false, has_primary_device: false, ..r }
}

/// The actions for a removed keyboard capability.
pub open spec fn keyboard_removed_actions(r: SeatRecord) -> Seq<SeatAction> {
    (if r.has_data_device { seq![SeatAction::DropDataDevice] } else { seq![] })
        + (if r.has_primary_device { seq![SeatAction::DropPrimaryDevice] } else { seq![] })
        + (if r.has_keyboard { seq![SeatAction::ReleaseKeyboard] } else { seq![] })
}

/// Seats, their records and their current selection offers.
pub struct SeatTracker {
    /// Every advertised seat, by its protocol id.
    pub seats: HashMap<u32, SeatRecord>,
    /// The seat that produced the latest serial-bearing input.
    pub latest_seat: Option<u32>,
    /// MIME types of each seat's current clipboard offer.
    pub clipboard_offers: HashMap<u32, Vec<String>>,
    /// MIME types of each seat's current primary-selection offer.
    pub primary_offers: HashMap<u32, Vec<String>>,
    /// Whether the compositor offers a data device manager.
    pub has_data_device_manager: bool,
    /// Whether the compositor offers a primary selection manager.
    pub has_primary_manager: bool,
}

impl SeatTracker {
    /// Selection devices exist only on seats with a keyboard, and only for
    /// protocols the compositor offers.
    pub open spec fn wf(&self) -> bool {
        forall|id: u32| #[trigger] self.seats@.contains_key(id) ==> {
            let r = self.seats@[id];
            &&& (r.has_data_device ==> r.has_keyboard && self.has_data_device_manager)
            &&& (r.has_primary_device ==> r.has_keyboard && self.has_primary_manager)
        }
    }

    /// The offers held for `target`.
    pub open spec fn offers(&self, target: Target) -> Map<u32, Vec<String>> {
        match target {
            Target::Clipboard => self.clipboard_offers@,
            Target::Primary => self.primary_offers@,
        }
    }

    /// Everything but the seat records and the latest seat is unchanged.
    pub open spec fn same_offers_and_managers(&self, other: &SeatTracker) -> bool {
        &&& self.clipboard_offers@ == other.clipboard_offers@
        &&& self.primary_offers@ == other.primary_offers@
        &&& self.has_data_device_manager == other.has_data_device_manager
        &&& self.has_primary_manager == other.has_primary_manager
    }

    /// A tracker with no seat, for a compositor with the given managers.
    pub fn new(has_data_device_manager: bool, has_primary_manager: bool) -> (r: SeatTracker)
        ensures
            r.wf(),
            r.seats@ == Map::<u32, SeatRecord>::empty(),
            r.latest_seat is None,
            r.clipboard_offers@ == Map::<u32, Vec<String>>::empty(),
            r.primary_offers@ == Map::<u32, Vec<String>>::empty(),
            r.has_data_device_manager == has_data_device_manager,
            r.has_primary_manager == has_primary_manager,
    {
        SeatTracker {
            seats: HashMap::new(),
            latest_seat: None,
            clipboard_offers: HashMap::new(),
            primary_offers: HashMap::new(),
            has_data_device_manager,
            has_primary_manager,
        }
    }

    /// A new seat was advertised: it starts with no capability.
    pub fn new_seat(&mut self, id: u32)
        requires
            old(self).wf(),
        ensures
            final(self).wf(),
            final(self).seats@ == old(self).seats@.insert(id, empty_record()),
            final(self).latest_seat == old(self).latest_seat,
            final(self).same_offers_and_managers(old(self)),
    {
        self.seats.insert(id, SeatRecord::empty());
    }

    /// A seat was removed, with its offers.
    pub fn remove_seat(&mut self, id: u32)
        requires
            old(self).wf(),
        ensures
            final(self).wf(),
            final(self).seats@ == old(self).seats@.remove(id),
            final(self).clipboard_offers@ == old(self).clipboard_offers@.remove(id),
            final(self).primary_offers@ == old(self).primary_offers@.remove(id),
            final(self).latest_seat == old(self).latest_seat,
            final(self).has_data_device_manager == old(self).has_data_device_manager,
            final(self).has_primary_manager == old(self).has_primary_manager,
    {
        self.seats.remove(&id);
        self.clipboard_offers.remove(&id);
        self.primary_offers.remove(&id);
    }

    /// A capability was added to a seat; returns the objects to create.
    /// Unknown seats are ignored.
    pub fn capability_added(&mut self, id: u32, capability: Capability) -> (r: Vec<SeatAction>)
        requires
            old(self).wf(),
        ensures
            final(self).wf(),
            final(self).latest_seat == old(self).latest_seat,
            final(self).same_offers_and_managers(old(self)),
            !old(self).seats@.contains_key(id) ==> final(self).seats@ == old(self).seats@ && r@.len() == 0,
            old(self).seats@.contains_key(id) ==> {
                let rec = old(self).seats@[id];
                let dm = old(self).has_data_device_manager;
                let pm = old(self).has_primary_manager;
                match capability {
                    Capability::Keyboard => {
                        &&& final(self).seats@ == old(self).seats@.insert(id, with_keyboard(rec, dm, pm))
                        &&& r@ == keyboard_added_actions(rec, dm, pm)
                    },
                    Capability::Pointer => {
                        &&& final(self).seats@ == old(self).seats@.insert(id, SeatRecord { has_pointer: true, ..rec })
                        &&& r@ == seq![SeatAction::BindPointer]
                    },
                    Capability::Touch => final(self).seats@ == old(self).seats@ && r@.len() == 0,
                }
            },
    {
        let mut actions: Vec<SeatAction> = Vec::new();
        let rec = match self.seats.get(&id) {
            Some(r) => *r,
            None => return actions,
        };
        match capability {
            Capability::Keyboard => {
                actions.push(SeatAction::BindKeyboard);
                let mut next = rec;
                next.has_keyboard = true;
                if !rec.has_data_device && self.has_data_device_manager {
                    next.has_data_device = true;
                    actions.push(SeatAction::BindDataDevice);
                }
                if !rec.has_primary_device && self.has_primary_manager {
                    next.has_primary_device = true;
                    actions.push(SeatAction::BindPrimaryDevice);
                }
                self.seats.insert(id, next);
                proof {
                    assert(next == with_keyboard(rec, self.has_data_device_manager, self.has_primary_manager));
                    assert(actions@ =~= keyboard_added_actions(rec, self.has_data_device_manager, self.has_primary_manager));
                }
            },
            Capability::Pointer => {
                let mut next = rec;
                next.has_pointer = true;
                self.seats.insert(id, next);
                actions.push(SeatAction::BindPointer);
                proof {
                    assert(actions@ =~= seq![SeatAction::BindPointer]);
                }
            },
            Capability::Touch => {},
        }
        actions
    }

    /// A capability was removed from a seat; returns the objects to release.
    /// Removing the keyboard drops both selection devices and their offers.
    pub fn capability_removed(&mut self, id: u32, capability: Capability) -> (r: Vec<SeatAction>)
        requires
            old(self).wf(),
        ensures
            final(self).wf(),
            final(self).latest_seat == old(self).latest_seat,
            final(self).has_data_device_manager == old(self).has_data_device_manager,
            final(self).has_primary_manager == old(self).has_primary_manager,
            !old(self).seats@.contains_key(id) ==> {
                &&& final(self).seats@ == old(self).seats@
                &&& final(self).same_offers_and_managers(old(self))
                &&& r@.len() == 0
            },
            old(self).seats@.contains_key(id) ==> {
                let rec = old(self).seats@[id];
                match capability {
                    Capability::Keyboard => {
                        &&& final(self).seats@ == old(self).seats@.insert(id, without_keyboard(rec))
                        &&& final(self).clipboard_offers@ == old(self).clipboard_offers@.remove(id)
                        &&& final(self).primary_offers@ == old(self).primary_offers@.remove(id)
                        &&& r@ == keyboard_removed_actions(rec)
                    },
                    Capability::Pointer => {
                        &&& final(self).seats@ == old(self).seats@.insert(id, SeatRecord { has_pointer: false, ..rec })
                        &&& final(self).same_offers_and_managers(old(self))
                        &&& r@ == (if rec.has_pointer { seq![SeatAction::ReleasePointer] } else { seq![] })
                    },
                    Capability::Touch => {
                        &&& final(self).seats@ == old(self).seats@
                        &&& final(self).same_offers_and_managers(old(self))
                        &&& r@.len() == 0
                    },
                }
            },
    {
        let mut actions: Vec<SeatAction> = Vec::new();
        let rec = match self.seats.get(&id) {
            Some(r) => *r,
            None => return actions,
        };
        match capability {
            Capability::Keyboard => {
                if rec.has_data_device {
                    actions.push(SeatAction::DropDataDevice);
                }
                if rec.has_primary_device {
                    actions.push(SeatAction::DropPrimaryDevice);
                }
                if rec.has_keyboard {
                    actions.push(SeatAction::ReleaseKeyboard);
                }
                let mut next = rec;
                next.has_keyboard = false;
                next.has_data_device = false;
                next.has_primary_device = false;
                self.seats.insert(id, next);
                self.clipboard_offers.remove(&id);
                self.primary_offers.remove(&id);
                proof {
                    assert(actions@ =~= keyboard_removed_actions(rec));
                }
            },
            Capability::Pointer => {
                if rec.has_pointer {
                    actions.push(SeatAction::ReleasePointer);
                }
                let mut next = rec;
                next.has_pointer = false;
                self.seats.insert(id, next);
                proof {
                    assert(actions@ =~= (if rec.has_pointer { seq![SeatAction::ReleasePointer] } else { seq![] }));
                }
            },
            Capability::Touch => {},
        }
        actions
    }

    /// Keyboard focus entered one of the application's surfaces.
    pub fn keyboard_enter(&mut self, id: u32, serial: u32)
        requires
            old(self).wf(),
        ensures
            final(self).wf(),
            final(self).latest_seat == old(self).latest_seat,
            final(self).same_offers_and_managers(old(self)),
            final(self).seats@ == if old(self).seats@.contains_key(id) {
                old(self).seats@.insert(id, SeatRecord { has_focus: true, latest_serial: serial, ..old(self).seats@[id] })
            } else {
                old(self).seats@
            },
    {
        if let Some(r) = self.seats.get(&id) {
            let mut next = *r;
            next.has_focus = true;
            next.latest_serial = serial;
            self.seats.insert(id, next);
        }
    }

    /// Keyboard focus left the application.
    pub fn keyboard_leave(&mut self, id: u32)
        requires
            old(self).wf(),
        ensures
            final(self).wf(),
            final(self).latest_seat == old(self).latest_seat,
            final(self).same_offers_and_managers(old(self)),
            final(self).seats@ == if old(self).seats@.contains_key(id) {
                old(self).seats@.insert(id, SeatRecord { has_focus: false, latest_serial: 0, ..old(self).seats@[id] })
            } else {
                old(self).seats@
            },
    {
        if let Some(r) = self.seats.get(&id) {
            let mut next = *r;
            next.has_focus = false;
            next.latest_serial = 0;
            self.seats.insert(id, next);
        }
    }

    /// A serial-bearing input (key, modifiers, pointer press or release)
    /// arrived: its seat becomes the latest seat.
    pub fn input_serial(&mut self, id: u32, serial: u32)
        requires
            old(self).wf(),
        ensures
            final(self).wf(),
            final(self).same_offers_and_managers(old(self)),
            old(self).seats@.contains_key(id) ==> {
                &&& final(self).seats@ == old(self).seats@.insert(id, SeatRecord { latest_serial: serial, ..old(self).seats@[id] })
                &&& final(self).latest_seat == Some(id)
            },
            !old(self).seats@.contains_key(id) ==> {
                &&& final(self).seats@ == old(self).seats@
                &&& final(self).latest_seat == old(self).latest_seat
            },
    {
        if let Some(r) = self.seats.get(&id) {
            let mut next = *r;
            next.latest_serial = serial;
            self.seats.insert(id, next);
            self.latest_seat = Some(id);
        }
    }

    /// The selection offer of a seat changed: `Some` holds the MIME types
    /// of the new offer, `None` means the selection is empty.
    pub fn set_offer(&mut self, id: u32, target: Target, mime_types: Option<Vec<String>>)
        requires
            old(self).wf(),
        ensures
            final(self).wf(),
            final(self).seats@ == old(self).seats@,
            final(self).latest_seat == old(self).latest_seat,
            final(self).has_data_device_manager == old(self).has_data_device_manager,
            final(self).has_primary_manager == old(self).has_primary_manager,
            final(self).offers(target) == match mime_types {
                Some(m) => old(self).offers(target).insert(id, m),
                None => old(self).offers(target).remove(id),
            },
            target == Target::Clipboard ==> final(self).primary_offers@ == old(self).primary_offers@,
            target == Target::Primary ==> final(self).clipboard_offers@ == old(self).clipboard_offers@,
    {
        let offers = match target {
            Target::Clipboard => &mut self.clipboard_offers,
            Target::Primary => &mut self.primary_offers,
        };
        match mime_types {
            Some(m) => {
                offers.insert(id, m);
            },
            None => {
                offers.remove(&id);
            },
        }
    }
}

} // verus!
