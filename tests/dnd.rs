use smithay_clipboard::dnd::state::{find_rectangle, DndState, OfferAction, SourceAction};
use smithay_clipboard::dnd::{DndAction, DndData, DndDestinationRectangle, DndEvent, Icon, OfferEvent, Rectangle, SourceEvent};
use smithay_clipboard::worker::{DndRequest, Effect};
use smithay_clipboard::seat::Capability;
use smithay_clipboard::{ClipboardData, ClipboardError, Command, Worker};

fn rect(id: u128, x: i32, y: i32, w: i32, h: i32, mimes: &[&str], actions: DndAction) -> DndDestinationRectangle {
    DndDestinationRectangle {
        id,
        rectangle: Rectangle { x, y, width: w, height: h },
        mime_types: mimes.iter().map(|s| s.to_string()).collect(),
        actions,
        preferred: DndAction::copy_only(),
    }
}

fn uri_offer() -> Vec<String> {
    vec!["text/uri-list".to_string()]
}

#[test]
fn rectangle_contains_edges() {
    let r = Rectangle { x: 10, y: 10, width: 5, height: 5 };
    assert!(r.contains(10, 15));
    assert!(!r.contains(16, 12));
    let wide = Rectangle { x: i32::MAX, y: 0, width: i32::MAX, height: 1 };
    assert!(wide.contains(i32::MAX, 1));
}

#[test]
fn rectangle_precedence_skips_mime_mismatch() {
    let mut dnd = DndState::new();
    dnd.register(
        4,
        vec![
            rect(1, 0, 0, 100, 100, &["text/plain"], DndAction::all()),
            rect(2, 50, 50, 100, 100, &["text/uri-list"], DndAction::all()),
            rect(3, 200, 200, 50, 50, &[], DndAction::all()),
        ],
    );
    assert_eq!(find_rectangle(&dnd.destinations[0].1, 60, 60, &uri_offer(), DndAction::copy_only()), Some(1));
    let out = dnd.enter(4, 210, 210, uri_offer(), DndAction::copy_only());
    assert_eq!(out.events.len(), 1);
    assert!(matches!(&out.events[0], DndEvent::Offer(Some(3), OfferEvent::Enter { surface: 4, .. })));
    assert!(matches!(&out.actions[0], OfferAction::AcceptMime(Some(m)) if m == "text/uri-list"));
    let out = dnd.motion(60, 60);
    assert_eq!(out.events.len(), 2);
    assert!(matches!(out.events[0], DndEvent::Offer(Some(3), OfferEvent::LeaveDestination)));
    assert!(matches!(out.events[1], DndEvent::Offer(Some(2), OfferEvent::Motion { x: 60, y: 60 })));
    assert!(matches!(&out.actions[0], OfferAction::AcceptMime(Some(m)) if m == "text/uri-list"));
    assert!(matches!(out.actions[1], OfferAction::SetActions { .. }));
    let out = dnd.motion(61, 61);
    assert_eq!(out.events.len(), 1);
    let out = dnd.motion(1000, 1000);
    assert!(matches!(out.events[0], DndEvent::Offer(Some(2), OfferEvent::LeaveDestination)));
    assert!(matches!(out.events[1], DndEvent::Offer(None, OfferEvent::Motion { .. })));
    assert!(matches!(out.actions[0], OfferAction::AcceptMime(None)));
    assert!(matches!(out.actions[1], OfferAction::SetActions { actions, .. } if actions == DndAction::empty()));
}

#[test]
fn action_constraint_filters() {
    let mut dnd = DndState::new();
    dnd.register(1, vec![rect(1, 0, 0, 10, 10, &[], DndAction::move_only()), rect(2, 0, 0, 10, 10, &[], DndAction::copy_only())]);
    let out = dnd.enter(1, 5, 5, uri_offer(), DndAction::copy_only());
    assert!(matches!(out.events[0], DndEvent::Offer(Some(2), _)));
}

#[test]
fn unregistered_surface_is_ignored() {
    let mut dnd = DndState::new();
    let out = dnd.enter(9, 0, 0, uri_offer(), DndAction::all());
    assert!(out.events.is_empty() && out.actions.is_empty());
    assert!(dnd.offer.is_none());
    dnd.register(9, vec![rect(1, 0, 0, 10, 10, &[], DndAction::all())]);
    dnd.register(9, vec![]);
    assert!(dnd.enter(9, 0, 0, uri_offer(), DndAction::all()).events.is_empty());
}

#[test]
fn ask_action_two_phase() {
    let mut dnd = DndState::new();
    dnd.register(4, vec![rect(7, 0, 0, 100, 100, &["text/uri-list"], DndAction::all())]);
    dnd.enter(4, 5, 5, uri_offer(), DndAction::all());
    dnd.compositor_action(DndAction::ask_only());
    let out = dnd.drop_performed();
    assert_eq!(out.events.len(), 2);
    assert!(matches!(out.events[0], DndEvent::Offer(Some(7), OfferEvent::Drop)));
    assert!(matches!(out.events[1], DndEvent::Offer(Some(7), OfferEvent::SelectedAction(a)) if a == DndAction::ask_only()));
    assert!(out.actions.is_empty());
    let out = dnd.set_action(DndAction::copy_only());
    assert_eq!(out.actions.len(), 3);
    assert!(matches!(out.actions[0], OfferAction::SetActions { actions, preferred } if actions == DndAction::copy_only() && preferred == DndAction::copy_only()));
    assert!(matches!(&out.actions[2], OfferAction::Receive { mime_type, peek: false } if mime_type == "text/uri-list"));
    let out = dnd.data_received(ClipboardData::new("text/uri-list".to_string(), b"file:///a".to_vec()));
    assert!(matches!(&out.events[0], DndEvent::Offer(Some(7), OfferEvent::Data { data, .. }) if data == b"file:///a"));
    assert!(matches!(out.actions[0], OfferAction::Finish));
    assert!(dnd.offer.is_none());
}

#[test]
fn drop_with_copy_loads_and_empty_rejects() {
    let mut dnd = DndState::new();
    dnd.register(4, vec![rect(7, 0, 0, 100, 100, &[], DndAction::all())]);
    dnd.enter(4, 5, 5, uri_offer(), DndAction::all());
    dnd.compositor_action(DndAction::copy_only());
    let out = dnd.drop_performed();
    assert_eq!(out.events.len(), 1);
    assert_eq!(out.actions.len(), 3);
    let mut rejected = DndState::new();
    rejected.register(4, vec![rect(7, 0, 0, 100, 100, &[], DndAction::all())]);
    rejected.enter(4, 5, 5, uri_offer(), DndAction::all());
    let out = rejected.drop_performed();
    assert_eq!(out.events.len(), 1);
    assert!(out.actions.is_empty());
    let out = rejected.leave();
    assert!(matches!(out.events[0], DndEvent::Offer(None, OfferEvent::Leave)));
    assert!(rejected.offer.is_none());
}

#[test]
fn peek_and_finish_through_worker() {
    let mut w = Worker::new(true, false);
    assert!(matches!(
        w.handle_command(Command::Dnd(DndRequest::Peek("text/plain".to_string())))[0],
        Effect::Reply(Err(ClipboardError::Empty))
    ));
    w.handle_command(Command::Dnd(DndRequest::RegisterDestination {
        surface: 2,
        rectangles: vec![rect(1, 0, 0, 10, 10, &[], DndAction::all())],
    }));
    w.dnd.enter(2, 1, 1, uri_offer(), DndAction::all());
    match &w.handle_command(Command::Dnd(DndRequest::Peek("text/uri-list".to_string())))[0] {
        Effect::Offer(OfferAction::Receive { mime_type, peek }) => {
            assert_eq!(mime_type, "text/uri-list");
            assert!(*peek);
        },
        other => panic!("unexpected effect {:?}", other),
    }
    assert!(matches!(w.handle_command(Command::Dnd(DndRequest::Finish))[0], Effect::Offer(OfferAction::Finish)));
    assert!(w.dnd.offer.is_none());
}

#[test]
fn start_drag_needs_data_device() {
    let mut w = Worker::new(true, false);
    let cmd = || Command::Dnd(DndRequest::StartDnd {
        internal: false,
        source: 5,
        icon: Some(Icon::Buffer { width: 2, height: 3, data: vec![0; 24], transparent: true }),
        content: DndData::from_text("x"),
        actions: DndAction::copy_only(),
    });
    assert!(w.handle_command(cmd()).is_empty());
    w.seats.new_seat(1);
    w.seats.capability_added(1, Capability::Keyboard);
    w.seats.input_serial(1, 3);
    let effects = w.handle_command(cmd());
    assert_eq!(effects.len(), 2);
    assert!(matches!(&effects[0], Effect::Source(SourceAction::CreateIcon { width: 2, height: 3, stride: 8, size: 24, .. })));
    assert!(matches!(&effects[1], Effect::Source(SourceAction::StartDrag { surface: 5, icon: true, .. })));
    assert_eq!(w.dnd.source_send(&"UTF8_STRING".to_string()), Some(b"x".to_vec()));
    assert_eq!(w.dnd.source_send(&"image/png".to_string()), None);
    let effects = w.handle_command(Command::Dnd(DndRequest::EndDnd));
    assert!(matches!(effects[0], Effect::Source(SourceAction::DestroyIcon)));
    assert!(w.dnd.source.is_none());
}

#[test]
fn source_lifecycle_events() {
    let mut dnd = DndState::new();
    let steps = dnd.start_dnd(true, 3, Some(Icon::Surface(8)), DndData::from_text("t"), DndAction::all());
    assert!(matches!(steps[0], SourceAction::UseIconSurface(8)));
    assert!(matches!(steps[1], SourceAction::StartInternalDrag { surface: 3, icon: true }));
    assert_eq!(dnd.source_send(&"UTF8_STRING".to_string()), None);
    assert!(matches!(dnd.source_action(DndAction::move_only()), DndEvent::Source(SourceEvent::Action(a)) if a == DndAction::move_only()));
    assert!(matches!(dnd.source_mime(None), DndEvent::Source(SourceEvent::Mime(None))));
    let (e, steps) = dnd.source_dropped();
    assert!(matches!(e, DndEvent::Source(SourceEvent::Dropped)));
    assert_eq!(steps.len(), 1);
    let (e, steps) = dnd.source_finished();
    assert!(matches!(e, DndEvent::Source(SourceEvent::Finished)));
    assert!(steps.is_empty());
    assert!(dnd.source.is_none());
    dnd.start_dnd(false, 3, Some(Icon::Buffer { width: 0, height: 9, data: vec![], transparent: false }), DndData::from_text("t"), DndAction::all());
    assert!(!dnd.source.as_ref().unwrap().has_icon);
    let (e, _) = dnd.source_cancelled();
    assert!(matches!(e, DndEvent::Source(SourceEvent::Cancelled)));
    let huge = dnd.start_dnd(false, 3, Some(Icon::Buffer { width: 100_000, height: 100_000, data: vec![], transparent: false }), DndData::from_text("t"), DndAction::all());
    assert_eq!(huge.len(), 1);
}

#[test]
fn dispatch_passes_offer_requests_through() {
    let mut w = Worker::new(true, false);
    w.handle_command(Command::Dnd(DndRequest::RegisterDestination {
        surface: 2,
        rectangles: vec![rect(1, 0, 0, 10, 10, &["text/uri-list"], DndAction::all())],
    }));
    w.dnd.enter(2, 1, 1, uri_offer(), DndAction::all());
    w.dnd.compositor_action(DndAction::ask_only());
    w.dnd.drop_performed();
    let effects = w.handle_command(Command::Dnd(DndRequest::SetAction(DndAction::copy_only())));
    assert_eq!(effects.len(), 3);
    assert!(matches!(&effects[2], Effect::Offer(OfferAction::Receive { mime_type, peek: false }) if mime_type == "text/uri-list"));
    let effects = w.handle_command(Command::Dnd(DndRequest::Finish));
    assert_eq!(effects.len(), 1);
    assert!(matches!(effects[0], Effect::Offer(OfferAction::Finish)));
}
