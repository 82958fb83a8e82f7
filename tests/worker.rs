use smithay_clipboard::seat::{Capability, SeatAction};
use smithay_clipboard::transfer::{ReadOrigin, ReadOutcome, ReadStep, ReadTransfer};
use smithay_clipboard::worker::Effect;
use smithay_clipboard::{ClipboardError, Command, Reply, Target, Worker};

fn focused_worker() -> Worker {
    let mut w = Worker::new(true, true);
    w.seats.new_seat(1);
    let actions = w.seats.capability_added(1, Capability::Keyboard);
    assert_eq!(
        actions,
        vec![SeatAction::BindKeyboard, SeatAction::BindDataDevice, SeatAction::BindPrimaryDevice]
    );
    w.seats.keyboard_enter(1, 5);
    w.seats.input_serial(1, 6);
    w
}

fn strings(v: &[&str]) -> Vec<String> {
    v.iter().map(|s| s.to_string()).collect()
}

#[test]
fn store_then_load_round_trip() {
    let mut w = focused_worker();
    let effects = w.handle_command(Command::Store { data: b"hello".to_vec(), mime_types: strings(&["text/plain"]) });
    assert_eq!(effects.len(), 1);
    let advertised = match &effects[0] {
        Effect::SetSelection(plan) => {
            assert_eq!(plan.target, Target::Clipboard);
            assert_eq!(plan.seat, 1);
            assert_eq!(plan.serial, 6);
            plan.mime_types.clone()
        },
        other => panic!("unexpected effect {:?}", other),
    };
    assert_eq!(advertised, strings(&["text/plain"]));
    // The compositor hands our own source back as the selection offer.
    w.seats.set_offer(1, Target::Clipboard, Some(advertised));
    let effects = w.handle_command(Command::Load { mime_types: strings(&["text/plain"]) });
    let plan = match &effects[0] {
        Effect::Receive(plan) => plan,
        other => panic!("unexpected effect {:?}", other),
    };
    assert_eq!(plan.mime_type, "text/plain");
    assert!(plan.normalize);
    // The compositor asks our source for the bytes, which go through the pipe.
    let bytes = w.send_request(Target::Clipboard, &plan.mime_type).unwrap();
    let mut read = ReadTransfer::new(plan.mime_type.clone(), ReadOrigin::Selection, plan.normalize);
    assert!(matches!(read.on_read(ReadOutcome::Chunk(bytes)), ReadStep::ReadAgain));
    assert!(matches!(read.on_read(ReadOutcome::WouldBlock), ReadStep::Wait));
    match read.on_read(ReadOutcome::Eof) {
        ReadStep::Complete { data, origin } => {
            assert_eq!(data.mime_type, "text/plain");
            assert_eq!(data.data, b"hello".to_vec());
            assert_eq!(origin, ReadOrigin::Selection);
        },
        _ => panic!("transfer did not complete"),
    }
}

#[test]
fn unfocused_load_fails_without_receive() {
    let mut w = focused_worker();
    w.seats.set_offer(1, Target::Clipboard, Some(strings(&["text/plain"])));
    w.seats.keyboard_leave(1);
    let effects = w.handle_command(Command::Load { mime_types: strings(&["text/plain"]) });
    assert_eq!(effects.len(), 1);
    assert!(matches!(effects[0], Effect::Reply(Err(ClipboardError::NoFocus))));
}

#[test]
fn load_errors() {
    let mut w = Worker::new(true, false);
    assert!(matches!(
        w.handle_command(Command::Load { mime_types: strings(&["text/plain"]) })[0],
        Effect::Reply(Err(ClipboardError::NoSeat))
    ));
    assert!(matches!(
        w.handle_command(Command::LoadPrimary { mime_types: strings(&["text/plain"]) })[0],
        Effect::Reply(Err(ClipboardError::PrimarySelectionUnsupported))
    ));
    let mut none = Worker::new(false, true);
    assert!(matches!(
        none.handle_command(Command::Load { mime_types: vec![] })[0],
        Effect::Reply(Err(ClipboardError::DataDeviceUnsupported))
    ));
    w.seats.new_seat(3);
    w.seats.capability_added(3, Capability::Keyboard);
    w.seats.keyboard_enter(3, 1);
    w.seats.input_serial(3, 2);
    assert!(matches!(
        w.handle_command(Command::Load { mime_types: strings(&["text/plain"]) })[0],
        Effect::Reply(Err(ClipboardError::Empty))
    ));
    w.seats.set_offer(3, Target::Clipboard, Some(strings(&["image/png"])));
    assert!(matches!(
        w.handle_command(Command::Load { mime_types: strings(&["text/plain"]) })[0],
        Effect::Reply(Err(ClipboardError::NoCompatibleMime))
    ));
}

#[test]
fn load_prefers_caller_order_and_normalizes_text_only() {
    let mut w = focused_worker();
    w.seats.set_offer(1, Target::Primary, Some(strings(&["image/png", "UTF8_STRING"])));
    let effects = w.handle_command(Command::LoadPrimary { mime_types: strings(&["UTF8_STRING", "image/png"]) });
    match &effects[0] {
        Effect::Receive(p) => {
            assert_eq!(p.mime_type, "UTF8_STRING");
            assert!(p.normalize);
            assert_eq!(p.target, Target::Primary);
        },
        other => panic!("unexpected effect {:?}", other),
    }
    let effects = w.handle_command(Command::LoadPrimary { mime_types: strings(&["image/png"]) });
    match &effects[0] {
        Effect::Receive(p) => assert!(!p.normalize),
        other => panic!("unexpected effect {:?}", other),
    }
}

#[test]
fn store_fails_silently_without_focus() {
    let mut w = focused_worker();
    w.seats.keyboard_leave(1);
    let effects = w.handle_command(Command::Store { data: b"x".to_vec(), mime_types: strings(&["text/plain"]) });
    assert!(effects.is_empty());
    assert_eq!(w.send_request(Target::Clipboard, &"text/plain".to_string()), None);
}

#[test]
fn store_multi_last_group_wins() {
    let mut w = focused_worker();
    let formats = vec![
        (b"plain".to_vec(), strings(&["text/plain", "UTF8_STRING"])),
        (b"<b>html</b>".to_vec(), strings(&["text/html", "text/plain"])),
    ];
    let effects = w.handle_command(Command::StorePrimaryMulti { formats });
    match &effects[0] {
        Effect::SetSelection(p) => assert_eq!(p.mime_types, strings(&["text/plain", "UTF8_STRING", "text/html"])),
        other => panic!("unexpected effect {:?}", other),
    }
    assert_eq!(w.send_request(Target::Primary, &"text/plain".to_string()), Some(b"<b>html</b>".to_vec()));
    assert_eq!(w.send_request(Target::Primary, &"UTF8_STRING".to_string()), Some(b"plain".to_vec()));
    assert_eq!(w.send_request(Target::Primary, &"image/png".to_string()), None);
    assert_eq!(w.send_request(Target::Clipboard, &"text/plain".to_string()), None);
}

#[test]
fn mime_types_query() {
    let mut w = focused_worker();
    assert!(matches!(w.handle_command(Command::GetMimeTypes)[0], Effect::Reply(Err(ClipboardError::Empty))));
    w.seats.set_offer(1, Target::Clipboard, Some(strings(&["b/b", "a/a"])));
    match &w.handle_command(Command::GetMimeTypes)[0] {
        Effect::Reply(Ok(Reply::MimeTypes(t))) => assert_eq!(t, &strings(&["b/b", "a/a"])),
        other => panic!("unexpected effect {:?}", other),
    }
    assert!(matches!(w.handle_command(Command::Exit)[0], Effect::Exit));
}

#[test]
fn seat_tracking() {
    let mut w = Worker::new(true, false);
    w.seats.new_seat(7);
    assert_eq!(w.seats.capability_added(7, Capability::Pointer), vec![SeatAction::BindPointer]);
    assert_eq!(w.seats.capability_added(7, Capability::Keyboard), vec![SeatAction::BindKeyboard, SeatAction::BindDataDevice]);
    assert!(w.seats.capability_added(99, Capability::Keyboard).is_empty());
    // Focus alone does not make a seat the latest one.
    w.seats.keyboard_enter(7, 11);
    assert_eq!(w.seats.latest_seat, None);
    w.seats.input_serial(7, 12);
    assert_eq!(w.seats.latest_seat, Some(7));
    assert_eq!(w.seats.seats[&7].latest_serial, 12);
    w.seats.set_offer(7, Target::Clipboard, Some(strings(&["text/plain"])));
    assert_eq!(
        w.seats.capability_removed(7, Capability::Keyboard),
        vec![SeatAction::DropDataDevice, SeatAction::ReleaseKeyboard]
    );
    assert!(!w.seats.seats[&7].has_data_device);
    assert!(w.seats.clipboard_offers.get(&7).is_none());
    assert_eq!(w.seats.capability_removed(7, Capability::Pointer), vec![SeatAction::ReleasePointer]);
    w.seats.remove_seat(7);
    assert!(w.seats.seats.is_empty());
    assert!(matches!(
        w.handle_command(Command::Load { mime_types: strings(&["text/plain"]) })[0],
        Effect::Reply(Err(ClipboardError::NoSeat))
    ));
}

#[test]
fn typed_payload_store() {
    let formats = smithay_clipboard::selection::formats_of(&smithay_clipboard::text::Text("hé".to_string()));
    assert_eq!(formats.len(), 3);
    assert_eq!(formats[1], ("hé".as_bytes().to_vec(), strings(&["UTF8_STRING"])));
    let mut w = focused_worker();
    let effects = w.handle_command(Command::StoreMulti { formats });
    assert_eq!(effects.len(), 1);
    assert_eq!(w.send_request(Target::Clipboard, &"text/plain".to_string()), Some("hé".as_bytes().to_vec()));
}

#[test]
fn worker_needs_a_selection_manager() {
    assert!(Worker::try_new(false, false).is_none());
    assert!(Worker::try_new(true, false).is_some());
    let w = Worker::try_new(false, true).unwrap();
    assert!(w.seats.seats.is_empty());
    assert_eq!(w.seats.latest_seat, None);
}

#[test]
fn failed_store_keeps_previous_content() {
    let mut w = focused_worker();
    w.handle_command(Command::Store { data: b"first".to_vec(), mime_types: strings(&["text/plain"]) });
    w.seats.keyboard_leave(1);
    let effects = w.handle_command(Command::Store { data: b"second".to_vec(), mime_types: strings(&["image/png"]) });
    assert!(effects.is_empty());
    assert_eq!(w.send_request(Target::Clipboard, &"text/plain".to_string()), Some(b"first".to_vec()));
    assert_eq!(w.send_request(Target::Clipboard, &"image/png".to_string()), None);
}
