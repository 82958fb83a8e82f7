use smithay_clipboard::client::{data_to_text, reply_to_data, reply_to_mime_types, text_mime_types};
use smithay_clipboard::dnd::DndData;
use smithay_clipboard::{ClipboardData, ClipboardError, Reply};

#[test]
fn clipboard_data_constructors() {
    let d = ClipboardData::new("image/png".to_string(), vec![1, 2, 3]);
    assert_eq!(d.mime_type, "image/png");
    assert_eq!(d.data, vec![1, 2, 3]);
    assert!(!d.is_text());
    let t = ClipboardData::from_text("héllo");
    assert_eq!(t.mime_type, "text/plain;charset=utf-8");
    assert_eq!(t.data, "héllo".as_bytes().to_vec());
    assert!(t.is_text());
}

#[test]
fn clipboard_data_text_views() {
    let ok = ClipboardData::new("text/plain".to_string(), "ünï".as_bytes().to_vec());
    assert_eq!(ok.as_text(), Some("ünï"));
    assert_eq!(ok.to_text_lossy(), "ünï");
    let bad = ClipboardData::new("text/plain".to_string(), vec![b'a', 0xff, b'b']);
    assert_eq!(bad.as_text(), None);
    assert_eq!(bad.to_text_lossy(), "a\u{fffd}b");
}

#[test]
fn dnd_data_constructors() {
    let d = DndData::from_text("drag");
    assert_eq!(d.data, b"drag".to_vec());
    assert_eq!(d.mime_types, vec!["text/plain;charset=utf-8", "UTF8_STRING", "text/plain"]);
    let n = DndData::new(vec![9], vec!["x/y".to_string()]);
    assert_eq!(n.data, vec![9]);
    assert!(n.offers(&"x/y".to_string()));
    assert!(!n.offers(&"x/z".to_string()));
}

#[test]
fn worker_death_gives_worker_dead() {
    assert!(matches!(reply_to_data(None), Err(ClipboardError::WorkerDead)));
    assert!(matches!(reply_to_mime_types(None), Err(ClipboardError::WorkerDead)));
}

#[test]
fn replies_decode() {
    let d = ClipboardData::new("text/plain".to_string(), b"x".to_vec());
    let r = reply_to_data(Some(Ok(Reply::Data(d)))).unwrap();
    assert_eq!(r.data, b"x".to_vec());
    assert!(matches!(reply_to_data(Some(Ok(Reply::Done))), Err(ClipboardError::Empty)));
    assert!(matches!(reply_to_data(Some(Err(ClipboardError::NoFocus))), Err(ClipboardError::NoFocus)));
    assert_eq!(
        reply_to_mime_types(Some(Ok(Reply::MimeTypes(vec!["a/b".to_string()])))).unwrap(),
        vec!["a/b".to_string()]
    );
    assert!(reply_to_mime_types(Some(Ok(Reply::Done))).unwrap().is_empty());
}

#[test]
fn text_results() {
    let ok = Ok(ClipboardData::new("text/plain".to_string(), b"hey".to_vec()));
    assert_eq!(data_to_text(ok).unwrap(), "hey");
    let bad = Ok(ClipboardData::new("text/plain".to_string(), vec![0xc3]));
    assert!(matches!(data_to_text(bad), Err(ClipboardError::InvalidUtf8)));
    assert_eq!(text_mime_types(), vec!["text/plain;charset=utf-8", "UTF8_STRING", "text/plain"]);
}
