use smithay_clipboard::mime::{
    is_text_mime, normalize_lf_bytes, normalize_to_lf, AllowedMimeTypes, AsMimeTypes, MimeType, Text,
    ALLOWED_TEXT_MIME_TYPES,
};

#[test]
fn test_from_str() {
    assert_eq!(
        MimeType::from(ALLOWED_TEXT_MIME_TYPES[0].to_string()),
        MimeType::Text(Text::TextPlainUtf8)
    );
    assert_eq!(
        MimeType::from(ALLOWED_TEXT_MIME_TYPES[1].to_string()),
        MimeType::Text(Text::Utf8String)
    );
    assert_eq!(
        MimeType::from(ALLOWED_TEXT_MIME_TYPES[2].to_string()),
        MimeType::Text(Text::TextPlain)
    );
}

#[test]
fn mime_round_trip_well_known() {
    for s in ALLOWED_TEXT_MIME_TYPES {
        assert_eq!(MimeType::from_str(s).to_string(), s);
    }
    assert_eq!(MimeType::from_str("image/png").to_string(), "image/png");
    assert_eq!(MimeType::from_str("image/png"), MimeType::Other("image/png".to_string()));
}

#[test]
fn find_allowed_prefers_allowed_order() {
    let a = MimeType::from_str("text/plain");
    let b = MimeType::from_str("text/html");
    let c = MimeType::from_str("image/png");
    let allowed = vec![a.clone(), b, c];
    let offered = vec!["image/png".to_string(), "text/plain".to_string()];
    assert_eq!(MimeType::find_allowed(&offered, &allowed), Some(a));
}

#[test]
fn find_allowed_none_without_intersection() {
    let allowed = vec![MimeType::from_str("text/plain")];
    let offered = vec!["image/png".to_string()];
    assert_eq!(MimeType::find_allowed(&offered, &allowed), None);
    assert_eq!(MimeType::find_allowed(&Vec::new(), &allowed), None);
}

#[test]
fn normalize_example() {
    assert_eq!(normalize_to_lf("a\r\nb\rc".to_string()), "a\nb\nc");
}

#[test]
fn normalize_idempotent_samples() {
    for s in ["", "a\r\nb\rc", "\r\r\n", "\n\r", "x\r", "héllo\r\nwörld\r"] {
        let once = normalize_to_lf(s.to_string());
        let twice = normalize_to_lf(once.clone());
        assert_eq!(once, twice);
        assert!(!once.contains('\r'));
    }
    assert_eq!(normalize_to_lf("\r\r\n".to_string()), "\n\n");
    assert_eq!(normalize_to_lf("héllo\r\nwörld\r".to_string()), "héllo\nwörld\n");
}

#[test]
fn normalize_bytes_keeps_other_bytes() {
    assert_eq!(normalize_lf_bytes(b"a\r\n\xff\rb"), b"a\n\xff\nb".to_vec());
}

#[test]
fn text_mime_detection() {
    assert!(is_text_mime(&"UTF8_STRING".to_string()));
    assert!(is_text_mime(&"text/html".to_string()));
    assert!(!is_text_mime(&"image/png".to_string()));
    assert!(!is_text_mime(&"tex".to_string()));
}

#[test]
fn text_payload_conversions() {
    let t = smithay_clipboard::text::Text("hi\r\n".to_string());
    assert_eq!(t.available().len(), 3);
    assert_eq!(
        t.as_bytes(&MimeType::Text(Text::TextPlain)),
        Some(b"hi\r\n".to_vec())
    );
    assert_eq!(t.as_bytes(&MimeType::from_str("image/png")), None);
    let allowed = smithay_clipboard::text::Text::allowed();
    assert_eq!(allowed[0], MimeType::Text(Text::TextPlainUtf8));
    let plain = smithay_clipboard::text::Text::from_payload(b"a\r\nb".to_vec(), MimeType::Text(Text::TextPlain))
        .unwrap();
    assert_eq!(plain.0, "a\nb");
    let raw = smithay_clipboard::text::Text::from_payload(b"a\r\nb".to_vec(), MimeType::Text(Text::Utf8String))
        .unwrap();
    assert_eq!(raw.0, "a\r\nb");
    assert!(smithay_clipboard::text::Text::from_payload(b"x".to_vec(), MimeType::from_str("image/png")).is_err());
}
