use clipsync::crypto::hash_secret;
use clipsync::protocol::{ClientMessage, ServerMessage};
use clipsync::types::{millis_from, ClipboardEntry, ClipboardItem};

#[test]
fn test_hash_secret() {
    let secret = "my-secret-key";
    let hash1 = hash_secret(secret);
    let hash2 = hash_secret(secret);
    assert_eq!(hash1, hash2);
    let hash3 = hash_secret("different-secret");
    assert_ne!(hash1, hash3);
    assert_eq!(hash1.len(), 64);
}

#[test]
fn hash_of_known_secret() {
    assert_eq!(hash_secret(""), "e3b0c44298fc1c149afbf4c8996fb92427ae41e4649b934ca495991b7852b855");
}

#[test]
fn image_data_is_base64_and_decodes_back() {
    let item = ClipboardItem::image(b"hello".to_vec(), "image/png".to_string());
    match &item {
        ClipboardItem::Image { data, mime_type } => {
            assert_eq!(data, "aGVsbG8=");
            assert_eq!(mime_type, "image/png");
        }
        _ => panic!("expected image"),
    }
    assert_eq!(item.size(), 8 + 9);
    assert_eq!(item.decode_image_data(), Some(b"hello".to_vec()));
}

#[test]
fn empty_image_and_bad_base64() {
    let empty = ClipboardItem::image(Vec::new(), "image/png".to_string());
    assert_eq!(empty.decode_image_data(), Some(Vec::new()));
    let bad = ClipboardItem::Image { data: "%%%".to_string(), mime_type: "image/png".to_string() };
    assert_eq!(bad.decode_image_data(), None);
    assert_eq!(ClipboardItem::text("t".to_string()).decode_image_data(), None);
}

#[test]
fn text_size_counts_bytes() {
    assert_eq!(ClipboardItem::text("".to_string()).size(), 0);
    assert_eq!(ClipboardItem::text("héllo".to_string()).size(), 6);
}

#[test]
fn items_compare_by_content() {
    assert!(ClipboardItem::text("a".to_string()) == ClipboardItem::text("a".to_string()));
    assert!(ClipboardItem::text("a".to_string()) != ClipboardItem::text("b".to_string()));
    let img = ClipboardItem::Image { data: "a".to_string(), mime_type: "image/png".to_string() };
    assert!(img != ClipboardItem::text("a".to_string()));
    assert!(img == img.clone());
}

#[test]
fn entries_and_messages() {
    let e = ClipboardEntry::new(ClipboardItem::text("x".to_string()));
    assert!(e.timestamp > 0);
    assert!(e.device_id.is_none());
    let e = e.with_device_id("d".to_string());
    assert_eq!(e.device_id.as_deref(), Some("d"));
    assert!(matches!(ClientMessage::join("h".to_string(), "d".to_string()), ClientMessage::Join { .. }));
    assert!(matches!(ServerMessage::error("m".to_string()), ServerMessage::Error { ref message } if message == "m"));
    let msg = ServerMessage::joined(vec![e.clone()]);
    assert!(matches!(msg.clone(), ServerMessage::Joined { ref history } if history.len() == 1));
}

#[test]
fn clock_readings_become_timestamps() {
    assert_eq!(millis_from(Some(1000)), 1000);
    assert_eq!(millis_from(None), 0);
    assert_eq!(millis_from(Some(u64::MAX as u128 + 5)), u64::MAX);
}
