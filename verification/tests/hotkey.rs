use squelch::hotkey::{parse_hotkey, ptt_hotkey, CAPS_LOCK_HOTKEY_ID};

#[test]
fn known_keys_parse() {
    for k in ["CapsLock", "F1", "ctrl+F1", "shift+alt+KeyA"] {
        let (key, id, err) = parse_hotkey(k);
        assert!(err.is_none(), "{k}");
        assert_eq!(key.id(), id, "{k}");
    }
}

#[test]
fn unknown_key_falls_back_to_caps_lock() {
    let (key, id, err) = parse_hotkey("definitely-not-a-key");
    assert!(err.is_some());
    assert_eq!(id, CAPS_LOCK_HOTKEY_ID);
    let (caps, caps_id, none) = parse_hotkey("CapsLock");
    assert!(none.is_none());
    assert_eq!(key, caps);
    assert_eq!(caps_id, CAPS_LOCK_HOTKEY_ID);
    assert_eq!(caps.id(), CAPS_LOCK_HOTKEY_ID);
}

#[test]
fn default_key_is_caps_lock() {
    let (key, id, err) = ptt_hotkey(None);
    assert!(err.is_none());
    assert_eq!(id, CAPS_LOCK_HOTKEY_ID);
    assert_eq!(key, parse_hotkey("CapsLock").0);
    let (f1, f1_id, _) = ptt_hotkey(Some("F1"));
    assert_ne!(f1, key);
    assert_ne!(f1_id, CAPS_LOCK_HOTKEY_ID);
    let (ctrl_f1, ctrl_f1_id, _) = ptt_hotkey(Some("ctrl+F1"));
    assert_eq!(ctrl_f1.id(), ctrl_f1_id);
    assert_ne!(ctrl_f1_id, f1_id);
}

#[test]
fn cmd_or_ctrl_id_is_control_or_meta() {
    let (key, id, err) = parse_hotkey("CmdOrCtrl+Space");
    assert!(err.is_none());
    assert_eq!(key.id(), id);
    let mods = id >> 16;
    assert!(mods == squelch::hotkey::CONTROL_BITS || mods == squelch::hotkey::META_BITS);
    let (_, ctrl_id, _) = parse_hotkey("ctrl+Space");
    assert_eq!(id & 0xffff, ctrl_id & 0xffff);
    assert_eq!(ctrl_id >> 16, squelch::hotkey::CONTROL_BITS);
}
