//! Choosing the global push-to-talk hotkey from the configured key text.
use vstd::prelude::*;

use global_hotkey::hotkey::{Code, HotKey};

use crate::config::DEFAULT_PTT_KEY;

verus! {

#[verifier::external_type_specification]
#[verifier::external_body]
pub struct ExHotKey(HotKey);

/// What `global_hotkey`'s hotkey parser reads from a key text: the bits of
/// the modifiers it names outright (Alt, Control, Meta, Shift), whether a
/// "CmdOrCtrl"-style token occurs, and the key code. These are the same on
/// every platform; only what a "CmdOrCtrl" token stands for differs (Meta on
/// macOS, Control elsewhere).
pub struct HotkeyReading {
    pub mods: u32,
    pub cmd_or_ctrl: bool,
    pub key: u32,
}

/// What `global_hotkey`'s `HotKey::from_str` reads from `text`, or `None`
/// when the text is refused.
pub uninterp spec fn hotkey_reading(text: Seq<char>) -> Option<HotkeyReading>;

/// `keyboard_types::Modifiers::CONTROL`.
pub const CONTROL_BITS: u32 = 0x8;

/// `keyboard_types::Modifiers::META`.
pub const META_BITS: u32 = 0x40;

/// The id `HotKey::new` computes, `(mods.bits() << 16) | key as u32`, for a
/// reading whose "CmdOrCtrl" token stands for the modifier bits `cmd`.
pub open spec fn hotkey_id_with(rd: HotkeyReading, cmd: u32) -> u32 {
    ((rd.mods | if rd.cmd_or_ctrl { cmd } else { 0u32 }) << 16u32) | rd.key
}

/// Whether `id` is the id of a hotkey read as `rd` on some platform: exactly
/// one value when no "CmdOrCtrl" token occurs, else the Control or the Meta
/// variant.
pub open spec fn hotkey_id_of(rd: HotkeyReading, id: u32) -> bool {
    id == hotkey_id_with(rd, CONTROL_BITS) || id == hotkey_id_with(rd, META_BITS)
}

/// The id of CapsLock without modifiers: `HotKey::new` computes
/// `(mods.bits() << 16) | key as u32`, with no modifier bits, and CapsLock is
/// variant 53 of `keyboard_types::Code`.
pub const CAPS_LOCK_HOTKEY_ID: u32 = 53;

/// `text.parse::<global_hotkey::hotkey::HotKey>()`, with the parsed hotkey's
/// id; it succeeds exactly when `hotkey_reading` names a reading of the text,
/// and the id is that reading's on this platform, with the parse error's text
/// otherwise. Which modifier a "CmdOrCtrl" token stands for is chosen when
/// global-hotkey is built, so the contract allows either.
#[verifier::external_body]
fn parse_hotkey_text(text: &str) -> (r: Result<(HotKey, u32), String>)
    ensures
        match r {
            Ok((_, id)) => hotkey_reading(text@) matches Some(rd) && hotkey_id_of(rd, id),
            Err(_) => hotkey_reading(text@) is None,
        },
{
    match text.parse::<HotKey>() {
        Ok(k) => Ok((k, k.id())),
        Err(e) => Err(e.to_string()),
    }
}

/// `HotKey::new(None, Code::CapsLock)`: CapsLock without modifiers, with its id.
#[verifier::external_body]
fn caps_lock_hotkey() -> (r: (HotKey, u32))
    ensures
        r.1 == CAPS_LOCK_HOTKEY_ID,
{
    let k = HotKey::new(None, Code::CapsLock);
    (k, k.id())
}

/// The key text to register: the configured one, or CapsLock when none is
/// configured.
pub open spec fn ptt_key_text(configured: Option<Seq<char>>) -> Seq<char> {
    match configured {
        Some(k) => k,
        None => DEFAULT_PTT_KEY@,
    }
}

/// Parse a hotkey string, with the id by which its presses are recognised.
/// Falls back to CapsLock on error, returning the parse error's text with it.
pub fn parse_hotkey(s: &str) -> (r: (HotKey, u32, Option<String>))
    ensures
        match hotkey_reading(s@) {
            Some(rd) => hotkey_id_of(rd, r.1) && r.2 is None,
            None => r.1 == CAPS_LOCK_HOTKEY_ID && r.2 is Some,
        },
{
    match parse_hotkey_text(s) {
        Ok((k, id)) => (k, id, None),
        Err(e) => {
            let (k, id) = caps_lock_hotkey();
            (k, id, Some(e))
        },
    }
}

/// The push-to-talk hotkey for the configured key text (CapsLock when none
/// is configured, or when the text does not parse), with its id and the
/// parse error's text when it fell back.
pub fn ptt_hotkey(configured: Option<&str>) -> (r: (HotKey, u32, Option<String>))
    ensures
        match hotkey_reading(ptt_key_text(
            match configured {
                Some(k) => Some(k@),
                None => None,
            },
        )) {
            Some(rd) => hotkey_id_of(rd, r.1) && r.2 is None,
            None => r.1 == CAPS_LOCK_HOTKEY_ID && r.2 is Some,
        },
{
    let text = match configured {
        Some(k) => k,
        None => DEFAULT_PTT_KEY,
    };
    parse_hotkey(text)
}

} // verus!
