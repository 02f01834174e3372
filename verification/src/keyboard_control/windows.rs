//! The keyboard input events that press key sequences and type text on Windows.
use vstd::prelude::*;
use crate::keyboard_control::KeyboardControlError;
use crate::text::{char_vecs_view, lowercase_of, split_char, split_on_char, str_chars, str_eq, string_from_chars, to_lowercase};

verus! {

/// The Windows virtual-key code `VK_BACK`.
pub const VK_BACK: u32 = 0x08;

/// The Windows virtual-key code `VK_TAB`.
pub const VK_TAB: u32 = 0x09;

/// The Windows virtual-key code `VK_CLEAR`.
pub const VK_CLEAR: u32 = 0x0C;

/// The Windows virtual-key code `VK_RETURN`.
pub const VK_RETURN: u32 = 0x0D;

/// The Windows virtual-key code `VK_SHIFT`.
pub const VK_SHIFT: u32 = 0x10;

/// The Windows virtual-key code `VK_CONTROL`.
pub const VK_CONTROL: u32 = 0x11;

/// The Windows virtual-key code `VK_MENU`.
pub const VK_MENU: u32 = 0x12;

/// The Windows virtual-key code `VK_PAUSE`.
pub const VK_PAUSE: u32 = 0x13;

/// The Windows virtual-key code `VK_CAPITAL`.
pub const VK_CAPITAL: u32 = 0x14;

/// The Windows virtual-key code `VK_KANJI`.
pub const VK_KANJI: u32 = 0x19;

/// The Windows virtual-key code `VK_ESCAPE`.
pub const VK_ESCAPE: u32 = 0x1B;

/// The Windows virtual-key code `VK_SPACE`.
pub const VK_SPACE: u32 = 0x20;

/// The Windows virtual-key code `VK_PRIOR`.
pub const VK_PRIOR: u32 = 0x21;

/// The Windows virtual-key code `VK_NEXT`.
pub const VK_NEXT: u32 = 0x22;

/// The Windows virtual-key code `VK_END`.
pub const VK_END: u32 = 0x23;

/// The Windows virtual-key code `VK_HOME`.
pub const VK_HOME: u32 = 0x24;

/// The Windows virtual-key code `VK_LEFT`.
pub const VK_LEFT: u32 = 0x25;

/// The Windows virtual-key code `VK_UP`.
pub const VK_UP: u32 = 0x26;

/// The Windows virtual-key code `VK_RIGHT`.
pub const VK_RIGHT: u32 = 0x27;

/// The Windows virtual-key code `VK_DOWN`.
pub const VK_DOWN: u32 = 0x28;

/// The Windows virtual-key code `VK_DELETE`.
pub const VK_DELETE: u32 = 0x2E;

/// The Windows virtual-key code `VK_LWIN`.
pub const VK_LWIN: u32 = 0x5B;

/// The Windows virtual-key code `VK_RWIN`.
pub const VK_RWIN: u32 = 0x5C;

/// The Windows virtual-key code `VK_NUMPAD0`.
pub const VK_NUMPAD0: u32 = 0x60;

/// The Windows virtual-key code `VK_NUMPAD1`.
pub const VK_NUMPAD1: u32 = 0x61;

/// The Windows virtual-key code `VK_NUMPAD2`.
pub const VK_NUMPAD2: u32 = 0x62;

/// The Windows virtual-key code `VK_NUMPAD3`.
pub const VK_NUMPAD3: u32 = 0x63;

/// The Windows virtual-key code `VK_NUMPAD4`.
pub const VK_NUMPAD4: u32 = 0x64;

/// The Windows virtual-key code `VK_NUMPAD5`.
pub const VK_NUMPAD5: u32 = 0x65;

/// The Windows virtual-key code `VK_NUMPAD6`.
pub const VK_NUMPAD6: u32 = 0x66;

/// The Windows virtual-key code `VK_NUMPAD7`.
pub const VK_NUMPAD7: u32 = 0x67;

/// The Windows virtual-key code `VK_NUMPAD8`.
pub const VK_NUMPAD8: u32 = 0x68;

/// The Windows virtual-key code `VK_NUMPAD9`.
pub const VK_NUMPAD9: u32 = 0x69;

/// The Windows virtual-key code `VK_MULTIPLY`.
pub const VK_MULTIPLY: u32 = 0x6A;

/// The Windows virtual-key code `VK_ADD`.
pub const VK_ADD: u32 = 0x6B;

/// The Windows virtual-key code `VK_SUBTRACT`.
pub const VK_SUBTRACT: u32 = 0x6D;

/// The Windows virtual-key code `VK_DIVIDE`.
pub const VK_DIVIDE: u32 = 0x6F;

/// The Windows virtual-key code `VK_F1`.
pub const VK_F1: u32 = 0x70;

/// The Windows virtual-key code `VK_F2`.
pub const VK_F2: u32 = 0x71;

/// The Windows virtual-key code `VK_F3`.
pub const VK_F3: u32 = 0x72;

/// The Windows virtual-key code `VK_F4`.
pub const VK_F4: u32 = 0x73;

/// The Windows virtual-key code `VK_F5`.
pub const VK_F5: u32 = 0x74;

/// The Windows virtual-key code `VK_F6`.
pub const VK_F6: u32 = 0x75;

/// The Windows virtual-key code `VK_F7`.
pub const VK_F7: u32 = 0x76;

/// The Windows virtual-key code `VK_F8`.
pub const VK_F8: u32 = 0x77;

/// The Windows virtual-key code `VK_F9`.
pub const VK_F9: u32 = 0x78;

/// The Windows virtual-key code `VK_F10`.
pub const VK_F10: u32 = 0x79;

/// The Windows virtual-key code `VK_F11`.
pub const VK_F11: u32 = 0x7A;

/// The Windows virtual-key code `VK_F12`.
pub const VK_F12: u32 = 0x7B;

/// The Windows virtual-key code `VK_F13`.
pub const VK_F13: u32 = 0x7C;

/// The Windows virtual-key code `VK_F14`.
pub const VK_F14: u32 = 0x7D;

/// The Windows virtual-key code `VK_F15`.
pub const VK_F15: u32 = 0x7E;

/// The Windows virtual-key code `VK_F16`.
pub const VK_F16: u32 = 0x7F;

/// The Windows virtual-key code `VK_F17`.
pub const VK_F17: u32 = 0x80;

/// The Windows virtual-key code `VK_F18`.
pub const VK_F18: u32 = 0x81;

/// The Windows virtual-key code `VK_F19`.
pub const VK_F19: u32 = 0x82;

/// The Windows virtual-key code `VK_F20`.
pub const VK_F20: u32 = 0x83;

/// The Windows virtual-key code `VK_F21`.
pub const VK_F21: u32 = 0x84;

/// The Windows virtual-key code `VK_F22`.
pub const VK_F22: u32 = 0x85;

/// The Windows virtual-key code `VK_F23`.
pub const VK_F23: u32 = 0x86;

/// The Windows virtual-key code `VK_F24`.
pub const VK_F24: u32 = 0x87;

/// The Windows virtual-key code `VK_SCROLL`.
pub const VK_SCROLL: u32 = 0x91;

/// The Windows virtual-key code `VK_LSHIFT`.
pub const VK_LSHIFT: u32 = 0xA0;

/// The Windows virtual-key code `VK_RSHIFT`.
pub const VK_RSHIFT: u32 = 0xA1;

/// The Windows virtual-key code `VK_LCONTROL`.
pub const VK_LCONTROL: u32 = 0xA2;

/// The Windows virtual-key code `VK_RCONTROL`.
pub const VK_RCONTROL: u32 = 0xA3;

/// The Windows virtual-key code `VK_LMENU`.
pub const VK_LMENU: u32 = 0xA4;

/// The Windows virtual-key code `VK_RMENU`.
pub const VK_RMENU: u32 = 0xA5;

/// The Windows virtual-key code `VK_OEM_COMMA`.
pub const VK_OEM_COMMA: u32 = 0xBC;

/// The Windows virtual-key code `VK_OEM_MINUS`.
pub const VK_OEM_MINUS: u32 = 0xBD;

/// The Windows virtual-key code `VK_OEM_PERIOD`.
pub const VK_OEM_PERIOD: u32 = 0xBE;

/// The Windows virtual-key code of a key name in lowercase X keysym notation, if it has one.
pub open spec fn virtual_keycode(k: Seq<char>) -> Option<u32> {
    if k == "backspace"@ {
        Some(VK_BACK)
    }    else if k == "tab"@ {
        Some(VK_TAB)
    }    else if k == "clear"@ {
        Some(VK_CLEAR)
    }    else if k == "return"@ {
        Some(VK_RETURN)
    }    else if k == "pause"@ {
        Some(VK_PAUSE)
    }    else if k == "scroll"@ {
        Some(VK_SCROLL)
    }    else if k == "escape"@ {
        Some(VK_ESCAPE)
    }    else if k == "delete"@ {
        Some(VK_DELETE)
    }    else if k == "ctrl"@ {
        Some(VK_CONTROL)
    }    else if k == "ctrl_l"@ {
        Some(VK_LCONTROL)
    }    else if k == "ctrl_r"@ {
        Some(VK_RCONTROL)
    }    else if k == "alt"@ {
        Some(VK_MENU)
    }    else if k == "alt_l"@ {
        Some(VK_LMENU)
    }    else if k == "alt_r"@ {
        Some(VK_RMENU)
    }    else if k == "shift"@ {
        Some(VK_SHIFT)
    }    else if k == "shift_l"@ {
        Some(VK_LSHIFT)
    }    else if k == "shift_r"@ {
        Some(VK_RSHIFT)
    }    else if k == "home"@ {
        Some(VK_HOME)
    }    else if k == "left"@ {
        Some(VK_LEFT)
    }    else if k == "up"@ {
        Some(VK_UP)
    }    else if k == "right"@ {
        Some(VK_RIGHT)
    }    else if k == "down"@ {
        Some(VK_DOWN)
    }    else if k == "prior"@ || k == "page_up"@ {
        Some(VK_PRIOR)
    }    else if k == "next"@ || k == "page_down"@ {
        Some(VK_NEXT)
    }    else if k == "end"@ {
        Some(VK_END)
    }    else if k == "begin"@ {
        Some(VK_HOME)
    }    else if k == "space"@ {
        Some(VK_SPACE)
    }    else if k == "f1"@ {
        Some(VK_F1)
    }    else if k == "f2"@ {
        Some(VK_F2)
    }    else if k == "f3"@ {
        Some(VK_F3)
    }    else if k == "f4"@ {
        Some(VK_F4)
    }    else if k == "f5"@ {
        Some(VK_F5)
    }    else if k == "f6"@ {
        Some(VK_F6)
    }    else if k == "f7"@ {
        Some(VK_F7)
    }    else if k == "f8"@ {
        Some(VK_F8)
    }    else if k == "f9"@ {
        Some(VK_F9)
    }    else if k == "f10"@ {
        Some(VK_F10)
    }    else if k == "f11"@ {
        Some(VK_F11)
    }    else if k == "f12"@ {
        Some(VK_F12)
    }    else if k == "f13"@ {
        Some(VK_F13)
    }    else if k == "f14"@ {
        Some(VK_F14)
    }    else if k == "f15"@ {
        Some(VK_F15)
    }    else if k == "f16"@ {
        Some(VK_F16)
    }    else if k == "f17"@ {
        Some(VK_F17)
    }    else if k == "f18"@ {
        Some(VK_F18)
    }    else if k == "f19"@ {
        Some(VK_F19)
    }    else if k == "f20"@ {
        Some(VK_F20)
    }    else if k == "f21"@ {
        Some(VK_F21)
    }    else if k == "f22"@ {
        Some(VK_F22)
    }    else if k == "f23"@ {
        Some(VK_F23)
    }    else if k == "f24"@ {
        Some(VK_F24)
    }    else if k == "caps_lock"@ {
        Some(VK_CAPITAL)
    }    else if k == "super"@ || k == "super_l"@ {
        Some(VK_LWIN)
    }    else if k == "super_r"@ {
        Some(VK_RWIN)
    }    else if k == "kp_0"@ {
        Some(VK_NUMPAD0)
    }    else if k == "kp_1"@ {
        Some(VK_NUMPAD1)
    }    else if k == "kp_2"@ {
        Some(VK_NUMPAD2)
    }    else if k == "kp_3"@ {
        Some(VK_NUMPAD3)
    }    else if k == "kp_4"@ {
        Some(VK_NUMPAD4)
    }    else if k == "kp_5"@ {
        Some(VK_NUMPAD5)
    }    else if k == "kp_6"@ {
        Some(VK_NUMPAD6)
    }    else if k == "kp_7"@ {
        Some(VK_NUMPAD7)
    }    else if k == "kp_8"@ {
        Some(VK_NUMPAD8)
    }    else if k == "kp_9"@ {
        Some(VK_NUMPAD9)
    }    else if k == "0"@ {
        Some(0x30)
    }    else if k == "1"@ {
        Some(0x31)
    }    else if k == "2"@ {
        Some(0x32)
    }    else if k == "3"@ {
        Some(0x33)
    }    else if k == "4"@ {
        Some(0x34)
    }    else if k == "5"@ {
        Some(0x35)
    }    else if k == "6"@ {
        Some(0x36)
    }    else if k == "7"@ {
        Some(0x37)
    }    else if k == "8"@ {
        Some(0x38)
    }    else if k == "9"@ {
        Some(0x39)
    }    else if k == "a"@ {
        Some(0x41)
    }    else if k == "b"@ {
        Some(0x42)
    }    else if k == "c"@ {
        Some(0x43)
    }    else if k == "d"@ {
        Some(0x44)
    }    else if k == "e"@ {
        Some(0x45)
    }    else if k == "f"@ {
        Some(0x46)
    }    else if k == "g"@ {
        Some(0x47)
    }    else if k == "h"@ {
        Some(0x48)
    }    else if k == "i"@ {
        Some(0x49)
    }    else if k == "j"@ {
        Some(0x4A)
    }    else if k == "k"@ {
        Some(0x4B)
    }    else if k == "l"@ {
        Some(0x4C)
    }    else if k == "m"@ {
        Some(0x4D)
    }    else if k == "n"@ {
        Some(0x4E)
    }    else if k == "o"@ {
        Some(0x4F)
    }    else if k == "p"@ {
        Some(0x50)
    }    else if k == "q"@ {
        Some(0x51)
    }    else if k == "r"@ {
        Some(0x52)
    }    else if k == "s"@ {
        Some(0x53)
    }    else if k == "t"@ {
        Some(0x54)
    }    else if k == "u"@ {
        Some(0x55)
    }    else if k == "v"@ {
        Some(0x56)
    }    else if k == "w"@ {
        Some(0x57)
    }    else if k == "x"@ {
        Some(0x58)
    }    else if k == "y"@ {
        Some(0x59)
    }    else if k == "z"@ {
        Some(0x5A)
    }    else if k == "multiply"@ {
        Some(VK_MULTIPLY)
    }    else if k == "kp_multiply"@ {
        Some(VK_MULTIPLY)
    }    else if k == "add"@ || k == "kp_add"@ {
        Some(VK_ADD)
    }    else if k == "minus"@ {
        Some(VK_OEM_MINUS)
    }    else if k == "kp_subtract"@ {
        Some(VK_SUBTRACT)
    }    else if k == "kp_divide"@ {
        Some(VK_DIVIDE)
    }    else if k == "comma"@ {
        Some(VK_OEM_COMMA)
    }    else if k == "period"@ {
        Some(VK_OEM_PERIOD)
    }    else if k == "kanji"@ {
        Some(VK_KANJI)
    } else {
        None
    }
}

/// Looks up the Windows virtual-key code of a key name in X keysym notation, in any case.
pub fn get_virtual_keycode(str_sym: &str) -> (r: Option<u32>)
    ensures
        r == virtual_keycode(lowercase_of(str_sym@)),
{
    let lower = to_lowercase(str_sym);
    let k = lower.as_str();
    if str_eq(k, "backspace") {
        Some(VK_BACK)
    }    else if str_eq(k, "tab") {
        Some(VK_TAB)
    }    else if str_eq(k, "clear") {
        Some(VK_CLEAR)
    }    else if str_eq(k, "return") {
        Some(VK_RETURN)
    }    else if str_eq(k, "pause") {
        Some(VK_PAUSE)
    }    else if str_eq(k, "scroll") {
        Some(VK_SCROLL)
    }    else if str_eq(k, "escape") {
        Some(VK_ESCAPE)
    }    else if str_eq(k, "delete") {
        Some(VK_DELETE)
    }    else if str_eq(k, "ctrl") {
        Some(VK_CONTROL)
    }    else if str_eq(k, "ctrl_l") {
        Some(VK_LCONTROL)
    }    else if str_eq(k, "ctrl_r") {
        Some(VK_RCONTROL)
    }    else if str_eq(k, "alt") {
        Some(VK_MENU)
    }    else if str_eq(k, "alt_l") {
        Some(VK_LMENU)
    }    else if str_eq(k, "alt_r") {
        Some(VK_RMENU)
    }    else if str_eq(k, "shift") {
        Some(VK_SHIFT)
    }    else if str_eq(k, "shift_l") {
        Some(VK_LSHIFT)
    }    else if str_eq(k, "shift_r") {
        Some(VK_RSHIFT)
    }    else if str_eq(k, "home") {
        Some(VK_HOME)
    }    else if str_eq(k, "left") {
        Some(VK_LEFT)
    }    else if str_eq(k, "up") {
        Some(VK_UP)
    }    else if str_eq(k, "right") {
        Some(VK_RIGHT)
    }    else if str_eq(k, "down") {
        Some(VK_DOWN)
    }    else if str_eq(k, "prior") || str_eq(k, "page_up") {
        Some(VK_PRIOR)
    }    else if str_eq(k, "next") || str_eq(k, "page_down") {
        Some(VK_NEXT)
    }    else if str_eq(k, "end") {
        Some(VK_END)
    }    else if str_eq(k, "begin") {
        Some(VK_HOME)
    }    else if str_eq(k, "space") {
        Some(VK_SPACE)
    }    else if str_eq(k, "f1") {
        Some(VK_F1)
    }    else if str_eq(k, "f2") {
        Some(VK_F2)
    }    else if str_eq(k, "f3") {
        Some(VK_F3)
    }    else if str_eq(k, "f4") {
        Some(VK_F4)
    }    else if str_eq(k, "f5") {
        Some(VK_F5)
    }    else if str_eq(k, "f6") {
        Some(VK_F6)
    }    else if str_eq(k, "f7") {
        Some(VK_F7)
    }    else if str_eq(k, "f8") {
        Some(VK_F8)
    }    else if str_eq(k, "f9") {
        Some(VK_F9)
    }    else if str_eq(k, "f10") {
        Some(VK_F10)
    }    else if str_eq(k, "f11") {
        Some(VK_F11)
    }    else if str_eq(k, "f12") {
        Some(VK_F12)
    }    else if str_eq(k, "f13") {
        Some(VK_F13)
    }    else if str_eq(k, "f14") {
        Some(VK_F14)
    }    else if str_eq(k, "f15") {
        Some(VK_F15)
    }    else if str_eq(k, "f16") {
        Some(VK_F16)
    }    else if str_eq(k, "f17") {
        Some(VK_F17)
    }    else if str_eq(k, "f18") {
        Some(VK_F18)
    }    else if str_eq(k, "f19") {
        Some(VK_F19)
    }    else if str_eq(k, "f20") {
        Some(VK_F20)
    }    else if str_eq(k, "f21") {
        Some(VK_F21)
    }    else if str_eq(k, "f22") {
        Some(VK_F22)
    }    else if str_eq(k, "f23") {
        Some(VK_F23)
    }    else if str_eq(k, "f24") {
        Some(VK_F24)
    }    else if str_eq(k, "caps_lock") {
        Some(VK_CAPITAL)
    }    else if str_eq(k, "super") || str_eq(k, "super_l") {
        Some(VK_LWIN)
    }    else if str_eq(k, "super_r") {
        Some(VK_RWIN)
    }    else if str_eq(k, "kp_0") {
        Some(VK_NUMPAD0)
    }    else if str_eq(k, "kp_1") {
        Some(VK_NUMPAD1)
    }    else if str_eq(k, "kp_2") {
        Some(VK_NUMPAD2)
    }    else if str_eq(k, "kp_3") {
        Some(VK_NUMPAD3)
    }    else if str_eq(k, "kp_4") {
        Some(VK_NUMPAD4)
    }    else if str_eq(k, "kp_5") {
        Some(VK_NUMPAD5)
    }    else if str_eq(k, "kp_6") {
        Some(VK_NUMPAD6)
    }    else if str_eq(k, "kp_7") {
        Some(VK_NUMPAD7)
    }    else if str_eq(k, "kp_8") {
        Some(VK_NUMPAD8)
    }    else if str_eq(k, "kp_9") {
        Some(VK_NUMPAD9)
    }    else if str_eq(k, "0") {
        Some(0x30)
    }    else if str_eq(k, "1") {
        Some(0x31)
    }    else if str_eq(k, "2") {
        Some(0x32)
    }    else if str_eq(k, "3") {
        Some(0x33)
    }    else if str_eq(k, "4") {
        Some(0x34)
    }    else if str_eq(k, "5") {
        Some(0x35)
    }    else if str_eq(k, "6") {
        Some(0x36)
    }    else if str_eq(k, "7") {
        Some(0x37)
    }    else if str_eq(k, "8") {
        Some(0x38)
    }    else if str_eq(k, "9") {
        Some(0x39)
    }    else if str_eq(k, "a") {
        Some(0x41)
    }    else if str_eq(k, "b") {
        Some(0x42)
    }    else if str_eq(k, "c") {
        Some(0x43)
    }    else if str_eq(k, "d") {
        Some(0x44)
    }    else if str_eq(k, "e") {
        Some(0x45)
    }    else if str_eq(k, "f") {
        Some(0x46)
    }    else if str_eq(k, "g") {
        Some(0x47)
    }    else if str_eq(k, "h") {
        Some(0x48)
    }    else if str_eq(k, "i") {
        Some(0x49)
    }    else if str_eq(k, "j") {
        Some(0x4A)
    }    else if str_eq(k, "k") {
        Some(0x4B)
    }    else if str_eq(k, "l") {
        Some(0x4C)
    }    else if str_eq(k, "m") {
        Some(0x4D)
    }    else if str_eq(k, "n") {
        Some(0x4E)
    }    else if str_eq(k, "o") {
        Some(0x4F)
    }    else if str_eq(k, "p") {
        Some(0x50)
    }    else if str_eq(k, "q") {
        Some(0x51)
    }    else if str_eq(k, "r") {
        Some(0x52)
    }    else if str_eq(k, "s") {
        Some(0x53)
    }    else if str_eq(k, "t") {
        Some(0x54)
    }    else if str_eq(k, "u") {
        Some(0x55)
    }    else if str_eq(k, "v") {
        Some(0x56)
    }    else if str_eq(k, "w") {
        Some(0x57)
    }    else if str_eq(k, "x") {
        Some(0x58)
    }    else if str_eq(k, "y") {
        Some(0x59)
    }    else if str_eq(k, "z") {
        Some(0x5A)
    }    else if str_eq(k, "multiply") {
        Some(VK_MULTIPLY)
    }    else if str_eq(k, "kp_multiply") {
        Some(VK_MULTIPLY)
    }    else if str_eq(k, "add") || str_eq(k, "kp_add") {
        Some(VK_ADD)
    }    else if str_eq(k, "minus") {
        Some(VK_OEM_MINUS)
    }    else if str_eq(k, "kp_subtract") {
        Some(VK_SUBTRACT)
    }    else if str_eq(k, "kp_divide") {
        Some(VK_DIVIDE)
    }    else if str_eq(k, "comma") {
        Some(VK_OEM_COMMA)
    }    else if str_eq(k, "period") {
        Some(VK_OEM_PERIOD)
    }    else if str_eq(k, "kanji") {
        Some(VK_KANJI)
    } else {
        None
    }
}


/// A keyboard input event: a virtual key, or a UTF-16 code unit typed as a character; pressed
/// or released.
#[derive(Debug, Clone, Copy, PartialEq, Eq, Structural)]
pub struct KeyboardInput {
    /// The virtual-key code (0 for a typed character).
    pub virtual_key: u16,
    /// The UTF-16 code unit of a typed character (0 for a virtual key).
    pub scan_code: u16,
    /// Whether this types a character rather than pressing a virtual key.
    pub unicode: bool,
    /// Whether this releases the key rather than pressing it.
    pub key_up: bool,
}

/// The event that presses or releases the virtual key `key_code`.
pub open spec fn key_input(key_code: u32, is_release: bool) -> KeyboardInput {
    KeyboardInput { virtual_key: key_code as u16, scan_code: 0, unicode: false, key_up: is_release }
}

/// Builds the event that presses or releases the virtual key `key_code`.
pub fn key_to_win_input(key_code: u32, is_release: bool) -> (r: KeyboardInput)
    ensures
        r == key_input(key_code, is_release),
{
    KeyboardInput { virtual_key: key_code as u16, scan_code: 0, unicode: false, key_up: is_release }
}

/// The virtual-key codes of the keys of a sequence, in order, or the first key that has none.
pub open spec fn sequence_codes(syms: Seq<Seq<char>>) -> Result<Seq<u32>, Seq<char>>
    decreases syms.len(),
{
    if syms.len() == 0 {
        Ok(Seq::empty())
    } else {
        match sequence_codes(syms.drop_last()) {
            Err(k) => Err(k),
            Ok(codes) => match virtual_keycode(lowercase_of(syms.last())) {
                Some(c) => Ok(codes.push(c)),
                None => Err(syms.last()),
            },
        }
    }
}

/// The events of a key sequence such as `ctrl+shift+t`: every key pressed in order, then every
/// key released in the opposite order. The keys are the pieces between `+` signs, as they are;
/// a key without a virtual-key code is an error.
pub open spec fn keysequence_inputs(s: Seq<char>) -> Result<Seq<KeyboardInput>, Seq<char>> {
    match sequence_codes(split_char(s, '+')) {
        Err(k) => Err(k),
        Ok(codes) => Ok(
            codes.map_values(|c: u32| key_input(c, false)) + codes.reverse().map_values(
                |c: u32| key_input(c, true),
            ),
        ),
    }
}

/// Builds the events of a key sequence such as `ctrl+shift+t`.
pub fn build_keysequence_inputs(str_sequence: &str) -> (r: Result<Vec<KeyboardInput>, KeyboardControlError>)
    ensures
        match keysequence_inputs(str_sequence@) {
            Ok(inputs) => r matches Ok(v) && v@ == inputs,
            Err(k) => r matches Err(KeyboardControlError::InvalidKey(s)) && s@ == k,
        },
{
    let chars = str_chars(str_sequence);
    let syms = split_on_char(&chars, '+');
    let ghost spec_syms = split_char(str_sequence@, '+');
    let mut codes: Vec<u32> = Vec::new();
    let mut i: usize = 0;
    assert(char_vecs_view(syms@).take(0) =~= Seq::<Seq<char>>::empty());
    while i < syms.len()
        invariant
            i <= syms@.len(),
            char_vecs_view(syms@) == spec_syms,
            spec_syms == split_char(str_sequence@, '+'),
            sequence_codes(spec_syms.take(i as int)) == Ok::<Seq<u32>, Seq<char>>(codes@),
        decreases syms.len() - i,
    {
        let sym = string_from_chars(syms[i].as_slice());
        assert(spec_syms.take(i + 1).drop_last() =~= spec_syms.take(i as int));
        assert(spec_syms.take(i + 1).last() == sym@);
        match get_virtual_keycode(sym.as_str()) {
            Some(c) => codes.push(c),
            None => {
                assert(sequence_codes(spec_syms.take(i + 1)) == Err::<Seq<u32>, Seq<char>>(sym@));
                proof {
                    lemma_sequence_codes_prefix_err(spec_syms, i as int + 1);
                }
                return Err(KeyboardControlError::InvalidKey(sym));
            },
        }
        i = i + 1;
    }
    assert(spec_syms.take(spec_syms.len() as int) =~= spec_syms);
    let mut inputs: Vec<KeyboardInput> = Vec::new();
    let n = codes.len();
    let mut j: usize = 0;
    while j < n
        invariant
            n == codes@.len(),
            j <= n,
            inputs@ == codes@.take(j as int).map_values(|c: u32| key_input(c, false)),
        decreases n - j,
    {
        inputs.push(key_to_win_input(codes[j], false));
        j = j + 1;
        assert(inputs@ =~= codes@.take(j as int).map_values(|c: u32| key_input(c, false)));
    }
    assert(codes@.take(n as int) =~= codes@);
    let ghost forward = inputs@;
    let mut k: usize = n;
    while k > 0
        invariant
            n == codes@.len(),
            k <= n,
            inputs@ == forward + codes@.reverse().take((n - k) as int).map_values(|c: u32| key_input(c, true)),
        decreases k,
    {
        k = k - 1;
        inputs.push(key_to_win_input(codes[k], true));
        assert(codes@.reverse()[(n - k - 1) as int] == codes@[k as int]);
        assert(inputs@ =~= forward + codes@.reverse().take((n - k) as int).map_values(|c: u32| key_input(c, true)));
    }
    assert(codes@.reverse().take(n as int) =~= codes@.reverse());
    Ok(inputs)
}

/// An error among the first `k` keys is the error of the whole sequence.
proof fn lemma_sequence_codes_prefix_err(syms: Seq<Seq<char>>, k: int)
    requires
        0 <= k <= syms.len(),
        sequence_codes(syms.take(k)) is Err,
    ensures
        sequence_codes(syms) == sequence_codes(syms.take(k)),
    decreases syms.len() - k,
{
    if k < syms.len() {
        assert(syms.take(k + 1).drop_last() =~= syms.take(k));
        lemma_sequence_codes_prefix_err(syms, k + 1);
    } else {
        assert(syms.take(k) =~= syms);
    }
}

/// The UTF-16 code units of a character.
pub open spec fn utf16_units(c: char) -> Seq<u16> {
    let code = c as u32;
    if code < 0x10000 {
        seq![code as u16]
    } else {
        let v = code - 0x10000;
        seq![(0xD800 + v / 0x400) as u16, (0xDC00 + v % 0x400) as u16]
    }
}

/// The UTF-16 code units of a text.
pub open spec fn utf16_of(s: Seq<char>) -> Seq<u16>
    decreases s.len(),
{
    if s.len() == 0 {
        Seq::empty()
    } else {
        utf16_of(s.drop_last()) + utf16_units(s.last())
    }
}

/// The events that type one UTF-16 code unit: pressed, then released.
pub open spec fn char_inputs(wide_char: u16) -> Seq<KeyboardInput> {
    seq![
        KeyboardInput { virtual_key: 0, scan_code: wide_char, unicode: true, key_up: false },
        KeyboardInput { virtual_key: 0, scan_code: wide_char, unicode: true, key_up: true },
    ]
}

/// Builds the events that type one UTF-16 code unit.
pub fn char_to_win_inputs(wide_char: u16) -> (r: Vec<KeyboardInput>)
    ensures
        r@ == char_inputs(wide_char),
{
    let down = KeyboardInput { virtual_key: 0, scan_code: wide_char, unicode: true, key_up: false };
    let mut up = down;
    up.key_up = true;
    let mut v: Vec<KeyboardInput> = Vec::new();
    v.push(down);
    v.push(up);
    assert(v@ =~= char_inputs(wide_char));
    v
}

/// The events that type the code units of `units`, in order.
pub open spec fn units_inputs(units: Seq<u16>) -> Seq<KeyboardInput>
    decreases units.len(),
{
    if units.len() == 0 {
        Seq::empty()
    } else {
        units_inputs(units.drop_last()) + char_inputs(units.last())
    }
}

/// Builds the events that type `text`, one UTF-16 code unit at a time.
pub fn build_enter_text_inputs(text: &str) -> (r: Vec<KeyboardInput>)
    ensures
        r@ == units_inputs(utf16_of(text@)),
{
    let chars = str_chars(text);
    let mut units: Vec<u16> = Vec::new();
    let mut i: usize = 0;
    assert(chars@.take(0) =~= Seq::<char>::empty());
    while i < chars.len()
        invariant
            i <= chars@.len(),
            units@ == utf16_of(chars@.take(i as int)),
        decreases chars.len() - i,
    {
        let c = chars[i];
        let code = c as u32;
        assert(chars@.take(i + 1).drop_last() =~= chars@.take(i as int));
        let ghost before = units@;
        if code < 0x10000 {
            units.push(code as u16);
        } else {
            let v = code - 0x10000;
            let high: u32 = 0xD800 + v / 0x400;
            let low: u32 = 0xDC00 + v % 0x400;
            units.push(high as u16);
            units.push(low as u16);
        }
        assert(units@ =~= before + utf16_units(c));
        i = i + 1;
    }
    assert(chars@.take(chars@.len() as int) =~= chars@);
    let mut inputs: Vec<KeyboardInput> = Vec::new();
    let mut j: usize = 0;
    assert(units@.take(0) =~= Seq::<u16>::empty());
    while j < units.len()
        invariant
            j <= units@.len(),
            inputs@ == units_inputs(units@.take(j as int)),
        decreases units.len() - j,
    {
        let mut pair = char_to_win_inputs(units[j]);
        let ghost before = inputs@;
        inputs.append(&mut pair);
        assert(units@.take(j + 1).drop_last() =~= units@.take(j as int));
        j = j + 1;
        assert(inputs@ =~= units_inputs(units@.take(j as int)));
    }
    assert(units@.take(units@.len() as int) =~= units@);
    inputs
}


/// The arrow keys press the Windows arrow keys: `left`, `up`, `right` and `down` give
/// `VK_LEFT`, `VK_UP`, `VK_RIGHT` and `VK_DOWN` (`0x25` to `0x28`), four distinct keys.
pub proof fn law_arrow_keys_press_arrow_codes()
    ensures
        virtual_keycode("left"@) == Some(0x25u32),
        virtual_keycode("up"@) == Some(0x26u32),
        virtual_keycode("right"@) == Some(0x27u32),
        virtual_keycode("down"@) == Some(0x28u32),
{
    reveal_strlit("backspace");
    reveal_strlit("tab");
    reveal_strlit("clear");
    reveal_strlit("return");
    reveal_strlit("pause");
    reveal_strlit("scroll");
    reveal_strlit("escape");
    reveal_strlit("delete");
    reveal_strlit("ctrl");
    reveal_strlit("ctrl_l");
    reveal_strlit("ctrl_r");
    reveal_strlit("alt");
    reveal_strlit("alt_l");
    reveal_strlit("alt_r");
    reveal_strlit("shift");
    reveal_strlit("shift_l");
    reveal_strlit("shift_r");
    reveal_strlit("home");
    reveal_strlit("left");
    reveal_strlit("up");
    reveal_strlit("right");
    reveal_strlit("down");
    assert("left"@.len() != "backspace"@.len());
    assert("left"@.len() != "tab"@.len());
    assert("left"@.len() != "clear"@.len());
    assert("left"@.len() != "return"@.len());
    assert("left"@.len() != "pause"@.len());
    assert("left"@.len() != "scroll"@.len());
    assert("left"@.len() != "escape"@.len());
    assert("left"@.len() != "delete"@.len());
    assert("left"@[0] != "ctrl"@[0]);
    assert("left"@.len() != "ctrl_l"@.len());
    assert("left"@.len() != "ctrl_r"@.len());
    assert("left"@.len() != "alt"@.len());
    assert("left"@.len() != "alt_l"@.len());
    assert("left"@.len() != "alt_r"@.len());
    assert("left"@.len() != "shift"@.len());
    assert("left"@.len() != "shift_l"@.len());
    assert("left"@.len() != "shift_r"@.len());
    assert("left"@[0] != "home"@[0]);
    assert("up"@.len() != "backspace"@.len());
    assert("up"@.len() != "tab"@.len());
    assert("up"@.len() != "clear"@.len());
    assert("up"@.len() != "return"@.len());
    assert("up"@.len() != "pause"@.len());
    assert("up"@.len() != "scroll"@.len());
    assert("up"@.len() != "escape"@.len());
    assert("up"@.len() != "delete"@.len());
    assert("up"@.len() != "ctrl"@.len());
    assert("up"@.len() != "ctrl_l"@.len());
    assert("up"@.len() != "ctrl_r"@.len());
    assert("up"@.len() != "alt"@.len());
    assert("up"@.len() != "alt_l"@.len());
    assert("up"@.len() != "alt_r"@.len());
    assert("up"@.len() != "shift"@.len());
    assert("up"@.len() != "shift_l"@.len());
    assert("up"@.len() != "shift_r"@.len());
    assert("up"@.len() != "home"@.len());
    assert("up"@.len() != "left"@.len());
    assert("right"@.len() != "backspace"@.len());
    assert("right"@.len() != "tab"@.len());
    assert("right"@[0] != "clear"@[0]);
    assert("right"@.len() != "return"@.len());
    assert("right"@[0] != "pause"@[0]);
    assert("right"@.len() != "scroll"@.len());
    assert("right"@.len() != "escape"@.len());
    assert("right"@.len() != "delete"@.len());
    assert("right"@.len() != "ctrl"@.len());
    assert("right"@.len() != "ctrl_l"@.len());
    assert("right"@.len() != "ctrl_r"@.len());
    assert("right"@.len() != "alt"@.len());
    assert("right"@[0] != "alt_l"@[0]);
    assert("right"@[0] != "alt_r"@[0]);
    assert("right"@[0] != "shift"@[0]);
    assert("right"@.len() != "shift_l"@.len());
    assert("right"@.len() != "shift_r"@.len());
    assert("right"@.len() != "home"@.len());
    assert("right"@.len() != "left"@.len());
    assert("right"@.len() != "up"@.len());
    assert("down"@.len() != "backspace"@.len());
    assert("down"@.len() != "tab"@.len());
    assert("down"@.len() != "clear"@.len());
    assert("down"@.len() != "return"@.len());
    assert("down"@.len() != "pause"@.len());
    assert("down"@.len() != "scroll"@.len());
    assert("down"@.len() != "escape"@.len());
    assert("down"@.len() != "delete"@.len());
    assert("down"@[0] != "ctrl"@[0]);
    assert("down"@.len() != "ctrl_l"@.len());
    assert("down"@.len() != "ctrl_r"@.len());
    assert("down"@.len() != "alt"@.len());
    assert("down"@.len() != "alt_l"@.len());
    assert("down"@.len() != "alt_r"@.len());
    assert("down"@.len() != "shift"@.len());
    assert("down"@.len() != "shift_l"@.len());
    assert("down"@.len() != "shift_r"@.len());
    assert("down"@[0] != "home"@[0]);
    assert("down"@[0] != "left"@[0]);
    assert("down"@.len() != "up"@.len());
    assert("down"@.len() != "right"@.len());
}

/// A key sequence presses all its keys before releasing any, and releases them in the opposite
/// order: the first half of its events are presses, the second half releases, and the key
/// released in position `i` of the second half is the one pressed in position `i` from the end
/// of the first.
pub proof fn law_keys_released_in_reverse_order(s: Seq<char>)
    ensures
        keysequence_inputs(s) matches Ok(inputs) ==> {
            let n = inputs.len() / 2;
            &&& inputs.len() % 2 == 0
            &&& forall|i: int| 0 <= i < n ==> !(#[trigger] inputs[i]).key_up && !inputs[i].unicode
            &&& forall|i: int| 0 <= i < n ==> (#[trigger] inputs[n + i]).key_up && !inputs[n + i].unicode
                && inputs[n + i].virtual_key == inputs[n - 1 - i].virtual_key
        },
{
    match keysequence_inputs(s) {
        Ok(inputs) => {
            let codes = sequence_codes(split_char(s, '+'))->Ok_0;
            let k = codes.len() as int;
            let presses = codes.map_values(|c: u32| key_input(c, false));
            let releases = codes.reverse().map_values(|c: u32| key_input(c, true));
            assert(inputs == presses + releases);
            assert(inputs.len() == 2 * k);
            assert(inputs.len() / 2 == k);
            assert forall|i: int| 0 <= i < k implies !(#[trigger] inputs[i]).key_up && !inputs[i].unicode by {
                assert(inputs[i] == presses[i]);
            }
            assert forall|i: int| 0 <= i < k implies (#[trigger] inputs[k + i]).key_up && !inputs[k + i].unicode
                && inputs[k + i].virtual_key == inputs[k - 1 - i].virtual_key by {
                assert(inputs[k + i] == releases[i]);
                assert(inputs[k - 1 - i] == presses[k - 1 - i]);
                assert(codes.reverse()[i] == codes[k - 1 - i]);
            }
        },
        Err(_) => {},
    }
}

} // verus!
