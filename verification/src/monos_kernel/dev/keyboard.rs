use crate::monos_gfx::input::KeyState;
use pc_keyboard::layouts::Us104Key;
use pc_keyboard::{HandleControl, PS2Keyboard, ScancodeSet1};
use vstd::prelude::*;

verus! {

/// The PS/2 keyboard decoder of `pc_keyboard` with the US 104-key layout and scancode
/// set 1, control keys passed through. Verus refuses to declare `PS2Keyboard` itself (its
/// parameters are bound by traits of that crate), so the decoder is held in this opaque
/// struct, which only the two trusted functions below touch.
#[verifier::external_body]
pub struct RawDecoder {
    inner: PS2Keyboard<Us104Key, ScancodeSet1>,
}

/// A keyboard decoder together with the bytes it has been fed since it was made, which
/// decide everything it gives back.
pub struct KeyDecoder {
    pub raw: RawDecoder,
    pub fed: Ghost<Seq<u8>>,
}

/// The key event (the key code's place in `pc_keyboard::KeyCode` and its state) that
/// a fresh decoder gives for the last of the bytes `fed`, if that byte completes one.
pub uninterp spec fn ps2_decoded(fed: Seq<u8>) -> Option<(u8, KeyState)>;

impl KeyDecoder {
    /// A fresh decoder from `pc_keyboard::PS2Keyboard::new`, that has been fed nothing.
    #[verifier::external_body]
    pub fn new() -> (r: KeyDecoder)
        ensures
            r.fed@ == Seq::<u8>::empty(),
    {
        KeyDecoder {
            raw: RawDecoder {
                inner: PS2Keyboard::new(ScancodeSet1::new(), Us104Key, HandleControl::Ignore),
            },
            fed: Ghost(Seq::empty()),
        }
    }
}

/// Feeds one byte to `pc_keyboard::PS2Keyboard::add_byte`. Its result is a function of
/// the bytes fed since the decoder was made (`add_byte` only advances the scancode set's
/// state machine), named `ps2_decoded`: a finished key event comes back as the key code's
/// place in `pc_keyboard::KeyCode` and its state; an unfinished sequence or an unknown
/// scancode gives `None`.
#[verifier::external_body]
fn decode_byte(kb: &mut KeyDecoder, byte: u8) -> (r: Option<(u8, KeyState)>)
    ensures
        final(kb).fed@ == old(kb).fed@.push(byte),
        r == ps2_decoded(final(kb).fed@),
{
    match kb.raw.inner.add_byte(byte) {
        Ok(Some(event)) => {
            let state = match event.state {
                pc_keyboard::KeyState::Up => KeyState::Up,
                pc_keyboard::KeyState::Down => KeyState::Down,
                pc_keyboard::KeyState::SingleShot => KeyState::SingleShot,
            };
            Some((event.code as u8, state))
        },
        _ => None,
    }
}

/// The modifiers after a key event, as `Modifiers::update` leaves them.
pub open spec fn spec_updated(m: Modifiers, code: u8, state: KeyState) -> Modifiers {
    let down = state == KeyState::Down;
    Modifiers {
        shift: if code == KEY_LSHIFT || code == KEY_RSHIFT { down } else { m.shift },
        ctrl: if code == KEY_LCONTROL || code == KEY_RCONTROL { down } else { m.ctrl },
        alt: if code == KEY_LALT { down } else { m.alt },
        gui: if code == KEY_LWIN || code == KEY_RWIN { down } else { m.gui },
    }
}

/// Decodes one scancode from the keyboard. When it completes a key event, the modifier
/// keys are followed and the key code, its state and the modifiers now held come back;
/// otherwise the modifiers stay as they were.
pub fn handle_scancode(
    kb: &mut KeyDecoder,
    modifiers: &mut Modifiers,
    scancode: u8,
) -> (r: Option<(u8, KeyState, Modifiers)>)
    ensures
        final(kb).fed@ == old(kb).fed@.push(scancode),
        match ps2_decoded(final(kb).fed@) {
            Some((code, state)) => r == Some((code, state, spec_updated(*old(modifiers), code, state)))
                && *final(modifiers) == spec_updated(*old(modifiers), code, state),
            None => r is None && *final(modifiers) == *old(modifiers),
        },
{
    match decode_byte(kb, scancode) {
        Some((code, state)) => {
            modifiers.update(code, state);
            Some((code, state, *modifiers))
        },
        None => None,
    }
}

/// Key codes by their place in the keyboard decoder's list of keys.
pub const KEY_LSHIFT: u8 = 76;
pub const KEY_RSHIFT: u8 = 87;
pub const KEY_LCONTROL: u8 = 93;
pub const KEY_LWIN: u8 = 94;
pub const KEY_LALT: u8 = 95;
pub const KEY_RWIN: u8 = 98;
pub const KEY_RCONTROL: u8 = 100;

/// Which modifier keys are held down.
#[derive(Debug, Clone, Copy, PartialEq, Eq, Structural)]
pub struct Modifiers {
    pub shift: bool,
    pub ctrl: bool,
    pub alt: bool,
    pub gui: bool,
}

impl Modifiers {
    pub fn new() -> (r: Modifiers)
        ensures
            !r.shift && !r.ctrl && !r.alt && !r.gui,
    {
        Modifiers { shift: false, ctrl: false, alt: false, gui: false }
    }

    /// Follows a key event: either shift key sets shift to whether it is down, and so on
    /// for control, the left alt key and either windows key; other keys change nothing.
    pub fn update(&mut self, code: u8, state: KeyState)
        ensures
            final(self).shift == if code == KEY_LSHIFT || code == KEY_RSHIFT {
                state == KeyState::Down
            } else {
                old(self).shift
            },
            final(self).ctrl == if code == KEY_LCONTROL || code == KEY_RCONTROL {
                state == KeyState::Down
            } else {
                old(self).ctrl
            },
            final(self).alt == if code == KEY_LALT {
                state == KeyState::Down
            } else {
                old(self).alt
            },
            final(self).gui == if code == KEY_LWIN || code == KEY_RWIN {
                state == KeyState::Down
            } else {
                old(self).gui
            },
    {
        let down = state == KeyState::Down;
        if code == KEY_LSHIFT || code == KEY_RSHIFT {
            self.shift = down;
        } else if code == KEY_LCONTROL || code == KEY_RCONTROL {
            self.ctrl = down;
        } else if code == KEY_LALT {
            self.alt = down;
        } else if code == KEY_LWIN || code == KEY_RWIN {
            self.gui = down;
        }
    }
}

} // verus!
