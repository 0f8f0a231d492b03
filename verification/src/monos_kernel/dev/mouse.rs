use crate::monos_gfx::input::{MouseFlags, MouseState};
use crate::monos_kernel::utils::spec_get_bit_u8;
use vstd::prelude::*;

verus! {

/// The value of a movement byte whose sign bit is set: the byte minus 256.
pub open spec fn sign_extended(value: u8) -> i16 {
    (value as int - 256) as i16
}

/// The movement a packet's byte gives, by the sign bit of the flags.
pub open spec fn movement(value: u8, negative: bool) -> i16 {
    if negative {
        sign_extended(value)
    } else {
        value as i16
    }
}

/// The command port of the PS/2 controller, and its data port.
pub const MOUSE_COMMAND_PORT: u16 = 0x64;
pub const MOUSE_DATA_PORT: u16 = 0x60;

/// A PS/2 mouse as a packet decoder: which of the three bytes of a packet comes next, and
/// the state being assembled.
pub struct Mouse {
    pub packet_type: u8,
    pub state: MouseState,
}

impl Mouse {
    /// The decoder is between bytes of a packet.
    pub open spec fn wf(&self) -> bool {
        self.packet_type < 3
    }

    /// A decoder waiting for the first byte of a packet, with no movement and no buttons.
    pub fn new() -> (r: Mouse)
        ensures
            r.wf(),
            r.packet_type == 0,
            r.state == (MouseState { x: 0, y: 0, scroll: 0, flags: MouseFlags(0) }),
    {
        Mouse { packet_type: 0, state: MouseState { x: 0, y: 0, scroll: 0, flags: MouseFlags::new(0) } }
    }

    /// The controller status `init` writes back: the mouse interrupt (bit 1) on and the
    /// mouse clock (bit 5) not disabled.
    pub fn configured_status(status: u8) -> (r: u8)
        ensures
            r == crate::monos_kernel::utils::spec_set_bit_u8(
                crate::monos_kernel::utils::spec_set_bit_u8(status, 1, true),
                5,
                false,
            ),
    {
        let s = crate::monos_kernel::utils::set_bit_u8(status, 1, true);
        crate::monos_kernel::utils::set_bit_u8(s, 5, false)
    }

    /// The message a movement report is sent as: the movement (sign-extended) and the
    /// flags.
    pub fn state_message(state: MouseState) -> (r: (u64, u64, u64, u64))
        ensures
            r == (state.x as u64, state.y as u64, state.flags.0 as u64, 0u64),
    {
        (state.x as u64, state.y as u64, state.flags.as_u8() as u64, 0)
    }

    fn sign_extend(&self, value: u8) -> (r: i16)
        ensures
            r == sign_extended(value),
    {
        let r = ((value as u16) | 0xFF00) as i16;
        assert(((value as u16) | 0xFF00u16) as i16 == (value as int - 256) as i16) by (bit_vector);
        r
    }

    /// Takes one byte of a packet. The first byte holds the flags and is dropped unless bit
    /// 3 is set; the second and third give the movement along x and y (left as they were
    /// on overflow). After the third byte the whole state is returned.
    pub fn handle_packet(&mut self, packet: u8) -> (r: Option<MouseState>)
        requires
            old(self).wf(),
        ensures
            final(self).wf(),
            old(self).packet_type == 0 && !spec_get_bit_u8(packet, 3) ==> r is None
                && final(self).packet_type == 0 && final(self).state == old(self).state,
            old(self).packet_type == 0 && spec_get_bit_u8(packet, 3) ==> r is None
                && final(self).packet_type == 1 && final(self).state == (MouseState {
                flags: MouseFlags(packet),
                ..old(self).state
            }),
            old(self).packet_type == 1 ==> r is None && final(self).packet_type == 2
                && final(self).state == (MouseState {
                x: if spec_get_bit_u8(old(self).state.flags.0, 6) {
                    old(self).state.x
                } else {
                    movement(packet, spec_get_bit_u8(old(self).state.flags.0, 4))
                },
                ..old(self).state
            }),
            old(self).packet_type == 2 ==> final(self).packet_type == 0 && final(self).state == (
            MouseState {
                y: if spec_get_bit_u8(old(self).state.flags.0, 7) {
                    old(self).state.y
                } else {
                    movement(packet, spec_get_bit_u8(old(self).state.flags.0, 5))
                },
                ..old(self).state
            }) && r == Some(final(self).state),
    {
        if self.packet_type == 0 {
            let flags = MouseFlags::new(packet);
            if !flags.is_valid() {
                return None;
            }
            self.state.flags = flags;
        } else if self.packet_type == 1 {
            if !self.state.flags.x_overflow() {
                self.state.x = if self.state.flags.x_sign() {
                    self.sign_extend(packet)
                } else {
                    packet as i16
                };
            }
        } else {
            if !self.state.flags.y_overflow() {
                self.state.y = if self.state.flags.y_sign() {
                    self.sign_extend(packet)
                } else {
                    packet as i16
                };
            }
        }
        let r = if self.packet_type == 2 {
            Some(self.state)
        } else {
            None
        };
        self.packet_type = (self.packet_type + 1) % 3;
        r
    }
}

} // verus!
