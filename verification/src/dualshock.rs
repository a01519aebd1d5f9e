//! Reading the input reports of a DualShock 4 controller.
//!
//! Two report layouts occur: the short report (id `0x01`) and the extended
//! Bluetooth report (id `0x11`), which also carries the touchpad. Sticks and
//! triggers are kept as their raw bytes here; their scaling to fractions is
//! left to the caller.

use vstd::prelude::*;
use vstd::string::*;
use crate::text::str_eq;
use crate::controller::ButtonType;
use crate::intermediate_controller_state::{bit_at, button_down};

verus! {

/// The DualShock 4 controller.
#[derive(Default, Clone, Copy, Debug)]
pub struct DS4 {}

/// The readings of one input report, as the raw values the report holds.
#[derive(Clone, Copy, Debug)]
pub struct RawReport {
    /// Left stick, horizontal: 0 left, 255 right.
    pub left_stick_x: u8,
    /// Left stick, vertical: 0 up, 255 down.
    pub left_stick_y: u8,
    /// Right stick, horizontal.
    pub right_stick_x: u8,
    /// Right stick, vertical.
    pub right_stick_y: u8,
    /// Left trigger: 0 released, 255 fully pressed.
    pub l_trigger: u8,
    /// Right trigger.
    pub r_trigger: u8,
    /// One bit per button, in the order of `ButtonType`.
    pub packed_button_states: u16,
    /// D-pad: 0 to 7 clockwise from up, 8 for none.
    pub dpad: i8,
    /// The touchpad's raw column (0 to 2047) and row (a multiple of 16 below
    /// 65536) of the first finger, in extended reports only.
    pub touch: Option<(u16, u16)>,
}

/// A report that `DS4::parse_report` can read: a known report id, and as
/// many bytes as its layout reads.
pub open spec fn readable_report(buf: Seq<u8>) -> bool {
    &&& buf.len() > 0
    &&& (buf[0] == 0x11u8 || buf[0] == 0x01u8)
    &&& buf[0] == 0x11u8 ==> buf.len() > 1 && (buf[1] >= 128 ==> buf.len() > 40)
    &&& buf[0] == 0x01u8 ==> buf.len() > 9
}

/// What an input report reads as; `None` for an extended report that carries
/// only audio (top bit of byte 1 clear).
pub open spec fn report_reading(buf: Seq<u8>) -> Option<RawReport> {
    if buf[0] == 0x11u8 {
        if buf[1] < 128 {
            None
        } else {
            Some(
                RawReport {
                    left_stick_x: buf[3],
                    left_stick_y: buf[4],
                    right_stick_x: buf[5],
                    right_stick_y: buf[6],
                    l_trigger: buf[10],
                    r_trigger: buf[11],
                    packed_button_states: ((if buf[37] < 128 {
                        1int
                    } else {
                        0int
                    }) * 16384 + (buf[9] % 4) * 4096 + buf[8] * 16 + buf[7] / 16) as u16,
                    dpad: (buf[7] % 16) as i8,
                    touch: Some(
                        (
                            (buf[38] + (buf[39] % 8) * 256) as u16,
                            (buf[40] * 256 + (buf[39] / 16) * 16) as u16,
                        ),
                    ),
                },
            )
        }
    } else {
        Some(
            RawReport {
                left_stick_x: buf[1],
                left_stick_y: buf[2],
                right_stick_x: buf[3],
                right_stick_y: buf[4],
                l_trigger: buf[8],
                r_trigger: buf[9],
                packed_button_states: (buf[6] * 16 + buf[5] / 16) as u16,
                dpad: (buf[5] % 16) as i8,
                touch: None,
            },
        )
    }
}

/// The product name holds `DUALSHOCK`.
pub open spec fn names_dualshock(product: Seq<char>) -> bool {
    exists|i: int| 0 <= i && i + 9 <= product.len() && #[trigger] product.subrange(i, i + 9) == "DUALSHOCK"@
}

impl DS4 {
    /// Whether `parse_report` can read `buf` (see `readable_report`).
    pub fn is_readable(buf: &[u8]) -> (r: bool)
        ensures
            r == readable_report(buf@),
    {
        let n = buf.len();
        if n == 0 {
            return false;
        }
        if buf[0] == 0x11 {
            n > 1 && (buf[1] < 128 || n > 40)
        } else if buf[0] == 0x01 {
            n > 9
        } else {
            false
        }
    }

    /// Whether a device's product name marks it as a DualShock controller.
    pub fn is_dualshock_name(product: &str) -> (r: bool)
        ensures
            r == names_dualshock(product@),
    {
        let pattern = "DUALSHOCK";
        proof {
            reveal_strlit("DUALSHOCK");
        }
        let n = product.unicode_len();
        if n < 9 {
            return false;
        }
        let mut i: usize = 0;
        while i <= n - 9
            invariant
                n == product@.len(),
                n >= 9,
                pattern@ == "DUALSHOCK"@,
                pattern@.len() == 9,
                forall|j: int| 0 <= j < i ==> #[trigger] product@.subrange(j, j + 9) != "DUALSHOCK"@,
            decreases n - i,
        {
            if str_eq(product.substring_char(i, i + 9), pattern) {
                return true;
            }
            i += 1;
        }
        false
    }

    /// Reads an input report.
    ///
    /// Buttons: the high nibble of the first button byte gives square,
    /// cross, circle and triangle; the next byte the bumpers, trigger
    /// buttons, share, options and stick buttons; in extended reports the
    /// low two bits of the following byte give the PS button and the
    /// touchpad click, and bit 14 is set while a finger touches the pad.
    pub fn parse_report(buf: &[u8]) -> (r: Option<RawReport>)
        requires
            readable_report(buf@),
        ensures
            r == report_reading(buf@),
    {
        if buf[0] == 0x11 {
            let b1 = buf[1];
            assert(((b1 >> 7u8) & 1u8 == 0u8) == (b1 < 128)) by (bit_vector);
            if (b1 >> 7) & 1 == 0 {
                return None;
            }
            let b7 = buf[7];
            let b8 = buf[8];
            let b9 = buf[9];
            let b37 = buf[37];
            let b39 = buf[39];
            let b40 = buf[40];
            let b38 = buf[38];
            let touching: u16 = if b37 & (1 << 7) == 0 {
                1
            } else {
                0
            };
            assert((b37 & (1u8 << 7u8) == 0u8) == (b37 < 128)) by (bit_vector);
            let buttons: u16 = touching << 14 | ((b9 & 3) as u16) << 12 | (b8 as u16) << 4 | ((b7
                & 0xF0) as u16) >> 4;
            assert(touching << 14u16 | ((b9 & 3u8) as u16) << 12u16 | (b8 as u16) << 4u16 | ((b7
                & 0xF0u8) as u16) >> 4u16 == touching * 16384 + (b9 % 4) * 4096 + b8 * 16 + b7 / 16)
                by (bit_vector)
                requires
                    touching <= 1,
            ;
            let dpad = (b7 as i8) & 0x0F;
            assert((b7 as i8) & 0x0Fi8 == (b7 % 16) as i8) by (bit_vector);
            let touch_x: u16 = (b38 as u16) | (((b39 as u16) & 7u16) << 8u16);
            assert((b38 as u16) | (((b39 as u16) & 7u16) << 8u16) == b38 + (b39 % 8) * 256)
                by (bit_vector);
            let touch_y: u16 = ((b40 as u16) << 8u16) | ((b39 as u16) & (15u16 << 4u16));
            assert(((b40 as u16) << 8u16) | ((b39 as u16) & (15u16 << 4u16)) == b40 * 256 + (b39
                / 16) * 16) by (bit_vector);
            Some(
                RawReport {
                    left_stick_x: buf[3],
                    left_stick_y: buf[4],
                    right_stick_x: buf[5],
                    right_stick_y: buf[6],
                    l_trigger: buf[10],
                    r_trigger: buf[11],
                    packed_button_states: buttons,
                    dpad: dpad,
                    touch: Some((touch_x, touch_y)),
                },
            )
        } else {
            let b5 = buf[5];
            let b6 = buf[6];
            let buttons: u16 = (b6 as u16) << 4 | ((b5 & 0xF0) as u16) >> 4;
            assert((b6 as u16) << 4u16 | ((b5 & 0xF0u8) as u16) >> 4u16 == b6 * 16 + b5 / 16)
                by (bit_vector);
            let dpad = (b5 as i8) & 0x0F;
            assert((b5 as i8) & 0x0Fi8 == (b5 % 16) as i8) by (bit_vector);
            Some(
                RawReport {
                    left_stick_x: buf[1],
                    left_stick_y: buf[2],
                    right_stick_x: buf[3],
                    right_stick_y: buf[4],
                    l_trigger: buf[8],
                    r_trigger: buf[9],
                    packed_button_states: buttons,
                    dpad: dpad,
                    touch: None,
                },
            )
        }
    }
}

/// Every reading fits its field: the packed buttons use only the fifteen
/// button bits (twelve in a short report), the d-pad is one of sixteen
/// values, and the touchpad column is below 2048.
pub proof fn law_report_in_range(buf: Seq<u8>)
    requires
        readable_report(buf),
    ensures
        report_reading(buf) matches Some(r) ==> {
            &&& r.packed_button_states < 32768
            &&& 0 <= r.dpad < 16
            &&& r.touch matches Some((x, y)) ==> x < 2048 && y % 16 == 0
            &&& buf[0] == 0x01u8 ==> r.packed_button_states < 4096
        },
{
}

/// Bit `i` of byte `x` is set.
pub open spec fn byte_bit(x: u8, i: int) -> bool {
    (x >> (i as u8)) & 1u8 == 1u8
}

/// Whether button `b` is down in an input report, by the controller's
/// report layout: the high nibble of the first button byte (byte 7 of an
/// extended report, byte 5 of a short one) holds square, cross, circle and
/// triangle from its low bit up; the next byte holds, from bit 0, the left
/// and right bumpers, the left and right trigger buttons, share, options,
/// and the left and right stick buttons; in an extended report bits 0 and 1
/// of byte 9 hold the PS button and the touchpad click, and a finger is on
/// the touchpad while the top bit of byte 37 is clear. A short report has no
/// PS, touchpad click or touch.
pub open spec fn report_button(buf: Seq<u8>, b: ButtonType) -> bool {
    let extended = buf[0] == 0x11u8;
    let face = if extended {
        buf[7]
    } else {
        buf[5]
    };
    let shoulder = if extended {
        buf[8]
    } else {
        buf[6]
    };
    match b {
        ButtonType::Square => byte_bit(face, 4),
        ButtonType::Cross => byte_bit(face, 5),
        ButtonType::Circle => byte_bit(face, 6),
        ButtonType::Triangle => byte_bit(face, 7),
        ButtonType::LBumper => byte_bit(shoulder, 0),
        ButtonType::RBumper => byte_bit(shoulder, 1),
        ButtonType::LTriggerBtn => byte_bit(shoulder, 2),
        ButtonType::RTriggerBtn => byte_bit(shoulder, 3),
        ButtonType::Share => byte_bit(shoulder, 4),
        ButtonType::Options => byte_bit(shoulder, 5),
        ButtonType::LStickBtn => byte_bit(shoulder, 6),
        ButtonType::RStickBtn => byte_bit(shoulder, 7),
        ButtonType::PS => extended && byte_bit(buf[9], 0),
        ButtonType::TouchpadClick => extended && byte_bit(buf[9], 1),
        ButtonType::Touch => extended && !byte_bit(buf[37], 7),
    }
}

/// Each button of a reading is down exactly when the report's layout says
/// so, and no other bit of the packed state is set.
pub proof fn law_report_buttons(buf: Seq<u8>, b: ButtonType)
    requires
        readable_report(buf),
        report_reading(buf) is Some,
    ensures
        button_down(report_reading(buf).unwrap().packed_button_states, b) == report_button(buf, b),
        !bit_at(report_reading(buf).unwrap().packed_button_states, 15),
{
    let p = report_reading(buf).unwrap().packed_button_states;
    let i = crate::controller::bit_of(b);
    crate::controller::lemma_button_bits(b, 0);
    assert(0 <= i < 15);
    let k = i as u16;
    if buf[0] == 0x11u8 {
        let (b7, b8, b9, b37) = (buf[7], buf[8], buf[9], buf[37]);
        let t: u16 = if b37 < 128 {
            1
        } else {
            0
        };
        assert((b37 < 128) == !((b37 >> 7u8) & 1u8 == 1u8)) by (bit_vector);
        assert(p == t << 14u16 | ((b9 & 3u8) as u16) << 12u16 | (b8 as u16) << 4u16 | ((b7 & 0xF0u8)
            as u16) >> 4u16) by (bit_vector)
            requires
                t <= 1,
                p == (t * 16384 + (b9 % 4) * 4096 + b8 * 16 + b7 / 16) as u16,
        ;
        assert(((p >> k) & 1u16 == 1u16) == (if k < 4 {
            (b7 >> ((k + 4) as u8)) & 1u8 == 1u8
        } else if k < 12 {
            (b8 >> ((k - 4) as u8)) & 1u8 == 1u8
        } else if k < 14 {
            (b9 >> ((k - 12) as u8)) & 1u8 == 1u8
        } else if k == 14 {
            t == 1
        } else {
            false
        })) by (bit_vector)
            requires
                k < 16,
                t <= 1,
                p == t << 14u16 | ((b9 & 3u8) as u16) << 12u16 | (b8 as u16) << 4u16 | ((b7
                    & 0xF0u8) as u16) >> 4u16,
        ;
        assert(((p >> 15u16) & 1u16 == 1u16) == false) by (bit_vector)
            requires
                t <= 1,
                p == t << 14u16 | ((b9 & 3u8) as u16) << 12u16 | (b8 as u16) << 4u16 | ((b7
                    & 0xF0u8) as u16) >> 4u16,
        ;
    } else {
        let (b5, b6) = (buf[5], buf[6]);
        assert(p == (b6 as u16) << 4u16 | ((b5 & 0xF0u8) as u16) >> 4u16) by (bit_vector)
            requires
                p == (b6 * 16 + b5 / 16) as u16,
        ;
        assert(((p >> k) & 1u16 == 1u16) == (if k < 4 {
            (b5 >> ((k + 4) as u8)) & 1u8 == 1u8
        } else if k < 12 {
            (b6 >> ((k - 4) as u8)) & 1u8 == 1u8
        } else {
            false
        })) by (bit_vector)
            requires
                k < 16,
                p == (b6 as u16) << 4u16 | ((b5 & 0xF0u8) as u16) >> 4u16,
        ;
        assert(((p >> 15u16) & 1u16 == 1u16) == false) by (bit_vector)
            requires
                p == (b6 as u16) << 4u16 | ((b5 & 0xF0u8) as u16) >> 4u16,
        ;
    }
}

/// The d-pad is the low nibble of its byte (byte 7 of an extended report,
/// byte 5 of a short one), so a released d-pad (nibble 8) reads as 8; the
/// sticks and triggers are their bytes as they stand.
pub proof fn law_report_dpad_and_axes(buf: Seq<u8>)
    requires
        readable_report(buf),
        report_reading(buf) is Some,
    ensures
        ({
            let r = report_reading(buf).unwrap();
            let extended = buf[0] == 0x11u8;
            &&& r.dpad as u8 == (if extended {
                buf[7]
            } else {
                buf[5]
            }) & 0x0Fu8
            &&& extended ==> r.left_stick_x == buf[3] && r.left_stick_y == buf[4] && r.right_stick_x == buf[5]
                && r.right_stick_y == buf[6] && r.l_trigger == buf[10] && r.r_trigger == buf[11]
            &&& !extended ==> r.left_stick_x == buf[1] && r.left_stick_y == buf[2] && r.right_stick_x == buf[3]
                && r.right_stick_y == buf[4] && r.l_trigger == buf[8] && r.r_trigger == buf[9]
        }),
{
    let r = report_reading(buf).unwrap();
    let x = if buf[0] == 0x11u8 {
        buf[7]
    } else {
        buf[5]
    };
    assert(r.dpad == (x % 16) as i8);
    assert(((x % 16) as i8) as u8 == x & 0x0Fu8) by (bit_vector);
}

} // verus!
