//! Turning two successive controller readings into input events.
//!
//! A reading is taken here in its digital form: the region each stick and
//! touchpad axis points into, the d-pad direction, and the packed button
//! state, one bit per button. An event is emitted for each of these that
//! changed, in a fixed order.

use vstd::prelude::*;
use crate::controller::{bit_of, button_at, button_bit, button_of, ButtonType, DiscreteType, BUTTON_COUNT};

verus! {

/// Bit `i` of `x` is set.
pub open spec fn bit_at(x: u16, i: int) -> bool {
    (x >> (i as u16)) & 1u16 == 1u16
}

/// Button `b` is down in the packed button state `buttons`.
pub open spec fn button_down(buttons: u16, b: ButtonType) -> bool {
    bit_at(buttons, bit_of(b))
}

/// The button events between two packed button states, over the first `n`
/// buttons: for each button whose bit changed, in bit order, the button and
/// whether it is now down.
pub open spec fn button_events_upto(prev: u16, next: u16, n: int) -> Seq<(ButtonType, bool)>
    decreases n,
{
    if n <= 0 {
        Seq::empty()
    } else {
        let earlier = button_events_upto(prev, next, n - 1);
        if bit_at(prev, n - 1) != bit_at(next, n - 1) {
            earlier.push((button_of(n - 1), bit_at(next, n - 1)))
        } else {
            earlier
        }
    }
}

/// The button events between two packed button states.
pub open spec fn button_events_spec(prev: u16, next: u16) -> Seq<(ButtonType, bool)> {
    button_events_upto(prev, next, 15)
}

/// Whether button `b` is down in the packed button state `buttons`.
pub fn button_pressed(buttons: u16, b: ButtonType) -> (r: bool)
    ensures
        r == button_down(buttons, b),
{
    let i = button_bit(b);
    assert(i < 16);
    assert((buttons & (1u16 << i) != 0u16) == ((buttons >> i) & 1u16 == 1u16)) by (bit_vector)
        requires
            i < 16,
    ;
    buttons & (1u16 << i) != 0
}

/// The button events between two packed button states: for each button whose
/// bit changed, in bit order, the button and whether it is now down.
pub fn button_events(prev: u16, next: u16) -> (r: Vec<(ButtonType, bool)>)
    ensures
        r@ == button_events_spec(prev, next),
{
    let changed = prev ^ next;
    let mut r: Vec<(ButtonType, bool)> = Vec::new();
    let mut i: usize = 0;
    while i < BUTTON_COUNT
        invariant
            i <= 15,
            changed == prev ^ next,
            r@ == button_events_upto(prev, next, i as int),
        decreases 15 - i,
    {
        let k = i as u16;
        assert(((changed & (1u16 << k)) != 0u16) == (((prev >> k) & 1u16 == 1u16) != ((next >> k)
            & 1u16 == 1u16))) by (bit_vector)
            requires
                changed == prev ^ next,
                k < 16,
        ;
        assert(((next & (1u16 << k)) != 0u16) == ((next >> k) & 1u16 == 1u16)) by (bit_vector)
            requires
                k < 16,
        ;
        if changed & (1u16 << k) != 0 {
            r.push((button_at(i), next & (1u16 << k) != 0));
        }
        i += 1;
    }
    r
}

/// The digital form of a controller reading.
#[derive(Clone, Copy, Debug)]
pub struct ControllerSnapshot {
    /// The region of the left stick, out of 8; -1 when near the centre.
    pub left: i8,
    /// The region of the right stick, out of 8; -1 when near the centre.
    pub right: i8,
    /// The d-pad direction: 0 to 7 clockwise from up, 8 for none.
    pub dpad: i8,
    /// The touchpad column, out of 12.
    pub touch_x: i8,
    /// The touchpad row, out of 8.
    pub touch_y: i8,
    /// The packed button state.
    pub buttons: u16,
}

/// An input event of the digital part of a reading.
#[derive(PartialEq, Eq, Structural, Clone, Copy, Debug)]
pub enum DigitalEvent {
    /// The input, its new region, and its number of regions.
    Discrete(DiscreteType, i8, u8),
    /// The button, and whether it is now down.
    Button(ButtonType, bool),
}

/// One discrete event if the region changed, else none.
pub open spec fn region_event(t: DiscreteType, old: i8, new: i8, regions: u8) -> Seq<DigitalEvent> {
    if old != new {
        seq![DigitalEvent::Discrete(t, new, regions)]
    } else {
        Seq::empty()
    }
}

/// The events between two readings: left stick, right stick, d-pad,
/// touchpad column, touchpad row, each if it changed; then the button events.
pub open spec fn digital_events(old: ControllerSnapshot, new: ControllerSnapshot) -> Seq<DigitalEvent> {
    region_event(DiscreteType::Left, old.left, new.left, 8) + region_event(
        DiscreteType::Right,
        old.right,
        new.right,
        8,
    ) + region_event(DiscreteType::Dpad, old.dpad, new.dpad, 8) + region_event(
        DiscreteType::TouchX,
        old.touch_x,
        new.touch_x,
        12,
    ) + region_event(DiscreteType::TouchY, old.touch_y, new.touch_y, 8) + button_events_spec(
        old.buttons,
        new.buttons,
    ).map_values(|e: (ButtonType, bool)| DigitalEvent::Button(e.0, e.1))
}

impl ControllerSnapshot {
    /// Whether button `b` is down.
    pub fn get_button(&self, b: ButtonType) -> (r: bool)
        ensures
            r == button_down(self.buttons, b),
    {
        button_pressed(self.buttons, b)
    }

    /// The events that lead from this reading to `new_state`.
    pub fn get_events(&self, new_state: &ControllerSnapshot) -> (r: Vec<DigitalEvent>)
        ensures
            r@ == digital_events(*self, *new_state),
    {
        let mut r: Vec<DigitalEvent> = Vec::new();
        if self.left != new_state.left {
            r.push(DigitalEvent::Discrete(DiscreteType::Left, new_state.left, 8));
        }
        if self.right != new_state.right {
            r.push(DigitalEvent::Discrete(DiscreteType::Right, new_state.right, 8));
        }
        if self.dpad != new_state.dpad {
            r.push(DigitalEvent::Discrete(DiscreteType::Dpad, new_state.dpad, 8));
        }
        if self.touch_x != new_state.touch_x {
            r.push(DigitalEvent::Discrete(DiscreteType::TouchX, new_state.touch_x, 12));
        }
        if self.touch_y != new_state.touch_y {
            r.push(DigitalEvent::Discrete(DiscreteType::TouchY, new_state.touch_y, 8));
        }
        let ghost head = r@;
        assert(head =~= region_event(DiscreteType::Left, self.left, new_state.left, 8)
            + region_event(DiscreteType::Right, self.right, new_state.right, 8) + region_event(
            DiscreteType::Dpad,
            self.dpad,
            new_state.dpad,
            8,
        ) + region_event(DiscreteType::TouchX, self.touch_x, new_state.touch_x, 12)
            + region_event(DiscreteType::TouchY, self.touch_y, new_state.touch_y, 8));
        let buttons = button_events(self.buttons, new_state.buttons);
        let ghost tail = buttons@.map_values(|e: (ButtonType, bool)| DigitalEvent::Button(e.0, e.1));
        let mut i: usize = 0;
        while i < buttons.len()
            invariant
                i <= buttons@.len(),
                tail == buttons@.map_values(|e: (ButtonType, bool)| DigitalEvent::Button(e.0, e.1)),
                r@ =~= head + tail.take(i as int),
            decreases buttons@.len() - i,
        {
            let (b, down) = buttons[i];
            r.push(DigitalEvent::Button(b, down));
            assert(tail.take(i + 1) =~= tail.take(i as int).push(tail[i as int]));
            i += 1;
        }
        assert(tail.take(buttons@.len() as int) =~= tail);
        r
    }
}

// ---------------------------------------------------------------------------
// Laws
// ---------------------------------------------------------------------------

/// Over the first `n` buttons: each event names a button whose state
/// changed and gives its new state; the events come in bit order; and every
/// changed button has an event.
pub proof fn lemma_button_events_upto(prev: u16, next: u16, n: int)
    requires
        0 <= n <= 15,
    ensures
        forall|k: int|
            0 <= k < button_events_upto(prev, next, n).len() ==> {
                let e = #[trigger] button_events_upto(prev, next, n)[k];
                &&& 0 <= bit_of(e.0) < n
                &&& button_down(prev, e.0) != button_down(next, e.0)
                &&& e.1 == button_down(next, e.0)
            },
        forall|a: int, b: int|
            0 <= a < b < button_events_upto(prev, next, n).len() ==> bit_of(
                #[trigger] button_events_upto(prev, next, n)[a].0,
            ) < bit_of(#[trigger] button_events_upto(prev, next, n)[b].0),
        forall|i: int|
            0 <= i < n && bit_at(prev, i) != bit_at(next, i) ==> exists|k: int|
                0 <= k < button_events_upto(prev, next, n).len() && #[trigger] button_events_upto(
                    prev,
                    next,
                    n,
                )[k].0 == button_of(i),
    decreases n,
{
    if n > 0 {
        lemma_button_events_upto(prev, next, n - 1);
        let earlier = button_events_upto(prev, next, n - 1);
        let all = button_events_upto(prev, next, n);
        crate::controller::lemma_button_bits(ButtonType::Square, n - 1);
        assert forall|k: int| 0 <= k < earlier.len() implies #[trigger] all[k] == earlier[k] by {}
        assert forall|i: int| 0 <= i < n && bit_at(prev, i) != bit_at(next, i) implies exists|k: int|
            0 <= k < all.len() && #[trigger] all[k].0 == button_of(i) by {
            if i < n - 1 {
                let k = choose|k: int| 0 <= k < earlier.len() && #[trigger] earlier[k].0 == button_of(i);
                assert(all[k] == earlier[k]);
            } else {
                assert(all[earlier.len() as int].0 == button_of(i));
            }
        }
        assert forall|k: int| 0 <= k < all.len() implies {
            let e = #[trigger] all[k];
            &&& 0 <= bit_of(e.0) < n
            &&& button_down(prev, e.0) != button_down(next, e.0)
            &&& e.1 == button_down(next, e.0)
        } by {
            if k < earlier.len() {
                assert(all[k] == earlier[k]);
            }
        }
        assert forall|a: int, b: int| 0 <= a < b < all.len() implies bit_of(#[trigger] all[a].0) < bit_of(
            #[trigger] all[b].0,
        ) by {
            assert(all[a] == earlier[a]);
            if b < earlier.len() {
                assert(all[b] == earlier[b]);
            }
        }
    }
}

/// The button events describe the change exactly: each event names a button
/// whose state changed and gives its new state, no button comes twice, and
/// every button that changed has its event.
pub proof fn law_button_events_exact(prev: u16, next: u16)
    ensures
        forall|k: int|
            0 <= k < button_events_spec(prev, next).len() ==> {
                let e = #[trigger] button_events_spec(prev, next)[k];
                &&& button_down(prev, e.0) != button_down(next, e.0)
                &&& e.1 == button_down(next, e.0)
            },
        forall|a: int, b: int|
            0 <= a < b < button_events_spec(prev, next).len() ==> #[trigger] button_events_spec(
                prev,
                next,
            )[a].0 != #[trigger] button_events_spec(prev, next)[b].0,
        forall|b: ButtonType|
            button_down(prev, b) != button_down(next, b) ==> exists|k: int|
                0 <= k < button_events_spec(prev, next).len() && #[trigger] button_events_spec(
                    prev,
                    next,
                )[k].0 == b,
{
    lemma_button_events_upto(prev, next, 15);
    assert forall|b: ButtonType| button_down(prev, b) != button_down(next, b) implies exists|k: int|
        0 <= k < button_events_spec(prev, next).len() && #[trigger] button_events_spec(prev, next)[k].0
            == b by {
        crate::controller::lemma_button_bits(b, 0);
        let i = bit_of(b);
        assert(0 <= i < 15 && bit_at(prev, i) != bit_at(next, i));
        let k = choose|k: int|
            0 <= k < button_events_upto(prev, next, 15).len() && #[trigger] button_events_upto(
                prev,
                next,
                15,
            )[k].0 == button_of(i);
        assert(button_events_spec(prev, next)[k].0 == b);
    }
}

/// Two equal readings give no events.
pub proof fn law_no_change_no_events(s: ControllerSnapshot)
    ensures
        digital_events(s, s).len() == 0,
{
    lemma_button_events_upto(s.buttons, s.buttons, 15);
    let ev = button_events_spec(s.buttons, s.buttons);
    if ev.len() > 0 {
        let e = button_events_upto(s.buttons, s.buttons, 15)[0];
        assert(button_down(s.buttons, e.0) != button_down(s.buttons, e.0));
    }
    assert(ev.len() == 0);
}

} // verus!
