use vstd::prelude::*;

verus! {

/// A Game Boy button, or no button at all (an unmapped key).
#[derive(Debug, Clone, Copy, PartialEq, Eq, Structural)]
pub enum Button {
    A,
    B,
    Start,
    Select,
    Up,
    Down,
    Left,
    Right,
    NoButton,
}

/// Joypad register P1 (0xFF00). A button's bit is 1 while released and 0
/// while pressed; action and direction buttons sit in separate nibbles.
#[derive(Clone, Copy, PartialEq, Eq, Structural)]
pub struct Joypad {
    pub select_action: bool,
    pub select_direction: bool,
    pub action_state: u8,
    pub direction_state: u8,
    pub interrupt_request: bool,
}

/// Whether a button belongs to the action group (A, B, Select, Start).
pub open spec fn is_action_button(b: Button) -> bool {
    b == Button::A || b == Button::B || b == Button::Select || b == Button::Start
}

/// The bit of a button inside its group's nibble.
pub open spec fn button_mask(b: Button) -> u8 {
    match b {
        Button::A => 0x01,
        Button::B => 0x02,
        Button::Select => 0x04,
        Button::Start => 0x08,
        Button::Right => 0x01,
        Button::Left => 0x02,
        Button::Up => 0x04,
        Button::Down => 0x08,
        Button::NoButton => 0x00,
    }
}

/// Whether a button is currently up (its bit is set).
pub open spec fn released_spec(j: Joypad, b: Button) -> bool {
    if b == Button::NoButton {
        true
    } else if is_action_button(b) {
        j.action_state & button_mask(b) != 0
    } else {
        j.direction_state & button_mask(b) != 0
    }
}

/// The joypad with button `b` set pressed or released; all else unchanged.
pub open spec fn set_state_spec(j: Joypad, b: Button, pressed: bool) -> Joypad {
    let m = button_mask(b);
    if b == Button::NoButton {
        j
    } else if is_action_button(b) {
        Joypad {
            action_state: if pressed { j.action_state & !m } else { j.action_state | m },
            ..j
        }
    } else {
        Joypad {
            direction_state: if pressed { j.direction_state & !m } else { j.direction_state | m },
            ..j
        }
    }
}

/// P1 as read: the upper bits read 0xC, the lower nibble shows the selected
/// group (directions win when both are selected), or 0xF when none is.
pub open spec fn joypad_read_spec(j: Joypad) -> u8 {
    if j.select_direction {
        0xC0 | (j.direction_state & 0x0F)
    } else if j.select_action {
        0xC0 | (j.action_state & 0x0F)
    } else {
        0xCF
    }
}

/// Pressing: the button goes down, and a joypad interrupt is requested when
/// it was up before.
pub open spec fn press_spec(j: Joypad, b: Button) -> Joypad {
    if b == Button::NoButton {
        j
    } else {
        let k = set_state_spec(j, b, true);
        Joypad { interrupt_request: j.interrupt_request || released_spec(j, b), ..k }
    }
}

/// Releasing: the button goes up; no interrupt.
pub open spec fn release_spec(j: Joypad, b: Button) -> Joypad {
    set_state_spec(j, b, false)
}

proof fn lemma_read_bits(a: u8)
    by (bit_vector)
    ensures
        ((0xCFu8 & !0x20u8) & 0xF0u8) | (a & 0x0Fu8) == 0xC0u8 | (a & 0x0Fu8),
        ((0xC0u8 | (a & 0x0Fu8)) & !0x10u8) & 0xF0u8 == 0xC0u8,
        (0xCFu8 & !0x10u8) & 0xF0u8 == 0xC0u8,
{
}

impl Joypad {
    /// All buttons released, no group selected.
    pub fn new() -> (j: Self)
        ensures
            j == (Joypad {
                select_action: false,
                select_direction: false,
                action_state: 0x0F,
                direction_state: 0x0F,
                interrupt_request: false,
            }),
    {
        Joypad {
            select_action: false,
            select_direction: false,
            action_state: 0x0F,
            direction_state: 0x0F,
            interrupt_request: false,
        }
    }

    /// Selects the groups: a 0 in bit 5 selects the action buttons, a 0 in
    /// bit 4 the directions.
    pub fn write(&mut self, val: u8)
        ensures
            *final(self) == (Joypad {
                select_action: val & 0x20 == 0,
                select_direction: val & 0x10 == 0,
                ..*old(self)
            }),
    {
        self.select_action = val & 0x20 == 0;
        self.select_direction = val & 0x10 == 0;
    }

    pub fn read(&self) -> (r: u8)
        ensures
            r == joypad_read_spec(*self),
    {
        let mut result: u8 = 0xCF;
        proof {
            lemma_read_bits(self.action_state);
            lemma_read_bits(self.direction_state);
        }
        if self.select_action {
            result &= !0x20;
            result = (result & 0xF0) | (self.action_state & 0x0F);
        }
        if self.select_direction {
            result &= !0x10;
            result = (result & 0xF0) | (self.direction_state & 0x0F);
        }
        result
    }

    pub fn press(&mut self, btn: Button)
        ensures
            *final(self) == press_spec(*old(self), btn),
    {
        if btn == Button::NoButton {
            return;
        }
        let was = self.is_released(btn);
        self.set_state(btn, true);
        if was {
            self.interrupt_request = true;
        }
    }

    pub fn release(&mut self, btn: Button)
        ensures
            *final(self) == release_spec(*old(self), btn),
    {
        if btn == Button::NoButton {
            return;
        }
        self.set_state(btn, false);
    }

    fn is_released(&self, btn: Button) -> (r: bool)
        ensures
            r == released_spec(*self, btn),
    {
        match btn {
            Button::A => self.action_state & 0x01 != 0,
            Button::B => self.action_state & 0x02 != 0,
            Button::Select => self.action_state & 0x04 != 0,
            Button::Start => self.action_state & 0x08 != 0,
            Button::Right => self.direction_state & 0x01 != 0,
            Button::Left => self.direction_state & 0x02 != 0,
            Button::Up => self.direction_state & 0x04 != 0,
            Button::Down => self.direction_state & 0x08 != 0,
            Button::NoButton => true,
        }
    }

    fn set_state(&mut self, btn: Button, pressed: bool)
        ensures
            *final(self) == set_state_spec(*old(self), btn, pressed),
    {
        let mask: u8 = match btn {
            Button::A | Button::Right => 0x01,
            Button::B | Button::Left => 0x02,
            Button::Select | Button::Up => 0x04,
            Button::Start | Button::Down => 0x08,
            Button::NoButton => 0x00,
        };
        match btn {
            Button::A | Button::B | Button::Select | Button::Start => {
                self.action_state =
                    if pressed { self.action_state & !mask } else { self.action_state | mask };
            },
            Button::Right | Button::Left | Button::Up | Button::Down => {
                self.direction_state =
                    if pressed { self.direction_state & !mask } else { self.direction_state | mask };
            },
            Button::NoButton => {},
        }
    }
}

} // verus!
