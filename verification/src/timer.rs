use vstd::prelude::*;

verus! {

/// Timer: DIV (0xFF04), TIMA (0xFF05), TMA (0xFF06), TAC (0xFF07).
///
/// DIV is the upper byte of a 16-bit counter that advances once per T-cycle.
/// While enabled, TIMA advances on each falling edge of the counter bit that
/// TAC selects. When TIMA overflows it reads 0 for one step; at the start of
/// the next step it is reloaded from TMA and an interrupt is requested.
#[derive(Clone, Copy, PartialEq, Eq, Structural)]
pub struct Timer {
    pub div_counter: u16,
    pub tima: u8,
    pub tma: u8,
    pub tac: u8,
    pub overflow_pending: bool,
    pub interrupt_request: bool,
}

/// TAC bit 2 enables TIMA.
pub open spec fn timer_enabled_spec(tac: u8) -> bool {
    tac & 0x04 != 0
}

/// The counter bit whose falling edge advances TIMA, by TAC's clock select:
/// 4096 Hz, 262144 Hz, 65536 Hz, 16384 Hz.
pub open spec fn tima_bit_spec(tac: u8) -> u16 {
    let m = tac & 0x03;
    if m == 0 {
        0x200
    } else if m == 1 {
        0x08
    } else if m == 2 {
        0x20
    } else {
        0x80
    }
}

/// TIMA advanced by one; an overflow to 0 leaves a reload pending.
pub open spec fn tima_increment(t: Timer) -> Timer {
    let n = t.tima.wrapping_add(1);
    Timer { tima: n, overflow_pending: t.overflow_pending || n == 0, ..t }
}

/// One T-cycle.
pub open spec fn tick_spec(t: Timer) -> Timer {
    let d = t.div_counter.wrapping_add(1);
    let b = tima_bit_spec(t.tac);
    let u = Timer { div_counter: d, ..t };
    if timer_enabled_spec(t.tac) && t.div_counter & b != 0 && d & b == 0 {
        tima_increment(u)
    } else {
        u
    }
}

/// `n` T-cycles.
pub open spec fn ticks_spec(t: Timer, n: nat) -> Timer
    decreases n,
{
    if n == 0 {
        t
    } else {
        tick_spec(ticks_spec(t, (n - 1) as nat))
    }
}

/// A step of `n` T-cycles: first the reload a previous overflow left
/// pending, then the cycles.
pub open spec fn timer_step_spec(t: Timer, n: nat) -> Timer {
    let s = if t.overflow_pending {
        Timer { overflow_pending: false, tima: t.tma, interrupt_request: true, ..t }
    } else {
        t
    };
    ticks_spec(s, n)
}

/// What a read of `addr` gives; unused TAC bits read 1.
pub open spec fn timer_read_spec(t: Timer, addr: u16) -> u8 {
    if addr == 0xFF04 {
        (t.div_counter >> 8u16) as u8
    } else if addr == 0xFF05 {
        t.tima
    } else if addr == 0xFF06 {
        t.tma
    } else if addr == 0xFF07 {
        t.tac | 0xF8
    } else {
        0xFF
    }
}

/// The timer after writing `val` at `addr`.
///
/// Writing DIV clears the whole counter; when the timer is enabled and the
/// selected bit was high, that is a falling edge and advances TIMA. Writing TIMA cancels a pending
/// reload. Writing TMA during a pending reload also sets TIMA. Writing TAC
/// advances TIMA when the selected bit was high and the change makes the
/// timer's input fall (disabled, or the new bit low).
pub open spec fn timer_write_spec(t: Timer, addr: u16, val: u8) -> Timer {
    if addr == 0xFF04 {
        let u = Timer { div_counter: 0, ..t };
        if timer_enabled_spec(t.tac) && t.div_counter & tima_bit_spec(t.tac) != 0 {
            tima_increment(u)
        } else {
            u
        }
    } else if addr == 0xFF05 {
        Timer { overflow_pending: false, tima: val, ..t }
    } else if addr == 0xFF06 {
        Timer { tma: val, tima: if t.overflow_pending { val } else { t.tima }, ..t }
    } else if addr == 0xFF07 {
        let u = Timer { tac: val & 0x07, ..t };
        if timer_enabled_spec(t.tac) && t.div_counter & tima_bit_spec(t.tac) != 0 && (
        !timer_enabled_spec(u.tac) || t.div_counter & tima_bit_spec(u.tac) == 0) {
            tima_increment(u)
        } else {
            u
        }
    } else {
        t
    }
}

impl Timer {
    /// The counter starts at 0xABCC (DIV = 0xAB), everything else at zero.
    pub fn new() -> (t: Self)
        ensures
            t == (Timer {
                div_counter: 0xABCC,
                tima: 0,
                tma: 0,
                tac: 0,
                overflow_pending: false,
                interrupt_request: false,
            }),
    {
        Timer {
            div_counter: 0xABCC,
            tima: 0,
            tma: 0,
            tac: 0,
            overflow_pending: false,
            interrupt_request: false,
        }
    }

    pub fn step(&mut self, t_cycles: u8)
        ensures
            *final(self) == timer_step_spec(*old(self), t_cycles as nat),
    {
        if self.overflow_pending {
            self.overflow_pending = false;
            self.tima = self.tma;
            self.interrupt_request = true;
        }
        let ghost start = *self;
        let mut i: u8 = 0;
        while i < t_cycles
            invariant
                i <= t_cycles,
                *self == ticks_spec(start, i as nat),
            decreases t_cycles - i,
        {
            let old = self.div_counter;
            self.div_counter = self.div_counter.wrapping_add(1);
            if self.timer_enabled() {
                let bit = self.tima_bit();
                if old & bit != 0 && self.div_counter & bit == 0 {
                    self.tima = self.tima.wrapping_add(1);
                    if self.tima == 0 {
                        self.overflow_pending = true;
                    }
                }
            }
            i = i + 1;
        }
    }

    fn timer_enabled(&self) -> (r: bool)
        ensures
            r == timer_enabled_spec(self.tac),
    {
        self.tac & 0x04 != 0
    }

    fn tima_bit(&self) -> (r: u16)
        ensures
            r == tima_bit_spec(self.tac),
    {
        let m = self.tac & 0x03;
        if m == 0 {
            0x200
        } else if m == 1 {
            0x08
        } else if m == 2 {
            0x20
        } else {
            0x80
        }
    }

    pub fn read(&self, addr: u16) -> (r: u8)
        ensures
            r == timer_read_spec(*self, addr),
    {
        if addr == 0xFF04 {
            (self.div_counter >> 8) as u8
        } else if addr == 0xFF05 {
            self.tima
        } else if addr == 0xFF06 {
            self.tma
        } else if addr == 0xFF07 {
            self.tac | 0xF8
        } else {
            0xFF
        }
    }

    pub fn write(&mut self, addr: u16, val: u8)
        ensures
            *final(self) == timer_write_spec(*old(self), addr, val),
    {
        if addr == 0xFF04 {
            let edge = self.timer_enabled() && self.div_counter & self.tima_bit() != 0;
            self.div_counter = 0;
            if edge {
                self.tima = self.tima.wrapping_add(1);
                if self.tima == 0 {
                    self.overflow_pending = true;
                }
            }
        } else if addr == 0xFF05 {
            if self.overflow_pending {
                self.overflow_pending = false;
            }
            self.tima = val;
        } else if addr == 0xFF06 {
            self.tma = val;
            if self.overflow_pending {
                self.tima = val;
            }
        } else if addr == 0xFF07 {
            let old_en = self.timer_enabled();
            let old_bit = self.tima_bit();
            self.tac = val & 0x07;
            if old_en && self.div_counter & old_bit != 0 {
                if !self.timer_enabled() || self.div_counter & self.tima_bit() == 0 {
                    self.tima = self.tima.wrapping_add(1);
                    if self.tima == 0 {
                        self.overflow_pending = true;
                    }
                }
            }
        }
    }
}

} // verus!
