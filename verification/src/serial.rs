use vstd::prelude::*;

verus! {

/// Serial port: a transfer started with SC = 0x81 sends SB at once.
///
/// The sent bytes collect in `output`, which the program around the
/// library drains and prints.
pub struct Serial {
    pub sb: u8,
    pub sc: u8,
    pub interrupt_request: bool,
    pub output: Vec<u8>,
}

/// Model of the serial port.
#[verifier::ext_equal]
pub ghost struct SerialView {
    pub sb: u8,
    pub sc: u8,
    pub interrupt_request: bool,
    pub output: Seq<u8>,
}

impl View for Serial {
    type V = SerialView;

    open spec fn view(&self) -> SerialView {
        SerialView {
            sb: self.sb,
            sc: self.sc,
            interrupt_request: self.interrupt_request,
            output: self.output@,
        }
    }
}

/// The port after writing `val` at `addr`.
pub open spec fn serial_write_spec(s: SerialView, addr: u16, val: u8) -> SerialView {
    if addr == 0xFF01 {
        SerialView { sb: val, ..s }
    } else if addr == 0xFF02 {
        if val == 0x81 {
            SerialView { sc: 0x01, interrupt_request: true, output: s.output.push(s.sb), ..s }
        } else {
            SerialView { sc: val, ..s }
        }
    } else {
        s
    }
}

/// What a read of `addr` gives.
pub open spec fn serial_read_spec(s: SerialView, addr: u16) -> u8 {
    if addr == 0xFF01 {
        s.sb
    } else if addr == 0xFF02 {
        s.sc
    } else {
        0xFF
    }
}

impl Serial {
    pub fn new() -> (s: Self)
        ensures
            s@ == (SerialView { sb: 0, sc: 0, interrupt_request: false, output: Seq::empty() }),
    {
        Serial { sb: 0, sc: 0, interrupt_request: false, output: Vec::new() }
    }

    pub fn write(&mut self, addr: u16, val: u8)
        ensures
            final(self)@ == serial_write_spec(old(self)@, addr, val),
    {
        if addr == 0xFF01 {
            self.sb = val;
        } else if addr == 0xFF02 {
            self.sc = val;
            if val == 0x81 {
                self.output.push(self.sb);
                self.interrupt_request = true;
                self.sc = 0x01;
            }
        }
    }

    pub fn read(&self, addr: u16) -> (r: u8)
        ensures
            r == serial_read_spec(self@, addr),
    {
        if addr == 0xFF01 {
            self.sb
        } else if addr == 0xFF02 {
            self.sc
        } else {
            0xFF
        }
    }

    /// Hands out the bytes sent so far and empties the buffer.
    pub fn take_output(&mut self) -> (out: Vec<u8>)
        ensures
            out@ == old(self)@.output,
            final(self)@ == (SerialView { output: Seq::empty(), ..old(self)@ }),
    {
        let mut out: Vec<u8> = Vec::new();
        std::mem::swap(&mut out, &mut self.output);
        out
    }
}

} // verus!
