//! The System device: a reset-vector port and a debug port. Writing a
//! non-zero byte to the debug port clears it and appends a dump of the CPU
//! state to a flushable stdout buffer.

use vstd::prelude::*;
use vstd::string::*;

use crate::cpu::{dump_text, Cpu, Ports};

verus! {

/// Port window of the System device.
pub struct SystemPorts {}

impl Ports for SystemPorts {
    const BASE: u8 = 0x00;
}

/// Reset-vector port (short), as an offset inside the window.
pub const SYSTEM_VECTOR: u8 = 0x00;

/// Debug port (byte), as an offset inside the window.
pub const SYSTEM_DEBUG: u8 = 0x02;

/// The System device. Its view is the text accumulated in its stdout buffer.
pub struct SystemDevice {
    stdout: String,
}

impl View for SystemDevice {
    type V = Seq<char>;

    closed spec fn view(&self) -> Seq<char> {
        self.stdout@
    }
}

impl SystemDevice {
    pub fn new() -> (r: Self)
        ensures
            r@ == Seq::<char>::empty(),
    {
        SystemDevice { stdout: String::new() }
    }

    /// Handles a write to the debug port: if the written byte is non-zero,
    /// clears the port back to zero and appends the CPU's state dump to the
    /// stdout buffer; a zero byte does nothing.
    pub fn debug(&mut self, cpu: &mut Cpu)
        requires
            old(cpu).wf(),
        ensures
            final(cpu).wf(),
            old(cpu)@.dev_byte(SYSTEM_DEBUG) == 0 ==> final(self)@ == old(self)@ && final(cpu)@
                == old(cpu)@,
            old(cpu)@.dev_byte(SYSTEM_DEBUG) != 0 ==> final(self)@ == old(self)@ + dump_text(
                old(cpu)@,
            ) && final(cpu)@ == old(cpu)@.write_dev_byte(SYSTEM_DEBUG, 0),
    {
        let ports = cpu.device_page::<SystemPorts>();
        if ports[SYSTEM_DEBUG as usize] == 0 {
            return ;
        }
        // reset the debug port to zero
        cpu.device_poke::<SystemPorts>(SYSTEM_DEBUG, 0x00);

        // append the state dump
        self.stdout.append(cpu.dump().as_str());
    }

    /// Returns the stdout buffer and flushes it.
    pub fn stdout(&mut self) -> (r: String)
        ensures
            r@ == old(self)@,
            final(self)@ == Seq::<char>::empty(),
    {
        let res = self.stdout.clone();
        self.stdout = String::new();
        res
    }

    /// Handles a DEO callback routed to this device; `target` is the port
    /// offset inside the window. Only the debug port reacts.
    pub fn deo(&mut self, cpu: &mut Cpu, target: u8)
        requires
            old(cpu).wf(),
        ensures
            final(cpu).wf(),
            target == SYSTEM_DEBUG && old(cpu)@.dev_byte(SYSTEM_DEBUG) != 0 ==> final(self)@ == old(
                self,
            )@ + dump_text(old(cpu)@) && final(cpu)@ == old(cpu)@.write_dev_byte(SYSTEM_DEBUG, 0),
            !(target == SYSTEM_DEBUG && old(cpu)@.dev_byte(SYSTEM_DEBUG) != 0) ==> final(self)@
                == old(self)@ && final(cpu)@ == old(cpu)@,
    {
        match target {
            SYSTEM_VECTOR => {},
            SYSTEM_DEBUG => self.debug(cpu),
            _ => {},
        }
    }
}

} // verus!
