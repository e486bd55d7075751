//! The host VM: bundles the System and Video devices, implements the CPU's
//! host callback by routing each port write to the device owning the port's
//! high nibble, and offers the frame-driving entry points.

use vstd::prelude::*;

use crate::cpu::{dump_text, spec_reaches, spec_run, Cpu, CpuView, Machine};
use crate::system::{SystemDevice, SYSTEM_DEBUG};
use crate::video::{composite, spec_video_deo, VideoBuffer, VideoDevice, VideoView};

verus! {

/// What a frame-driving front end receives from a vector run: whether the
/// machine asks to halt, and the text the System device printed.
#[derive(Debug, Clone)]
pub struct DeviceOutput {
    pub shall_halt: bool,
    pub sys_stdout: String,
}

impl core::default::Default for DeviceOutput {
    fn default() -> (r: Self)
        ensures
            r.shall_halt == false,
            r.sys_stdout@ == Seq::<char>::empty(),
    {
        DeviceOutput { shall_halt: false, sys_stdout: String::new() }
    }
}

/// The address a frame run starts at: the installed vector, or 0x200 while
/// the vector is unset.
pub open spec fn vector_addr(vector: u16) -> u16 {
    if vector == 0 {
        0x200u16
    } else {
        vector
    }
}

/// Mathematical state of the host VM: the Video device and the System
/// device's stdout text.
pub struct VmView {
    pub video: VideoView,
    pub system: Seq<char>,
}

/// The reference host: a System device and a Video device.
pub struct Vm {
    video: VideoDevice,
    system: SystemDevice,
}

impl View for Vm {
    type V = VmView;

    closed spec fn view(&self) -> VmView {
        VmView { video: self.video@, system: self.system@ }
    }
}

impl Vm {
    pub open spec fn wf(self) -> bool {
        self@.video.wf()
    }

    pub fn new() -> (r: Self)
        ensures
            r.wf(),
            r@.system == Seq::<char>::empty(),
            r@.video.is_dirty,
            r@.video.vector == 0,
            forall|i: int| 0 <= i < 27648 ==> r@.video.bg[i] == 0u8,
            forall|i: int| 0 <= i < 27648 ==> r@.video.fg[i] == 0u8,
    {
        Vm { video: VideoDevice::new(), system: SystemDevice::new() }
    }

    /// Runs the program at the reset address 0x100 until BRK and returns the
    /// flushed System output.
    ///
    /// For a program the machine-independent interpreter covers (no device
    /// instruction before BRK), the final CPU state is `spec_run`'s result
    /// and the devices are untouched, so the returned text is whatever the
    /// System buffer already held. In every case the run ends in a host
    /// state some `spec_reaches` chain admits — each DEO taking this host's
    /// `deo_admits` effect — and the returned text is that host state's
    /// accumulated System output.
    pub fn on_reset(&mut self, cpu: &mut Cpu) -> (r: DeviceOutput)
        requires
            old(self).wf(),
            old(cpu).wf(),
        ensures
            final(self).wf(),
            final(cpu).wf(),
            r.shall_halt == false,
            final(self)@.system == Seq::<char>::empty(),
            forall|n: nat|
                n <= 0xffff_ffff_ffff_ffff && ((#[trigger] spec_run(old(cpu)@.with_pc(0x100), n))
                    .is_some()) ==> Some(final(cpu)@) == spec_run(old(cpu)@.with_pc(0x100), n)
                    && r.sys_stdout@ == old(self)@.system && final(self)@.video == old(
                    self,
                )@.video,
            exists|v: Vm|
                (#[trigger] spec_reaches(
                    *old(self),
                    old(cpu)@.with_pc(0x100),
                    v,
                    final(cpu)@,
                    0x1_0000_0000_0000_0000,
                )) && r.sys_stdout@ == v@.system && final(self)@.video == v@.video,
    {
        cpu.run(0x100, self);
        let ghost v_mid = *self;
        let out = self.output();
        proof {
            assert(spec_reaches(
                *old(self),
                old(cpu)@.with_pc(0x100),
                v_mid,
                cpu@,
                0x1_0000_0000_0000_0000,
            ));
        }
        out
    }

    /// Runs the program at the Video device's frame vector (falling back to
    /// 0x200 while the vector is unset) and returns the flushed System
    /// output.
    ///
    /// As with `on_reset`, a program without device instructions ends in
    /// exactly `spec_run`'s state, started at the chosen vector address.
    pub fn on_video(&mut self, cpu: &mut Cpu) -> (r: DeviceOutput)
        requires
            old(self).wf(),
            old(cpu).wf(),
        ensures
            final(self).wf(),
            final(cpu).wf(),
            r.shall_halt == false,
            final(self)@.system == Seq::<char>::empty(),
            forall|n: nat|
                n <= 0xffff_ffff_ffff_ffff && ((#[trigger] spec_run(
                    old(cpu)@.with_pc(vector_addr(old(self)@.video.vector)),
                    n,
                )).is_some()) ==> Some(final(cpu)@) == spec_run(
                    old(cpu)@.with_pc(vector_addr(old(self)@.video.vector)),
                    n,
                ) && r.sys_stdout@ == old(self)@.system && final(self)@.video == old(self)@.video,
            exists|v: Vm|
                (#[trigger] spec_reaches(
                    *old(self),
                    old(cpu)@.with_pc(vector_addr(old(self)@.video.vector)),
                    v,
                    final(cpu)@,
                    0x1_0000_0000_0000_0000,
                )) && r.sys_stdout@ == v@.system && final(self)@.video == v@.video,
    {
        let vector = self.video.vector();
        let addr: u16 = if vector == 0 {
            0x200
        } else {
            vector
        };
        cpu.run(addr, self);
        let ghost v_mid = *self;
        let out = self.output();
        proof {
            assert(addr == vector_addr(old(self)@.video.vector));
            assert(spec_reaches(
                *old(self),
                old(cpu)@.with_pc(vector_addr(old(self)@.video.vector)),
                v_mid,
                cpu@,
                0x1_0000_0000_0000_0000,
            ));
        }
        out
    }

    /// The Video device's composite display buffer, recomposed if needed.
    pub fn pixels(&mut self) -> (r: &VideoBuffer)
        requires
            old(self).wf(),
        ensures
            final(self).wf(),
            r@ == composite(old(self)@.video.bg, old(self)@.video.fg),
            final(self)@.video.bg == old(self)@.video.bg,
            final(self)@.video.fg == old(self)@.video.fg,
            final(self)@.video.vector == old(self)@.video.vector,
            final(self)@.system == old(self)@.system,
    {
        self.video.pixels()
    }

    /// The current device output: the flushed System stdout.
    pub fn output(&mut self) -> (r: DeviceOutput)
        requires
            old(self).wf(),
        ensures
            final(self).wf(),
            r.shall_halt == false,
            r.sys_stdout@ == old(self)@.system,
            final(self)@.system == Seq::<char>::empty(),
            final(self)@.video == old(self)@.video,
    {
        DeviceOutput { shall_halt: false, sys_stdout: self.system.stdout() }
    }
}

impl Machine for Vm {
    open spec fn inv(&self) -> bool {
        self.wf()
    }

    /// What a DEO callback of this host does, port window by port window:
    /// the System window may fire the debug dump (appending to the stdout
    /// text and clearing the port), the Video window takes its `deo` effect,
    /// and unassigned windows change nothing.
    open spec fn deo_admits(pre: Vm, c_pre: CpuView, target: u8, post: Vm, c_post: CpuView) -> bool {
        if (target & 0xf0) == 0x00 {
            let off = target & 0x0f;
            let fires = off == SYSTEM_DEBUG && c_pre.dev_byte(SYSTEM_DEBUG) != 0;
            &&& post@.video == pre@.video
            &&& (fires ==> post@.system == pre@.system + dump_text(c_pre) && c_post
                == c_pre.write_dev_byte(SYSTEM_DEBUG, 0))
            &&& (!fires ==> post@.system == pre@.system && c_post == c_pre)
        } else if (target & 0xf0) == 0x10 {
            &&& post@.video == spec_video_deo(pre@.video, c_pre, target & 0x0f)
            &&& post@.system == pre@.system
            &&& c_post == c_pre
        } else {
            post@ == pre@ && c_post == c_pre
        }
    }

    /// Device input is not used by either bundled device: a DEI callback
    /// changes nothing.
    open spec fn dei_admits(pre: Vm, c_pre: CpuView, target: u8, post: Vm, c_post: CpuView) -> bool {
        post@ == pre@ && c_post == c_pre
    }

    fn dei(&mut self, cpu: &mut Cpu, target: u8)
        ensures
            final(self)@ == old(self)@,
            final(cpu)@ == old(cpu)@,
    {
    }

    /// Routes a port write to the device owning the port's high nibble;
    /// writes to unassigned windows are ignored.
    fn deo(&mut self, cpu: &mut Cpu, target: u8) {
        let offset = target & 0x0f;
        let base = target & 0xf0;
        if base == 0x00 {
            // SystemPorts::BASE
            self.system.deo(cpu, offset);
        } else if base == 0x10 {
            // VideoPorts::BASE
            self.video.deo(cpu, offset);
        }
    }
}

} // verus!

