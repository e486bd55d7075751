use coco::cpu::{Cpu, CpuView, Machine};
use coco::opcodes::{ADD, BRK, DEO, DEO2, DIV, DIV2, JMP, PUSH, PUSH2};
use coco::stack::Stack;
use coco::system::SystemPorts;
use coco::video::{SCREEN_WIDTH, VIDEO_BUFFER_LEN, VideoPorts};
use coco::vm::Vm;

pub struct AnyMachine {}

impl Machine for AnyMachine {
    fn inv(&self) -> bool {
        true
    }
    fn deo_admits(_: Self, _: CpuView, _: u8, _: Self, _: CpuView) -> bool {
        true
    }
    fn dei_admits(_: Self, _: CpuView, _: u8, _: Self, _: CpuView) -> bool {
        true
    }
    fn deo(&mut self, _: &mut Cpu, _: u8) {}
    fn dei(&mut self, _: &mut Cpu, _: u8) {}
}

fn rom_from(rom: &[u8]) -> Vec<u8> {
    let mut res = vec![0_u8; 0x10000 - 0x100];
    res[0..rom.len()].copy_from_slice(rom);
    res
}

#[test]
fn test_debug_dump_single_byte() {
    // one 0xab stays on the stack; the second is consumed by the DEO
    let rom = [0x80, 0xab, 0x80, 0xab, 0x80, 0x02, 0x17, 0x00];
    let mut cpu = Cpu::new(&rom);
    let mut vm = Vm::new();

    let output = vm.on_reset(&mut cpu);

    assert_eq!(output.sys_stdout, "WRK: [ab]\nRET: []".to_string());
    // the debug port was cleared back to zero by the write
    assert_eq!(cpu.device_page::<SystemPorts>()[0x02], 0x00);
    // the buffer was flushed
    assert_eq!(vm.output().sys_stdout, "".to_string());
}

#[test]
fn test_debug_zero_byte_does_not_trigger() {
    let rom = [PUSH, 0x00, PUSH, 0x02, DEO, BRK];
    let mut cpu = Cpu::new(&rom);
    let mut vm = Vm::new();

    let output = vm.on_reset(&mut cpu);

    assert_eq!(output.sys_stdout, "".to_string());
}

#[test]
fn test_pixel_put_leaves_rest_zero() {
    let rom = [
        PUSH, 0x01, PUSH, 0x12, DEO, PUSH, 0x01, PUSH, 0x13, DEO, PUSH, 0x08, PUSH, 0x14, DEO, BRK,
    ];
    let mut cpu = Cpu::new(&rom);
    let mut vm = Vm::new();

    let _ = vm.on_reset(&mut cpu);
    let buffer = vm.pixels();

    let lit = 0x01 * SCREEN_WIDTH as usize + 0x01;
    for i in 0..VIDEO_BUFFER_LEN {
        if i == lit {
            assert_eq!(buffer[i], 0x08);
        } else {
            assert_eq!(buffer[i], 0x00);
        }
    }
}

#[test]
fn test_pixel_put_clamps_coordinates() {
    // x = 0xff and y = 0xff are clamped to the bottom-right corner
    let rom = [
        PUSH, 0xff, PUSH, 0x12, DEO, PUSH, 0xff, PUSH, 0x13, DEO, PUSH, 0x07, PUSH, 0x14, DEO, BRK,
    ];
    let mut cpu = Cpu::new(&rom);
    let mut vm = Vm::new();

    let _ = vm.on_reset(&mut cpu);
    let buffer = vm.pixels();

    assert_eq!(buffer[VIDEO_BUFFER_LEN - 1], 0x07);
}

#[test]
fn test_composite_foreground_wins() {
    // background color 2 at (0,0), then foreground color 5 at (0,0)
    let rom = [
        PUSH,
        0x02,
        PUSH,
        0x14,
        DEO,
        PUSH,
        0b0001_0101,
        PUSH,
        0x14,
        DEO,
        BRK,
    ];
    let mut cpu = Cpu::new(&rom);
    let mut vm = Vm::new();

    let _ = vm.on_reset(&mut cpu);
    let buffer = vm.pixels();

    assert_eq!(buffer[0], 0x05);
}

#[test]
fn test_div_byte_exact() {
    let rom = rom_from(&[PUSH, 0x07, PUSH, 0x02, 0x1b, BRK]);
    let mut cpu = Cpu::new(&rom);

    let _ = cpu.run(0x100, &mut AnyMachine {});

    assert_eq!(cpu.stack().len(), 1);
    assert_eq!(cpu.stack().byte_at(0), 0x03);
}

#[test]
fn test_div_by_zero_yields_zero() {
    let rom = rom_from(&[PUSH, 0x05, PUSH, 0x00, DIV, BRK]);
    let mut cpu = Cpu::new(&rom);

    let _ = cpu.run(0x100, &mut AnyMachine {});

    assert_eq!(cpu.stack().len(), 1);
    assert_eq!(cpu.stack().byte_at(0), 0x00);
}

#[test]
fn test_div2_by_zero_yields_zero() {
    let rom = rom_from(&[PUSH2, 0xab, 0xcd, PUSH2, 0x00, 0x00, DIV2, BRK]);
    let mut cpu = Cpu::new(&rom);

    let _ = cpu.run(0x100, &mut AnyMachine {});

    assert_eq!(cpu.stack().len(), 2);
    assert_eq!(cpu.stack().short_at(0), 0x0000);
}

#[test]
fn test_inc_at_ram_end_wraps() {
    let mut rom = vec![0_u8; 0x10000 - 0x100];
    let len = rom.len();
    rom[len - 1] = 0x01; // INC at address 0xffff
    let mut cpu = Cpu::new(&rom);

    let pc = cpu.run(0xffff, &mut AnyMachine {});

    // the PC wrapped to 0x0000, hit BRK at 0x0000, and stopped at 0x0001
    assert_eq!(pc, 0x0001);
    // INC popped an unset (zero) byte and pushed its increment; the ring
    // cursor is back at its starting slot, so the reported depth is zero
    assert_eq!(cpu.stack().len(), 0);
    assert_eq!(cpu.stack().byte_at(0xff), 0x01);
}

#[test]
fn test_sprite_hollow_box() {
    let rom = [
        PUSH2, 0x01, 0x0c, PUSH, 0x18, DEO2, PUSH, 0x00, PUSH, 0x1a, DEO, BRK, 0x11, 0x11, 0x11,
        0x11, 0x10, 0x00, 0x00, 0x01, 0x10, 0x00, 0x00, 0x01, 0x10, 0x00, 0x00, 0x01, 0x10, 0x00,
        0x00, 0x01, 0x10, 0x00, 0x00, 0x01, 0x10, 0x00, 0x00, 0x01, 0x11, 0x11, 0x11, 0x11,
    ];
    let mut cpu = Cpu::new(&rom);
    let mut vm = Vm::new();

    let _ = vm.on_reset(&mut cpu);
    let buffer = vm.pixels();

    let w = SCREEN_WIDTH as usize;
    // top and bottom rows are solid
    assert_eq!(buffer[0..8], [0x01; 8]);
    assert_eq!(buffer[7 * w..7 * w + 8], [0x01; 8]);
    // middle rows only keep their edges
    for row in 1..7 {
        assert_eq!(buffer[row * w], 0x01);
        assert_eq!(buffer[row * w + 1..row * w + 7], [0x00; 6]);
        assert_eq!(buffer[row * w + 7], 0x01);
    }
    // nothing beyond the tile
    assert_eq!(buffer[8], 0x00);
}

#[test]
fn test_inc_keep_mode() {
    // 0x81 is INC with the KEEP flag: the operand stays on the stack
    let rom = rom_from(&[PUSH, 0x05, 0x81, BRK]);
    let mut cpu = Cpu::new(&rom);

    let _ = cpu.run(0x100, &mut AnyMachine {});

    assert_eq!(cpu.stack().len(), 2);
    assert_eq!(cpu.stack().byte_at(0), 0x05);
    assert_eq!(cpu.stack().byte_at(1), 0x06);
}

#[test]
fn test_add_keep_mode() {
    // 0x98 is ADD with the KEEP flag: both operands stay on the stack
    let rom = rom_from(&[PUSH, 0x02, PUSH, 0x03, 0x98, BRK]);
    let mut cpu = Cpu::new(&rom);

    let _ = cpu.run(0x100, &mut AnyMachine {});

    assert_eq!(cpu.stack().len(), 3);
    assert_eq!(cpu.stack().byte_at(0), 0x02);
    assert_eq!(cpu.stack().byte_at(1), 0x03);
    assert_eq!(cpu.stack().byte_at(2), 0x05);
}

#[test]
fn test_push_return_mode() {
    // 0xc0 is PUSH with the RETURN flag: the literal goes to the return stack
    let rom = rom_from(&[0xc0, 0x07, BRK]);
    let mut cpu = Cpu::new(&rom);

    let _ = cpu.run(0x100, &mut AnyMachine {});

    assert_eq!(cpu.stack().len(), 0);
    assert_eq!(cpu.ret_stack().len(), 1);
    assert_eq!(cpu.ret_stack().byte_at(0), 0x07);
}

#[test]
fn test_dei_short_mode() {
    // 0x36 is DEI with the SHORT flag: two consecutive ports, big-endian
    let rom = rom_from(&[PUSH, 0x10, 0x36, BRK]);
    let mut cpu = Cpu::new(&rom);
    cpu.device_poke::<VideoPorts>(0x00, 0xab);
    cpu.device_poke::<VideoPorts>(0x01, 0xcd);

    let _ = cpu.run(0x100, &mut AnyMachine {});

    assert_eq!(cpu.stack().len(), 2);
    assert_eq!(cpu.stack().short_at(0), 0xabcd);
}

#[test]
fn test_unknown_opcode_is_noop() {
    let rom = rom_from(&[0x02, PUSH, 0x01, BRK]);
    let mut cpu = Cpu::new(&rom);

    let pc = cpu.run(0x100, &mut AnyMachine {});

    assert_eq!(pc, 0x104);
    assert_eq!(cpu.stack().len(), 1);
    assert_eq!(cpu.stack().byte_at(0), 0x01);
}

#[test]
fn test_jmp_negative_offset() {
    // 0xfc is -4 as a signed byte: the jump lands before the run start
    let rom = rom_from(&[BRK, BRK, BRK, PUSH, 0xfc, JMP]);
    let mut cpu = Cpu::new(&rom);

    let pc = cpu.run(0x103, &mut AnyMachine {});

    assert_eq!(pc, 0x103);
}

#[test]
fn test_on_video_runs_default_vector() {
    // BRK at the reset address; a program at 0x200, the default frame vector
    let mut rom = vec![0_u8; 0x200];
    rom[0x100] = PUSH;
    rom[0x101] = 0xaa;
    rom[0x102] = BRK;
    let mut cpu = Cpu::new(&rom);
    let mut vm = Vm::new();

    let _ = vm.on_reset(&mut cpu);
    let _ = vm.on_video(&mut cpu);

    assert_eq!(cpu.pc(), 0x203);
    assert_eq!(cpu.stack().len(), 1);
    assert_eq!(cpu.stack().byte_at(0), 0xaa);
}

#[test]
fn test_on_video_runs_installed_vector() {
    // the reset program installs 0x0300 as the frame vector
    let mut rom = vec![0_u8; 0x300];
    let prog = [PUSH2, 0x03, 0x00, PUSH, 0x10, DEO2, BRK];
    rom[0..prog.len()].copy_from_slice(&prog);
    rom[0x200] = PUSH;
    rom[0x201] = 0xbb;
    rom[0x202] = BRK;
    let mut cpu = Cpu::new(&rom);
    let mut vm = Vm::new();

    let _ = vm.on_reset(&mut cpu);
    let _ = vm.on_video(&mut cpu);

    assert_eq!(cpu.pc(), 0x303);
    assert_eq!(cpu.stack().len(), 1);
    assert_eq!(cpu.stack().byte_at(0), 0xbb);
}

#[test]
fn test_stack_dump_text() {
    let mut stack = Stack::new();
    assert_eq!(stack.dump(), "".to_string());

    stack.push_byte(0xab);
    stack.push_byte(0xcd);
    assert_eq!(stack.dump(), "ab cd".to_string());

    for i in 1..=10 {
        stack.push_byte(i);
    }
    // only the last eight bytes are shown
    assert_eq!(stack.dump(), "03 04 05 06 07 08 09 0a".to_string());
}

#[test]
fn test_stack_ring_semantics() {
    let mut stack = Stack::new();
    // popping an empty stack wraps the cursor and reads an unset (zero) slot
    assert_eq!(stack.pop_byte(), 0x00);
    assert_eq!(stack.len(), 255);

    let mut stack2 = Stack::new();
    stack2.push_short(0xabcd);
    assert_eq!(stack2.len(), 2);
    assert_eq!(stack2.pop_short(), 0xabcd);
    assert_eq!(stack2.len(), 0);
}

#[test]
fn test_ram_short_round_trip_wraps() {
    let rom = [BRK];
    let mut cpu = Cpu::new(&rom);

    cpu.ram_poke_short(0x1234, 0xbeef);
    assert_eq!(cpu.ram_peek_short(0x1234), 0xbeef);

    // the second byte of a short at 0xffff wraps to 0x0000
    cpu.ram_poke_short(0xffff, 0xcafe);
    assert_eq!(cpu.ram_peek_short(0xffff), 0xcafe);
    assert_eq!(cpu.ram_peek_byte(0xffff), 0xca);
    assert_eq!(cpu.ram_peek_byte(0x0000), 0xfe);
}

#[test]
fn test_add_wraps_modulo_256() {
    let rom = rom_from(&[PUSH, 0xff, PUSH, 0x03, ADD, BRK]);
    let mut cpu = Cpu::new(&rom);

    let _ = cpu.run(0x100, &mut AnyMachine {});

    assert_eq!(cpu.stack().len(), 1);
    assert_eq!(cpu.stack().byte_at(0), 0x02);
}
