use coco::cpu::{Cpu, CpuView, Machine};
use coco::opcodes::{
    ADD, ADD2, BRK, DEI, DEO, DEO2, DIV, DIV2, DUP, DUP2, EQU, EQU2, INC, JMP, JMP2, JNZ, JNZ2,
    LDZ, LDZ2, MUL, MUL2, PUSH, PUSH2, STZ, STZ2, SUB, SUB2,
};
use coco::system::SystemPorts;
use coco::video::VideoPorts;

pub struct AnyMachine {}

impl Machine for AnyMachine {
    fn inv(&self) -> bool {
        true
    }
    fn deo_admits(_: Self, _: CpuView, _: u8, _: Self, _: CpuView) -> bool {
        true
    }
    fn dei_admits(_: Self, _: CpuView, _: u8, _: Self, _: CpuView) -> bool {
        true
    }
    fn deo(&mut self, _: &mut Cpu, _: u8) {}
    fn dei(&mut self, _: &mut Cpu, _: u8) {}
}

fn zeroed_memory() -> Vec<u8> {
    vec![0_u8; 0x10000 - 0x100]
}

fn rom_from(rom: &[u8]) -> Vec<u8> {
    let mut res = vec![0_u8; 0x10000 - 0x100];
    res[0..rom.len()].copy_from_slice(rom);
    res
}

#[test]
fn creates_cpu() {
    let memory = zeroed_memory();
    let cpu = Cpu::new(&memory);

    assert_eq!(cpu.pc(), 0);
}

#[test]
pub fn runs_until_break() {
    let rom = rom_from(&[0x01, 0x01, BRK]);
    let mut cpu = Cpu::new(&rom);

    let pc = cpu.run(0x100, &mut AnyMachine {});

    assert_eq!(pc, 0x103);
    assert_eq!(pc, cpu.pc());
}

#[test]
fn run_wraps_pc_at_the_end_of_ram() {
    let mut rom = zeroed_memory();
    let len = rom.len();
    rom[len - 1] = 0x01;
    let mut cpu = Cpu::new(&rom);

    let pc = cpu.run(0xffff, &mut AnyMachine {});

    assert_eq!(pc, 0x01);
    assert_eq!(pc, cpu.pc());
}

#[test]
fn inc_opcode() {
    let rom = rom_from(&[PUSH, 0xff, INC, BRK]);
    let mut cpu = Cpu::new(&rom);

    let pc = cpu.run(0x100, &mut AnyMachine {});

    assert_eq!(pc, 0x104);
    assert_eq!(cpu.stack().len(), 1);
    assert_eq!(cpu.stack().byte_at(0), 0x00);
}

#[test]
fn dup_opcode() {
    let rom = rom_from(&[PUSH, 0xab, DUP, BRK]);
    let mut cpu = Cpu::new(&rom);

    let pc = cpu.run(0x100, &mut AnyMachine {});

    assert_eq!(pc, 0x104);
    assert_eq!(cpu.stack().len(), 2);
    assert_eq!(cpu.stack().byte_at(0), 0xab);
    assert_eq!(cpu.stack().byte_at(1), 0xab);
}

#[test]
fn dup2_opcode() {
    let rom = rom_from(&[PUSH2, 0xab, 0xcb, DUP2, BRK]);
    let mut cpu = Cpu::new(&rom);

    let pc = cpu.run(0x100, &mut AnyMachine {});

    assert_eq!(pc, 0x105);
    assert_eq!(cpu.stack().len(), 4);
    assert_eq!(cpu.stack().short_at(0), 0xabcb);
    assert_eq!(cpu.stack().short_at(2), 0xabcb);
}

#[test]
fn push_opcode() {
    let rom = rom_from(&[PUSH, 0xab, BRK]);
    let mut cpu = Cpu::new(&rom);

    let pc = cpu.run(0x100, &mut AnyMachine {});

    assert_eq!(pc, 0x103);
    assert_eq!(cpu.stack().len(), 1);
    assert_eq!(cpu.stack().byte_at(0), 0xab);
}

#[test]
fn push2_opcode() {
    let rom = rom_from(&[PUSH2, 0xab, 0xcd, BRK]);
    let mut cpu = Cpu::new(&rom);

    let pc = cpu.run(0x100, &mut AnyMachine {});

    assert_eq!(pc, 0x104);
    assert_eq!(cpu.stack().len(), 2);
    assert_eq!(cpu.stack().short_at(0), 0xabcd);
}

#[test]
fn dei_opcode() {
    let rom = rom_from(&[PUSH, 0x10, DEI, BRK]);
    let mut cpu = Cpu::new(&rom);
    cpu.device_poke::<VideoPorts>(0x00, 0xab);

    let pc = cpu.run(0x100, &mut AnyMachine {});

    assert_eq!(pc, 0x104);
    assert_eq!(cpu.stack().len(), 1);
    assert_eq!(cpu.stack().byte_at(0), 0xab);
}

#[test]
fn deo_opcode() {
    let rom = rom_from(&[PUSH, 0xab, PUSH, 0x02, DEO, BRK]);
    let mut cpu = Cpu::new(&rom);

    let pc = cpu.run(0x100, &mut AnyMachine {});

    assert_eq!(pc, 0x106);
    assert_eq!(cpu.stack().len(), 0);
    assert_eq!(cpu.device_page::<SystemPorts>()[0x02], 0xab);
}

#[test]
fn deo2_opcode() {
    let rom = rom_from(&[PUSH2, 0xab, 0xcd, PUSH, 0x00, DEO2, BRK]);
    let mut cpu = Cpu::new(&rom);

    let pc = cpu.run(0x100, &mut AnyMachine {});

    assert_eq!(pc, 0x107);
    assert_eq!(cpu.stack().len(), 0);
    assert_eq!(cpu.device_page::<SystemPorts>()[0x00], 0xab);
    assert_eq!(cpu.device_page::<SystemPorts>()[0x01], 0xcd);
}

#[test]
fn add_opcode() {
    let rom = rom_from(&[PUSH, 0xab, PUSH, 0x02, ADD, BRK]);
    let mut cpu = Cpu::new(&rom);

    let pc = cpu.run(0x100, &mut AnyMachine {});

    assert_eq!(pc, 0x106);
    assert_eq!(cpu.stack().len(), 1);
    assert_eq!(cpu.stack().byte_at(0), 0xad);
}

#[test]
fn add2_opcode() {
    let rom = rom_from(&[PUSH2, 0xab, 0xcd, PUSH2, 0x11, 0x11, ADD2, BRK]);
    let mut cpu = Cpu::new(&rom);

    let pc = cpu.run(0x100, &mut AnyMachine {});

    assert_eq!(pc, 0x108);
    assert_eq!(cpu.stack().len(), 2);
    assert_eq!(cpu.stack().short_at(0), 0xbcde);
}

#[test]
fn sub_opcode() {
    let rom = rom_from(&[PUSH, 0xab, PUSH, 0x02, SUB, BRK]);
    let mut cpu = Cpu::new(&rom);

    let pc = cpu.run(0x100, &mut AnyMachine {});

    assert_eq!(pc, 0x106);
    assert_eq!(cpu.stack().len(), 1);
    assert_eq!(cpu.stack().byte_at(0), 0xa9);
}

#[test]
fn sub2_opcode() {
    let rom = rom_from(&[PUSH2, 0xab, 0xcd, PUSH2, 0x11, 0x11, SUB2, BRK]);
    let mut cpu = Cpu::new(&rom);

    let pc = cpu.run(0x100, &mut AnyMachine {});

    assert_eq!(pc, 0x108);
    assert_eq!(cpu.stack().len(), 2);
    assert_eq!(cpu.stack().short_at(0), 0x9abc);
}

#[test]
fn mul_opcode() {
    let rom = rom_from(&[PUSH, 0x03, PUSH, 0x02, MUL, BRK]);
    let mut cpu = Cpu::new(&rom);

    let pc = cpu.run(0x100, &mut AnyMachine {});

    assert_eq!(pc, 0x106);
    assert_eq!(cpu.stack().len(), 1);
    assert_eq!(cpu.stack().byte_at(0), 0x06);
}

#[test]
fn mul2_opcode() {
    let rom = rom_from(&[PUSH2, 0x11, 0x11, PUSH2, 0x00, 0x02, MUL2, BRK]);
    let mut cpu = Cpu::new(&rom);

    let pc = cpu.run(0x100, &mut AnyMachine {});

    assert_eq!(pc, 0x108);
    assert_eq!(cpu.stack().len(), 2);
    assert_eq!(cpu.stack().short_at(0), 0x2222);
}

#[test]
fn div_opcode() {
    let rom = rom_from(&[PUSH, 0x07, PUSH, 0x02, DIV, BRK]);
    let mut cpu = Cpu::new(&rom);

    let pc = cpu.run(0x100, &mut AnyMachine {});

    assert_eq!(pc, 0x106);
    assert_eq!(cpu.stack().len(), 1);
    assert_eq!(cpu.stack().byte_at(0), 0x03);
}

#[test]
fn div2_opcode() {
    let rom = rom_from(&[PUSH2, 0x66, 0x66, PUSH2, 0x22, 0x22, DIV2, BRK]);
    let mut cpu = Cpu::new(&rom);

    let pc = cpu.run(0x100, &mut AnyMachine {});

    assert_eq!(pc, 0x108);
    assert_eq!(cpu.stack().len(), 2);
    assert_eq!(cpu.stack().short_at(0), 0x03);
}

#[test]
fn jmp_opcode() {
    let rom = rom_from(&[PUSH, 0x01, JMP, BRK, BRK]);
    let mut cpu = Cpu::new(&rom);

    let pc = cpu.run(0x100, &mut AnyMachine {});

    assert_eq!(pc, 0x105);
    assert_eq!(cpu.stack().len(), 0);
}

#[test]
fn jmp2_opcode() {
    let rom = rom_from(&[BRK, PUSH2, 0x01, 0x00, JMP2, BRK]);
    let mut cpu = Cpu::new(&rom);

    let pc = cpu.run(0x101, &mut AnyMachine {});

    assert_eq!(pc, 0x101);
    assert_eq!(cpu.stack().len(), 0);
}

#[test]
fn jnz_opcode() {
    let rom = rom_from(&[PUSH2, 0x01, 0x01, JNZ, BRK, PUSH2, 0x00, 0x01, JNZ, BRK]);
    let mut cpu = Cpu::new(&rom);

    let pc = cpu.run(0x100, &mut AnyMachine {});

    assert_eq!(pc, 0x10a);
    assert_eq!(cpu.stack().len(), 0);
}

#[test]
fn jnz2_opcode() {
    let rom = rom_from(&[
        PUSH, 0x01, PUSH2, 0x01, 0x07, JNZ2, BRK, PUSH, 0x00, PUSH2, 0x01, 0x00, JNZ2, BRK,
    ]);
    let mut cpu = Cpu::new(&rom);

    let pc = cpu.run(0x100, &mut AnyMachine {});

    assert_eq!(pc, 0x10e);
    assert_eq!(cpu.stack().len(), 0);
}

#[test]
fn ldz_opcode() {
    let rom = rom_from(&[PUSH, 0x01, LDZ, BRK]);
    let mut cpu = Cpu::new(&rom);
    cpu.ram_poke_byte(0x01, 0xab);

    let pc = cpu.run(0x100, &mut AnyMachine {});

    assert_eq!(pc, 0x104);
    assert_eq!(cpu.stack().len(), 1);
    assert_eq!(cpu.stack().byte_at(0), 0xab);
}

#[test]
fn ldz2_opcode() {
    let rom = rom_from(&[PUSH, 0x01, LDZ2, BRK]);
    let mut cpu = Cpu::new(&rom);
    cpu.ram_poke_byte(0x01, 0xab);
    cpu.ram_poke_byte(0x02, 0xcd);

    let pc = cpu.run(0x100, &mut AnyMachine {});

    assert_eq!(pc, 0x104);
    assert_eq!(cpu.stack().len(), 2);
    assert_eq!(cpu.stack().short_at(0), 0xabcd);
}

#[test]
fn stz_opcode() {
    let rom = rom_from(&[PUSH, 0xab, PUSH, 0x01, STZ, BRK]);
    let mut cpu = Cpu::new(&rom);

    let pc = cpu.run(0x100, &mut AnyMachine {});

    assert_eq!(pc, 0x106);
    assert_eq!(cpu.stack().len(), 0);
    assert_eq!(cpu.ram_peek_byte(0x01), 0xab);
}

#[test]
fn stz2_opcode() {
    let rom = rom_from(&[PUSH2, 0xab, 0xcd, PUSH, 0x01, STZ2, BRK]);
    let mut cpu = Cpu::new(&rom);

    let pc = cpu.run(0x100, &mut AnyMachine {});

    assert_eq!(pc, 0x107);
    assert_eq!(cpu.stack().len(), 0);
    assert_eq!(cpu.ram_peek_short(0x01), 0xabcd);
}

#[test]
fn equ_opcode() {
    let rom = rom_from(&[PUSH, 0xab, PUSH, 0xab, EQU, PUSH, 0x00, EQU, BRK]);
    let mut cpu = Cpu::new(&rom);

    let pc = cpu.run(0x100, &mut AnyMachine {});

    assert_eq!(pc, 0x109);
    assert_eq!(cpu.stack().len(), 1);
    assert_eq!(cpu.stack().byte_at(0), 0x00);
}

#[test]
fn equ2_opcode() {
    let rom = rom_from(&[PUSH2, 0xab, 0xcd, PUSH2, 0xab, 0xcd, EQU2, BRK]);
    let mut cpu = Cpu::new(&rom);

    let pc = cpu.run(0x100, &mut AnyMachine {});

    assert_eq!(pc, 0x108);
    assert_eq!(cpu.stack().len(), 1);
    assert_eq!(cpu.stack().byte_at(0), 0x01);
}
