use cpu_emulator::machine::{decode, Instruction, CPU};
use cpu_emulator::semantics::{Fault, StepOutcome};

fn put(cpu: &mut CPU, addr: usize, word: u16) {
    cpu.memory[addr] = (word >> 8) as u8;
    cpu.memory[addr + 1] = (word & 0xFF) as u8;
}

#[test]
fn subroutine_called_twice_adds_four_times() {
    let mut cpu = CPU::new();
    cpu.registers[0] = 5;
    cpu.registers[1] = 10;
    let mem = &mut cpu.memory;
    mem[0] = 0x21;
    mem[1] = 0x00;
    mem[2] = 0x21;
    mem[3] = 0x00;
    mem[4] = 0x00;
    mem[5] = 0x00;
    mem[0x100] = 0x80;
    mem[0x101] = 0x14;
    mem[0x102] = 0x80;
    mem[0x103] = 0x14;
    mem[0x104] = 0x00;
    mem[0x105] = 0xEE;
    assert_eq!(cpu.run(), Ok(()));
    assert_eq!(cpu.registers[0], 45);
    assert_eq!(cpu.stack_pointer, 0);
    assert_eq!(cpu.position_in_memory, 6);
}

#[test]
fn three_additions_in_a_row() {
    let image = [0x80u8, 0x14, 0x80, 0x24, 0x80, 0x34, 0x00, 0x00];
    let mut cpu = CPU::from_image(&image);
    cpu.registers[0] = 5;
    cpu.registers[1] = 10;
    cpu.registers[2] = 10;
    cpu.registers[3] = 10;
    assert_eq!(cpu.run(), Ok(()));
    assert_eq!(cpu.registers[0], 35);
    assert_eq!(cpu.registers[0xF], 0);
}

#[test]
fn add_overflow_wraps_and_sets_flag() {
    let mut cpu = CPU::from_image(&[0x80, 0x14, 0x00, 0x00]);
    cpu.registers[0] = 255;
    cpu.registers[1] = 1;
    assert_eq!(cpu.run(), Ok(()));
    assert_eq!(cpu.registers[0], 0);
    assert_eq!(cpu.registers[0xF], 1);
}

#[test]
fn add_without_overflow_clears_stale_flag() {
    let mut cpu = CPU::new();
    cpu.registers[2] = 100;
    cpu.registers[3] = 155;
    cpu.registers[0xF] = 1;
    cpu.add_xy(2, 3);
    assert_eq!(cpu.registers[2], 255);
    assert_eq!(cpu.registers[0xF], 0);
}

#[test]
fn add_every_pair_of_bytes() {
    for a in 0..=255u16 {
        for b in [0u16, 1, 2, 127, 128, 200, 254, 255] {
            let mut cpu = CPU::new();
            cpu.registers[4] = a as u8;
            cpu.registers[7] = b as u8;
            cpu.add_xy(4, 7);
            assert_eq!(cpu.registers[4] as u16, (a + b) % 256);
            assert_eq!(cpu.registers[0xF], if a + b > 255 { 1 } else { 0 });
            assert_eq!(cpu.registers[7], b as u8);
        }
    }
}

#[test]
fn add_into_flag_register_keeps_flag() {
    let mut cpu = CPU::new();
    cpu.registers[0xF] = 200;
    cpu.registers[1] = 100;
    cpu.add_xy(0xF, 1);
    assert_eq!(cpu.registers[0xF], 1);
}

#[test]
fn halt_first_leaves_registers_unchanged() {
    let mut cpu = CPU::new();
    for i in 0..16 {
        cpu.registers[i] = (i * 7) as u8;
    }
    put(&mut cpu, 0x200, 0x8014);
    let before = cpu.registers;
    assert_eq!(cpu.run(), Ok(()));
    assert_eq!(cpu.registers, before);
    assert_eq!(cpu.position_in_memory, 2);
}

#[test]
fn call_then_ret_resumes_after_call() {
    let mut cpu = CPU::new();
    cpu.position_in_memory = 0x010;
    put(&mut cpu, 0x010, 0x2300);
    put(&mut cpu, 0x300, 0x00EE);
    assert_eq!(cpu.step(), Ok(StepOutcome::Continue));
    assert_eq!(cpu.position_in_memory, 0x300);
    assert_eq!(cpu.stack_pointer, 1);
    assert_eq!(cpu.stack[0], 0x012);
    assert_eq!(cpu.step(), Ok(StepOutcome::Continue));
    assert_eq!(cpu.position_in_memory, 0x012);
    assert_eq!(cpu.stack_pointer, 0);
    assert_eq!(cpu.step(), Ok(StepOutcome::Halted));
}

#[test]
fn seventeenth_nested_call_overflows() {
    let mut cpu = CPU::new();
    for k in 0..17usize {
        put(&mut cpu, 2 * k, 0x2000 | (2 * k as u16 + 2));
    }
    assert_eq!(cpu.run(), Err(Fault::StackOverflow(34)));
    assert_eq!(cpu.stack_pointer, 16);
    assert_eq!(cpu.position_in_memory, 32);
    for k in 0..16usize {
        assert_eq!(cpu.stack[k], 2 * k as u16 + 2);
    }
}

#[test]
fn ret_on_empty_stack_underflows() {
    let mut cpu = CPU::from_image(&[0x00, 0xEE]);
    assert_eq!(cpu.run(), Err(Fault::StackUnderflow));
    assert_eq!(cpu.position_in_memory, 0);
    let mut bare = CPU::new();
    assert_eq!(bare.ret(), Err(Fault::StackUnderflow));
}

#[test]
fn call_on_full_stack_changes_nothing() {
    let mut cpu = CPU::new();
    cpu.stack_pointer = 16;
    cpu.position_in_memory = 0x40;
    assert_eq!(cpu.call(0x123), Err(Fault::StackOverflow(0x123)));
    assert_eq!(cpu.position_in_memory, 0x40);
    assert_eq!(cpu.stack_pointer, 16);
}

#[test]
fn unimplemented_opcode_is_fatal() {
    let mut cpu = CPU::new();
    cpu.registers[0] = 9;
    put(&mut cpu, 0, 0x8014);
    put(&mut cpu, 2, 0xFFFF);
    cpu.registers[1] = 1;
    assert_eq!(cpu.run(), Err(Fault::UnimplementedOpcode(0xFFFF)));
    assert_eq!(cpu.position_in_memory, 2);
    assert_eq!(cpu.registers[0], 10);
    assert_eq!(cpu.run(), Err(Fault::UnimplementedOpcode(0xFFFF)));
    assert_eq!(cpu.position_in_memory, 2);
    assert_eq!(cpu.registers[0], 10);
}

#[test]
fn arithmetic_family_with_other_discriminator_is_unimplemented() {
    let mut cpu = CPU::from_image(&[0x80, 0x15]);
    assert_eq!(cpu.step(), Err(Fault::UnimplementedOpcode(0x8015)));
    assert_eq!(cpu.position_in_memory, 0);
}

#[test]
fn fetch_past_end_is_out_of_bounds() {
    let mut cpu = CPU::new();
    cpu.position_in_memory = 4095;
    assert_eq!(cpu.read_opcode(), Err(Fault::OutOfBounds(4095)));
    assert_eq!(cpu.run(), Err(Fault::OutOfBounds(4095)));
    cpu.position_in_memory = 4094;
    cpu.memory[4094] = 0xAB;
    cpu.memory[4095] = 0xCD;
    assert_eq!(cpu.read_opcode(), Ok(0xABCD));
}

#[test]
fn additions_running_off_the_end_fault() {
    let mut cpu = CPU::new();
    for addr in (0..4096usize).step_by(2) {
        put(&mut cpu, addr, 0x8004);
    }
    assert_eq!(cpu.run(), Err(Fault::OutOfBounds(4096)));
    assert_eq!(cpu.position_in_memory, 4096);
}

#[test]
fn decode_splits_nibbles() {
    assert_eq!(
        decode(0x8A34),
        Instruction { c: 0x8, x: 0xA, y: 0x3, d: 0x4, addr: 0xA34 }
    );
    assert_eq!(decode(0x0000), Instruction { c: 0, x: 0, y: 0, d: 0, addr: 0 });
    assert_eq!(
        decode(0xFFFF),
        Instruction { c: 0xF, x: 0xF, y: 0xF, d: 0xF, addr: 0xFFF }
    );
}

#[test]
fn from_image_loads_prefix_and_zeroes_rest() {
    let cpu = CPU::from_image(&[1, 2, 3]);
    assert_eq!(cpu.memory[0], 1);
    assert_eq!(cpu.memory[2], 3);
    assert_eq!(cpu.memory[3], 0);
    assert_eq!(cpu.memory[4095], 0);
    let full = vec![0x5Au8; 4096];
    let cpu = CPU::from_image(&full);
    assert_eq!(cpu.memory[4095], 0x5A);
}
