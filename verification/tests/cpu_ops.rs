use chip8::cpu::Cpu;
use chip8::cpu::StepResult;
use chip8::display_module::DisplayModule;
use chip8::keyboard_module::KeyboardModule;
use chip8::memory::Memory;
use chip8::timer_module::TimerModule;

fn machine(rom: &[u8]) -> (Cpu, Memory, DisplayModule, TimerModule, KeyboardModule) {
    let mut memory = Memory::new();
    memory.load(&rom.to_vec());
    (
        Cpu::new(),
        memory,
        DisplayModule::new(64, 32),
        TimerModule::new(),
        KeyboardModule::new(),
    )
}

fn run(
    steps: usize,
    cpu: &mut Cpu,
    mem: &mut Memory,
    disp: &mut DisplayModule,
    tim: &mut TimerModule,
    key: &mut KeyboardModule,
) -> StepResult {
    let mut last = StepResult::Executed;
    for _ in 0..steps {
        last = cpu.execute_instruction(mem, disp, tim, key);
    }
    last
}

#[test]
fn scenario_load_add() {
    // LD V0,0x0A; LD V1,0x05; ADD V0,V1 - after three ticks V0 = 0x0F,
    // VF = 0, PC = 0x206.
    let (mut cpu, mut mem, mut disp, mut tim, mut key) =
        machine(&[0x60, 0x0A, 0x61, 0x05, 0x80, 0x14]);
    let r = run(3, &mut cpu, &mut mem, &mut disp, &mut tim, &mut key);
    assert_eq!(r, StepResult::Executed);
    assert_eq!(cpu.reg[0], 0x0F);
    assert_eq!(cpu.reg[0xF], 0);
    assert_eq!(cpu.pc, 0x206);
}

#[test]
fn add_imm_wraps_and_never_sets_vf() {
    // LD V0,0xF0; ADD V0,0x20 wraps to 0x10 and VF stays 0.
    let (mut cpu, mut mem, mut disp, mut tim, mut key) = machine(&[0x60, 0xF0, 0x70, 0x20]);
    run(2, &mut cpu, &mut mem, &mut disp, &mut tim, &mut key);
    assert_eq!(cpu.reg[0], 0x10);
    assert_eq!(cpu.reg[0xF], 0);
}

#[test]
fn add_reg_sets_carry_exactly_on_overflow() {
    // 200 + 100 = 300: V0 = 300 mod 256 = 44, VF = 1.
    let (mut cpu, mut mem, mut disp, mut tim, mut key) =
        machine(&[0x60, 0xC8, 0x61, 0x64, 0x80, 0x14]);
    run(3, &mut cpu, &mut mem, &mut disp, &mut tim, &mut key);
    assert_eq!(cpu.reg[0], 44);
    assert_eq!(cpu.reg[0xF], 1);
}

#[test]
fn add_reg_clears_carry_without_overflow() {
    // VF starts dirty from a prior overflow, then 1 + 2 must clear it.
    let rom = [
        0x60, 0xC8, 0x61, 0x64, 0x80, 0x14, // V0=200, V1=100, ADD -> VF=1
        0x60, 0x01, 0x61, 0x02, 0x80, 0x14, // V0=1, V1=2, ADD -> VF=0
    ];
    let (mut cpu, mut mem, mut disp, mut tim, mut key) = machine(&rom);
    run(6, &mut cpu, &mut mem, &mut disp, &mut tim, &mut key);
    assert_eq!(cpu.reg[0], 3);
    assert_eq!(cpu.reg[0xF], 0);
}

#[test]
fn sub_sets_vf_iff_vx_greater() {
    // V0=10, V1=5: SUB -> V0=5, VF=1.
    let (mut cpu, mut mem, mut disp, mut tim, mut key) =
        machine(&[0x60, 0x0A, 0x61, 0x05, 0x80, 0x15]);
    run(3, &mut cpu, &mut mem, &mut disp, &mut tim, &mut key);
    assert_eq!(cpu.reg[0], 5);
    assert_eq!(cpu.reg[0xF], 1);
}

#[test]
fn sub_wraps_and_clears_vf_when_not_greater() {
    // V0=5, V1=10: SUB -> V0 = 251 (wrapping), VF=0.
    let (mut cpu, mut mem, mut disp, mut tim, mut key) =
        machine(&[0x60, 0x05, 0x61, 0x0A, 0x80, 0x15]);
    run(3, &mut cpu, &mut mem, &mut disp, &mut tim, &mut key);
    assert_eq!(cpu.reg[0], 251);
    assert_eq!(cpu.reg[0xF], 0);
}

#[test]
fn subn_uses_vy_minus_vx() {
    // V0=5, V1=10: SUBN -> V0 = 5, VF=1 (Vy > Vx).
    let (mut cpu, mut mem, mut disp, mut tim, mut key) =
        machine(&[0x60, 0x05, 0x61, 0x0A, 0x80, 0x17]);
    run(3, &mut cpu, &mut mem, &mut disp, &mut tim, &mut key);
    assert_eq!(cpu.reg[0], 5);
    assert_eq!(cpu.reg[0xF], 1);
}

#[test]
fn bitwise_or_and_xor() {
    let (mut cpu, mut mem, mut disp, mut tim, mut key) =
        machine(&[0x60, 0x0C, 0x61, 0x0A, 0x80, 0x11]);
    run(3, &mut cpu, &mut mem, &mut disp, &mut tim, &mut key);
    assert_eq!(cpu.reg[0], 0x0E); // 0x0C | 0x0A

    let (mut cpu, mut mem, mut disp, mut tim, mut key) =
        machine(&[0x60, 0x0C, 0x61, 0x0A, 0x80, 0x12]);
    run(3, &mut cpu, &mut mem, &mut disp, &mut tim, &mut key);
    assert_eq!(cpu.reg[0], 0x08); // 0x0C & 0x0A

    let (mut cpu, mut mem, mut disp, mut tim, mut key) =
        machine(&[0x60, 0x0C, 0x61, 0x0A, 0x80, 0x13]);
    run(3, &mut cpu, &mut mem, &mut disp, &mut tim, &mut key);
    assert_eq!(cpu.reg[0], 0x06); // 0x0C ^ 0x0A
}

#[test]
fn shifts_record_the_dropped_bit_in_vf() {
    // V0 = 0b1000_0101: SHR -> 0b0100_0010, VF = 1.
    let (mut cpu, mut mem, mut disp, mut tim, mut key) = machine(&[0x60, 0x85, 0x80, 0x06]);
    run(2, &mut cpu, &mut mem, &mut disp, &mut tim, &mut key);
    assert_eq!(cpu.reg[0], 0x42);
    assert_eq!(cpu.reg[0xF], 1);

    // V0 = 0b1000_0101: SHL -> 0b0000_1010, VF = 1.
    let (mut cpu, mut mem, mut disp, mut tim, mut key) = machine(&[0x60, 0x85, 0x80, 0x0E]);
    run(2, &mut cpu, &mut mem, &mut disp, &mut tim, &mut key);
    assert_eq!(cpu.reg[0], 0x0A);
    assert_eq!(cpu.reg[0xF], 1);
}

#[test]
fn skips_advance_pc_by_two_extra() {
    // SE V0,0x00 skips (V0 == 0 initially): PC = 0x204 after one tick.
    let (mut cpu, mut mem, mut disp, mut tim, mut key) = machine(&[0x30, 0x00]);
    run(1, &mut cpu, &mut mem, &mut disp, &mut tim, &mut key);
    assert_eq!(cpu.pc, 0x204);

    // SNE V0,0x00 does not skip.
    let (mut cpu, mut mem, mut disp, mut tim, mut key) = machine(&[0x40, 0x00]);
    run(1, &mut cpu, &mut mem, &mut disp, &mut tim, &mut key);
    assert_eq!(cpu.pc, 0x202);

    // SE V0,V1 skips (both zero).
    let (mut cpu, mut mem, mut disp, mut tim, mut key) = machine(&[0x50, 0x10]);
    run(1, &mut cpu, &mut mem, &mut disp, &mut tim, &mut key);
    assert_eq!(cpu.pc, 0x204);

    // SNE V0,V1 does not skip (both zero).
    let (mut cpu, mut mem, mut disp, mut tim, mut key) = machine(&[0x90, 0x10]);
    run(1, &mut cpu, &mut mem, &mut disp, &mut tim, &mut key);
    assert_eq!(cpu.pc, 0x202);
}

#[test]
fn jumps_set_pc() {
    let (mut cpu, mut mem, mut disp, mut tim, mut key) = machine(&[0x1A, 0xBC]);
    run(1, &mut cpu, &mut mem, &mut disp, &mut tim, &mut key);
    assert_eq!(cpu.pc, 0xABC);

    // LD V0,0x10; JP V0,0x300 -> PC = 0x310.
    let (mut cpu, mut mem, mut disp, mut tim, mut key) = machine(&[0x60, 0x10, 0xB3, 0x00]);
    run(2, &mut cpu, &mut mem, &mut disp, &mut tim, &mut key);
    assert_eq!(cpu.pc, 0x310);
}

#[test]
fn call_then_ret_restores_pc_and_sp() {
    // CALL 0x204; (pad); RET at 0x204.
    let (mut cpu, mut mem, mut disp, mut tim, mut key) =
        machine(&[0x22, 0x04, 0x00, 0x00, 0x00, 0xEE]);
    let r1 = run(1, &mut cpu, &mut mem, &mut disp, &mut tim, &mut key);
    assert_eq!(r1, StepResult::Executed);
    assert_eq!(cpu.pc, 0x204);
    assert_eq!(cpu.sp, 1);
    let r2 = run(1, &mut cpu, &mut mem, &mut disp, &mut tim, &mut key);
    assert_eq!(r2, StepResult::Executed);
    assert_eq!(cpu.pc, 0x202);
    assert_eq!(cpu.sp, 0);
}

#[test]
fn ret_on_empty_stack_is_a_fault() {
    let (mut cpu, mut mem, mut disp, mut tim, mut key) = machine(&[0x00, 0xEE]);
    let r = run(1, &mut cpu, &mut mem, &mut disp, &mut tim, &mut key);
    assert_eq!(r, StepResult::StackUnderflow);
    assert_eq!(cpu.pc, 0x202);
    assert_eq!(cpu.sp, 0);
}

#[test]
fn call_on_full_stack_is_a_fault() {
    // CALL 0x200 forever: 15 nested calls fill the stack, the 16th faults.
    let (mut cpu, mut mem, mut disp, mut tim, mut key) = machine(&[0x22, 0x00]);
    for _ in 0..15 {
        let r = run(1, &mut cpu, &mut mem, &mut disp, &mut tim, &mut key);
        assert_eq!(r, StepResult::Executed);
    }
    assert_eq!(cpu.sp, 15);
    let r = run(1, &mut cpu, &mut mem, &mut disp, &mut tim, &mut key);
    assert_eq!(r, StepResult::StackOverflow);
    assert_eq!(cpu.sp, 15);
}

#[test]
fn ld_i_and_add_i() {
    // LD I,0x100; LD V0,0x05; ADD I,V0 -> I = 0x105.
    let (mut cpu, mut mem, mut disp, mut tim, mut key) =
        machine(&[0xA1, 0x00, 0x60, 0x05, 0xF0, 0x1E]);
    run(3, &mut cpu, &mut mem, &mut disp, &mut tim, &mut key);
    assert_eq!(cpu.i, 0x105);
}

#[test]
fn ld_font_points_at_the_glyph() {
    // LD V0,7; LD F,V0 -> I = 7 * 5 = 35, where glyph 7 starts.
    let (mut cpu, mut mem, mut disp, mut tim, mut key) = machine(&[0x60, 0x07, 0xF0, 0x29]);
    run(2, &mut cpu, &mut mem, &mut disp, &mut tim, &mut key);
    assert_eq!(cpu.i, 35);
    assert_eq!(mem.get_memory(35), 0xF0);
    assert_eq!(mem.get_memory(36), 0x10);
}

#[test]
fn bcd_splits_the_digits() {
    // LD V0,254; LD I,0x300; LD B,V0 -> memory 0x300.. = 2, 5, 4.
    let (mut cpu, mut mem, mut disp, mut tim, mut key) =
        machine(&[0x60, 0xFE, 0xA3, 0x00, 0xF0, 0x33]);
    run(3, &mut cpu, &mut mem, &mut disp, &mut tim, &mut key);
    assert_eq!(mem.get_memory(0x300), 2);
    assert_eq!(mem.get_memory(0x301), 5);
    assert_eq!(mem.get_memory(0x302), 4);
}

#[test]
fn store_and_load_registers() {
    // V0=1,V1=2,V2=3; I=0x300; store V0..V2; clear V0..V2; load back.
    let rom = [
        0x60, 0x01, 0x61, 0x02, 0x62, 0x03, 0xA3, 0x00, 0xF2, 0x55, // store
        0x60, 0x00, 0x61, 0x00, 0x62, 0x00, // wipe
        0xF2, 0x65, // load back
    ];
    let (mut cpu, mut mem, mut disp, mut tim, mut key) = machine(&rom);
    run(5, &mut cpu, &mut mem, &mut disp, &mut tim, &mut key);
    assert_eq!(mem.get_memory(0x300), 1);
    assert_eq!(mem.get_memory(0x301), 2);
    assert_eq!(mem.get_memory(0x302), 3);
    run(4, &mut cpu, &mut mem, &mut disp, &mut tim, &mut key);
    assert_eq!(cpu.reg[0], 1);
    assert_eq!(cpu.reg[1], 2);
    assert_eq!(cpu.reg[2], 3);
}

#[test]
fn rnd_masked_with_zero_is_zero() {
    // LD V0,0xAA; RND V0,0x00: whatever byte was drawn, the mask nulls it.
    let (mut cpu, mut mem, mut disp, mut tim, mut key) = machine(&[0x60, 0xAA, 0xC0, 0x00]);
    run(2, &mut cpu, &mut mem, &mut disp, &mut tim, &mut key);
    assert_eq!(cpu.reg[0], 0);
}

#[test]
fn rnd_respects_the_mask() {
    // RND V0,0x0F: the high nibble of the drawn byte is always masked off.
    let (mut cpu, mut mem, mut disp, mut tim, mut key) = machine(&[0xC0, 0x0F]);
    run(1, &mut cpu, &mut mem, &mut disp, &mut tim, &mut key);
    assert!(cpu.reg[0] <= 0x0F);
}

#[test]
fn unknown_opcode_is_reported_and_skipped() {
    let (mut cpu, mut mem, mut disp, mut tim, mut key) = machine(&[0xFF, 0xFF, 0x60, 0x09]);
    let r = run(1, &mut cpu, &mut mem, &mut disp, &mut tim, &mut key);
    assert_eq!(r, StepResult::Unsupported { instr: 0xFFFF });
    assert_eq!(cpu.pc, 0x202);
    // Execution continues past the unknown instruction.
    let r = run(1, &mut cpu, &mut mem, &mut disp, &mut tim, &mut key);
    assert_eq!(r, StepResult::Executed);
    assert_eq!(cpu.reg[0], 9);
}

#[test]
fn fetch_beyond_memory_is_a_fault() {
    // JP 0xFFF: the next fetch would need bytes 0xFFF and 0x1000.
    let (mut cpu, mut mem, mut disp, mut tim, mut key) = machine(&[0x1F, 0xFF]);
    run(1, &mut cpu, &mut mem, &mut disp, &mut tim, &mut key);
    let r = run(1, &mut cpu, &mut mem, &mut disp, &mut tim, &mut key);
    assert_eq!(r, StepResult::MemoryOutOfBounds { addr: 0xFFF });
    assert_eq!(cpu.pc, 0xFFF);
}

#[test]
fn bcd_beyond_memory_is_a_fault() {
    // LD I,0xFFE; LD B,V0 would write 0xFFE..0x1000.
    let (mut cpu, mut mem, mut disp, mut tim, mut key) = machine(&[0xAF, 0xFE, 0xF0, 0x33]);
    let r = run(2, &mut cpu, &mut mem, &mut disp, &mut tim, &mut key);
    assert_eq!(r, StepResult::MemoryOutOfBounds { addr: 0x1000 });
    assert_eq!(mem.get_memory(0xFFE), 0);
}

#[test]
fn sprite_read_beyond_memory_is_a_fault() {
    // LD I,0xFFF; DRW V0,V1,2 would read 0xFFF and 0x1000.
    let (mut cpu, mut mem, mut disp, mut tim, mut key) = machine(&[0xAF, 0xFF, 0xD0, 0x12]);
    let r = run(2, &mut cpu, &mut mem, &mut disp, &mut tim, &mut key);
    assert_eq!(r, StepResult::MemoryOutOfBounds { addr: 0x1000 });
}

#[test]
fn skip_on_key_with_bad_code_is_a_fault() {
    // LD V0,0x10; SKP V0: 0x10 is no key code.
    let (mut cpu, mut mem, mut disp, mut tim, mut key) = machine(&[0x60, 0x10, 0xE0, 0x9E]);
    let r = run(2, &mut cpu, &mut mem, &mut disp, &mut tim, &mut key);
    assert_eq!(r, StepResult::KeyOutOfBounds { key: 0x10 });
}

#[test]
fn skp_and_sknp_poll_the_latch() {
    // LD V0,0x07; SKP V0 with key 7 down: skip.
    let (mut cpu, mut mem, mut disp, mut tim, mut key) = machine(&[0x60, 0x07, 0xE0, 0x9E]);
    key.set_key(0x7, true);
    run(2, &mut cpu, &mut mem, &mut disp, &mut tim, &mut key);
    assert_eq!(cpu.pc, 0x206);

    // SKNP V0 with key 7 down: no skip.
    let (mut cpu, mut mem, mut disp, mut tim, mut key) = machine(&[0x60, 0x07, 0xE0, 0xA1]);
    key.set_key(0x7, true);
    run(2, &mut cpu, &mut mem, &mut disp, &mut tim, &mut key);
    assert_eq!(cpu.pc, 0x204);
}

#[test]
fn scenario_wait_for_key() {
    // LD V3,K freezes the CPU; ten calls change nothing; delivering key
    // 0x7 sets V3 and execution resumes on the next call.
    let (mut cpu, mut mem, mut disp, mut tim, mut key) = machine(&[0xF3, 0x0A, 0x60, 0x09]);
    let r = run(1, &mut cpu, &mut mem, &mut disp, &mut tim, &mut key);
    assert_eq!(r, StepResult::Executed);
    assert!(cpu.get_wait());
    let pc_before = cpu.pc;
    let regs_before = cpu.reg.clone();
    for _ in 0..10 {
        let r = run(1, &mut cpu, &mut mem, &mut disp, &mut tim, &mut key);
        assert_eq!(r, StepResult::Waiting);
    }
    assert_eq!(cpu.pc, pc_before);
    assert_eq!(cpu.reg, regs_before);
    cpu.key_press(0x7);
    assert_eq!(cpu.reg[3], 0x07);
    assert!(!cpu.get_wait());
    let r = run(1, &mut cpu, &mut mem, &mut disp, &mut tim, &mut key);
    assert_eq!(r, StepResult::Executed);
    assert_eq!(cpu.reg[0], 9);
}

#[test]
fn timer_opcodes_move_values_both_ways() {
    // LD V0,0x21; LD DT,V0; LD ST,V0; LD V1,DT.
    let (mut cpu, mut mem, mut disp, mut tim, mut key) =
        machine(&[0x60, 0x21, 0xF0, 0x15, 0xF0, 0x18, 0xF1, 0x07]);
    run(4, &mut cpu, &mut mem, &mut disp, &mut tim, &mut key);
    assert_eq!(tim.get_delay_register(), 0x21);
    assert_eq!(tim.get_sound_register(), 0x21);
    assert_eq!(cpu.reg[1], 0x21);
}

#[test]
fn decode_helpers_extract_the_fields() {
    let cpu = Cpu::new();
    assert_eq!(cpu.get_nnn(0xABCD), 0xBCD);
    assert_eq!(cpu.get_kk(0xABCD), 0xCD);
    assert_eq!(cpu.get_nibble(0xABCD, 0), 0xA);
    assert_eq!(cpu.get_nibble(0xABCD, 1), 0xB);
    assert_eq!(cpu.get_nibble(0xABCD, 2), 0xC);
    assert_eq!(cpu.get_nibble(0xABCD, 3), 0xD);
}
