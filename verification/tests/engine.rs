use chip8::Chip8;
use chip8::Fault;
use chip8::Op;
use chip8::Screen;

fn machine() -> Chip8 {
    Chip8::new(Screen::new())
}

fn run_ok(c: &mut Chip8, op: Op) -> bool {
    c.execute(op).expect("instruction faulted")
}

#[test]
fn new_machine_state() {
    let c = machine();
    assert_eq!(c.pc, 512);
    assert_eq!(c.ireg, 0);
    assert_eq!(c.dt, 0);
    assert_eq!(c.st, 0);
    assert!(c.stack.is_empty());
    assert_eq!(c.v, vec![0u8; 16]);
    assert_eq!(c.mem.len(), 4096);
}

#[test]
fn font_table_placement() {
    // Bytes 0x50..=0x9F hold the sixteen five-byte glyphs; everything
    // around them is zero.
    let c = machine();
    let font: Vec<u8> = vec![
        0xF0, 0x90, 0x90, 0x90, 0xF0, // 0
        0x20, 0x60, 0x20, 0x20, 0x70, // 1
        0xF0, 0x10, 0xF0, 0x80, 0xF0, // 2
        0xF0, 0x10, 0xF0, 0x10, 0xF0, // 3
        0x90, 0x90, 0xF0, 0x10, 0x10, // 4
        0xF0, 0x80, 0xF0, 0x10, 0xF0, // 5
        0xF0, 0x80, 0xF0, 0x90, 0xF0, // 6
        0xF0, 0x10, 0x20, 0x40, 0x40, // 7
        0xF0, 0x90, 0xF0, 0x90, 0xF0, // 8
        0xF0, 0x90, 0xF0, 0x10, 0xF0, // 9
        0xF0, 0x90, 0xF0, 0x90, 0x90, // A
        0xE0, 0x90, 0xE0, 0x90, 0xE0, // B
        0xF0, 0x80, 0x80, 0x80, 0xF0, // C
        0xE0, 0x90, 0x90, 0x90, 0xE0, // D
        0xF0, 0x80, 0xF0, 0x80, 0xF0, // E
        0xF0, 0x80, 0xF0, 0x80, 0x80, // F
    ];
    assert_eq!(&c.mem[0x50..0xA0], &font[..]);
    assert_eq!(c.mem[0x4F], 0);
    assert_eq!(c.mem[0xA0], 0);
}

#[test]
fn load_program_copies_at_512() {
    let mut c = machine();
    c.load_program(&vec![1, 2, 3]);
    assert_eq!(c.mem[511], 0);
    assert_eq!(c.mem[512], 1);
    assert_eq!(c.mem[513], 2);
    assert_eq!(c.mem[514], 3);
    assert_eq!(c.mem[515], 0);
    assert_eq!(c.pc, 512);
}

#[test]
fn add_val_wraps_without_flag() {
    let mut c = machine();
    run_ok(&mut c, Op::SetVal(0, 250));
    run_ok(&mut c, Op::SetVal(15, 9));
    run_ok(&mut c, Op::AddVal(0, 10));
    assert_eq!(c.v[0], 4);
    // The flag register is not touched by the immediate add.
    assert_eq!(c.v[15], 9);
}

#[test]
fn alu_add_sets_carry() {
    let mut c = machine();
    run_ok(&mut c, Op::SetVal(1, 200));
    run_ok(&mut c, Op::SetVal(2, 100));
    run_ok(&mut c, Op::Add(1, 2));
    assert_eq!(c.v[1], 44);
    assert_eq!(c.v[15], 1);

    run_ok(&mut c, Op::SetVal(1, 10));
    run_ok(&mut c, Op::SetVal(2, 20));
    run_ok(&mut c, Op::Add(1, 2));
    assert_eq!(c.v[1], 30);
    assert_eq!(c.v[15], 0);
}

#[test]
fn alu_sub_sets_borrow() {
    let mut c = machine();
    run_ok(&mut c, Op::SetVal(4, 5));
    run_ok(&mut c, Op::SetVal(5, 10));
    run_ok(&mut c, Op::Sub(4, 5));
    assert_eq!(c.v[4], 251);
    assert_eq!(c.v[15], 1);

    run_ok(&mut c, Op::SetVal(4, 10));
    run_ok(&mut c, Op::SetVal(5, 5));
    run_ok(&mut c, Op::Sub(4, 5));
    assert_eq!(c.v[4], 5);
    assert_eq!(c.v[15], 0);
}

#[test]
fn alu_subn_subtracts_reversed() {
    let mut c = machine();
    run_ok(&mut c, Op::SetVal(0, 5));
    run_ok(&mut c, Op::SetVal(1, 10));
    run_ok(&mut c, Op::SubN(0, 1));
    assert_eq!(c.v[0], 5);
    assert_eq!(c.v[15], 0);

    run_ok(&mut c, Op::SetVal(0, 10));
    run_ok(&mut c, Op::SetVal(1, 5));
    run_ok(&mut c, Op::SubN(0, 1));
    assert_eq!(c.v[0], 251);
    assert_eq!(c.v[15], 1);
}

#[test]
fn shr_copies_then_shifts() {
    let mut c = machine();
    run_ok(&mut c, Op::SetVal(1, 0x0B));
    run_ok(&mut c, Op::Shr(0, 1));
    // x takes y's value, the flag its low bit, then x shifts right.
    assert_eq!(c.v[0], 0x05);
    assert_eq!(c.v[15], 1);
    assert_eq!(c.v[1], 0x0B);
}

#[test]
fn shl_keeps_raw_high_bit_in_flag() {
    let mut c = machine();
    run_ok(&mut c, Op::SetVal(1, 0x81));
    run_ok(&mut c, Op::Shl(0, 1));
    // The flag keeps the raw masked bit, 0x80, not a normalized 1.
    assert_eq!(c.v[0], 0x02);
    assert_eq!(c.v[15], 0x80);
}

#[test]
fn mov_or_and_xor() {
    let mut c = machine();
    run_ok(&mut c, Op::SetVal(0, 0b1100));
    run_ok(&mut c, Op::SetVal(1, 0b1010));
    run_ok(&mut c, Op::Or(0, 1));
    assert_eq!(c.v[0], 0b1110);
    run_ok(&mut c, Op::SetVal(0, 0b1100));
    run_ok(&mut c, Op::And(0, 1));
    assert_eq!(c.v[0], 0b1000);
    run_ok(&mut c, Op::SetVal(0, 0b1100));
    run_ok(&mut c, Op::Xor(0, 1));
    assert_eq!(c.v[0], 0b0110);
    run_ok(&mut c, Op::Mov(2, 1));
    assert_eq!(c.v[2], 0b1010);
}

#[test]
fn skip_on_equal_value() {
    let mut c = machine();
    run_ok(&mut c, Op::SetVal(0, 7));
    run_ok(&mut c, Op::SkipEqVal(0, 7));
    assert_eq!(c.pc, 514);
    run_ok(&mut c, Op::SkipEqVal(0, 8));
    assert_eq!(c.pc, 514);
    run_ok(&mut c, Op::SkipNeqVal(0, 8));
    assert_eq!(c.pc, 516);
    run_ok(&mut c, Op::SkipNeqVal(0, 7));
    assert_eq!(c.pc, 516);
}

#[test]
fn skip_on_register_compare() {
    let mut c = machine();
    run_ok(&mut c, Op::SetVal(0, 7));
    run_ok(&mut c, Op::SetVal(1, 7));
    run_ok(&mut c, Op::SetVal(2, 9));
    run_ok(&mut c, Op::SkipEqReg(0, 1));
    assert_eq!(c.pc, 514);
    run_ok(&mut c, Op::SkipEqReg(0, 2));
    assert_eq!(c.pc, 514);
    run_ok(&mut c, Op::SkipNeqReg(0, 2));
    assert_eq!(c.pc, 516);
    run_ok(&mut c, Op::SkipNeqReg(0, 1));
    assert_eq!(c.pc, 516);
}

#[test]
fn jumps_and_index() {
    let mut c = machine();
    run_ok(&mut c, Op::AbsJump(0x300));
    assert_eq!(c.pc, 0x300);
    run_ok(&mut c, Op::SetVal(0, 5));
    run_ok(&mut c, Op::OffsetJump(0x100));
    assert_eq!(c.pc, 0x105);
    run_ok(&mut c, Op::SetIndex(0x2AB));
    assert_eq!(c.ireg, 0x2AB);
}

#[test]
fn call_then_return_round_trip() {
    // Call at 0x200, a no-op-ish instruction at 0x208, Return back to the
    // instruction after the Call.
    let mut c = machine();
    c.load_program(&vec![
        0x22, 0x08, // 0x200: Call 0x208
        0x00, 0x00, 0x00, 0x00, 0x00, 0x00, // padding
        0x60, 0x07, // 0x208: SetVal(0, 7)
        0x00, 0xEE, // 0x20A: Return
    ]);
    assert_eq!(c.tick(), Ok(false));
    assert_eq!(c.pc, 0x208);
    assert_eq!(c.stack, vec![0x202]);
    assert_eq!(c.tick(), Ok(false));
    assert_eq!(c.v[0], 7);
    assert_eq!(c.tick(), Ok(false));
    assert_eq!(c.pc, 0x202);
    assert!(c.stack.is_empty());
}

#[test]
fn rand_is_masked() {
    let mut c = machine();
    run_ok(&mut c, Op::SetVal(3, 0xFF));
    run_ok(&mut c, Op::Rand(3, 0));
    assert_eq!(c.v[3], 0);
    run_ok(&mut c, Op::Rand(4, 0x0F));
    assert_eq!(c.v[4] & 0xF0, 0);
}

#[test]
fn fetch_is_big_endian() {
    let mut c = machine();
    c.load_program(&vec![0x6A, 0x3C]);
    assert_eq!(c.tick(), Ok(false));
    assert_eq!(c.v[0xA], 0x3C);
    assert_eq!(c.pc, 514);
}

#[test]
fn unimplemented_opcode_faults() {
    // A get-delay-timer word decodes but has no execution semantics: the
    // run stops with a diagnostic, never a silent no-op.
    let mut c = machine();
    c.load_program(&vec![0xF0, 0x07]);
    assert_eq!(c.tick(), Err(Fault::Unimplemented(Op::GetDelay(0))));
}

#[test]
fn unimplemented_families_fault() {
    let mut c = machine();
    assert_eq!(
        c.execute(Op::SkipKey(0)),
        Err(Fault::Unimplemented(Op::SkipKey(0)))
    );
    assert_eq!(
        c.execute(Op::DumpRegisters(3)),
        Err(Fault::Unimplemented(Op::DumpRegisters(3)))
    );
    assert_eq!(
        c.execute(Op::Unknown(0x0123)),
        Err(Fault::Unimplemented(Op::Unknown(0x0123)))
    );
    // A fault leaves the machine unchanged.
    assert_eq!(c.pc, 512);
    assert_eq!(c.v, vec![0u8; 16]);
}

#[test]
fn return_with_empty_stack_faults() {
    let mut c = machine();
    c.load_program(&vec![0x00, 0xEE]);
    assert_eq!(c.tick(), Err(Fault::StackUnderflow));
}

#[test]
fn program_counter_out_of_bounds_faults() {
    let mut c = machine();
    run_ok(&mut c, Op::AbsJump(0xFFF));
    assert_eq!(c.tick(), Err(Fault::OutOfBounds));
}

#[test]
fn sprite_read_out_of_bounds_faults() {
    let mut c = machine();
    run_ok(&mut c, Op::SetIndex(0xFFF));
    assert_eq!(c.execute(Op::Draw(0, 0, 2)), Err(Fault::OutOfBounds));
}
