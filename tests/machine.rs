use chip8_core::display::DEFAULT_FONT;
use chip8_core::{get_opcode, Chip8, Fault, KeyRequest, Status, TickInput};

const QUIET: TickInput = TickInput { key_down: false, key_pressed: 0, random: 0 };

fn machine(program: &[u8]) -> Chip8 {
    let mut c = Chip8::new();
    c.load(0x200, program, None);
    c
}

fn run(c: &mut Chip8, n: usize) {
    for _ in 0..n {
        assert_eq!(c.step(QUIET), Ok(Status::Running));
    }
}

#[test]
fn new_machine_is_zeroed() {
    let c = Chip8::new();
    assert_eq!(c.get_regs(), [0; 16]);
    assert_eq!(c.get_pc(), 0);
    assert_eq!(c.get_i(), 0);
    assert_eq!(c.get_sound_timer(), 0);
    assert_eq!(c.get_delay_timer(), 0);
    assert!(!c.is_sound_playing());
    let s = c.to_state();
    assert!(s.mem.iter().all(|b| *b == 0));
    assert_eq!(s.sp, 0);
}

#[test]
fn load_places_font_and_program() {
    let c = machine(&[0x12, 0x34]);
    assert_eq!(c.get_pc(), 0x200);
    assert_eq!(c.get_memory(0x200), 0x12);
    assert_eq!(c.get_memory(0x201), 0x34);
    assert_eq!(c.get_opcode(0x200), 0x1234);
    for a in 0..240 {
        assert_eq!(c.get_memory(a), DEFAULT_FONT[a]);
    }
    let mut custom = Chip8::new();
    custom.load(0x600, &[0xAA], Some([7; 240]));
    assert_eq!(custom.get_pc(), 0x600);
    assert_eq!(custom.get_memory(0), 7);
    assert_eq!(custom.get_memory(239), 7);
    assert_eq!(custom.get_memory(0x600), 0xAA);
}

#[test]
fn free_opcode_reader() {
    let mut mem = [0u8; 4096];
    mem[10] = 0xAB;
    mem[11] = 0xCD;
    assert_eq!(get_opcode(&mem, 10), 0xABCD);
}

#[test]
fn end_to_end_load_and_add() {
    let mut c = machine(&[0x60, 0x05, 0x70, 0x03]);
    assert_eq!(c.step(QUIET), Ok(Status::Running));
    assert_eq!(c.get_regs()[0], 5);
    assert_eq!(c.get_pc(), 0x202);
    assert_eq!(c.step(QUIET), Ok(Status::Running));
    assert_eq!(c.get_regs()[0], 8);
    assert_eq!(c.get_regs()[15], 0);
    assert_eq!(c.get_pc(), 0x204);
}

#[test]
fn add_immediate_wraps_without_flag() {
    let mut c = machine(&[0x60, 0xFF, 0x70, 0x02]);
    run(&mut c, 2);
    assert_eq!(c.get_regs()[0], 1);
    assert_eq!(c.get_regs()[15], 0);
}

#[test]
fn call_and_return() {
    // 0x200: call 0x205; 0x205: return.
    let mut c = machine(&[0x22, 0x05, 0x00, 0x00, 0x00, 0x00, 0xEE]);
    assert_eq!(c.get_opcode(0x205), 0x00EE);
    assert_eq!(c.step(QUIET), Ok(Status::Running));
    assert_eq!(c.get_pc(), 0x205);
    assert_eq!(c.to_state().sp, 1);
    assert_eq!(c.to_state().stack[1], 0x200);
    assert_eq!(c.step(QUIET), Ok(Status::Running));
    assert_eq!(c.get_pc(), 0x202);
    assert_eq!(c.to_state().sp, 0);
}

#[test]
fn jump_and_jump_with_offset() {
    let mut c = machine(&[0x13, 0x00]);
    run(&mut c, 1);
    assert_eq!(c.get_pc(), 0x300);
    let mut d = machine(&[0x60, 0x10, 0xB3, 0x00]);
    run(&mut d, 2);
    assert_eq!(d.get_pc(), 0x310);
}

#[test]
fn conditional_skips() {
    // V0 = 5; skip if V0 == 5 -> pc + 4.
    let mut c = machine(&[0x60, 0x05, 0x30, 0x05]);
    run(&mut c, 2);
    assert_eq!(c.get_pc(), 0x206);
    let mut c = machine(&[0x60, 0x05, 0x30, 0x06]);
    run(&mut c, 2);
    assert_eq!(c.get_pc(), 0x204);
    let mut c = machine(&[0x60, 0x05, 0x40, 0x06]);
    run(&mut c, 2);
    assert_eq!(c.get_pc(), 0x206);
    let mut c = machine(&[0x60, 0x05, 0x61, 0x05, 0x50, 0x10]);
    run(&mut c, 3);
    assert_eq!(c.get_pc(), 0x208);
    let mut c = machine(&[0x60, 0x05, 0x61, 0x05, 0x90, 0x10]);
    run(&mut c, 3);
    assert_eq!(c.get_pc(), 0x206);
}

#[test]
fn alu_logic() {
    let mut c = machine(&[0x60, 0b1100, 0x61, 0b1010, 0x82, 0x00, 0x82, 0x11, 0x83, 0x00, 0x83, 0x12, 0x84, 0x00, 0x84, 0x13, 0x85, 0x10]);
    run(&mut c, 9);
    let r = c.get_regs();
    assert_eq!(r[2], 0b1110);
    assert_eq!(r[3], 0b1000);
    assert_eq!(r[4], 0b0110);
    assert_eq!(r[5], 0b1010);
}

#[test]
fn add_sets_carry_flag() {
    let mut c = machine(&[0x60, 200, 0x61, 100, 0x80, 0x14]);
    run(&mut c, 3);
    assert_eq!(c.get_regs()[0], 44);
    assert_eq!(c.get_regs()[15], 1);
    let mut c = machine(&[0x60, 100, 0x61, 155, 0x80, 0x14]);
    run(&mut c, 3);
    assert_eq!(c.get_regs()[0], 255);
    assert_eq!(c.get_regs()[15], 0);
}

#[test]
fn sub_sets_not_borrow_flag() {
    let mut c = machine(&[0x60, 10, 0x61, 3, 0x80, 0x15]);
    run(&mut c, 3);
    assert_eq!(c.get_regs()[0], 7);
    assert_eq!(c.get_regs()[15], 1);
    let mut c = machine(&[0x60, 3, 0x61, 10, 0x80, 0x15]);
    run(&mut c, 3);
    assert_eq!(c.get_regs()[0], 249);
    assert_eq!(c.get_regs()[15], 0);
    let mut c = machine(&[0x60, 7, 0x61, 7, 0x80, 0x15]);
    run(&mut c, 3);
    assert_eq!(c.get_regs()[0], 0);
    assert_eq!(c.get_regs()[15], 1);
}

#[test]
fn reverse_sub() {
    let mut c = machine(&[0x60, 3, 0x61, 10, 0x80, 0x17]);
    run(&mut c, 3);
    assert_eq!(c.get_regs()[0], 7);
    assert_eq!(c.get_regs()[15], 1);
    let mut c = machine(&[0x60, 10, 0x61, 3, 0x80, 0x17]);
    run(&mut c, 3);
    assert_eq!(c.get_regs()[0], 249);
    assert_eq!(c.get_regs()[15], 0);
}

#[test]
fn shifts_read_vy() {
    let mut c = machine(&[0x60, 0xFF, 0x61, 0b0000_0101, 0x80, 0x16]);
    run(&mut c, 3);
    assert_eq!(c.get_regs()[0], 0b10);
    assert_eq!(c.get_regs()[1], 0b101);
    assert_eq!(c.get_regs()[15], 1);
    let mut c = machine(&[0x61, 0b1000_0001, 0x80, 0x1E]);
    run(&mut c, 2);
    assert_eq!(c.get_regs()[0], 0b10);
    assert_eq!(c.get_regs()[15], 1);
    let mut c = machine(&[0x61, 0b0100_0000, 0x80, 0x1E]);
    run(&mut c, 2);
    assert_eq!(c.get_regs()[0], 0b1000_0000);
    assert_eq!(c.get_regs()[15], 0);
}

#[test]
fn flag_register_as_destination() {
    // 8FE4 with VF = 200, VE = 100: the sum lands in VF over the carry.
    let mut c = machine(&[0x6F, 200, 0x6E, 100, 0x8F, 0xE4]);
    run(&mut c, 3);
    assert_eq!(c.get_regs()[15], 44);
}

#[test]
fn index_register_ops() {
    let mut c = machine(&[0xA1, 0x23, 0x60, 0x10, 0xF0, 0x1E]);
    run(&mut c, 3);
    assert_eq!(c.get_i(), 0x133);
    let mut c = machine(&[0x60, 0x0A, 0xF0, 0x29]);
    run(&mut c, 2);
    assert_eq!(c.get_i(), 50);
    let mut c = machine(&[0x60, 0x0A, 0xF0, 0x30]);
    run(&mut c, 2);
    assert_eq!(c.get_i(), 140);
}

#[test]
fn bcd_digits() {
    let mut c = machine(&[0x65, 249, 0xA3, 0x00, 0xF5, 0x33]);
    run(&mut c, 3);
    assert_eq!(c.get_memory(0x300), 2);
    assert_eq!(c.get_memory(0x301), 4);
    assert_eq!(c.get_memory(0x302), 9);
}

#[test]
fn block_store_load_round_trip() {
    for k in 0..16u8 {
        let mut prog = Vec::new();
        for r in 0..16u8 {
            prog.push(0x60 | r);
            prog.push(r.wrapping_mul(17).wrapping_add(3));
        }
        prog.extend_from_slice(&[0xA6, 0x00, 0xF0 | k, 0x55]);
        for r in 0..16u8 {
            prog.push(0x60 | r);
            prog.push(0);
        }
        prog.extend_from_slice(&[0xF0 | k, 0x65]);
        let mut c = machine(&prog);
        run(&mut c, 16 + 2 + 16 + 1);
        let regs = c.get_regs();
        for r in 0..16u8 {
            let expected = if r <= k { r.wrapping_mul(17).wrapping_add(3) } else { 0 };
            assert_eq!(regs[r as usize], expected);
        }
        assert_eq!(c.get_memory(0x600), 3);
    }
}

#[test]
fn timers() {
    let mut c = machine(&[0x60, 2, 0xF0, 0x15, 0xF0, 0x18, 0xF1, 0x07]);
    run(&mut c, 4);
    assert_eq!(c.get_delay_timer(), 2);
    assert_eq!(c.get_sound_timer(), 2);
    assert_eq!(c.get_regs()[1], 2);
    assert!(c.is_sound_playing());
    c.timers_tick();
    c.timers_tick();
    c.timers_tick();
    assert_eq!(c.get_delay_timer(), 0);
    assert_eq!(c.get_sound_timer(), 0);
    assert!(!c.is_sound_playing());
}

#[test]
fn random_masked() {
    let mut c = machine(&[0xC0, 0x0F, 0xC1, 0x00]);
    let inp = TickInput { key_down: false, key_pressed: 0, random: 0xAB };
    assert_eq!(c.step(inp), Ok(Status::Running));
    assert_eq!(c.get_regs()[0], 0x0B);
    assert_eq!(c.cpu_tick(false, 0), Ok(Status::Running));
    assert_eq!(c.get_regs()[1], 0);
    assert_eq!(c.get_pc(), 0x204);
}

#[test]
fn keys() {
    let mut c = machine(&[0x60, 0x07, 0xE0, 0x9E]);
    run(&mut c, 1);
    assert_eq!(c.key_request(), KeyRequest::IsDown(7));
    let down = TickInput { key_down: true, key_pressed: 0, random: 0 };
    assert_eq!(c.step(down), Ok(Status::Running));
    assert_eq!(c.get_pc(), 0x206);

    let mut c = machine(&[0xE0, 0xA1]);
    assert_eq!(c.key_request(), KeyRequest::IsDown(0));
    assert_eq!(c.step(QUIET), Ok(Status::Running));
    assert_eq!(c.get_pc(), 0x204);

    let mut c = machine(&[0xF3, 0x0A]);
    assert_eq!(c.key_request(), KeyRequest::WaitForKey);
    assert_eq!(c.cpu_tick(false, 0x0C), Ok(Status::Running));
    assert_eq!(c.get_regs()[3], 0x0C);
    assert_eq!(c.key_request(), KeyRequest::Nothing);
}

#[test]
fn draw_low_res_sprite() {
    // I = font glyph 0, draw 5 rows at (0, 0).
    let mut c = machine(&[0xA0, 0x00, 0xD0, 0x05, 0xD0, 0x05]);
    run(&mut c, 2);
    assert_eq!(c.get_regs()[15], 0);
    assert!(c.display.dirty());
    assert!(c.display.read_px(0, 0));
    assert!(c.display.read_px(7, 1));
    assert!(!c.display.read_px(8, 0));
    run(&mut c, 1);
    assert_eq!(c.get_regs()[15], 1);
    assert!(c.display.read().iter().all(|r| *r == 0));
}

#[test]
fn draw_wide_sprite_in_hi_res() {
    let mut prog = vec![0x00, 0xFF, 0xA2, 0x08, 0xD0, 0x00, 0x00, 0x00];
    prog.extend_from_slice(&[0xFF; 32]);
    let mut c = machine(&prog);
    run(&mut c, 3);
    assert!(c.display.hi_res());
    let rows = *c.display.read();
    for y in 0..16 {
        assert_eq!(rows[y], (0xFFu128 << 112) | (0xFFu128 << 104));
    }
    assert_eq!(rows[16], 0);
}

#[test]
fn system_opcodes() {
    let mut c = machine(&[0x00, 0xFF, 0x00, 0xFE, 0x00, 0xE0, 0x00, 0xC2, 0x00, 0xFB, 0x00, 0xFC, 0x01, 0x23]);
    run(&mut c, 1);
    assert!(c.display.hi_res());
    run(&mut c, 1);
    assert!(!c.display.hi_res());
    run(&mut c, 5);
    assert_eq!(c.get_pc(), 0x20E);
    assert!(c.display.dirty());
}

#[test]
fn exit_is_clean() {
    let mut c = machine(&[0x00, 0xFD]);
    assert_eq!(c.step(QUIET), Ok(Status::Exited));
    assert_eq!(c.get_pc(), 0x200);
}

#[test]
fn invalid_opcodes() {
    for op in [[0x80u8, 0x18], [0xE0, 0x00], [0xF0, 0xFF]] {
        let mut c = machine(&op);
        let expected = Fault::InvalidOpcode { opcode: (op[0] as u16) << 8 | op[1] as u16, pc: 0x200 };
        assert_eq!(c.step(QUIET), Err(expected));
        assert_eq!(c.get_pc(), 0x200);
    }
}

#[test]
fn stack_underflow_and_overflow() {
    let mut c = machine(&[0x00, 0xEE]);
    assert_eq!(c.step(QUIET), Err(Fault::StackUnderflow));
    let mut c = machine(&[0x22, 0x00]);
    for _ in 0..15 {
        assert_eq!(c.step(QUIET), Ok(Status::Running));
    }
    assert_eq!(c.to_state().sp, 15);
    assert_eq!(c.step(QUIET), Err(Fault::StackOverflow));
}

#[test]
fn out_of_range_accesses() {
    let mut c = machine(&[0x1F, 0xFF]);
    run(&mut c, 1);
    assert_eq!(c.get_pc(), 0xFFF);
    assert_eq!(c.step(QUIET), Err(Fault::AddressOutOfRange));
    let mut c = machine(&[0xAF, 0xFE, 0xF0, 0x33]);
    run(&mut c, 1);
    assert_eq!(c.step(QUIET), Err(Fault::AddressOutOfRange));
    let mut c = machine(&[0xAF, 0xFF, 0xF1, 0x55]);
    run(&mut c, 1);
    assert_eq!(c.step(QUIET), Err(Fault::AddressOutOfRange));
    let mut c = machine(&[0xAF, 0xFF, 0xD0, 0x02]);
    run(&mut c, 1);
    assert_eq!(c.step(QUIET), Err(Fault::AddressOutOfRange));
}

#[test]
fn load_after_store_ignores_interim_register_changes() {
    // V0..V2 = 9, 8, 7; store at 0x700; overwrite V0..V3; load V0..V2 back.
    let mut c = machine(&[
        0x60, 9, 0x61, 8, 0x62, 7, 0xA7, 0x00, 0xF2, 0x55, 0x60, 1, 0x61, 1, 0x62, 1, 0x63, 4,
        0xF2, 0x65,
    ]);
    run(&mut c, 10);
    let r = c.get_regs();
    assert_eq!(&r[0..4], &[9, 8, 7, 4]);
    assert_eq!(c.get_i(), 0x700);
}
