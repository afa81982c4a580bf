use crate::display::{
    down_scrolled, side_scrolled, write_erases, write_rows, Display, Screen, DEFAULT_FONT,
};
use vstd::prelude::*;

verus! {

/// What a machine holds, as plain values.
pub struct Machine {
    pub mem: Seq<u8>,
    pub regs: Seq<u8>,
    pub stack: Seq<usize>,
    pub pc: usize,
    pub i: usize,
    pub sp: usize,
    pub sound_timer: u8,
    pub delay_timer: u8,
    pub screen: Screen,
}

/// How an instruction ended when it did not fault.
#[derive(Debug, Clone, Copy, PartialEq, Eq, Structural)]
pub enum Status {
    /// The instruction ran; the program goes on.
    Running,
    /// The program asked to stop: a normal end, not a fault.
    Exited,
}

/// Why the machine cannot go on.
#[derive(Debug, Clone, Copy, PartialEq, Eq, Structural)]
pub enum Fault {
    /// An opcode of a family with a closed set of sub-opcodes matched none of them.
    InvalidOpcode { opcode: u16, pc: usize },
    /// A call with every return slot in use.
    StackOverflow,
    /// A return with no call to return from.
    StackUnderflow,
    /// An instruction fetch or a memory access past the end of memory.
    AddressOutOfRange,
}

/// What the host hands to one instruction: whether the key that the
/// instruction asks about is down, the key that a wait for a key produced,
/// and a random byte.
#[derive(Debug, Clone, Copy, PartialEq, Eq, Structural)]
pub struct TickInput {
    pub key_down: bool,
    pub key_pressed: u8,
    pub random: u8,
}

/// What the instruction at the program counter needs from the keyboard.
#[derive(Debug, Clone, Copy, PartialEq, Eq, Structural)]
pub enum KeyRequest {
    /// Nothing.
    Nothing,
    /// Whether this key is down.
    IsDown(u8),
    /// Blocks until some key is pressed, and takes its code.
    WaitForKey,
}

/// The big-endian opcode at `addr`.
pub open spec fn fetch(mem: Seq<u8>, addr: int) -> u16 {
    (mem[addr] * 256 + mem[addr + 1]) as u16
}

/// Bits 12-15: the instruction family.
pub open spec fn op_family(op: u16) -> int {
    op as int / 4096
}

/// Bits 8-11: the first register index.
pub open spec fn op_x(op: u16) -> int {
    (op as int / 256) % 16
}

/// Bits 4-7: the second register index.
pub open spec fn op_y(op: u16) -> int {
    (op as int / 16) % 16
}

/// Bits 0-3.
pub open spec fn op_n(op: u16) -> int {
    op as int % 16
}

/// Bits 0-7: the immediate byte.
pub open spec fn op_kk(op: u16) -> int {
    op as int % 256
}

/// Bits 0-11: the immediate address.
pub open spec fn op_nnn(op: u16) -> int {
    op as int % 4096
}

pub open spec fn with_pc(m: Machine, pc: int) -> Machine {
    Machine { pc: pc as usize, ..m }
}

/// Falls through to the next instruction.
pub open spec fn advance(m: Machine) -> Machine {
    with_pc(m, m.pc + 2)
}

/// Skips the next instruction when `c` holds.
pub open spec fn skip_if(m: Machine, c: bool) -> Machine {
    with_pc(
        m,
        m.pc + if c {
            4int
        } else {
            2int
        },
    )
}

pub open spec fn set_reg(m: Machine, r: int, v: int) -> Machine {
    Machine { regs: m.regs.update(r, v as u8), ..m }
}

pub open spec fn with_rows(m: Machine, rows: Seq<u128>) -> Machine {
    Machine { screen: Screen { rows, ..m.screen }, ..m }
}

pub open spec fn flag(c: bool) -> int {
    if c {
        1
    } else {
        0
    }
}

/// The arithmetic and logic family `8xyN`; `None` for an unknown `N`.
/// Shifts read their operand from `Vy`. Where `x` is the flag register, the
/// flag wins for the shifts and the result wins for the others.
pub open spec fn alu(m: Machine, op: u16) -> Option<Machine> {
    let x = op_x(op);
    let vx = m.regs[x] as int;
    let vy = m.regs[op_y(op)] as int;
    let n = op_n(op);
    if n == 0 {
        Some(set_reg(m, x, vy))
    } else if n == 1 {
        Some(set_reg(m, x, (vx as u8 | vy as u8) as int))
    } else if n == 2 {
        Some(set_reg(m, x, (vx as u8 & vy as u8) as int))
    } else if n == 3 {
        Some(set_reg(m, x, (vx as u8 ^ vy as u8) as int))
    } else if n == 4 {
        Some(set_reg(set_reg(m, 15, flag(vx + vy > 255)), x, (vx + vy) % 256))
    } else if n == 5 {
        Some(set_reg(set_reg(m, 15, flag(vx >= vy)), x, (vx - vy + 256) % 256))
    } else if n == 6 {
        Some(set_reg(set_reg(m, x, vy / 2), 15, vy % 2))
    } else if n == 7 {
        Some(set_reg(set_reg(m, 15, flag(vy >= vx)), x, (vy - vx + 256) % 256))
    } else if n == 14 {
        Some(set_reg(set_reg(m, x, (vy * 2) % 256), 15, vy / 128))
    } else {
        None
    }
}

/// One write of a sprite: the byte, its column and its row.
pub type SpriteWrite = (u8, usize, usize);

/// The writes that draw a sprite of `count` bytes from `mem[i..]` at `(vx, vy)`:
/// one byte per row, or two per row (left and right half) for a wide sprite.
pub open spec fn sprite_writes(
    mem: Seq<u8>,
    i: int,
    vx: u8,
    vy: u8,
    count: int,
    wide: bool,
) -> Seq<SpriteWrite> {
    Seq::new(
        count as nat,
        |k: int|
            if wide {
                (
                    mem[i + k],
                    (vx + if k % 2 == 1 {
                        8int
                    } else {
                        0int
                    }) as usize,
                    (vy + k / 2) as usize,
                )
            } else {
                (mem[i + k], vx as usize, (vy + k) as usize)
            },
    )
}

/// The rows after the writes `w`, in order.
pub open spec fn apply_writes(rows: Seq<u128>, hi: bool, w: Seq<SpriteWrite>) -> Seq<u128>
    decreases w.len(),
{
    if w.len() == 0 {
        rows
    } else {
        let last = w.last();
        write_rows(apply_writes(rows, hi, w.drop_last()), hi, last.0, last.1, last.2)
    }
}

/// Whether any of the writes `w`, in order, clears a set pixel.
pub open spec fn writes_erase(rows: Seq<u128>, hi: bool, w: Seq<SpriteWrite>) -> bool
    decreases w.len(),
{
    if w.len() == 0 {
        false
    } else {
        let last = w.last();
        writes_erase(rows, hi, w.drop_last()) || write_erases(
            apply_writes(rows, hi, w.drop_last()),
            hi,
            last.0,
            last.1,
            last.2,
        )
    }
}

/// Whether `Dxyn` draws a 16x16 sprite.
pub open spec fn draws_wide(m: Machine, op: u16) -> bool {
    op_n(op) == 0 && m.screen.hi_res
}

/// Bytes that `Dxyn` reads.
pub open spec fn sprite_len(m: Machine, op: u16) -> int {
    if draws_wide(m, op) {
        32
    } else {
        op_n(op)
    }
}

/// `Dxyn`: draws, and sets the flag register to whether a pixel was cleared.
pub open spec fn draw(m: Machine, op: u16) -> Machine {
    let count = sprite_len(m, op);
    let w = sprite_writes(
        m.mem,
        m.i as int,
        m.regs[op_x(op)],
        m.regs[op_y(op)],
        count,
        draws_wide(m, op),
    );
    let hi = m.screen.hi_res;
    let drawn = Machine {
        screen: Screen {
            rows: apply_writes(m.screen.rows, hi, w),
            hi_res: hi,
            dirty: m.screen.dirty || count > 0,
        },
        ..m
    };
    set_reg(drawn, 15, flag(writes_erase(m.screen.rows, hi, w)))
}

/// `I + v`, wrapping at the width of an address.
pub open spec fn wrapping_index(i: usize, v: u8) -> usize {
    if i + v > usize::MAX {
        (i + v - usize::MAX - 1) as usize
    } else {
        (i + v) as usize
    }
}

/// The `Fx..` family; `None` for an unknown low byte.
pub open spec fn misc(m: Machine, op: u16, inp: TickInput) -> Option<Result<Machine, Fault>> {
    let x = op_x(op);
    let vx = m.regs[x];
    let kk = op_kk(op);
    if kk == 0x07 {
        Some(Ok(set_reg(m, x, m.delay_timer as int)))
    } else if kk == 0x0A {
        Some(Ok(set_reg(m, x, inp.key_pressed as int)))
    } else if kk == 0x15 {
        Some(Ok(Machine { delay_timer: vx, ..m }))
    } else if kk == 0x18 {
        Some(Ok(Machine { sound_timer: vx, ..m }))
    } else if kk == 0x1E {
        Some(Ok(Machine { i: wrapping_index(m.i, vx), ..m }))
    } else if kk == 0x29 {
        Some(Ok(Machine { i: (vx * 5) as usize, ..m }))
    } else if kk == 0x30 {
        Some(Ok(Machine { i: (vx * 10 + 40) as usize, ..m }))
    } else if kk == 0x33 {
        Some(
            if m.i + 3 > 4096 {
                Err(Fault::AddressOutOfRange)
            } else {
                Ok(
                    Machine {
                        mem: m.mem.update(m.i as int, vx / 100).update(m.i + 1, (vx / 10) % 10).update(
                            m.i + 2,
                            vx % 10,
                        ),
                        ..m
                    },
                )
            },
        )
    } else if kk == 0x55 {
        Some(
            if m.i + x + 1 > 4096 {
                Err(Fault::AddressOutOfRange)
            } else {
                Ok(
                    Machine {
                        mem: Seq::new(
                            4096,
                            |a: int|
                                if m.i <= a <= m.i + x {
                                    m.regs[a - m.i]
                                } else {
                                    m.mem[a]
                                },
                        ),
                        ..m
                    },
                )
            },
        )
    } else if kk == 0x65 {
        Some(
            if m.i + x + 1 > 4096 {
                Err(Fault::AddressOutOfRange)
            } else {
                Ok(
                    Machine {
                        regs: Seq::new(
                            16,
                            |j: int|
                                if j <= x {
                                    m.mem[m.i + j]
                                } else {
                                    m.regs[j]
                                },
                        ),
                        ..m
                    },
                )
            },
        )
    } else {
        None
    }
}

/// The state after opcode `op` runs on `m` with `inp`, and how it ended.
/// A fault leaves the state as it was.
#[verifier::opaque]
pub open spec fn step(m: Machine, op: u16, inp: TickInput) -> (Machine, Result<Status, Fault>) {
    let f = op_family(op);
    let x = op_x(op);
    let vx = m.regs[x];
    let vy = m.regs[op_y(op)];
    let kk = op_kk(op);
    let nnn = op_nnn(op);
    let invalid = Fault::InvalidOpcode { opcode: op, pc: m.pc };
    if f == 0 {
        if 0x00C0 <= op <= 0x00CF {
            (advance(with_rows(m, down_scrolled(m.screen.rows, op_n(op)))), Ok(Status::Running))
        } else if op == 0x00E0 {
            (
                advance(
                    Machine {
                        screen: Screen {
                            rows: Seq::new(64, |k: int| 0u128),
                            dirty: true,
                            ..m.screen
                        },
                        ..m
                    },
                ),
                Ok(Status::Running),
            )
        } else if op == 0x00EE {
            if m.sp == 0 {
                (m, Err(Fault::StackUnderflow))
            } else {
                (
                    advance(Machine { pc: m.stack[m.sp as int], sp: (m.sp - 1) as usize, ..m }),
                    Ok(Status::Running),
                )
            }
        } else if op == 0x00FB {
            (advance(with_rows(m, side_scrolled(m.screen.rows, 4))), Ok(Status::Running))
        } else if op == 0x00FC {
            (advance(with_rows(m, side_scrolled(m.screen.rows, -4i32))), Ok(Status::Running))
        } else if op == 0x00FD {
            (m, Ok(Status::Exited))
        } else if op == 0x00FE {
            (
                advance(Machine { screen: Screen { hi_res: false, ..m.screen }, ..m }),
                Ok(Status::Running),
            )
        } else if op == 0x00FF {
            (
                advance(Machine { screen: Screen { hi_res: true, ..m.screen }, ..m }),
                Ok(Status::Running),
            )
        } else {
            (advance(m), Ok(Status::Running))
        }
    } else if f == 1 {
        (with_pc(m, nnn), Ok(Status::Running))
    } else if f == 2 {
        if m.sp + 1 >= 16 {
            (m, Err(Fault::StackOverflow))
        } else {
            (
                with_pc(
                    Machine { sp: (m.sp + 1) as usize, stack: m.stack.update(m.sp + 1, m.pc), ..m },
                    nnn,
                ),
                Ok(Status::Running),
            )
        }
    } else if f == 3 {
        (skip_if(m, vx == kk), Ok(Status::Running))
    } else if f == 4 {
        (skip_if(m, vx != kk), Ok(Status::Running))
    } else if f == 5 {
        (skip_if(m, vx == vy), Ok(Status::Running))
    } else if f == 6 {
        (advance(set_reg(m, x, kk)), Ok(Status::Running))
    } else if f == 7 {
        (advance(set_reg(m, x, (vx + kk) % 256)), Ok(Status::Running))
    } else if f == 8 {
        match alu(m, op) {
            Some(m2) => (advance(m2), Ok(Status::Running)),
            None => (m, Err(invalid)),
        }
    } else if f == 9 {
        (skip_if(m, vx != vy), Ok(Status::Running))
    } else if f == 10 {
        (advance(Machine { i: nnn as usize, ..m }), Ok(Status::Running))
    } else if f == 11 {
        (with_pc(m, nnn + m.regs[0]), Ok(Status::Running))
    } else if f == 12 {
        (advance(set_reg(m, x, (inp.random & kk as u8) as int)), Ok(Status::Running))
    } else if f == 13 {
        if m.i + sprite_len(m, op) > 4096 {
            (m, Err(Fault::AddressOutOfRange))
        } else {
            (advance(draw(m, op)), Ok(Status::Running))
        }
    } else if f == 14 {
        if kk == 0x9E {
            (skip_if(m, inp.key_down), Ok(Status::Running))
        } else if kk == 0xA1 {
            (skip_if(m, !inp.key_down), Ok(Status::Running))
        } else {
            (m, Err(invalid))
        }
    } else {
        match misc(m, op, inp) {
            Some(Ok(m2)) => (advance(m2), Ok(Status::Running)),
            Some(Err(e)) => (m, Err(e)),
            None => (m, Err(invalid)),
        }
    }
}

/// One instruction fetched at the program counter; a counter too close to the
/// end of memory to hold an opcode is a fault.
pub open spec fn tick(m: Machine, inp: TickInput) -> (Machine, Result<Status, Fault>) {
    if m.pc + 1 >= 4096 {
        (m, Err(Fault::AddressOutOfRange))
    } else {
        step(m, fetch(m.mem, m.pc as int), inp)
    }
}

/// What the instruction at the program counter asks of the keyboard.
pub open spec fn key_request_of(m: Machine) -> KeyRequest {
    if m.pc + 1 >= 4096 {
        KeyRequest::Nothing
    } else {
        let op = fetch(m.mem, m.pc as int);
        if op_family(op) == 14 && (op_kk(op) == 0x9E || op_kk(op) == 0xA1) {
            KeyRequest::IsDown(m.regs[op_x(op)])
        } else if op_family(op) == 15 && op_kk(op) == 0x0A {
            KeyRequest::WaitForKey
        } else {
            KeyRequest::Nothing
        }
    }
}

/// Relies on `rand::random::<u8>`, which draws from the thread-local
/// generator; nothing is assumed of the byte it returns.
#[verifier::external_body]
fn random_byte() -> (r: u8) {
    rand::random::<u8>()
}

/// The big-endian opcode stored at `addr` and `addr + 1`.
pub fn get_opcode(mem: &[u8; 4096], addr: usize) -> (r: u16)
    requires
        addr + 1 < 4096,
    ensures
        r == fetch(mem@, addr as int),
{
    mem[addr] as u16 * 256 + mem[addr + 1] as u16
}

/// A full copy of the machine's state, for the host to inspect.
pub struct Chip8State {
    pub mem: [u8; 4096],
    pub regs: [u8; 16],
    pub stack: [usize; 16],
    pub pc: usize,
    pub i: usize,
    pub sp: usize,
    pub sound_timer: u8,
    pub delay_timer: u8,
}

/// The interpreter: memory, registers, return stack, timers and display.
pub struct Chip8 {
    mem: [u8; 4096],
    regs: [u8; 16],
    stack: [usize; 16],
    pc: usize,
    i: usize,
    sp: usize,
    sound_timer: u8,
    delay_timer: u8,
    pub display: Display,
}

impl View for Chip8 {
    type V = Machine;

    closed spec fn view(&self) -> Machine {
        Machine {
            mem: self.mem@,
            regs: self.regs@,
            stack: self.stack@,
            pc: self.pc,
            i: self.i,
            sp: self.sp,
            sound_timer: self.sound_timer,
            delay_timer: self.delay_timer,
            screen: self.display@,
        }
    }
}

/// The shape every reachable state has: 64 display rows, the stack pointer
/// within the slots and every return address inside memory.
pub open spec fn well_formed(m: Machine) -> bool {
    &&& m.mem.len() == 4096
    &&& m.regs.len() == 16
    &&& m.stack.len() == 16
    &&& m.screen.rows.len() == 64
    &&& m.sp < 16
    &&& forall|k: int| 0 <= k < 16 ==> #[trigger] m.stack[k] < 4096
}

/// The memory image after loading `program` at `at` with `font` below it.
pub open spec fn loaded(mem: Seq<u8>, at: int, program: Seq<u8>, font: Seq<u8>) -> Seq<u8> {
    Seq::new(
        4096,
        |a: int|
            if a < 240 {
                font[a]
            } else if at <= a < at + program.len() {
                program[a - at]
            } else {
                mem[a]
            },
    )
}

/// The font that `load` installs.
pub open spec fn font_of(font: Option<[u8; 240]>) -> Seq<u8> {
    match font {
        Some(f) => f@,
        None => DEFAULT_FONT@,
    }
}

impl Chip8 {
    pub open spec fn wf(&self) -> bool {
        well_formed(self@)
    }

    /// A machine with every byte, register, slot and timer zero and a blank
    /// low-resolution display.
    pub fn new() -> (r: Chip8)
        ensures
            r.wf(),
            r@.mem == Seq::new(4096, |a: int| 0u8),
            r@.regs == Seq::new(16, |a: int| 0u8),
            r@.stack == Seq::new(16, |a: int| 0usize),
            r@.pc == 0,
            r@.i == 0,
            r@.sp == 0,
            r@.sound_timer == 0,
            r@.delay_timer == 0,
            r@.screen.rows == Seq::new(64, |k: int| 0u128),
            !r@.screen.hi_res,
            !r@.screen.dirty,
    {
        let r = Chip8 {
            mem: [0u8; 4096],
            regs: [0u8; 16],
            stack: [0usize; 16],
            pc: 0,
            i: 0,
            sp: 0,
            sound_timer: 0,
            delay_timer: 0,
            display: Display::new(),
        };
        assert(r@.mem =~= Seq::new(4096, |a: int| 0u8));
        assert(r@.regs =~= Seq::new(16, |a: int| 0u8));
        assert(r@.stack =~= Seq::new(16, |a: int| 0usize));
        r
    }

    /// A copy of memory, registers, stack and timers.
    pub fn to_state(&self) -> (r: Chip8State)
        ensures
            r.mem@ == self@.mem,
            r.regs@ == self@.regs,
            r.stack@ == self@.stack,
            r.pc == self@.pc,
            r.i == self@.i,
            r.sp == self@.sp,
            r.sound_timer == self@.sound_timer,
            r.delay_timer == self@.delay_timer,
    {
        Chip8State {
            mem: self.mem,
            regs: self.regs,
            stack: self.stack,
            pc: self.pc,
            i: self.i,
            sp: self.sp,
            sound_timer: self.sound_timer,
            delay_timer: self.delay_timer,
        }
    }

    pub fn get_regs(&self) -> (r: [u8; 16])
        ensures
            r@ == self@.regs,
    {
        self.regs
    }

    pub fn get_i(&self) -> (r: usize)
        ensures
            r == self@.i,
    {
        self.i
    }

    pub fn get_sound_timer(&self) -> (r: u8)
        ensures
            r == self@.sound_timer,
    {
        self.sound_timer
    }

    pub fn get_delay_timer(&self) -> (r: u8)
        ensures
            r == self@.delay_timer,
    {
        self.delay_timer
    }

    /// Whether the sound timer is running.
    pub fn is_sound_playing(&self) -> (r: bool)
        ensures
            r == (self@.sound_timer > 0),
    {
        self.sound_timer > 0
    }

    pub fn get_memory(&self, addr: usize) -> (r: u8)
        requires
            addr < 4096,
        ensures
            r == self@.mem[addr as int],
    {
        self.mem[addr]
    }

    /// The opcode stored at `addr`.
    pub fn get_opcode(&self, addr: usize) -> (r: u16)
        requires
            addr + 1 < 4096,
        ensures
            r == fetch(self@.mem, addr as int),
    {
        get_opcode(&self.mem, addr)
    }

    pub fn get_pc(&self) -> (r: usize)
        ensures
            r == self@.pc,
    {
        self.pc
    }

    /// Installs `font` (or the default one) in bytes 0-239, copies `program`
    /// from `at` on, and points the program counter at it.
    pub fn load(&mut self, at: usize, program: &[u8], font: Option<[u8; 240]>)
        requires
            old(self).wf(),
            240 <= at,
            at + program@.len() <= 4096,
        ensures
            final(self).wf(),
            final(self)@ == (Machine {
                mem: loaded(old(self)@.mem, at as int, program@, font_of(font)),
                pc: at,
                ..old(self)@
            }),
    {
        let ghost before = self.mem@;
        let mut k: usize = 0;
        while k < program.len()
            invariant
                k <= program@.len(),
                240 <= at,
                at + program@.len() <= 4096,
                self.regs == old(self).regs,
                self.stack == old(self).stack,
                self.pc == old(self).pc,
                self.i == old(self).i,
                self.sp == old(self).sp,
                self.sound_timer == old(self).sound_timer,
                self.delay_timer == old(self).delay_timer,
                self.display == old(self).display,
                before == old(self).mem@,
                forall|a: int|
                    0 <= a < 4096 ==> #[trigger] self.mem@[a] == if at <= a < at + k {
                        program@[a - at]
                    } else {
                        before[a]
                    },
            decreases program@.len() - k,
        {
            self.mem[at + k] = program[k];
            k += 1;
        }
        let table: [u8; 240] = match font {
            None => DEFAULT_FONT,
            Some(f) => f,
        };
        let mut j: usize = 0;
        while j < 240
            invariant
                j <= 240,
                240 <= at,
                at + program@.len() <= 4096,
                table@ == font_of(font),
                self.regs == old(self).regs,
                self.stack == old(self).stack,
                self.pc == old(self).pc,
                self.i == old(self).i,
                self.sp == old(self).sp,
                self.sound_timer == old(self).sound_timer,
                self.delay_timer == old(self).delay_timer,
                self.display == old(self).display,
                forall|a: int|
                    0 <= a < 4096 ==> #[trigger] self.mem@[a] == if a < j {
                        table@[a]
                    } else if at <= a < at + program@.len() {
                        program@[a - at]
                    } else {
                        before[a]
                    },
            decreases 240 - j,
        {
            self.mem[j] = table[j];
            j += 1;
        }
        self.pc = at;
        assert(self.mem@ =~= loaded(before, at as int, program@, font_of(font)));
    }

    /// Pushes a return address: the pointer moves up, then the slot is written.
    fn stack_push(&mut self, v: usize) -> (r: Result<(), Fault>)
        requires
            old(self).wf(),
            v < 4096,
        ensures
            final(self).wf(),
            old(self)@.sp + 1 >= 16 ==> r == Err::<(), Fault>(Fault::StackOverflow) && final(self)@
                == old(self)@,
            old(self)@.sp + 1 < 16 ==> r == Ok::<(), Fault>(()) && final(self)@ == (Machine {
                sp: (old(self)@.sp + 1) as usize,
                stack: old(self)@.stack.update(old(self)@.sp + 1, v),
                ..old(self)@
            }),
    {
        if self.sp + 1 >= 16 {
            return Err(Fault::StackOverflow);
        }
        self.sp += 1;
        self.stack[self.sp] = v;
        Ok(())
    }

    /// Pops a return address: the slot is read, then the pointer moves down.
    fn stack_pop(&mut self) -> (r: Result<usize, Fault>)
        requires
            old(self).wf(),
        ensures
            final(self).wf(),
            old(self)@.sp == 0 ==> r == Err::<usize, Fault>(Fault::StackUnderflow) && final(self)@
                == old(self)@,
            old(self)@.sp > 0 ==> r == Ok::<usize, Fault>(old(self)@.stack[old(self)@.sp as int])
                && final(self)@ == (Machine { sp: (old(self)@.sp - 1) as usize, ..old(self)@ }),
    {
        if self.sp == 0 {
            return Err(Fault::StackUnderflow);
        }
        self.sp -= 1;
        Ok(self.stack[self.sp + 1])
    }

    /// Counts both timers down by one, stopping at zero.
    pub fn timers_tick(&mut self)
        requires
            old(self).wf(),
        ensures
            final(self).wf(),
            final(self)@ == (Machine {
                delay_timer: if old(self)@.delay_timer > 0 {
                    (old(self)@.delay_timer - 1) as u8
                } else {
                    0
                },
                sound_timer: if old(self)@.sound_timer > 0 {
                    (old(self)@.sound_timer - 1) as u8
                } else {
                    0
                },
                ..old(self)@
            }),
    {
        if self.delay_timer > 0 {
            self.delay_timer -= 1
        }
        if self.sound_timer > 0 {
            self.sound_timer -= 1
        }
    }

    /// Family `0`: display control, return, exit.
    fn exec_system(&mut self, op: u16, Ghost(inp): Ghost<TickInput>) -> (r: Result<Status, Fault>)
        requires
            old(self).wf(),
            old(self)@.pc + 1 < 4096,
            op_family(op) == 0,
        ensures
            final(self).wf(),
            (final(self)@, r) == step(old(self)@, op, inp),
    {
        proof {
            reveal(step);
        }
        if 0x00C0 <= op && op <= 0x00CF {
            self.display.scroll_down((op % 16) as u32);
        } else if op == 0x00E0 {
            self.display.clear();
        } else if op == 0x00EE {
            match self.stack_pop() {
                Ok(a) => self.pc = a,
                Err(e) => return Err(e),
            }
        } else if op == 0x00FB {
            self.display.scroll_side(4);
        } else if op == 0x00FC {
            self.display.scroll_side(-4);
        } else if op == 0x00FD {
            return Ok(Status::Exited);
        } else if op == 0x00FE {
            self.display.low_res_mode();
        } else if op == 0x00FF {
            self.display.hi_res_mode();
        }
        self.pc = self.pc + 2;
        Ok(Status::Running)
    }

    /// Family `8`: register arithmetic and logic.
    fn exec_alu(&mut self, op: u16, Ghost(inp): Ghost<TickInput>) -> (r: Result<Status, Fault>)
        requires
            old(self).wf(),
            old(self)@.pc + 1 < 4096,
            op_family(op) == 8,
        ensures
            final(self).wf(),
            (final(self)@, r) == step(old(self)@, op, inp),
    {
        proof {
            reveal(step);
        }
        let x = ((op / 256) % 16) as usize;
        let y = ((op / 16) % 16) as usize;
        let n = op % 16;
        let vx = self.regs[x];
        let vy = self.regs[y];
        if n == 0 {
            self.regs[x] = vy;
        } else if n == 1 {
            self.regs[x] = vx | vy;
        } else if n == 2 {
            self.regs[x] = vx & vy;
        } else if n == 3 {
            self.regs[x] = vx ^ vy;
        } else if n == 4 {
            self.regs[15] = if vx as u16 + vy as u16 > 255 {
                1
            } else {
                0
            };
            self.regs[x] = ((vx as u16 + vy as u16) % 256) as u8;
        } else if n == 5 {
            self.regs[15] = if vx >= vy {
                1
            } else {
                0
            };
            self.regs[x] = ((vx as u16 + 256 - vy as u16) % 256) as u8;
        } else if n == 6 {
            self.regs[x] = vy / 2;
            self.regs[15] = vy % 2;
        } else if n == 7 {
            self.regs[15] = if vy >= vx {
                1
            } else {
                0
            };
            self.regs[x] = ((vy as u16 + 256 - vx as u16) % 256) as u8;
        } else if n == 14 {
            self.regs[x] = ((vy as u16 * 2) % 256) as u8;
            self.regs[15] = vy / 128;
        } else {
            return Err(Fault::InvalidOpcode { opcode: op, pc: self.pc });
        }
        self.pc = self.pc + 2;
        Ok(Status::Running)
    }

    /// Family `D`: draws a sprite from memory at `I`.
    fn exec_draw(&mut self, op: u16, Ghost(inp): Ghost<TickInput>) -> (r: Result<Status, Fault>)
        requires
            old(self).wf(),
            old(self)@.pc + 1 < 4096,
            op_family(op) == 13,
        ensures
            final(self).wf(),
            (final(self)@, r) == step(old(self)@, op, inp),
    {
        proof {
            reveal(step);
        }
        let n = (op % 16) as usize;
        let wide = n == 0 && self.display.hi_res();
        let count: usize = if wide {
            32
        } else {
            n
        };
        if self.i > 4096 - count {
            return Err(Fault::AddressOutOfRange);
        }
        let vx = self.regs[((op / 256) % 16) as usize];
        let vy = self.regs[((op / 16) % 16) as usize];
        let ghost m0 = self@;
        let ghost hi = m0.screen.hi_res;
        let ghost w = sprite_writes(m0.mem, m0.i as int, vx, vy, count as int, wide);
        let mut erased = false;
        let mut k: usize = 0;
        while k < count
            invariant
                k <= count,
                count == sprite_len(m0, op),
                wide == draws_wide(m0, op),
                self.i + count <= 4096,
                self@ == (Machine { screen: self@.screen, ..m0 }),
                self@.screen.hi_res == hi,
                self@.screen.dirty == (m0.screen.dirty || k > 0),
                self@.screen.rows == apply_writes(m0.screen.rows, hi, w.take(k as int)),
                erased == writes_erase(m0.screen.rows, hi, w.take(k as int)),
                vx == m0.regs[op_x(op)],
                vy == m0.regs[op_y(op)],
                w == sprite_writes(m0.mem, m0.i as int, vx, vy, count as int, wide),
                well_formed(m0),
            decreases count - k,
        {
            let b = self.mem[self.i + k];
            let col: usize;
            let row: usize;
            if wide {
                col = vx as usize + if k % 2 == 1 {
                    8
                } else {
                    0
                };
                row = vy as usize + k / 2;
            } else {
                col = vx as usize;
                row = vy as usize + k;
            }
            let e = self.display.write(b, col, row);
            erased = erased || e;
            proof {
                assert(w.take(k + 1).drop_last() =~= w.take(k as int));
                assert(w.take(k + 1).last() == w[k as int]);
            }
            k += 1;
        }
        proof {
            assert(w.take(count as int) =~= w);
            self.display.lemma_row_count();
        }
        self.regs[15] = if erased {
            1
        } else {
            0
        };
        self.pc = self.pc + 2;
        Ok(Status::Running)
    }

    /// Family `F`: timers, key wait, the index register, digits and block moves.
    fn exec_misc(&mut self, op: u16, inp: TickInput) -> (r: Result<Status, Fault>)
        requires
            old(self).wf(),
            old(self)@.pc + 1 < 4096,
            op_family(op) == 15,
        ensures
            final(self).wf(),
            (final(self)@, r) == step(old(self)@, op, inp),
    {
        proof {
            reveal(step);
        }
        let x = ((op / 256) % 16) as usize;
        let kk = op % 256;
        let vx = self.regs[x];
        if kk == 0x07 {
            self.regs[x] = self.delay_timer;
        } else if kk == 0x0A {
            self.regs[x] = inp.key_pressed;
        } else if kk == 0x15 {
            self.delay_timer = vx;
        } else if kk == 0x18 {
            self.sound_timer = vx;
        } else if kk == 0x1E {
            if self.i > usize::MAX - vx as usize {
                self.i = vx as usize - (usize::MAX - self.i) - 1;
            } else {
                self.i = self.i + vx as usize;
            }
        } else if kk == 0x29 {
            self.i = vx as usize * 5;
        } else if kk == 0x30 {
            self.i = vx as usize * 10 + 40;
        } else if kk == 0x33 {
            if self.i > 4096 - 3 {
                return Err(Fault::AddressOutOfRange);
            }
            let i = self.i;
            self.mem[i] = vx / 100;
            self.mem[i + 1] = (vx / 10) % 10;
            self.mem[i + 2] = vx % 10;
        } else if kk == 0x55 {
            if self.i > 4096 - (x + 1) {
                return Err(Fault::AddressOutOfRange);
            }
            let ghost before = self.mem@;
            let mut j: usize = 0;
            while j <= x
                invariant
                    j <= x + 1,
                    x < 16,
                    self.i + x + 1 <= 4096,
                    self@ == (Machine { mem: self@.mem, ..old(self)@ }),
                    before == old(self)@.mem,
                    self@.mem.len() == 4096,
                    forall|a: int|
                        0 <= a < 4096 ==> #[trigger] self@.mem[a] == if self.i <= a < self.i + j {
                            self@.regs[a - self.i]
                        } else {
                            before[a]
                        },
                decreases x + 1 - j,
            {
                self.mem[self.i + j] = self.regs[j];
                j += 1;
            }
            proof {
                let m = old(self)@;
                assert(self@.mem =~= Seq::new(
                    4096,
                    |a: int|
                        if m.i <= a <= m.i + x {
                            m.regs[a - m.i]
                        } else {
                            m.mem[a]
                        },
                ));
            }
        } else if kk == 0x65 {
            if self.i > 4096 - (x + 1) {
                return Err(Fault::AddressOutOfRange);
            }
            let mut j: usize = 0;
            while j <= x
                invariant
                    j <= x + 1,
                    x < 16,
                    self.i + x + 1 <= 4096,
                    self@ == (Machine { regs: self@.regs, ..old(self)@ }),
                    self@.regs.len() == 16,
                    forall|a: int|
                        0 <= a < 16 ==> #[trigger] self@.regs[a] == if a < j {
                            self@.mem[self.i + a]
                        } else {
                            old(self)@.regs[a]
                        },
                decreases x + 1 - j,
            {
                self.regs[j] = self.mem[self.i + j];
                j += 1;
            }
            proof {
                let m = old(self)@;
                assert(self@.regs =~= Seq::new(
                    16,
                    |a: int|
                        if a <= x {
                            m.mem[m.i + a]
                        } else {
                            m.regs[a]
                        },
                ));
            }
        } else {
            return Err(Fault::InvalidOpcode { opcode: op, pc: self.pc });
        }
        self.pc = self.pc + 2;
        Ok(Status::Running)
    }

    /// Runs opcode `op` with the host's answers `inp`.
    fn run_opcode(&mut self, op: u16, inp: TickInput) -> (r: Result<Status, Fault>)
        requires
            old(self).wf(),
            old(self)@.pc + 1 < 4096,
        ensures
            final(self).wf(),
            (final(self)@, r) == step(old(self)@, op, inp),
    {
        proof {
            reveal(step);
        }
        let f = op / 4096;
        let x = ((op / 256) % 16) as usize;
        let y = ((op / 16) % 16) as usize;
        let kk = (op % 256) as u8;
        let nnn = (op % 4096) as usize;
        if f == 0 {
            return self.exec_system(op, Ghost(inp));
        } else if f == 1 {
            self.pc = nnn;
            return Ok(Status::Running);
        } else if f == 2 {
            let pc = self.pc;
            match self.stack_push(pc) {
                Ok(()) => {},
                Err(e) => return Err(e),
            }
            self.pc = nnn;
            return Ok(Status::Running);
        } else if f == 3 || f == 4 || f == 5 || f == 9 || f == 14 {
            let c = if f == 3 {
                self.regs[x] == kk
            } else if f == 4 {
                self.regs[x] != kk
            } else if f == 5 {
                self.regs[x] == self.regs[y]
            } else if f == 9 {
                self.regs[x] != self.regs[y]
            } else if kk == 0x9E {
                inp.key_down
            } else if kk == 0xA1 {
                !inp.key_down
            } else {
                return Err(Fault::InvalidOpcode { opcode: op, pc: self.pc });
            };
            if c {
                self.pc = self.pc + 4;
                return Ok(Status::Running);
            }
        } else if f == 6 {
            self.regs[x] = kk;
        } else if f == 7 {
            self.regs[x] = ((self.regs[x] as u16 + kk as u16) % 256) as u8;
        } else if f == 8 {
            return self.exec_alu(op, Ghost(inp));
        } else if f == 10 {
            self.i = nnn;
        } else if f == 11 {
            self.pc = nnn + self.regs[0] as usize;
            return Ok(Status::Running);
        } else if f == 12 {
            self.regs[x] = inp.random & kk;
        } else if f == 13 {
            return self.exec_draw(op, Ghost(inp));
        } else {
            return self.exec_misc(op, inp);
        }
        self.pc = self.pc + 2;
        Ok(Status::Running)
    }

    /// Runs the instruction at the program counter with the host's answers:
    /// whether the key it asks about is down, the key a wait produced, and the
    /// random byte for `Cxkk`.
    pub fn step(&mut self, inp: TickInput) -> (r: Result<Status, Fault>)
        requires
            old(self).wf(),
        ensures
            final(self).wf(),
            (final(self)@, r) == tick(old(self)@, inp),
    {
        if self.pc >= 4095 {
            return Err(Fault::AddressOutOfRange);
        }
        let op = get_opcode(&self.mem, self.pc);
        self.run_opcode(op, inp)
    }

    /// Runs the instruction at the program counter with a freshly drawn random
    /// byte and the host's key answers; see `key_request` for which key
    /// answer the instruction reads.
    pub fn cpu_tick(&mut self, key_down: bool, key_pressed: u8) -> (r: Result<Status, Fault>)
        requires
            old(self).wf(),
        ensures
            final(self).wf(),
            exists|random: u8|
                (final(self)@, r) == #[trigger] tick(
                    old(self)@,
                    TickInput { key_down, key_pressed, random },
                ),
    {
        let random = random_byte();
        let inp = TickInput { key_down, key_pressed, random };
        self.step(inp)
    }

    /// What the instruction at the program counter needs from the keyboard.
    pub fn key_request(&self) -> (r: KeyRequest)
        ensures
            r == key_request_of(self@),
    {
        if self.pc >= 4095 {
            return KeyRequest::Nothing;
        }
        let op = get_opcode(&self.mem, self.pc);
        let family = op / 4096;
        let kk = op % 256;
        if family == 14 && (kk == 0x9E || kk == 0xA1) {
            KeyRequest::IsDown(self.regs[((op / 256) % 16) as usize])
        } else if family == 15 && kk == 0x0A {
            KeyRequest::WaitForKey
        } else {
            KeyRequest::Nothing
        }
    }
}

/// `8xy4` sets the flag register to 1 exactly when `Vx + Vy` exceeds 255 and
/// `Vx` to the sum modulo 256; `8xy5` sets the flag register to 1 exactly when
/// `Vx >= Vy` (no borrow) and `Vx` to the difference modulo 256. Both fall
/// through to the next instruction. This holds for every `x` other than the
/// flag register itself, whose result overwrites the flag.
#[verifier::spinoff_prover]
#[verifier::rlimit(40)]
pub proof fn lemma_add_sub_flags(m: Machine, x: u16, y: u16, inp: TickInput)
    requires
        well_formed(m),
        x < 15,
        y < 16,
        m.pc + 2 <= usize::MAX,
    ensures
        step(m, (0x8004 + x * 256 + y * 16) as u16, inp).1 == Ok::<Status, Fault>(Status::Running),
        step(m, (0x8004 + x * 256 + y * 16) as u16, inp).0.regs[15] == flag(
            m.regs[x as int] + m.regs[y as int] > 255,
        ),
        step(m, (0x8004 + x * 256 + y * 16) as u16, inp).0.regs[x as int] == (m.regs[x as int]
            + m.regs[y as int]) % 256,
        step(m, (0x8004 + x * 256 + y * 16) as u16, inp).0.pc == m.pc + 2,
        step(m, (0x8005 + x * 256 + y * 16) as u16, inp).1 == Ok::<Status, Fault>(Status::Running),
        step(m, (0x8005 + x * 256 + y * 16) as u16, inp).0.regs[15] == flag(
            m.regs[x as int] >= m.regs[y as int],
        ),
        step(m, (0x8005 + x * 256 + y * 16) as u16, inp).0.regs[x as int] == (m.regs[x as int]
            - m.regs[y as int] + 256) % 256,
        step(m, (0x8005 + x * 256 + y * 16) as u16, inp).0.pc == m.pc + 2,
{
    let add = (0x8004 + x * 256 + y * 16) as u16;
    let sub = (0x8005 + x * 256 + y * 16) as u16;
    assert(op_family(add) == 8 && op_x(add) == x && op_y(add) == y && op_n(add) == 4);
    assert(op_family(sub) == 8 && op_x(sub) == x && op_y(sub) == y && op_n(sub) == 5);
    lemma_step_alu(m, add, inp);
    lemma_step_alu(m, sub, inp);
}

/// How `step` reads for the arithmetic family.
#[verifier::spinoff_prover]
proof fn lemma_step_alu(m: Machine, op: u16, inp: TickInput)
    requires
        op_family(op) == 8,
    ensures
        step(m, op, inp) == match alu(m, op) {
            Some(m2) => (advance(m2), Ok::<Status, Fault>(Status::Running)),
            None => (m, Err(Fault::InvalidOpcode { opcode: op, pc: m.pc })),
        },
{
    reveal(step);
}

/// Storing `V0..=Vk` at `I` and then loading `V0..=Vk` from `I` gives back the
/// registers as they were, for every `k` whose block fits in memory.
#[verifier::spinoff_prover]
#[verifier::rlimit(40)]
pub proof fn lemma_store_load(m: Machine, k: u16, inp: TickInput)
    requires
        well_formed(m),
        k < 16,
        m.i + k + 1 <= 4096,
    ensures
        step(m, (0xF055 + k * 256) as u16, inp).1 == Ok::<Status, Fault>(Status::Running),
        step(step(m, (0xF055 + k * 256) as u16, inp).0, (0xF065 + k * 256) as u16, inp).1 == Ok::<
            Status,
            Fault,
        >(Status::Running),
        step(step(m, (0xF055 + k * 256) as u16, inp).0, (0xF065 + k * 256) as u16, inp).0.regs
            == m.regs,
{
    reveal(step);
    let store = (0xF055 + k * 256) as u16;
    let load = (0xF065 + k * 256) as u16;
    assert(op_family(store) == 15 && op_x(store) == k && op_kk(store) == 0x55);
    assert(op_family(load) == 15 && op_x(load) == k && op_kk(load) == 0x65);
    let stored = Machine {
        mem: Seq::new(
            4096,
            |a: int|
                if m.i <= a <= m.i + k {
                    m.regs[a - m.i]
                } else {
                    m.mem[a]
                },
        ),
        ..m
    };
    assert(misc(m, store, inp) == Some(Ok::<Machine, Fault>(stored)));
    assert(step(m, store, inp) == (advance(stored), Ok::<Status, Fault>(Status::Running)));
    let m1 = advance(stored);
    let back = Machine {
        regs: Seq::new(
            16,
            |j: int|
                if j <= k {
                    m1.mem[m1.i + j]
                } else {
                    m1.regs[j]
                },
        ),
        ..m1
    };
    assert(misc(m1, load, inp) == Some(Ok::<Machine, Fault>(back)));
    assert(step(m1, load, inp) == (advance(back), Ok::<Status, Fault>(Status::Running)));
    assert(back.regs =~= m.regs);
}

/// After `Fx55` stores `V0..=Vk` at `I`, a later `Fx65` at the same `I`, with
/// memory untouched in between, gives `V0..=Vk` back as they were at the store,
/// whatever the registers held meanwhile.
#[verifier::spinoff_prover]
#[verifier::rlimit(40)]
pub proof fn lemma_load_after_store(m: Machine, later: Machine, k: u16, inp: TickInput)
    requires
        well_formed(m),
        well_formed(later),
        k < 16,
        m.i + k + 1 <= 4096,
        later.i == m.i,
        later.mem == step(m, (0xF055 + k * 256) as u16, inp).0.mem,
    ensures
        step(later, (0xF065 + k * 256) as u16, inp).1 == Ok::<Status, Fault>(Status::Running),
        forall|j: int|
            0 <= j <= k ==> #[trigger] step(later, (0xF065 + k * 256) as u16, inp).0.regs[j]
                == m.regs[j],
{
    reveal(step);
    let store = (0xF055 + k * 256) as u16;
    let load = (0xF065 + k * 256) as u16;
    assert(op_family(store) == 15 && op_x(store) == k && op_kk(store) == 0x55);
    assert(op_family(load) == 15 && op_x(load) == k && op_kk(load) == 0x65);
    let stored = Machine {
        mem: Seq::new(
            4096,
            |a: int|
                if m.i <= a <= m.i + k {
                    m.regs[a - m.i]
                } else {
                    m.mem[a]
                },
        ),
        ..m
    };
    assert(misc(m, store, inp) == Some(Ok::<Machine, Fault>(stored)));
    assert(later.mem == stored.mem);
    let back = Machine {
        regs: Seq::new(
            16,
            |j: int|
                if j <= k {
                    later.mem[later.i + j]
                } else {
                    later.regs[j]
                },
        ),
        ..later
    };
    assert(misc(later, load, inp) == Some(Ok::<Machine, Fault>(back)));
    assert(step(later, load, inp) == (advance(back), Ok::<Status, Fault>(Status::Running)));
}

/// A call at address `A` followed by a return in the callee leaves the
/// program counter at `A + 2` and the stack pointer where it was, whenever a
/// return slot is free.
#[verifier::spinoff_prover]
#[verifier::rlimit(40)]
pub proof fn lemma_call_return(m: Machine, target: u16, inp: TickInput)
    requires
        well_formed(m),
        m.sp + 1 < 16,
        m.pc + 2 <= usize::MAX,
        target < 4096,
    ensures
        step(m, (0x2000 + target) as u16, inp).1 == Ok::<Status, Fault>(Status::Running),
        step(m, (0x2000 + target) as u16, inp).0.pc == target,
        step(step(m, (0x2000 + target) as u16, inp).0, 0x00EE, inp).1 == Ok::<Status, Fault>(
            Status::Running,
        ),
        step(step(m, (0x2000 + target) as u16, inp).0, 0x00EE, inp).0.pc == m.pc + 2,
        step(step(m, (0x2000 + target) as u16, inp).0, 0x00EE, inp).0.sp == m.sp,
{
    reveal(step);
    let call = (0x2000 + target) as u16;
    assert(op_family(call) == 2 && op_nnn(call) == target);
    assert(op_family(0x00EEu16) == 0);
}

} // verus!
