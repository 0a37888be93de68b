//! The interpreter core: machine state and the fetch-decode-execute cycle.
//!
//! `Emu` owns memory, registers, stack, timers, keypad and framebuffer.
//! One `tick` runs exactly one instruction; `tick_timers` advances the two
//! countdown registers at the host's cadence. The meaning of a step is
//! pinned down by the mathematical interpreter `spec_step` over the model
//! `EmuView`.

use vstd::prelude::*;
use crate::font::fontset;
use crate::font::spec_fontset;

verus! {

/// Bytes of memory.
pub const RAM_SIZE: usize = 4096;
/// Framebuffer width in cells.
pub const SCREEN_WIDTH: usize = 64;
/// Framebuffer height in cells.
pub const SCREEN_HEIGHT: usize = 32;
/// Cells in the framebuffer.
pub const SCREEN_CELLS: usize = 2048;
/// General-purpose registers.
pub const NUM_REGS: usize = 16;
/// Return-address slots in the stack.
pub const STACK_SIZE: usize = 16;
/// Keys on the keypad.
pub const NUM_KEYS: usize = 16;
/// Address where program images start.
pub const START_ADDR: u16 = 512;
/// Bytes of the font bitmap at the bottom of memory.
pub const FONTSET_SIZE: usize = 80;
/// Index of the register that receives carry, borrow and collision flags.
pub const FLAG_REG: usize = 15;

/// The machine: memory, registers, stack, timers, keypad, framebuffer.
///
/// Fields are public so a host can read the framebuffer and inspect state
/// between steps; all mutation is meant to go through the methods below.
pub struct Emu {
    /// Program counter.
    pub pc: u16,
    /// Memory, `RAM_SIZE` bytes.
    pub ram: Vec<u8>,
    /// Framebuffer, row-major, `SCREEN_CELLS` cells, `true` is lit.
    pub screen: Vec<bool>,
    /// The sixteen general-purpose registers.
    pub v_reg: Vec<u8>,
    /// Index register, used for indirect memory addressing.
    pub i_reg: u16,
    /// Stack pointer: the number of return addresses on the stack.
    pub sp: u16,
    /// Return-address stack, `STACK_SIZE` slots.
    pub stack: Vec<u16>,
    /// Key-down flags, one per key code.
    pub keys: Vec<bool>,
    /// Delay timer.
    pub dt: u8,
    /// Sound timer.
    pub st: u8,
}

/// Mathematical model of the machine state.
#[verifier::ext_equal]
pub struct EmuView {
    /// Program counter.
    pub pc: u16,
    /// Memory contents.
    pub ram: Seq<u8>,
    /// Framebuffer contents.
    pub screen: Seq<bool>,
    /// General-purpose registers.
    pub v_reg: Seq<u8>,
    /// Index register.
    pub i_reg: u16,
    /// Stack pointer.
    pub sp: u16,
    /// Return-address stack.
    pub stack: Seq<u16>,
    /// Key-down flags.
    pub keys: Seq<bool>,
    /// Delay timer.
    pub dt: u8,
    /// Sound timer.
    pub st: u8,
}

impl View for Emu {
    type V = EmuView;

    open spec fn view(&self) -> EmuView {
        EmuView {
            pc: self.pc,
            ram: self.ram@,
            screen: self.screen@,
            v_reg: self.v_reg@,
            i_reg: self.i_reg,
            sp: self.sp,
            stack: self.stack@,
            keys: self.keys@,
            dt: self.dt,
            st: self.st,
        }
    }
}

/// A typed failure from stepping the machine.
#[derive(Clone, Copy, Debug, PartialEq, Eq, Structural)]
pub enum EmuError {
    /// The fetched word matches no opcode; carries the word and the
    /// address it was fetched from.
    UnknownOpcode { op: u16, pc: u16 },
    /// The program counter points past the end of memory.
    PcOutOfBounds,
    /// A call arrived with the stack already full.
    StackOverflow,
    /// A return arrived with the stack empty.
    StackUnderflow,
    /// A sprite row would be read from past the end of memory.
    SpriteOutOfBounds,
    /// A key-skip opcode named a key code past the keypad.
    InvalidKey,
    /// A program image does not fit between the entry offset and the end
    /// of memory.
    ProgramTooLarge,
}

impl EmuView {
    /// Well-formed state: every array has its fixed size and the stack
    /// pointer stays within the stack.
    pub open spec fn wf(self) -> bool {
        &&& self.ram.len() == RAM_SIZE
        &&& self.screen.len() == SCREEN_CELLS
        &&& self.v_reg.len() == NUM_REGS
        &&& self.stack.len() == STACK_SIZE
        &&& self.keys.len() == NUM_KEYS
        &&& self.sp <= STACK_SIZE
    }
}

/// The state of a freshly constructed or reset machine: everything zeroed,
/// the program counter at the entry offset, the font bitmap in low memory.
pub open spec fn initial_state() -> EmuView {
    EmuView {
        pc: START_ADDR,
        ram: Seq::new(RAM_SIZE as nat, |i: int| if i < FONTSET_SIZE { spec_fontset()[i] } else { 0u8 }),
        screen: Seq::new(SCREEN_CELLS as nat, |i: int| false),
        v_reg: Seq::new(NUM_REGS as nat, |i: int| 0u8),
        i_reg: 0,
        sp: 0,
        stack: Seq::new(STACK_SIZE as nat, |i: int| 0u16),
        keys: Seq::new(NUM_KEYS as nat, |i: int| false),
        dt: 0,
        st: 0,
    }
}

/// Whether a full instruction word can be fetched at the program counter.
pub open spec fn fetch_ok(s: EmuView) -> bool {
    s.pc as int + 1 < RAM_SIZE
}

/// The big-endian instruction word at the program counter.
pub open spec fn fetched_op(s: EmuView) -> u16 {
    ((s.ram[s.pc as int] as int) * 256 + s.ram[s.pc as int + 1] as int) as u16
}

/// The state right after a fetch: the program counter advanced past the
/// instruction word.
pub open spec fn after_fetch(s: EmuView) -> EmuView {
    EmuView { pc: (s.pc + 2) as u16, ..s }
}

/// Bits 15-12 of an instruction word: the opcode family.
pub open spec fn nib1(op: u16) -> int {
    op as int / 4096
}

/// Bits 11-8: usually the first register operand.
pub open spec fn nib2(op: u16) -> int {
    (op as int / 256) % 16
}

/// Bits 7-4: usually the second register operand.
pub open spec fn nib3(op: u16) -> int {
    (op as int / 16) % 16
}

/// Bits 3-0: a literal discriminator or a sprite height.
pub open spec fn nib4(op: u16) -> int {
    op as int % 16
}

/// Bits 11-0: a memory address operand.
pub open spec fn addr_of(op: u16) -> int {
    op as int % 4096
}

/// Bits 7-0: an immediate byte operand.
pub open spec fn imm_of(op: u16) -> u8 {
    (op as int % 256) as u8
}

/// The framebuffer index a sprite bit lands on: both axes wrap modulo the
/// framebuffer's width and height.
pub open spec fn pixel_index(vx: int, vy: int, col: int, row: int) -> int {
    (vx + col) % (SCREEN_WIDTH as int) + (SCREEN_WIDTH as int) * ((vy + row) % (SCREEN_HEIGHT as int))
}

/// Whether the sprite-row byte has its bit for column `col` set
/// (most-significant bit drawn first).
pub open spec fn sprite_bit(byte: u8, col: int) -> bool {
    byte & (0x80u8 >> (col as u8)) != 0
}

/// One sprite row XOR-composited onto the framebuffer, columns `0..cols`
/// processed, paired with whether any lit cell has been toggled off yet.
pub open spec fn draw_cols(
    screen: Seq<bool>,
    flipped: bool,
    byte: u8,
    vx: int,
    vy: int,
    row: int,
    cols: int,
) -> (Seq<bool>, bool)
    decreases cols,
{
    if cols <= 0 {
        (screen, flipped)
    } else {
        let prev = draw_cols(screen, flipped, byte, vx, vy, row, cols - 1);
        let col = cols - 1;
        if sprite_bit(byte, col) {
            let idx = pixel_index(vx, vy, col, row);
            (prev.0.update(idx, !prev.0[idx]), prev.1 || prev.0[idx])
        } else {
            prev
        }
    }
}

/// The first `rows` sprite rows XOR-composited onto the framebuffer,
/// paired with the collision flag accumulated so far.
pub open spec fn draw_rows(
    screen: Seq<bool>,
    flipped: bool,
    ram: Seq<u8>,
    i: int,
    vx: int,
    vy: int,
    rows: int,
) -> (Seq<bool>, bool)
    decreases rows,
{
    if rows <= 0 {
        (screen, flipped)
    } else {
        let prev = draw_rows(screen, flipped, ram, i, vx, vy, rows - 1);
        draw_cols(prev.0, prev.1, ram[i + rows - 1], vx, vy, rows - 1, 8)
    }
}

/// What executing an already-fetched instruction word does to the machine.
///
/// `s` is the state after the fetch (program counter already advanced past
/// the word); `rnd` is the byte the random opcode consumes, ignored by
/// every other opcode.
pub open spec fn spec_execute(s: EmuView, op: u16, rnd: u8) -> Result<EmuView, EmuError> {
    let n1 = nib1(op);
    let x = nib2(op);
    let y = nib3(op);
    let n4 = nib4(op);
    let nnn = addr_of(op);
    let nn = imm_of(op);
    if op == 0x0000 {
        // No-op terminator: the step ends without decoding further.
        Ok(s)
    } else if op == 0x00E0 {
        // Clear the framebuffer.
        Ok(EmuView { screen: Seq::new(SCREEN_CELLS as nat, |i: int| false), ..s })
    } else if op == 0x00EE {
        // Return: pop a return address into the program counter.
        if s.sp == 0 {
            Err(EmuError::StackUnderflow)
        } else {
            Ok(EmuView { pc: s.stack[s.sp - 1], sp: (s.sp - 1) as u16, ..s })
        }
    } else if n1 == 1 {
        // Jump.
        Ok(EmuView { pc: nnn as u16, ..s })
    } else if n1 == 2 {
        // Call: push the post-fetch program counter, then jump.
        if s.sp >= STACK_SIZE {
            Err(EmuError::StackOverflow)
        } else {
            Ok(EmuView {
                stack: s.stack.update(s.sp as int, s.pc),
                sp: (s.sp + 1) as u16,
                pc: nnn as u16,
                ..s
            })
        }
    } else if n1 == 3 {
        // Skip if register X equals the immediate.
        Ok(EmuView { pc: if s.v_reg[x] == nn { (s.pc + 2) as u16 } else { s.pc }, ..s })
    } else if n1 == 4 {
        // Skip if register X differs from the immediate.
        Ok(EmuView { pc: if s.v_reg[x] != nn { (s.pc + 2) as u16 } else { s.pc }, ..s })
    } else if n1 == 5 && n4 == 0 {
        // Skip if register X equals register Y.
        Ok(EmuView { pc: if s.v_reg[x] == s.v_reg[y] { (s.pc + 2) as u16 } else { s.pc }, ..s })
    } else if n1 == 6 {
        // Load the immediate into register X.
        Ok(EmuView { v_reg: s.v_reg.update(x, nn), ..s })
    } else if n1 == 7 {
        // Add the immediate into register X, wrapping, no flag touched.
        Ok(EmuView { v_reg: s.v_reg.update(x, ((s.v_reg[x] + nn) % 256) as u8), ..s })
    } else if n1 == 8 && n4 == 0 {
        // Copy register Y into register X.
        Ok(EmuView { v_reg: s.v_reg.update(x, s.v_reg[y]), ..s })
    } else if n1 == 8 && n4 == 1 {
        // Bitwise OR.
        Ok(EmuView { v_reg: s.v_reg.update(x, s.v_reg[x] | s.v_reg[y]), ..s })
    } else if n1 == 8 && n4 == 2 {
        // Bitwise AND.
        Ok(EmuView { v_reg: s.v_reg.update(x, s.v_reg[x] & s.v_reg[y]), ..s })
    } else if n1 == 8 && n4 == 3 {
        // Bitwise XOR.
        Ok(EmuView { v_reg: s.v_reg.update(x, s.v_reg[x] ^ s.v_reg[y]), ..s })
    } else if n1 == 8 && n4 == 4 {
        // Add register Y into X; the flag register reports the carry.
        let sum = s.v_reg[x] + s.v_reg[y];
        let flag: u8 = if sum > 255 { 1 } else { 0 };
        Ok(EmuView { v_reg: s.v_reg.update(x, (sum % 256) as u8).update(FLAG_REG as int, flag), ..s })
    } else if n1 == 8 && n4 == 5 {
        // X minus Y; the flag register reports that no borrow occurred.
        let flag: u8 = if s.v_reg[x] >= s.v_reg[y] { 1 } else { 0 };
        Ok(EmuView {
            v_reg: s.v_reg.update(x, ((s.v_reg[x] - s.v_reg[y]) % 256) as u8).update(FLAG_REG as int, flag),
            ..s
        })
    } else if n1 == 8 && n4 == 6 {
        // Shift X right by one; the flag register receives the bit shifted out.
        let lsb: u8 = (s.v_reg[x] % 2) as u8;
        Ok(EmuView { v_reg: s.v_reg.update(x, (s.v_reg[x] / 2) as u8).update(FLAG_REG as int, lsb), ..s })
    } else if n1 == 8 && n4 == 7 {
        // Y minus X stored into X, same borrow convention.
        let flag: u8 = if s.v_reg[y] >= s.v_reg[x] { 1 } else { 0 };
        Ok(EmuView {
            v_reg: s.v_reg.update(x, ((s.v_reg[y] - s.v_reg[x]) % 256) as u8).update(FLAG_REG as int, flag),
            ..s
        })
    } else if n1 == 8 && n4 == 0xE {
        // Shift X left by one; the flag register receives the bit shifted out.
        let msb: u8 = (s.v_reg[x] / 128) as u8;
        Ok(EmuView {
            v_reg: s.v_reg.update(x, ((s.v_reg[x] * 2) % 256) as u8).update(FLAG_REG as int, msb),
            ..s
        })
    } else if n1 == 9 && n4 == 0 {
        // Skip if register X differs from register Y.
        Ok(EmuView { pc: if s.v_reg[x] != s.v_reg[y] { (s.pc + 2) as u16 } else { s.pc }, ..s })
    } else if n1 == 0xA {
        // Load the address into the index register.
        Ok(EmuView { i_reg: nnn as u16, ..s })
    } else if n1 == 0xB {
        // Jump to the address plus register 0.
        Ok(EmuView { pc: (s.v_reg[0] + nnn) as u16, ..s })
    } else if n1 == 0xC {
        // Random byte masked by the immediate.
        Ok(EmuView { v_reg: s.v_reg.update(x, rnd & nn), ..s })
    } else if n1 == 0xD {
        // Draw an N-row sprite from the index register at (X, Y).
        if n4 > 0 && s.i_reg + n4 > RAM_SIZE {
            Err(EmuError::SpriteOutOfBounds)
        } else {
            let d = draw_rows(
                s.screen,
                false,
                s.ram,
                s.i_reg as int,
                s.v_reg[x] as int,
                s.v_reg[y] as int,
                n4,
            );
            Ok(EmuView {
                screen: d.0,
                v_reg: s.v_reg.update(FLAG_REG as int, if d.1 { 1u8 } else { 0u8 }),
                ..s
            })
        }
    } else if n1 == 0xE && y == 9 && n4 == 0xE {
        // Skip if the key named by register X is down.
        if s.v_reg[x] >= NUM_KEYS {
            Err(EmuError::InvalidKey)
        } else {
            Ok(EmuView {
                pc: if s.keys[s.v_reg[x] as int] { (s.pc + 2) as u16 } else { s.pc },
                ..s
            })
        }
    } else {
        Err(EmuError::UnknownOpcode { op, pc: (s.pc - 2) as u16 })
    }
}

/// One whole fetch-decode-execute step as a mathematical function of the
/// pre-state and of the byte the random opcode would consume.
pub open spec fn spec_step(s: EmuView, rnd: u8) -> Result<EmuView, EmuError> {
    if !fetch_ok(s) {
        Err(EmuError::PcOutOfBounds)
    } else {
        spec_execute(after_fetch(s), fetched_op(s), rnd)
    }
}

/// Whether the next instruction is the random opcode: the one step whose
/// outcome depends on the injected random byte.
pub open spec fn is_rand_step(s: EmuView) -> bool {
    fetch_ok(s) && nib1(fetched_op(s)) == 0xC
}

/// Every opcode but the random one ignores the injected byte: executing
/// the same word in the same state gives the same outcome whatever byte
/// was drawn.
pub proof fn lemma_execute_rand_irrelevant(s: EmuView, op: u16, b1: u8, b2: u8)
    requires
        nib1(op) != 0xC,
    ensures
        spec_execute(s, op, b1) == spec_execute(s, op, b2),
{
}

/// Relies on `rand::random::<u8>`: a byte from the thread-local generator.
/// Nothing is promised of the result.
#[verifier::external_body]
fn random_byte() -> u8 {
    rand::random::<u8>()
}

/// Builds a byte vector of `n` zeroes.
fn make_bytes(n: usize) -> (r: Vec<u8>)
    ensures
        r@ == Seq::new(n as nat, |i: int| 0u8),
{
    let mut v: Vec<u8> = Vec::new();
    let mut i: usize = 0;
    while i < n
        invariant
            i <= n,
            v@.len() == i,
            forall|j: int| 0 <= j < i ==> v@[j] == 0u8,
        decreases n - i,
    {
        v.push(0);
        i += 1;
    }
    proof {
        assert(v@ =~= Seq::new(n as nat, |i: int| 0u8));
    }
    v
}

/// Builds a flag vector of `n` cleared flags.
fn make_flags(n: usize) -> (r: Vec<bool>)
    ensures
        r@ == Seq::new(n as nat, |i: int| false),
{
    let mut v: Vec<bool> = Vec::new();
    let mut i: usize = 0;
    while i < n
        invariant
            i <= n,
            v@.len() == i,
            forall|j: int| 0 <= j < i ==> v@[j] == false,
        decreases n - i,
    {
        v.push(false);
        i += 1;
    }
    proof {
        assert(v@ =~= Seq::new(n as nat, |i: int| false));
    }
    v
}

/// Builds a word vector of `n` zeroes.
fn make_words(n: usize) -> (r: Vec<u16>)
    ensures
        r@ == Seq::new(n as nat, |i: int| 0u16),
{
    let mut v: Vec<u16> = Vec::new();
    let mut i: usize = 0;
    while i < n
        invariant
            i <= n,
            v@.len() == i,
            forall|j: int| 0 <= j < i ==> v@[j] == 0u16,
        decreases n - i,
    {
        v.push(0);
        i += 1;
    }
    proof {
        assert(v@ =~= Seq::new(n as nat, |i: int| 0u16));
    }
    v
}

impl Emu {
    /// Well-formed machine: fixed array sizes, stack pointer in range.
    pub open spec fn wf(&self) -> bool {
        self@.wf()
    }

    /// Builds a fresh, ready-to-run machine in the initial state.
    pub fn new() -> (r: Emu)
        ensures
            r.wf(),
            r@ == initial_state(),
    {
        let mut emu = Emu {
            pc: START_ADDR,
            ram: make_bytes(RAM_SIZE),
            screen: make_flags(SCREEN_CELLS),
            v_reg: make_bytes(NUM_REGS),
            i_reg: 0,
            sp: 0,
            stack: make_words(STACK_SIZE),
            keys: make_flags(NUM_KEYS),
            dt: 0,
            st: 0,
        };
        emu.load_font();
        proof {
            assert(emu@ =~= initial_state());
        }
        emu
    }

    /// Writes the font bitmap over the bottom of memory.
    fn load_font(&mut self)
        requires
            old(self).wf(),
        ensures
            final(self).wf(),
            final(self)@ == (EmuView { ram: final(self)@.ram, ..old(self)@ }),
            final(self)@.ram.len() == RAM_SIZE,
            forall|i: int| 0 <= i < FONTSET_SIZE ==> final(self)@.ram[i] == spec_fontset()[i],
            forall|i: int| FONTSET_SIZE <= i < RAM_SIZE ==> final(self)@.ram[i] == old(self)@.ram[i],
    {
        let f = fontset();
        let mut i: usize = 0;
        while i < FONTSET_SIZE
            invariant
                i <= FONTSET_SIZE,
                f@ == spec_fontset(),
                f@.len() == 80,
                self.ram@.len() == RAM_SIZE,
                self@ == (EmuView { ram: self@.ram, ..old(self)@ }),
                forall|j: int| 0 <= j < i ==> self.ram@[j] == spec_fontset()[j],
                forall|j: int| i <= j < RAM_SIZE ==> self.ram@[j] == old(self)@.ram[j],
            decreases FONTSET_SIZE - i,
        {
            let b = f[i];
            self.ram.set(i, b);
            i += 1;
        }
    }

    /// Wipes the machine back to the initial state, in place.
    pub fn reset(&mut self)
        ensures
            final(self).wf(),
            final(self)@ == initial_state(),
    {
        self.pc = START_ADDR;
        self.ram = make_bytes(RAM_SIZE);
        self.screen = make_flags(SCREEN_CELLS);
        self.v_reg = make_bytes(NUM_REGS);
        self.i_reg = 0;
        self.sp = 0;
        self.stack = make_words(STACK_SIZE);
        self.keys = make_flags(NUM_KEYS);
        self.dt = 0;
        self.st = 0;
        self.load_font();
        proof {
            assert(self@ =~= initial_state());
        }
    }

    /// Pushes a return address; fails when the stack is full.
    fn push(&mut self, val: u16) -> (r: Result<(), EmuError>)
        requires
            old(self).wf(),
        ensures
            final(self).wf(),
            old(self)@.sp < STACK_SIZE ==> r is Ok && final(self)@ == (EmuView {
                stack: old(self)@.stack.update(old(self)@.sp as int, val),
                sp: (old(self)@.sp + 1) as u16,
                ..old(self)@
            }),
            old(self)@.sp >= STACK_SIZE ==> r == Err::<(), EmuError>(EmuError::StackOverflow)
                && final(self)@ == old(self)@,
    {
        if self.sp < 16 {
            let sp = self.sp as usize;
            self.stack.set(sp, val);
            self.sp = self.sp + 1;
            Ok(())
        } else {
            Err(EmuError::StackOverflow)
        }
    }

    /// Pops a return address; fails when the stack is empty.
    fn pop(&mut self) -> (r: Result<u16, EmuError>)
        requires
            old(self).wf(),
        ensures
            final(self).wf(),
            old(self)@.sp > 0 ==> r == Ok::<u16, EmuError>(old(self)@.stack[old(self)@.sp - 1])
                && final(self)@ == (EmuView { sp: (old(self)@.sp - 1) as u16, ..old(self)@ }),
            old(self)@.sp == 0 ==> r == Err::<u16, EmuError>(EmuError::StackUnderflow)
                && final(self)@ == old(self)@,
    {
        if self.sp > 0 {
            self.sp = self.sp - 1;
            let sp = self.sp as usize;
            Ok(self.stack[sp])
        } else {
            Err(EmuError::StackUnderflow)
        }
    }

    /// Reads the big-endian instruction word at the program counter and
    /// advances the counter past it; fails when the counter points past
    /// the end of memory.
    fn fetch(&mut self) -> (r: Result<u16, EmuError>)
        requires
            old(self).wf(),
        ensures
            final(self).wf(),
            fetch_ok(old(self)@) ==> r == Ok::<u16, EmuError>(fetched_op(old(self)@))
                && final(self)@ == after_fetch(old(self)@),
            !fetch_ok(old(self)@) ==> r == Err::<u16, EmuError>(EmuError::PcOutOfBounds)
                && final(self)@ == old(self)@,
    {
        if self.pc < 4095 {
            let hi = self.ram[self.pc as usize] as u16;
            let lo = self.ram[(self.pc + 1) as usize] as u16;
            let op = hi * 256 + lo;
            self.pc = self.pc + 2;
            Ok(op)
        } else {
            Err(EmuError::PcOutOfBounds)
        }
    }

    /// Advances the two countdown timers by one unit: each is decremented
    /// when nonzero. Returns the sound boundary: whether the sound timer
    /// went from one to zero on this call, the moment an audible tone ends.
    pub fn tick_timers(&mut self) -> (beep: bool)
        requires
            old(self).wf(),
        ensures
            final(self).wf(),
            final(self)@.dt == if old(self)@.dt > 0 { (old(self)@.dt - 1) as u8 } else { 0u8 },
            final(self)@.st == if old(self)@.st > 0 { (old(self)@.st - 1) as u8 } else { 0u8 },
            beep == (old(self)@.st == 1),
            final(self)@ == (EmuView { dt: final(self)@.dt, st: final(self)@.st, ..old(self)@ }),
    {
        if self.dt > 0 {
            self.dt = self.dt - 1;
        }
        let beep = self.st == 1;
        if self.st > 0 {
            self.st = self.st - 1;
        }
        beep
    }

    /// Copies a program image into memory starting at the entry offset;
    /// fails, changing nothing, when the image does not fit.
    pub fn load(&mut self, data: &Vec<u8>) -> (r: Result<(), EmuError>)
        requires
            old(self).wf(),
        ensures
            final(self).wf(),
            data@.len() <= RAM_SIZE - START_ADDR ==> r is Ok && final(self)@ == (EmuView {
                ram: old(self)@.ram.subrange(0, START_ADDR as int)
                    + data@
                    + old(self)@.ram.subrange(START_ADDR + data@.len(), RAM_SIZE as int),
                ..old(self)@
            }),
            data@.len() > RAM_SIZE - START_ADDR ==> r == Err::<(), EmuError>(EmuError::ProgramTooLarge)
                && final(self)@ == old(self)@,
    {
        if data.len() > RAM_SIZE - 512 {
            return Err(EmuError::ProgramTooLarge);
        }
        let mut i: usize = 0;
        while i < data.len()
            invariant
                old(self).wf(),
                i <= data@.len(),
                data@.len() <= RAM_SIZE - 512,
                self.ram@.len() == RAM_SIZE,
                self@ == (EmuView { ram: self@.ram, ..old(self)@ }),
                forall|j: int| 0 <= j < 512 ==> self.ram@[j] == old(self)@.ram[j],
                forall|j: int| 0 <= j < i ==> self.ram@[512 + j] == data@[j],
                forall|j: int| 512 + i <= j < RAM_SIZE ==> self.ram@[j] == old(self)@.ram[j],
            decreases data@.len() - i,
        {
            let b = data[i];
            self.ram.set(512 + i, b);
            i += 1;
        }
        proof {
            assert(self@.ram =~= old(self)@.ram.subrange(0, START_ADDR as int)
                + data@
                + old(self)@.ram.subrange(START_ADDR + data@.len(), RAM_SIZE as int));
            assert(self@ =~= (EmuView {
                ram: old(self)@.ram.subrange(0, START_ADDR as int)
                    + data@
                    + old(self)@.ram.subrange(START_ADDR + data@.len(), RAM_SIZE as int),
                ..old(self)@
            }));
        }
        Ok(())
    }

    /// Reads the framebuffer: row-major, `true` is lit.
    pub fn get_display(&self) -> (r: &Vec<bool>)
        ensures
            r@ == self@.screen,
    {
        &self.screen
    }

    /// Runs exactly one fetch-decode-execute cycle.
    ///
    /// On success the new state is `spec_step` of the old one, for the
    /// byte the random opcode consumed (any byte pins the step for every
    /// other opcode). On failure the typed error is what `spec_step`
    /// returns for every byte, and the machine is left as the fetch left
    /// it: the counter advanced past the faulting word, nothing else
    /// touched.
    pub fn tick(&mut self) -> (r: Result<(), EmuError>)
        requires
            old(self).wf(),
        ensures
            final(self).wf(),
            r is Ok ==> exists|b: u8| spec_step(old(self)@, b) == Ok::<EmuView, EmuError>(final(self)@),
            r is Ok && !is_rand_step(old(self)@) ==> spec_step(old(self)@, 0)
                == Ok::<EmuView, EmuError>(final(self)@),
            r is Err ==> forall|b: u8| spec_step(old(self)@, b) == Err::<EmuView, EmuError>(r->Err_0),
            r is Err ==> final(self)@ == (if fetch_ok(old(self)@) {
                after_fetch(old(self)@)
            } else {
                old(self)@
            }),
    {
        let op = match self.fetch() {
            Ok(op) => op,
            Err(e) => {
                return Err(e);
            },
        };
        let (r, wit) = self.execute(op);
        proof {
            if r is Ok {
                assert(spec_step(old(self)@, wit@) == Ok::<EmuView, EmuError>(self@));
            } else {
                assert forall|b: u8| spec_step(old(self)@, b) == Err::<EmuView, EmuError>(
                    r->Err_0,
                ) by {
                    if nib1(op) != 0xC {
                        lemma_execute_rand_irrelevant(after_fetch(old(self)@), op, b, 0);
                    }
                }
            }
        }
        r
    }

    /// Decodes the instruction word into its four nibble fields and runs
    /// the selected opcode. `old(self)` is the post-fetch state.
    #[verifier::rlimit(100)]
    #[verifier::spinoff_prover]
    fn execute(&mut self, op: u16) -> (res: (Result<(), EmuError>, Ghost<u8>))
        requires
            old(self).wf(),
            2 <= old(self)@.pc <= 4096,
        ensures
            final(self).wf(),
            res.0 is Ok ==> spec_execute(old(self)@, op, res.1@)
                == Ok::<EmuView, EmuError>(final(self)@),
            res.0 is Ok && nib1(op) != 0xC ==> res.1@ == 0,
            res.0 is Err ==> spec_execute(old(self)@, op, 0)
                == Err::<EmuView, EmuError>(res.0->Err_0) && final(self)@ == old(self)@,
    {
        let d1 = (op & 0xF000) >> 12;
        let d2 = (op & 0x0F00) >> 8;
        let d3 = (op & 0x00F0) >> 4;
        let d4 = op & 0x000F;
        proof {
            assert((op & 0xF000) >> 12u16 == op / 4096
                && (op & 0x0F00) >> 8u16 == (op / 256) % 16
                && (op & 0x00F0) >> 4u16 == (op / 16) % 16
                && (op & 0x000F) == op % 16) by (bit_vector);
        }
        match (d1, d2, d3, d4) {
            (0, 0, 0xE, 0) => {
                self.op_clear(op);
                (Ok(()), Ghost(0u8))
            },
            (0, 0, 0xE, 0xE) => (self.op_return(op), Ghost(0u8)),
            (1, _, _, _) => {
                self.op_jump(op);
                (Ok(()), Ghost(0u8))
            },
            (2, _, _, _) => (self.op_call(op), Ghost(0u8)),
            (3, _, _, _) | (4, _, _, _) => {
                self.op_skip_imm(op);
                (Ok(()), Ghost(0u8))
            },
            (5, _, _, 0) | (9, _, _, 0) => {
                self.op_skip_reg(op);
                (Ok(()), Ghost(0u8))
            },
            (6, _, _, _) => {
                self.op_load_imm(op);
                (Ok(()), Ghost(0u8))
            },
            (7, _, _, _) => {
                self.op_add_imm(op);
                (Ok(()), Ghost(0u8))
            },
            (8, _, _, 0) | (8, _, _, 1) | (8, _, _, 2) | (8, _, _, 3) => {
                self.op_alu_bit(op);
                (Ok(()), Ghost(0u8))
            },
            (8, _, _, 4) | (8, _, _, 5) | (8, _, _, 7) => {
                self.op_alu_addsub(op);
                (Ok(()), Ghost(0u8))
            },
            (8, _, _, 6) | (8, _, _, 0xE) => {
                self.op_alu_shift(op);
                (Ok(()), Ghost(0u8))
            },
            (0xA, _, _, _) => {
                self.op_set_index(op);
                (Ok(()), Ghost(0u8))
            },
            (0xB, _, _, _) => {
                self.op_jump_v0(op);
                (Ok(()), Ghost(0u8))
            },
            (0xC, _, _, _) => {
                let rb = self.op_rand(op);
                (Ok(()), rb)
            },
            (0xD, _, _, _) => (self.op_draw(op), Ghost(0u8)),
            (0xE, _, 9, 0xE) => (self.op_key_skip(op), Ghost(0u8)),
            (0, 0, 0, 0) => {
                // No-op terminator: the step ends without decoding further.
                (Ok(()), Ghost(0u8))
            },
            (_, _, _, _) => (Err(EmuError::UnknownOpcode { op, pc: self.pc - 2 }), Ghost(0u8)),
        }
    }

    /// Clear the framebuffer.
    #[verifier::spinoff_prover]
    fn op_clear(&mut self, op: u16)
        requires
            old(self).wf(),
            op == 0x00E0,
        ensures
            final(self).wf(),
            spec_execute(old(self)@, op, 0) == Ok::<EmuView, EmuError>(final(self)@),
    {
        self.screen = make_flags(SCREEN_CELLS);
        proof {
            assert(self@.screen =~= Seq::new(SCREEN_CELLS as nat, |i: int| false));
            assert(spec_execute(old(self)@, op, 0u8)->Ok_0 =~= self@);
        }
    }

    /// Return: pop a return address into the program counter.
    #[verifier::spinoff_prover]
    fn op_return(&mut self, op: u16) -> (r: Result<(), EmuError>)
        requires
            old(self).wf(),
            op == 0x00EE,
        ensures
            final(self).wf(),
            r is Ok ==> spec_execute(old(self)@, op, 0) == Ok::<EmuView, EmuError>(final(self)@),
            r is Err ==> spec_execute(old(self)@, op, 0) == Err::<EmuView, EmuError>(r->Err_0)
                && final(self)@ == old(self)@,
    {
        let ret_addr = match self.pop() {
            Ok(v) => v,
            Err(e) => {
                return Err(e);
            },
        };
        self.pc = ret_addr;
        Ok(())
    }

    /// Jump to the address operand.
    #[verifier::spinoff_prover]
    fn op_jump(&mut self, op: u16)
        requires
            old(self).wf(),
            nib1(op) == 1,
        ensures
            final(self).wf(),
            spec_execute(old(self)@, op, 0) == Ok::<EmuView, EmuError>(final(self)@),
    {
        let nnn = op & 0x0FFF;
        proof {
            assert((op & 0x0FFF) == op % 4096) by (bit_vector);
        }
        self.pc = nnn;
    }

    /// Call: push the post-fetch program counter, then jump.
    #[verifier::spinoff_prover]
    fn op_call(&mut self, op: u16) -> (r: Result<(), EmuError>)
        requires
            old(self).wf(),
            nib1(op) == 2,
        ensures
            final(self).wf(),
            r is Ok ==> spec_execute(old(self)@, op, 0) == Ok::<EmuView, EmuError>(final(self)@),
            r is Err ==> spec_execute(old(self)@, op, 0) == Err::<EmuView, EmuError>(r->Err_0)
                && final(self)@ == old(self)@,
    {
        let nnn = op & 0x0FFF;
        proof {
            assert((op & 0x0FFF) == op % 4096) by (bit_vector);
        }
        let here = self.pc;
        match self.push(here) {
            Ok(()) => {},
            Err(e) => {
                return Err(e);
            },
        }
        self.pc = nnn;
        Ok(())
    }

    /// Skip the next instruction if register X equals (or, for the second
    /// form, differs from) the immediate.
    #[verifier::spinoff_prover]
    fn op_skip_imm(&mut self, op: u16)
        requires
            old(self).wf(),
            2 <= old(self)@.pc <= 4096,
            nib1(op) == 3 || nib1(op) == 4,
        ensures
            final(self).wf(),
            spec_execute(old(self)@, op, 0) == Ok::<EmuView, EmuError>(final(self)@),
    {
        let x = ((op & 0x0F00) >> 8) as usize;
        let nn = (op & 0x00FF) as u8;
        proof {
            assert((op & 0xF000) >> 12u16 == op / 4096
                && (op & 0x0F00) >> 8u16 == (op / 256) % 16
                && (op & 0x00FF) == op % 256) by (bit_vector);
        }
        let want_equal = (op & 0xF000) >> 12 == 3;
        if (self.v_reg[x] == nn) == want_equal {
            self.pc = self.pc + 2;
        }
    }

    /// Skip the next instruction if register X equals (or, for the second
    /// form, differs from) register Y.
    #[verifier::spinoff_prover]
    fn op_skip_reg(&mut self, op: u16)
        requires
            old(self).wf(),
            2 <= old(self)@.pc <= 4096,
            (nib1(op) == 5 || nib1(op) == 9) && nib4(op) == 0,
        ensures
            final(self).wf(),
            spec_execute(old(self)@, op, 0) == Ok::<EmuView, EmuError>(final(self)@),
    {
        let x = ((op & 0x0F00) >> 8) as usize;
        let y = ((op & 0x00F0) >> 4) as usize;
        proof {
            assert((op & 0xF000) >> 12u16 == op / 4096
                && (op & 0x0F00) >> 8u16 == (op / 256) % 16
                && (op & 0x00F0) >> 4u16 == (op / 16) % 16) by (bit_vector);
        }
        let want_equal = (op & 0xF000) >> 12 == 5;
        if (self.v_reg[x] == self.v_reg[y]) == want_equal {
            self.pc = self.pc + 2;
        }
    }

    /// Load the immediate into register X.
    #[verifier::spinoff_prover]
    fn op_load_imm(&mut self, op: u16)
        requires
            old(self).wf(),
            nib1(op) == 6,
        ensures
            final(self).wf(),
            spec_execute(old(self)@, op, 0) == Ok::<EmuView, EmuError>(final(self)@),
    {
        let x = ((op & 0x0F00) >> 8) as usize;
        let nn = (op & 0x00FF) as u8;
        proof {
            assert((op & 0x0F00) >> 8u16 == (op / 256) % 16
                && (op & 0x00FF) == op % 256) by (bit_vector);
        }
        self.v_reg.set(x, nn);
    }

    /// Add the immediate into register X, wrapping, no flag touched.
    #[verifier::spinoff_prover]
    fn op_add_imm(&mut self, op: u16)
        requires
            old(self).wf(),
            nib1(op) == 7,
        ensures
            final(self).wf(),
            spec_execute(old(self)@, op, 0) == Ok::<EmuView, EmuError>(final(self)@),
    {
        let x = ((op & 0x0F00) >> 8) as usize;
        let nn = (op & 0x00FF) as u8;
        proof {
            assert((op & 0x0F00) >> 8u16 == (op / 256) % 16
                && (op & 0x00FF) == op % 256) by (bit_vector);
        }
        let vx = self.v_reg[x];
        let v = vx.wrapping_add(nn);
        proof {
            assert(v == ((vx + nn) % 256) as u8);
        }
        self.v_reg.set(x, v);
    }

    /// Copy, OR, AND or XOR register Y into register X.
    #[verifier::spinoff_prover]
    fn op_alu_bit(&mut self, op: u16)
        requires
            old(self).wf(),
            nib1(op) == 8,
            nib4(op) == 0 || nib4(op) == 1 || nib4(op) == 2 || nib4(op) == 3,
        ensures
            final(self).wf(),
            spec_execute(old(self)@, op, 0) == Ok::<EmuView, EmuError>(final(self)@),
    {
        let x = ((op & 0x0F00) >> 8) as usize;
        let y = ((op & 0x00F0) >> 4) as usize;
        let sel = op & 0x000F;
        proof {
            assert((op & 0x0F00) >> 8u16 == (op / 256) % 16
                && (op & 0x00F0) >> 4u16 == (op / 16) % 16
                && (op & 0x000F) == op % 16) by (bit_vector);
        }
        let vx = self.v_reg[x];
        let vy = self.v_reg[y];
        let v = if sel == 0 {
            vy
        } else if sel == 1 {
            vx | vy
        } else if sel == 2 {
            vx & vy
        } else {
            vx ^ vy
        };
        self.v_reg.set(x, v);
    }

    /// Add or subtract between registers X and Y; the flag register
    /// reports the carry, or that no borrow occurred.
    #[verifier::rlimit(100)]
    #[verifier::spinoff_prover]
    fn op_alu_addsub(&mut self, op: u16)
        requires
            old(self).wf(),
            nib1(op) == 8,
            nib4(op) == 4 || nib4(op) == 5 || nib4(op) == 7,
        ensures
            final(self).wf(),
            spec_execute(old(self)@, op, 0) == Ok::<EmuView, EmuError>(final(self)@),
    {
        let x = ((op & 0x0F00) >> 8) as usize;
        let y = ((op & 0x00F0) >> 4) as usize;
        let sel = op & 0x000F;
        proof {
            assert((op & 0x0F00) >> 8u16 == (op / 256) % 16
                && (op & 0x00F0) >> 4u16 == (op / 16) % 16
                && (op & 0x000F) == op % 16) by (bit_vector);
        }
        let vx = self.v_reg[x];
        let vy = self.v_reg[y];
        let (new_vx, new_vf): (u8, u8) = if sel == 4 {
            (vx.wrapping_add(vy), if vx as u16 + vy as u16 > 255 { 1 } else { 0 })
        } else if sel == 5 {
            (vx.wrapping_sub(vy), if vx >= vy { 1 } else { 0 })
        } else {
            (vy.wrapping_sub(vx), if vy >= vx { 1 } else { 0 })
        };
        proof {
            if sel == 4 {
                assert(new_vx == ((vx + vy) % 256) as u8);
            } else if sel == 5 {
                assert(new_vx == ((vx - vy) % 256) as u8);
            } else {
                assert(new_vx == ((vy - vx) % 256) as u8);
            }
        }
        self.v_reg.set(x, new_vx);
        self.v_reg.set(FLAG_REG, new_vf);
    }

    /// Shift register X one bit right or left; the flag register receives
    /// the bit shifted out.
    #[verifier::spinoff_prover]
    fn op_alu_shift(&mut self, op: u16)
        requires
            old(self).wf(),
            nib1(op) == 8,
            nib4(op) == 6 || nib4(op) == 0xE,
        ensures
            final(self).wf(),
            spec_execute(old(self)@, op, 0) == Ok::<EmuView, EmuError>(final(self)@),
    {
        let x = ((op & 0x0F00) >> 8) as usize;
        let sel = op & 0x000F;
        proof {
            assert((op & 0x0F00) >> 8u16 == (op / 256) % 16
                && (op & 0x000F) == op % 16) by (bit_vector);
        }
        let vx = self.v_reg[x];
        let (new_vx, new_vf): (u8, u8) = if sel == 6 {
            (vx / 2, vx % 2)
        } else {
            (vx.wrapping_mul(2), vx / 128)
        };
        self.v_reg.set(x, new_vx);
        self.v_reg.set(FLAG_REG, new_vf);
    }

    /// Load the address operand into the index register.
    #[verifier::spinoff_prover]
    fn op_set_index(&mut self, op: u16)
        requires
            old(self).wf(),
            nib1(op) == 0xA,
        ensures
            final(self).wf(),
            spec_execute(old(self)@, op, 0) == Ok::<EmuView, EmuError>(final(self)@),
    {
        let nnn = op & 0x0FFF;
        proof {
            assert((op & 0x0FFF) == op % 4096) by (bit_vector);
        }
        self.i_reg = nnn;
    }

    /// Jump to the address operand plus register 0.
    #[verifier::spinoff_prover]
    fn op_jump_v0(&mut self, op: u16)
        requires
            old(self).wf(),
            nib1(op) == 0xB,
        ensures
            final(self).wf(),
            spec_execute(old(self)@, op, 0) == Ok::<EmuView, EmuError>(final(self)@),
    {
        let nnn = op & 0x0FFF;
        proof {
            assert((op & 0x0FFF) == op % 4096) by (bit_vector);
        }
        self.pc = self.v_reg[0] as u16 + nnn;
    }

    /// Set register X to a random byte masked by the immediate. Returns
    /// the byte that was drawn, as a ghost witness.
    #[verifier::spinoff_prover]
    fn op_rand(&mut self, op: u16) -> (r: Ghost<u8>)
        requires
            old(self).wf(),
            nib1(op) == 0xC,
        ensures
            final(self).wf(),
            spec_execute(old(self)@, op, r@) == Ok::<EmuView, EmuError>(final(self)@),
    {
        let x = ((op & 0x0F00) >> 8) as usize;
        let nn = (op & 0x00FF) as u8;
        proof {
            assert((op & 0x0F00) >> 8u16 == (op / 256) % 16
                && (op & 0x00FF) == op % 256) by (bit_vector);
        }
        let rb = random_byte();
        self.v_reg.set(x, rb & nn);
        Ghost(rb)
    }

    /// Draw an N-row sprite from the index register at (X, Y),
    /// XOR-composited, wrapping both axes; the flag register reports
    /// whether any lit cell was toggled off.
    #[verifier::rlimit(100)]
    #[verifier::spinoff_prover]
    fn op_draw(&mut self, op: u16) -> (r: Result<(), EmuError>)
        requires
            old(self).wf(),
            nib1(op) == 0xD,
        ensures
            final(self).wf(),
            r is Ok ==> spec_execute(old(self)@, op, 0) == Ok::<EmuView, EmuError>(final(self)@),
            r is Err ==> spec_execute(old(self)@, op, 0) == Err::<EmuView, EmuError>(r->Err_0)
                && final(self)@ == old(self)@,
    {
        let x = ((op & 0x0F00) >> 8) as usize;
        let y = ((op & 0x00F0) >> 4) as usize;
        let n = op & 0x000F;
        proof {
            assert((op & 0x0F00) >> 8u16 == (op / 256) % 16
                && (op & 0x00F0) >> 4u16 == (op / 16) % 16
                && (op & 0x000F) == op % 16) by (bit_vector);
        }
        let vx = self.v_reg[x];
        let vy = self.v_reg[y];
        if n > 0 && self.i_reg as usize + n as usize > RAM_SIZE {
            return Err(EmuError::SpriteOutOfBounds);
        }
        let i0 = self.i_reg as usize;
        let flipped = self.draw_sprite(i0, vx, vy, n);
        let new_vf: u8 = if flipped {
            1
        } else {
            0
        };
        self.v_reg.set(FLAG_REG, new_vf);
        proof {
            let t = spec_execute(old(self)@, op, 0u8);
            assert(t is Ok);
            assert(self@ =~= t->Ok_0);
        }
        Ok(())
    }

    /// XOR-draws `n` sprite rows read at `i0` onto the framebuffer at
    /// (vx, vy), reporting whether any lit cell was toggled off.
    #[verifier::rlimit(100)]
    #[verifier::spinoff_prover]
    fn draw_sprite(&mut self, i0: usize, vx: u8, vy: u8, n: u16) -> (flipped: bool)
        requires
            old(self).wf(),
            n <= 15,
            n > 0 ==> i0 + n <= RAM_SIZE,
        ensures
            final(self).wf(),
            final(self)@ == (EmuView { screen: final(self)@.screen, ..old(self)@ }),
            (final(self)@.screen, flipped) == draw_rows(
                old(self)@.screen,
                false,
                old(self)@.ram,
                i0 as int,
                vx as int,
                vy as int,
                n as int,
            ),
    {
        let ghost base = self@.screen;
        let mut flipped = false;
        let mut row: u16 = 0;
        while row < n
            invariant
                old(self).wf(),
                row <= n,
                n <= 15,
                n > 0 ==> i0 + n <= RAM_SIZE,
                self.ram@.len() == RAM_SIZE,
                self.screen@.len() == SCREEN_CELLS,
                base == old(self)@.screen,
                self@ == (EmuView { screen: self@.screen, ..old(self)@ }),
                (self.screen@, flipped) == draw_rows(
                    base,
                    false,
                    old(self)@.ram,
                    i0 as int,
                    vx as int,
                    vy as int,
                    row as int,
                ),
            decreases n - row,
        {
            let byte = self.ram[i0 + row as usize];
            let ghost row_base = self.screen@;
            let ghost row_flipped = flipped;
            let mut col: u8 = 0;
            while col < 8
                invariant
                    col <= 8,
                    byte == old(self)@.ram[i0 + row as int],
                    self.screen@.len() == SCREEN_CELLS,
                    self@ == (EmuView { screen: self@.screen, ..old(self)@ }),
                    (self.screen@, flipped) == draw_cols(
                        row_base,
                        row_flipped,
                        byte,
                        vx as int,
                        vy as int,
                        row as int,
                        col as int,
                    ),
                decreases 8 - col,
            {
                if byte & (0x80u8 >> col) != 0 {
                    let px = (vx as usize + col as usize) % SCREEN_WIDTH;
                    let py = (vy as usize + row as usize) % SCREEN_HEIGHT;
                    let idx = px + SCREEN_WIDTH * py;
                    let cur = self.screen[idx];
                    self.screen.set(idx, !cur);
                    flipped = flipped || cur;
                }
                col = col + 1;
            }
            proof {
                assert((self.screen@, flipped) == draw_rows(
                    base,
                    false,
                    old(self)@.ram,
                    i0 as int,
                    vx as int,
                    vy as int,
                    row as int + 1,
                ));
            }
            row = row + 1;
        }
        flipped
    }

    /// Skip the next instruction if the key named by register X is down.
    #[verifier::spinoff_prover]
    fn op_key_skip(&mut self, op: u16) -> (r: Result<(), EmuError>)
        requires
            old(self).wf(),
            2 <= old(self)@.pc <= 4096,
            nib1(op) == 0xE && nib3(op) == 9 && nib4(op) == 0xE,
        ensures
            final(self).wf(),
            r is Ok ==> spec_execute(old(self)@, op, 0) == Ok::<EmuView, EmuError>(final(self)@),
            r is Err ==> spec_execute(old(self)@, op, 0) == Err::<EmuView, EmuError>(r->Err_0)
                && final(self)@ == old(self)@,
    {
        let x = ((op & 0x0F00) >> 8) as usize;
        proof {
            assert((op & 0x0F00) >> 8u16 == (op / 256) % 16) by (bit_vector);
        }
        let vx = self.v_reg[x];
        if vx >= 16 {
            return Err(EmuError::InvalidKey);
        }
        if self.keys[vx as usize] {
            self.pc = self.pc + 2;
        }
        Ok(())
    }
    /// Sets or clears one key-down flag by key code.
    pub fn keypress(&mut self, idx: usize, pressed: bool)
        requires
            old(self).wf(),
            idx < NUM_KEYS,
        ensures
            final(self).wf(),
            final(self)@ == (EmuView {
                keys: old(self)@.keys.update(idx as int, pressed),
                ..old(self)@
            }),
    {
        self.keys.set(idx, pressed);
    }
}

} // verus!
