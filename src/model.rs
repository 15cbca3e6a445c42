//! The mathematical model of the machine and the meaning of one cycle.
use vstd::prelude::*;

verus! {

/// Width of the frame buffer in pixels.
pub const DISPLAY_X: usize = 64;

/// Height of the frame buffer in pixels.
pub const DISPLAY_Y: usize = 32;

/// Number of pixels of the frame buffer, stored row by row.
pub const FRAME_SIZE: usize = DISPLAY_X * DISPLAY_Y;

/// Number of bytes of program memory.
pub const RAM_SIZE: usize = (0xFFF - 0x200) / 2;

/// Number of entries of the call stack; the deepest usable depth is one less.
pub const STACK_SIZE: usize = 0x10;

/// Number of general-purpose registers, and of keys on the keypad.
pub const REGISTER_COUNT: usize = 0x10;

/// The register that arithmetic and shift instructions use as their flag.
pub const FLAG: usize = 0xF;

/// A fatal condition met while executing one cycle.
#[derive(Debug, Clone, Copy, PartialEq, Eq, Structural)]
pub enum Fault {
    /// The instruction at `pointer` would be read past the end of memory.
    FetchOutOfRange { pointer: usize },
    /// A call at `pointer` with the call stack already at its deepest.
    StackOverflow { pointer: usize },
    /// A return at `pointer` with an empty call stack.
    StackUnderflow { pointer: usize },
    /// The instruction at `pointer` reads or writes `len` bytes from `start`,
    /// past the end of memory.
    MemoryOutOfRange { pointer: usize, start: usize, len: usize },
}

/// The whole state of the machine as mathematical values.
pub struct MachineState {
    /// Program and data bytes.
    pub memory: Seq<u8>,
    /// Pixels, row by row; `true` is lit.
    pub frame: Seq<bool>,
    /// Saved instruction pointers; the entry at `depth` is the current one.
    pub stack: Seq<usize>,
    /// How many calls are open: the position of the current entry in `stack`.
    pub depth: int,
    /// `V0` to `VF`.
    pub regs: Seq<u8>,
    /// The index register `I`.
    pub index: u16,
    /// Which of the sixteen keys are down.
    pub keys: Seq<bool>,
}

impl MachineState {
    /// Sizes are fixed, the depth is in range, and every saved pointer below
    /// the current one points at an instruction that was fetched.
    pub open spec fn wf(self) -> bool {
        &&& self.memory.len() == RAM_SIZE
        &&& self.frame.len() == FRAME_SIZE
        &&& self.stack.len() == STACK_SIZE
        &&& 0 <= self.depth < STACK_SIZE
        &&& self.regs.len() == REGISTER_COUNT
        &&& self.keys.len() == REGISTER_COUNT
        &&& forall|k: int| 0 <= k < self.depth ==> #[trigger] self.stack[k] + 1 < RAM_SIZE
    }

    /// The state at power-on: everything zero or false.
    pub open spec fn initial() -> MachineState {
        MachineState {
            memory: Seq::new(RAM_SIZE as nat, |a: int| 0u8),
            frame: Seq::new(FRAME_SIZE as nat, |k: int| false),
            stack: Seq::new(STACK_SIZE as nat, |k: int| 0usize),
            depth: 0,
            regs: Seq::new(REGISTER_COUNT as nat, |k: int| 0u8),
            index: 0,
            keys: Seq::new(REGISTER_COUNT as nat, |k: int| false),
        }
    }

    /// The current instruction pointer, a byte offset into memory.
    pub open spec fn pointer(self) -> int {
        self.stack[self.depth] as int
    }

    pub open spec fn with_pointer(self, p: int) -> MachineState {
        MachineState { stack: self.stack.update(self.depth, p as usize), ..self }
    }

    /// The pixel in column `col` and row `row`.
    pub open spec fn pixel(self, col: int, row: int) -> bool {
        self.frame[row * DISPLAY_X + col]
    }
}

/// The big-endian instruction word stored at byte offsets `p` and `p + 1`.
pub open spec fn word_at(memory: Seq<u8>, p: int) -> nat {
    memory[p] as nat * 256 + memory[p + 1] as nat
}

pub open spec fn pow16(n: nat) -> nat
    decreases n,
{
    if n == 0 {
        1
    } else {
        16 * pow16((n - 1) as nat)
    }
}

/// The `count` nibbles of `w` that start `shift` nibbles above its lowest one.
pub open spec fn nibble_field(w: nat, shift: nat, count: nat) -> nat {
    (w / pow16(shift)) % pow16(count)
}

/// The opcode family: the top nibble.
pub open spec fn op_family(w: nat) -> nat {
    (w / 4096) % 16
}

/// The first register selector `x` of `_x__`.
pub open spec fn op_x(w: nat) -> nat {
    (w / 256) % 16
}

/// The second register selector `y` of `__y_`.
pub open spec fn op_y(w: nat) -> nat {
    (w / 16) % 16
}

/// The low nibble `n` of `___n`.
pub open spec fn op_n(w: nat) -> nat {
    w % 16
}

/// The 8-bit immediate `kk` of `__kk`.
pub open spec fn op_kk(w: nat) -> nat {
    w % 256
}

/// The 12-bit address `nnn` of `_nnn`.
pub open spec fn op_addr(w: nat) -> nat {
    w % 4096
}

/// How far a conditional-skip instruction moves the pointer.
pub open spec fn skip_step(taken: bool) -> int {
    if taken {
        4
    } else {
        2
    }
}

/// Bit `j` (0 is the most significant) of a sprite row.
pub open spec fn sprite_bit(row: u8, j: int) -> bool {
    (row >> ((7 - j) as u8)) & 1 == 1
}

/// Whether pixel `k` lies under the part of a sprite at origin `(x, y)` that is
/// drawn once `rows` whole rows and then `cols` columns of the next are done.
pub open spec fn in_drawn_part(k: int, x: int, y: int, height: int, rows: int, cols: int) -> bool {
    let c = k % (DISPLAY_X as int) - x;
    let r = k / (DISPLAY_X as int) - y;
    &&& 0 <= c < 8
    &&& 0 <= r < height
    &&& (r < rows || (r == rows && c < cols))
}

/// The frame after XOR-ing that part of `sprite` at origin `(x, y)`.
/// Pixels past the right or bottom edge are dropped, never wrapped.
pub open spec fn blit_partial(
    frame: Seq<bool>,
    sprite: Seq<u8>,
    x: int,
    y: int,
    rows: int,
    cols: int,
) -> Seq<bool> {
    Seq::new(
        frame.len(),
        |k: int|
            if in_drawn_part(k, x, y, sprite.len() as int, rows, cols) {
                frame[k] != sprite_bit(sprite[k / (DISPLAY_X as int) - y], k % (DISPLAY_X as int) - x)
            } else {
                frame[k]
            },
    )
}

/// The frame after XOR-ing the whole of `sprite` at origin `(x, y)`.
pub open spec fn blit(frame: Seq<bool>, sprite: Seq<u8>, x: int, y: int) -> Seq<bool> {
    blit_partial(frame, sprite, x, y, sprite.len() as int, 0)
}

/// Registers after an `8xyo` instruction with operation `op`.
/// For `op == 5` the flag is the borrow: 1 exactly when `Vx < Vy`.
pub open spec fn alu(regs: Seq<u8>, x: int, y: int, op: nat) -> Seq<u8> {
    let a = regs[x];
    let b = regs[y];
    if op == 1 {
        regs.update(x, a | b)
    } else if op == 2 {
        regs.update(x, a & b)
    } else if op == 3 {
        regs.update(x, a ^ b)
    } else if op == 4 {
        regs.update(x, ((a + b) % 256) as u8).update(FLAG as int, if a + b >= 256 { 1u8 } else { 0u8 })
    } else if op == 5 {
        regs.update(x, ((a - b) % 256) as u8).update(FLAG as int, if a < b { 1u8 } else { 0u8 })
    } else if op == 6 {
        regs.update(FLAG as int, b & 1).update(x, b >> 1u8)
    } else if op == 0xE {
        regs.update(FLAG as int, (b >> 7u8) & 1).update(x, ((b * 2) % 256) as u8)
    } else {
        regs
    }
}

/// Memory after `Fx33`: the three per-digit quotients of `v` at `i`, `i + 1`, `i + 2`.
pub open spec fn store_digits(memory: Seq<u8>, i: int, v: u8) -> Seq<u8> {
    memory.update(i, v / 100).update(i + 1, v / 10).update(i + 2, v)
}

/// Memory after `Fx55`: `V0` to `V(count - 1)` copied to `i` onwards.
pub open spec fn store_regs(memory: Seq<u8>, regs: Seq<u8>, i: int, count: int) -> Seq<u8> {
    Seq::new(memory.len(), |a: int| if i <= a < i + count { regs[a - i] } else { memory[a] })
}

/// Registers after `Fx65`: `V0` to `V(count - 1)` loaded from `i` onwards.
pub open spec fn load_regs(regs: Seq<u8>, memory: Seq<u8>, i: int, count: int) -> Seq<u8> {
    Seq::new(regs.len(), |k: int| if k < count { memory[i + k] } else { regs[k] })
}

/// Whether the key numbered by register value `v` is down; a value past the
/// sixteen keys names no key.
pub open spec fn key_down(keys: Seq<bool>, v: u8) -> bool {
    v < REGISTER_COUNT && keys[v as int]
}

/// Whether `len` bytes from `start` lie inside memory; an access of no byte
/// always does.
pub open spec fn in_memory(start: int, len: int) -> bool {
    len == 0 || start + len <= RAM_SIZE
}

/// `Dxyn` at `pc`: XOR the `h` sprite rows at `I` onto the frame at origin
/// `(Vx mod 64, Vy mod 32)`.
pub open spec fn draw(s: MachineState, pc: int, x: int, y: int, h: int) -> Result<MachineState, Fault> {
    let i = s.index as int;
    if !in_memory(i, h) {
        Err(Fault::MemoryOutOfRange { pointer: pc as usize, start: i as usize, len: h as usize })
    } else {
        let frame = blit(
            s.frame,
            if h == 0 { Seq::empty() } else { s.memory.subrange(i, i + h) },
            (s.regs[x] % 64) as int,
            (s.regs[y] % 32) as int,
        );
        Ok(MachineState { frame, ..s })
    }
}

/// The `Fxkk` instructions at `pc`, which work on `I` and on memory from `I`.
pub open spec fn index_op(s: MachineState, pc: int, x: int, kk: int) -> Result<MachineState, Fault> {
    let i = s.index as int;
    let v = s.regs[x];
    if kk == 0x1E {
        Ok(MachineState { index: ((i + v) % 0x10000) as u16, ..s })
    } else if kk == 0x29 {
        Ok(MachineState { index: v as u16, ..s })
    } else if kk == 0x33 || kk == 0x55 || kk == 0x65 {
        let len = if kk == 0x33 { 3 } else { x };
        if !in_memory(i, len) {
            Err(Fault::MemoryOutOfRange { pointer: pc as usize, start: i as usize, len: len as usize })
        } else if kk == 0x33 {
            Ok(MachineState { memory: store_digits(s.memory, i, v), ..s })
        } else if kk == 0x55 {
            Ok(MachineState { memory: store_regs(s.memory, s.regs, i, x), ..s })
        } else {
            Ok(MachineState { regs: load_regs(s.regs, s.memory, i, x), ..s })
        }
    } else {
        Ok(s)
    }
}

/// The outcome of executing instruction word `w`, fetched at the current
/// pointer of `s`, with `random` as the random byte.
///
/// Every instruction ends with a step of 2 bytes. A jump or a call therefore
/// sets the pointer to `2 * nnn - 2` and so lands on slot `nnn`; `Bnnn` sets it to
/// `V0 + nnn`. A return pops a frame and steps past the saved call.
pub open spec fn execute(s: MachineState, w: nat, random: u8) -> Result<MachineState, Fault> {
    let pc = s.pointer();
    let x = op_x(w) as int;
    let y = op_y(w) as int;
    let kk = op_kk(w) as int;
    let nnn = op_addr(w) as int;
    let fam = op_family(w);
    let next = pc + 2;
    if fam == 0 {
        if w == 0x00E0 {
            Ok(MachineState { frame: Seq::new(FRAME_SIZE as nat, |k: int| false), ..s }.with_pointer(next))
        } else if w == 0x00EE {
            if s.depth == 0 {
                Err(Fault::StackUnderflow { pointer: pc as usize })
            } else {
                let t = MachineState { depth: s.depth - 1, ..s };
                Ok(t.with_pointer(t.pointer() + 2))
            }
        } else {
            Ok(s.with_pointer(next))
        }
    } else if fam == 1 {
        Ok(s.with_pointer(2 * nnn))
    } else if fam == 2 {
        if s.depth + 1 >= STACK_SIZE {
            Err(Fault::StackOverflow { pointer: pc as usize })
        } else {
            Ok(MachineState { depth: s.depth + 1, ..s }.with_pointer(2 * nnn))
        }
    } else if fam == 3 {
        Ok(s.with_pointer(pc + skip_step(s.regs[x] == kk)))
    } else if fam == 4 {
        Ok(s.with_pointer(pc + skip_step(s.regs[x] != kk)))
    } else if fam == 5 {
        Ok(s.with_pointer(pc + skip_step(s.regs[x] == s.regs[y])))
    } else if fam == 6 {
        Ok(MachineState { regs: s.regs.update(x, kk as u8), ..s }.with_pointer(next))
    } else if fam == 7 {
        Ok(MachineState { regs: s.regs.update(x, ((s.regs[x] + kk) % 256) as u8), ..s }.with_pointer(next))
    } else if fam == 8 {
        Ok(MachineState { regs: alu(s.regs, x, y, op_n(w)), ..s }.with_pointer(next))
    } else if fam == 9 {
        Ok(s.with_pointer(pc + skip_step(s.regs[x] != s.regs[y])))
    } else if fam == 0xA {
        Ok(MachineState { index: nnn as u16, ..s }.with_pointer(next))
    } else if fam == 0xB {
        Ok(s.with_pointer(s.regs[0] + nnn + 2))
    } else if fam == 0xC {
        Ok(MachineState { regs: s.regs.update(x, random & (kk as u8)), ..s }.with_pointer(next))
    } else if fam == 0xD {
        match draw(s, pc, x, y, op_n(w) as int) {
            Ok(t) => Ok(t.with_pointer(next)),
            Err(e) => Err(e),
        }
    } else if fam == 0xE {
        let down = key_down(s.keys, s.regs[x]);
        if kk == 0x9E {
            Ok(s.with_pointer(pc + skip_step(down)))
        } else if kk == 0xA1 {
            Ok(s.with_pointer(pc + skip_step(!down)))
        } else {
            Ok(s.with_pointer(next))
        }
    } else {
        match index_op(s, pc, x, kk) {
            Ok(t) => Ok(t.with_pointer(next)),
            Err(e) => Err(e),
        }
    }
}

/// The outcome of one cycle: fetch at the current pointer, then execute.
pub open spec fn cycle(s: MachineState, random: u8) -> Result<MachineState, Fault> {
    let pc = s.pointer();
    if pc + 1 >= RAM_SIZE {
        Err(Fault::FetchOutOfRange { pointer: pc as usize })
    } else {
        execute(s, word_at(s.memory, pc), random)
    }
}

} // verus!
