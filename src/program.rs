//! The machine itself: its state and the operations that read and step it.
use crate::model::{
    alu, blit, blit_partial, cycle, in_drawn_part, index_op, in_memory, load_regs, nibble_field,
    op_addr, op_family, op_kk, op_n, op_x, op_y, pow16, sprite_bit, store_regs,
    word_at, Fault, MachineState, DISPLAY_X, DISPLAY_Y, FLAG, FRAME_SIZE, RAM_SIZE,
    REGISTER_COUNT, STACK_SIZE,
};
use rand::Rng;
use vstd::prelude::*;

verus! {

/// The machine state, owned as one value and stepped through `run_cycle`.
pub struct Program {
    frame: Vec<bool>,
    ram: Vec<u8>,
    stack: Vec<usize>,
    stack_position: usize,
    vars: Vec<u8>,
    i: u16,
    keyboard: Vec<bool>,
}

impl View for Program {
    type V = MachineState;

    closed spec fn view(&self) -> MachineState {
        MachineState {
            memory: self.ram@,
            frame: self.frame@,
            stack: self.stack@,
            depth: self.stack_position as int,
            regs: self.vars@,
            index: self.i,
            keys: self.keyboard@,
        }
    }
}

impl Default for Program {
    /// A machine at power-on.
    fn default() -> (r: Program)
        ensures
            r.wf(),
            r@ == MachineState::initial(),
    {
        let r = Program {
            frame: vec![false; FRAME_SIZE],
            ram: vec![0u8; RAM_SIZE],
            stack: vec![0usize; STACK_SIZE],
            stack_position: 0,
            vars: vec![0u8; REGISTER_COUNT],
            i: 0,
            keyboard: vec![false; REGISTER_COUNT],
        };
        assert(r@.memory =~= MachineState::initial().memory);
        assert(r@.frame =~= MachineState::initial().frame);
        assert(r@.stack =~= MachineState::initial().stack);
        assert(r@.regs =~= MachineState::initial().regs);
        assert(r@.keys =~= MachineState::initial().keys);
        r
    }
}

impl Program {
    pub open spec fn wf(&self) -> bool {
        self@.wf()
    }

    /// The instruction word at byte offset `pos`, high byte first.
    pub fn get_ins(&self, pos: usize) -> (r: u16)
        requires
            self.wf(),
            pos + 1 < RAM_SIZE,
        ensures
            r as nat == word_at(self@.memory, pos as int),
    {
        (self.ram[pos] as u16) * 256 + (self.ram[pos + 1] as u16)
    }

    /// The instruction word at the current pointer.
    pub fn get_cur_ins(&self) -> (r: u16)
        requires
            self.wf(),
            self@.pointer() + 1 < RAM_SIZE,
        ensures
            r as nat == word_at(self@.memory, self@.pointer()),
    {
        self.get_ins(self.stack[self.stack_position])
    }

    /// `nibbles` nibbles of the word at byte offset `pos`, starting `shift`
    /// nibbles above the lowest.
    pub fn get_nibbles(&self, pos: usize, shift: u16, nibbles: usize) -> (r: u16)
        requires
            self.wf(),
            pos + 1 < RAM_SIZE,
            shift < 4,
            nibbles < 4,
        ensures
            r as nat == nibble_field(word_at(self@.memory, pos as int), shift as nat, nibbles as nat),
    {
        let ins: u16 = self.get_ins(pos);
        let mut divisor: u16 = 1;
        let mut k: u16 = 0;
        while k < shift
            invariant
                k <= shift < 4,
                divisor >= 1,
                divisor as nat == pow16(k as nat),
            decreases shift - k,
        {
            proof {
                lemma_pow16_bound(k as nat);
            }
            divisor = divisor * 16;
            k = k + 1;
        }
        let mut modulus: u16 = 1;
        let mut m: usize = 0;
        while m < nibbles
            invariant
                m <= nibbles < 4,
                modulus >= 1,
                modulus as nat == pow16(m as nat),
            decreases nibbles - m,
        {
            proof {
                lemma_pow16_bound(m as nat);
            }
            modulus = modulus * 16;
            m = m + 1;
        }
        (ins / divisor) % modulus
    }

    /// `nibbles` nibbles of the current instruction word, starting `shift`
    /// nibbles above the lowest.
    pub fn get_cur_nibbles(&self, shift: u16, nibbles: usize) -> (r: u16)
        requires
            self.wf(),
            self@.pointer() + 1 < RAM_SIZE,
            shift < 4,
            nibbles < 4,
        ensures
            r as nat == nibble_field(word_at(self@.memory, self@.pointer()), shift as nat, nibbles as nat),
    {
        self.get_nibbles(self.stack[self.stack_position], shift, nibbles)
    }

    /// Nibble number `nibble` of the word at byte offset `pos`, counted from
    /// the most significant (0) to the least significant (3).
    pub fn get_nibble(&self, pos: usize, nibble: usize) -> (r: u8)
        requires
            self.wf(),
            pos + 1 < RAM_SIZE,
            nibble < 4,
        ensures
            r as nat == nibble_field(word_at(self@.memory, pos as int), (3 - nibble) as nat, 1),
    {
        let byte = self.ram[pos + nibble / 2];
        let r = if nibble % 2 == 0 {
            byte >> 4u8
        } else {
            byte & 0xF
        };
        proof {
            let hi = self.ram@[pos as int];
            let lo = self.ram@[pos + 1];
            lemma_nibbles_of_word(hi, lo);
        }
        r
    }

    /// Nibble number `nibble` of the current instruction word.
    pub fn get_cur_nibble(&self, nibble: usize) -> (r: u8)
        requires
            self.wf(),
            self@.pointer() + 1 < RAM_SIZE,
            nibble < 4,
        ensures
            r as nat == nibble_field(word_at(self@.memory, self@.pointer()), (3 - nibble) as nat, 1),
    {
        self.get_nibble(self.stack[self.stack_position], nibble)
    }

    /// Writes instruction word `val` into slot `pos`: byte offsets `2 * pos`
    /// and `2 * pos + 1`, high byte first.
    pub fn set_ins(&mut self, pos: usize, val: u16)
        requires
            old(self).wf(),
            2 * pos + 1 < RAM_SIZE,
        ensures
            final(self).wf(),
            final(self)@ == (MachineState {
                memory: old(self)@.memory.update(2 * pos, (val / 256) as u8).update(
                    2 * pos + 1,
                    (val % 256) as u8,
                ),
                ..old(self)@
            }),
            word_at(final(self)@.memory, 2 * pos) == val,
    {
        let at = 2 * pos;
        self.ram.set(at, ((val >> 8u16) & 0xFF) as u8);
        self.ram.set(at + 1, (val & 0xFF) as u8);
        assert((val >> 8u16) & 0xFF == val / 256 && val & 0xFF == val % 256) by (bit_vector);
    }
}

impl Program {
    /// Executes `8xyo` with operation `op` on the registers.
    fn exec_alu(&mut self, x: usize, y: usize, op: u8)
        requires
            old(self).wf(),
            x < REGISTER_COUNT,
            y < REGISTER_COUNT,
        ensures
            final(self)@ == (MachineState { regs: alu(old(self)@.regs, x as int, y as int, op as nat), ..old(self)@ }),
    {
        let a = self.vars[x];
        let b = self.vars[y];
        if op == 1 {
            self.vars.set(x, a | b);
        } else if op == 2 {
            self.vars.set(x, a & b);
        } else if op == 3 {
            self.vars.set(x, a ^ b);
        } else if op == 4 {
            let r = ((a as u16 + b as u16) % 256) as u8;
            self.vars.set(x, r);
            // the sum wrapped exactly when it came out below the old value
            self.vars.set(FLAG, if a > r { 1u8 } else { 0u8 });
        } else if op == 5 {
            let r = ((a as u16 + 256 - b as u16) % 256) as u8;
            self.vars.set(x, r);
            // the difference wrapped exactly when it came out above the old value
            self.vars.set(FLAG, if a < r { 1u8 } else { 0u8 });
        } else if op == 6 {
            self.vars.set(FLAG, b & 1);
            self.vars.set(x, b >> 1u8);
        } else if op == 0xE {
            self.vars.set(FLAG, (b >> 7u8) & 1);
            self.vars.set(x, ((b as u16 * 2) % 256) as u8);
        }
    }

    /// XORs the `height` sprite rows at `I` onto the frame at origin `(x, y)`.
    fn draw_sprite(&mut self, x: u8, y: u8, height: u8)
        requires
            old(self).wf(),
            x < DISPLAY_X,
            y < DISPLAY_Y,
            0 < height,
            in_memory(old(self)@.index as int, height as int),
        ensures
            final(self)@ == (MachineState {
                frame: blit(
                    old(self)@.frame,
                    old(self)@.memory.subrange(old(self)@.index as int, old(self)@.index + height),
                    x as int,
                    y as int,
                ),
                ..old(self)@
            }),
    {
        let start = self.i as usize;
        let ghost f0 = self.frame@;
        let ghost sprite = self.ram@.subrange(start as int, start + height);
        assert(blit_partial(f0, sprite, x as int, y as int, 0, 0) =~= f0);
        let mut row: u8 = 0;
        while row < height
            invariant
                row <= height,
                sprite.len() == height,
                sprite == old(self)@.memory.subrange(start as int, start + height),
                f0 == old(self)@.frame,
                start == old(self)@.index,
                start + height <= RAM_SIZE,
                old(self).wf(),
                x < DISPLAY_X,
                y < DISPLAY_Y,
                self@ == (MachineState { frame: blit_partial(f0, sprite, x as int, y as int, row as int, 0), ..old(self)@ }),
            decreases height - row,
        {
            let byte = self.ram[start + row as usize];
            let mut col: u8 = 0;
            while col < 8
                invariant
                    row < height,
                    col <= 8,
                    sprite.len() == height,
                    byte == sprite[row as int],
                    sprite == old(self)@.memory.subrange(start as int, start + height),
                    f0 == old(self)@.frame,
                    old(self).wf(),
                    x < DISPLAY_X,
                    y < DISPLAY_Y,
                    self@ == (MachineState {
                        frame: blit_partial(f0, sprite, x as int, y as int, row as int, col as int),
                        ..old(self)@
                    }),
                decreases 8 - col,
            {
                let px = x as usize + col as usize;
                let py = y as usize + row as usize;
                proof {
                    lemma_blit_step(f0, sprite, x as int, y as int, row as int, col as int);
                }
                if px < DISPLAY_X && py < DISPLAY_Y {
                    let k = py * DISPLAY_X + px;
                    let bit = (byte >> (7 - col)) & 1 == 1;
                    let v = self.frame[k];
                    self.frame.set(k, v != bit);
                }
                col = col + 1;
            }
            proof {
                assert(blit_partial(f0, sprite, x as int, y as int, row as int, 8) =~= blit_partial(
                    f0,
                    sprite,
                    x as int,
                    y as int,
                    row + 1,
                    0,
                ));
            }
            row = row + 1;
        }
    }
}

impl Program {
    /// Executes the `Fxkk` instruction found at `pc`.
    fn exec_index_op(&mut self, pc: usize, x: usize, kk: u8) -> (r: Result<(), Fault>)
        requires
            old(self).wf(),
            x < REGISTER_COUNT,
        ensures
            final(self).wf(),
            match index_op(old(self)@, pc as int, x as int, kk as int) {
                Ok(t) => r == Ok::<(), Fault>(()) && final(self)@ == t,
                Err(e) => r == Err::<(), Fault>(e) && final(self)@ == old(self)@,
            },
    {
        let i = self.i;
        let v = self.vars[x];
        if kk == 0x1E {
            self.i = ((i as u32 + v as u32) % 0x10000) as u16;
            Ok(())
        } else if kk == 0x29 {
            self.i = v as u16;
            Ok(())
        } else if kk == 0x33 || kk == 0x55 || kk == 0x65 {
            let len: usize = if kk == 0x33 {
                3
            } else {
                x
            };
            let start = i as usize;
            if len > 0 && start + len > RAM_SIZE {
                return Err(Fault::MemoryOutOfRange { pointer: pc, start, len });
            }
            if kk == 0x33 {
                self.ram.set(start, v / 100);
                self.ram.set(start + 1, v / 10);
                self.ram.set(start + 2, v / 1);
            } else if kk == 0x55 {
                let ghost m0 = self.ram@;
                let mut k: usize = 0;
                while k < x
                    invariant
                        k <= x < REGISTER_COUNT,
                        x == 0 || start + x <= RAM_SIZE,
                        start == old(self)@.index,
                        m0 == old(self)@.memory,
                        old(self).wf(),
                        self@ == (MachineState { memory: self@.memory, ..old(self)@ }),
                        self@.memory =~= store_regs(m0, old(self)@.regs, start as int, k as int),
                    decreases x - k,
                {
                    let b = self.vars[k];
                    self.ram.set(start + k, b);
                    k = k + 1;
                }
            } else {
                let ghost r0 = self.vars@;
                let mut k: usize = 0;
                while k < x
                    invariant
                        k <= x < REGISTER_COUNT,
                        x == 0 || start + x <= RAM_SIZE,
                        start == old(self)@.index,
                        r0 == old(self)@.regs,
                        old(self).wf(),
                        self@ == (MachineState { regs: self@.regs, ..old(self)@ }),
                        self@.regs =~= load_regs(r0, old(self)@.memory, start as int, k as int),
                    decreases x - k,
                {
                    let b = self.ram[start + k];
                    self.vars.set(k, b);
                    k = k + 1;
                }
            }
            Ok(())
        } else {
            Ok(())
        }
    }
}

impl Program {
    /// Executes one instruction, using `random` as the random byte of `Cxkk`.
    ///
    /// On a fault the machine is left as it was.
    pub fn run_cycle_with(&mut self, random: u8) -> (r: Result<(), Fault>)
        requires
            old(self).wf(),
        ensures
            final(self).wf(),
            match cycle(old(self)@, random) {
                Ok(t) => r == Ok::<(), Fault>(()) && final(self)@ == t,
                Err(e) => r == Err::<(), Fault>(e) && final(self)@ == old(self)@,
            },
    {
        let pc = self.stack[self.stack_position];
        if pc >= RAM_SIZE - 1 {
            return Err(Fault::FetchOutOfRange { pointer: pc });
        }
        let ins = self.get_cur_ins();
        let family = self.get_cur_nibble(0);
        let x = self.get_cur_nibble(1) as usize;
        let y = self.get_cur_nibble(2) as usize;
        let n = self.get_cur_nibble(3);
        let kk = self.get_cur_nibbles(0, 2) as u8;
        let nnn = self.get_cur_nibbles(0, 3) as usize;
        proof {
            lemma_decode(ins as nat);
        }
        let mut next: usize = pc + 2;
        if family == 0 {
            if ins == 0x00E0 {
                self.frame = vec![false; FRAME_SIZE];
                assert(self.frame@ =~= Seq::new(FRAME_SIZE as nat, |k: int| false));
            } else if ins == 0x00EE {
                if self.stack_position == 0 {
                    return Err(Fault::StackUnderflow { pointer: pc });
                }
                self.stack_position = self.stack_position - 1;
                next = self.stack[self.stack_position] + 2;
            }
        } else if family == 1 {
            next = 2 * nnn;
        } else if family == 2 {
            if self.stack_position + 1 >= STACK_SIZE {
                return Err(Fault::StackOverflow { pointer: pc });
            }
            self.stack_position = self.stack_position + 1;
            next = 2 * nnn;
        } else if family == 3 {
            if self.vars[x] == kk {
                next = pc + 4;
            }
        } else if family == 4 {
            if self.vars[x] != kk {
                next = pc + 4;
            }
        } else if family == 5 {
            if self.vars[x] == self.vars[y] {
                next = pc + 4;
            }
        } else if family == 6 {
            self.vars.set(x, kk);
        } else if family == 7 {
            let v = self.vars[x];
            self.vars.set(x, ((v as u16 + kk as u16) % 256) as u8);
        } else if family == 8 {
            self.exec_alu(x, y, n);
        } else if family == 9 {
            if self.vars[x] != self.vars[y] {
                next = pc + 4;
            }
        } else if family == 0xA {
            self.i = nnn as u16;
        } else if family == 0xB {
            next = self.vars[0] as usize + nnn + 2;
        } else if family == 0xC {
            self.vars.set(x, random & kk);
        } else if family == 0xD {
            let start = self.i as usize;
            if n > 0 && start + n as usize > RAM_SIZE {
                return Err(Fault::MemoryOutOfRange { pointer: pc, start, len: n as usize });
            }
            if n > 0 {
                let vx = self.vars[x] % 64;
                let vy = self.vars[y] % 32;
                self.draw_sprite(vx, vy, n);
            } else {
                proof {
                    let s0 = old(self)@;
                    let vx = (s0.regs[x as int] % 64) as int;
                    let vy = (s0.regs[y as int] % 32) as int;
                    assert(blit(s0.frame, Seq::empty(), vx, vy) =~= s0.frame);
                }
            }
        } else if family == 0xE {
            let v = self.vars[x];
            let down = v < 16 && self.keyboard[v as usize];
            if kk == 0x9E {
                if down {
                    next = pc + 4;
                }
            } else if kk == 0xA1 {
                if !down {
                    next = pc + 4;
                }
            }
        } else {
            match self.exec_index_op(pc, x, kk) {
                Ok(()) => {},
                Err(e) => {
                    return Err(e);
                },
            }
        }
        self.stack.set(self.stack_position, next);
        Ok(())
    }

    /// Executes one instruction, drawing the random byte of `Cxkk` from the
    /// thread's random number generator.
    ///
    /// On a fault the machine is left as it was.
    pub fn run_cycle(&mut self) -> (r: Result<(), Fault>)
        requires
            old(self).wf(),
        ensures
            final(self).wf(),
            exists|random: u8|
                match #[trigger] cycle(old(self)@, random) {
                    Ok(t) => r == Ok::<(), Fault>(()) && final(self)@ == t,
                    Err(e) => r == Err::<(), Fault>(e) && final(self)@ == old(self)@,
                },
    {
        let random: u8 = if self.stack[self.stack_position] < RAM_SIZE - 1 && self.get_cur_nibble(0) == 0xC {
            random_byte() as u8
        } else {
            0
        };
        self.run_cycle_with(random)
    }
}

/// Relies on rand's `thread_rng().gen_range(low, high)`, documented to return a
/// value in `[low, high)`.
#[verifier::external_body]
fn random_byte() -> (r: u16)
    ensures
        r < 256,
{
    rand::thread_rng().gen_range(0u16, 256u16)
}

impl Program {
    /// The current instruction pointer, a byte offset into memory.
    pub fn pointer(&self) -> (r: usize)
        requires
            self.wf(),
        ensures
            r == self@.pointer(),
    {
        self.stack[self.stack_position]
    }

    /// Entry `k` of the call stack: a saved pointer below `depth()`, the
    /// current pointer at `depth()`.
    pub fn stack_entry(&self, k: usize) -> (r: usize)
        requires
            self.wf(),
            k < STACK_SIZE,
        ensures
            r == self@.stack[k as int],
    {
        self.stack[k]
    }

    /// How many calls are open.
    pub fn depth(&self) -> (r: usize)
        requires
            self.wf(),
        ensures
            r == self@.depth,
    {
        self.stack_position
    }

    /// The value of register `Vx`.
    pub fn register(&self, x: usize) -> (r: u8)
        requires
            self.wf(),
            x < REGISTER_COUNT,
        ensures
            r == self@.regs[x as int],
    {
        self.vars[x]
    }

    /// The value of the index register `I`.
    pub fn index_register(&self) -> (r: u16)
        ensures
            r == self@.index,
    {
        self.i
    }

    /// The memory byte at offset `addr`.
    pub fn memory(&self, addr: usize) -> (r: u8)
        requires
            self.wf(),
            addr < RAM_SIZE,
        ensures
            r == self@.memory[addr as int],
    {
        self.ram[addr]
    }

    /// Whether the pixel in column `col` and row `row` is lit.
    pub fn pixel(&self, col: usize, row: usize) -> (r: bool)
        requires
            self.wf(),
            col < DISPLAY_X,
            row < DISPLAY_Y,
        ensures
            r == self@.pixel(col as int, row as int),
    {
        self.frame[row * DISPLAY_X + col]
    }

    /// Whether key `k` is down.
    pub fn key(&self, k: usize) -> (r: bool)
        requires
            self.wf(),
            k < REGISTER_COUNT,
        ensures
            r == self@.keys[k as int],
    {
        self.keyboard[k]
    }

    /// Marks key `k` as down or up.
    pub fn set_key(&mut self, k: usize, down: bool)
        requires
            old(self).wf(),
            k < REGISTER_COUNT,
        ensures
            final(self).wf(),
            final(self)@ == (MachineState { keys: old(self)@.keys.update(k as int, down), ..old(self)@ }),
    {
        self.keyboard.set(k, down);
    }
}

proof fn lemma_decode(w: nat)
    ensures
        nibble_field(w, 3, 1) == op_family(w),
        nibble_field(w, 2, 1) == op_x(w),
        nibble_field(w, 1, 1) == op_y(w),
        nibble_field(w, 0, 1) == op_n(w),
        nibble_field(w, 0, 2) == op_kk(w),
        nibble_field(w, 0, 3) == op_addr(w),
{
    reveal_with_fuel(pow16, 4);
    assert(w / 1 == w);
}

/// One more column of a sprite row flips at most the one pixel under it.
proof fn lemma_blit_step(f0: Seq<bool>, sprite: Seq<u8>, x: int, y: int, row: int, col: int)
    requires
        f0.len() == FRAME_SIZE,
        0 <= x < DISPLAY_X,
        0 <= y < DISPLAY_Y,
        0 <= row < sprite.len(),
        0 <= col < 8,
    ensures
        ({
            let before = blit_partial(f0, sprite, x, y, row, col);
            let after = blit_partial(f0, sprite, x, y, row, col + 1);
            let k = (y + row) * DISPLAY_X + x + col;
            if x + col < DISPLAY_X && y + row < DISPLAY_Y {
                after == before.update(k, before[k] != sprite_bit(sprite[row], col))
            } else {
                after == before
            }
        }),
{
    let before = blit_partial(f0, sprite, x, y, row, col);
    let after = blit_partial(f0, sprite, x, y, row, col + 1);
    let k0 = (y + row) * 64 + x + col;
    assert forall|k: int| 0 <= k < FRAME_SIZE implies (in_drawn_part(k, x, y, sprite.len() as int, row, col + 1)
        != in_drawn_part(k, x, y, sprite.len() as int, row, col)) == (k == k0 && x + col < 64 && y + row < 32) by {
        vstd::arithmetic::div_mod::lemma_fundamental_div_mod(k, 64);
        if k == k0 && x + col < 64 {
            vstd::arithmetic::div_mod::lemma_fundamental_div_mod_converse(k, 64, y + row, x + col);
        }
    }
    if x + col < DISPLAY_X && y + row < DISPLAY_Y {
        assert(0 <= k0 < FRAME_SIZE) by (nonlinear_arith)
            requires 0 <= x + col < 64, 0 <= y + row < 32, k0 == (y + row) * 64 + x + col;
        assert(k0 % 64 == x + col && k0 / 64 == y + row) by {
            vstd::arithmetic::div_mod::lemma_fundamental_div_mod_converse(k0, 64, y + row, x + col);
        }
        assert(after =~= before.update(k0, before[k0] != sprite_bit(sprite[row], col)));
    } else {
        assert(after =~= before);
    }
}

proof fn lemma_pow16_bound(k: nat)
    requires
        k < 3,
    ensures
        pow16(k) <= 256,
        pow16(k + 1) == 16 * pow16(k),
{
    reveal_with_fuel(pow16, 5);
}

proof fn lemma_nibbles_of_word(hi: u8, lo: u8)
    ensures
        nibble_field(hi as nat * 256 + lo as nat, 3, 1) == (hi >> 4u8) as nat,
        nibble_field(hi as nat * 256 + lo as nat, 2, 1) == (hi & 0xF) as nat,
        nibble_field(hi as nat * 256 + lo as nat, 1, 1) == (lo >> 4u8) as nat,
        nibble_field(hi as nat * 256 + lo as nat, 0, 1) == (lo & 0xF) as nat,
{
    reveal_with_fuel(pow16, 4);
    assert(hi >> 4u8 == hi / 16 && hi & 0xF == hi % 16) by (bit_vector);
    assert(lo >> 4u8 == lo / 16 && lo & 0xF == lo % 16) by (bit_vector);
    assert((hi as nat * 256 + lo as nat) / 4096 == hi as nat / 16) by (nonlinear_arith)
        requires hi < 256, lo < 256;
    assert((hi as nat / 16) % 16 == hi as nat / 16);
    assert((hi as nat * 256 + lo as nat) / 1 == hi as nat * 256 + lo as nat);
    assert(((hi as nat * 256 + lo as nat) / 256) % 16 == hi as nat % 16) by (nonlinear_arith)
        requires hi < 256, lo < 256;
    assert(((hi as nat * 256 + lo as nat) / 16) % 16 == lo as nat / 16) by (nonlinear_arith)
        requires hi < 256, lo < 256;
    assert((hi as nat * 256 + lo as nat) % 16 == lo as nat % 16) by (nonlinear_arith)
        requires hi < 256, lo < 256;
}

} // verus!
