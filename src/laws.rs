//! Properties of the cycle semantics that hold over every machine state.
use crate::model::{
    blit, cycle, in_memory, op_addr, op_family, op_kk, op_n, op_x, op_y,
    word_at, MachineState, DISPLAY_X, DISPLAY_Y, FLAG, FRAME_SIZE, RAM_SIZE, REGISTER_COUNT,
    STACK_SIZE,
};
use vstd::prelude::*;

verus! {

/// The instruction word with top nibble `f`, then `x`, `y` and low nibble `n`.
pub open spec fn compose(f: nat, x: nat, y: nat, n: nat) -> nat {
    f * 4096 + x * 256 + y * 16 + n
}

proof fn lemma_compose(f: nat, x: nat, y: nat, n: nat)
    requires
        f < 16,
        x < 16,
        y < 16,
        n < 16,
    ensures
        op_family(compose(f, x, y, n)) == f,
        op_x(compose(f, x, y, n)) == x,
        op_y(compose(f, x, y, n)) == y,
        op_n(compose(f, x, y, n)) == n,
        op_kk(compose(f, x, y, n)) == y * 16 + n,
        op_addr(compose(f, x, y, n)) == x * 256 + y * 16 + n,
        compose(f, x, y, n) < 65536,
{
    let w = compose(f, x, y, n);
    assert(w / 4096 == f && (w / 256) % 16 == x && (w / 16) % 16 == y && w % 16 == n) by (nonlinear_arith)
        requires
            f < 16,
            x < 16,
            y < 16,
            n < 16,
            w == f * 4096 + x * 256 + y * 16 + n,
    ;
    assert(w % 256 == y * 16 + n && w % 4096 == x * 256 + y * 16 + n) by (nonlinear_arith)
        requires
            f < 16,
            x < 16,
            y < 16,
            n < 16,
            w == f * 4096 + x * 256 + y * 16 + n,
    ;
}

/// Adding registers with `8xy4` leaves `(a + b) mod 256` in `Vx` and sets the
/// flag to 1 exactly when `a + b >= 256`, where `a` and `b` are the values of
/// `Vx` and `Vy` before (`x` other than the flag register).
pub proof fn add_sets_carry(s: MachineState, x: nat, y: nat, random: u8)
    requires
        s.wf(),
        x < FLAG,
        y < REGISTER_COUNT,
        s.pointer() + 1 < RAM_SIZE,
        word_at(s.memory, s.pointer()) == compose(8, x, y, 4),
    ensures
        cycle(s, random) is Ok,
        ({
            let a = s.regs[x as int];
            let b = s.regs[y as int];
            let t = cycle(s, random)->Ok_0;
            &&& t.regs[x as int] == (a + b) % 256
            &&& t.regs[FLAG as int] == if a + b >= 256 { 1u8 } else { 0u8 }
        }),
{
    lemma_compose(8, x, y, 4);
}

/// Subtracting registers with `8xy5` leaves `(a - b) mod 256` in `Vx`; the flag
/// is the borrow, 1 exactly when `a < b`, where `a` and `b` are the values of
/// `Vx` and `Vy` before (`x` other than the flag register).
pub proof fn sub_sets_borrow(s: MachineState, x: nat, y: nat, random: u8)
    requires
        s.wf(),
        x < FLAG,
        y < REGISTER_COUNT,
        s.pointer() + 1 < RAM_SIZE,
        word_at(s.memory, s.pointer()) == compose(8, x, y, 5),
    ensures
        cycle(s, random) is Ok,
        ({
            let a = s.regs[x as int];
            let b = s.regs[y as int];
            let t = cycle(s, random)->Ok_0;
            &&& t.regs[x as int] == (a - b) % 256
            &&& t.regs[FLAG as int] == if a < b { 1u8 } else { 0u8 }
        }),
{
    lemma_compose(8, x, y, 5);
}

/// After `00E0` every one of the pixels reads unlit.
pub proof fn clear_unlights_every_pixel(s: MachineState, random: u8)
    requires
        s.wf(),
        s.pointer() + 1 < RAM_SIZE,
        word_at(s.memory, s.pointer()) == 0x00E0,
    ensures
        cycle(s, random) is Ok,
        cycle(s, random)->Ok_0.frame.len() == FRAME_SIZE,
        forall|col: int, row: int|
            0 <= col < DISPLAY_X && 0 <= row < DISPLAY_Y ==> !#[trigger] cycle(s, random)->Ok_0.pixel(col, row),
{
    let t = cycle(s, random)->Ok_0;
    assert forall|col: int, row: int| 0 <= col < DISPLAY_X && 0 <= row < DISPLAY_Y implies !#[trigger] t.pixel(
        col,
        row,
    ) by {
        assert(0 <= row * 64 + col < 2048) by (nonlinear_arith)
            requires
                0 <= col < 64,
                0 <= row < 32,
        ;
    }
}

proof fn lemma_blit_twice(frame: Seq<bool>, sprite: Seq<u8>, x: int, y: int)
    ensures
        blit(blit(frame, sprite, x, y), sprite, x, y) == frame,
{
    let once = blit(frame, sprite, x, y);
    assert(blit(once, sprite, x, y) =~= frame);
}

/// Drawing one sprite at one place twice in succession (`Dxyn` at the pointer
/// and again at the next instruction) gives back the frame as it was.
pub proof fn draw_twice_restores_frame(s: MachineState, x: nat, y: nat, n: nat, random: u8)
    requires
        s.wf(),
        x < REGISTER_COUNT,
        y < REGISTER_COUNT,
        n < 16,
        s.pointer() + 3 < RAM_SIZE,
        word_at(s.memory, s.pointer()) == compose(0xD, x, y, n),
        word_at(s.memory, s.pointer() + 2) == compose(0xD, x, y, n),
        in_memory(s.index as int, n as int),
    ensures
        cycle(s, random) is Ok,
        cycle(cycle(s, random)->Ok_0, random) is Ok,
        cycle(cycle(s, random)->Ok_0, random)->Ok_0.frame == s.frame,
{
    lemma_compose(0xD, x, y, n);
    let t1 = cycle(s, random)->Ok_0;
    assert(t1.pointer() == s.pointer() + 2);
    assert(t1.memory == s.memory);
    lemma_blit_twice(
        s.frame,
        s.memory.subrange(s.index as int, s.index + n),
        (s.regs[x as int] % 64) as int,
        (s.regs[y as int] % 32) as int,
    );
}

/// A call `2nnn` followed by the return `00EE` at its target comes back to the
/// instruction after the call, at the same depth, with the saved pointers
/// below it and everything but the stack as before.
pub proof fn call_then_return(s: MachineState, nnn: nat, random: u8)
    requires
        s.wf(),
        nnn < 4096,
        s.depth + 1 < STACK_SIZE,
        s.pointer() + 1 < RAM_SIZE,
        word_at(s.memory, s.pointer()) == 0x2000 + nnn,
        2 * nnn + 1 < RAM_SIZE,
        word_at(s.memory, 2 * nnn as int) == 0x00EE,
    ensures
        cycle(s, random) is Ok,
        cycle(cycle(s, random)->Ok_0, random) is Ok,
        ({
            let t = cycle(cycle(s, random)->Ok_0, random)->Ok_0;
            &&& t.depth == s.depth
            &&& t.pointer() == s.pointer() + 2
            &&& forall|k: int| 0 <= k < s.depth ==> #[trigger] t.stack[k] == s.stack[k]
            &&& t == (MachineState { stack: t.stack, ..s })
        }),
{
    let w = 0x2000 + nnn;
    assert(op_family(w) == 2 && op_addr(w) == nnn) by (nonlinear_arith)
        requires
            nnn < 4096,
            w == 0x2000 + nnn,
    ;
    let t1 = MachineState { depth: s.depth + 1, ..s }.with_pointer(2 * nnn as int);
    assert(cycle(s, random) == Ok::<MachineState, crate::model::Fault>(t1));
    assert(t1.pointer() == 2 * nnn);
    assert(word_at(t1.memory, t1.pointer()) == 0x00EE);
    assert(op_family(0x00EE) == 0);
}

} // verus!
