//! The laws of the interpreter core that relate several operations, proved
//! over the machine model: arithmetic flag semantics, the XOR draw
//! involution, the call/return round trip, timer decay, and the
//! wait-for-input pause.

use vstd::prelude::*;

use crate::chip8::{
    applied, draw_collision, draw_display, draw_pattern, lemma_bit_ops, pc_plus, resumed,
    step_snapshot, stepped, ticked, ticked_n, MachineView, State,
};
use crate::opcode::OpCode;

verus! {

/// Add-with-carry: for every pair of registers (with a destination other
/// than the flag register itself), `VF` ends up 1 exactly when `Vx + Vy`
/// exceeds 255, and `Vx` receives the low byte of the sum.
pub proof fn lemma_add_with_carry(m: MachineView, vx: u16, vy: u16, kb: Map<u8, bool>, rnd: u8)
    requires
        m.wf(),
        vx < 16,
        vy < 16,
        vx != 15,
    ensures
        ({
            let a = applied(m, OpCode::ADDREG { vx, vy }, kb, rnd);
            &&& (a.v[15] == 1 <==> m.v[vx as int] + m.v[vy as int] > 255)
            &&& a.v[vx as int] == (m.v[vx as int] + m.v[vy as int]) % 256
        }),
{
}

/// Subtract-with-borrow: for every pair of registers (neither operand the
/// flag register), `VF` ends up 1 exactly when `Vx > Vy` (no borrow), and
/// `Vx` receives `Vx - Vy` wrapped to 8 bits in both cases.
pub proof fn lemma_sub_with_borrow(m: MachineView, vx: u16, vy: u16, kb: Map<u8, bool>, rnd: u8)
    requires
        m.wf(),
        vx < 16,
        vy < 16,
        vx != 15,
        vy != 15,
    ensures
        ({
            let a = applied(m, OpCode::SUB { vx, vy }, kb, rnd);
            &&& (a.v[15] == 1 <==> m.v[vx as int] > m.v[vy as int])
            &&& a.v[vx as int] == (m.v[vx as int] - m.v[vy as int]) % 256
        }),
{
}

/// Drawing the same sprite twice at the same location restores every pixel
/// the first draw toggled, and the second draw reports a collision exactly
/// when the first draw set some pixel that had been clear.
pub proof fn lemma_draw_twice(disp: Seq<u8>, mem: Seq<u8>, i: u16, x0: u8, y0: u8, n: u16)
    requires
        disp.len() == 2048,
        forall|p: int| 0 <= p < 2048 ==> disp[p] <= 1,
    ensures
        draw_display(draw_display(disp, mem, i, x0, y0, n), mem, i, x0, y0, n) =~= disp,
        (draw_collision(draw_display(disp, mem, i, x0, y0, n), mem, i, x0, y0, n)
            <==> exists|idx: int|
            0 <= idx < 2048 && draw_pattern(mem, i, x0, y0, n, idx) == 1 && disp[idx] == 0),
{
    lemma_bit_ops();
    let d1 = draw_display(disp, mem, i, x0, y0, n);
    assert forall|idx: int| 0 <= idx < 2048 implies draw_display(d1, mem, i, x0, y0, n)[idx]
        == disp[idx] by {
        let pt = draw_pattern(mem, i, x0, y0, n, idx);
        assert(((disp[idx] ^ pt) ^ pt) == disp[idx]);
    }
    assert forall|idx: int|
        0 <= idx < 2048 implies ((draw_pattern(mem, i, x0, y0, n, idx) == 1 && d1[idx] == 1) <==> (
    draw_pattern(mem, i, x0, y0, n, idx) == 1 && disp[idx] == 0)) by {
        if draw_pattern(mem, i, x0, y0, n, idx) == 1 {
            assert(d1[idx] == (disp[idx] ^ 1));
            assert(disp[idx] <= 1);
            assert((disp[idx] ^ 1) == 1 <==> disp[idx] == 0);
        }
    }
    if draw_collision(d1, mem, i, x0, y0, n) {
        let w = choose|idx: int|
            0 <= idx < 2048 && draw_pattern(mem, i, x0, y0, n, idx) == 1 && d1[idx] == 1;
        assert(draw_pattern(mem, i, x0, y0, n, w) == 1 && disp[w] == 0);
    }
    if exists|idx: int|
        0 <= idx < 2048 && draw_pattern(mem, i, x0, y0, n, idx) == 1 && disp[idx] == 0 {
        let w = choose|idx: int|
            0 <= idx < 2048 && draw_pattern(mem, i, x0, y0, n, idx) == 1 && disp[idx] == 0;
        assert(draw_pattern(mem, i, x0, y0, n, w) == 1 && d1[w] == 1);
    }
}

/// `CALL addr` followed by `RET` leaves the program counter at the
/// instruction immediately after the `CALL`, restores the stack to its
/// depth before the call, and touches nothing else.
#[verifier::rlimit(100)]
pub proof fn lemma_call_ret_round_trip(m: MachineView, addr: u16, kb: Map<u8, bool>, rnd: u8)
    requires
        m.wf(),
        addr < 0x1000,
    ensures
        ({
            let c = applied(m, OpCode::CALL { addr }, kb, rnd);
            let r = applied(c, OpCode::RET, kb, rnd);
            &&& c.pc == addr
            &&& c.stack.len() == m.stack.len() + 1
            &&& r.pc == pc_plus(m.pc, 2)
            &&& r.stack == m.stack
            &&& r.v == m.v
            &&& r.memory == m.memory
            &&& r.display == m.display
        }),
{
    let c = applied(m, OpCode::CALL { addr }, kb, rnd);
    let t = (addr + 0xFFFE) % 0x10000;
    assert(c == (MachineView {
        stack: m.stack.push(m.pc),
        pc: pc_plus((t as u16), 2),
        ..m
    }));
    assert(t == if addr >= 2 {
        addr - 2
    } else {
        addr + 0xFFFE
    });
    assert((t + 2) % 0x10000 == addr);
    assert(c.stack.last() == m.pc);
    assert(c.stack.drop_last() =~= m.stack);
}

/// Iterated 60 Hz ticks with no intervening timer writes: after `k` ticks
/// each countdown timer has decreased by `k`, floored at zero — so the
/// sound timer reaches zero after enough ticks and never wraps below it —
/// and nothing else changes.
pub proof fn lemma_timer_decay(m: MachineView, k: nat)
    ensures
        ticked_n(m, k).sound_timer == if k >= m.sound_timer {
            0
        } else {
            m.sound_timer - k
        },
        ticked_n(m, k).delay_timer == if k >= m.delay_timer {
            0
        } else {
            m.delay_timer - k
        },
        ticked_n(m, k) == (MachineView {
            sound_timer: ticked_n(m, k).sound_timer,
            delay_timer: ticked_n(m, k).delay_timer,
            ..m
        }),
    decreases k,
{
    if k > 0 {
        lemma_timer_decay(m, (k - 1) as nat);
        assert(ticked_n(m, k) == ticked(ticked_n(m, (k - 1) as nat)));
    }
}

/// Wait-for-input: the `Fx0A` opcode registers its destination register
/// and pauses the machine; while paused and with no key supplied, a step
/// changes nothing and reports the wait; a just-pressed key lands in the
/// registered register and clears the pause, so execution resumes with the
/// instruction after the `Fx0A`.
pub proof fn lemma_wait_for_input(
    m: MachineView,
    kb: Map<u8, bool>,
    tick: bool,
    rnd: u8,
    vx: u16,
    key: u8,
)
    requires
        m.wf(),
        vx < 16,
    ensures
        applied(m, OpCode::LDK { vx }, kb, rnd).waiting_for_input_vx == Some(vx as u8),
        m.waiting_for_input_vx is Some ==> stepped(m, kb, None, tick, rnd) == m,
        m.waiting_for_input_vx is Some ==> (forall|s: State|
            step_snapshot(m, kb, None, tick, rnd, s) ==> s.waiting_for_input),
        m.waiting_for_input_vx is Some ==> resumed(m, Some(key)) == (MachineView {
            v: m.v.update(m.waiting_for_input_vx.unwrap() as int, key),
            waiting_for_input_vx: None,
            ..m
        }),
{
}

} // verus!
