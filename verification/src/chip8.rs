//! The interpreter core: the whole machine state, and the step engine that
//! fetches, decodes and executes one instruction per call.
//!
//! Every operation is specified against [`MachineView`], the mathematical
//! model of the state. The two sources the core cannot compute itself — the
//! wall clock that gates the 60 Hz timers, and the random byte of the `Cxkk`
//! opcode — come in through trusted wrappers; everything downstream of them
//! is verified for every value they could return.

use vstd::prelude::*;

use std::collections::HashMap;
use std::time::Instant;

use crate::instruction::Instruction;
use crate::opcode::{decoded, OpCode};

verus! {

broadcast use vstd::std_specs::hash::group_hash_axioms;

#[verifier::external_type_specification]
#[verifier::external_body]
pub struct ExInstant(Instant);

/// Relies on `std::time::Instant::now`: an opaque timestamp of the present
/// moment. Nothing is promised of it.
#[verifier::external_body]
fn instant_now() -> Instant {
    Instant::now()
}

/// Relies on `std::time::Instant::elapsed` and `Duration::as_millis`: whole
/// milliseconds since the timestamp was taken. The result depends on the
/// wall clock, so nothing is promised of it; the caller states what holds
/// for every value.
#[verifier::external_body]
fn elapsed_millis(t: &Instant) -> u128 {
    t.elapsed().as_millis()
}

/// Relies on `rand::random`: a byte drawn from the process-wide generator.
/// Nothing can be promised of a random value; the caller states what holds
/// for every value.
#[verifier::external_body]
fn random_byte() -> u8 {
    rand::random::<u8>()
}

/// The per-step snapshot handed to the rendering/audio collaborator: the
/// full framebuffer, whether any draw or clear happened this step, whether
/// a tone should sound, and whether the machine is blocked awaiting a key.
pub struct State {
    pub display: Vec<u8>,
    pub update_display: bool,
    pub play_audio: bool,
    pub waiting_for_input: bool,
}

/// The mathematical model of the machine state. All contracts of [`Chip8`]
/// are stated over this view.
#[verifier::ext_equal]
pub ghost struct MachineView {
    /// The 16 general-purpose 8-bit registers `V0`..`VF`.
    pub v: Seq<u8>,
    /// The 16-bit index register `I`.
    pub i: u16,
    pub delay_timer: u8,
    pub sound_timer: u8,
    /// Byte address of the next instruction.
    pub pc: u16,
    /// Return addresses pushed by `CALL`, popped by `RET`.
    pub stack: Seq<u16>,
    /// The 64x32 monochrome framebuffer, row-major, one byte (0 or 1) per pixel.
    pub display: Seq<u8>,
    /// The 4096 bytes of memory: font table at 0x000, program from 0x200.
    pub memory: Seq<u8>,
    /// Whether a draw or clear has happened since the last snapshot.
    pub update_display: bool,
    /// When `Some(wx)`, the machine is paused until a key arrives for `Vwx`.
    pub waiting_for_input_vx: Option<u8>,
}

impl MachineView {
    /// Structural well-formedness: fixed sizes, boolean pixels, and a valid
    /// destination register whenever the machine waits for input.
    /// Construction establishes it and every operation preserves it.
    pub open spec fn wf(self) -> bool {
        &&& self.v.len() == 16
        &&& self.memory.len() == 4096
        &&& self.display.len() == 2048
        &&& (forall|p: int| 0 <= p < 2048 ==> self.display[p] <= 1)
        &&& match self.waiting_for_input_vx {
            Some(wx) => wx < 16,
            None => true,
        }
    }
}

/// The entire VM state. Mutated exclusively by successive `step` calls
/// (and by `apply`, which `step` uses to execute one decoded opcode).
pub struct Chip8 {
    v: Vec<u8>,
    i: u16,
    delay_timer: u8,
    sound_timer: u8,
    pc: u16,
    stack: Vec<u16>,
    display: Vec<u8>,
    memory: Vec<u8>,
    last_updated: Instant,
    update_display: bool,
    waiting_for_input_vx: Option<u8>,
}

impl View for Chip8 {
    type V = MachineView;

    closed spec fn view(&self) -> MachineView {
        MachineView {
            v: self.v@,
            i: self.i,
            delay_timer: self.delay_timer,
            sound_timer: self.sound_timer,
            pc: self.pc,
            stack: self.stack@,
            display: self.display@,
            memory: self.memory@,
            update_display: self.update_display,
            waiting_for_input_vx: self.waiting_for_input_vx,
        }
    }
}

/// The built-in font table: 16 glyphs (hex digits 0-F), 5 bytes each,
/// occupying memory 0x000..0x050.
pub open spec fn font_table() -> Seq<u8> {
    seq![
        0xF0, 0x90, 0x90, 0x90, 0xF0,  // 0
        0x20, 0x60, 0x20, 0x20, 0x70,  // 1
        0xF0, 0x10, 0xF0, 0x80, 0xF0,  // 2
        0xF0, 0x10, 0xF0, 0x10, 0xF0,  // 3
        0x90, 0x90, 0xF0, 0x10, 0x10,  // 4
        0xF0, 0x80, 0xF0, 0x10, 0xF0,  // 5
        0xF0, 0x80, 0xF0, 0x90, 0xF0,  // 6
        0xF0, 0x10, 0x20, 0x40, 0x40,  // 7
        0xF0, 0x90, 0xF0, 0x90, 0xF0,  // 8
        0xF0, 0x90, 0xF0, 0x10, 0xF0,  // 9
        0xF0, 0x90, 0xF0, 0x90, 0x90,  // A
        0xE0, 0x90, 0xE0, 0x90, 0xE0,  // B
        0xF0, 0x80, 0x80, 0x80, 0xF0,  // C
        0xE0, 0x90, 0x90, 0x90, 0xE0,  // D
        0xF0, 0x80, 0xF0, 0x80, 0xF0,  // E
        0xF0, 0x80, 0xF0, 0x80, 0x80,  // F
    ]
}

/// The 16-bit word at the program counter, big-endian, each byte address
/// masked to the 4096-byte memory.
pub open spec fn fetched(m: MachineView) -> u16 {
    (m.memory[m.pc as int % 4096] * 0x100 + m.memory[(m.pc as int + 1) % 4096]) as u16
}

/// A pending wait-for-input is satisfied by a just-pressed key: the key is
/// stored in the registered destination register and the wait flag cleared.
/// Otherwise the state is unchanged.
pub open spec fn resumed(m: MachineView, keydown: Option<u8>) -> MachineView {
    match (keydown, m.waiting_for_input_vx) {
        (Some(key), Some(wx)) => MachineView {
            v: m.v.update(wx as int, key),
            waiting_for_input_vx: None,
            ..m
        },
        _ => m,
    }
}

/// One 60 Hz timer tick: each countdown timer decrements toward zero and
/// never wraps.
pub open spec fn ticked(m: MachineView) -> MachineView {
    MachineView {
        delay_timer: if m.delay_timer > 0 {
            (m.delay_timer - 1) as u8
        } else {
            0
        },
        sound_timer: if m.sound_timer > 0 {
            (m.sound_timer - 1) as u8
        } else {
            0
        },
        ..m
    }
}


/// `k` consecutive 60 Hz timer ticks.
pub open spec fn ticked_n(m: MachineView, k: nat) -> MachineView
    decreases k,
{
    if k == 0 {
        m
    } else {
        ticked(ticked_n(m, (k - 1) as nat))
    }
}

/// Wrapping 16-bit advance of the program counter.
pub open spec fn pc_plus(pc: u16, k: u16) -> u16 {
    ((pc + k) % 0x10000) as u16
}

/// The conditions under which executing `op` is defined: `RET` needs a
/// return address on the stack, and the key-skip opcodes need the queried
/// key code to be present in the supplied keyboard mapping.
pub open spec fn can_apply(m: MachineView, op: OpCode, kb: Map<u8, bool>) -> bool {
    match op {
        OpCode::RET => m.stack.len() > 0,
        OpCode::SKP { vx } => kb.contains_key(m.v[vx as int]),
        OpCode::SKNP { vx } => kb.contains_key(m.v[vx as int]),
        _ => true,
    }
}

/// Bit `col` of a sprite row byte, most significant bit first.
pub open spec fn sprite_bit(b: u8, col: int) -> u8 {
    (b >> ((7 - col) as u8)) & 1
}

/// The sprite row that pixel `idx` falls in, as an offset from the draw
/// origin row `y0` (wrapped on the 32-row screen).
pub open spec fn draw_hit_row(y0: u8, idx: int) -> int {
    (idx / 64 - (y0 as int) % 32 + 32) % 32
}

/// The sprite column that pixel `idx` falls in, as an offset from the draw
/// origin column `x0` (wrapped on the 64-column screen).
pub open spec fn draw_hit_col(x0: u8, idx: int) -> int {
    (idx % 64 - (x0 as int) % 64 + 64) % 64
}

/// The sprite bit that an `n`-row draw at `(x0, y0)` XORs into pixel `idx`:
/// zero for pixels outside the sprite's (wrapped) footprint.
pub open spec fn draw_pattern(mem: Seq<u8>, i: u16, x0: u8, y0: u8, n: u16, idx: int) -> u8 {
    let r = draw_hit_row(y0, idx);
    let c = draw_hit_col(x0, idx);
    if r < n && c < 8 {
        sprite_bit(mem[(i as int + r) % 4096], c)
    } else {
        0
    }
}

/// The framebuffer after an `n`-row draw at `(x0, y0)`: every pixel XORed
/// with the sprite bit that falls on it.
pub open spec fn draw_display(disp: Seq<u8>, mem: Seq<u8>, i: u16, x0: u8, y0: u8, n: u16) -> Seq<
    u8,
> {
    Seq::new(2048, |idx: int| disp[idx] ^ draw_pattern(mem, i, x0, y0, n, idx))
}

/// Whether an `n`-row draw at `(x0, y0)` clears a previously set pixel.
pub open spec fn draw_collision(disp: Seq<u8>, mem: Seq<u8>, i: u16, x0: u8, y0: u8, n: u16) -> bool {
    exists|idx: int|
        0 <= idx < 2048 && draw_pattern(mem, i, x0, y0, n, idx) == 1 && disp[idx] == 1
}


/// Pixels that the draw loop has already visited: sprite rows before
/// `rows`, plus columns before `cols` within row `rows`.
spec fn draw_processed(x0: u8, y0: u8, n: int, rows: int, cols: int, idx: int) -> bool {
    let r = draw_hit_row(y0, idx);
    let c = draw_hit_col(x0, idx);
    r < n && c < 8 && (r < rows || (r == rows && c < cols))
}

/// The register slot that memory address `a` receives in a bulk store at
/// index register `i`: the (wrapped) distance from `i` to `a`.
pub open spec fn mem_offset(i: u16, a: int) -> int {
    (a - (i as int) % 4096 + 4096) % 4096
}

/// Memory after the bulk store `Fx55`: registers `V0..=Vvx` written to the
/// addresses `I..=I+vx`, each masked to the 4096-byte memory.
pub open spec fn stored_registers(mem: Seq<u8>, v: Seq<u8>, i: u16, vx: u16) -> Seq<u8> {
    Seq::new(4096, |a: int| {
        if mem_offset(i, a) <= vx {
            v[mem_offset(i, a)]
        } else {
            mem[a]
        }
    })
}

/// The machine after executing `op`, before the uniform advance of the
/// program counter. `rnd` is the byte that the `Cxkk` opcode masks.
pub open spec fn executed(m: MachineView, op: OpCode, kb: Map<u8, bool>, rnd: u8) -> MachineView {
    match op {
        OpCode::NOOP => m,
        OpCode::CLS => MachineView {
            display: Seq::new(2048, |idx: int| 0u8),
            update_display: true,
            ..m
        },
        OpCode::RET => MachineView { pc: m.stack.last(), stack: m.stack.drop_last(), ..m },
        OpCode::JP { addr } => MachineView { pc: ((addr + 0xFFFE) % 0x10000) as u16, ..m },
        OpCode::CALL { addr } => MachineView {
            stack: m.stack.push(m.pc),
            pc: ((addr + 0xFFFE) % 0x10000) as u16,
            ..m
        },
        OpCode::SE { vx, other, by_value } => {
            let value = if by_value {
                other as u8
            } else {
                m.v[other as int]
            };
            if m.v[vx as int] == value {
                MachineView { pc: pc_plus(m.pc, 2), ..m }
            } else {
                m
            }
        },
        OpCode::SNE { vx, other, by_value } => {
            let value = if by_value {
                other as u8
            } else {
                m.v[other as int]
            };
            if m.v[vx as int] != value {
                MachineView { pc: pc_plus(m.pc, 2), ..m }
            } else {
                m
            }
        },
        OpCode::LD { vx, other, by_value } => {
            let value = if by_value {
                other as u8
            } else {
                m.v[other as int]
            };
            MachineView { v: m.v.update(vx as int, value), ..m }
        },
        OpCode::ADD { vx, byte } => MachineView {
            v: m.v.update(vx as int, ((m.v[vx as int] + byte) % 0x100) as u8),
            ..m
        },
        OpCode::OR { vx, vy } => MachineView {
            v: m.v.update(vx as int, m.v[vx as int] | m.v[vy as int]),
            ..m
        },
        OpCode::AND { vx, vy } => MachineView {
            v: m.v.update(vx as int, m.v[vx as int] & m.v[vy as int]),
            ..m
        },
        OpCode::XOR { vx, vy } => MachineView {
            v: m.v.update(vx as int, m.v[vx as int] ^ m.v[vy as int]),
            ..m
        },
        OpCode::ADDREG { vx, vy } => {
            let sum = m.v[vx as int] + m.v[vy as int];
            let v1 = m.v.update(15, if sum > 255 { 1u8 } else { 0u8 });
            MachineView { v: v1.update(vx as int, (sum % 0x100) as u8), ..m }
        },
        OpCode::SUB { vx, vy } => {
            let borrow = m.v[vx as int] > m.v[vy as int];
            let v1 = m.v.update(15, if borrow { 1u8 } else { 0u8 });
            MachineView {
                v: v1.update(vx as int, ((v1[vx as int] + 0x100 - v1[vy as int]) % 0x100) as u8),
                ..m
            }
        },
        OpCode::SHR { vx, vy } => {
            let v1 = m.v.update(15, m.v[vx as int] & 1);
            MachineView { v: v1.update(vx as int, v1[vx as int] >> 1u8), ..m }
        },
        OpCode::SUBN { vx, vy } => {
            let borrow = m.v[vy as int] > m.v[vx as int];
            let v1 = m.v.update(15, if borrow { 1u8 } else { 0u8 });
            MachineView {
                v: v1.update(vx as int, ((v1[vy as int] + 0x100 - v1[vx as int]) % 0x100) as u8),
                ..m
            }
        },
        OpCode::SHL { vx, vy } => {
            let v1 = m.v.update(15, (m.v[vx as int] & 0x80) >> 7u8);
            MachineView { v: v1.update(vx as int, v1[vx as int] << 1u8), ..m }
        },
        OpCode::LDI { addr } => MachineView { i: addr, ..m },
        OpCode::JPV0 { addr } => MachineView {
            pc: ((m.v[0] + addr + 0xFFFE) % 0x10000) as u16,
            ..m
        },
        OpCode::RND { vx, byte } => MachineView {
            v: m.v.update(vx as int, rnd & (byte as u8)),
            ..m
        },
        OpCode::DRW { vx, vy, nibble } => {
            let x0 = m.v[vx as int];
            let y0 = m.v[vy as int];
            MachineView {
                v: m.v.update(
                    15,
                    if draw_collision(m.display, m.memory, m.i, x0, y0, nibble) {
                        1u8
                    } else {
                        0u8
                    },
                ),
                display: draw_display(m.display, m.memory, m.i, x0, y0, nibble),
                update_display: true,
                ..m
            }
        },
        OpCode::SKP { vx } => {
            if kb[m.v[vx as int]] {
                MachineView { pc: pc_plus(m.pc, 2), ..m }
            } else {
                m
            }
        },
        OpCode::SKNP { vx } => {
            if !kb[m.v[vx as int]] {
                MachineView { pc: pc_plus(m.pc, 2), ..m }
            } else {
                m
            }
        },
        OpCode::LDVXDT { vx } => MachineView { v: m.v.update(vx as int, m.delay_timer), ..m },
        OpCode::LDK { vx } => MachineView { waiting_for_input_vx: Some(vx as u8), ..m },
        OpCode::LDDTVX { vx } => MachineView { delay_timer: m.v[vx as int], ..m },
        OpCode::LDSTVX { vx } => MachineView { sound_timer: m.v[vx as int], ..m },
        OpCode::ADDI { vx } => MachineView { i: ((m.i + m.v[vx as int]) % 0x10000) as u16, ..m },
        OpCode::LDF { vx } => MachineView { i: (m.v[vx as int] * 5) as u16, ..m },
        OpCode::LDB { vx } => {
            let value = m.v[vx as int];
            let base = (m.i as int) % 4096;
            MachineView {
                memory: m.memory.update(base, (value / 100) as u8).update(
                    (m.i as int + 1) % 4096,
                    (((value % 100) / 10) as u8),
                ).update((m.i as int + 2) % 4096, (value % 10) as u8),
                ..m
            }
        },
        OpCode::LDMEMI { vx } => MachineView {
            memory: stored_registers(m.memory, m.v, m.i, vx),
            ..m
        },
        OpCode::LDVXMEMI { vx } => MachineView {
            v: Seq::new(16, |k: int| if k <= vx {
                m.memory[(m.i as int + k) % 4096]
            } else {
                m.v[k]
            }),
            ..m
        },
    }
}

/// The machine after executing `op` and the uniform program-counter advance
/// (jump opcodes pre-compensate, so they land exactly on their target).
pub open spec fn applied(m: MachineView, op: OpCode, kb: Map<u8, bool>, rnd: u8) -> MachineView {
    let a = executed(m, op, kb, rnd);
    MachineView { pc: pc_plus(a.pc, 2), ..a }
}

/// The conditions under which `step` is defined: once a pending
/// wait-for-input is resolved, the instruction at the program counter must
/// be executable (see `can_apply`).
pub open spec fn can_step(m: MachineView, kb: Map<u8, bool>, keydown: Option<u8>) -> bool {
    let r = resumed(m, keydown);
    r.waiting_for_input_vx is None ==> can_apply(r, decoded(fetched(r)), kb)
}

/// The machine after one `step` call, given whether the 60 Hz timer gate
/// fired (`tick`) and the byte the random opcode would mask (`rnd`): the
/// wait-for-input resolution, then — unless still waiting — the timer tick,
/// and the fetch/decode/execute of one instruction.
pub open spec fn stepped(
    m: MachineView,
    kb: Map<u8, bool>,
    keydown: Option<u8>,
    tick: bool,
    rnd: u8,
) -> MachineView {
    let r = resumed(m, keydown);
    if r.waiting_for_input_vx is Some {
        r
    } else {
        let t = if tick {
            ticked(r)
        } else {
            r
        };
        let a = applied(t, decoded(fetched(t)), kb, rnd);
        MachineView { update_display: false, ..a }
    }
}

/// The snapshot that the same `step` call reports: the framebuffer, whether
/// a draw or clear happened, whether the sound timer is running, and
/// whether the machine is (still) blocked awaiting a key.
pub open spec fn step_snapshot(
    m: MachineView,
    kb: Map<u8, bool>,
    keydown: Option<u8>,
    tick: bool,
    rnd: u8,
    s: State,
) -> bool {
    let r = resumed(m, keydown);
    if r.waiting_for_input_vx is Some {
        &&& s.display@ == r.display
        &&& !s.update_display
        &&& s.play_audio == (r.sound_timer > 0)
        &&& s.waiting_for_input
    } else {
        let t = if tick {
            ticked(r)
        } else {
            r
        };
        let a = applied(t, decoded(fetched(t)), kb, rnd);
        &&& s.display@ == a.display
        &&& s.update_display == a.update_display
        &&& s.play_audio == (a.sound_timer > 0)
        &&& !s.waiting_for_input
    }
}

pub(crate) proof fn lemma_bit_ops()
    by (bit_vector)
    ensures
        forall|b: u8, s: u8| s < 8 ==> #[trigger] ((b >> s) & 1) <= 1,
        forall|a: u8| #[trigger] (a ^ 0) == a,
        forall|a: u8, b: u8| #[trigger] ((a ^ b) ^ b) == a,
        forall|a: u8| a <= 1 ==> (#[trigger] (a ^ 1) == 1 <==> a == 0),
        forall|a: u8, b: u8| a <= 1 && b <= 1 ==> #[trigger] (a ^ b) <= 1,
        forall|a: u8, b: u8| a <= 1 && b <= 1 ==> (#[trigger] (a & b) == 1 <==> a == 1 && b == 1),
        forall|a: u8, b: u8| a <= 1 && b <= 1 ==> (#[trigger] (a | b) == 1 <==> a == 1 || b == 1),
        forall|a: u8, b: u8| a <= 1 && b <= 1 ==> #[trigger] (a & b) <= 1,
        forall|a: u8, b: u8| a <= 1 && b <= 1 ==> #[trigger] (a | b) <= 1,
{
}

proof fn lemma_mod_offset(a: int, b: int, mdl: int)
    by (nonlinear_arith)
    requires
        mdl > 0,
        a >= 0,
        0 <= b < mdl,
    ensures
        ((a + b) % mdl - a % mdl + mdl) % mdl == b,
{
}

proof fn lemma_mod_recover(a: int, cy: int, mdl: int)
    by (nonlinear_arith)
    requires
        mdl > 0,
        a >= 0,
        0 <= cy < mdl,
    ensures
        (a + ((cy - a % mdl + mdl) % mdl)) % mdl == cy,
{
}

proof fn lemma_cell_decompose(cy: int, cx: int)
    by (nonlinear_arith)
    requires
        0 <= cy < 32,
        0 <= cx < 64,
    ensures
        (cy * 64 + cx) / 64 == cy,
        (cy * 64 + cx) % 64 == cx,
        0 <= cy * 64 + cx < 2048,
{
}

impl Chip8 {
    /// Builds the 80-byte font table.
    #[verifier::rlimit(50)]
    fn font_data() -> (r: Vec<u8>)
        ensures
            r@ == font_table(),
    {
        let mut fonts: Vec<u8> = Vec::new();
        fonts.push(0xF0); fonts.push(0x90); fonts.push(0x90); fonts.push(0x90); fonts.push(0xF0);
        fonts.push(0x20); fonts.push(0x60); fonts.push(0x20); fonts.push(0x20); fonts.push(0x70);
        fonts.push(0xF0); fonts.push(0x10); fonts.push(0xF0); fonts.push(0x80); fonts.push(0xF0);
        fonts.push(0xF0); fonts.push(0x10); fonts.push(0xF0); fonts.push(0x10); fonts.push(0xF0);
        fonts.push(0x90); fonts.push(0x90); fonts.push(0xF0); fonts.push(0x10); fonts.push(0x10);
        fonts.push(0xF0); fonts.push(0x80); fonts.push(0xF0); fonts.push(0x10); fonts.push(0xF0);
        fonts.push(0xF0); fonts.push(0x80); fonts.push(0xF0); fonts.push(0x90); fonts.push(0xF0);
        fonts.push(0xF0); fonts.push(0x10); fonts.push(0x20); fonts.push(0x40); fonts.push(0x40);
        fonts.push(0xF0); fonts.push(0x90); fonts.push(0xF0); fonts.push(0x90); fonts.push(0xF0);
        fonts.push(0xF0); fonts.push(0x90); fonts.push(0xF0); fonts.push(0x10); fonts.push(0xF0);
        fonts.push(0xF0); fonts.push(0x90); fonts.push(0xF0); fonts.push(0x90); fonts.push(0x90);
        fonts.push(0xE0); fonts.push(0x90); fonts.push(0xE0); fonts.push(0x90); fonts.push(0xE0);
        fonts.push(0xF0); fonts.push(0x80); fonts.push(0x80); fonts.push(0x80); fonts.push(0xF0);
        fonts.push(0xE0); fonts.push(0x90); fonts.push(0x90); fonts.push(0x90); fonts.push(0xE0);
        fonts.push(0xF0); fonts.push(0x80); fonts.push(0xF0); fonts.push(0x80); fonts.push(0xF0);
        fonts.push(0xF0); fonts.push(0x80); fonts.push(0xF0); fonts.push(0x80); fonts.push(0x80);
        proof {
            assert(fonts@ =~= font_table());
        }
        fonts
    }

    /// Constructs a machine with `program` loaded at 0x200, the font table
    /// at 0x000, everything else zeroed, and the program counter at 0x200.
    pub fn new_program(program: Vec<u8>) -> (r: Chip8)
        requires
            program@.len() <= 4096 - 0x200,
        ensures
            r@.wf(),
            r@.v.len() == 16,
            forall|k: int| 0 <= k < 16 ==> r@.v[k] == 0,
            r@.i == 0,
            r@.delay_timer == 0,
            r@.sound_timer == 0,
            r@.pc == 0x200,
            r@.stack.len() == 0,
            r@.display.len() == 2048,
            forall|p: int| 0 <= p < 2048 ==> r@.display[p] == 0,
            r@.memory.len() == 4096,
            forall|a: int| 0 <= a < 80 ==> r@.memory[a] == font_table()[a],
            forall|a: int| 80 <= a < 0x200 ==> r@.memory[a] == 0,
            forall|a: int|
                0x200 <= a < 0x200 + program@.len() ==> r@.memory[a] == program@[a - 0x200],
            forall|a: int| 0x200 + program@.len() <= a < 4096 ==> r@.memory[a] == 0,
            !r@.update_display,
            r@.waiting_for_input_vx is None,
    {
        let mut memory: Vec<u8> = Vec::new();
        while memory.len() < 4096
            invariant
                memory@.len() <= 4096,
                forall|a: int| 0 <= a < memory@.len() ==> memory@[a] == 0,
            decreases 4096 - memory@.len(),
        {
            memory.push(0);
        }

        let mut idx: usize = 0;
        while idx < program.len()
            invariant
                idx <= program@.len(),
                program@.len() <= 4096 - 0x200,
                memory@.len() == 4096,
                forall|a: int| 0 <= a < 0x200 ==> memory@[a] == 0,
                forall|a: int| 0x200 <= a < 0x200 + idx ==> memory@[a] == program@[a - 0x200],
                forall|a: int| 0x200 + idx <= a < 4096 ==> memory@[a] == 0,
            decreases program@.len() - idx,
        {
            memory.set(idx + 0x200, program[idx]);
            idx = idx + 1;
        }

        let fonts = Self::font_data();
        let mut fdx: usize = 0;
        while fdx < 80
            invariant
                fdx <= 80,
                fonts@ == font_table(),
                program@.len() <= 4096 - 0x200,
                memory@.len() == 4096,
                forall|a: int| 0 <= a < fdx ==> memory@[a] == font_table()[a],
                forall|a: int| fdx <= a < 0x200 ==> memory@[a] == 0,
                forall|a: int|
                    0x200 <= a < 0x200 + program@.len() ==> memory@[a] == program@[a - 0x200],
                forall|a: int| 0x200 + program@.len() <= a < 4096 ==> memory@[a] == 0,
            decreases 80 - fdx,
        {
            memory.set(fdx, fonts[fdx]);
            fdx = fdx + 1;
        }

        let mut v: Vec<u8> = Vec::new();
        while v.len() < 16
            invariant
                v@.len() <= 16,
                forall|k: int| 0 <= k < v@.len() ==> v@[k] == 0,
            decreases 16 - v@.len(),
        {
            v.push(0);
        }

        let mut display: Vec<u8> = Vec::new();
        while display.len() < 2048
            invariant
                display@.len() <= 2048,
                forall|p: int| 0 <= p < display@.len() ==> display@[p] == 0,
            decreases 2048 - display@.len(),
        {
            display.push(0);
        }

        Chip8 {
            v,
            i: 0,
            delay_timer: 0,
            sound_timer: 0,
            pc: 0x200,
            stack: Vec::new(),
            display,
            memory,
            last_updated: instant_now(),
            update_display: false,
            waiting_for_input_vx: None,
        }
    }

    /// Fetches and decodes the instruction word at the program counter,
    /// without changing any state.
    pub fn read_opcode(&self) -> (r: OpCode)
        requires
            self@.wf(),
        ensures
            r == decoded(fetched(self@)),
            r.wf(),
    {
        let hi = self.memory[(self.pc as usize) % 4096];
        let lo = self.memory[(self.pc as usize + 1) % 4096];
        let word: u16 = (hi as u16) * 0x100 + lo as u16;
        proof {
            crate::opcode::lemma_decoded_wf(word);
        }
        OpCode::from(Instruction::new(word))
    }

    /// The value of register `Vidx`.
    pub fn register(&self, idx: u8) -> (r: u8)
        requires
            self@.wf(),
            idx < 16,
        ensures
            r == self@.v[idx as int],
    {
        self.v[idx as usize]
    }

    /// The value of the index register `I`.
    pub fn index_register(&self) -> (r: u16)
        ensures
            r == self@.i,
    {
        self.i
    }

    /// The current program counter.
    pub fn program_counter(&self) -> (r: u16)
        ensures
            r == self@.pc,
    {
        self.pc
    }

    /// The current delay timer value.
    pub fn delay_timer(&self) -> (r: u8)
        ensures
            r == self@.delay_timer,
    {
        self.delay_timer
    }

    /// The current sound timer value.
    pub fn sound_timer(&self) -> (r: u8)
        ensures
            r == self@.sound_timer,
    {
        self.sound_timer
    }

    /// The current call-stack depth.
    pub fn stack_depth(&self) -> (r: usize)
        ensures
            r == self@.stack.len(),
    {
        self.stack.len()
    }

    /// The framebuffer, row-major: pixel `(x, y)` is cell `y * 64 + x`.
    pub fn display(&self) -> (r: &Vec<u8>)
        ensures
            r@ == self@.display,
    {
        &self.display
    }

    /// Whether the machine is paused awaiting a keypress.
    pub fn is_waiting_for_input(&self) -> (r: bool)
        ensures
            r == (self@.waiting_for_input_vx is Some),
    {
        self.waiting_for_input_vx.is_some()
    }

    /// One 60 Hz timer tick: both countdown timers decrement toward zero
    /// (a decrement at zero is a no-op, never a wrap); nothing else changes.
    pub fn tick_timers(&mut self)
        ensures
            final(self)@ == ticked(old(self)@),
    {
        if self.delay_timer > 0 {
            self.delay_timer = self.delay_timer - 1;
        }
        if self.sound_timer > 0 {
            self.sound_timer = self.sound_timer - 1;
        }
    }


    /// Clears the framebuffer.
    fn op_cls(&mut self)
        requires
            old(self)@.wf(),
        ensures
            final(self)@ == (MachineView {
                display: Seq::new(2048, |idx: int| 0u8),
                update_display: true,
                ..old(self)@
            }),
            final(self)@.wf(),
    {
        let ghost pre = self@;
        let mut p: usize = 0;
        while p < 2048
            invariant
                pre.wf(),
                p <= 2048,
                self@ == (MachineView { display: self@.display, ..pre }),
                self@.display.len() == 2048,
                forall|q: int| 0 <= q < p ==> self@.display[q] == 0,
                forall|q: int| p <= q < 2048 ==> self@.display[q] == pre.display[q],
            decreases 2048 - p,
        {
            self.display.set(p, 0);
            p = p + 1;
        }
        self.update_display = true;
        proof {
            assert(self@ =~= (MachineView {
                display: Seq::new(2048, |idx: int| 0u8),
                update_display: true,
                ..pre
            }));
        }
    }

    /// Draws an `n`-row sprite from memory at `I` to `(Vvx, Vvy)`, XOR
    /// compositing with wraparound; `VF` reports whether a set pixel was
    /// cleared.
    #[verifier::rlimit(100)]
    fn op_draw(&mut self, vx: u16, vy: u16, n: u16)
        requires
            old(self)@.wf(),
            vx < 16,
            vy < 16,
            n < 16,
        ensures
            final(self)@ == (MachineView {
                v: old(self)@.v.update(
                    15,
                    if draw_collision(
                        old(self)@.display,
                        old(self)@.memory,
                        old(self)@.i,
                        old(self)@.v[vx as int],
                        old(self)@.v[vy as int],
                        n,
                    ) {
                        1u8
                    } else {
                        0u8
                    },
                ),
                display: draw_display(
                    old(self)@.display,
                    old(self)@.memory,
                    old(self)@.i,
                    old(self)@.v[vx as int],
                    old(self)@.v[vy as int],
                    n,
                ),
                update_display: true,
                ..old(self)@
            }),
            final(self)@.wf(),
    {
        let ghost pre = self@;
        let x0 = self.v[vx as usize];
        let y0 = self.v[vy as usize];
        self.v.set(0xF, 0);
        proof {
            lemma_bit_ops();
        }
        let mut yy: u16 = 0;
        while yy < n
            invariant
                pre.wf(),
                vx < 16,
                vy < 16,
                n < 16,
                yy <= n,
                x0 == pre.v[vx as int],
                y0 == pre.v[vy as int],
                self@ == (MachineView { v: self@.v, display: self@.display, ..pre }),
                self@.v.len() == 16,
                forall|k: int| 0 <= k < 16 && k != 15 ==> self@.v[k] == pre.v[k],
                self@.display.len() == 2048,
                forall|idx: int|
                    0 <= idx < 2048 ==> self@.display[idx] == (
                    if draw_processed(x0, y0, n as int, yy as int, 0, idx) {
                        pre.display[idx] ^ draw_pattern(pre.memory, pre.i, x0, y0, n, idx)
                    } else {
                        pre.display[idx]
                    }),
                self@.v[15] <= 1,
                (self@.v[15] == 1 <==> exists|idx: int|
                    0 <= idx < 2048 && draw_processed(x0, y0, n as int, yy as int, 0, idx)
                        && draw_pattern(pre.memory, pre.i, x0, y0, n, idx) == 1 && pre.display[idx]
                        == 1),
            decreases n - yy,
        {
            let sprite_part = self.memory[((self.i as usize) + (yy as usize)) % 4096];
            let current_y = ((y0 as usize) + (yy as usize)) % 32;
            let mut xx: u16 = 0;
            while xx < 8
                invariant
                    pre.wf(),
                    vx < 16,
                    vy < 16,
                    n < 16,
                    yy < n,
                    xx <= 8,
                    x0 == pre.v[vx as int],
                    y0 == pre.v[vy as int],
                    sprite_part == pre.memory[(pre.i as int + yy as int) % 4096],
                    current_y == (y0 as int + yy as int) % 32,
                    self@ == (MachineView { v: self@.v, display: self@.display, ..pre }),
                    self@.v.len() == 16,
                    forall|k: int| 0 <= k < 16 && k != 15 ==> self@.v[k] == pre.v[k],
                    self@.display.len() == 2048,
                    forall|idx: int|
                        0 <= idx < 2048 ==> self@.display[idx] == (
                        if draw_processed(x0, y0, n as int, yy as int, xx as int, idx) {
                            pre.display[idx] ^ draw_pattern(pre.memory, pre.i, x0, y0, n, idx)
                        } else {
                            pre.display[idx]
                        }),
                    self@.v[15] <= 1,
                    (self@.v[15] == 1 <==> exists|idx: int|
                        0 <= idx < 2048 && draw_processed(x0, y0, n as int, yy as int, xx as int, idx)
                            && draw_pattern(pre.memory, pre.i, x0, y0, n, idx) == 1
                            && pre.display[idx] == 1),
                decreases 8 - xx,
            {
                let current_x = ((x0 as usize) + (xx as usize)) % 64;
                let index = current_y * 64 + current_x;
                let shift: u8 = (7 - xx) as u8;
                let pixel = (sprite_part >> shift) & 1;
                proof {
                    lemma_bit_ops();
                    lemma_cell_decompose(current_y as int, current_x as int);
                    lemma_mod_offset(y0 as int, yy as int, 32);
                    lemma_mod_offset(x0 as int, xx as int, 64);
                    assert(draw_hit_row(y0, index as int) == yy);
                    assert(draw_hit_col(x0, index as int) == xx);
                    assert(draw_pattern(pre.memory, pre.i, x0, y0, n, index as int) == pixel);
                    assert(!draw_processed(x0, y0, n as int, yy as int, xx as int, index as int));
                }
                let cur = self.display[index];
                let vf = self.v[0xF];
                self.v.set(0xF, vf | (pixel & cur));
                self.display.set(index, cur ^ pixel);
                proof {
                    assert(cur == pre.display[index as int]);
                    assert(cur <= 1);
                    assert(pixel <= 1);
                    assert forall|idx: int| 0 <= idx < 2048 implies (draw_processed(
                        x0,
                        y0,
                        n as int,
                        yy as int,
                        xx as int + 1,
                        idx,
                    ) <==> (draw_processed(x0, y0, n as int, yy as int, xx as int, idx) || idx
                        == index as int)) by {
                        if draw_processed(x0, y0, n as int, yy as int, xx as int + 1, idx)
                            && !draw_processed(x0, y0, n as int, yy as int, xx as int, idx) {
                            lemma_mod_recover(y0 as int, idx / 64, 32);
                            lemma_mod_recover(x0 as int, idx % 64, 64);
                            vstd::arithmetic::div_mod::lemma_fundamental_div_mod(idx, 64);
                            assert(idx == index as int);
                        }
                        if idx == index as int {
                            assert(draw_processed(x0, y0, n as int, yy as int, xx as int + 1, idx));
                        }
                    }
                    let ghost coll_here = pixel == 1 && pre.display[index as int] == 1;
                    assert(vf <= 1);
                    assert((pixel & cur) <= 1);
                    assert((pixel & cur) == 1 <==> pixel == 1 && cur == 1);
                    assert((vf | (pixel & cur)) <= 1);
                    assert((vf | (pixel & cur)) == 1 <==> vf == 1 || (pixel & cur) == 1);
                    assert(self@.v[15] == (vf | (pixel & cur)));
                    assert(self@.v[15] == 1 <==> (vf == 1 || coll_here));
                    assert((exists|idx: int|
                        0 <= idx < 2048 && draw_processed(x0, y0, n as int, yy as int, xx as int + 1, idx)
                            && draw_pattern(pre.memory, pre.i, x0, y0, n, idx) == 1
                            && pre.display[idx] == 1) <==> (vf == 1 || coll_here)) by {
                        if exists|idx: int|
                            0 <= idx < 2048 && draw_processed(x0, y0, n as int, yy as int, xx as int + 1, idx)
                                && draw_pattern(pre.memory, pre.i, x0, y0, n, idx) == 1
                                && pre.display[idx] == 1 {
                            let w = choose|idx: int|
                                0 <= idx < 2048 && draw_processed(x0, y0, n as int, yy as int, xx as int + 1, idx)
                                    && draw_pattern(pre.memory, pre.i, x0, y0, n, idx) == 1
                                    && pre.display[idx] == 1;
                            if w == index as int {
                                assert(coll_here);
                            } else {
                                assert(draw_processed(x0, y0, n as int, yy as int, xx as int, w));
                                assert(vf == 1);
                            }
                        }
                        if vf == 1 {
                            let w = choose|idx: int|
                                0 <= idx < 2048 && draw_processed(x0, y0, n as int, yy as int, xx as int, idx)
                                    && draw_pattern(pre.memory, pre.i, x0, y0, n, idx) == 1
                                    && pre.display[idx] == 1;
                            assert(draw_processed(x0, y0, n as int, yy as int, xx as int + 1, w));
                        }
                        if coll_here {
                            assert(draw_processed(x0, y0, n as int, yy as int, xx as int + 1, index as int)
                                && draw_pattern(pre.memory, pre.i, x0, y0, n, index as int) == 1
                                && pre.display[index as int] == 1);
                        }
                    }
                }
                xx = xx + 1;
            }
            proof {
                assert forall|idx: int| 0 <= idx < 2048 implies (draw_processed(
                    x0,
                    y0,
                    n as int,
                    yy as int + 1,
                    0,
                    idx,
                ) <==> draw_processed(x0, y0, n as int, yy as int, 8, idx)) by {}
            }
            yy = yy + 1;
        }
        self.update_display = true;
        proof {
            lemma_bit_ops();
            let ghost dd = draw_display(pre.display, pre.memory, pre.i, x0, y0, n);
            assert forall|idx: int| 0 <= idx < 2048 implies self@.display[idx] == dd[idx] by {
                assert(draw_processed(x0, y0, n as int, n as int, 0, idx) <==> (draw_hit_row(
                    y0,
                    idx,
                ) < n && draw_hit_col(x0, idx) < 8));
            }
            assert(self@.display =~= dd);
            assert(self@.v[15] == 1 <==> draw_collision(
                pre.display,
                pre.memory,
                pre.i,
                x0,
                y0,
                n,
            )) by {
                assert forall|idx: int| 0 <= idx < 2048 implies (draw_processed(
                    x0,
                    y0,
                    n as int,
                    n as int,
                    0,
                    idx,
                ) <==> (draw_hit_row(y0, idx) < n && draw_hit_col(x0, idx) < 8)) by {}
            }
            assert(self@.v =~= pre.v.update(
                15,
                if draw_collision(pre.display, pre.memory, pre.i, x0, y0, n) {
                    1u8
                } else {
                    0u8
                },
            ));
            assert forall|idx: int| 0 <= idx < 2048 implies self@.display[idx] <= 1 by {
                assert(draw_pattern(pre.memory, pre.i, x0, y0, n, idx) <= 1);
            }
            assert(self@ =~= (MachineView {
                v: pre.v.update(
                    15,
                    if draw_collision(pre.display, pre.memory, pre.i, x0, y0, n) {
                        1u8
                    } else {
                        0u8
                    },
                ),
                display: dd,
                update_display: true,
                ..pre
            }));
        }
    }

    /// Bulk store `Fx55`: copies registers `V0..=Vvx` to memory at `I`;
    /// the index register itself is not advanced.
    fn op_store_regs(&mut self, vx: u16)
        requires
            old(self)@.wf(),
            vx < 16,
        ensures
            final(self)@ == (MachineView {
                memory: stored_registers(old(self)@.memory, old(self)@.v, old(self)@.i, vx),
                ..old(self)@
            }),
            final(self)@.wf(),
    {
        let ghost pre = self@;
        let mut k: u16 = 0;
        while k <= vx
            invariant
                pre.wf(),
                vx < 16,
                k <= vx + 1,
                self@ == (MachineView { memory: self@.memory, ..pre }),
                self@.memory.len() == 4096,
                forall|a: int|
                    0 <= a < 4096 ==> self@.memory[a] == (
                    if mem_offset(pre.i, a) < k {
                        pre.v[mem_offset(pre.i, a)]
                    } else {
                        pre.memory[a]
                    }),
            decreases vx + 1 - k,
        {
            let addr = ((self.i as usize) + (k as usize)) % 4096;
            let val = self.v[k as usize];
            self.memory.set(addr, val);
            proof {
                lemma_mod_offset(pre.i as int, k as int, 4096);
                assert(mem_offset(pre.i, addr as int) == k);
                assert forall|a: int|
                    0 <= a < 4096 && a != addr as int implies ((#[trigger] mem_offset(pre.i, a)
                    < k + 1) <==> (mem_offset(pre.i, a) < k)) by {
                    if mem_offset(pre.i, a) == k {
                        lemma_mod_recover(pre.i as int, a, 4096);
                        assert(a == addr as int);
                    }
                }
            }
            k = k + 1;
        }
        proof {
            assert(self@.memory =~= stored_registers(pre.memory, pre.v, pre.i, vx));
            assert(self@ =~= (MachineView {
                memory: stored_registers(pre.memory, pre.v, pre.i, vx),
                ..pre
            }));
        }
    }

    /// Bulk load `Fx65`: fills registers `V0..=Vvx` from memory at `I`;
    /// the index register itself is not advanced.
    fn op_load_regs(&mut self, vx: u16)
        requires
            old(self)@.wf(),
            vx < 16,
        ensures
            final(self)@ == (MachineView {
                v: Seq::new(
                    16,
                    |j: int|
                        if j <= vx {
                            old(self)@.memory[(old(self)@.i as int + j) % 4096]
                        } else {
                            old(self)@.v[j]
                        },
                ),
                ..old(self)@
            }),
            final(self)@.wf(),
    {
        let ghost pre = self@;
        let mut k: u16 = 0;
        while k <= vx
            invariant
                pre.wf(),
                vx < 16,
                k <= vx + 1,
                self@ == (MachineView { v: self@.v, ..pre }),
                self@.v.len() == 16,
                forall|j: int|
                    0 <= j < 16 ==> self@.v[j] == (
                    if j < k {
                        pre.memory[(pre.i as int + j) % 4096]
                    } else {
                        pre.v[j]
                    }),
            decreases vx + 1 - k,
        {
            let val = self.memory[((self.i as usize) + (k as usize)) % 4096];
            self.v.set(k as usize, val);
            k = k + 1;
        }
        proof {
            assert(self@.v =~= Seq::new(
                16,
                |j: int|
                    if j <= vx {
                        pre.memory[(pre.i as int + j) % 4096]
                    } else {
                        pre.v[j]
                    },
            ));
            assert(self@ =~= (MachineView {
                v: Seq::new(
                    16,
                    |j: int|
                        if j <= vx {
                            pre.memory[(pre.i as int + j) % 4096]
                        } else {
                            pre.v[j]
                        },
                ),
                ..pre
            }));
        }
    }

    /// Executes one decoded opcode against the machine state, with `rnd` as
    /// the byte that the `Cxkk` opcode masks, then advances the program
    /// counter. Fully deterministic; `apply` draws the byte from the
    /// process-wide generator instead.
    pub fn apply_with_random(&mut self, opcode: OpCode, keyboard: &HashMap<u8, bool>, rnd: u8)
        requires
            old(self)@.wf(),
            opcode.wf(),
            can_apply(old(self)@, opcode, keyboard@),
        ensures
            final(self)@ == applied(old(self)@, opcode, keyboard@, rnd),
            final(self)@.wf(),
    {
        let ghost pre = self@;
        match opcode {
            OpCode::NOOP => {},
            OpCode::CLS => self.op_cls(),
            OpCode::RET => {
                if let Some(a) = self.stack.pop() {
                    self.pc = a;
                }
            },
            OpCode::JP { addr } => {
                self.pc = ((addr as u32 + 0xFFFE) % 0x10000) as u16;
            },
            OpCode::CALL { addr } => {
                self.stack.push(self.pc);
                self.pc = ((addr as u32 + 0xFFFE) % 0x10000) as u16;
            },
            OpCode::SE { vx, other, by_value } => {
                let value = if by_value {
                    other as u8
                } else {
                    self.v[other as usize]
                };
                if self.v[vx as usize] == value {
                    self.pc = ((self.pc as u32 + 2) % 0x10000) as u16;
                }
            },
            OpCode::SNE { vx, other, by_value } => {
                let value = if by_value {
                    other as u8
                } else {
                    self.v[other as usize]
                };
                if self.v[vx as usize] != value {
                    self.pc = ((self.pc as u32 + 2) % 0x10000) as u16;
                }
            },
            OpCode::LD { vx, other, by_value } => {
                let value = if by_value {
                    other as u8
                } else {
                    self.v[other as usize]
                };
                self.v.set(vx as usize, value);
            },
            OpCode::ADD { vx, byte } => {
                let sum = (self.v[vx as usize] as u16 + byte) % 0x100;
                self.v.set(vx as usize, sum as u8);
            },
            OpCode::OR { vx, vy } => {
                let r = self.v[vx as usize] | self.v[vy as usize];
                self.v.set(vx as usize, r);
            },
            OpCode::AND { vx, vy } => {
                let r = self.v[vx as usize] & self.v[vy as usize];
                self.v.set(vx as usize, r);
            },
            OpCode::XOR { vx, vy } => {
                let r = self.v[vx as usize] ^ self.v[vy as usize];
                self.v.set(vx as usize, r);
            },
            OpCode::ADDREG { vx, vy } => {
                let sum = self.v[vx as usize] as u16 + self.v[vy as usize] as u16;
                self.v.set(0xF, if sum > 255 { 1 } else { 0 });
                self.v.set(vx as usize, (sum % 0x100) as u8);
            },
            OpCode::SUB { vx, vy } => {
                let borrow = self.v[vx as usize] > self.v[vy as usize];
                self.v.set(0xF, if borrow { 1 } else { 0 });
                let diff = (self.v[vx as usize] as u16 + 0x100 - self.v[vy as usize] as u16) % 0x100;
                self.v.set(vx as usize, diff as u8);
            },
            OpCode::SHR { vx, .. } => {
                let f = self.v[vx as usize] & 1;
                self.v.set(0xF, f);
                let cur = self.v[vx as usize];
                self.v.set(vx as usize, cur >> 1u8);
            },
            OpCode::SUBN { vx, vy } => {
                let borrow = self.v[vy as usize] > self.v[vx as usize];
                self.v.set(0xF, if borrow { 1 } else { 0 });
                let diff = (self.v[vy as usize] as u16 + 0x100 - self.v[vx as usize] as u16) % 0x100;
                self.v.set(vx as usize, diff as u8);
            },
            OpCode::SHL { vx, .. } => {
                let f = (self.v[vx as usize] & 0x80) >> 7u8;
                self.v.set(0xF, f);
                let cur = self.v[vx as usize];
                self.v.set(vx as usize, cur << 1u8);
            },
            OpCode::LDI { addr } => {
                self.i = addr;
            },
            OpCode::JPV0 { addr } => {
                self.pc = ((self.v[0] as u32 + addr as u32 + 0xFFFE) % 0x10000) as u16;
            },
            OpCode::RND { vx, byte } => {
                self.v.set(vx as usize, rnd & (byte as u8));
            },
            OpCode::DRW { vx, vy, nibble } => {
                self.op_draw(vx, vy, nibble);
            },
            OpCode::SKP { vx } => {
                let key = self.v[vx as usize];
                let pressed = *keyboard.get(&key).unwrap();
                if pressed {
                    self.pc = ((self.pc as u32 + 2) % 0x10000) as u16;
                }
            },
            OpCode::SKNP { vx } => {
                let key = self.v[vx as usize];
                let pressed = *keyboard.get(&key).unwrap();
                if !pressed {
                    self.pc = ((self.pc as u32 + 2) % 0x10000) as u16;
                }
            },
            OpCode::LDVXDT { vx } => {
                let t = self.delay_timer;
                self.v.set(vx as usize, t);
            },
            OpCode::LDK { vx } => {
                self.waiting_for_input_vx = Some(vx as u8);
            },
            OpCode::LDDTVX { vx } => {
                self.delay_timer = self.v[vx as usize];
            },
            OpCode::LDSTVX { vx } => {
                self.sound_timer = self.v[vx as usize];
            },
            OpCode::ADDI { vx } => {
                self.i = ((self.i as u32 + self.v[vx as usize] as u32) % 0x10000) as u16;
            },
            OpCode::LDF { vx } => {
                let digit = self.v[vx as usize];
                self.i = digit as u16 * 5;
            },
            OpCode::LDB { vx } => {
                let value = self.v[vx as usize];
                let base = self.i as usize;
                self.memory.set(base % 4096, value / 100);
                self.memory.set((base + 1) % 4096, (value % 100) / 10);
                self.memory.set((base + 2) % 4096, value % 10);
            },
            OpCode::LDMEMI { vx } => {
                self.op_store_regs(vx);
            },
            OpCode::LDVXMEMI { vx } => {
                self.op_load_regs(vx);
            },
        };
        self.pc = ((self.pc as u32 + 2) % 0x10000) as u16;
        proof {
            assert(self@ =~= applied(pre, opcode, keyboard@, rnd));
        }
    }

    /// Executes one decoded opcode, drawing the `Cxkk` random byte from the
    /// process-wide generator; all other opcodes are unaffected by it.
    pub fn apply(&mut self, opcode: OpCode, keyboard: &HashMap<u8, bool>)
        requires
            old(self)@.wf(),
            opcode.wf(),
            can_apply(old(self)@, opcode, keyboard@),
        ensures
            exists|rnd: u8| final(self)@ == applied(old(self)@, opcode, keyboard@, rnd),
            !(opcode is RND) ==> final(self)@ == applied(old(self)@, opcode, keyboard@, 0),
            final(self)@.wf(),
    {
        let rnd = random_byte();
        self.apply_with_random(opcode, keyboard, rnd);
        proof {
            assert(self@ == applied(old(self)@, opcode, keyboard@, rnd));
            if !(opcode is RND) {
                assert(executed(old(self)@, opcode, keyboard@, rnd) == executed(
                    old(self)@,
                    opcode,
                    keyboard@,
                    0,
                ));
            }
        }
    }


    /// Resolves a pending wait-for-input against a just-pressed key.
    fn resume_input(&mut self, keydown: Option<u8>)
        requires
            old(self)@.wf(),
        ensures
            final(self)@ == resumed(old(self)@, keydown),
            final(self)@.wf(),
    {
        if let Some(key) = keydown {
            if let Some(wx) = self.waiting_for_input_vx {
                self.v.set(wx as usize, key);
                self.waiting_for_input_vx = None;
                proof {
                    assert(self@ =~= resumed(old(self)@, keydown));
                }
            }
        }
    }

    /// One step of the machine: resolves a pending wait-for-input against
    /// `keydown`; if still waiting, reports so without advancing anything;
    /// otherwise decrements the timers when at least one 60 Hz period has
    /// elapsed on the wall clock, then fetches, decodes and executes the
    /// instruction at the program counter. Returns the snapshot of
    /// externally observable effects.
    ///
    /// Whether the timer gate fired and which random byte was drawn depend
    /// on the wall clock and the generator; the contract holds for every
    /// outcome, quantified by `tick` and `rnd`.
    pub fn step(&mut self, keyboard: &HashMap<u8, bool>, keydown: Option<u8>) -> (r: State)
        requires
            old(self)@.wf(),
            can_step(old(self)@, keyboard@, keydown),
        ensures
            final(self)@.wf(),
            exists|tick: bool, rnd: u8|
                {
                    &&& #[trigger] stepped(old(self)@, keyboard@, keydown, tick, rnd)
                        == final(self)@
                    &&& step_snapshot(old(self)@, keyboard@, keydown, tick, rnd, r)
                },
    {
        self.resume_input(keydown);
        if self.waiting_for_input_vx.is_some() {
            let disp = self.display_copy();
            let snd = self.sound_timer > 0;
            let st = State {
                display: disp,
                update_display: false,
                play_audio: snd,
                waiting_for_input: true,
            };
            proof {
                assert(stepped(old(self)@, keyboard@, keydown, false, 0) == self@);
                assert(step_snapshot(old(self)@, keyboard@, keydown, false, 0, st));
            }
            return st;
        }
        let ghost rstate = self@;
        let e = elapsed_millis(&self.last_updated);
        let tick_due = e > 1000 / 60;
        if tick_due {
            self.last_updated = instant_now();
            self.tick_timers();
        }
        let ghost mticked = self@;
        let opcode = self.read_opcode();
        self.apply(opcode, keyboard);
        let ghost mapplied = self@;
        let update_display = self.update_display;
        self.update_display = false;
        let disp = self.display_copy();
        let snd = self.sound_timer > 0;
        let st = State {
            display: disp,
            update_display,
            play_audio: snd,
            waiting_for_input: false,
        };
        proof {
            let rnd = choose|rr: u8| mapplied == applied(mticked, opcode, keyboard@, rr);
            assert(mticked == if tick_due {
                ticked(rstate)
            } else {
                rstate
            });
            assert(self@ == stepped(old(self)@, keyboard@, keydown, tick_due, rnd));
            assert(step_snapshot(old(self)@, keyboard@, keydown, tick_due, rnd, st));
        }
        st
    }

    /// Like `step`, but checks executability instead of requiring it:
    /// returns `None` — leaving the machine unchanged except for a resolved
    /// wait-for-input — when a `RET` finds an empty call stack or a
    /// key-skip opcode queries a key code missing from `keyboard`.
    pub fn try_step(&mut self, keyboard: &HashMap<u8, bool>, keydown: Option<u8>) -> (r: Option<
        State,
    >)
        requires
            old(self)@.wf(),
        ensures
            final(self)@.wf(),
            r is Some <==> can_step(old(self)@, keyboard@, keydown),
            r is None ==> final(self)@ == resumed(old(self)@, keydown),
            match r {
                Some(s) => exists|tick: bool, rnd: u8|
                    {
                        &&& #[trigger] stepped(old(self)@, keyboard@, keydown, tick, rnd)
                            == final(self)@
                        &&& step_snapshot(old(self)@, keyboard@, keydown, tick, rnd, s)
                    },
                None => true,
            },
    {
        self.resume_input(keydown);
        let ghost cur = self@;
        let ok = if self.waiting_for_input_vx.is_some() {
            true
        } else {
            let opcode = self.read_opcode();
            match opcode {
                OpCode::RET => self.stack.len() > 0,
                OpCode::SKP { vx } => keyboard.contains_key(&self.v[vx as usize]),
                OpCode::SKNP { vx } => keyboard.contains_key(&self.v[vx as usize]),
                _ => true,
            }
        };
        proof {
            assert(resumed(cur, None) == cur);
            assert(ok == can_step(old(self)@, keyboard@, keydown));
        }
        if ok {
            let s = self.step(keyboard, None);
            proof {
                let (tick, rnd) = choose|tick: bool, rnd: u8|
                    {
                        &&& #[trigger] stepped(cur, keyboard@, None, tick, rnd) == self@
                        &&& step_snapshot(cur, keyboard@, None, tick, rnd, s)
                    };
                assert(stepped(old(self)@, keyboard@, keydown, tick, rnd) == stepped(
                    cur,
                    keyboard@,
                    None,
                    tick,
                    rnd,
                ));
                assert(step_snapshot(old(self)@, keyboard@, keydown, tick, rnd, s));
            }
            Some(s)
        } else {
            None
        }
    }

    /// A copy of the framebuffer, for the per-step snapshot.
    fn display_copy(&self) -> (r: Vec<u8>)
        ensures
            r@ == self@.display,
    {
        let mut r: Vec<u8> = Vec::new();
        let mut p: usize = 0;
        while p < self.display.len()
            invariant
                p <= self@.display.len(),
                r@ =~= self@.display.take(p as int),
            decreases self@.display.len() - p,
        {
            r.push(self.display[p]);
            proof {
                assert(r@ =~= self@.display.take(p as int + 1));
            }
            p = p + 1;
        }
        proof {
            assert(self@.display.take(self@.display.len() as int) =~= self@.display);
        }
        r
    }
}

} // verus!
