//! The mathematical model of the machine: a ghost image of the whole engine
//! state, and one spec function per opcode giving its exact semantics.
//!
//! `step` is the one-instruction transition: fetch the big-endian word at the
//! program counter, advance the counter by two, and dispatch on the decoded
//! nibbles. `tick_timers` is the timer subsystem, and `await_step` the
//! blocking-keypress completion. The executable engine in `cpu` is proved to
//! realise exactly these functions.

use vstd::prelude::*;

use crate::keypad::first_release_from;

verus! {

/// The execution-state tag. `Running` is initial; `AwaitingKey` is entered by
/// the blocking-keypress opcode and left on the first key-release edge;
/// `Halted` is terminal and entered only on a fatal fault.
#[derive(Clone, Copy, Debug, PartialEq, Eq, Structural)]
pub enum CpuState {
    Running,
    AwaitingKey,
    Halted,
}

/// The fatal faults. Each halts execution for good but never the host
/// process; timers keep ticking afterwards.
#[derive(Clone, Copy, Debug, PartialEq, Eq, Structural)]
pub enum Fault {
    /// The fetched word matches no defined opcode at any dispatch level.
    /// Carries the offending word.
    UnknownInstruction(u16),
    /// A return-from-subroutine opcode ran with an empty call stack.
    StackUnderflow,
    /// A subroutine call would push beyond the configured maximum depth.
    StackOverflow,
    /// A key-test opcode read a register value outside 0..=15.
    /// Carries the offending value.
    InvalidKeyIndex(u8),
    /// An opcode would touch memory at or beyond its end, or move the index
    /// register past the 16-bit address range.
    MemoryOutOfBounds,
}

/// The ghost image of the entire machine state.
#[verifier::ext_equal]
pub ghost struct CpuView {
    pub pc: u16,
    pub i_register: u16,
    pub registers: Seq<u8>,
    pub delay_timer: u8,
    pub sound_timer: u8,
    pub memory: Seq<u8>,
    pub frame_buffer: Seq<bool>,
    pub stack: Seq<u16>,
    pub max_stack_size: usize,
    pub prev_keys: Seq<bool>,
    pub interrupt_register: u16,
    pub cpu_state: CpuState,
    pub fault: Option<Fault>,
    pub redraw: bool,
    pub time_acc: u64,
}

/// Well-formedness of a machine state: the shapes every operation preserves.
pub open spec fn wf_view(s: CpuView) -> bool {
    &&& s.registers.len() == 16
    &&& s.prev_keys.len() == 16
    &&& s.memory.len() >= 100
    &&& s.frame_buffer.len() >= 2048
    &&& s.stack.len() <= s.max_stack_size
    &&& s.interrupt_register < 16
    &&& s.time_acc < 17
}

/// Reduce a 17-bit-at-most value back into the 16-bit range, as the program
/// counter and index register arithmetic does.
pub open spec fn wrap16(x: int) -> u16
    recommends 0 <= x < 0x20000,
{
    if x > 0xFFFF {
        (x - 0x10000) as u16
    } else {
        x as u16
    }
}

/// Reduce a sum of two bytes back into the 8-bit range.
pub open spec fn wrap8(x: int) -> u8
    recommends 0 <= x < 0x200,
{
    if x > 0xFF {
        (x - 0x100) as u8
    } else {
        x as u8
    }
}

/// Enter the terminal fault state: record the fault, stop executing.
pub open spec fn halted(s: CpuView, f: Fault) -> CpuView {
    CpuView { cpu_state: CpuState::Halted, fault: Some(f), ..s }
}

/// One whole-millisecond decrement of a timer, stopping at zero.
pub open spec fn dec_timer(t: u8) -> u8 {
    if t > 0 { (t - 1) as u8 } else { 0 }
}

/// Drain the accumulated elapsed time: for every full tick period (17 ms,
/// the whole-millisecond rounding of 60 Hz) decrement each non-zero timer
/// once, so no ticks are lost under a slow host loop and no timer underflows.
pub open spec fn tick_timers(s: CpuView) -> CpuView
    decreases s.time_acc,
{
    if s.time_acc >= 17 {
        tick_timers(CpuView {
            delay_timer: dec_timer(s.delay_timer),
            sound_timer: dec_timer(s.sound_timer),
            time_acc: (s.time_acc - 17) as u64,
            ..s
        })
    } else {
        s
    }
}

/// Draining the timer accumulator touches only the two timers and the
/// accumulator itself; every other part of the machine is untouched.
pub proof fn lemma_tick_timers_frame(s: CpuView)
    ensures
        ({
            let t = tick_timers(s);
            &&& t.pc == s.pc
            &&& t.i_register == s.i_register
            &&& t.registers == s.registers
            &&& t.memory == s.memory
            &&& t.frame_buffer == s.frame_buffer
            &&& t.stack == s.stack
            &&& t.max_stack_size == s.max_stack_size
            &&& t.prev_keys == s.prev_keys
            &&& t.interrupt_register == s.interrupt_register
            &&& t.cpu_state == s.cpu_state
            &&& t.fault == s.fault
            &&& t.redraw == s.redraw
            &&& t.time_acc < 17
        }),
    decreases s.time_acc,
{
    if s.time_acc >= 17 {
        lemma_tick_timers_frame(
            CpuView {
                delay_timer: dec_timer(s.delay_timer),
                sound_timer: dec_timer(s.sound_timer),
                time_acc: (s.time_acc - 17) as u64,
                ..s
            },
        );
    }
}

/// Add the caller-supplied elapsed time to the accumulator, then drain it.
pub open spec fn with_elapsed(s: CpuView, delta_ms: u64) -> CpuView
    recommends s.time_acc + delta_ms <= u64::MAX,
{
    tick_timers(CpuView { time_acc: (s.time_acc + delta_ms) as u64, ..s })
}

/// Write one register.
pub open spec fn set_reg(s: CpuView, r: int, v: u8) -> CpuView
    recommends 0 <= r < 16,
{
    CpuView { registers: s.registers.update(r, v), ..s }
}

/// Advance past the following instruction (the skip opcodes).
pub open spec fn bump_pc(s: CpuView) -> CpuView {
    CpuView { pc: wrap16(s.pc + 2), ..s }
}

/// 0x00E0: every display cell goes dark.
pub open spec fn op_clear_screen(s: CpuView) -> CpuView {
    CpuView { frame_buffer: Seq::new(s.frame_buffer.len(), |i: int| false), ..s }
}

/// 0x00EE: pop the return address; an empty stack is a fatal fault.
pub open spec fn op_return(s: CpuView) -> CpuView {
    if s.stack.len() == 0 {
        halted(s, Fault::StackUnderflow)
    } else {
        CpuView { pc: s.stack.last(), stack: s.stack.drop_last(), ..s }
    }
}

/// 0x1NNN: jump.
pub open spec fn op_jump(s: CpuView, nnn: u16) -> CpuView {
    CpuView { pc: nnn, ..s }
}

/// 0x2NNN: call a subroutine; exceeding the stack bound is a fatal fault.
pub open spec fn op_call(s: CpuView, nnn: u16) -> CpuView {
    if s.stack.len() >= s.max_stack_size {
        halted(s, Fault::StackOverflow)
    } else {
        CpuView { stack: s.stack.push(s.pc), pc: nnn, ..s }
    }
}

/// 0x3XNN: skip if VX equals the immediate.
pub open spec fn op_skip_if_equal(s: CpuView, x: int, nn: u8) -> CpuView
    recommends 0 <= x < 16,
{
    if s.registers[x] == nn { bump_pc(s) } else { s }
}

/// 0x4XNN: skip if VX differs from the immediate.
pub open spec fn op_skip_if_not_equal(s: CpuView, x: int, nn: u8) -> CpuView
    recommends 0 <= x < 16,
{
    if s.registers[x] != nn { bump_pc(s) } else { s }
}

/// 0x5XY0: skip if VX equals VY.
pub open spec fn op_skip_if_x_equals_y(s: CpuView, x: int, y: int) -> CpuView
    recommends 0 <= x < 16, 0 <= y < 16,
{
    if s.registers[x] == s.registers[y] { bump_pc(s) } else { s }
}

/// 0x9XY0: skip if VX differs from VY.
pub open spec fn op_skip_if_x_not_equals_y(s: CpuView, x: int, y: int) -> CpuView
    recommends 0 <= x < 16, 0 <= y < 16,
{
    if s.registers[x] != s.registers[y] { bump_pc(s) } else { s }
}

/// 0x6XNN: store the immediate in VX.
pub open spec fn op_set_register(s: CpuView, x: int, nn: u8) -> CpuView
    recommends 0 <= x < 16,
{
    set_reg(s, x, nn)
}

/// 0x7XNN: add the immediate to VX, wrapping modulo 256, flag untouched.
pub open spec fn op_add_to_register(s: CpuView, x: int, nn: u8) -> CpuView
    recommends 0 <= x < 16,
{
    set_reg(s, x, wrap8(s.registers[x] + nn))
}

/// 0x8XY0: copy VY into VX.
pub open spec fn op_copy(s: CpuView, x: int, y: int) -> CpuView
    recommends 0 <= x < 16, 0 <= y < 16,
{
    set_reg(s, x, s.registers[y])
}

/// 0x8XY1: VX = VX | VY; the flag register is reset to zero first, so a
/// destination of 0xF keeps the bitwise result (a documented quirk).
pub open spec fn op_or(s: CpuView, x: int, y: int) -> CpuView
    recommends 0 <= x < 16, 0 <= y < 16,
{
    set_reg(set_reg(s, 15, 0), x, s.registers[x] | s.registers[y])
}

/// 0x8XY2: VX = VX & VY, flag reset to zero first.
pub open spec fn op_and(s: CpuView, x: int, y: int) -> CpuView
    recommends 0 <= x < 16, 0 <= y < 16,
{
    set_reg(set_reg(s, 15, 0), x, s.registers[x] & s.registers[y])
}

/// 0x8XY3: VX = VX ^ VY, flag reset to zero first.
pub open spec fn op_xor(s: CpuView, x: int, y: int) -> CpuView
    recommends 0 <= x < 16, 0 <= y < 16,
{
    set_reg(set_reg(s, 15, 0), x, s.registers[x] ^ s.registers[y])
}

/// 0x8XY4: VX = VX + VY modulo 256; the flag register is then overwritten
/// with 1 exactly when the unsigned sum exceeded 255.
pub open spec fn op_add_carry(s: CpuView, x: int, y: int) -> CpuView
    recommends 0 <= x < 16, 0 <= y < 16,
{
    let sum = s.registers[x] + s.registers[y];
    set_reg(set_reg(s, x, wrap8(sum)), 15, if sum > 255 { 1u8 } else { 0u8 })
}

/// 0x8XY5: VX = VX - VY modulo 256; the flag register is then overwritten
/// with the logical NOT of the borrow: 1 exactly when VX >= VY.
pub open spec fn op_sub_borrow(s: CpuView, x: int, y: int) -> CpuView
    recommends 0 <= x < 16, 0 <= y < 16,
{
    let xv = s.registers[x];
    let yv = s.registers[y];
    let diff = if xv >= yv { (xv - yv) as u8 } else { (xv - yv + 256) as u8 };
    set_reg(set_reg(s, x, diff), 15, if xv >= yv { 1u8 } else { 0u8 })
}

/// 0x8XY7: VX = VY - VX modulo 256; flag = NOT borrow: 1 exactly when
/// VY >= VX.
pub open spec fn op_sub_reverse(s: CpuView, x: int, y: int) -> CpuView
    recommends 0 <= x < 16, 0 <= y < 16,
{
    let xv = s.registers[x];
    let yv = s.registers[y];
    let diff = if yv >= xv { (yv - xv) as u8 } else { (yv - xv + 256) as u8 };
    set_reg(set_reg(s, x, diff), 15, if yv >= xv { 1u8 } else { 0u8 })
}

/// 0x8XY6: VX = VY >> 1; the flag register is then overwritten with the bit
/// shifted out, the original bit 0 of VY.
pub open spec fn op_shift_right(s: CpuView, x: int, y: int) -> CpuView
    recommends 0 <= x < 16, 0 <= y < 16,
{
    let yv = s.registers[y];
    set_reg(set_reg(s, x, yv / 2), 15, yv % 2)
}

/// 0x8XYE: VX = VY << 1 truncated to 8 bits; the flag register is then
/// overwritten with the bit shifted out, the original bit 7 of VY as 0 or 1.
pub open spec fn op_shift_left(s: CpuView, x: int, y: int) -> CpuView
    recommends 0 <= x < 16, 0 <= y < 16,
{
    let yv = s.registers[y];
    set_reg(set_reg(s, x, wrap8(yv * 2)), 15, yv / 128)
}

/// 0xANNN: store the address in the index register.
pub open spec fn op_set_index(s: CpuView, nnn: u16) -> CpuView {
    CpuView { i_register: nnn, ..s }
}

/// 0xBNNN: jump to the immediate plus the value of register 0.
pub open spec fn op_jump_with_offset(s: CpuView, nnn: u16) -> CpuView
    recommends s.registers.len() == 16,
{
    CpuView { pc: wrap16(nnn + s.registers[0]), ..s }
}

/// 0xCXNN: store a random byte masked by the immediate in VX. `rnd` is the
/// byte the generator produced; nothing is assumed of its value.
pub open spec fn op_random(s: CpuView, x: int, nn: u8, rnd: u8) -> CpuView
    recommends 0 <= x < 16,
{
    set_reg(s, x, rnd & nn)
}

/// Bit `c` (most significant first) of a sprite row byte.
pub open spec fn row_bit(row: u8, c: int) -> bool
    recommends 0 <= c < 8,
{
    (row >> ((7 - c) as u8)) & 1 == 1
}

/// Whether display cell `idx` lies in the drawn region of a sprite anchored
/// at (`x0`, `y0`) with `n` rows: inside its at most 8 columns and `n` rows,
/// clipped (not wrapped) at the right and bottom edges.
pub open spec fn draw_region(x0: int, y0: int, n: int, idx: int) -> bool {
    let cy = idx / 64;
    let cx = idx % 64;
    &&& 0 <= idx < 2048
    &&& y0 <= cy < y0 + n
    &&& x0 <= cx < x0 + 8
}

/// The sprite bit that lands on display cell `idx`.
pub open spec fn draw_bit(mem: Seq<u8>, i: int, x0: int, y0: int, idx: int) -> bool {
    let cy = idx / 64;
    let cx = idx % 64;
    row_bit(mem[i + (cy - y0)], cx - x0)
}

/// Whether the draw hits at least one already-lit cell (a collision).
pub open spec fn draw_collision(s: CpuView, x0: int, y0: int, n: int) -> bool {
    exists|idx: int|
        draw_region(x0, y0, n, idx) && draw_bit(s.memory, s.i_register as int, x0, y0, idx)
            && s.frame_buffer[idx]
}

/// The display buffer after the draw: set sprite bits are XOR-composited
/// onto the cells of the drawn region; everything else is untouched.
pub open spec fn draw_frame_buffer(s: CpuView, x0: int, y0: int, n: int) -> Seq<bool> {
    Seq::new(
        s.frame_buffer.len(),
        |idx: int|
            if draw_region(x0, y0, n, idx) && draw_bit(
                s.memory,
                s.i_register as int,
                x0,
                y0,
                idx,
            ) {
                !s.frame_buffer[idx]
            } else {
                s.frame_buffer[idx]
            },
    )
}

/// 0xDXYN: draw an `n`-row sprite read from memory at the index register,
/// anchored at (VX mod 64, VY mod 32). The flag register is reset to 0 and
/// set to 1 on collision; the dirty flag is always raised. Sprite rows that
/// would be read past the end of memory are a fatal fault.
pub open spec fn op_draw(s: CpuView, x: int, y: int, n: int) -> CpuView
    recommends 0 <= x < 16, 0 <= y < 16, 0 <= n < 16,
{
    if s.i_register + n > s.memory.len() {
        halted(s, Fault::MemoryOutOfBounds)
    } else {
        let x0 = s.registers[x] % 64;
        let y0 = s.registers[y] % 32;
        CpuView {
            frame_buffer: draw_frame_buffer(s, x0 as int, y0 as int, n),
            registers: s.registers.update(
                15,
                if draw_collision(s, x0 as int, y0 as int, n) { 1u8 } else { 0u8 },
            ),
            redraw: true,
            ..s
        }
    }
}

/// 0xEX9E: skip if the key indexed by VX is pressed in the current snapshot;
/// a value outside 0..=15 is a fatal fault.
pub open spec fn op_skip_if_pressed(s: CpuView, x: int, keys: Seq<bool>) -> CpuView
    recommends 0 <= x < 16, keys.len() == 16,
{
    let v = s.registers[x];
    if v > 15 {
        halted(s, Fault::InvalidKeyIndex(v))
    } else if keys[v as int] {
        bump_pc(s)
    } else {
        s
    }
}

/// 0xEXA1: skip if the key indexed by VX is not pressed; same fault rule.
pub open spec fn op_skip_if_not_pressed(s: CpuView, x: int, keys: Seq<bool>) -> CpuView
    recommends 0 <= x < 16, keys.len() == 16,
{
    let v = s.registers[x];
    if v > 15 {
        halted(s, Fault::InvalidKeyIndex(v))
    } else if !keys[v as int] {
        bump_pc(s)
    } else {
        s
    }
}

/// 0xFX07: store the delay timer in VX.
pub open spec fn op_store_delay(s: CpuView, x: int) -> CpuView
    recommends 0 <= x < 16,
{
    set_reg(s, x, s.delay_timer)
}

/// 0xFX0A: record VX as the pending destination and await a key-release
/// edge; the register write happens only at completion.
pub open spec fn op_wait_key(s: CpuView, x: int) -> CpuView
    recommends 0 <= x < 16,
{
    CpuView { interrupt_register: x as u16, cpu_state: CpuState::AwaitingKey, ..s }
}

/// 0xFX15: set the delay timer from VX.
pub open spec fn op_set_delay(s: CpuView, x: int) -> CpuView
    recommends 0 <= x < 16,
{
    CpuView { delay_timer: s.registers[x], ..s }
}

/// 0xFX18: set the sound timer from VX.
pub open spec fn op_set_sound(s: CpuView, x: int) -> CpuView
    recommends 0 <= x < 16,
{
    CpuView { sound_timer: s.registers[x], ..s }
}

/// 0xFX1E: add VX to the index register, wrapping in 16 bits.
pub open spec fn op_add_to_index(s: CpuView, x: int) -> CpuView
    recommends 0 <= x < 16,
{
    CpuView { i_register: wrap16(s.i_register + s.registers[x]), ..s }
}

/// 0xFX33: store the three decimal digits of VX (hundreds, tens, ones) at
/// the index register and the two cells after it.
pub open spec fn op_store_bcd(s: CpuView, x: int) -> CpuView
    recommends 0 <= x < 16,
{
    if s.i_register + 3 > s.memory.len() {
        halted(s, Fault::MemoryOutOfBounds)
    } else {
        let v = s.registers[x];
        let i = s.i_register as int;
        CpuView {
            memory: s.memory.update(i, (v / 100) as u8).update(i + 1, ((v / 10) % 10) as u8).update(
                i + 2,
                (v % 10) as u8,
            ),
            ..s
        }
    }
}

/// 0xFX55: copy registers 0..=x to memory starting at the index register,
/// which ends at its original value plus x + 1.
pub open spec fn op_store_registers(s: CpuView, x: int) -> CpuView
    recommends 0 <= x < 16, s.registers.len() == 16,
{
    let i = s.i_register as int;
    if i + x + 1 > s.memory.len() || i + x + 1 > 0xFFFF {
        halted(s, Fault::MemoryOutOfBounds)
    } else {
        CpuView {
            memory: Seq::new(
                s.memory.len(),
                |a: int| if i <= a < i + x + 1 { s.registers[a - i] } else { s.memory[a] },
            ),
            i_register: (i + x + 1) as u16,
            ..s
        }
    }
}

/// 0xFX65: fill registers 0..=x from memory starting at the index register,
/// which ends at its original value plus x + 1.
pub open spec fn op_load_registers(s: CpuView, x: int) -> CpuView
    recommends 0 <= x < 16, s.registers.len() == 16,
{
    let i = s.i_register as int;
    if i + x + 1 > s.memory.len() || i + x + 1 > 0xFFFF {
        halted(s, Fault::MemoryOutOfBounds)
    } else {
        CpuView {
            registers: Seq::new(
                16,
                |r: int| if 0 <= r <= x { s.memory[i + r] } else { s.registers[r] },
            ),
            i_register: (i + x + 1) as u16,
            ..s
        }
    }
}

/// The machine as constructed: program counter at the conventional load
/// origin 0x200, the 80-byte font glyph table at memory 20..100, everything
/// else zeroed, display dark, stack empty, running, dirty flag raised.
pub open spec fn initial_view(
    font: Seq<u8>,
    memory_size: usize,
    frame_buffer_size: usize,
    max_stack_size: usize,
) -> CpuView
    recommends font.len() == 80, memory_size >= 100,
{
    CpuView {
        pc: 0x200,
        i_register: 0,
        registers: Seq::new(16, |r: int| 0u8),
        delay_timer: 0,
        sound_timer: 0,
        memory: Seq::new(
            memory_size as nat,
            |a: int| if 20 <= a < 100 { font[a - 20] } else { 0u8 },
        ),
        frame_buffer: Seq::new(frame_buffer_size as nat, |i: int| false),
        stack: Seq::empty(),
        max_stack_size: max_stack_size,
        prev_keys: Seq::new(16, |i: int| false),
        interrupt_register: 0,
        cpu_state: CpuState::Running,
        fault: None,
        redraw: true,
        time_acc: 0,
    }
}

/// The machine after a program image is written verbatim at the
/// conventional load origin 0x200.
pub open spec fn program_loaded(s: CpuView, data: Seq<u8>) -> CpuView
    recommends 512 + data.len() <= s.memory.len(),
{
    CpuView {
        memory: Seq::new(
            s.memory.len(),
            |a: int| if 512 <= a < 512 + data.len() { data[a - 512] } else { s.memory[a] },
        ),
        ..s
    }
}

/// Dispatch a decoded instruction word. `keys` is the key snapshot handed to
/// the current cycle; `rnd` is the byte the random generator produced, used
/// only by the masked-random opcode. Any word matching no defined opcode at
/// either dispatch level is a fatal fault carrying the word.
pub open spec fn exec_word(s: CpuView, w: u16, keys: Seq<bool>, rnd: u8) -> CpuView
    recommends wf_view(s), keys.len() == 16,
{
    let na = w as int / 0x1000;
    let nb = (w as int / 0x100) % 16;
    let nc = (w as int / 16) % 16;
    let nd = w as int % 16;
    let nnn = (w as int % 0x1000) as u16;
    let nn = (w as int % 0x100) as u8;
    if na == 0x0 {
        if w == 0x00E0 {
            op_clear_screen(s)
        } else if w == 0x00EE {
            op_return(s)
        } else {
            halted(s, Fault::UnknownInstruction(w))
        }
    } else if na == 0x1 {
        op_jump(s, nnn)
    } else if na == 0x2 {
        op_call(s, nnn)
    } else if na == 0x3 {
        op_skip_if_equal(s, nb, nn)
    } else if na == 0x4 {
        op_skip_if_not_equal(s, nb, nn)
    } else if na == 0x5 {
        if nd == 0x0 {
            op_skip_if_x_equals_y(s, nb, nc)
        } else {
            halted(s, Fault::UnknownInstruction(w))
        }
    } else if na == 0x6 {
        op_set_register(s, nb, nn)
    } else if na == 0x7 {
        op_add_to_register(s, nb, nn)
    } else if na == 0x8 {
        if nd == 0x0 {
            op_copy(s, nb, nc)
        } else if nd == 0x1 {
            op_or(s, nb, nc)
        } else if nd == 0x2 {
            op_and(s, nb, nc)
        } else if nd == 0x3 {
            op_xor(s, nb, nc)
        } else if nd == 0x4 {
            op_add_carry(s, nb, nc)
        } else if nd == 0x5 {
            op_sub_borrow(s, nb, nc)
        } else if nd == 0x6 {
            op_shift_right(s, nb, nc)
        } else if nd == 0x7 {
            op_sub_reverse(s, nb, nc)
        } else if nd == 0xE {
            op_shift_left(s, nb, nc)
        } else {
            halted(s, Fault::UnknownInstruction(w))
        }
    } else if na == 0x9 {
        if nd == 0x0 {
            op_skip_if_x_not_equals_y(s, nb, nc)
        } else {
            halted(s, Fault::UnknownInstruction(w))
        }
    } else if na == 0xA {
        op_set_index(s, nnn)
    } else if na == 0xB {
        op_jump_with_offset(s, nnn)
    } else if na == 0xC {
        op_random(s, nb, nn, rnd)
    } else if na == 0xD {
        op_draw(s, nb, nc, nd)
    } else if na == 0xE {
        if nn == 0x9E {
            op_skip_if_pressed(s, nb, keys)
        } else if nn == 0xA1 {
            op_skip_if_not_pressed(s, nb, keys)
        } else {
            halted(s, Fault::UnknownInstruction(w))
        }
    } else {
        if nn == 0x07 {
            op_store_delay(s, nb)
        } else if nn == 0x0A {
            op_wait_key(s, nb)
        } else if nn == 0x15 {
            op_set_delay(s, nb)
        } else if nn == 0x18 {
            op_set_sound(s, nb)
        } else if nn == 0x1E {
            op_add_to_index(s, nb)
        } else if nn == 0x33 {
            op_store_bcd(s, nb)
        } else if nn == 0x55 {
            op_store_registers(s, nb)
        } else if nn == 0x65 {
            op_load_registers(s, nb)
        } else {
            halted(s, Fault::UnknownInstruction(w))
        }
    }
}

/// The words that match no defined opcode at any dispatch level: the
/// complement of the dispatch in `exec_word`.
pub open spec fn unknown_word(w: u16) -> bool {
    let na = w as int / 0x1000;
    let nd = w as int % 16;
    let nn = w as int % 0x100;
    if na == 0x0 {
        w != 0x00E0 && w != 0x00EE
    } else if na == 0x5 {
        nd != 0x0
    } else if na == 0x8 {
        !(nd == 0x0 || nd == 0x1 || nd == 0x2 || nd == 0x3 || nd == 0x4 || nd == 0x5 || nd == 0x6
            || nd == 0x7 || nd == 0xE)
    } else if na == 0x9 {
        nd != 0x0
    } else if na == 0xE {
        nn != 0x9E && nn != 0xA1
    } else if na == 0xF {
        !(nn == 0x07 || nn == 0x0A || nn == 0x15 || nn == 0x18 || nn == 0x1E || nn == 0x33 || nn
            == 0x55 || nn == 0x65)
    } else {
        false
    }
}

/// One instruction step: fetch the big-endian word at the program counter
/// (a read past the end of memory is a fatal fault), advance the counter by
/// two before dispatch so jumps overwrite the default advance, and execute.
pub open spec fn step(s: CpuView, keys: Seq<bool>, rnd: u8) -> CpuView
    recommends wf_view(s), keys.len() == 16,
{
    if s.pc + 1 >= s.memory.len() {
        halted(s, Fault::MemoryOutOfBounds)
    } else {
        let w = (s.memory[s.pc as int] * 256 + s.memory[s.pc as int + 1]) as u16;
        exec_word(CpuView { pc: wrap16(s.pc + 2), ..s }, w, keys, rnd)
    }
}

/// Service a pending blocking keypress: on the first release edge between
/// the stored snapshot and the current one, write the released key's index
/// to the pending destination register and resume running; otherwise nothing
/// changes.
pub open spec fn await_step(s: CpuView, keys: Seq<bool>) -> CpuView
    recommends wf_view(s), keys.len() == 16,
{
    match first_release_from(s.prev_keys, keys, 0) {
        Some(k) => CpuView {
            registers: s.registers.update(s.interrupt_register as int, k as u8),
            cpu_state: CpuState::Running,
            ..s
        },
        None => s,
    }
}

/// The stored key snapshot is replaced by the current one at the end of
/// every cycle.
pub open spec fn with_prev_keys(s: CpuView, keys: Seq<bool>) -> CpuView {
    CpuView { prev_keys: keys, ..s }
}

/// The whole per-cycle contract: timers first, unconditionally; then, by
/// execution state, one instruction, one completion check, or nothing; and
/// the key snapshot is stored last. `rnd` is the byte the random generator
/// produced if the cycle drew one.
pub open spec fn cycle(s: CpuView, delta_ms: u64, keys: Seq<bool>, rnd: u8) -> CpuView
    recommends wf_view(s), keys.len() == 16, s.time_acc + delta_ms <= u64::MAX,
{
    let t = with_elapsed(s, delta_ms);
    match s.cpu_state {
        CpuState::Running => with_prev_keys(step(t, keys, rnd), keys),
        CpuState::AwaitingKey => with_prev_keys(await_step(t, keys), keys),
        CpuState::Halted => with_prev_keys(t, keys),
    }
}

} // verus!
