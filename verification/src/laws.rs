//! General properties of the opcode semantics, each proved once and for all
//! over the machine model.

use vstd::prelude::*;

use crate::keypad::lemma_first_release_in_range;
use crate::keypad::lemma_first_release_none;
use crate::model::await_step;
use crate::model::exec_word;
use crate::model::halted;
use crate::model::tick_timers;
use crate::model::unknown_word;
use crate::model::with_elapsed;
use crate::model::CpuState;
use crate::model::CpuView;
use crate::model::Fault;
use crate::model::draw_bit;
use crate::model::draw_region;
use crate::model::op_add_carry;
use crate::model::op_draw;
use crate::model::op_load_registers;
use crate::model::op_set_index;
use crate::model::op_shift_right;
use crate::model::op_store_bcd;
use crate::model::op_store_registers;
use crate::model::op_sub_borrow;
use crate::model::wf_view;
use crate::model::wrap8;

verus! {

/// Add-with-carry: whatever the destination register, the flag register
/// ends at 1 exactly when the unsigned sum exceeds 255, and a destination
/// other than the flag register itself receives the sum wrapped modulo 256.
pub proof fn lemma_add_carry_flag(s: CpuView, x: int, y: int)
    requires
        wf_view(s),
        0 <= x < 16,
        0 <= y < 16,
    ensures
        op_add_carry(s, x, y).registers[15] == 1u8 <==> s.registers[x] + s.registers[y] > 255,
        x != 15 ==> op_add_carry(s, x, y).registers[x] == wrap8(
            s.registers[x] + s.registers[y],
        ),
        forall|r: int| 0 <= r < 16 && r != x && r != 15 ==> op_add_carry(s, x, y).registers[r] == s.registers[r],
{
}

/// Subtract-with-borrow polarity: the flag register ends at the logical NOT
/// of the borrow, 1 exactly when VX >= VY; a destination other than the
/// flag register receives the difference wrapped modulo 256.
pub proof fn lemma_sub_borrow_flag(s: CpuView, x: int, y: int)
    requires
        wf_view(s),
        0 <= x < 16,
        0 <= y < 16,
    ensures
        op_sub_borrow(s, x, y).registers[15] == 1u8 <==> s.registers[x] >= s.registers[y],
        x != 15 ==> op_sub_borrow(s, x, y).registers[x] == (if s.registers[x] >= s.registers[y] {
            (s.registers[x] - s.registers[y]) as u8
        } else {
            (s.registers[x] - s.registers[y] + 256) as u8
        }),
{
}

/// Shift-right: the flag register ends at the original bit 0 of the source
/// register, and a destination other than the flag register receives the
/// source halved.
pub proof fn lemma_shift_right_flag(s: CpuView, x: int, y: int)
    requires
        wf_view(s),
        0 <= x < 16,
        0 <= y < 16,
    ensures
        op_shift_right(s, x, y).registers[15] == s.registers[y] % 2,
        x != 15 ==> op_shift_right(s, x, y).registers[x] == s.registers[y] / 2,
{
}

/// Sprite draw is self-inverse: drawing the identical sprite at the
/// identical coordinates twice returns the display buffer to its pre-draw
/// state, and the second draw reports a collision exactly when the first
/// draw lit at least one pixel. The coordinate registers must not be the
/// flag register, which the first draw overwrites.
pub proof fn lemma_draw_self_inverse(s: CpuView, x: int, y: int, n: int)
    requires
        wf_view(s),
        0 <= x < 16,
        0 <= y < 16,
        0 <= n < 16,
        x != 15,
        y != 15,
        s.i_register + n <= s.memory.len(),
    ensures
        ({
            let s1 = op_draw(s, x, y, n);
            let s2 = op_draw(s1, x, y, n);
            let x0 = s.registers[x] % 64;
            let y0 = s.registers[y] % 32;
            &&& s2.frame_buffer == s.frame_buffer
            &&& (s2.registers[15] == 1u8 <==> exists|idx: int|
                draw_region(x0 as int, y0 as int, n, idx) && draw_bit(
                    s.memory,
                    s.i_register as int,
                    x0 as int,
                    y0 as int,
                    idx,
                ) && !s.frame_buffer[idx])
            &&& forall|r: int| 0 <= r < 16 && r != 15 ==> s2.registers[r] == s.registers[r]
        }),
{
    let s1 = op_draw(s, x, y, n);
    let s2 = op_draw(s1, x, y, n);
    let x0 = (s.registers[x] % 64) as int;
    let y0 = (s.registers[y] % 32) as int;
    let i = s.i_register as int;
    assert(s1.registers[x] == s.registers[x]);
    assert(s1.registers[y] == s.registers[y]);
    assert(s2.frame_buffer =~= s.frame_buffer);
    if s2.registers[15] == 1u8 {
        let w = choose|idx: int|
            draw_region(x0, y0, n, idx) && draw_bit(s1.memory, s1.i_register as int, x0, y0, idx)
                && s1.frame_buffer[idx];
        assert(s1.frame_buffer[w] == !s.frame_buffer[w]);
        assert(draw_region(x0, y0, n, w) && draw_bit(s.memory, i, x0, y0, w)
            && !s.frame_buffer[w]);
    }
    if exists|idx: int|
        draw_region(x0, y0, n, idx) && draw_bit(s.memory, i, x0, y0, idx) && !s.frame_buffer[idx] {
        let w = choose|idx: int|
            draw_region(x0, y0, n, idx) && draw_bit(s.memory, i, x0, y0, idx)
                && !s.frame_buffer[idx];
        assert(s1.frame_buffer[w]);
        assert(draw_region(x0, y0, n, w) && draw_bit(s1.memory, s1.i_register as int, x0, y0, w)
            && s1.frame_buffer[w]);
        assert(crate::model::draw_collision(s1, x0, y0, n));
    }
}

/// Sprite draw clipping: a draw changes no display cell left of its anchor
/// column, above its anchor row, or below its last row. Together with the
/// at-most-8-column extent of `draw_region` this says overflowing columns
/// and rows are dropped, never wrapped to the opposite edge.
pub proof fn lemma_draw_clipping(s: CpuView, x: int, y: int, n: int)
    requires
        wf_view(s),
        0 <= x < 16,
        0 <= y < 16,
        0 <= n < 16,
        s.i_register + n <= s.memory.len(),
    ensures
        ({
            let s1 = op_draw(s, x, y, n);
            let x0 = s.registers[x] % 64;
            let y0 = s.registers[y] % 32;
            forall|idx: int|
                0 <= idx < s.frame_buffer.len() && (idx % 64 < x0 || idx / 64 < y0 || idx / 64
                    >= y0 + n) ==> s1.frame_buffer[idx] == s.frame_buffer[idx]
        }),
{
}

/// Decimal store correctness: the three bytes written by the BCD opcode
/// are decimal digits whose weighted sum reconstructs the register value.
pub proof fn lemma_bcd_digits(s: CpuView, x: int)
    requires
        wf_view(s),
        0 <= x < 16,
        s.i_register + 3 <= s.memory.len(),
    ensures
        ({
            let s1 = op_store_bcd(s, x);
            let i = s.i_register as int;
            let v = s.registers[x];
            &&& s1.memory[i] <= 2
            &&& s1.memory[i + 1] < 10
            &&& s1.memory[i + 2] < 10
            &&& s1.memory[i] * 100 + s1.memory[i + 1] * 10 + s1.memory[i + 2] == v
        }),
{
    let v = s.registers[x] as int;
    vstd::arithmetic::div_mod::lemma_fundamental_div_mod(v, 10);
    vstd::arithmetic::div_mod::lemma_mod_bound(v, 10);
    vstd::arithmetic::div_mod::lemma_fundamental_div_mod(v / 10, 10);
    vstd::arithmetic::div_mod::lemma_mod_bound(v / 10, 10);
    vstd::arithmetic::div_mod::lemma_div_denominator(v, 10, 10);
}

/// Block store then block load round-trips: after storing registers 0..=x
/// at the index register, resetting the index register to its original
/// value and loading registers 0..=x reproduces the original register
/// values, and the index register ends at its original value plus x + 1
/// after each of the two block operations.
pub proof fn lemma_store_load_round_trip(s: CpuView, x: int)
    requires
        wf_view(s),
        0 <= x < 16,
        s.i_register + x + 1 <= s.memory.len(),
        s.i_register + x + 1 <= 0xFFFF,
    ensures
        ({
            let s1 = op_store_registers(s, x);
            let s2 = op_set_index(s1, s.i_register);
            let s3 = op_load_registers(s2, x);
            &&& s1.i_register == s.i_register + x + 1
            &&& s3.i_register == s.i_register + x + 1
            &&& s3.registers == s.registers
        }),
{
    let s1 = op_store_registers(s, x);
    let s2 = op_set_index(s1, s.i_register);
    let s3 = op_load_registers(s2, x);
    assert(s3.registers =~= s.registers);
}

/// Adding elapsed time after draining the accumulator reaches the same
/// state as adding it before.
proof fn lemma_tick_then_add(u: CpuView, b: u64)
    requires
        u.time_acc + b <= u64::MAX,
    ensures
        tick_timers(
            CpuView { time_acc: (tick_timers(u).time_acc + b) as u64, ..tick_timers(u) },
        ) == tick_timers(CpuView { time_acc: (u.time_acc + b) as u64, ..u }),
    decreases u.time_acc,
{
    if u.time_acc >= 17 {
        let v = CpuView {
            delay_timer: crate::model::dec_timer(u.delay_timer),
            sound_timer: crate::model::dec_timer(u.sound_timer),
            time_acc: (u.time_acc - 17) as u64,
            ..u
        };
        lemma_tick_then_add(v, b);
        assert(CpuView { time_acc: (u.time_acc + b) as u64, ..u }.time_acc >= 17);
        assert(CpuView {
            delay_timer: crate::model::dec_timer(u.delay_timer),
            sound_timer: crate::model::dec_timer(u.sound_timer),
            time_acc: ((u.time_acc + b) as u64 - 17) as u64,
            ..u
        } =~= (CpuView { time_acc: (v.time_acc + b) as u64, ..v }));
    }
}

/// Timer decoupling: the timers depend only on the total elapsed time, not
/// on how it is split across advance calls. Splitting any elapsed span in
/// two gives the same timer state as handing it over in one call.
pub proof fn lemma_timer_decoupling(s: CpuView, a: u64, b: u64)
    requires
        s.time_acc + a + b <= u64::MAX,
    ensures
        with_elapsed(with_elapsed(s, a), b) == with_elapsed(s, (a + b) as u64),
{
    let sa = CpuView { time_acc: (s.time_acc + a) as u64, ..s };
    lemma_tick_then_add(sa, b);
    assert(CpuView { time_acc: (sa.time_acc + b) as u64, ..sa } =~= (CpuView {
        time_acc: (s.time_acc + (a + b) as u64) as u64,
        ..s
    }));
}

/// Blocking keypress: while no key goes from pressed to released between
/// the stored snapshot and the current one, a completion check changes
/// nothing at all; the first release edge writes the lowest released key's
/// index to the pending destination register and restores Running.
pub proof fn lemma_blocking_keypress(s: CpuView, keys: Seq<bool>)
    requires
        wf_view(s),
        keys.len() == 16,
    ensures
        (forall|i: int| 0 <= i < 16 ==> !(s.prev_keys[i] && !keys[i])) ==> await_step(s, keys)
            == s,
        (exists|i: int| 0 <= i < 16 && s.prev_keys[i] && !keys[i]) ==> ({
            let t = await_step(s, keys);
            &&& t.cpu_state == CpuState::Running
            &&& exists|k: int|
                0 <= k < 16 && s.prev_keys[k] && !keys[k] && (forall|j: int|
                    0 <= j < k ==> !(s.prev_keys[j] && !keys[j])) && t.registers
                    == s.registers.update(s.interrupt_register as int, k as u8)
        }),
{
    lemma_first_release_none(s.prev_keys, keys, 0);
    lemma_first_release_in_range(s.prev_keys, keys, 0);
    if exists|i: int| 0 <= i < 16 && s.prev_keys[i] && !keys[i] {
        let r = crate::keypad::first_release_from(s.prev_keys, keys, 0);
        assert(r is Some);
        let k = r.unwrap() as int;
        lemma_first_release_least(s.prev_keys, keys, 0);
        assert(s.prev_keys[k] && !keys[k] && (forall|j: int|
            0 <= j < k ==> !(s.prev_keys[j] && !keys[j])) && await_step(s, keys).registers
            == s.registers.update(s.interrupt_register as int, k as u8));
    }
}

/// The found release edge is the lowest one at or above the start index.
proof fn lemma_first_release_least(prev: Seq<bool>, cur: Seq<bool>, k: usize)
    requires
        prev.len() == 16,
        cur.len() == 16,
    ensures
        crate::keypad::first_release_from(prev, cur, k) matches Some(r) ==> forall|j: int|
            k <= j < r ==> !(prev[j] && !cur[j]),
    decreases 16 - k,
{
    if k < 16 && !(prev[k as int] && !cur[k as int]) {
        lemma_first_release_least(prev, cur, (k + 1) as usize);
    }
}

/// Unknown instruction: a word that matches no defined opcode at any
/// dispatch level halts execution, records the offending word, and mutates
/// no register, memory cell, display cell or other machine state.
pub proof fn lemma_unknown_word_halts(s: CpuView, w: u16, keys: Seq<bool>, rnd: u8)
    requires
        wf_view(s),
        keys.len() == 16,
        unknown_word(w),
    ensures
        exec_word(s, w, keys, rnd) == halted(s, Fault::UnknownInstruction(w)),
        exec_word(s, w, keys, rnd).cpu_state == CpuState::Halted,
        exec_word(s, w, keys, rnd).fault == Some(Fault::UnknownInstruction(w)),
        exec_word(s, w, keys, rnd).registers == s.registers,
        exec_word(s, w, keys, rnd).memory == s.memory,
        exec_word(s, w, keys, rnd).frame_buffer == s.frame_buffer,
        exec_word(s, w, keys, rnd).pc == s.pc,
        exec_word(s, w, keys, rnd).i_register == s.i_register,
        exec_word(s, w, keys, rnd).stack == s.stack,
{
}

} // verus!
