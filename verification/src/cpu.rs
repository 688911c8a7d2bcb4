//! The execution engine: fetch, decode and dispatch, the opcode handlers,
//! the timer subsystem and the blocking-keypress completion. Every method is
//! proved to realise the corresponding spec function of `model`.

use vstd::prelude::*;

use crate::keypad::Keypad;
use crate::keypad::lemma_first_release_in_range;
use crate::model::CpuState;
use crate::model::CpuView;
use crate::model::Fault;
use crate::model::await_step;
use crate::model::cycle;
use crate::model::dec_timer;
use crate::model::draw_bit;
use crate::model::draw_collision;
use crate::model::draw_frame_buffer;
use crate::model::draw_region;
use crate::model::exec_word;
use crate::model::halted;
use crate::model::initial_view;
use crate::model::lemma_tick_timers_frame;
use crate::model::op_add_carry;
use crate::model::op_add_to_index;
use crate::model::op_add_to_register;
use crate::model::op_and;
use crate::model::op_call;
use crate::model::op_clear_screen;
use crate::model::op_copy;
use crate::model::op_draw;
use crate::model::op_jump;
use crate::model::op_jump_with_offset;
use crate::model::op_load_registers;
use crate::model::op_or;
use crate::model::op_random;
use crate::model::op_return;
use crate::model::op_set_delay;
use crate::model::op_set_index;
use crate::model::op_set_register;
use crate::model::op_set_sound;
use crate::model::op_shift_left;
use crate::model::op_shift_right;
use crate::model::op_skip_if_equal;
use crate::model::op_skip_if_not_equal;
use crate::model::op_skip_if_not_pressed;
use crate::model::op_skip_if_pressed;
use crate::model::op_skip_if_x_equals_y;
use crate::model::op_skip_if_x_not_equals_y;
use crate::model::op_store_bcd;
use crate::model::op_store_delay;
use crate::model::op_store_registers;
use crate::model::op_sub_borrow;
use crate::model::op_sub_reverse;
use crate::model::op_wait_key;
use crate::model::op_xor;
use crate::model::program_loaded;
use crate::model::set_reg;
use crate::model::step;
use crate::model::tick_timers;
use crate::model::wf_view;
use crate::model::with_elapsed;
use crate::model::with_prev_keys;
use crate::model::wrap16;
use vstd::arithmetic::div_mod::lemma_div_denominator;
use vstd::arithmetic::div_mod::lemma_fundamental_div_mod;
use vstd::arithmetic::div_mod::lemma_fundamental_div_mod_converse;
use vstd::arithmetic::div_mod::lemma_mod_bound;

verus! {

/// The machine: registers, memory, display, call stack, timers, the stored
/// key snapshot and the execution-state tag. The display buffer and the
/// dirty flag are exposed to the host; everything else is engine-owned.
pub struct CPU {
    pc: u16,
    i_register: u16,
    registers: Vec<u8>,
    delay_timer: u8,
    sound_timer: u8,
    memory: Vec<u8>,
    pub frame_buffer: Vec<bool>,
    stack: Vec<u16>,
    keypad: Keypad,
    interrupt_register: u16,
    max_stack_size: usize,
    pub redraw: bool,
    cpu_state: CpuState,
    fault: Option<Fault>,
    time_since_last_decrease: u64,
}

impl View for CPU {
    type V = CpuView;

    closed spec fn view(&self) -> CpuView {
        CpuView {
            pc: self.pc,
            i_register: self.i_register,
            registers: self.registers@,
            delay_timer: self.delay_timer,
            sound_timer: self.sound_timer,
            memory: self.memory@,
            frame_buffer: self.frame_buffer@,
            stack: self.stack@,
            max_stack_size: self.max_stack_size,
            prev_keys: self.keypad@,
            interrupt_register: self.interrupt_register,
            cpu_state: self.cpu_state,
            fault: self.fault,
            redraw: self.redraw,
            time_acc: self.time_since_last_decrease,
        }
    }
}

impl CPU {
    pub open spec fn wf(&self) -> bool {
        wf_view(self@)
    }

    /// Enter the terminal fault state: record the fault and stop executing.
    fn enter_fault(&mut self, f: Fault)
        ensures
            final(self)@ == halted(old(self)@, f),
    {
        self.cpu_state = CpuState::Halted;
        self.fault = Some(f);
    }

    /// Record an instruction word that matched no defined opcode and halt.
    pub fn panic_unknown_instruction(&mut self, instruction: u16)
        ensures
            final(self)@ == halted(old(self)@, Fault::UnknownInstruction(instruction)),
    {
        self.enter_fault(Fault::UnknownInstruction(instruction));
    }

    pub fn get_value_of_register(&self, register: u16) -> (v: u8)
        requires
            self.wf(),
            register < 16,
        ensures
            v == self@.registers[register as int],
    {
        self.registers[register as usize]
    }

    pub fn set_value_of_register(&mut self, register: u16, value: u8)
        requires
            old(self).wf(),
            register < 16,
        ensures
            final(self).wf(),
            final(self)@ == set_reg(old(self)@, register as int, value),
    {
        self.registers[register as usize] = value;
    }

    /// Reset the flag register (0xF) to zero.
    pub fn reset_flag_register(&mut self)
        requires
            old(self).wf(),
        ensures
            final(self).wf(),
            final(self)@ == set_reg(old(self)@, 15, 0),
    {
        self.registers[15] = 0;
    }

    /// 0x1NNN: jump to the address.
    pub fn jump_to_address(&mut self, address: u16)
        requires
            old(self).wf(),
        ensures
            final(self).wf(),
            final(self)@ == op_jump(old(self)@, address),
    {
        self.pc = address;
    }

    /// Advance past the following instruction, wrapping in 16 bits.
    fn skip_next_instruction(&mut self)
        requires
            old(self).wf(),
        ensures
            final(self).wf(),
            final(self)@ == (CpuView { pc: wrap16(old(self)@.pc + 2), ..old(self)@ }),
    {
        self.pc = if self.pc <= 0xFFFD {
            self.pc + 2
        } else {
            self.pc - 0xFFFE
        };
    }

    /// 0x3XNN: skip the following instruction if VX equals the immediate.
    pub fn skip_if_equal(&mut self, register: u16, value: u8)
        requires
            old(self).wf(),
            register < 16,
        ensures
            final(self).wf(),
            final(self)@ == op_skip_if_equal(old(self)@, register as int, value),
    {
        let reg_value = self.get_value_of_register(register);
        if reg_value == value {
            self.skip_next_instruction();
        }
    }

    /// 0x4XNN: skip the following instruction if VX differs from the
    /// immediate.
    pub fn skip_if_not_equal(&mut self, register: u16, value: u8)
        requires
            old(self).wf(),
            register < 16,
        ensures
            final(self).wf(),
            final(self)@ == op_skip_if_not_equal(old(self)@, register as int, value),
    {
        let reg_value = self.get_value_of_register(register);
        if reg_value != value {
            self.skip_next_instruction();
        }
    }

    /// 0x5XY0: skip the following instruction if VX equals VY.
    pub fn skip_if_x_equals_y(&mut self, x: u16, y: u16)
        requires
            old(self).wf(),
            x < 16,
            y < 16,
        ensures
            final(self).wf(),
            final(self)@ == op_skip_if_x_equals_y(old(self)@, x as int, y as int),
    {
        let x_value = self.get_value_of_register(x);
        let y_value = self.get_value_of_register(y);
        if x_value == y_value {
            self.skip_next_instruction();
        }
    }

    /// 0x9XY0: skip the following instruction if VX differs from VY.
    pub fn skip_if_x_not_equals_y(&mut self, x: u16, y: u16)
        requires
            old(self).wf(),
            x < 16,
            y < 16,
        ensures
            final(self).wf(),
            final(self)@ == op_skip_if_x_not_equals_y(old(self)@, x as int, y as int),
    {
        let x_value = self.get_value_of_register(x);
        let y_value = self.get_value_of_register(y);
        if x_value != y_value {
            self.skip_next_instruction();
        }
    }

    /// 0x6XNN: store the immediate in VX.
    pub fn set_register_vx(&mut self, register: u16, number: u8)
        requires
            old(self).wf(),
            register < 16,
        ensures
            final(self).wf(),
            final(self)@ == op_set_register(old(self)@, register as int, number),
    {
        self.set_value_of_register(register, number);
    }

    /// 0x7XNN: add the immediate to VX, wrapping modulo 256; the flag
    /// register is untouched.
    pub fn add_to_register_vx(&mut self, register: u16, number: u8)
        requires
            old(self).wf(),
            register < 16,
        ensures
            final(self).wf(),
            final(self)@ == op_add_to_register(old(self)@, register as int, number),
    {
        let value = self.get_value_of_register(register);
        let sum: u16 = value as u16 + number as u16;
        let wrapped: u8 = if sum > 0xFF {
            (sum - 0x100) as u8
        } else {
            sum as u8
        };
        self.set_value_of_register(register, wrapped);
    }

    /// 0x8XY0: copy VY into VX.
    pub fn store_vy_in_vx(&mut self, x: u16, y: u16)
        requires
            old(self).wf(),
            x < 16,
            y < 16,
        ensures
            final(self).wf(),
            final(self)@ == op_copy(old(self)@, x as int, y as int),
    {
        let y_value = self.get_value_of_register(y);
        self.set_value_of_register(x, y_value);
    }

    /// 0x8XY1: VX = VX | VY; the flag register is reset first, so a
    /// destination of 0xF keeps the bitwise result.
    pub fn set_vx_to_vx_or_vy(&mut self, x: u16, y: u16)
        requires
            old(self).wf(),
            x < 16,
            y < 16,
        ensures
            final(self).wf(),
            final(self)@ == op_or(old(self)@, x as int, y as int),
    {
        let x_value = self.get_value_of_register(x);
        let y_value = self.get_value_of_register(y);
        let value = x_value | y_value;
        self.reset_flag_register();
        self.set_value_of_register(x, value);
    }

    /// 0x8XY2: VX = VX & VY, flag reset first.
    pub fn set_vx_to_vx_and_vy(&mut self, x: u16, y: u16)
        requires
            old(self).wf(),
            x < 16,
            y < 16,
        ensures
            final(self).wf(),
            final(self)@ == op_and(old(self)@, x as int, y as int),
    {
        let x_value = self.get_value_of_register(x);
        let y_value = self.get_value_of_register(y);
        let value = x_value & y_value;
        self.reset_flag_register();
        self.set_value_of_register(x, value);
    }

    /// 0x8XY3: VX = VX ^ VY, flag reset first.
    pub fn set_vx_to_vx_xor_vy(&mut self, x: u16, y: u16)
        requires
            old(self).wf(),
            x < 16,
            y < 16,
        ensures
            final(self).wf(),
            final(self)@ == op_xor(old(self)@, x as int, y as int),
    {
        let x_value = self.get_value_of_register(x);
        let y_value = self.get_value_of_register(y);
        let value = x_value ^ y_value;
        self.reset_flag_register();
        self.set_value_of_register(x, value);
    }

    /// 0x8XY4: VX = VX + VY modulo 256; the flag register is then
    /// overwritten with 1 exactly when the sum exceeded 255.
    pub fn add_vy_to_vx_carry(&mut self, x: u16, y: u16)
        requires
            old(self).wf(),
            x < 16,
            y < 16,
        ensures
            final(self).wf(),
            final(self)@ == op_add_carry(old(self)@, x as int, y as int),
    {
        let x_value = self.get_value_of_register(x);
        let y_value = self.get_value_of_register(y);
        let sum: u16 = x_value as u16 + y_value as u16;
        let value: u8 = if sum > 0xFF {
            (sum - 0x100) as u8
        } else {
            sum as u8
        };
        let carry: u8 = if sum > 0xFF {
            1
        } else {
            0
        };
        self.set_value_of_register(x, value);
        self.set_value_of_register(0xF, carry);
    }

    /// 0x8XY5: VX = VX - VY modulo 256; the flag register is then
    /// overwritten with the logical NOT of the borrow: 1 when VX >= VY.
    pub fn subtract_vy_from_vx_borrow(&mut self, x: u16, y: u16)
        requires
            old(self).wf(),
            x < 16,
            y < 16,
        ensures
            final(self).wf(),
            final(self)@ == op_sub_borrow(old(self)@, x as int, y as int),
    {
        let x_value = self.get_value_of_register(x);
        let y_value = self.get_value_of_register(y);
        let value: u8 = if x_value >= y_value {
            x_value - y_value
        } else {
            ((x_value as u16 + 0x100) - y_value as u16) as u8
        };
        let no_borrow: u8 = if x_value >= y_value {
            1
        } else {
            0
        };
        self.set_value_of_register(x, value);
        self.set_value_of_register(0xF, no_borrow);
    }

    /// 0x8XY7: VX = VY - VX modulo 256; flag = NOT borrow: 1 when VY >= VX.
    pub fn subtract_vx_from_vy_borrow(&mut self, x: u16, y: u16)
        requires
            old(self).wf(),
            x < 16,
            y < 16,
        ensures
            final(self).wf(),
            final(self)@ == op_sub_reverse(old(self)@, x as int, y as int),
    {
        let x_value = self.get_value_of_register(x);
        let y_value = self.get_value_of_register(y);
        let value: u8 = if y_value >= x_value {
            y_value - x_value
        } else {
            ((y_value as u16 + 0x100) - x_value as u16) as u8
        };
        let no_borrow: u8 = if y_value >= x_value {
            1
        } else {
            0
        };
        self.set_value_of_register(x, value);
        self.set_value_of_register(0xF, no_borrow);
    }

    /// 0x8XY6: VX = VY >> 1; the flag register is then overwritten with the
    /// bit shifted out, the original bit 0 of VY.
    pub fn shift_vy_one_right_store_in_vx(&mut self, x: u16, y: u16)
        requires
            old(self).wf(),
            x < 16,
            y < 16,
        ensures
            final(self).wf(),
            final(self)@ == op_shift_right(old(self)@, x as int, y as int),
    {
        let y_value = self.get_value_of_register(y);
        self.set_value_of_register(x, y_value / 2);
        self.set_value_of_register(0xF, y_value % 2);
    }

    /// 0x8XYE: VX = VY << 1 truncated to 8 bits; the flag register is then
    /// overwritten with the bit shifted out, the original bit 7 of VY.
    pub fn shift_vy_one_left_store_in_vx(&mut self, x: u16, y: u16)
        requires
            old(self).wf(),
            x < 16,
            y < 16,
        ensures
            final(self).wf(),
            final(self)@ == op_shift_left(old(self)@, x as int, y as int),
    {
        let y_value = self.get_value_of_register(y);
        let doubled: u16 = y_value as u16 * 2;
        let value: u8 = if doubled > 0xFF {
            (doubled - 0x100) as u8
        } else {
            doubled as u8
        };
        self.set_value_of_register(x, value);
        self.set_value_of_register(0xF, y_value / 128);
    }

    /// 0xANNN: store the address in the index register.
    pub fn set_index_register(&mut self, value: u16)
        requires
            old(self).wf(),
        ensures
            final(self).wf(),
            final(self)@ == op_set_index(old(self)@, value),
    {
        self.i_register = value;
    }

    /// 0xBNNN: jump to the immediate plus the value of register 0.
    pub fn jump_with_offset(&mut self, value: u16)
        requires
            old(self).wf(),
            value < 0x1000,
        ensures
            final(self).wf(),
            final(self)@ == op_jump_with_offset(old(self)@, value),
    {
        let reg_0 = self.get_value_of_register(0x0) as u16;
        self.pc = value + reg_0;
    }

    /// 0x00E0: every display cell goes dark.
    pub fn clear_screen(&mut self)
        requires
            old(self).wf(),
        ensures
            final(self).wf(),
            final(self)@ == op_clear_screen(old(self)@),
    {
        let len = self.frame_buffer.len();
        let mut i: usize = 0;
        while i < len
            invariant
                self.frame_buffer@.len() == len,
                i <= len,
                forall|j: int| 0 <= j < i ==> !self.frame_buffer@[j],
                self@ == (CpuView { frame_buffer: self.frame_buffer@, ..old(self)@ }),
            decreases len - i,
        {
            self.frame_buffer[i] = false;
            i = i + 1;
        }
        proof {
            assert(self@ =~= op_clear_screen(old(self)@));
        }
    }

    /// 0x00EE: pop the return address into the program counter; an empty
    /// call stack is a fatal fault.
    pub fn return_from_subroutine(&mut self)
        requires
            old(self).wf(),
        ensures
            final(self).wf(),
            final(self)@ == op_return(old(self)@),
    {
        let address = self.stack.pop();
        match address {
            Some(address) => {
                self.pc = address;
                proof {
                    assert(self@ =~= op_return(old(self)@));
                }
            },
            None => {
                self.enter_fault(Fault::StackUnderflow);
            },
        }
    }

    /// 0x2NNN: push the program counter and jump to the subroutine; a push
    /// beyond the configured maximum depth is a fatal fault.
    pub fn jump_to_subroutine(&mut self, address: u16)
        requires
            old(self).wf(),
        ensures
            final(self).wf(),
            final(self)@ == op_call(old(self)@, address),
    {
        if self.stack.len() >= self.max_stack_size {
            self.enter_fault(Fault::StackOverflow);
        } else {
            self.stack.push(self.pc);
            self.pc = address;
        }
    }

    /// Decrement each non-zero timer once: one 60 Hz tick.
    pub fn decrease_timers(&mut self)
        ensures
            final(self)@ == (CpuView {
                delay_timer: dec_timer(old(self)@.delay_timer),
                sound_timer: dec_timer(old(self)@.sound_timer),
                ..old(self)@
            }),
    {
        if self.sound_timer > 0 {
            self.sound_timer = self.sound_timer - 1;
        }
        if self.delay_timer > 0 {
            self.delay_timer = self.delay_timer - 1;
        }
    }

    /// Add the elapsed milliseconds to the accumulator and drain it: one
    /// timer tick per full 17 ms period, so ticks are never lost under a
    /// slow host loop and the timers never underflow.
    pub fn update_timers(&mut self, delta_ms: u64)
        requires
            old(self).wf(),
            delta_ms <= u64::MAX - 17,
        ensures
            final(self).wf(),
            final(self)@ == with_elapsed(old(self)@, delta_ms),
    {
        self.time_since_last_decrease = self.time_since_last_decrease + delta_ms;
        while self.time_since_last_decrease >= 17
            invariant
                wf_view(CpuView { time_acc: 0u64, ..self@ }),
                tick_timers(self@) == with_elapsed(old(self)@, delta_ms),
            decreases self.time_since_last_decrease,
        {
            self.decrease_timers();
            self.time_since_last_decrease = self.time_since_last_decrease - 17;
        }
    }

    /// 0xFX07: store the delay timer in VX.
    pub fn store_delay_timer_in_vx(&mut self, x: u16)
        requires
            old(self).wf(),
            x < 16,
        ensures
            final(self).wf(),
            final(self)@ == op_store_delay(old(self)@, x as int),
    {
        let delay_timer = self.delay_timer;
        self.set_value_of_register(x, delay_timer);
    }

    /// 0xFX0A: record VX as the pending destination and await a key-release
    /// edge; the register write happens only at completion.
    pub fn store_next_keypress_in_vx(&mut self, x: u16)
        requires
            old(self).wf(),
            x < 16,
        ensures
            final(self).wf(),
            final(self)@ == op_wait_key(old(self)@, x as int),
    {
        self.interrupt_register = x;
        self.cpu_state = CpuState::AwaitingKey;
    }

    /// Complete a pending blocking keypress: write the released key's index
    /// to the recorded destination register and resume running.
    pub fn store_next_keypress_in_vx_interrupt(&mut self, keycode: u8)
        requires
            old(self).wf(),
        ensures
            final(self).wf(),
            final(self)@ == (CpuView {
                registers: old(self)@.registers.update(
                    old(self)@.interrupt_register as int,
                    keycode,
                ),
                cpu_state: CpuState::Running,
                ..old(self)@
            }),
    {
        let target = self.interrupt_register;
        self.set_value_of_register(target, keycode);
        self.cpu_state = CpuState::Running;
    }

    /// While awaiting a key, check for a release edge between the stored
    /// snapshot and the current one; on the first edge, complete the
    /// pending register write and resume running.
    pub fn handle_interrupt(&mut self, keypad: &Keypad)
        requires
            old(self).wf(),
            keypad.wf(),
        ensures
            final(self).wf(),
            final(self)@ == await_step(old(self)@, keypad@),
    {
        let released = self.keypad.get_new_key_release(keypad);
        match released {
            Some(keycode) => {
                proof {
                    lemma_first_release_in_range(old(self)@.prev_keys, keypad@, 0);
                }
                self.store_next_keypress_in_vx_interrupt(keycode as u8);
            },
            None => {},
        }
    }

    /// 0xFX15: set the delay timer from VX.
    pub fn set_timer_delay(&mut self, x: u16)
        requires
            old(self).wf(),
            x < 16,
        ensures
            final(self).wf(),
            final(self)@ == op_set_delay(old(self)@, x as int),
    {
        self.delay_timer = self.get_value_of_register(x);
    }

    /// 0xFX18: set the sound timer from VX.
    pub fn set_sound_delay(&mut self, x: u16)
        requires
            old(self).wf(),
            x < 16,
        ensures
            final(self).wf(),
            final(self)@ == op_set_sound(old(self)@, x as int),
    {
        self.sound_timer = self.get_value_of_register(x);
    }

    /// 0xFX1E: add VX to the index register, wrapping in 16 bits.
    pub fn add_vx_to_i(&mut self, x: u16)
        requires
            old(self).wf(),
            x < 16,
        ensures
            final(self).wf(),
            final(self)@ == op_add_to_index(old(self)@, x as int),
    {
        let value = self.get_value_of_register(x) as u16;
        self.i_register = if self.i_register <= 0xFFFF - value {
            self.i_register + value
        } else {
            value - (0xFFFF - self.i_register) - 1
        };
    }

    /// 0xFX33: store the decimal digits of VX (hundreds, tens, ones) at the
    /// index register and the two cells after it.
    pub fn store_decimal_at_i(&mut self, x: u16)
        requires
            old(self).wf(),
            x < 16,
        ensures
            final(self).wf(),
            final(self)@ == op_store_bcd(old(self)@, x as int),
    {
        let i = self.i_register as usize;
        if i + 3 > self.memory.len() {
            self.enter_fault(Fault::MemoryOutOfBounds);
            return;
        }
        let value = self.get_value_of_register(x);
        self.memory[i] = value / 100;
        self.memory[i + 1] = (value / 10) % 10;
        self.memory[i + 2] = value % 10;
        proof {
            assert(self@ =~= op_store_bcd(old(self)@, x as int));
        }
    }

    /// 0xFX55: copy registers 0..=x to memory starting at the index
    /// register, which ends at its original value plus x + 1.
    pub fn store_register_values_in_memory(&mut self, x: u16)
        requires
            old(self).wf(),
            x < 16,
        ensures
            final(self).wf(),
            final(self)@ == op_store_registers(old(self)@, x as int),
    {
        let i = self.i_register as usize;
        let count = x as usize + 1;
        if i + count > self.memory.len() || i + count > 0xFFFF {
            self.enter_fault(Fault::MemoryOutOfBounds);
            return;
        }
        let mut k: usize = 0;
        while k < count
            invariant
                old(self).wf(),
                i == old(self)@.i_register,
                count == x + 1,
                x < 16,
                i + count <= old(self)@.memory.len(),
                i + count <= 0xFFFF,
                k <= count,
                self.memory@.len() == old(self)@.memory.len(),
                forall|a: int|
                    0 <= a < self.memory@.len() ==> self.memory@[a] == (if i <= a < i + k {
                        old(self)@.registers[a - i]
                    } else {
                        old(self)@.memory[a]
                    }),
                self@ == (CpuView { memory: self.memory@, ..old(self)@ }),
            decreases count - k,
        {
            self.memory[i + k] = self.registers[k];
            k = k + 1;
        }
        self.i_register = (i + count) as u16;
        proof {
            assert(self@ =~= op_store_registers(old(self)@, x as int));
        }
    }

    /// 0xFX65: fill registers 0..=x from memory starting at the index
    /// register, which ends at its original value plus x + 1.
    pub fn load_register_values_from_memory(&mut self, x: u16)
        requires
            old(self).wf(),
            x < 16,
        ensures
            final(self).wf(),
            final(self)@ == op_load_registers(old(self)@, x as int),
    {
        let i = self.i_register as usize;
        let count = x as usize + 1;
        if i + count > self.memory.len() || i + count > 0xFFFF {
            self.enter_fault(Fault::MemoryOutOfBounds);
            return;
        }
        let mut k: usize = 0;
        while k < count
            invariant
                old(self).wf(),
                i == old(self)@.i_register,
                count == x + 1,
                x < 16,
                i + count <= old(self)@.memory.len(),
                i + count <= 0xFFFF,
                k <= count,
                self.registers@.len() == 16,
                forall|r: int|
                    0 <= r < 16 ==> self.registers@[r] == (if 0 <= r < k {
                        old(self)@.memory[i + r]
                    } else {
                        old(self)@.registers[r]
                    }),
                self@ == (CpuView { registers: self.registers@, ..old(self)@ }),
            decreases count - k,
        {
            self.registers[k] = self.memory[i + k];
            k = k + 1;
        }
        self.i_register = (i + count) as u16;
        proof {
            assert(self@ =~= op_load_registers(old(self)@, x as int));
        }
    }

    /// 0xEX9E: skip the following instruction if the key indexed by VX is
    /// pressed in the current snapshot; a value outside 0..=15 is a fatal
    /// fault.
    pub fn skip_if_pressed(&mut self, x: u16, keypad: &Keypad)
        requires
            old(self).wf(),
            keypad.wf(),
            x < 16,
        ensures
            final(self).wf(),
            final(self)@ == op_skip_if_pressed(old(self)@, x as int, keypad@),
    {
        let value = self.get_value_of_register(x);
        if value > 15 {
            self.enter_fault(Fault::InvalidKeyIndex(value));
            return;
        }
        if keypad.is_key_pressed(value as usize) {
            self.skip_next_instruction();
        }
    }

    /// 0xEXA1: skip the following instruction if the key indexed by VX is
    /// not pressed; same fault rule.
    pub fn skip_if_not_pressed(&mut self, x: u16, keypad: &Keypad)
        requires
            old(self).wf(),
            keypad.wf(),
            x < 16,
        ensures
            final(self).wf(),
            final(self)@ == op_skip_if_not_pressed(old(self)@, x as int, keypad@),
    {
        let value = self.get_value_of_register(x);
        if value > 15 {
            self.enter_fault(Fault::InvalidKeyIndex(value));
            return;
        }
        if !keypad.is_key_pressed(value as usize) {
            self.skip_next_instruction();
        }
    }

    /// 0xCXNN: store a freshly drawn random byte, masked by the immediate,
    /// in VX. Nothing is assumed of the drawn byte: the contract holds
    /// whatever came back.
    pub fn set_masked_random(&mut self, x: u16, mask: u8)
        requires
            old(self).wf(),
            x < 16,
        ensures
            final(self).wf(),
            exists|b: u8| final(self)@ == op_random(old(self)@, x as int, mask, b),
    {
        let number: u8 = random_byte();
        let masked: u8 = number & mask;
        self.set_value_of_register(x, masked);
        proof {
            assert(self@ == op_random(old(self)@, x as int, mask, number));
        }
    }
}

impl CPU {
    /// Second-level dispatch for the arithmetic family (first nibble 0x8),
    /// keyed by the fourth nibble.
    pub fn arithmetic_instructions(&mut self, nb: u16, nc: u16, nd: u16)
        requires
            old(self).wf(),
            nb < 16,
            nc < 16,
            nd < 16,
        ensures
            final(self).wf(),
            final(self)@ == exec_word(
                old(self)@,
                (0x8000 + nb * 0x100 + nc * 16 + nd) as u16,
                Seq::<bool>::empty(),
                0,
            ),
    {
        proof {
            lemma_word_compose(0x8, nb, nc, nd);
        }
        match nd {
            0x0 => self.store_vy_in_vx(nb, nc),
            0x1 => self.set_vx_to_vx_or_vy(nb, nc),
            0x2 => self.set_vx_to_vx_and_vy(nb, nc),
            0x3 => self.set_vx_to_vx_xor_vy(nb, nc),
            0x4 => self.add_vy_to_vx_carry(nb, nc),
            0x5 => self.subtract_vy_from_vx_borrow(nb, nc),
            0x6 => self.shift_vy_one_right_store_in_vx(nb, nc),
            0x7 => self.subtract_vx_from_vy_borrow(nb, nc),
            0xE => self.shift_vy_one_left_store_in_vx(nb, nc),
            _ => self.panic_unknown_instruction(0x8000 + nb * 0x100 + nc * 16 + nd),
        }
    }

    /// Second-level dispatch for the key-test family (first nibble 0xE),
    /// keyed by the low byte.
    pub fn e_instructions(&mut self, nb: u16, nc: u16, nd: u16, keypad: &Keypad)
        requires
            old(self).wf(),
            keypad.wf(),
            nb < 16,
            nc < 16,
            nd < 16,
        ensures
            final(self).wf(),
            final(self)@ == exec_word(old(self)@, (0xE000 + nb * 0x100 + nc * 16 + nd) as u16, keypad@, 0),
    {
        proof {
            lemma_word_compose(0xE, nb, nc, nd);
        }
        let encoded = nc * 16 + nd;
        match encoded {
            0x9E => self.skip_if_pressed(nb, keypad),
            0xA1 => self.skip_if_not_pressed(nb, keypad),
            _ => self.panic_unknown_instruction(0xE000 + nb * 0x100 + encoded),
        }
    }

    /// Second-level dispatch for the misc family (first nibble 0xF), keyed
    /// by the low byte.
    pub fn f_instructions(&mut self, nb: u16, nc: u16, nd: u16)
        requires
            old(self).wf(),
            nb < 16,
            nc < 16,
            nd < 16,
        ensures
            final(self).wf(),
            final(self)@ == exec_word(
                old(self)@,
                (0xF000 + nb * 0x100 + nc * 16 + nd) as u16,
                Seq::<bool>::empty(),
                0,
            ),
    {
        proof {
            lemma_word_compose(0xF, nb, nc, nd);
        }
        let encoded = nc * 16 + nd;
        match encoded {
            0x07 => self.store_delay_timer_in_vx(nb),
            0x0A => self.store_next_keypress_in_vx(nb),
            0x15 => self.set_timer_delay(nb),
            0x18 => self.set_sound_delay(nb),
            0x1E => self.add_vx_to_i(nb),
            0x33 => self.store_decimal_at_i(nb),
            0x55 => self.store_register_values_in_memory(nb),
            0x65 => self.load_register_values_from_memory(nb),
            _ => self.panic_unknown_instruction(0xF000 + nb * 0x100 + encoded),
        }
    }

    /// Fetch the big-endian word at the program counter (a read past the
    /// end of memory is a fatal fault), advance the counter by two, and
    /// dispatch on the first nibble. `keypad` is the cycle's key snapshot,
    /// read by the key-test opcodes.
    #[verifier::rlimit(100)]
    pub fn execute_instruction(&mut self, keypad: &Keypad)
        requires
            old(self).wf(),
            keypad.wf(),
        ensures
            final(self).wf(),
            exists|b: u8| final(self)@ == step(old(self)@, keypad@, b),
    {
        let pcu = self.pc as usize;
        if pcu + 1 >= self.memory.len() {
            self.enter_fault(Fault::MemoryOutOfBounds);
            proof {
                assert(self@ == step(old(self)@, keypad@, 0u8));
            }
            return;
        }
        let hi = self.memory[pcu];
        let lo = self.memory[pcu + 1];
        let instruction: u16 = (hi as u16) * 256 + (lo as u16);
        self.skip_next_instruction();
        let ghost s2 = self@;
        let na = instruction / 0x1000;
        let nb = (instruction / 0x100) % 16;
        let nc = (instruction / 16) % 16;
        let nd = instruction % 16;
        let nnn = instruction % 0x1000;
        let nn = (instruction % 0x100) as u8;
        proof {
            lemma_word_nibbles(instruction);
            assert forall|b: u8| step(old(self)@, keypad@, b) == exec_word(
                s2,
                instruction,
                keypad@,
                b,
            ) by {}
        }
        match na {
            0x0 => {
                if instruction == 0x00E0 {
                    self.clear_screen();
                } else if instruction == 0x00EE {
                    self.return_from_subroutine();
                } else {
                    self.panic_unknown_instruction(instruction);
                }
                proof {
                    assert(self@ == exec_word(s2, instruction, keypad@, 0u8));
                }
            },
            0x1 => {
                self.jump_to_address(nnn);
                proof {
                    assert(self@ == exec_word(s2, instruction, keypad@, 0u8));
                }
            },
            0x2 => {
                self.jump_to_subroutine(nnn);
                proof {
                    assert(self@ == exec_word(s2, instruction, keypad@, 0u8));
                }
            },
            0x3 => {
                self.skip_if_equal(nb, nn);
                proof {
                    assert(self@ == exec_word(s2, instruction, keypad@, 0u8));
                }
            },
            0x4 => {
                self.skip_if_not_equal(nb, nn);
                proof {
                    assert(self@ == exec_word(s2, instruction, keypad@, 0u8));
                }
            },
            0x5 => {
                if nd == 0x0 {
                    self.skip_if_x_equals_y(nb, nc);
                } else {
                    self.panic_unknown_instruction(instruction);
                }
                proof {
                    assert(self@ == exec_word(s2, instruction, keypad@, 0u8));
                }
            },
            0x6 => {
                self.set_register_vx(nb, nn);
                proof {
                    assert(self@ == exec_word(s2, instruction, keypad@, 0u8));
                }
            },
            0x7 => {
                self.add_to_register_vx(nb, nn);
                proof {
                    assert(self@ == exec_word(s2, instruction, keypad@, 0u8));
                }
            },
            0x8 => {
                self.arithmetic_instructions(nb, nc, nd);
                proof {
                    assert(self@ == exec_word(s2, instruction, keypad@, 0u8));
                }
            },
            0x9 => {
                if nd == 0x0 {
                    self.skip_if_x_not_equals_y(nb, nc);
                } else {
                    self.panic_unknown_instruction(instruction);
                }
                proof {
                    assert(self@ == exec_word(s2, instruction, keypad@, 0u8));
                }
            },
            0xA => {
                self.set_index_register(nnn);
                proof {
                    assert(self@ == exec_word(s2, instruction, keypad@, 0u8));
                }
            },
            0xB => {
                self.jump_with_offset(nnn);
                proof {
                    assert(self@ == exec_word(s2, instruction, keypad@, 0u8));
                }
            },
            0xC => {
                self.set_masked_random(nb, nn);
                proof {
                    let b = choose|b: u8|
                        self@ == op_random(s2, nb as int, nn, b);
                    assert(self@ == exec_word(s2, instruction, keypad@, b));
                }
            },
            0xD => {
                self.draw_sprite(nb, nc, nd);
                proof {
                    assert(self@ == exec_word(s2, instruction, keypad@, 0u8));
                }
            },
            0xE => {
                self.e_instructions(nb, nc, nd, keypad);
                proof {
                    assert(self@ == exec_word(s2, instruction, keypad@, 0u8));
                }
            },
            _ => {
                self.f_instructions(nb, nc, nd);
                proof {
                    assert(self@ == exec_word(s2, instruction, keypad@, 0u8));
                }
            },
        }
    }

    /// One host cycle: drain the elapsed time into timer ticks first,
    /// unconditionally; then, by execution state, run one instruction,
    /// service the pending blocking keypress, or do nothing; finally store
    /// the key snapshot for the next cycle's edge detection.
    pub fn emulate_cycle(&mut self, delta_ms: u64, keypad: &Keypad)
        requires
            old(self).wf(),
            keypad.wf(),
            delta_ms <= u64::MAX - 17,
        ensures
            final(self).wf(),
            exists|b: u8| final(self)@ == cycle(old(self)@, delta_ms, keypad@, b),
    {
        self.update_timers(delta_ms);
        proof {
            lemma_tick_timers_frame(
                CpuView { time_acc: (old(self)@.time_acc + delta_ms) as u64, ..old(self)@ },
            );
        }
        let ghost mid = self@;
        let ghost mut bw: u8 = 0;
        match self.cpu_state {
            CpuState::Running => {
                self.execute_instruction(keypad);
                proof {
                    bw = choose|b: u8| self@ == step(mid, keypad@, b);
                }
            },
            CpuState::AwaitingKey => {
                self.handle_interrupt(keypad);
            },
            CpuState::Halted => {},
        }
        let ghost done = self@;
        self.keypad = keypad.snapshot();
        proof {
            assert(self@ =~= with_prev_keys(done, keypad@));
            assert(self@ == cycle(old(self)@, delta_ms, keypad@, bw));
        }
    }

    /// A machine with the given memory, display and stack bounds, the
    /// 80-byte font glyph table written at memory 20..100, and everything
    /// else at its initial value.
    pub fn new(
        font: &[u8],
        memory_size: usize,
        frame_buffer_size: usize,
        max_stack_size: usize,
    ) -> (cpu: CPU)
        requires
            font@.len() == 80,
            memory_size >= 100,
            frame_buffer_size >= 2048,
        ensures
            cpu.wf(),
            cpu@ == initial_view(font@, memory_size, frame_buffer_size, max_stack_size),
    {
        let mut memory: Vec<u8> = Vec::new();
        let mut a: usize = 0;
        while a < memory_size
            invariant
                memory@.len() == a,
                a <= memory_size,
                forall|j: int| 0 <= j < a ==> memory@[j] == 0u8,
            decreases memory_size - a,
        {
            memory.push(0);
            a = a + 1;
        }
        let mut k: usize = 0;
        while k < 80
            invariant
                memory@.len() == memory_size,
                memory_size >= 100,
                k <= 80,
                font@.len() == 80,
                forall|j: int|
                    0 <= j < memory_size ==> memory@[j] == (if 20 <= j < 20 + k {
                        font@[j - 20]
                    } else {
                        0u8
                    }),
            decreases 80 - k,
        {
            memory[20 + k] = font[k];
            k = k + 1;
        }
        let mut frame_buffer: Vec<bool> = Vec::new();
        let mut f: usize = 0;
        while f < frame_buffer_size
            invariant
                frame_buffer@.len() == f,
                f <= frame_buffer_size,
                forall|j: int| 0 <= j < f ==> !frame_buffer@[j],
            decreases frame_buffer_size - f,
        {
            frame_buffer.push(false);
            f = f + 1;
        }
        let mut registers: Vec<u8> = Vec::new();
        let mut r: usize = 0;
        while r < 16
            invariant
                registers@.len() == r,
                r <= 16,
                forall|j: int| 0 <= j < r ==> registers@[j] == 0u8,
            decreases 16 - r,
        {
            registers.push(0);
            r = r + 1;
        }
        let cpu = CPU {
            pc: 0x200,
            i_register: 0,
            registers,
            delay_timer: 0,
            sound_timer: 0,
            memory,
            frame_buffer,
            stack: Vec::new(),
            keypad: Keypad::new(),
            interrupt_register: 0,
            max_stack_size,
            redraw: true,
            cpu_state: CpuState::Running,
            fault: None,
            time_since_last_decrease: 0,
        };
        proof {
            assert(cpu@ =~= initial_view(font@, memory_size, frame_buffer_size, max_stack_size));
        }
        cpu
    }

    /// Write a program image verbatim into memory at the conventional load
    /// origin 0x200.
    pub fn set_program(&mut self, data: &[u8])
        requires
            old(self).wf(),
            512 + data@.len() <= old(self)@.memory.len(),
        ensures
            final(self).wf(),
            final(self)@ == program_loaded(old(self)@, data@),
    {
        let len = data.len();
        let mlen = self.memory.len();
        let mut k: usize = 0;
        while k < len
            invariant
                old(self).wf(),
                len == data@.len(),
                512 + len <= mlen,
                mlen == old(self)@.memory.len(),
                k <= len,
                self.memory@.len() == old(self)@.memory.len(),
                forall|a: int|
                    0 <= a < self.memory@.len() ==> self.memory@[a] == (if 512 <= a < 512 + k {
                        data@[a - 512]
                    } else {
                        old(self)@.memory[a]
                    }),
                self@ == (CpuView { memory: self.memory@, ..old(self)@ }),
            decreases len - k,
        {
            self.memory[512 + k] = data[k];
            k = k + 1;
        }
        proof {
            assert(self@ =~= program_loaded(old(self)@, data@));
        }
    }

    /// The execution-state tag, for the host to detect a halt.
    pub fn state(&self) -> (s: CpuState)
        ensures
            s == self@.cpu_state,
    {
        self.cpu_state
    }

    /// The recorded fatal fault, if execution has halted.
    pub fn last_fault(&self) -> (f: Option<Fault>)
        ensures
            f == self@.fault,
    {
        self.fault
    }

    pub fn get_pc(&self) -> (pc: u16)
        ensures
            pc == self@.pc,
    {
        self.pc
    }

    pub fn get_index_register(&self) -> (i: u16)
        ensures
            i == self@.i_register,
    {
        self.i_register
    }

    pub fn get_delay_timer(&self) -> (t: u8)
        ensures
            t == self@.delay_timer,
    {
        self.delay_timer
    }

    pub fn get_sound_timer(&self) -> (t: u8)
        ensures
            t == self@.sound_timer,
    {
        self.sound_timer
    }

    pub fn read_memory(&self, address: usize) -> (b: u8)
        requires
            address < self@.memory.len(),
        ensures
            b == self@.memory[address as int],
    {
        self.memory[address]
    }

    /// The memory size fixed at construction.
    pub fn memory_len(&self) -> (n: usize)
        ensures
            n == self@.memory.len(),
    {
        self.memory.len()
    }

    /// One display cell, row-major on the 64x32 grid.
    pub fn get_pixel(&self, x: usize, y: usize) -> (lit: bool)
        requires
            self.wf(),
            x < 64,
            y < 32,
        ensures
            lit == self@.frame_buffer[y * 64 + x],
    {
        self.frame_buffer[y * 64 + x]
    }
}

/// Whether display cell `idx` lies in the part of the drawn region already
/// visited by the sprite loop: a full row below `rr`, or column below `cc`
/// in row `rr` itself.
spec fn cell_done(x0: int, y0: int, n: int, rr: int, cc: int, idx: int) -> bool {
    &&& draw_region(x0, y0, n, idx)
    &&& (idx / 64 - y0 < rr || (idx / 64 - y0 == rr && idx % 64 - x0 < cc))
}

/// Whether the visited part of the drawn region already hit a lit cell.
spec fn hit_done(s0: CpuView, x0: int, y0: int, n: int, rr: int, cc: int) -> bool {
    exists|idx: int|
        cell_done(x0, y0, n, rr, cc, idx) && draw_bit(s0.memory, s0.i_register as int, x0, y0, idx)
            && s0.frame_buffer[idx]
}

impl CPU {
    /// 0xDXYN: draw the n-row sprite at the index register, anchored at
    /// (VX mod 64, VY mod 32); set source pixels are XOR-composited, rows
    /// and columns past the display edges are clipped, the flag register
    /// reports a collision, and the dirty flag is raised. Sprite rows that
    /// would be read past the end of memory are a fatal fault.
    pub fn draw_sprite(&mut self, register_x: u16, register_y: u16, n: u16)
        requires
            old(self).wf(),
            register_x < 16,
            register_y < 16,
            n < 16,
        ensures
            final(self).wf(),
            final(self)@ == op_draw(old(self)@, register_x as int, register_y as int, n as int),
    {
        if self.i_register as usize + n as usize > self.memory.len() {
            self.enter_fault(Fault::MemoryOutOfBounds);
            return;
        }
        let x0 = (self.registers[register_x as usize] % 64) as usize;
        let y0 = (self.registers[register_y as usize] % 32) as usize;
        self.registers[15] = 0;
        let rows: usize = if (n as usize) < 32 - y0 {
            n as usize
        } else {
            32 - y0
        };
        let cols: usize = if 8 < 64 - x0 {
            8
        } else {
            64 - x0
        };
        let ghost s0 = old(self)@;
        let ghost gx = x0 as int;
        let ghost gy = y0 as int;
        let ghost gn = n as int;
        let ghost gi = s0.i_register as int;
        let mut r: usize = 0;
        while r < rows
            invariant
                wf_view(s0),
                x0 < 64,
                y0 < 32,
                gx == x0,
                gy == y0,
                gn == n,
                gi == s0.i_register,
                gx == s0.registers[register_x as int] % 64,
                gy == s0.registers[register_y as int] % 32,
                gi + gn <= s0.memory.len(),
                rows == (if gn < 32 - gy {
                    gn
                } else {
                    32 - gy
                }),
                cols == (if 8 < 64 - gx {
                    8int
                } else {
                    64 - gx
                }),
                r <= rows,
                self.frame_buffer@.len() == s0.frame_buffer.len(),
                forall|j: int|
                    0 <= j < s0.frame_buffer.len() ==> self.frame_buffer@[j] == (if cell_done(
                        gx,
                        gy,
                        gn,
                        r as int,
                        0,
                        j,
                    ) && draw_bit(s0.memory, gi, gx, gy, j) {
                        !s0.frame_buffer[j]
                    } else {
                        s0.frame_buffer[j]
                    }),
                self.registers@ == s0.registers.update(
                    15,
                    if hit_done(s0, gx, gy, gn, r as int, 0) {
                        1u8
                    } else {
                        0u8
                    },
                ),
                self@ == (CpuView {
                    frame_buffer: self.frame_buffer@,
                    registers: self.registers@,
                    ..s0
                }),
            decreases rows - r,
        {
            let row_byte = self.memory[self.i_register as usize + r];
            let mut c: usize = 0;
            while c < cols
                invariant
                    wf_view(s0),
                    x0 < 64,
                    y0 < 32,
                    gx == x0,
                    gy == y0,
                    gn == n,
                    gi == s0.i_register,
                    gi + gn <= s0.memory.len(),
                    rows == (if gn < 32 - gy {
                        gn
                    } else {
                        32 - gy
                    }),
                    cols == (if 8 < 64 - gx {
                        8int
                    } else {
                        64 - gx
                    }),
                    r < rows,
                    c <= cols,
                    row_byte == s0.memory[gi + r],
                    self.frame_buffer@.len() == s0.frame_buffer.len(),
                    forall|j: int|
                        0 <= j < s0.frame_buffer.len() ==> self.frame_buffer@[j] == (if cell_done(
                            gx,
                            gy,
                            gn,
                            r as int,
                            c as int,
                            j,
                        ) && draw_bit(s0.memory, gi, gx, gy, j) {
                            !s0.frame_buffer[j]
                        } else {
                            s0.frame_buffer[j]
                        }),
                    self.registers@ == s0.registers.update(
                        15,
                        if hit_done(s0, gx, gy, gn, r as int, c as int) {
                            1u8
                        } else {
                            0u8
                        },
                    ),
                    self@ == (CpuView {
                        frame_buffer: self.frame_buffer@,
                        registers: self.registers@,
                        ..s0
                    }),
                decreases cols - c,
            {
                let shift: u8 = (7 - c) as u8;
                let bit: u8 = (row_byte >> shift) & 1;
                let idx = (y0 + r) * 64 + (x0 + c);
                proof {
                    lemma_fundamental_div_mod_converse(
                        idx as int,
                        64,
                        gy + r,
                        gx + c,
                    );
                    assert forall|j: int|
                        cell_done(gx, gy, gn, r as int, (c + 1) as int, j) && !cell_done(
                            gx,
                            gy,
                            gn,
                            r as int,
                            c as int,
                            j,
                        ) implies j == idx by {
                        lemma_fundamental_div_mod(j, 64);
                    }
                    assert(cell_done(gx, gy, gn, r as int, (c + 1) as int, idx as int));
                    assert(!cell_done(gx, gy, gn, r as int, c as int, idx as int));
                    assert(draw_bit(s0.memory, gi, gx, gy, idx as int) == (bit == 1));
                }
                if bit == 1 {
                    if self.frame_buffer[idx] {
                        self.frame_buffer[idx] = false;
                        self.registers[15] = 1;
                        proof {
                            assert(hit_done(s0, gx, gy, gn, r as int, (c + 1) as int)) by {
                                assert(cell_done(gx, gy, gn, r as int, (c + 1) as int, idx as int)
                                    && draw_bit(s0.memory, gi, gx, gy, idx as int)
                                    && s0.frame_buffer[idx as int]);
                            }
                            assert(self.registers@ =~= s0.registers.update(15, 1u8));
                        }
                    } else {
                        self.frame_buffer[idx] = true;
                        proof {
                            assert(hit_done(s0, gx, gy, gn, r as int, (c + 1) as int) == hit_done(
                                s0,
                                gx,
                                gy,
                                gn,
                                r as int,
                                c as int,
                            )) by {
                                if hit_done(s0, gx, gy, gn, r as int, (c + 1) as int) {
                                    let w = choose|j: int|
                                        cell_done(gx, gy, gn, r as int, (c + 1) as int, j)
                                            && draw_bit(s0.memory, gi, gx, gy, j)
                                            && s0.frame_buffer[j];
                                    assert(w != idx);
                                    assert(cell_done(gx, gy, gn, r as int, c as int, w));
                                }
                            }
                        }
                    }
                } else {
                    proof {
                        assert(hit_done(s0, gx, gy, gn, r as int, (c + 1) as int) == hit_done(
                            s0,
                            gx,
                            gy,
                            gn,
                            r as int,
                            c as int,
                        )) by {
                            if hit_done(s0, gx, gy, gn, r as int, (c + 1) as int) {
                                let w = choose|j: int|
                                    cell_done(gx, gy, gn, r as int, (c + 1) as int, j) && draw_bit(
                                        s0.memory,
                                        gi,
                                        gx,
                                        gy,
                                        j,
                                    ) && s0.frame_buffer[j];
                                assert(w != idx);
                                assert(cell_done(gx, gy, gn, r as int, c as int, w));
                            }
                        }
                    }
                }
                c = c + 1;
            }
            proof {
                assert forall|j: int| 0 <= j < s0.frame_buffer.len() implies cell_done(
                    gx,
                    gy,
                    gn,
                    (r + 1) as int,
                    0,
                    j,
                ) == cell_done(gx, gy, gn, r as int, cols as int, j) by {
                    if 0 <= j < 2048 {
                        lemma_fundamental_div_mod(j, 64);
                        lemma_mod_bound(j, 64);
                    }
                }
                assert(hit_done(s0, gx, gy, gn, (r + 1) as int, 0) == hit_done(
                    s0,
                    gx,
                    gy,
                    gn,
                    r as int,
                    cols as int,
                )) by {
                    if hit_done(s0, gx, gy, gn, (r + 1) as int, 0) {
                        let w = choose|j: int|
                            cell_done(gx, gy, gn, (r + 1) as int, 0, j) && draw_bit(
                                s0.memory,
                                gi,
                                gx,
                                gy,
                                j,
                            ) && s0.frame_buffer[j];
                        assert(cell_done(gx, gy, gn, r as int, cols as int, w));
                    }
                    if hit_done(s0, gx, gy, gn, r as int, cols as int) {
                        let w = choose|j: int|
                            cell_done(gx, gy, gn, r as int, cols as int, j) && draw_bit(
                                s0.memory,
                                gi,
                                gx,
                                gy,
                                j,
                            ) && s0.frame_buffer[j];
                        assert(cell_done(gx, gy, gn, (r + 1) as int, 0, w));
                    }
                }
            }
            r = r + 1;
        }
        self.redraw = true;
        proof {
            assert forall|j: int| 0 <= j < s0.frame_buffer.len() implies cell_done(
                gx,
                gy,
                gn,
                rows as int,
                0,
                j,
            ) == draw_region(gx, gy, gn, j) by {
                if 0 <= j < 2048 {
                    lemma_fundamental_div_mod(j, 64);
                    lemma_mod_bound(j, 64);
                }
            }
            assert(hit_done(s0, gx, gy, gn, rows as int, 0) == draw_collision(s0, gx, gy, gn)) by {
                if hit_done(s0, gx, gy, gn, rows as int, 0) {
                    let w = choose|j: int|
                        cell_done(gx, gy, gn, rows as int, 0, j) && draw_bit(
                            s0.memory,
                            gi,
                            gx,
                            gy,
                            j,
                        ) && s0.frame_buffer[j];
                    assert(draw_region(gx, gy, gn, w) && draw_bit(s0.memory, gi, gx, gy, w)
                        && s0.frame_buffer[w]);
                }
                if draw_collision(s0, gx, gy, gn) {
                    let w = choose|j: int|
                        draw_region(gx, gy, gn, j) && draw_bit(s0.memory, gi, gx, gy, j)
                            && s0.frame_buffer[j];
                    assert(cell_done(gx, gy, gn, rows as int, 0, w) && draw_bit(
                        s0.memory,
                        gi,
                        gx,
                        gy,
                        w,
                    ) && s0.frame_buffer[w]);
                }
            }
            assert(self.frame_buffer@ =~= draw_frame_buffer(s0, gx, gy, gn));
            assert(self@ =~= op_draw(s0, register_x as int, register_y as int, n as int));
        }
    }
}

/// Relies on rand::random: draws one byte from the thread-local generator.
/// Nothing can be promised of its value.
#[verifier::external_body]
fn random_byte() -> u8 {
    rand::random()
}

/// Composing four nibbles into a word inverts the nibble extractions that
/// `exec_word` performs.
proof fn lemma_word_compose(na: u16, nb: u16, nc: u16, nd: u16)
    requires
        na < 16,
        nb < 16,
        nc < 16,
        nd < 16,
    ensures
        ({
            let w = na * 0x1000 + nb * 0x100 + nc * 16 + nd;
            &&& w as int / 0x1000 == na
            &&& (w as int / 0x100) % 16 == nb
            &&& (w as int / 16) % 16 == nc
            &&& w as int % 16 == nd
            &&& w as int % 0x1000 == nb * 0x100 + nc * 16 + nd
            &&& w as int % 0x100 == nc * 16 + nd
        }),
{
    let w = (na * 0x1000 + nb * 0x100 + nc * 16 + nd) as int;
    lemma_fundamental_div_mod_converse(w, 0x1000, na as int, (nb * 0x100 + nc * 16 + nd) as int);
    lemma_fundamental_div_mod_converse(w, 0x100, (na * 16 + nb) as int, (nc * 16 + nd) as int);
    lemma_fundamental_div_mod_converse(w, 16, (na * 0x100 + nb * 16 + nc) as int, nd as int);
    lemma_fundamental_div_mod_converse((na * 16 + nb) as int, 16, na as int, nb as int);
    lemma_fundamental_div_mod_converse(
        (na * 0x100 + nb * 16 + nc) as int,
        16,
        (na * 16 + nb) as int,
        nc as int,
    );
}

/// Every word is the composition of its four nibbles, each below 16.
proof fn lemma_word_nibbles(w: u16)
    ensures
        ({
            let na = w as int / 0x1000;
            let nb = (w as int / 0x100) % 16;
            let nc = (w as int / 16) % 16;
            let nd = w as int % 16;
            &&& 0 <= na < 16
            &&& 0 <= nb < 16
            &&& 0 <= nc < 16
            &&& 0 <= nd < 16
            &&& w == na * 0x1000 + nb * 0x100 + nc * 16 + nd
        }),
{
    let x = w as int;
    lemma_fundamental_div_mod(x, 16);
    lemma_mod_bound(x, 16);
    lemma_fundamental_div_mod(x / 16, 16);
    lemma_mod_bound(x / 16, 16);
    lemma_fundamental_div_mod(x / 0x100, 16);
    lemma_mod_bound(x / 0x100, 16);
    lemma_div_denominator(x, 16, 16);
    lemma_div_denominator(x, 0x100, 16);
}

} // verus!

