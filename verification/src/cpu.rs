//! The interpreter: memory, registers, call stack and timers, and the
//! fetch-decode-execute cycle that drives the framebuffer and reads the
//! keypad.

use vstd::prelude::*;
use crate::display::{collides, drawn, Display};
use crate::keypad::Keypad;
use crate::machine::{
    execute, execute_alu, execute_misc, fetch, initial_machine, loaded_memory, op_family, op_kk,
    op_n, op_nnn, op_x, op_y, step, uses_random, with_registers_loaded, with_registers_stored,
    Machine, Outcome, RuntimeFault, FONTSET,
};
use crate::random::{random_byte, thread_rng};

verus! {

/// The interpreter state.
pub struct Cpu {
    memory: [u8; 4096],
    stack: [usize; 16],
    sp: usize,
    registers: [u8; 16],
    index: usize,
    pc: usize,
    delay_timer: u8,
    sound_timer: u8,
}

/// Copies registers `0` to `last` into memory at `at` and the bytes after it.
fn store_registers(memory: &mut [u8; 4096], registers: &[u8; 16], at: usize, last: usize)
    requires
        last < 16,
        at + last < 4096,
    ensures
        final(memory)@ == with_registers_stored(old(memory)@, registers@, at as int, last as int),
    no_unwind
{
    let mut i: usize = 0;
    while i <= last
        invariant
            i <= last + 1,
            last < 16,
            at + last < 4096,
            forall|a: int| at <= a < at + i ==> memory[a] == registers[a - at],
            forall|a: int| 0 <= a < 4096 && !(at <= a < at + i) ==> memory[a] == old(memory)[a],
        decreases last + 1 - i,
    {
        memory[at + i] = registers[i];
        i += 1;
    }
    assert(memory@ =~= with_registers_stored(old(memory)@, registers@, at as int, last as int));
}

/// Copies memory at `at` and the bytes after it into registers `0` to `last`.
fn load_registers(registers: &mut [u8; 16], memory: &[u8; 4096], at: usize, last: usize)
    requires
        last < 16,
        at + last < 4096,
    ensures
        final(registers)@ == with_registers_loaded(old(registers)@, memory@, at as int, last as int),
    no_unwind
{
    let mut i: usize = 0;
    while i <= last
        invariant
            i <= last + 1,
            last < 16,
            at + last < 4096,
            forall|r: int| 0 <= r < i ==> registers[r] == memory[at + r],
            forall|r: int| i <= r < 16 ==> registers[r] == old(registers)[r],
        decreases last + 1 - i,
    {
        registers[i] = memory[at + i];
        i += 1;
    }
    assert(registers@ =~= with_registers_loaded(old(registers)@, memory@, at as int, last as int));
}

impl View for Cpu {
    type V = Machine;

    /// The state as plain values.
    closed spec fn view(&self) -> Machine {
        Machine {
            memory: self.memory@,
            stack: Seq::new(16, |i: int| self.stack[i] as nat),
            sp: self.sp as nat,
            registers: self.registers@,
            index: self.index as nat,
            pc: self.pc as nat,
            delay_timer: self.delay_timer,
            sound_timer: self.sound_timer,
        }
    }
}

impl Cpu {
    /// The stack pointer stays within the stack and the index register
    /// within twelve bits.
    #[verifier::type_invariant]
    closed spec fn well_formed(&self) -> bool {
        self.sp <= 16 && self.index <= 0xFFF
    }

    /// An interpreter with `rom` loaded: the glyphs at the bottom of
    /// memory, the program from `0x200` on, everything else zero, and the
    /// program counter at the start of the program. Bytes of `rom` that do
    /// not fit into memory are left out.
    pub fn new(rom: &[u8]) -> (cpu: Cpu)
        ensures
            cpu@ == initial_machine(rom@),
            cpu@.valid(),
    {
        let mut memory = [0u8; 4096];
        let mut i: usize = 0;
        while i < 80
            invariant
                i <= 80,
                forall|a: int| 0 <= a < i ==> memory[a] == FONTSET[a],
                forall|a: int| i <= a < 4096 ==> memory[a] == 0,
            decreases 80 - i,
        {
            memory[i] = FONTSET[i];
            i += 1;
        }
        let room: usize = 4096 - 0x200;
        let count = if rom.len() < room { rom.len() } else { room };
        let mut k: usize = 0;
        while k < count
            invariant
                k <= count,
                count <= rom.len(),
                count <= 4096 - 0x200,
                forall|a: int| 0 <= a < 80 ==> memory[a] == FONTSET[a],
                forall|a: int| 80 <= a < 0x200 ==> memory[a] == 0,
                forall|a: int| 0x200 <= a < 0x200 + k ==> memory[a] == rom[a - 0x200],
                forall|a: int| 0x200 + k <= a < 4096 ==> memory[a] == 0,
            decreases count - k,
        {
            memory[0x200 + k] = rom[k];
            k += 1;
        }
        let cpu = Cpu {
            memory,
            stack: [0; 16],
            sp: 0,
            registers: [0; 16],
            index: 0,
            pc: 0x200,
            delay_timer: 0,
            sound_timer: 0,
        };
        proof {
            assert(cpu@.memory =~= loaded_memory(rom@));
            assert(cpu@.stack =~= initial_machine(rom@).stack);
            assert(cpu@.registers =~= initial_machine(rom@).registers);
        }
        cpu
    }

    /// The program counter.
    pub fn pc(&self) -> (pc: usize)
        ensures
            pc == self@.pc,
    {
        self.pc
    }

    /// The index register.
    pub fn index(&self) -> (index: usize)
        ensures
            index == self@.index,
    {
        self.index
    }

    /// The number of return addresses on the call stack.
    pub fn sp(&self) -> (sp: usize)
        ensures
            sp == self@.sp,
    {
        self.sp
    }

    /// The value of register `x`.
    pub fn register(&self, x: usize) -> (value: u8)
        requires
            x < 16,
        ensures
            value == self@.registers[x as int],
    {
        self.registers[x]
    }

    /// The byte of memory at `address`.
    pub fn memory(&self, address: usize) -> (byte: u8)
        requires
            address < 4096,
        ensures
            byte == self@.memory[address as int],
    {
        self.memory[address]
    }

    /// The delay timer.
    pub fn delay_timer(&self) -> (timer: u8)
        ensures
            timer == self@.delay_timer,
    {
        self.delay_timer
    }

    /// The sound timer; the host sounds its tone while this is not zero.
    pub fn sound_timer(&self) -> (timer: u8)
        ensures
            timer == self@.sound_timer,
    {
        self.sound_timer
    }

    /// The instruction word at the program counter.
    fn read_opcode(&self) -> (word: u16)
        requires
            self@.pc + 1 < 4096,
        ensures
            word == fetch(self@),
    {
        let high = self.memory[self.pc] as u16;
        let low = self.memory[self.pc + 1] as u16;
        assert((high << 8) | low == high * 256 + low) by (bit_vector)
            requires
                high < 256,
                low < 256,
        ;
        (high << 8) | low
    }

    /// The register-to-register family `8xyn`.
    fn alu(&mut self, word: u16, x: usize, y: usize, n: u16) -> (result: Result<(), RuntimeFault>)
        requires
            x == op_x(word),
            y == op_y(word),
            n == op_n(word),
        ensures
            match execute_alu(old(self)@, word) {
                Ok(after) => result == Ok::<(), RuntimeFault>(()) && final(self)@ == after,
                Err(fault) => result == Err::<(), RuntimeFault>(fault) && final(self)@ == old(self)@,
            },
    {
        proof {
            use_type_invariant(&*self);
        }
        let vx = self.registers[x];
        let vy = self.registers[y];
        if n == 0 {
            self.registers[x] = vy;
        } else if n == 1 {
            self.registers[x] = vx | vy;
        } else if n == 2 {
            self.registers[x] = vx & vy;
        } else if n == 3 {
            self.registers[x] = vx ^ vy;
        } else if n == 4 {
            let carry: u8 = if vy > 255 - vx { 1 } else { 0 };
            self.registers[x] = vx.wrapping_add(vy);
            self.registers[0xF] = carry;
        } else if n == 5 {
            let no_borrow: u8 = if vx >= vy { 1 } else { 0 };
            self.registers[x] = vx.wrapping_sub(vy);
            self.registers[0xF] = no_borrow;
        } else if n == 6 {
            assert(vx >> 1 == vx / 2 && vx & 1 == vx % 2) by (bit_vector);
            self.registers[x] = vx >> 1;
            self.registers[0xF] = vx & 1;
        } else if n == 7 {
            let no_borrow: u8 = if vy >= vx { 1 } else { 0 };
            self.registers[x] = vy.wrapping_sub(vx);
            self.registers[0xF] = no_borrow;
        } else if n == 0xE {
            assert(vx << 1 == (vx * 2) % 256 && (vx & 0x80) >> 7 == vx / 128) by (bit_vector);
            self.registers[x] = vx << 1;
            self.registers[0xF] = (vx & 0x80) >> 7;
        } else {
            return Err(RuntimeFault::UnknownOpcode(word));
        }
        Ok(())
    }

    /// The family `Fxkk`: timers, the wait for a key, and the index register.
    fn misc(&mut self, keypad: &Keypad, word: u16, x: usize, kk: u8) -> (result: Result<
        (),
        RuntimeFault,
    >)
        requires
            x == op_x(word),
            kk == op_kk(word),
            old(self)@.pc >= 2,
        ensures
            match execute_misc(old(self)@, keypad@, word) {
                Ok(after) => result == Ok::<(), RuntimeFault>(()) && final(self)@ == after,
                Err(fault) => result == Err::<(), RuntimeFault>(fault) && final(self)@ == old(self)@,
            },
    {
        proof {
            use_type_invariant(&*self);
        }
        let vx = self.registers[x];
        if kk == 0x07 {
            self.registers[x] = self.delay_timer;
        } else if kk == 0x0A {
            match keypad.which_pressed() {
                Some(key) => {
                    self.registers[x] = key as u8;
                },
                None => {
                    self.pc = self.pc - 2;
                },
            }
        } else if kk == 0x15 {
            self.delay_timer = vx;
        } else if kk == 0x18 {
            self.sound_timer = vx;
        } else if kk == 0x1E {
            let sum = self.index + vx as usize;
            if sum > 0xFFF {
                self.registers[0xF] = 1;
                self.index = sum - 0xFFF;
            } else {
                self.registers[0xF] = 0;
                self.index = sum;
            }
        } else if kk == 0x29 {
            self.index = vx as usize * 5;
        } else if kk == 0x33 {
            if self.index + 2 >= 4096 {
                return Err(RuntimeFault::AddressOutOfRange);
            }
            self.memory[self.index] = vx / 100;
            self.memory[self.index + 1] = (vx / 10) % 10;
            self.memory[self.index + 2] = vx % 10;
        } else if kk == 0x55 {
            if self.index + x >= 4096 {
                return Err(RuntimeFault::AddressOutOfRange);
            }
            store_registers(&mut self.memory, &self.registers, self.index, x);
        } else if kk == 0x65 {
            if self.index + x >= 4096 {
                return Err(RuntimeFault::AddressOutOfRange);
            }
            load_registers(&mut self.registers, &self.memory, self.index, x);
        } else {
            return Err(RuntimeFault::UnknownOpcode(word));
        }
        Ok(())
    }

    /// Stores `value` in register `x`.
    fn set_register(&mut self, x: usize, value: u8)
        requires
            x < 16,
        ensures
            final(self)@ == old(self)@.with_register(x as int, value),
    {
        proof {
            use_type_invariant(&*self);
        }
        self.registers[x] = value;
    }

    /// Points the index register at `address`.
    fn set_index(&mut self, address: usize)
        requires
            address <= 0xFFF,
        ensures
            final(self)@ == (Machine { index: address as nat, ..old(self)@ }),
    {
        proof {
            use_type_invariant(&*self);
        }
        self.index = address;
    }

    /// Moves the program counter to `target`.
    fn jump(&mut self, target: usize)
        ensures
            final(self)@ == old(self)@.with_pc(target as nat),
    {
        proof {
            use_type_invariant(&*self);
        }
        self.pc = target;
    }

    /// Moves the program counter past the next instruction when
    /// `condition` holds.
    fn skip_when(&mut self, condition: bool)
        requires
            old(self)@.pc <= 4096,
        ensures
            final(self)@ == old(self)@.skip_if(condition),
    {
        proof {
            use_type_invariant(&*self);
        }
        if condition {
            self.pc = self.pc + 2;
        }
    }

    /// `2nnn`: pushes the program counter and jumps to `target`.
    fn call(&mut self, target: usize) -> (result: Result<(), RuntimeFault>)
        ensures
            old(self)@.sp >= 16 ==> result == Err::<(), RuntimeFault>(RuntimeFault::StackOverflow)
                && final(self)@ == old(self)@,
            old(self)@.sp < 16 ==> result == Ok::<(), RuntimeFault>(()) && final(self)@ == (Machine {
                stack: old(self)@.stack.update(old(self)@.sp as int, old(self)@.pc),
                sp: old(self)@.sp + 1,
                pc: target as nat,
                ..old(self)@
            }),
    {
        proof {
            use_type_invariant(&*self);
        }
        if self.sp >= 16 {
            return Err(RuntimeFault::StackOverflow);
        }
        self.stack[self.sp] = self.pc;
        self.sp = self.sp + 1;
        self.pc = target;
        assert(self@.stack =~= old(self)@.stack.update(old(self)@.sp as int, old(self)@.pc));
        Ok(())
    }

    /// `00EE`: pops the return address into the program counter.
    fn ret(&mut self) -> (result: Result<(), RuntimeFault>)
        ensures
            old(self)@.sp == 0 ==> result == Err::<(), RuntimeFault>(RuntimeFault::StackUnderflow)
                && final(self)@ == old(self)@,
            old(self)@.sp > 0 ==> result == Ok::<(), RuntimeFault>(()) && final(self)@ == (Machine {
                sp: (old(self)@.sp - 1) as nat,
                pc: old(self)@.stack[old(self)@.sp - 1],
                ..old(self)@
            }),
    {
        proof {
            use_type_invariant(&*self);
        }
        if self.sp == 0 {
            return Err(RuntimeFault::StackUnderflow);
        }
        self.sp = self.sp - 1;
        self.pc = self.stack[self.sp];
        Ok(())
    }

    /// `Dxyn`: draws the `rows` bytes at the index register as a sprite at
    /// `(vx, vy)` and records in register `0xF` whether a lit pixel went off.
    fn draw(&mut self, display: &mut Display, vx: u8, vy: u8, rows: usize) -> (result: Result<
        (),
        RuntimeFault,
    >)
        requires
            rows < 16,
        ensures
            old(self)@.index + rows > 4096 ==> result == Err::<(), RuntimeFault>(
                RuntimeFault::AddressOutOfRange,
            ) && final(self)@ == old(self)@ && final(display)@ == old(display)@,
            old(self)@.index + rows <= 4096 ==> {
                let sprite = old(self)@.memory.subrange(
                    old(self)@.index as int,
                    old(self)@.index + rows,
                );
                &&& result == Ok::<(), RuntimeFault>(())
                &&& final(display)@ == drawn(old(display)@, vx as int, vy as int, sprite)
                &&& final(self)@ == old(self)@.with_register(
                    0xF,
                    if collides(old(display)@, vx as int, vy as int, sprite) {
                        1u8
                    } else {
                        0u8
                    },
                )
            },
    {
        proof {
            use_type_invariant(&*self);
        }
        if self.index + rows > 4096 {
            return Err(RuntimeFault::AddressOutOfRange);
        }
        let collision = display.draw_sprite(
            vx as usize,
            vy as usize,
            &self.memory[self.index..self.index + rows],
        );
        self.registers[0xF] = if collision { 1 } else { 0 };
        Ok(())
    }

    /// Carries out the instruction `word`; the program counter has already
    /// moved past it.
    fn dispatch(&mut self, display: &mut Display, keypad: &Keypad, random: u8, word: u16) -> (result:
        Result<(), RuntimeFault>)
        requires
            2 <= old(self)@.pc <= 4096,
        ensures
            match execute(old(self)@, old(display)@, keypad@, random, word) {
                Ok((machine, screen)) => result == Ok::<(), RuntimeFault>(()) && final(self)@ == machine && final(display)@
                    == screen,
                Err(fault) => result == Err::<(), RuntimeFault>(fault) && final(self)@ == old(self)@
                    && final(display)@ == old(display)@,
            },
    {
        proof {
            keypad.lemma_len();
        }
        let op1 = (word & 0xF000) >> 12;
        let op2 = (word & 0x0F00) >> 8;
        let op3 = (word & 0x00F0) >> 4;
        let op4 = word & 0x000F;
        let x = op2 as usize;
        let y = op3 as usize;
        let last_two = (word & 0x00FF) as u8;
        let last_three = (word & 0x0FFF) as usize;
        assert(op1 == word / 0x1000 && op2 == (word / 0x100) % 16 && op3 == (word / 0x10) % 16 && op4
            == word % 16 && word & 0x00FF == word % 0x100 && word & 0x0FFF == word % 0x1000)
            by (bit_vector)
            requires
                op1 == (word & 0xF000) >> 12,
                op2 == (word & 0x0F00) >> 8,
                op3 == (word & 0x00F0) >> 4,
                op4 == word & 0x000F,
        ;
        assert(op1 == op_family(word) && x == op_x(word) && y == op_y(word) && op4 == op_n(word)
            && last_two == op_kk(word) && last_three == op_nnn(word));
        let vx = self.register(x);
        let vy = self.register(y);
        if word == 0x00EE {
            self.ret()
        } else if word == 0x00E0 {
            display.clear();
            Ok(())
        } else if op1 == 0 {
            Err(RuntimeFault::UnsupportedFeature)
        } else if op1 == 1 {
            self.jump(last_three);
            Ok(())
        } else if op1 == 2 {
            self.call(last_three)
        } else if op1 == 3 {
            self.skip_when(vx == last_two);
            Ok(())
        } else if op1 == 4 {
            self.skip_when(vx != last_two);
            Ok(())
        } else if op1 == 5 && op4 == 0 {
            self.skip_when(vx == vy);
            Ok(())
        } else if op1 == 6 {
            self.set_register(x, last_two);
            Ok(())
        } else if op1 == 7 {
            self.set_register(x, vx.wrapping_add(last_two));
            Ok(())
        } else if op1 == 8 {
            self.alu(word, x, y, op4)
        } else if op1 == 9 && op4 == 0 {
            self.skip_when(vx != vy);
            Ok(())
        } else if op1 == 0xA {
            self.set_index(last_three);
            Ok(())
        } else if op1 == 0xB {
            let base = self.register(0);
            self.jump(base as usize + last_three);
            Ok(())
        } else if op1 == 0xC {
            self.set_register(x, random & last_two);
            Ok(())
        } else if op1 == 0xD {
            self.draw(display, vx, vy, op4 as usize)
        } else if op1 == 0xE && last_two == 0x9E {
            let down = vx < 16 && keypad.is_pressed(vx as usize);
            self.skip_when(down);
            Ok(())
        } else if op1 == 0xE && last_two == 0xA1 {
            let down = vx < 16 && keypad.is_pressed(vx as usize);
            self.skip_when(!down);
            Ok(())
        } else if op1 == 0xF {
            self.misc(keypad, word, x, last_two)
        } else {
            Err(RuntimeFault::UnknownOpcode(word))
        }
    }

    /// Runs one cycle with `random` as the byte that the random source
    /// supplies: fetches the instruction at the program counter, moves the
    /// program counter past it, carries the instruction out against the
    /// framebuffer and the keypad, and counts both timers down.
    ///
    /// A cycle never panics. Where the instruction or its operands lie
    /// beyond the end of memory, a call finds the stack full or a return
    /// finds it empty, the cycle reports a fault, as it does for an unknown
    /// or unsupported instruction.
    pub fn run_cycle_with(&mut self, display: &mut Display, keypad: &Keypad, random: u8) -> (result:
        Result<(), RuntimeFault>)
        ensures
            step(old(self)@, old(display)@, keypad@, random) == (Outcome {
                machine: final(self)@,
                screen: final(display)@,
                result,
            }),
            final(self)@.valid(),
    {
        proof {
            use_type_invariant(&*self);
        }
        if self.pc >= 4095 {
            return Err(RuntimeFault::AddressOutOfRange);
        }
        let word = self.read_opcode();
        self.pc = self.pc + 2;
        let result = self.dispatch(display, keypad, random, word);
        proof {
            use_type_invariant(&*self);
        }
        if result.is_ok() {
            if self.delay_timer > 0 {
                self.delay_timer = self.delay_timer - 1;
            }
            if self.sound_timer > 0 {
                self.sound_timer = self.sound_timer - 1;
            }
        }
        proof {
            use_type_invariant(&*self);
        }
        result
    }

    /// Runs one cycle, drawing the byte for `Cxkk` from the thread's random
    /// generator. The generator is asked only when the instruction at the
    /// program counter is a `Cxkk`; every other cycle runs as
    /// `run_cycle_with` does with any byte.
    pub fn run_cycle(&mut self, display: &mut Display, keypad: &Keypad) -> (result: Result<
        (),
        RuntimeFault,
    >)
        ensures
            exists|random: u8|
                #[trigger] step(old(self)@, old(display)@, keypad@, random) == (Outcome {
                    machine: final(self)@,
                    screen: final(display)@,
                    result,
                }),
            !uses_random(old(self)@) ==> step(old(self)@, old(display)@, keypad@, 0) == (Outcome {
                machine: final(self)@,
                screen: final(display)@,
                result,
            }),
            final(self)@.valid(),
    {
        let mut random: u8 = 0;
        if self.pc < 4095 {
            let word = self.read_opcode();
            assert((word & 0xF000) >> 12 == word / 0x1000) by (bit_vector);
            if (word & 0xF000) >> 12 == 0xC {
                let mut rng = thread_rng();
                random = random_byte(&mut rng);
            }
        }
        self.run_cycle_with(display, keypad, random)
    }
}

} // verus!
