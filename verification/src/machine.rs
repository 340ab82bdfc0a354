//! The mathematical model of the interpreter: the state of the machine as
//! plain values, and the effect of one fetch-decode-execute cycle on it.
//!
//! A cycle is defined on every state. Besides an unknown and an unsupported
//! instruction it knows three more faults, for what has no meaning on this
//! machine: an instruction or operand that lies beyond the 4096 bytes of
//! memory, a call with all sixteen stack slots in use, and a return with
//! none in use. A key number above fifteen names no key, so such a key is
//! never down.

use vstd::prelude::*;
use crate::display::{collides, drawn};
use crate::keypad::first_pressed;

verus! {

/// Size of the address space in bytes.
pub const MEMORY_SIZE: usize = 4096;

/// Address at which a loaded program starts.
pub const PROGRAM_START: usize = 0x200;

/// The built-in glyphs for the hexadecimal digits, five bytes each. Every
/// byte is one row of a glyph; its high four bits are the pixels.
pub const FONTSET: [u8; 80] = [
    0xF0, 0x90, 0x90, 0x90, 0xF0,
    0x20, 0x60, 0x20, 0x20, 0x70,
    0xF0, 0x10, 0xF0, 0x80, 0xF0,
    0xF0, 0x10, 0xF0, 0x10, 0xF0,
    0x90, 0x90, 0xF0, 0x10, 0x10,
    0xF0, 0x80, 0xF0, 0x10, 0xF0,
    0xF0, 0x80, 0xF0, 0x90, 0xF0,
    0xF0, 0x10, 0x20, 0x40, 0x40,
    0xF0, 0x90, 0xF0, 0x90, 0xF0,
    0xF0, 0x90, 0xF0, 0x10, 0xF0,
    0xF0, 0x90, 0xF0, 0x90, 0x90,
    0xE0, 0x90, 0xE0, 0x90, 0xE0,
    0xF0, 0x80, 0x80, 0x80, 0xF0,
    0xE0, 0x90, 0x90, 0x90, 0xE0,
    0xF0, 0x80, 0xF0, 0x80, 0xF0,
    0xF0, 0x80, 0xF0, 0x80, 0x80,
];

/// Why a cycle could not be carried out.
#[derive(Clone, Copy, Debug, PartialEq, Eq, Structural)]
pub enum RuntimeFault {
    /// The instruction is a call into native machine code (`0nnn`), which
    /// is recognised but not emulated.
    UnsupportedFeature,
    /// The instruction word matches no known pattern.
    UnknownOpcode(u16),
    /// A call was made with all sixteen stack slots in use.
    StackOverflow,
    /// A return was made with no call outstanding.
    StackUnderflow,
    /// The instruction, or the data it names, lies beyond the end of memory.
    AddressOutOfRange,
}

/// The state of the interpreter as plain values.
pub struct Machine {
    /// The 4096 bytes of memory.
    pub memory: Seq<u8>,
    /// The sixteen slots of the call stack.
    pub stack: Seq<nat>,
    /// Number of return addresses on the stack.
    pub sp: nat,
    /// The sixteen general-purpose registers; register `0xF` receives flags.
    pub registers: Seq<u8>,
    /// The index register.
    pub index: nat,
    /// The program counter.
    pub pc: nat,
    /// The delay timer.
    pub delay_timer: u8,
    /// The sound timer.
    pub sound_timer: u8,
}

/// What one cycle leaves behind: the machine, the framebuffer, and whether
/// the cycle was carried out.
pub struct Outcome {
    pub machine: Machine,
    pub screen: Seq<bool>,
    pub result: Result<(), RuntimeFault>,
}

impl Machine {
    /// The shape every machine state has: the three arrays have their fixed
    /// sizes, the stack pointer is at most sixteen and the index register
    /// holds a twelve-bit address.
    pub open spec fn valid(self) -> bool {
        &&& self.memory.len() == 4096
        &&& self.stack.len() == 16
        &&& self.registers.len() == 16
        &&& self.sp <= 16
        &&& self.index <= 0xFFF
    }

    /// This machine with register `x` holding `value`.
    pub open spec fn with_register(self, x: int, value: u8) -> Machine {
        Machine { registers: self.registers.update(x, value), ..self }
    }

    /// This machine with the program counter at `pc`.
    pub open spec fn with_pc(self, pc: nat) -> Machine {
        Machine { pc, ..self }
    }

    /// This machine with the program counter moved past the next
    /// instruction when `condition` holds.
    pub open spec fn skip_if(self, condition: bool) -> Machine {
        if condition {
            self.with_pc(self.pc + 2)
        } else {
            self
        }
    }
}

/// Memory as a program load leaves it: the glyphs at the bottom, the
/// program from `0x200` on, cut off at the end of memory, zero elsewhere.
pub open spec fn loaded_memory(rom: Seq<u8>) -> Seq<u8> {
    Seq::new(
        4096,
        |a: int|
            if a < 80 {
                FONTSET[a]
            } else if 0x200 <= a < 0x200 + rom.len() {
                rom[a - 0x200]
            } else {
                0u8
            },
    )
}

/// The machine right after `rom` has been loaded.
pub open spec fn initial_machine(rom: Seq<u8>) -> Machine {
    Machine {
        memory: loaded_memory(rom),
        stack: Seq::new(16, |i: int| 0nat),
        sp: 0,
        registers: Seq::new(16, |i: int| 0u8),
        index: 0,
        pc: 0x200,
        delay_timer: 0,
        sound_timer: 0,
    }
}

/// The instruction word at the program counter, most significant byte first.
pub open spec fn fetch(m: Machine) -> u16 {
    (m.memory[m.pc as int] * 256 + m.memory[m.pc as int + 1]) as u16
}

/// First nibble of an instruction word: the instruction family.
pub open spec fn op_family(word: u16) -> int {
    word as int / 0x1000
}

/// Second nibble of an instruction word: the register operand `x`.
pub open spec fn op_x(word: u16) -> int {
    (word as int / 0x100) % 16
}

/// Third nibble of an instruction word: the register operand `y`.
pub open spec fn op_y(word: u16) -> int {
    (word as int / 0x10) % 16
}

/// Last nibble of an instruction word.
pub open spec fn op_n(word: u16) -> int {
    word as int % 16
}

/// Low byte of an instruction word: the immediate operand `kk`.
pub open spec fn op_kk(word: u16) -> u8 {
    (word as int % 0x100) as u8
}

/// Low twelve bits of an instruction word: the address operand `nnn`.
pub open spec fn op_nnn(word: u16) -> nat {
    (word as int % 0x1000) as nat
}

/// Whether key number `key` exists and is held down.
pub open spec fn key_down(keys: Seq<bool>, key: u8) -> bool {
    key < 16 && keys[key as int]
}

/// A timer one cycle later: one less, and zero stays zero.
pub open spec fn ticked(timer: u8) -> u8 {
    if timer > 0 {
        (timer - 1) as u8
    } else {
        0
    }
}

/// The machine after both timers have counted down by one.
pub open spec fn tick(m: Machine) -> Machine {
    Machine { delay_timer: ticked(m.delay_timer), sound_timer: ticked(m.sound_timer), ..m }
}

/// The register-to-register family `8xyn`. Operations that produce a carry,
/// a borrow or a shifted-out bit store the result in register `x` and then,
/// as their last effect, the flag in register `0xF`.
pub open spec fn execute_alu(m: Machine, word: u16) -> Result<Machine, RuntimeFault> {
    let x = op_x(word);
    let n = op_n(word);
    let vx = m.registers[x];
    let vy = m.registers[op_y(word)];
    if n == 0 {
        Ok(m.with_register(x, vy))
    } else if n == 1 {
        Ok(m.with_register(x, vx | vy))
    } else if n == 2 {
        Ok(m.with_register(x, vx & vy))
    } else if n == 3 {
        Ok(m.with_register(x, vx ^ vy))
    } else if n == 4 {
        Ok(m.with_register(x, ((vx + vy) % 256) as u8).with_register(0xF, if vx + vy > 255 { 1u8 } else { 0u8 }))
    } else if n == 5 {
        Ok(m.with_register(x, ((vx - vy) % 256) as u8).with_register(0xF, if vx >= vy { 1u8 } else { 0u8 }))
    } else if n == 6 {
        Ok(m.with_register(x, vx / 2).with_register(0xF, vx % 2))
    } else if n == 7 {
        Ok(m.with_register(x, ((vy - vx) % 256) as u8).with_register(0xF, if vy >= vx { 1u8 } else { 0u8 }))
    } else if n == 0xE {
        Ok(m.with_register(x, ((vx * 2) % 256) as u8).with_register(0xF, vx / 128))
    } else {
        Err(RuntimeFault::UnknownOpcode(word))
    }
}

/// Memory with the decimal digits of `value` stored at `at`, `at + 1` and
/// `at + 2`: hundreds, tens, units.
pub open spec fn with_digits(memory: Seq<u8>, at: int, value: u8) -> Seq<u8> {
    memory.update(at, value / 100).update(at + 1, (value / 10) % 10).update(at + 2, value % 10)
}

/// Memory with registers `0` to `last` copied to `at` and the bytes after it.
pub open spec fn with_registers_stored(memory: Seq<u8>, registers: Seq<u8>, at: int, last: int) -> Seq<u8> {
    Seq::new(memory.len(), |a: int| if at <= a <= at + last { registers[a - at] } else { memory[a] })
}

/// Registers with `0` to `last` loaded from `at` and the bytes after it.
pub open spec fn with_registers_loaded(registers: Seq<u8>, memory: Seq<u8>, at: int, last: int) -> Seq<u8> {
    Seq::new(registers.len(), |i: int| if i <= last { memory[at + i] } else { registers[i] })
}

/// The family `Fxkk`: timers, the wait for a key, and the index register.
pub open spec fn execute_misc(m: Machine, keys: Seq<bool>, word: u16) -> Result<Machine, RuntimeFault> {
    let x = op_x(word);
    let kk = op_kk(word);
    let vx = m.registers[x];
    if kk == 0x07 {
        Ok(m.with_register(x, m.delay_timer))
    } else if kk == 0x0A {
        match first_pressed(keys) {
            Some(key) => Ok(m.with_register(x, key as u8)),
            None => Ok(m.with_pc((m.pc - 2) as nat)),
        }
    } else if kk == 0x15 {
        Ok(Machine { delay_timer: vx, ..m })
    } else if kk == 0x18 {
        Ok(Machine { sound_timer: vx, ..m })
    } else if kk == 0x1E {
        if m.index + vx > 0xFFF {
            Ok(Machine { index: (m.index + vx - 0xFFF) as nat, ..m.with_register(0xF, 1) })
        } else {
            Ok(Machine { index: m.index + vx as nat, ..m.with_register(0xF, 0) })
        }
    } else if kk == 0x29 {
        Ok(Machine { index: vx as nat * 5, ..m })
    } else if kk == 0x33 {
        if m.index + 2 >= 4096 {
            Err(RuntimeFault::AddressOutOfRange)
        } else {
            Ok(Machine { memory: with_digits(m.memory, m.index as int, vx), ..m })
        }
    } else if kk == 0x55 {
        if m.index + x >= 4096 {
            Err(RuntimeFault::AddressOutOfRange)
        } else {
            Ok(Machine { memory: with_registers_stored(m.memory, m.registers, m.index as int, x), ..m })
        }
    } else if kk == 0x65 {
        if m.index + x >= 4096 {
            Err(RuntimeFault::AddressOutOfRange)
        } else {
            Ok(Machine { registers: with_registers_loaded(m.registers, m.memory, m.index as int, x), ..m })
        }
    } else {
        Err(RuntimeFault::UnknownOpcode(word))
    }
}

/// The effect of the instruction `word` on a machine whose program counter
/// has already moved past it, and on the framebuffer. `random` is the byte
/// that the random source supplies to `Cxkk`.
pub open spec fn execute(
    m: Machine,
    screen: Seq<bool>,
    keys: Seq<bool>,
    random: u8,
    word: u16,
) -> Result<(Machine, Seq<bool>), RuntimeFault> {
    let family = op_family(word);
    let x = op_x(word);
    let n = op_n(word);
    let kk = op_kk(word);
    let nnn = op_nnn(word);
    let vx = m.registers[x];
    let vy = m.registers[op_y(word)];
    if word == 0x00EE {
        if m.sp == 0 {
            Err(RuntimeFault::StackUnderflow)
        } else {
            Ok((Machine { sp: (m.sp - 1) as nat, pc: m.stack[m.sp - 1], ..m }, screen))
        }
    } else if word == 0x00E0 {
        Ok((m, Seq::new(2048, |c: int| false)))
    } else if family == 0 {
        Err(RuntimeFault::UnsupportedFeature)
    } else if family == 1 {
        Ok((m.with_pc(nnn), screen))
    } else if family == 2 {
        if m.sp >= 16 {
            Err(RuntimeFault::StackOverflow)
        } else {
            Ok((Machine { stack: m.stack.update(m.sp as int, m.pc), sp: m.sp + 1, pc: nnn, ..m }, screen))
        }
    } else if family == 3 {
        Ok((m.skip_if(vx == kk), screen))
    } else if family == 4 {
        Ok((m.skip_if(vx != kk), screen))
    } else if family == 5 && n == 0 {
        Ok((m.skip_if(vx == vy), screen))
    } else if family == 6 {
        Ok((m.with_register(x, kk), screen))
    } else if family == 7 {
        Ok((m.with_register(x, ((vx + kk) % 256) as u8), screen))
    } else if family == 8 {
        match execute_alu(m, word) {
            Ok(after) => Ok((after, screen)),
            Err(fault) => Err(fault),
        }
    } else if family == 9 && n == 0 {
        Ok((m.skip_if(vx != vy), screen))
    } else if family == 0xA {
        Ok((Machine { index: nnn, ..m }, screen))
    } else if family == 0xB {
        Ok((m.with_pc(m.registers[0] as nat + nnn), screen))
    } else if family == 0xC {
        Ok((m.with_register(x, random & kk), screen))
    } else if family == 0xD {
        if m.index + n > 4096 {
            Err(RuntimeFault::AddressOutOfRange)
        } else {
            let sprite = m.memory.subrange(m.index as int, m.index + n);
            let flag = if collides(screen, vx as int, vy as int, sprite) { 1u8 } else { 0u8 };
            Ok((m.with_register(0xF, flag), drawn(screen, vx as int, vy as int, sprite)))
        }
    } else if family == 0xE && kk == 0x9E {
        Ok((m.skip_if(key_down(keys, vx)), screen))
    } else if family == 0xE && kk == 0xA1 {
        Ok((m.skip_if(!key_down(keys, vx)), screen))
    } else if family == 0xF {
        match execute_misc(m, keys, word) {
            Ok(after) => Ok((after, screen)),
            Err(fault) => Err(fault),
        }
    } else {
        Err(RuntimeFault::UnknownOpcode(word))
    }
}

/// Whether the next cycle of `m` asks the random source for a byte: the
/// instruction at the program counter is a `Cxkk`.
pub open spec fn uses_random(m: Machine) -> bool {
    m.pc + 1 < 4096 && op_family(fetch(m)) == 0xC
}

/// One cycle: fetch the instruction at the program counter, move the
/// program counter past it, carry the instruction out and count the timers
/// down. A cycle that faults leaves everything as it was, except that the
/// program counter stays past an instruction that was fetched.
pub open spec fn step(m: Machine, screen: Seq<bool>, keys: Seq<bool>, random: u8) -> Outcome {
    if m.pc + 1 >= 4096 {
        Outcome { machine: m, screen, result: Err(RuntimeFault::AddressOutOfRange) }
    } else {
        let fetched = m.with_pc(m.pc + 2);
        match execute(fetched, screen, keys, random, fetch(m)) {
            Ok((machine, screen)) => Outcome { machine: tick(machine), screen, result: Ok(()) },
            Err(fault) => Outcome { machine: fetched, screen, result: Err(fault) },
        }
    }
}

} // verus!
