//! What holds of the interpreter whatever program it runs: facts about
//! single instructions and about runs of several cycles, each proved from
//! the definition of a cycle.

use vstd::prelude::*;
use vstd::arithmetic::div_mod::lemma_fundamental_div_mod_converse;
use crate::keypad::{
    lemma_first_pressed_is_lowest, lemma_first_pressed_none, lowest_pressed, none_pressed,
};
use crate::machine::{
    fetch, key_down, op_family, op_kk, op_n, op_nnn, op_x, op_y, step, tick, ticked, uses_random,
    Machine, Outcome,
};

verus! {

/// What one cycle is given from outside: the keypad as it stands during the
/// cycle and the byte the random source would supply.
pub struct Input {
    pub keys: Seq<bool>,
    pub random: u8,
}

/// The outcome of running one cycle for each input in turn, stopping at the
/// first fault.
pub open spec fn run(m: Machine, screen: Seq<bool>, inputs: Seq<Input>) -> Outcome
    decreases inputs.len(),
{
    if inputs.len() == 0 {
        Outcome { machine: m, screen, result: Ok(()) }
    } else {
        let before = run(m, screen, inputs.drop_last());
        if before.result is Ok {
            step(before.machine, before.screen, inputs.last().keys, inputs.last().random)
        } else {
            before
        }
    }
}

/// Whether an instruction is pending at the program counter of `m` and is
/// the word `word`.
pub open spec fn next_is(m: Machine, word: int) -> bool {
    m.pc + 1 < 4096 && fetch(m) == word
}

/// The word made of the four nibbles `family`, `x`, `y` and `n` decodes
/// into them.
pub proof fn lemma_decode(family: int, x: int, y: int, n: int)
    requires
        0 <= family < 16,
        0 <= x < 16,
        0 <= y < 16,
        0 <= n < 16,
    ensures
        ({
            let word = (family * 0x1000 + x * 0x100 + y * 0x10 + n) as u16;
            &&& word == family * 0x1000 + x * 0x100 + y * 0x10 + n
            &&& op_family(word) == family
            &&& op_x(word) == x
            &&& op_y(word) == y
            &&& op_n(word) == n
            &&& op_kk(word) == y * 0x10 + n
            &&& op_nnn(word) == x * 0x100 + y * 0x10 + n
        }),
{
    let value = family * 0x1000 + x * 0x100 + y * 0x10 + n;
    lemma_fundamental_div_mod_converse(value, 0x1000, family, x * 0x100 + y * 0x10 + n);
    lemma_fundamental_div_mod_converse(value, 0x100, family * 0x10 + x, y * 0x10 + n);
    lemma_fundamental_div_mod_converse(family * 0x10 + x, 16, family, x);
    lemma_fundamental_div_mod_converse(value, 0x10, family * 0x100 + x * 0x10 + y, n);
    lemma_fundamental_div_mod_converse(family * 0x100 + x * 0x10 + y, 16, family * 0x10 + x, y);
}

/// The word made of the nibbles `family` and `x` and the byte `kk` decodes
/// into them.
pub proof fn lemma_decode_byte(family: int, x: int, kk: u8)
    requires
        0 <= family < 16,
        0 <= x < 16,
    ensures
        ({
            let word = (family * 0x1000 + x * 0x100 + kk) as u16;
            &&& word == family * 0x1000 + x * 0x100 + kk
            &&& op_family(word) == family
            &&& op_x(word) == x
            &&& op_y(word) == kk / 16
            &&& op_n(word) == kk % 16
            &&& op_kk(word) == kk
        }),
{
    lemma_decode(family, x, kk as int / 16, kk as int % 16);
}

/// The word made of the nibble `family` and the address `nnn` decodes into
/// them.
pub proof fn lemma_decode_address(family: int, nnn: int)
    requires
        0 <= family < 16,
        0 <= nnn < 0x1000,
    ensures
        ({
            let word = (family * 0x1000 + nnn) as u16;
            &&& word == family * 0x1000 + nnn
            &&& op_family(word) == family
            &&& op_nnn(word) == nnn
        }),
{
    lemma_fundamental_div_mod_converse(family * 0x1000 + nnn, 0x1000, family, nnn);
}

/// A cycle keeps a machine state well-shaped.
pub proof fn lemma_step_preserves_valid(m: Machine, screen: Seq<bool>, keys: Seq<bool>, random: u8)
    requires
        m.valid(),
    ensures
        step(m, screen, keys, random).machine.valid(),
{
}

/// Only `Cxkk` looks at the random byte: any other cycle comes out the
/// same whatever the byte is.
pub proof fn lemma_random_only_for_cxkk(
    m: Machine,
    screen: Seq<bool>,
    keys: Seq<bool>,
    random: u8,
    other: u8,
)
    requires
        !uses_random(m),
    ensures
        step(m, screen, keys, random) == step(m, screen, keys, other),
{
}

/// `6xkk` leaves `kk` in register `x`.
pub proof fn lemma_load_immediate(
    m: Machine,
    screen: Seq<bool>,
    keys: Seq<bool>,
    random: u8,
    x: int,
    kk: u8,
)
    requires
        m.valid(),
        0 <= x < 16,
        next_is(m, 0x6000 + x * 0x100 + kk),
    ensures
        step(m, screen, keys, random).result is Ok,
        step(m, screen, keys, random).machine.registers[x] == kk,
{
    lemma_decode_byte(6, x, kk);
}

/// `7xkk` adds `kk` to register `x`, modulo 256.
pub proof fn lemma_add_immediate(
    m: Machine,
    screen: Seq<bool>,
    keys: Seq<bool>,
    random: u8,
    x: int,
    kk: u8,
)
    requires
        m.valid(),
        0 <= x < 16,
        next_is(m, 0x7000 + x * 0x100 + kk),
    ensures
        step(m, screen, keys, random).result is Ok,
        step(m, screen, keys, random).machine.registers[x] == (m.registers[x] + kk) % 256,
{
    lemma_decode_byte(7, x, kk);
}

/// `8xy4` leaves the sum of registers `x` and `y`, modulo 256, in register
/// `x`, and the carry in register `0xF`. Where `x` is `0xF` the carry is
/// what stays, as it is written last.
pub proof fn lemma_add_registers(
    m: Machine,
    screen: Seq<bool>,
    keys: Seq<bool>,
    random: u8,
    x: int,
    y: int,
)
    requires
        m.valid(),
        0 <= x < 16,
        0 <= y < 16,
        next_is(m, 0x8004 + x * 0x100 + y * 0x10),
    ensures
        step(m, screen, keys, random).result is Ok,
        x != 0xF ==> step(m, screen, keys, random).machine.registers[x] == (m.registers[x]
            + m.registers[y]) % 256,
        step(m, screen, keys, random).machine.registers[0xF] == (if m.registers[x] + m.registers[y]
            > 255 {
            1int
        } else {
            0int
        }),
{
    lemma_decode(8, x, y, 4);
}

/// `00E0` turns every pixel off.
pub proof fn lemma_clear_screen(m: Machine, screen: Seq<bool>, keys: Seq<bool>, random: u8)
    requires
        m.valid(),
        next_is(m, 0x00E0),
    ensures
        step(m, screen, keys, random).result is Ok,
        step(m, screen, keys, random).screen.len() == 2048,
        forall|c: int| 0 <= c < 2048 ==> !step(m, screen, keys, random).screen[c],
{
    lemma_decode(0, 0, 0xE, 0);
}

/// `Fx33` writes the hundreds, tens and units of register `x` to the three
/// bytes at the index register.
pub proof fn lemma_decimal_digits(
    m: Machine,
    screen: Seq<bool>,
    keys: Seq<bool>,
    random: u8,
    x: int,
)
    requires
        m.valid(),
        0 <= x < 16,
        m.index + 2 < 4096,
        next_is(m, 0xF033 + x * 0x100),
    ensures
        ({
            let after = step(m, screen, keys, random);
            let value = m.registers[x];
            let at = m.index as int;
            &&& after.result is Ok
            &&& after.machine.memory[at] == value / 100
            &&& after.machine.memory[at + 1] == (value / 10) % 10
            &&& after.machine.memory[at + 2] == value % 10
            &&& 100 * after.machine.memory[at] + 10 * after.machine.memory[at + 1]
                + after.machine.memory[at + 2] == value
            &&& forall|a: int|
                0 <= a < 4096 && !(at <= a <= at + 2) ==> after.machine.memory[a] == m.memory[a]
        }),
{
    lemma_decode_byte(0xF, x, 0x33);
}

/// A `2nnn` whose target holds a `00EE` comes back: after the two cycles
/// the program counter stands at the instruction after the call, and the
/// stack is as deep as before.
pub proof fn lemma_call_then_return(
    m: Machine,
    screen: Seq<bool>,
    first: Input,
    second: Input,
    nnn: int,
)
    requires
        m.valid(),
        m.sp < 16,
        0 <= nnn < 4095,
        next_is(m, 0x2000 + nnn),
        m.memory[nnn] == 0x00,
        m.memory[nnn + 1] == 0xEE,
    ensures
        ({
            let called = step(m, screen, first.keys, first.random);
            let returned = step(called.machine, called.screen, second.keys, second.random);
            &&& called.result is Ok
            &&& called.machine.pc == nnn
            &&& returned.result is Ok
            &&& returned.machine.pc == m.pc + 2
            &&& returned.machine.sp == m.sp
        }),
{
    let called = step(m, screen, first.keys, first.random);
    lemma_decode_address(2, nnn);
    lemma_decode(0, 0, 0xE, 0xE);
    assert(called.machine.memory == m.memory);
    assert(fetch(called.machine) == 0x00EE);
}

/// `Ex9E` skips exactly when `ExA1` does not. Of two machines that stand at
/// the same place with the same value in register `x`, one about to run
/// `Ex9E` and the other `ExA1`, against the same keypad, exactly one skips
/// the next instruction: the first if the key is down, the second if not.
pub proof fn lemma_key_skips_are_opposite(
    on_down: Machine,
    on_up: Machine,
    screen: Seq<bool>,
    keys: Seq<bool>,
    random: u8,
    x: int,
)
    requires
        on_down.valid(),
        on_up.valid(),
        0 <= x < 16,
        on_down.pc == on_up.pc,
        on_down.registers[x] == on_up.registers[x],
        next_is(on_down, 0xE09E + x * 0x100),
        next_is(on_up, 0xE0A1 + x * 0x100),
    ensures
        ({
            let after_down = step(on_down, screen, keys, random);
            let after_up = step(on_up, screen, keys, random);
            let down = key_down(keys, on_down.registers[x]);
            let skipped_on_down = after_down.machine.pc == on_down.pc + 4;
            let skipped_on_up = after_up.machine.pc == on_up.pc + 4;
            &&& after_down.result is Ok
            &&& after_up.result is Ok
            &&& after_down.machine.pc == on_down.pc + (if down { 4int } else { 2int })
            &&& after_up.machine.pc == on_up.pc + (if down { 2int } else { 4int })
            &&& skipped_on_down <==> !skipped_on_up
        }),
{
    lemma_decode_byte(0xE, x, 0x9E);
    lemma_decode_byte(0xE, x, 0xA1);
}

/// While no key is held down, a machine waiting at an `Fx0A` stays where it
/// is: one cycle changes nothing but the timers.
pub proof fn lemma_wait_for_key_holds(
    m: Machine,
    screen: Seq<bool>,
    keys: Seq<bool>,
    random: u8,
    x: int,
)
    requires
        m.valid(),
        0 <= x < 16,
        next_is(m, 0xF00A + x * 0x100),
        none_pressed(keys),
    ensures
        step(m, screen, keys, random) == (Outcome { machine: tick(m), screen, result: Ok(()) }),
{
    lemma_first_pressed_none(keys);
    lemma_decode_byte(0xF, x, 0x0A);
    let fetched = m.with_pc(m.pc + 2);
    assert(fetched.with_pc((fetched.pc - 2) as nat) == m);
}

/// However many cycles pass with no key held down, a machine waiting at an
/// `Fx0A` keeps its program counter, and the instruction stays pending.
pub proof fn lemma_wait_for_key_holds_on(m: Machine, screen: Seq<bool>, inputs: Seq<Input>, x: int)
    requires
        m.valid(),
        0 <= x < 16,
        next_is(m, 0xF00A + x * 0x100),
        forall|i: int| 0 <= i < inputs.len() ==> none_pressed(#[trigger] inputs[i].keys),
    ensures
        run(m, screen, inputs).result is Ok,
        run(m, screen, inputs).machine.pc == m.pc,
        run(m, screen, inputs).machine.memory == m.memory,
        run(m, screen, inputs).machine.registers == m.registers,
        run(m, screen, inputs).machine.valid(),
        run(m, screen, inputs).screen == screen,
        next_is(run(m, screen, inputs).machine, 0xF00A + x * 0x100),
    decreases inputs.len(),
{
    if inputs.len() > 0 {
        let earlier = inputs.drop_last();
        lemma_wait_for_key_holds_on(m, screen, earlier, x);
        let before = run(m, screen, earlier);
        lemma_wait_for_key_holds(before.machine, before.screen, inputs.last().keys, inputs.last().random, x);
    }
}

/// Once a key is held down, the machine waiting at an `Fx0A` moves on: the
/// program counter advances by two and register `x` holds the lowest key
/// that is down.
pub proof fn lemma_wait_for_key_ends(
    m: Machine,
    screen: Seq<bool>,
    keys: Seq<bool>,
    random: u8,
    x: int,
    key: int,
)
    requires
        m.valid(),
        0 <= x < 16,
        next_is(m, 0xF00A + x * 0x100),
        keys.len() == 16,
        lowest_pressed(keys, key),
    ensures
        step(m, screen, keys, random).result is Ok,
        step(m, screen, keys, random).machine.pc == m.pc + 2,
        step(m, screen, keys, random).machine.registers[x] == key,
{
    lemma_first_pressed_is_lowest(keys, key);
    lemma_decode_byte(0xF, x, 0x0A);
}

/// Whether the instruction pending in `m` is an `Fx15`, which sets the
/// delay timer.
pub open spec fn sets_delay_timer(m: Machine) -> bool {
    m.pc + 1 < 4096 && op_family(fetch(m)) == 0xF && op_kk(fetch(m)) == 0x15
}

/// Whether the instruction pending in `m` is an `Fx18`, which sets the
/// sound timer.
pub open spec fn sets_sound_timer(m: Machine) -> bool {
    m.pc + 1 < 4096 && op_family(fetch(m)) == 0xF && op_kk(fetch(m)) == 0x18
}

/// A timer `cycles` cycles later: it has counted down by one per cycle
/// and stopped at zero.
pub open spec fn counted_down(timer: u8, cycles: nat) -> int {
    if timer >= cycles {
        timer - cycles
    } else {
        0
    }
}

/// A cycle that succeeds and is no `Fx15` counts the delay timer down by
/// one, and a cycle that is no `Fx18` the sound timer; neither goes below
/// zero. A cycle that faults leaves both as they are.
pub proof fn lemma_cycle_counts_timers_down(
    m: Machine,
    screen: Seq<bool>,
    keys: Seq<bool>,
    random: u8,
)
    requires
        m.valid(),
    ensures
        ({
            let after = step(m, screen, keys, random);
            &&& after.result is Ok && !sets_delay_timer(m) ==> after.machine.delay_timer == ticked(
                m.delay_timer,
            )
            &&& after.result is Ok && !sets_sound_timer(m) ==> after.machine.sound_timer == ticked(
                m.sound_timer,
            )
            &&& after.result is Err ==> after.machine.delay_timer == m.delay_timer
                && after.machine.sound_timer == m.sound_timer
        }),
{
}

/// After a run of cycles that all succeed and of which none is an `Fx15`,
/// the delay timer has counted down by one per cycle and stopped at zero.
pub proof fn lemma_delay_timer_counts_down(m: Machine, screen: Seq<bool>, inputs: Seq<Input>)
    requires
        m.valid(),
        run(m, screen, inputs).result is Ok,
        forall|i: int|
            0 <= i < inputs.len() ==> !sets_delay_timer(
                #[trigger] run(m, screen, inputs.take(i)).machine,
            ),
    ensures
        run(m, screen, inputs).machine.valid(),
        run(m, screen, inputs).machine.delay_timer == counted_down(m.delay_timer, inputs.len()),
    decreases inputs.len(),
{
    if inputs.len() > 0 {
        let earlier = inputs.drop_last();
        assert(earlier == inputs.take(inputs.len() - 1));
        assert forall|i: int| 0 <= i < earlier.len() implies !sets_delay_timer(
            #[trigger] run(m, screen, earlier.take(i)).machine,
        ) by {
            assert(earlier.take(i) == inputs.take(i));
        }
        lemma_delay_timer_counts_down(m, screen, earlier);
        let before = run(m, screen, earlier);
        assert(!sets_delay_timer(run(m, screen, inputs.take(inputs.len() - 1)).machine));
        lemma_cycle_counts_timers_down(before.machine, before.screen, inputs.last().keys, inputs.last().random);
    }
}

} // verus!
