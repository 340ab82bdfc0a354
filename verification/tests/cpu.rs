use chip8::cpu::Cpu;
use chip8::display::{Display, SCREEN_HEIGHT, SCREEN_WIDTH};
use chip8::keypad::Keypad;
use chip8::machine::{RuntimeFault, FONTSET, MEMORY_SIZE, PROGRAM_START};

fn program(words: &[u16]) -> Vec<u8> {
    let mut rom = Vec::new();
    for word in words {
        rom.push((word >> 8) as u8);
        rom.push((word & 0xFF) as u8);
    }
    rom
}

fn run(cpu: &mut Cpu, display: &mut Display, keypad: &Keypad, cycles: usize) {
    for _ in 0..cycles {
        assert_eq!(cpu.run_cycle(display, keypad), Ok(()));
    }
}

fn run_program(words: &[u16]) -> (Cpu, Display) {
    let mut cpu = Cpu::new(&program(words));
    let mut display = Display::new();
    let keypad = Keypad::new();
    run(&mut cpu, &mut display, &keypad, words.len());
    (cpu, display)
}

fn lit_count(display: &Display) -> usize {
    let mut count = 0;
    for y in 0..SCREEN_HEIGHT {
        for x in 0..SCREEN_WIDTH {
            count += display.get_pixel(x, y) as usize;
        }
    }
    count
}

#[test]
fn constants_describe_the_machine() {
    assert_eq!(MEMORY_SIZE, 4096);
    assert_eq!(PROGRAM_START, 0x200);
    assert_eq!(FONTSET.len(), 80);
}

#[test]
fn new_machine_starts_at_the_program() {
    let cpu = Cpu::new(&[0x12, 0x34]);
    assert_eq!(cpu.pc(), 0x200);
    assert_eq!(cpu.sp(), 0);
    assert_eq!(cpu.index(), 0);
    assert_eq!(cpu.delay_timer(), 0);
    assert_eq!(cpu.sound_timer(), 0);
    for x in 0..16 {
        assert_eq!(cpu.register(x), 0);
    }
}

#[test]
fn new_machine_holds_the_glyphs_and_the_program() {
    let rom = [0xAB, 0xCD, 0xEF];
    let cpu = Cpu::new(&rom);
    for address in 0..80 {
        assert_eq!(cpu.memory(address), FONTSET[address]);
    }
    for address in 80..0x200 {
        assert_eq!(cpu.memory(address), 0);
    }
    assert_eq!(cpu.memory(0x200), 0xAB);
    assert_eq!(cpu.memory(0x201), 0xCD);
    assert_eq!(cpu.memory(0x202), 0xEF);
    for address in 0x203..4096 {
        assert_eq!(cpu.memory(address), 0);
    }
}

#[test]
fn glyphs_are_five_rows_each() {
    let cpu = Cpu::new(&[]);
    assert_eq!(
        [cpu.memory(0), cpu.memory(1), cpu.memory(2), cpu.memory(3), cpu.memory(4)],
        [0xF0, 0x90, 0x90, 0x90, 0xF0]
    );
    assert_eq!(
        [cpu.memory(75), cpu.memory(76), cpu.memory(77), cpu.memory(78), cpu.memory(79)],
        [0xF0, 0x80, 0xF0, 0x80, 0x80]
    );
}

#[test]
fn new_machine_takes_a_program_that_fills_memory() {
    let mut rom = vec![0u8; 4096 - 0x200];
    rom[0] = 1;
    rom[4096 - 0x200 - 1] = 2;
    let cpu = Cpu::new(&rom);
    assert_eq!(cpu.memory(0x200), 1);
    assert_eq!(cpu.memory(4095), 2);
}

#[test]
fn new_machine_leaves_out_what_does_not_fit() {
    let mut rom = vec![7u8; 5000];
    rom[4096 - 0x200 - 1] = 9;
    let cpu = Cpu::new(&rom);
    assert_eq!(cpu.memory(0x200), 7);
    assert_eq!(cpu.memory(4095), 9);
    assert_eq!(cpu.memory(0), 0xF0);
    assert_eq!(cpu.memory(0x1FF), 0);
}

#[test]
fn load_immediate_sets_the_register() {
    for x in 0..16u16 {
        for kk in [0u16, 1, 0x7F, 0x80, 0xFF] {
            let (cpu, _) = run_program(&[0x6000 | (x << 8) | kk]);
            assert_eq!(cpu.register(x as usize), kk as u8);
            assert_eq!(cpu.pc(), 0x202);
        }
    }
}

#[test]
fn add_immediate_wraps_modulo_256() {
    let (cpu, _) = run_program(&[0x63F0, 0x7320]);
    assert_eq!(cpu.register(3), 0x10);
    assert_eq!(cpu.register(0xF), 0);
    let (cpu, _) = run_program(&[0x6305, 0x7306]);
    assert_eq!(cpu.register(3), 11);
    let (cpu, _) = run_program(&[0x63FF, 0x73FF]);
    assert_eq!(cpu.register(3), 0xFE);
}

#[test]
fn add_registers_sets_the_carry() {
    let (cpu, _) = run_program(&[0x60C8, 0x6164, 0x8014]);
    assert_eq!(cpu.register(0), 44);
    assert_eq!(cpu.register(0xF), 1);
    let (cpu, _) = run_program(&[0x600A, 0x6114, 0x8014]);
    assert_eq!(cpu.register(0), 30);
    assert_eq!(cpu.register(0xF), 0);
}

#[test]
fn add_registers_at_the_edge_of_the_carry() {
    let (cpu, _) = run_program(&[0x60FF, 0x6100, 0x8014]);
    assert_eq!(cpu.register(0), 255);
    assert_eq!(cpu.register(0xF), 0);
    let (cpu, _) = run_program(&[0x60FF, 0x6101, 0x8014]);
    assert_eq!(cpu.register(0), 0);
    assert_eq!(cpu.register(0xF), 1);
}

#[test]
fn flag_is_written_last_when_the_target_is_the_flag_register() {
    let (cpu, _) = run_program(&[0x6FC8, 0x6164, 0x8F14]);
    assert_eq!(cpu.register(0xF), 1);
    let (cpu, _) = run_program(&[0x6F0A, 0x6114, 0x8F14]);
    assert_eq!(cpu.register(0xF), 0);
    let (cpu, _) = run_program(&[0x6F03, 0x8F06]);
    assert_eq!(cpu.register(0xF), 1);
    let (cpu, _) = run_program(&[0x6F81, 0x8F0E]);
    assert_eq!(cpu.register(0xF), 1);
}

#[test]
fn assign_or_and_xor() {
    let (cpu, _) = run_program(&[0x61AB, 0x8010]);
    assert_eq!(cpu.register(0), 0xAB);
    let (cpu, _) = run_program(&[0x60F0, 0x613C, 0x8011]);
    assert_eq!(cpu.register(0), 0xFC);
    let (cpu, _) = run_program(&[0x60F0, 0x613C, 0x8012]);
    assert_eq!(cpu.register(0), 0x30);
    let (cpu, _) = run_program(&[0x60F0, 0x613C, 0x8013]);
    assert_eq!(cpu.register(0), 0xCC);
    assert_eq!(cpu.register(1), 0x3C);
    assert_eq!(cpu.register(0xF), 0);
}

#[test]
fn subtract_sets_the_flag_when_there_is_no_borrow() {
    let (cpu, _) = run_program(&[0x6032, 0x6114, 0x8015]);
    assert_eq!(cpu.register(0), 30);
    assert_eq!(cpu.register(0xF), 1);
    let (cpu, _) = run_program(&[0x6014, 0x6132, 0x8015]);
    assert_eq!(cpu.register(0), 226);
    assert_eq!(cpu.register(0xF), 0);
    let (cpu, _) = run_program(&[0x6014, 0x6114, 0x8015]);
    assert_eq!(cpu.register(0), 0);
    assert_eq!(cpu.register(0xF), 1);
}

#[test]
fn reverse_subtract_takes_x_from_y() {
    let (cpu, _) = run_program(&[0x6014, 0x6132, 0x8017]);
    assert_eq!(cpu.register(0), 30);
    assert_eq!(cpu.register(0xF), 1);
    let (cpu, _) = run_program(&[0x6032, 0x6114, 0x8017]);
    assert_eq!(cpu.register(0), 226);
    assert_eq!(cpu.register(0xF), 0);
}

#[test]
fn shifts_move_the_lost_bit_into_the_flag() {
    let (cpu, _) = run_program(&[0x6005, 0x8006]);
    assert_eq!(cpu.register(0), 2);
    assert_eq!(cpu.register(0xF), 1);
    let (cpu, _) = run_program(&[0x6004, 0x8006]);
    assert_eq!(cpu.register(0), 2);
    assert_eq!(cpu.register(0xF), 0);
    let (cpu, _) = run_program(&[0x6081, 0x800E]);
    assert_eq!(cpu.register(0), 2);
    assert_eq!(cpu.register(0xF), 1);
    let (cpu, _) = run_program(&[0x6041, 0x800E]);
    assert_eq!(cpu.register(0), 0x82);
    assert_eq!(cpu.register(0xF), 0);
}

#[test]
fn shifts_ignore_register_y() {
    let (cpu, _) = run_program(&[0x6005, 0x61FF, 0x8016]);
    assert_eq!(cpu.register(0), 2);
    assert_eq!(cpu.register(1), 0xFF);
}

#[test]
fn jump_sets_the_program_counter() {
    let (cpu, _) = run_program(&[0x1ABC]);
    assert_eq!(cpu.pc(), 0xABC);
}

#[test]
fn jump_with_offset_adds_register_zero() {
    let (cpu, _) = run_program(&[0x6010, 0xB300]);
    assert_eq!(cpu.pc(), 0x310);
}

#[test]
fn jump_with_offset_is_not_cut_to_twelve_bits() {
    let mut cpu = Cpu::new(&program(&[0x60FF, 0xBFFF]));
    let mut display = Display::new();
    let keypad = Keypad::new();
    run(&mut cpu, &mut display, &keypad, 2);
    assert_eq!(cpu.pc(), 0xFFF + 0xFF);
    assert_eq!(
        cpu.run_cycle(&mut display, &keypad),
        Err(RuntimeFault::AddressOutOfRange)
    );
    assert_eq!(cpu.pc(), 0xFFF + 0xFF);
}

#[test]
fn skips_compare_with_the_immediate() {
    let (cpu, _) = run_program(&[0x6011, 0x3011]);
    assert_eq!(cpu.pc(), 0x206);
    let (cpu, _) = run_program(&[0x6011, 0x3012]);
    assert_eq!(cpu.pc(), 0x204);
    let (cpu, _) = run_program(&[0x6011, 0x4011]);
    assert_eq!(cpu.pc(), 0x204);
    let (cpu, _) = run_program(&[0x6011, 0x4012]);
    assert_eq!(cpu.pc(), 0x206);
}

#[test]
fn skips_compare_two_registers() {
    let (cpu, _) = run_program(&[0x6011, 0x6111, 0x5010]);
    assert_eq!(cpu.pc(), 0x208);
    let (cpu, _) = run_program(&[0x6011, 0x6112, 0x5010]);
    assert_eq!(cpu.pc(), 0x206);
    let (cpu, _) = run_program(&[0x6011, 0x6111, 0x9010]);
    assert_eq!(cpu.pc(), 0x206);
    let (cpu, _) = run_program(&[0x6011, 0x6112, 0x9010]);
    assert_eq!(cpu.pc(), 0x208);
}

#[test]
fn call_then_return_comes_back_behind_the_call() {
    let mut cpu = Cpu::new(&program(&[0x2206, 0x6001, 0x0000, 0x00EE]));
    let mut display = Display::new();
    let keypad = Keypad::new();
    assert_eq!(cpu.run_cycle(&mut display, &keypad), Ok(()));
    assert_eq!(cpu.pc(), 0x206);
    assert_eq!(cpu.sp(), 1);
    assert_eq!(cpu.run_cycle(&mut display, &keypad), Ok(()));
    assert_eq!(cpu.pc(), 0x202);
    assert_eq!(cpu.sp(), 0);
    assert_eq!(cpu.run_cycle(&mut display, &keypad), Ok(()));
    assert_eq!(cpu.register(0), 1);
}

#[test]
fn nested_calls_return_in_reverse_order() {
    let mut cpu = Cpu::new(&program(&[0x2204, 0x1202, 0x2208, 0x00EE, 0x00EE]));
    let mut display = Display::new();
    let keypad = Keypad::new();
    run(&mut cpu, &mut display, &keypad, 2);
    assert_eq!(cpu.pc(), 0x208);
    assert_eq!(cpu.sp(), 2);
    run(&mut cpu, &mut display, &keypad, 1);
    assert_eq!(cpu.pc(), 0x206);
    assert_eq!(cpu.sp(), 1);
    run(&mut cpu, &mut display, &keypad, 1);
    assert_eq!(cpu.pc(), 0x202);
    assert_eq!(cpu.sp(), 0);
}

#[test]
fn sixteen_nested_calls_fit_and_the_next_overflows() {
    let mut cpu = Cpu::new(&program(&[0x2200]));
    let mut display = Display::new();
    let keypad = Keypad::new();
    run(&mut cpu, &mut display, &keypad, 16);
    assert_eq!(cpu.sp(), 16);
    assert_eq!(cpu.pc(), 0x200);
    assert_eq!(
        cpu.run_cycle(&mut display, &keypad),
        Err(RuntimeFault::StackOverflow)
    );
    assert_eq!(cpu.sp(), 16);
    assert_eq!(cpu.pc(), 0x202);
}

#[test]
fn return_with_an_empty_stack_underflows() {
    let mut cpu = Cpu::new(&program(&[0x00EE]));
    let mut display = Display::new();
    let keypad = Keypad::new();
    assert_eq!(
        cpu.run_cycle(&mut display, &keypad),
        Err(RuntimeFault::StackUnderflow)
    );
    assert_eq!(cpu.sp(), 0);
    assert_eq!(cpu.pc(), 0x202);
}

#[test]
fn machine_code_calls_are_unsupported() {
    for word in [0x0000u16, 0x0123, 0x0FFF, 0x00E1, 0x00EF, 0x01E0] {
        let mut cpu = Cpu::new(&program(&[word]));
        let mut display = Display::new();
        let keypad = Keypad::new();
        assert_eq!(
            cpu.run_cycle(&mut display, &keypad),
            Err(RuntimeFault::UnsupportedFeature)
        );
        assert_eq!(cpu.pc(), 0x202);
    }
}

#[test]
fn unknown_words_are_reported_with_the_word() {
    for word in [
        0x5001u16, 0x500F, 0x8008, 0x800D, 0x800F, 0x9001, 0xE000, 0xE09F, 0xE0A0, 0xF000, 0xF008,
        0xF0FF, 0xF034, 0xF056,
    ] {
        let mut cpu = Cpu::new(&program(&[word]));
        let mut display = Display::new();
        let keypad = Keypad::new();
        assert_eq!(
            cpu.run_cycle(&mut display, &keypad),
            Err(RuntimeFault::UnknownOpcode(word))
        );
        assert_eq!(cpu.pc(), 0x202);
    }
}

#[test]
fn a_fault_leaves_registers_and_timers_alone() {
    let mut cpu = Cpu::new(&program(&[0x6005, 0xF015, 0xF018, 0x5001]));
    let mut display = Display::new();
    let keypad = Keypad::new();
    run(&mut cpu, &mut display, &keypad, 3);
    let delay = cpu.delay_timer();
    let sound = cpu.sound_timer();
    assert_eq!(delay, 3);
    assert_eq!(sound, 4);
    assert_eq!(
        cpu.run_cycle(&mut display, &keypad),
        Err(RuntimeFault::UnknownOpcode(0x5001))
    );
    assert_eq!(cpu.delay_timer(), delay);
    assert_eq!(cpu.sound_timer(), sound);
    assert_eq!(cpu.register(0), 5);
    assert_eq!(cpu.pc(), 0x208);
}

#[test]
fn fetch_beyond_memory_faults_and_changes_nothing() {
    let mut cpu = Cpu::new(&program(&[0x1FFF]));
    let mut display = Display::new();
    let keypad = Keypad::new();
    run(&mut cpu, &mut display, &keypad, 1);
    assert_eq!(cpu.pc(), 0xFFF);
    for _ in 0..3 {
        assert_eq!(
            cpu.run_cycle(&mut display, &keypad),
            Err(RuntimeFault::AddressOutOfRange)
        );
        assert_eq!(cpu.pc(), 0xFFF);
    }
}

#[test]
fn last_instruction_of_memory_can_be_fetched() {
    let mut rom = vec![0u8; 4096 - 0x200];
    rom[0] = 0x1F;
    rom[1] = 0xFE;
    rom[4094 - 0x200] = 0x6A;
    rom[4095 - 0x200] = 0x55;
    let mut cpu = Cpu::new(&rom);
    let mut display = Display::new();
    let keypad = Keypad::new();
    run(&mut cpu, &mut display, &keypad, 2);
    assert_eq!(cpu.register(0xA), 0x55);
    assert_eq!(cpu.pc(), 4096);
    assert_eq!(
        cpu.run_cycle(&mut display, &keypad),
        Err(RuntimeFault::AddressOutOfRange)
    );
}

#[test]
fn set_index_takes_the_address() {
    let (cpu, _) = run_program(&[0xAFFF]);
    assert_eq!(cpu.index(), 0xFFF);
    let (cpu, _) = run_program(&[0xA123]);
    assert_eq!(cpu.index(), 0x123);
}

#[test]
fn add_to_index_without_overflow_clears_the_flag() {
    let (cpu, _) = run_program(&[0x6F01, 0x6010, 0xA100, 0xF01E]);
    assert_eq!(cpu.index(), 0x110);
    assert_eq!(cpu.register(0xF), 0);
    let (cpu, _) = run_program(&[0x60FF, 0xAF00, 0xF01E]);
    assert_eq!(cpu.index(), 0xFFF);
    assert_eq!(cpu.register(0xF), 0);
}

#[test]
fn add_to_index_past_twelve_bits_takes_off_0xfff() {
    let (cpu, _) = run_program(&[0x6001, 0xAFFF, 0xF01E]);
    assert_eq!(cpu.index(), 1);
    assert_eq!(cpu.register(0xF), 1);
    let (cpu, _) = run_program(&[0x60FF, 0xAFFF, 0xF01E]);
    assert_eq!(cpu.index(), 0xFF);
    assert_eq!(cpu.register(0xF), 1);
}

#[test]
fn glyph_address_is_five_times_the_digit() {
    let (cpu, _) = run_program(&[0x600A, 0xF029]);
    assert_eq!(cpu.index(), 50);
    let (cpu, _) = run_program(&[0x60FF, 0xF029]);
    assert_eq!(cpu.index(), 1275);
}

#[test]
fn decimal_digits_go_to_memory_at_the_index() {
    let (cpu, _) = run_program(&[0x607B, 0xA300, 0xF033]);
    assert_eq!(cpu.memory(0x300), 1);
    assert_eq!(cpu.memory(0x301), 2);
    assert_eq!(cpu.memory(0x302), 3);
    assert_eq!(cpu.memory(0x303), 0);
    assert_eq!(cpu.memory(0x2FF), 0);
    let (cpu, _) = run_program(&[0x60FF, 0xA300, 0xF033]);
    assert_eq!([cpu.memory(0x300), cpu.memory(0x301), cpu.memory(0x302)], [2, 5, 5]);
    let (cpu, _) = run_program(&[0x6007, 0xA300, 0xF033]);
    assert_eq!([cpu.memory(0x300), cpu.memory(0x301), cpu.memory(0x302)], [0, 0, 7]);
}

#[test]
fn decimal_digits_need_three_bytes_of_memory() {
    let (cpu, _) = run_program(&[0x607B, 0xAFFD, 0xF033]);
    assert_eq!([cpu.memory(0xFFD), cpu.memory(0xFFE), cpu.memory(0xFFF)], [1, 2, 3]);
    let mut cpu = Cpu::new(&program(&[0x607B, 0xAFFE, 0xF033]));
    let mut display = Display::new();
    let keypad = Keypad::new();
    run(&mut cpu, &mut display, &keypad, 2);
    assert_eq!(
        cpu.run_cycle(&mut display, &keypad),
        Err(RuntimeFault::AddressOutOfRange)
    );
    assert_eq!(cpu.memory(0xFFE), 0);
    assert_eq!(cpu.memory(0xFFF), 0);
}

#[test]
fn store_copies_registers_zero_to_x() {
    let (cpu, _) = run_program(&[0x6011, 0x6122, 0x6233, 0x6344, 0xA300, 0xF255]);
    assert_eq!(cpu.memory(0x300), 0x11);
    assert_eq!(cpu.memory(0x301), 0x22);
    assert_eq!(cpu.memory(0x302), 0x33);
    assert_eq!(cpu.memory(0x303), 0);
    assert_eq!(cpu.index(), 0x300);
}

#[test]
fn store_of_register_zero_alone() {
    let (cpu, _) = run_program(&[0x6011, 0x6122, 0xA300, 0xF055]);
    assert_eq!(cpu.memory(0x300), 0x11);
    assert_eq!(cpu.memory(0x301), 0);
}

#[test]
fn load_copies_memory_into_registers_zero_to_x() {
    let (cpu, _) = run_program(&[0x63AA, 0xA000, 0xF265]);
    assert_eq!(cpu.register(0), 0xF0);
    assert_eq!(cpu.register(1), 0x90);
    assert_eq!(cpu.register(2), 0x90);
    assert_eq!(cpu.register(3), 0xAA);
    assert_eq!(cpu.index(), 0);
}

#[test]
fn store_then_load_round_trips_all_registers() {
    let mut words = Vec::new();
    for x in 0..16u16 {
        words.push(0x6000 | (x << 8) | (0x10 + x));
    }
    words.push(0xA400);
    words.push(0xFF55);
    for x in 0..16u16 {
        words.push(0x6000 | (x << 8));
    }
    words.push(0xFF65);
    let (cpu, _) = run_program(&words);
    for x in 0..16usize {
        assert_eq!(cpu.register(x), 0x10 + x as u8);
        assert_eq!(cpu.memory(0x400 + x), 0x10 + x as u8);
    }
}

#[test]
fn store_and_load_stop_at_the_end_of_memory() {
    let (cpu, _) = run_program(&[0x6011, 0x6122, 0xAFFE, 0xF155]);
    assert_eq!(cpu.memory(0xFFE), 0x11);
    assert_eq!(cpu.memory(0xFFF), 0x22);
    for word in [0xF255u16, 0xF265] {
        let mut cpu = Cpu::new(&program(&[0x6011, 0xAFFE, word]));
        let mut display = Display::new();
        let keypad = Keypad::new();
        run(&mut cpu, &mut display, &keypad, 2);
        assert_eq!(
            cpu.run_cycle(&mut display, &keypad),
            Err(RuntimeFault::AddressOutOfRange)
        );
        assert_eq!(cpu.memory(0xFFE), 0);
        assert_eq!(cpu.register(0), 0x11);
    }
}

#[test]
fn timers_are_set_from_a_register_and_read_back() {
    let (cpu, _) = run_program(&[0x6009, 0xF015]);
    assert_eq!(cpu.delay_timer(), 8);
    let (cpu, _) = run_program(&[0x6009, 0xF018]);
    assert_eq!(cpu.sound_timer(), 8);
    assert_eq!(cpu.delay_timer(), 0);
    let (cpu, _) = run_program(&[0x6009, 0xF015, 0xF107]);
    assert_eq!(cpu.register(1), 8);
    assert_eq!(cpu.delay_timer(), 7);
}

#[test]
fn delay_timer_counts_down_to_zero_and_stays() {
    let mut cpu = Cpu::new(&program(&[
        0x6006, 0xF015, 0x6100, 0x6100, 0x6100, 0x6100, 0x6100, 0x6100, 0x6100,
    ]));
    let mut display = Display::new();
    let keypad = Keypad::new();
    run(&mut cpu, &mut display, &keypad, 2);
    assert_eq!(cpu.delay_timer(), 5);
    let mut expected = [4u8, 3, 2, 1, 0].iter();
    for _ in 0..5 {
        run(&mut cpu, &mut display, &keypad, 1);
        assert_eq!(Some(&cpu.delay_timer()), expected.next());
    }
    assert_eq!(cpu.delay_timer(), 0);
    run(&mut cpu, &mut display, &keypad, 2);
    assert_eq!(cpu.delay_timer(), 0);
}

#[test]
fn both_timers_count_down_across_jumps_and_skips() {
    let mut cpu = Cpu::new(&program(&[0x6003, 0xF015, 0xF018, 0x3003, 0x0000, 0x1200]));
    let mut display = Display::new();
    let keypad = Keypad::new();
    run(&mut cpu, &mut display, &keypad, 3);
    assert_eq!(cpu.delay_timer(), 1);
    assert_eq!(cpu.sound_timer(), 2);
    run(&mut cpu, &mut display, &keypad, 1);
    assert_eq!(cpu.pc(), 0x20A);
    assert_eq!(cpu.delay_timer(), 0);
    assert_eq!(cpu.sound_timer(), 1);
    run(&mut cpu, &mut display, &keypad, 1);
    assert_eq!(cpu.pc(), 0x200);
    assert_eq!(cpu.delay_timer(), 0);
    assert_eq!(cpu.sound_timer(), 0);
}

#[test]
fn clear_screen_turns_every_pixel_off() {
    let mut cpu = Cpu::new(&program(&[0xA000, 0xD005, 0x00E0]));
    let mut display = Display::new();
    let keypad = Keypad::new();
    run(&mut cpu, &mut display, &keypad, 2);
    assert_eq!(lit_count(&display), 14);
    run(&mut cpu, &mut display, &keypad, 1);
    for y in 0..SCREEN_HEIGHT {
        for x in 0..SCREEN_WIDTH {
            assert_eq!(display.get_pixel(x, y), 0);
        }
    }
    assert_eq!(cpu.pc(), 0x206);
}

#[test]
fn draw_blits_the_bytes_at_the_index() {
    let mut cpu = Cpu::new(&program(&[0x600A, 0x6105, 0xA005, 0xD015]));
    let mut display = Display::new();
    let keypad = Keypad::new();
    run(&mut cpu, &mut display, &keypad, 4);
    let glyph_one = [0x20u8, 0x60, 0x20, 0x20, 0x70];
    for row in 0..5 {
        for column in 0..8 {
            let bit = (glyph_one[row] >> (7 - column)) & 1;
            assert_eq!(display.get_pixel(10 + column, 5 + row), bit);
        }
    }
    assert_eq!(lit_count(&display), 8);
    assert_eq!(cpu.register(0xF), 0);
}

#[test]
fn draw_sets_the_flag_on_collision_and_clears_it_otherwise() {
    let mut cpu = Cpu::new(&program(&[0xA000, 0xD015, 0xD015, 0xD015]));
    let mut display = Display::new();
    let keypad = Keypad::new();
    run(&mut cpu, &mut display, &keypad, 2);
    assert_eq!(cpu.register(0xF), 0);
    run(&mut cpu, &mut display, &keypad, 1);
    assert_eq!(cpu.register(0xF), 1);
    assert_eq!(lit_count(&display), 0);
    run(&mut cpu, &mut display, &keypad, 1);
    assert_eq!(cpu.register(0xF), 0);
    assert_eq!(lit_count(&display), 14);
}

#[test]
fn draw_of_no_rows_draws_nothing_and_clears_the_flag() {
    let mut cpu = Cpu::new(&program(&[0x6F01, 0xAFFF, 0xD000]));
    let mut display = Display::new();
    let keypad = Keypad::new();
    run(&mut cpu, &mut display, &keypad, 3);
    assert_eq!(lit_count(&display), 0);
    assert_eq!(cpu.register(0xF), 0);
}

#[test]
fn draw_wraps_coordinates_from_registers() {
    let mut cpu = Cpu::new(&program(&[0x60FF, 0x61FF, 0xA000, 0xD011]));
    let mut display = Display::new();
    let keypad = Keypad::new();
    run(&mut cpu, &mut display, &keypad, 4);
    assert_eq!(display.get_pixel(63, 31), 1);
    assert_eq!(display.get_pixel(0, 31), 1);
    assert_eq!(display.get_pixel(1, 31), 1);
    assert_eq!(display.get_pixel(2, 31), 1);
    assert_eq!(lit_count(&display), 4);
}

#[test]
fn draw_needs_its_rows_inside_memory() {
    let mut cpu = Cpu::new(&program(&[0xAFF1, 0xD00F]));
    let mut display = Display::new();
    let keypad = Keypad::new();
    run(&mut cpu, &mut display, &keypad, 2);
    let mut cpu = Cpu::new(&program(&[0x6F07, 0xAFF2, 0xD00F]));
    run(&mut cpu, &mut display, &keypad, 2);
    assert_eq!(
        cpu.run_cycle(&mut display, &keypad),
        Err(RuntimeFault::AddressOutOfRange)
    );
    assert_eq!(cpu.register(0xF), 7);
    assert_eq!(lit_count(&display), 0);
}

#[test]
fn key_skips_are_opposite() {
    for key in 0..16u16 {
        for pressed in [false, true] {
            let mut keypad = Keypad::new();
            if pressed {
                keypad.press(key as usize);
            }
            let mut display = Display::new();
            let mut if_down = Cpu::new(&program(&[0x6300 | key, 0xE39E]));
            run(&mut if_down, &mut display, &keypad, 2);
            let mut if_up = Cpu::new(&program(&[0x6300 | key, 0xE3A1]));
            run(&mut if_up, &mut display, &keypad, 2);
            let skipped_if_down = if_down.pc() == 0x206;
            let skipped_if_up = if_up.pc() == 0x206;
            assert_eq!(skipped_if_down, pressed);
            assert_eq!(skipped_if_up, !pressed);
            assert!(if_down.pc() == 0x204 || if_down.pc() == 0x206);
            assert!(if_up.pc() == 0x204 || if_up.pc() == 0x206);
        }
    }
}

#[test]
fn key_skips_look_at_the_key_in_the_register_only() {
    let mut keypad = Keypad::new();
    keypad.press(4);
    let mut display = Display::new();
    let mut cpu = Cpu::new(&program(&[0x6305, 0xE39E]));
    run(&mut cpu, &mut display, &keypad, 2);
    assert_eq!(cpu.pc(), 0x204);
}

#[test]
fn a_key_number_above_fifteen_is_never_down() {
    let mut keypad = Keypad::new();
    for key in 0..16 {
        keypad.press(key);
    }
    let mut display = Display::new();
    for value in [16u16, 17, 0x80, 0xFF] {
        let mut cpu = Cpu::new(&program(&[0x6300 | value, 0xE39E]));
        run(&mut cpu, &mut display, &keypad, 2);
        assert_eq!(cpu.pc(), 0x204);
        let mut cpu = Cpu::new(&program(&[0x6300 | value, 0xE3A1]));
        run(&mut cpu, &mut display, &keypad, 2);
        assert_eq!(cpu.pc(), 0x206);
    }
}

#[test]
fn wait_for_key_holds_the_program_counter_until_a_key_is_down() {
    let mut cpu = Cpu::new(&program(&[0x65AA, 0xF50A, 0x6601]));
    let mut display = Display::new();
    let mut keypad = Keypad::new();
    run(&mut cpu, &mut display, &keypad, 1);
    assert_eq!(cpu.pc(), 0x202);
    for _ in 0..10 {
        run(&mut cpu, &mut display, &keypad, 1);
        assert_eq!(cpu.pc(), 0x202);
        assert_eq!(cpu.register(5), 0xAA);
    }
    keypad.press(7);
    run(&mut cpu, &mut display, &keypad, 1);
    assert_eq!(cpu.pc(), 0x204);
    assert_eq!(cpu.register(5), 7);
    run(&mut cpu, &mut display, &keypad, 1);
    assert_eq!(cpu.register(6), 1);
}

#[test]
fn wait_for_key_takes_the_lowest_key_that_is_down() {
    let mut cpu = Cpu::new(&program(&[0xF00A]));
    let mut display = Display::new();
    let mut keypad = Keypad::new();
    keypad.press(0xC);
    keypad.press(0x3);
    keypad.press(0xF);
    run(&mut cpu, &mut display, &keypad, 1);
    assert_eq!(cpu.register(0), 3);
    assert_eq!(cpu.pc(), 0x202);
}

#[test]
fn wait_for_key_lets_the_timers_run() {
    let mut cpu = Cpu::new(&program(&[0x6005, 0xF015, 0xF10A]));
    let mut display = Display::new();
    let keypad = Keypad::new();
    run(&mut cpu, &mut display, &keypad, 2);
    assert_eq!(cpu.delay_timer(), 4);
    run(&mut cpu, &mut display, &keypad, 3);
    assert_eq!(cpu.delay_timer(), 1);
    assert_eq!(cpu.pc(), 0x204);
}

#[test]
fn random_is_masked_by_the_immediate() {
    let mut cpu = Cpu::new(&program(&[0x63FF, 0xC300, 0xC40F, 0xC5F0]));
    let mut display = Display::new();
    let keypad = Keypad::new();
    run(&mut cpu, &mut display, &keypad, 4);
    assert_eq!(cpu.register(3), 0);
    assert_eq!(cpu.register(4) & 0xF0, 0);
    assert_eq!(cpu.register(5) & 0x0F, 0);
    assert_eq!(cpu.pc(), 0x208);
}

#[test]
fn random_bytes_vary() {
    let mut words = Vec::new();
    for _ in 0..64 {
        words.push(0xC0FF);
        words.push(0x8104);
        words.push(0x8201);
    }
    let mut cpu = Cpu::new(&program(&words));
    let mut display = Display::new();
    let keypad = Keypad::new();
    let mut seen = [false; 256];
    for _ in 0..64 {
        run(&mut cpu, &mut display, &keypad, 1);
        seen[cpu.register(0) as usize] = true;
        run(&mut cpu, &mut display, &keypad, 2);
    }
    let distinct = seen.iter().filter(|&&s| s).count();
    assert!(distinct > 1);
}

#[test]
fn given_random_byte_is_the_one_used() {
    let mut cpu = Cpu::new(&program(&[0xC0FF, 0xC13C, 0x6200]));
    let mut display = Display::new();
    let keypad = Keypad::new();
    assert_eq!(cpu.run_cycle_with(&mut display, &keypad, 0xAB), Ok(()));
    assert_eq!(cpu.register(0), 0xAB);
    assert_eq!(cpu.run_cycle_with(&mut display, &keypad, 0xAB), Ok(()));
    assert_eq!(cpu.register(1), 0xAB & 0x3C);
    assert_eq!(cpu.run_cycle_with(&mut display, &keypad, 0xAB), Ok(()));
    assert_eq!(cpu.register(2), 0);
}

#[test]
fn other_instructions_ignore_the_random_byte() {
    let words = [0x6005, 0x7003, 0xA123, 0xF01E, 0xD005, 0x2210, 0x0000, 0x0000, 0x00EE];
    let mut first = Cpu::new(&program(&words));
    let mut second = Cpu::new(&program(&words));
    let mut first_display = Display::new();
    let mut second_display = Display::new();
    let keypad = Keypad::new();
    for _ in 0..7 {
        assert_eq!(first.run_cycle_with(&mut first_display, &keypad, 0x00), Ok(()));
        assert_eq!(second.run_cycle_with(&mut second_display, &keypad, 0xFF), Ok(()));
        assert_eq!(first.pc(), second.pc());
        assert_eq!(first.sp(), second.sp());
        assert_eq!(first.index(), second.index());
        for x in 0..16 {
            assert_eq!(first.register(x), second.register(x));
        }
    }
    assert_eq!(lit_count(&first_display), lit_count(&second_display));
    assert_eq!(first.pc(), 0x20C);
}
