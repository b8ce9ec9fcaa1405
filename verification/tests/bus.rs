use mephisto_emu::bus::{is_read_answered, is_write_taken, Strays, MM2};
use mephisto_emu::emu::MM2Emu;
use w65c02s::{System, W65C02S};

fn board() -> MM2 {
    let mut book = [0u8; 0x4000];
    let mut rom = [0u8; 0x8000];
    book[0] = 0x11;
    book[0x3fff] = 0x22;
    rom[0] = 0x33;
    rom[0x7fff] = 0x44;
    MM2::new(book, rom)
}

#[test]
fn ram_starts_as_ones_and_keeps_writes() {
    let mut bus = board();
    assert_eq!(bus.read(0x0000), 0xff);
    assert_eq!(bus.read(0x0fff), 0xff);
    bus.write(0x0123, 0x5a);
    assert_eq!(bus.read(0x0123), 0x5a);
    assert_eq!(bus.read(0x0124), 0xff);
    assert_eq!(bus.ram[0x0123], 0x5a);
}

#[test]
fn roms_are_read_and_not_written() {
    let mut bus = board();
    assert_eq!(bus.read(0x4000), 0x11);
    assert_eq!(bus.read(0x7fff), 0x22);
    assert_eq!(bus.read(0x8000), 0x33);
    assert_eq!(bus.read(0xffff), 0x44);
    bus.write(0x4000, 0x99);
    bus.write(0x8000, 0x99);
    bus.write(0xffff, 0x99);
    assert_eq!(bus.read(0x4000), 0x11);
    assert_eq!(bus.read(0x8000), 0x33);
    assert_eq!(bus.read(0xffff), 0x44);
}

#[test]
fn unmapped_addresses_read_as_ones() {
    let mut bus = board();
    let unmapped =
        [0x1000u16, 0x1007, 0x1008, 0x17ff, 0x1808, 0x2001, 0x2800, 0x3000, 0x3800, 0x3fff];
    for addr in unmapped {
        assert_eq!(bus.read(addr), 0xff, "address {:#x}", addr);
    }
    bus.write(0x1008, 0x12);
    bus.write(0x2000, 0x12);
    bus.write(0x3fff, 0x12);
    assert_eq!(bus.read(0x1008), 0xff);
    assert_eq!(bus.mux(), 0);
    assert_eq!(bus.display_pos(), 3);
}

#[test]
fn column_register_takes_the_lowest_clear_bit() {
    let mut bus = board();
    for k in 0..8u8 {
        bus.write(0x3800, !(1u8 << k));
        assert_eq!(bus.mux(), k as usize);
    }
    bus.write(0x3800, 0b1111_0101);
    assert_eq!(bus.mux(), 1);
    bus.write(0x3800, 0xff);
    assert_eq!(bus.mux(), 1);
    bus.write(0x3800, 0x00);
    assert_eq!(bus.mux(), 0);
}

#[test]
fn display_position_cycles() {
    let mut bus = board();
    assert_eq!(bus.display_pos(), 3);
    let mut seen = Vec::new();
    for v in [0x00u8, 0xff, 0x12, 0x80, 0x7f, 0x01, 0x55, 0xaa, 0x33] {
        bus.write(0x2800, v);
        seen.push(bus.display_pos());
    }
    assert_eq!(seen, vec![2, 1, 0, 3, 2, 1, 0, 3, 2]);
}

#[test]
fn display_latches_with_the_strobe_s_polarity() {
    let mut bus = board();
    bus.request_ack();
    assert!(!bus.acked());
    bus.write(0x2800, 0x0f);
    assert!(bus.acked());
    assert_eq!(bus.display(), [0, 0, 0, 0xf0]);
    bus.write(0x1007, 0x80);
    bus.write(0x2800, 0x0f);
    assert_eq!(bus.display(), [0, 0, 0x0f, 0xf0]);
    bus.write(0x1007, 0x7f);
    bus.write(0x2800, 0x01);
    bus.write(0x2800, 0x02);
    assert_eq!(bus.display(), [0xfd, 0xfe, 0x0f, 0xf0]);
    bus.rearm_display();
    assert_eq!(bus.display_pos(), 3);
}

#[test]
fn output_latch_takes_the_top_bit() {
    let mut bus = board();
    assert!(!bus.tone_on());
    bus.write(0x1006, 0x80);
    assert!(bus.tone_on());
    bus.write(0x1006, 0x7f);
    assert!(!bus.tone_on());
    bus.write(0x1006, 0xff);
    assert!(bus.tone_on());
    bus.write(0x1005, 0x00);
    assert!(bus.tone_on());
}

#[test]
fn keypad_reads_the_selected_row() {
    let mut bus = board();
    for col in 0..8u16 {
        assert_eq!(bus.read(0x1800 + col), 0xff);
    }
    bus.set_key(3, true);
    bus.set_key(13, true);
    assert!(bus.key_is_down(3));
    assert_eq!(bus.read(0x1803), 0x7f);
    assert_eq!(bus.read(0x1805), 0xff);
    bus.write(0x1007, 0x80);
    assert_eq!(bus.read(0x1803), 0xff);
    assert_eq!(bus.read(0x1805), 0x7f);
    bus.set_key(13, false);
    assert_eq!(bus.read(0x1805), 0xff);
}

#[test]
fn sensors_are_read_by_row() {
    let mut bus = board();
    bus.set_sensors([1, 2, 3, 4, 5, 6, 7, 8]);
    for r in 0..8u8 {
        bus.write(0x3800, !(1u8 << r));
        assert_eq!(bus.read(0x2000), r + 1);
    }
    assert_eq!(bus.sensors(), [1, 2, 3, 4, 5, 6, 7, 8]);
}

#[test]
fn a_toggle_flips_one_sensor_and_twice_restores() {
    let mut bus = board();
    bus.set_sensors([0, 0, 0xff, 0xff, 0xff, 0xff, 0, 0]);
    bus.toggle_sensor(12);
    assert_eq!(bus.sensors(), [0, 0x10, 0xff, 0xff, 0xff, 0xff, 0, 0]);
    bus.toggle_sensor(28);
    assert_eq!(bus.sensors(), [0, 0x10, 0xff, 0xef, 0xff, 0xff, 0, 0]);
    bus.toggle_sensor(28);
    bus.toggle_sensor(12);
    assert_eq!(bus.sensors(), [0, 0, 0xff, 0xff, 0xff, 0xff, 0, 0]);
    for sq in 0..64u8 {
        let before = bus.sensors();
        bus.toggle_sensor(sq);
        assert_ne!(bus.sensors(), before);
        bus.toggle_sensor(sq);
        assert_eq!(bus.sensors(), before);
    }
}

#[test]
fn led_writes_point_at_a_square() {
    let mut bus = board();
    assert_eq!(bus.led_square(), 0);
    bus.write(0x3800, !(1u8 << 3));
    bus.write(0x3000, 0b0001_0000);
    assert_eq!(bus.led_square(), 28);
    bus.write(0x3000, 0);
    assert_eq!(bus.led_square(), 28);
    bus.write(0x3800, !(1u8 << 7));
    bus.write(0x3000, 0b1100_0000);
    assert_eq!(bus.led_square(), 62);
}

#[test]
fn addresses_with_nothing_behind_them() {
    for addr in [0x0000u16, 0x0fff, 0x1800, 0x1807, 0x2000, 0x4000, 0x7fff, 0x8000, 0xffff] {
        assert!(is_read_answered(addr), "address {:#x}", addr);
    }
    for addr in [0x1000u16, 0x1007, 0x17ff, 0x1808, 0x1fff, 0x2001, 0x2800, 0x3000, 0x3800, 0x3fff]
    {
        assert!(!is_read_answered(addr), "address {:#x}", addr);
    }
    for addr in [0x0000u16, 0x0fff, 0x1000, 0x1007, 0x2800, 0x3000, 0x3800] {
        assert!(is_write_taken(addr), "address {:#x}", addr);
    }
    for addr in [0x1008u16, 0x1800, 0x2000, 0x2801, 0x3001, 0x3801, 0x4000, 0x8000, 0xffff] {
        assert!(!is_write_taken(addr), "address {:#x}", addr);
    }
}

#[test]
fn stray_reads_and_writes_are_taken_down() {
    let mut bus = board();
    let mut cpu = W65C02S::new();
    let nothing = Strays { reads: 0, writes: 0, last_read: None, last_write: None };
    assert_eq!(bus.strays(), nothing);
    assert_eq!(System::read(&mut bus, &mut cpu, 0x0123), 0xff);
    assert_eq!(System::read(&mut bus, &mut cpu, 0x8000), 0x33);
    System::write(&mut bus, &mut cpu, 0x0123, 0x5a);
    System::write(&mut bus, &mut cpu, 0x3800, 0xfe);
    assert_eq!(bus.strays(), nothing);
    assert_eq!(System::read(&mut bus, &mut cpu, 0x1000), 0xff);
    assert_eq!(
        bus.strays(),
        Strays { reads: 1, writes: 0, last_read: Some(0x1000), last_write: None }
    );
    assert_eq!(System::read(&mut bus, &mut cpu, 0x3fff), 0xff);
    System::write(&mut bus, &mut cpu, 0x2000, 0x12);
    assert_eq!(
        bus.strays(),
        Strays { reads: 2, writes: 1, last_read: Some(0x3fff), last_write: Some((0x2000, 0x12)) }
    );
    bus.write(0x8000, 0x99);
    bus.note_read(0x2800);
    bus.note_read(0x0000);
    assert_eq!(
        bus.strays(),
        Strays { reads: 3, writes: 2, last_read: Some(0x2800), last_write: Some((0x8000, 0x99)) }
    );
    assert_eq!(bus.read(0x1000), 0xff);
    bus.set_key(3, true);
    bus.toggle_sensor(12);
    bus.set_sensors([0; 8]);
    bus.request_ack();
    bus.rearm_display();
    assert_eq!(bus.strays().reads, 3);
    assert_eq!(bus.strays().writes, 2);
    assert_eq!(bus.read(0x0123), 0x5a);
    assert_eq!(bus.mux(), 0);
}

#[test]
fn the_processor_s_stray_accesses_are_taken_down() {
    let code = [
        0x58u8, // 8000 CLI
        0x4c, 0x08, 0x80, // 8001 JMP $8008
        0x8d, 0x00, 0x28, // 8004 STA $2800
        0x40, // 8007 RTI
        0xad, 0x00, 0x30, // 8008 LDA $3000
        0x8d, 0x00, 0x20, // 800b STA $2000
        0x8d, 0x00, 0x02, // 800e STA $0200
        0x4c, 0x11, 0x80, // 8011 JMP $8011
    ];
    let mut rom = [0xeau8; 0x8000];
    rom[..code.len()].copy_from_slice(&code);
    rom[0x7ffa] = 0x03;
    rom[0x7ffb] = 0x80;
    rom[0x7ffc] = 0x00;
    rom[0x7ffd] = 0x80;
    rom[0x7ffe] = 0x04;
    rom[0x7fff] = 0x80;
    let mut emu = MM2Emu::new([0u8; 0x4000], rom);
    assert_eq!(emu.system.strays().reads, 0);
    emu.init();
    assert_eq!(
        emu.system.strays(),
        Strays { reads: 1, writes: 1, last_read: Some(0x3000), last_write: Some((0x2000, 0xff)) }
    );
    assert_eq!(emu.system.ram[0x200], 0xff);
    assert!(!emu.gave_up());
    emu.wait_1sec();
    assert_eq!(emu.system.strays().reads, 1);
    assert_eq!(emu.system.strays().writes, 1);
}

#[test]
fn an_interrupt_that_is_not_answered_is_waited_for() {
    let code = [
        0x58u8, // 8000 CLI
        0x4c, 0x01, 0x80, // 8001 JMP $8001
        0x8d, 0x00, 0x28, // 8004 STA $2800
        0x40, // 8007 RTI
    ];
    let mut rom = [0xeau8; 0x8000];
    rom[..code.len()].copy_from_slice(&code);
    rom[0x7ffa] = 0x03;
    rom[0x7ffb] = 0x80;
    rom[0x7ffc] = 0x00;
    rom[0x7ffd] = 0x80;
    rom[0x7ffe] = 0x04;
    rom[0x7fff] = 0x80;
    let mut emu = MM2Emu::new([0u8; 0x4000], rom);
    assert!(emu.system.acked());
    assert!(!emu.gave_up());
    emu.init();
    assert!(emu.system.acked());
    assert!(!emu.gave_up());
    assert_eq!(emu.interrupt_count(), 500);
}
