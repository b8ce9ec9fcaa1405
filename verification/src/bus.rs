//! The memory-mapped I/O fabric of the board: what the processor reads and
//! writes at each address, and the inputs that the driver sets from outside.
use vstd::prelude::*;
use vstd::std_specs::bits::axiom_u8_trailing_zeros;
use vstd::std_specs::bits::u8_trailing_zeros;
use w65c02s::System;
use w65c02s::W65C02S;

verus! {

pub const RAM_SIZE: usize = 0x1000;

pub const BOOK_SIZE: usize = 0x4000;

pub const ROM_SIZE: usize = 0x8000;

/// First address of the opening book.
pub const BOOK_BASE: u16 = 0x4000;

/// First address of the program ROM.
pub const ROM_BASE: u16 = 0x8000;

/// First of the eight addresses of the output latch.
pub const LATCH_BASE: u16 = 0x1000;

/// First of the eight addresses at which the keypad columns are read.
pub const KEYPAD_BASE: u16 = 0x1800;

/// Where the sensor row selected by the column register is read.
pub const SENSOR_PORT: u16 = 0x2000;

/// Where a write acknowledges the interrupt and latches one display digit.
pub const DISPLAY_PORT: u16 = 0x2800;

/// Where a write lights the board LEDs of the selected row.
pub const LED_PORT: u16 = 0x3000;

/// Where a write selects the row that sensors and LEDs refer to.
pub const MUX_PORT: u16 = 0x3800;

/// Output-latch bit that gates the tone.
pub const LATCH_TONE: usize = 6;

/// Output-latch bit that sets display polarity and selects the keypad row.
pub const LATCH_STROBE: usize = 7;

/// The sensor rows after the sensor under `sq` has changed.
pub open spec fn toggled_row(sensors: Seq<u8>, sq: u8) -> Seq<u8> {
    sensors.update(sq as int / 8, sensors[sq as int / 8] ^ (1u8 << (sq % 8)))
}

/// Whether the sensor under `sq` reports a man.
pub open spec fn sensed(sensors: Seq<u8>, sq: u8) -> bool {
    (sensors[sq as int / 8] >> (sq % 8)) & 1 == 1
}

/// The state of the fabric as mathematics.
#[verifier::ext_equal]
pub struct BusView {
    pub ram: Seq<u8>,
    pub book: Seq<u8>,
    pub rom: Seq<u8>,
    /// One byte per rank, the first rank first; bit `f` of byte `r` is what
    /// the sensor under the square on file `f` of rank `r` reports.
    pub sensors: Seq<u8>,
    /// The sixteen keys, the first row of eight before the second.
    pub keys: Seq<bool>,
    pub outlatch: Seq<bool>,
    pub mux: int,
    pub display: Seq<u8>,
    pub display_pos: int,
    pub leds: Seq<u8>,
    /// True from the firmware's acknowledge until the next interrupt request.
    pub acked: bool,
    pub led_square: int,
}

impl BusView {
    pub open spec fn wf(self) -> bool {
        &&& self.ram.len() == RAM_SIZE
        &&& self.book.len() == BOOK_SIZE
        &&& self.rom.len() == ROM_SIZE
        &&& self.sensors.len() == 8
        &&& self.keys.len() == 16
        &&& self.outlatch.len() == 8
        &&& 0 <= self.mux < 8
        &&& self.display.len() == 4
        &&& 0 <= self.display_pos < 4
        &&& self.leds.len() == 8
        &&& 0 <= self.led_square < 64
    }

    /// The keypad row that the firmware has selected.
    pub open spec fn key_row(self) -> int {
        if self.outlatch[LATCH_STROBE as int] {
            1
        } else {
            0
        }
    }

    /// The byte that a read of `addr` returns.
    pub open spec fn read(self, addr: u16) -> u8 {
        if addr < 0x1000 {
            self.ram[addr as int]
        } else if KEYPAD_BASE <= addr <= KEYPAD_BASE + 7 {
            if self.keys[self.key_row() * 8 + (addr - KEYPAD_BASE)] {
                0x7f
            } else {
                0xff
            }
        } else if addr == SENSOR_PORT {
            if 0 <= self.mux < 8 {
                self.sensors[self.mux]
            } else {
                0xff
            }
        } else if BOOK_BASE <= addr < ROM_BASE {
            self.book[addr - BOOK_BASE]
        } else if addr >= ROM_BASE {
            self.rom[addr - ROM_BASE]
        } else {
            0xff
        }
    }

    /// The digit that a write of `value` to the display port latches.
    pub open spec fn latched_digit(self, value: u8) -> u8 {
        if self.outlatch[LATCH_STROBE as int] {
            value
        } else {
            !value
        }
    }

    /// The display position after the one now current has been written.
    pub open spec fn next_display_pos(self) -> int {
        if 1 <= self.display_pos <= 3 {
            self.display_pos - 1
        } else {
            3
        }
    }

    /// The display after `digit` has been latched at the current position.
    pub open spec fn latched(self, digit: u8) -> Seq<u8> {
        if 0 <= self.display_pos < 4 {
            self.display.update(self.display_pos, digit)
        } else {
            self.display
        }
    }

    /// The square that the LEDs point at after `value` has been written to
    /// them: in the selected row, the file of the lowest set bit. A byte
    /// without a set bit leaves them where they pointed.
    pub open spec fn pointed(self, value: u8) -> int {
        if value != 0 && 0 <= self.mux < 8 {
            self.mux * 8 + u8_trailing_zeros(value)
        } else {
            self.led_square
        }
    }

    /// The row that a write of `value` to the column register selects: the
    /// position of the lowest clear bit. A byte without a clear bit selects
    /// nothing and leaves the register as it was.
    pub open spec fn selected_row(self, value: u8) -> int {
        if u8_trailing_zeros(!value) < 8 {
            u8_trailing_zeros(!value) as int
        } else {
            self.mux
        }
    }

    /// The fabric after a write of `value` to `addr`.
    pub open spec fn write(self, addr: u16, value: u8) -> BusView {
        if addr < 0x1000 {
            BusView { ram: self.ram.update(addr as int, value), ..self }
        } else if LATCH_BASE <= addr <= LATCH_BASE + 7 {
            BusView {
                outlatch: self.outlatch.update(addr - LATCH_BASE, value & 0x80 != 0),
                ..self
            }
        } else if addr == DISPLAY_PORT {
            BusView {
                acked: true,
                display: self.latched(self.latched_digit(value)),
                display_pos: self.next_display_pos(),
                ..self
            }
        } else if addr == LED_PORT {
            BusView {
                leds: Seq::new(
                    8,
                    |r: int|
                        if r == self.mux {
                            value
                        } else {
                            0u8
                        },
                ),
                led_square: self.pointed(value),
                ..self
            }
        } else if addr == MUX_PORT {
            BusView { mux: self.selected_row(value), ..self }
        } else {
            self
        }
    }

    /// The fabric after a run of writes, the first of `writes` first.
    pub open spec fn write_all(self, writes: Seq<(u16, u8)>) -> BusView
        decreases writes.len(),
    {
        if writes.len() == 0 {
            self
        } else {
            self.write_all(writes.drop_last()).write(writes.last().0, writes.last().1)
        }
    }

    /// Whether `after` may be what the processor leaves behind when it starts
    /// on `self`: it reaches the fabric only by reads, which change nothing,
    /// and writes.
    pub open spec fn runs_to(self, after: BusView) -> bool {
        exists|writes: Seq<(u16, u8)>| after == #[trigger] self.write_all(writes)
    }

    /// What only the driver sets is the same in both: the ROMs, the sensors
    /// and the keypad.
    pub open spec fn same_inputs(self, other: BusView) -> bool {
        &&& self.rom == other.rom
        &&& self.book == other.book
        &&& self.sensors == other.sensors
        &&& self.keys == other.keys
    }

    /// Whether the sensor under square `sq` reports a man.
    pub open spec fn senses(self, sq: u8) -> bool {
        sensed(self.sensors, sq)
    }

    /// The fabric after a man has been lifted from `sq` or put on it: the
    /// sensor under `sq` reports the opposite of what it did.
    pub open spec fn toggled(self, sq: u8) -> BusView {
        BusView { sensors: toggled_row(self.sensors, sq), ..self }
    }

    /// The fabric with key `key` held down or let go.
    pub open spec fn keyed(self, key: u8, down: bool) -> BusView {
        BusView { keys: self.keys.update(key as int, down), ..self }
    }

    /// No key is held down.
    pub open spec fn keys_idle(self) -> bool {
        forall|k: int| 0 <= k < 16 ==> !#[trigger] self.keys[k]
    }
}

/// A toggle changes what the sensor under its square reports, and nothing
/// that any other sensor reports.
pub proof fn lemma_toggle_row(sensors: Seq<u8>, sq: u8, other: u8)
    requires
        sensors.len() == 8,
        sq < 64,
        other < 64,
    ensures
        toggled_row(sensors, sq).len() == 8,
        sensed(toggled_row(sensors, sq), other) == (sensed(sensors, other) != (other == sq)),
{
    if other / 8 == sq / 8 {
        let row = sensors[sq as int / 8];
        let f: u8 = sq % 8;
        let g: u8 = other % 8;
        assert((((row ^ (1u8 << f)) >> g) & 1 == 1) == (((row >> g) & 1 == 1) != (g == f)))
            by (bit_vector)
            requires
                f < 8,
                g < 8,
        ;
    }
}

/// Two toggles of one square leave the sensors as they were.
pub proof fn lemma_toggle_twice(sensors: Seq<u8>, sq: u8)
    requires
        sensors.len() == 8,
        sq < 64,
    ensures
        toggled_row(toggled_row(sensors, sq), sq) == sensors,
{
    let row = sensors[sq as int / 8];
    let f: u8 = sq % 8;
    assert((row ^ (1u8 << f)) ^ (1u8 << f) == row) by (bit_vector);
    assert(toggled_row(toggled_row(sensors, sq), sq) =~= sensors);
}

/// Holding a key down and letting it go leaves the keypad as it was, if the
/// key was up before.
pub proof fn lemma_key_press_restores(s: BusView, key: u8)
    requires
        s.wf(),
        key < 16,
        !s.keys[key as int],
    ensures
        s.keyed(key, true).keyed(key, false) == s,
{
    assert(s.keyed(key, true).keyed(key, false) =~= s);
}

/// A write keeps a well-formed fabric well-formed and changes nothing that
/// only the driver sets.
pub proof fn lemma_write_keeps(s: BusView, addr: u16, value: u8)
    requires
        s.wf(),
    ensures
        s.write(addr, value).wf(),
        s.same_inputs(s.write(addr, value)),
{
    axiom_u8_trailing_zeros(value);
    axiom_u8_trailing_zeros(!value);
}

/// The processor keeps a well-formed fabric well-formed and changes nothing
/// that only the driver sets.
pub proof fn lemma_run_keeps(s: BusView, writes: Seq<(u16, u8)>)
    requires
        s.wf(),
    ensures
        s.write_all(writes).wf(),
        s.same_inputs(s.write_all(writes)),
    decreases writes.len(),
{
    if writes.len() > 0 {
        lemma_run_keeps(s, writes.drop_last());
        lemma_write_keeps(s.write_all(writes.drop_last()), writes.last().0, writes.last().1);
    }
}

/// What the processor may leave behind, with one more write made to it, is
/// again what the processor may leave behind.
pub proof fn lemma_runs_to_write(s: BusView, t: BusView, addr: u16, value: u8)
    requires
        s.runs_to(t),
    ensures
        s.runs_to(t.write(addr, value)),
{
    let writes = choose|writes: Seq<(u16, u8)>| t == #[trigger] s.write_all(writes);
    let more = writes.push((addr, value));
    assert(more.drop_last() =~= writes);
    assert(t.write(addr, value) == s.write_all(more));
}

/// A write of a byte whose only clear bit is bit `k` to the column register
/// selects row `k`.
pub proof fn lemma_one_hot_low_selects(s: BusView, k: u8)
    requires
        k < 8,
    ensures
        s.write(MUX_PORT, !(1u8 << k)).mux == k,
{
    let value: u8 = !(1u8 << k);
    let t = u8_trailing_zeros(!value);
    axiom_u8_trailing_zeros(!value);
    assert(!value != 0) by (bit_vector)
        requires
            value == !(1u8 << k),
            k < 8,
    ;
    let t8 = t as u8;
    assert(t8 == k) by (bit_vector)
        requires
            value == !(1u8 << k),
            k < 8,
            t8 < 8,
            (!value >> t8) & 1u8 == 1u8,
    ;
}

/// Each write to the display port moves the display position one step
/// through 3, 2, 1, 0 and back to 3, whatever is written.
pub proof fn lemma_display_pos_cycles(s: BusView, value: u8)
    requires
        s.wf(),
    ensures
        s.write(DISPLAY_PORT, value).display_pos == (s.display_pos + 3) % 4,
        s.write(DISPLAY_PORT, value).acked,
{
}

/// The display position after `n` writes to the display port is `n` steps
/// on in the round 3, 2, 1, 0, whatever the bytes written.
pub proof fn lemma_display_writes_cycle(s: BusView, writes: Seq<(u16, u8)>)
    requires
        s.wf(),
        forall|i: int| 0 <= i < writes.len() ==> (#[trigger] writes[i]).0 == DISPLAY_PORT,
    ensures
        s.write_all(writes).wf(),
        s.write_all(writes).display_pos == (s.display_pos + 3 * writes.len()) % 4,
    decreases writes.len(),
{
    if writes.len() > 0 {
        let before = writes.drop_last();
        assert forall|i: int| 0 <= i < before.len() implies (#[trigger] before[i]).0
            == DISPLAY_PORT by {
            assert(before[i] == writes[i]);
        }
        lemma_display_writes_cycle(s, before);
        lemma_write_keeps(s.write_all(before), writes.last().0, writes.last().1);
        lemma_display_pos_cycles(s.write_all(before), writes.last().1);
    }
}

/// Whether a read of `addr` is answered by a part of the board.
pub open spec fn answers_read(addr: u16) -> bool {
    addr < 0x1000 || KEYPAD_BASE <= addr <= KEYPAD_BASE + 7 || addr == SENSOR_PORT || addr
        >= BOOK_BASE
}

/// Whether a write to `addr` reaches a part of the board.
pub open spec fn takes_write(addr: u16) -> bool {
    addr < 0x1000 || LATCH_BASE <= addr <= LATCH_BASE + 7 || addr == DISPLAY_PORT || addr
        == LED_PORT || addr == MUX_PORT
}

/// Whether a read of `addr` is answered by a part of the board.
pub fn is_read_answered(addr: u16) -> (r: bool)
    ensures
        r == answers_read(addr),
{
    addr < 0x1000 || (KEYPAD_BASE <= addr && addr <= KEYPAD_BASE + 7) || addr == SENSOR_PORT
        || addr >= BOOK_BASE
}

/// Whether a write to `addr` reaches a part of the board.
pub fn is_write_taken(addr: u16) -> (r: bool)
    ensures
        r == takes_write(addr),
{
    addr < 0x1000 || (LATCH_BASE <= addr && addr <= LATCH_BASE + 7) || addr == DISPLAY_PORT
        || addr == LED_PORT || addr == MUX_PORT
}

/// What a board has seen at the addresses where nothing is: how often it
/// was read and written there, and the last such read and write. The counts
/// stop at the largest number they can hold.
#[derive(Clone, Copy, PartialEq, Eq, Debug)]
pub struct Strays {
    pub reads: u64,
    pub writes: u64,
    pub last_read: Option<u16>,
    pub last_write: Option<(u16, u8)>,
}

/// The count after one more.
pub open spec fn one_more(count: u64) -> u64 {
    if count < u64::MAX {
        (count + 1) as u64
    } else {
        count
    }
}

impl Strays {
    /// The record of a board that has seen nothing of the kind.
    pub open spec fn none() -> Strays {
        Strays { reads: 0, writes: 0, last_read: None, last_write: None }
    }

    /// The record after a read of `addr`.
    pub open spec fn read_at(self, addr: u16) -> Strays {
        if answers_read(addr) {
            self
        } else {
            Strays { reads: one_more(self.reads), last_read: Some(addr), ..self }
        }
    }

    /// The record after a write of `value` to `addr`.
    pub open spec fn written_at(self, addr: u16, value: u8) -> Strays {
        if takes_write(addr) {
            self
        } else {
            Strays { writes: one_more(self.writes), last_write: Some((addr, value)), ..self }
        }
    }
}

/// A read of an address where nothing is returns all ones.
pub proof fn lemma_stray_read(s: BusView, addr: u16)
    requires
        !answers_read(addr),
    ensures
        s.read(addr) == 0xff,
{
}

/// A write to an address where nothing is changes nothing on the board.
pub proof fn lemma_stray_write(s: BusView, addr: u16, value: u8)
    requires
        !takes_write(addr),
    ensures
        s.write(addr, value) == s,
{
}

/// The board as the processor sees it.
pub struct MM2 {
    pub ram: [u8; 0x1000],
    book: [u8; 0x4000],
    rom: [u8; 0x8000],
    cur_bitboard: [u8; 8],
    pressed_keys: [bool; 16],
    outlatch: [bool; 8],
    mux: usize,
    display: [u8; 4],
    display_pos: usize,
    board_leds: [u8; 8],
    irq_done: bool,
    led_square: u8,
    strays: Strays,
}

impl View for MM2 {
    type V = BusView;

    closed spec fn view(&self) -> BusView {
        BusView {
            ram: self.ram@,
            book: self.book@,
            rom: self.rom@,
            sensors: self.cur_bitboard@,
            keys: self.pressed_keys@,
            outlatch: self.outlatch@,
            mux: self.mux as int,
            display: self.display@,
            display_pos: self.display_pos as int,
            leds: self.board_leds@,
            acked: self.irq_done,
            led_square: self.led_square as int,
        }
    }
}

impl MM2 {
    /// What this board has seen at the addresses where nothing is.
    pub closed spec fn strayed(&self) -> Strays {
        self.strays
    }

    /// A board with the given book and program, RAM all ones, no key down,
    /// no square occupied, row 0 selected and the display at its last digit.
    pub fn new(book: [u8; 0x4000], rom: [u8; 0x8000]) -> (bus: MM2)
        ensures
            bus@.wf(),
            bus@.book == book@,
            bus@.rom == rom@,
            bus@.ram == Seq::new(RAM_SIZE as nat, |i: int| 0xffu8),
            bus@.sensors == Seq::new(8, |i: int| 0u8),
            bus@.keys == Seq::new(16, |i: int| false),
            bus@.outlatch == Seq::new(8, |i: int| false),
            bus@.display == Seq::new(4, |i: int| 0u8),
            bus@.leds == Seq::new(8, |i: int| 0u8),
            bus@.mux == 0,
            bus@.display_pos == 3,
            bus@.acked,
            bus@.led_square == 0,
            bus.strayed() == Strays::none(),
    {
        MM2 {
            ram: [0xff;0x1000],
            book,
            rom,
            cur_bitboard: [0;8],
            pressed_keys: [false;16],
            outlatch: [false;8],
            mux: 0,
            display: [0;4],
            display_pos: 3,
            board_leds: [0;8],
            irq_done: true,
            led_square: 0,
            strays: Strays { reads: 0, writes: 0, last_read: None, last_write: None },
        }
    }

    /// The byte that stands at `addr`. Every address reads as some byte;
    /// one where nothing is reads as all ones. Only what the processor
    /// reads is taken down, not what is looked up here.
    pub fn read(&self, addr: u16) -> (value: u8)
        ensures
            value == self@.read(addr),
    {
        if addr < 0x1000 {
            self.ram[addr as usize]
        } else if KEYPAD_BASE <= addr && addr <= KEYPAD_BASE + 7 {
            let row: usize = if self.outlatch[LATCH_STROBE] {
                1
            } else {
                0
            };
            if self.pressed_keys[row * 8 + (addr - KEYPAD_BASE) as usize] {
                0x7f
            } else {
                0xff
            }
        } else if addr == SENSOR_PORT {
            if self.mux < 8 {
                self.cur_bitboard[self.mux]
            } else {
                0xff
            }
        } else if BOOK_BASE <= addr && addr < ROM_BASE {
            self.book[(addr - BOOK_BASE) as usize]
        } else if addr >= ROM_BASE {
            self.rom[(addr - ROM_BASE) as usize]
        } else {
            0xff
        }
    }

    /// Takes down a read of `addr`, if nothing is there.
    pub fn note_read(&mut self, addr: u16)
        ensures
            final(self)@ == old(self)@,
            final(self).strayed() == old(self).strayed().read_at(addr),
    {
        if !is_read_answered(addr) {
            if self.strays.reads < u64::MAX {
                self.strays.reads = self.strays.reads + 1;
            }
            self.strays.last_read = Some(addr);
        }
    }

    /// What a write of `value` to `addr` does. Every address takes a write;
    /// one to an address where nothing is changes nothing on the board and
    /// is taken down.
    pub fn write(&mut self, addr: u16, value: u8)
        ensures
            final(self)@ == old(self)@.write(addr, value),
            final(self).strayed() == old(self).strayed().written_at(addr, value),
    {
        if !is_write_taken(addr) {
            if self.strays.writes < u64::MAX {
                self.strays.writes = self.strays.writes + 1;
            }
            self.strays.last_write = Some((addr, value));
        }
        if addr < 0x1000 {
            self.ram[addr as usize] = value;
        } else if LATCH_BASE <= addr && addr <= LATCH_BASE + 7 {
            self.outlatch[(addr - LATCH_BASE) as usize] = value & 0x80 != 0;
        } else if addr == DISPLAY_PORT {
            self.irq_done = true;
            let digit: u8 = if self.outlatch[LATCH_STROBE] {
                value
            } else {
                !value
            };
            if self.display_pos < 4 {
                self.display[self.display_pos] = digit;
            }
            if 1 <= self.display_pos && self.display_pos <= 3 {
                self.display_pos = self.display_pos - 1;
            } else {
                self.display_pos = 3;
            }
        } else if addr == LED_PORT {
            self.board_leds = [0;8];
            if self.mux < 8 {
                self.board_leds[self.mux] = value;
                if value != 0 {
                    proof {
                        axiom_u8_trailing_zeros(value);
                    }
                    self.led_square = (self.mux * 8) as u8 + value.trailing_zeros() as u8;
                }
            }
        } else if addr == MUX_PORT {
            let row: u32 = (!value).trailing_zeros();
            if row < 8 {
                self.mux = row as usize;
            }
        }
        assert(self@ =~= old(self)@.write(addr, value));
    }
}

impl MM2 {
    /// What this board has seen at the addresses where nothing is.
    pub fn strays(&self) -> (r: Strays)
        ensures
            r == self.strayed(),
    {
        self.strays
    }

    /// Whether the firmware has acknowledged the last interrupt request.
    pub fn acked(&self) -> (r: bool)
        ensures
            r == self@.acked,
    {
        self.irq_done
    }

    /// Whether the tone gate of the output latch is open.
    pub fn tone_on(&self) -> (r: bool)
        ensures
            r == self@.outlatch[LATCH_TONE as int],
    {
        self.outlatch[LATCH_TONE]
    }

    /// The four latched display bytes.
    pub fn display(&self) -> (r: [u8; 4])
        ensures
            r@ == self@.display,
    {
        self.display
    }

    /// The square that the board LEDs last pointed at.
    pub fn led_square(&self) -> (r: u8)
        ensures
            r == self@.led_square,
    {
        self.led_square
    }

    /// The sensor rows, the first rank first.
    pub fn sensors(&self) -> (r: [u8; 8])
        ensures
            r@ == self@.sensors,
    {
        self.cur_bitboard
    }

    /// The row that sensors and LEDs refer to.
    pub fn mux(&self) -> (r: usize)
        ensures
            r == self@.mux,
    {
        self.mux
    }

    /// The display position that the next write to the display port fills.
    pub fn display_pos(&self) -> (r: usize)
        ensures
            r == self@.display_pos,
    {
        self.display_pos
    }

    /// Whether key `key` is held down.
    pub fn key_is_down(&self, key: u8) -> (r: bool)
        requires
            key < 16,
        ensures
            r == self@.keys[key as int],
    {
        self.pressed_keys[key as usize]
    }

    /// Marks the interrupt as requested and not yet acknowledged.
    pub fn request_ack(&mut self)
        ensures
            final(self)@ == (BusView { acked: false, ..old(self)@ }),
            final(self).strayed() == old(self).strayed(),
    {
        self.irq_done = false;
    }

    /// Puts the display position back to the last digit.
    pub fn rearm_display(&mut self)
        ensures
            final(self)@ == (BusView { display_pos: 3, ..old(self)@ }),
            final(self).strayed() == old(self).strayed(),
    {
        self.display_pos = 3;
    }

    /// Holds key `key` down, or lets it go.
    pub fn set_key(&mut self, key: u8, down: bool)
        requires
            key < 16,
        ensures
            final(self)@ == old(self)@.keyed(key, down),
            final(self).strayed() == old(self).strayed(),
    {
        self.pressed_keys[key as usize] = down;
        assert(self@ =~= old(self)@.keyed(key, down));
    }

    /// Lifts a man from `sq`, or puts one there.
    pub fn toggle_sensor(&mut self, sq: u8)
        requires
            sq < 64,
        ensures
            final(self)@ == old(self)@.toggled(sq),
            final(self).strayed() == old(self).strayed(),
    {
        let rank: usize = (sq / 8) as usize;
        self.cur_bitboard[rank] = self.cur_bitboard[rank] ^ (1u8 << (sq % 8));
        assert(self@ =~= old(self)@.toggled(sq));
    }

    /// Sets all the sensors at once, the first rank first.
    pub fn set_sensors(&mut self, rows: [u8; 8])
        ensures
            final(self)@ == (BusView { sensors: rows@, ..old(self)@ }),
            final(self).strayed() == old(self).strayed(),
    {
        self.cur_bitboard = rows;
    }
}

impl System for MM2 {
    /// What the processor reads at `addr`: the byte that the fabric holds
    /// there. A read changes nothing on the board; one of an address where
    /// nothing is returns all ones and is taken down.
    fn read(&mut self, _cpu: &mut W65C02S, addr: u16) -> (value: u8)
        ensures
            value == old(self)@.read(addr),
            final(self)@ == old(self)@,
            final(self).strayed() == old(self).strayed().read_at(addr),
    {
        self.note_read(addr);
        MM2::read(self, addr)
    }

    /// What a write of `value` to `addr` by the processor does to the
    /// board. A write to the display port also takes the interrupt request
    /// off the processor's line.
    fn write(&mut self, cpu: &mut W65C02S, addr: u16, value: u8)
        ensures
            final(self)@ == old(self)@.write(addr, value),
            final(self).strayed() == old(self).strayed().written_at(addr, value),
    {
        if addr == DISPLAY_PORT {
            cpu.set_irq(false);
        }
        MM2::write(self, addr, value)
    }
}

} // verus!
