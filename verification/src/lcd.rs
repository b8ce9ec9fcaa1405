//! The four-digit seven-segment display: which glyph each latched byte shows.
use vstd::prelude::*;

verus! {

/// The glyph that stands for a segment pattern no character is drawn with.
pub const BLANK: char = '\u{2610}';

/// Number of digits on the display.
pub const DIGITS: usize = 4;

/// The characters the firmware can draw, each with its segment byte, in the
/// order in which they claim their place in the glyph table: where two
/// characters share a pattern, the later one is the reading that is kept.
pub open spec fn segment_table() -> Seq<(char, u8)> {
    seq![
        (' ', 0b11111111u8),
        ('-', 0b11110111u8),
        ('a', 0b10100000u8),
        ('b', 0b10000011u8),
        ('c', 0b10100111u8),
        ('d', 0b10100001u8),
        ('e', 0b10000100u8),
        ('f', 0b10001110u8),
        ('g', 0b10010000u8),
        ('h', 0b10001011u8),
        ('i', 0b11101111u8),
        ('j', 0b11110011u8),
        ('k', 0b10001010u8),
        ('l', 0b11001111u8),
        ('m', 0b11101011u8),
        ('n', 0b10101011u8),
        ('o', 0b10100011u8),
        ('p', 0b10001100u8),
        ('q', 0b10011000u8),
        ('r', 0b10101111u8),
        ('s', 0b10010010u8),
        ('t', 0b10000111u8),
        ('u', 0b11100011u8),
        ('v', 0b11100011u8),
        ('w', 0b11101011u8),
        ('x', 0b10001001u8),
        ('y', 0b10010001u8),
        ('z', 0b10100100u8),
        ('A', 0b10001000u8),
        ('B', 0b10000011u8),
        ('C', 0b11000110u8),
        ('D', 0b10100001u8),
        ('E', 0b10000110u8),
        ('F', 0b10001110u8),
        ('G', 0b11000010u8),
        ('H', 0b10001001u8),
        ('I', 0b11001111u8),
        ('J', 0b11100001u8),
        ('K', 0b10001010u8),
        ('L', 0b11000111u8),
        ('M', 0b11101010u8),
        ('N', 0b11001000u8),
        ('O', 0b11000000u8),
        ('P', 0b10001100u8),
        ('Q', 0b10010100u8),
        ('R', 0b11001100u8),
        ('S', 0b10010010u8),
        ('T', 0b11001110u8),
        ('U', 0b11000001u8),
        ('V', 0b11000001u8),
        ('W', 0b11010101u8),
        ('Y', 0b10010001u8),
        ('Z', 0b10100100u8),
        ('0', 0b11000000u8),
        ('1', 0b11111001u8),
        ('2', 0b10100100u8),
        ('3', 0b10110000u8),
        ('4', 0b10011001u8),
        ('5', 0b10010010u8),
        ('6', 0b10000010u8),
        ('7', 0b11111000u8),
        ('8', 0b10000000u8),
        ('9', 0b10010000u8),
        (']', 0b11110000u8),
        ('=', 0b11110110u8),
        ('K', 0b10000101u8),
        ('-', 0b10111111u8),
    ]
}

/// Whether a table entry with segment byte `pattern` is drawn by the latched
/// byte `byte`: the byte is the pattern itself, or the pattern with its top
/// bit (the decimal point) cleared.
pub open spec fn draws(pattern: u8, byte: u8) -> bool {
    byte == pattern || byte == pattern & 0x7f
}

/// The glyph that `byte` shows when only the entries of `table` are known:
/// the character of the last entry that draws it, or `BLANK`.
pub open spec fn glyph_in(table: Seq<(char, u8)>, byte: u8) -> char
    decreases table.len(),
{
    if table.len() == 0 {
        BLANK
    } else if draws(table.last().1, byte) {
        table.last().0
    } else {
        glyph_in(table.drop_last(), byte)
    }
}

/// The glyph that a latched display byte shows.
pub open spec fn glyph(byte: u8) -> char {
    glyph_in(segment_table(), byte)
}

/// Whether a latched display byte lights its decimal point.
pub open spec fn decimal_point(byte: u8) -> bool {
    byte & 0x80 == 0
}

/// A glyph other than `BLANK` is the character of some table entry that
/// draws the byte.
pub open spec fn listed(table: Seq<(char, u8)>, byte: u8, c: char) -> bool {
    exists|i: int| 0 <= i < table.len() && #[trigger] table[i].0 == c && draws(table[i].1, byte)
}

/// Every byte decodes: to `BLANK`, or to a character that the segment table
/// lists with a pattern drawing that byte.
pub proof fn lemma_glyph_total(table: Seq<(char, u8)>, byte: u8)
    ensures
        glyph_in(table, byte) == BLANK || listed(table, byte, glyph_in(table, byte)),
    decreases table.len(),
{
    if table.len() == 0 {
    } else if draws(table.last().1, byte) {
        let i = table.len() - 1;
        assert(table[i].0 == glyph_in(table, byte) && draws(table[i].1, byte));
    } else {
        lemma_glyph_total(table.drop_last(), byte);
        let c = glyph_in(table.drop_last(), byte);
        if c != BLANK {
            let i = choose|i: int|
                0 <= i < table.drop_last().len() && #[trigger] table.drop_last()[i].0 == c && draws(
                    table.drop_last()[i].1,
                    byte,
                );
            assert(table[i].0 == c && draws(table[i].1, byte));
        }
    }
}

/// Builds the glyph table: entry `b` is the glyph that the byte `b` shows.
pub fn calc_lcd_map() -> (res: [char; 0x100])
    ensures
        forall|b: u8| #[trigger] res[b as int] == glyph(b),
{
    let mut res: [char; 0x100] = [BLANK;0x100];
    let vals: [(char, u8); 67] = [
        (' ', 0b11111111),
        ('-', 0b11110111),
        ('a', 0b10100000),
        ('b', 0b10000011),
        ('c', 0b10100111),
        ('d', 0b10100001),
        ('e', 0b10000100),
        ('f', 0b10001110),
        ('g', 0b10010000),
        ('h', 0b10001011),
        ('i', 0b11101111),
        ('j', 0b11110011),
        ('k', 0b10001010),
        ('l', 0b11001111),
        ('m', 0b11101011),
        ('n', 0b10101011),
        ('o', 0b10100011),
        ('p', 0b10001100),
        ('q', 0b10011000),
        ('r', 0b10101111),
        ('s', 0b10010010),
        ('t', 0b10000111),
        ('u', 0b11100011),
        ('v', 0b11100011),
        ('w', 0b11101011),
        ('x', 0b10001001),
        ('y', 0b10010001),
        ('z', 0b10100100),
        ('A', 0b10001000),
        ('B', 0b10000011),
        ('C', 0b11000110),
        ('D', 0b10100001),
        ('E', 0b10000110),
        ('F', 0b10001110),
        ('G', 0b11000010),
        ('H', 0b10001001),
        ('I', 0b11001111),
        ('J', 0b11100001),
        ('K', 0b10001010),
        ('L', 0b11000111),
        ('M', 0b11101010),
        ('N', 0b11001000),
        ('O', 0b11000000),
        ('P', 0b10001100),
        ('Q', 0b10010100),
        ('R', 0b11001100),
        ('S', 0b10010010),
        ('T', 0b11001110),
        ('U', 0b11000001),
        ('V', 0b11000001),
        ('W', 0b11010101),
        ('Y', 0b10010001),
        ('Z', 0b10100100),
        ('0', 0b11000000),
        ('1', 0b11111001),
        ('2', 0b10100100),
        ('3', 0b10110000),
        ('4', 0b10011001),
        ('5', 0b10010010),
        ('6', 0b10000010),
        ('7', 0b11111000),
        ('8', 0b10000000),
        ('9', 0b10010000),
        (']', 0b11110000),
        ('=', 0b11110110),
        ('K', 0b10000101),
        ('-', 0b10111111),
    ];
    assert(vals@ =~= segment_table());
    let mut i: usize = 0;
    while i < 67
        invariant
            i <= 67,
            vals@ == segment_table(),
            forall|b: u8| #[trigger] res[b as int] == glyph_in(segment_table().take(i as int), b),
        decreases 67 - i,
    {
        let (c, j) = vals[i];
        let low: u8 = j & 0x7f;
        proof {
            let before = segment_table().take(i as int);
            let after = segment_table().take(i + 1);
            assert(after.last() == (c, j));
            assert(after.drop_last() =~= before);
        }
        res[j as usize] = c;
        res[low as usize] = c;
        i += 1;
    }
    assert(segment_table().take(67) =~= segment_table());
    res
}

/// The glyph table: entry `b` is the glyph that the byte `b` shows.
pub open spec fn glyph_table() -> Seq<char> {
    Seq::new(0x100, |b: int| glyph(b as u8))
}

/// The display decoder: the glyph table, built once.
pub struct LcdMap {
    table: [char; 0x100],
}

impl View for LcdMap {
    type V = Seq<char>;

    /// The table that the decoder reads from.
    closed spec fn view(&self) -> Seq<char> {
        self.table@
    }
}

impl LcdMap {
    #[verifier::type_invariant]
    spec fn holds_glyphs(self) -> bool {
        forall|b: u8| #[trigger] self.table[b as int] == glyph(b)
    }

    /// A decoder that holds the glyph table.
    pub fn new() -> (map: LcdMap)
        ensures
            map@ == glyph_table(),
    {
        let map = LcdMap { table: calc_lcd_map() };
        assert(map@ =~= glyph_table()) by {
            assert forall|i: int| 0 <= i < 0x100 implies map.table@[i] == glyph_table()[i] by {
                assert(map.table[(i as u8) as int] == glyph(i as u8));
            }
        }
        map
    }

    /// The glyph that a latched display byte shows: the blank, or a
    /// character that the segment table lists with a pattern drawing the
    /// byte.
    pub fn decode(&self, byte: u8) -> (c: char)
        ensures
            c == glyph(byte),
            c == BLANK || listed(segment_table(), byte, c),
    {
        proof {
            use_type_invariant(self);
            lemma_glyph_total(segment_table(), byte);
        }
        self.table[byte as usize]
    }
}

} // verus!
