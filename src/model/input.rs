//! Core replay input type.
use vstd::prelude::*;

verus! {

/// Column index held in the low four bits of a packed byte.
pub open spec fn packed_column(packed: u8) -> u8 {
    (packed % 16) as u8
}

/// Press flag held in bit 4 of a packed byte.
pub open spec fn packed_press(packed: u8) -> bool {
    (packed / 16) % 2 == 1
}

/// Auto flag held in bit 5 of a packed byte.
pub open spec fn packed_auto(packed: u8) -> bool {
    (packed / 32) % 2 == 1
}

/// The packed byte for a column (its low four bits), a press flag and an auto flag.
pub open spec fn pack_spec(column: u8, is_press: bool, is_auto: bool) -> u8 {
    ((column % 16) + (if is_press { 16int } else { 0 }) + (if is_auto { 32int } else { 0 })) as u8
}

/// A single user input (press or release).
///
/// Packed byte layout, from bit 7 down to bit 0:
/// two reserved bits (written as zero), auto flag, press flag, four column bits.
#[derive(Debug, Clone, Copy, PartialEq, Eq, Structural)]
pub struct ReplayInput {
    /// Delta in microseconds since the previous input.
    /// For the first input, this is the time since the start of the chart.
    pub delta_us: u64,
    /// Packed data: column (4 bits) | press (1 bit) | auto (1 bit) | reserved (2 bits)
    pub packed: u8,
}

impl ReplayInput {
    /// Column index encoded in this input.
    pub open spec fn spec_column(&self) -> u8 {
        packed_column(self.packed)
    }

    /// Whether this input is a press.
    pub open spec fn spec_is_press(&self) -> bool {
        packed_press(self.packed)
    }

    /// Whether this input was generated automatically.
    pub open spec fn spec_is_auto(&self) -> bool {
        packed_auto(self.packed)
    }

    /// Creates a new input with a delta and the packed column and flags.
    /// The column must fit in four bits.
    pub fn new(delta_us: u64, column: u8, is_press: bool, is_auto: bool) -> (r: Self)
        requires
            column <= 15,
        ensures
            r.delta_us == delta_us,
            r.packed == pack_spec(column, is_press, is_auto),
            r.spec_column() == column,
            r.spec_is_press() == is_press,
            r.spec_is_auto() == is_auto,
    {
        let packed = Self::pack(column, is_press, is_auto);
        proof {
            lemma_unpack_pack(column, is_press, is_auto);
        }
        Self { delta_us, packed }
    }

    /// Encodes column, press and auto flag into a packed byte:
    /// bits 0-3 column, bit 4 press, bit 5 auto, bits 6-7 zero.
    pub fn pack(column: u8, is_press: bool, is_auto: bool) -> (r: u8)
        ensures
            r == pack_spec(column, is_press, is_auto),
            r < 64,
    {
        let p: u8 = if is_press { 1 } else { 0 };
        let a: u8 = if is_auto { 1 } else { 0 };
        let r = (column & 0x0F) | (p << 4u8) | (a << 5u8);
        assert(r == ((column % 16) + 16 * p + 32 * a) as u8 && r < 64) by (bit_vector)
            requires
                p <= 1,
                a <= 1,
                r == (column & 0x0F) | (p << 4u8) | (a << 5u8),
        ;
        r
    }

    /// Decodes the packed byte into (column, is_press, is_auto).
    pub fn unpack(&self) -> (r: (u8, bool, bool))
        ensures
            r == (self.spec_column(), self.spec_is_press(), self.spec_is_auto()),
    {
        (self.column(), self.is_press(), self.is_auto())
    }

    /// Returns the column index (0-15).
    pub fn column(&self) -> (r: u8)
        ensures
            r == self.spec_column(),
            r <= 15,
    {
        let p = self.packed;
        assert(p & 0x0F == p % 16) by (bit_vector);
        p & 0x0F
    }

    /// Checks if this is a press (true) or release (false).
    pub fn is_press(&self) -> (r: bool)
        ensures
            r == self.spec_is_press(),
    {
        let p = self.packed;
        assert((p & 0x10 != 0) == ((p / 16) % 2 == 1)) by (bit_vector);
        (p & 0x10) != 0
    }

    /// Checks if the input is auto-generated.
    pub fn is_auto(&self) -> (r: bool)
        ensures
            r == self.spec_is_auto(),
    {
        let p = self.packed;
        assert((p & 0x20 != 0) == ((p / 32) % 2 == 1)) by (bit_vector);
        (p & 0x20) != 0
    }
}

/// Unpacking a packed byte gives back the column, press flag and auto flag
/// it was packed from, for every column of four bits and every pair of flags.
pub proof fn lemma_unpack_pack(column: u8, is_press: bool, is_auto: bool)
    requires
        column <= 15,
    ensures
        packed_column(pack_spec(column, is_press, is_auto)) == column,
        packed_press(pack_spec(column, is_press, is_auto)) == is_press,
        packed_auto(pack_spec(column, is_press, is_auto)) == is_auto,
        pack_spec(column, is_press, is_auto) < 64,
{
}

} // verus!
