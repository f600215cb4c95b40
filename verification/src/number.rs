//! Real numbers, carried by their IEEE 754 double precision encoding.
//!
//! The library decides what is done with a number, never what comes out of a
//! sum or a product, so all it needs to read off one is whether it is finite
//! and whether it is positive. Both are in the encoding.

use vstd::prelude::*;

verus! {

/// A double precision number: bit 63 is the sign, bits 52 to 62 the exponent,
/// the rest the fraction.
#[derive(Clone, Copy, Debug, PartialEq, Eq, Structural)]
pub struct Number {
    pub bits: u64,
}

impl Number {
    /// The eleven exponent bits.
    pub open spec fn exponent(self) -> int {
        (self.bits as int / 0x10_0000_0000_0000) % 0x800
    }

    /// All ones in the exponent is what infinities and NaNs have.
    pub open spec fn finite(self) -> bool {
        self.exponent() != 0x7ff
    }

    /// Greater than zero, and neither infinite nor a NaN: a clear sign, and
    /// not all of the other bits zero.
    pub open spec fn positive(self) -> bool {
        &&& self.finite()
        &&& self.bits < 0x8000_0000_0000_0000
        &&& self.bits != 0
    }

    /// Neither infinite nor a NaN.
    pub fn is_finite(self) -> (finite: bool)
        ensures
            finite == self.finite(),
    {
        (self.bits / 0x10_0000_0000_0000) % 0x800 != 0x7ff
    }

    /// A finite number greater than zero.
    pub fn is_positive(self) -> (positive: bool)
        ensures
            positive == self.positive(),
    {
        self.is_finite() && self.bits < 0x8000_0000_0000_0000 && self.bits != 0
    }
}

/// A matrix as it is sent and received: its rows, each a sequence of numbers.
pub open spec fn rows_view(rows: Seq<Vec<Number>>) -> Seq<Seq<Number>> {
    rows.map_values(|row: Vec<Number>| row@)
}

/// A copy of a matrix's rows.
pub fn copy_rows(rows: &Vec<Vec<Number>>) -> (copy: Vec<Vec<Number>>)
    ensures
        rows_view(copy@) == rows_view(rows@),
{
    let mut copy: Vec<Vec<Number>> = Vec::with_capacity(rows.len());
    let mut i: usize = 0;
    while i < rows.len()
        invariant
            i <= rows.len(),
            copy@.len() == i,
            forall|j: int| 0 <= j < i ==> (#[trigger] copy@[j])@ == rows@[j]@,
        decreases rows.len() - i,
    {
        let row = copy_row(&rows[i]);
        copy.push(row);
        i += 1;
    }
    assert(rows_view(copy@) =~= rows_view(rows@));
    copy
}

/// A copy of one row.
pub fn copy_row(row: &Vec<Number>) -> (copy: Vec<Number>)
    ensures
        copy@ == row@,
{
    let copy = row.clone();
    assert(copy@ =~= row@);
    copy
}

// --------------------------------------------------------------------- laws

/// Without its sign, a finite number is encoded below the infinities, which are
/// below the NaNs; a positive one has no sign and is not the zero at the bottom.
pub proof fn numbers_are_ordered_by_their_encoding(number: Number)
    ensures
        number.finite() <==> number.bits % 0x8000_0000_0000_0000 < 0x7ff0_0000_0000_0000,
        number.positive() <==> 0 < number.bits < 0x7ff0_0000_0000_0000,
{
}

/// The rows that are spoken of are the rows that are there, in order.
pub proof fn rows_are_seen_in_order(rows: Seq<Vec<Number>>)
    ensures
        rows_view(rows).len() == rows.len(),
        forall|i: int| 0 <= i < rows.len() ==> #[trigger] rows_view(rows)[i] == rows[i]@,
{
}

} // verus!
