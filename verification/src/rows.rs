//! Decoding one AND row into a term.
//!
//! Columns come in pairs: pair `k` carries the non-inverted (even column
//! `2k`) and inverted (odd column `2k + 1`) signal of the pin
//! `column_pins[k]`. A blown (`false`) fuse keeps its column's literal in
//! the AND term; an intact (`true`) fuse disconnects it. A row whose
//! fuses are all intact would yield the empty — tautological — term, and
//! is treated as unused: it contributes no term at all.

use vstd::prelude::*;

use crate::types::Literal;

verus! {

/// The literal carried by column `c` of a row, given the device's
/// column-pair pin table.
pub open spec fn column_literal(pins: Seq<u8>, c: int) -> Literal {
    Literal { pin: pins[c / 2], inverted: c % 2 == 1 }
}

/// The literals of the first `n` columns of `row` whose fuses are blown,
/// in column order.
pub open spec fn row_term_upto(row: Seq<bool>, pins: Seq<u8>, n: int) -> Seq<Literal>
    decreases n,
{
    if n <= 0 {
        Seq::empty()
    } else {
        row_term_upto(row, pins, n - 1) + (if row[n - 1] {
            Seq::<Literal>::empty()
        } else {
            seq![column_literal(pins, n - 1)]
        })
    }
}

/// The AND term of a whole row: one literal per blown fuse, in column
/// order.
pub open spec fn row_term(row: Seq<bool>, pins: Seq<u8>) -> Seq<Literal> {
    row_term_upto(row, pins, row.len() as int)
}

/// A row's term is empty exactly when every fuse among its first `n`
/// columns is intact.
pub proof fn lemma_row_term_empty_iff(row: Seq<bool>, pins: Seq<u8>, n: int)
    requires
        n <= row.len(),
    ensures
        row_term_upto(row, pins, n).len() == 0 <==> (forall|c: int| 0 <= c < n ==> row[c]),
    decreases n,
{
    if n > 0 {
        lemma_row_term_empty_iff(row, pins, n - 1);
    }
}

/// A row with every column's fuse intact yields no term: it never
/// contributes to any equation.
pub proof fn lemma_intact_row_no_term(row: Seq<bool>, pins: Seq<u8>)
    requires
        forall|c: int| 0 <= c < row.len() ==> row[c],
    ensures
        row_term(row, pins).len() == 0,
{
    lemma_row_term_empty_iff(row, pins, row.len() as int);
}

/// Distinct columns carry distinct literals whenever the pin table names
/// distinct pins: the column-to-literal map is injective, and together
/// with [`crate::render::lemma_literal_bytes_injective`] the
/// column-to-symbol map is a bijection onto the symbols it produces.
pub proof fn lemma_column_literal_injective(pins: Seq<u8>, c1: int, c2: int)
    requires
        forall|i: int, j: int| 0 <= i < j < pins.len() ==> pins[i] != pins[j],
        0 <= c1 < pins.len() * 2,
        0 <= c2 < pins.len() * 2,
        c1 != c2,
    ensures
        column_literal(pins, c1) != column_literal(pins, c2),
{
    if c1 / 2 != c2 / 2 {
        let i = if c1 / 2 < c2 / 2 { c1 / 2 } else { c2 / 2 };
        let j = if c1 / 2 < c2 / 2 { c2 / 2 } else { c1 / 2 };
        assert(0 <= i < j < pins.len());
        assert(pins[i] != pins[j]);
    } else {
        assert(c1 % 2 != c2 % 2);
    }
}

/// The column-to-symbol map of one row position: the literal carried by
/// column `col`.
pub fn column_to_symbol(pins: &Vec<u8>, col: usize) -> (r: Literal)
    requires
        col < pins@.len() * 2,
    ensures
        r == column_literal(pins@, col as int),
{
    let pin = pins[col / 2];
    Literal { pin, inverted: col % 2 == 1 }
}

/// Decodes the row of `pins.len() * 2` fuses at `base` into its AND
/// term: `Some` term holding one literal per blown fuse, or `None` for
/// an unused row (every fuse intact).
pub fn decode_row(f: &Vec<bool>, base: usize, pins: &Vec<u8>) -> (r: Option<crate::types::Term>)
    requires
        base + pins@.len() * 2 <= f@.len(),
    ensures
        ({
            let t = row_term(f@.subrange(base as int, base + pins@.len() * 2), pins@);
            match r {
                Some(term) => term@ == t && t.len() > 0,
                None => t.len() == 0,
            }
        }),
{
    let flen = f.len();
    let width = pins.len() * 2;
    let ghost row = f@.subrange(base as int, (base + width) as int);
    let mut lits: Vec<Literal> = Vec::new();
    let mut c: usize = 0;
    while c < width
        invariant
            width == pins@.len() * 2,
            flen == f@.len(),
            base + width <= flen,
            c <= width,
            row == f@.subrange(base as int, (base + width) as int),
            lits@ == row_term_upto(row, pins@, c as int),
        decreases width - c,
    {
        assert(row[c as int] == f@[base + c]);
        if !f[base + c] {
            let lit = column_to_symbol(pins, c);
            lits.push(lit);
            assert(lits@ =~= row_term_upto(row, pins@, c + 1));
        } else {
            assert(lits@ =~= row_term_upto(row, pins@, c + 1));
        }
        c += 1;
    }
    if lits.len() == 0 {
        None
    } else {
        Some(crate::types::Term { literals: lits })
    }
}

} // verus!
