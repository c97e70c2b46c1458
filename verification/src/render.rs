//! Formatting decoded equations as ASCII text.
//!
//! Each emitted output cell becomes one entry of the form
//! `<symbol> = <term1>\n + <term2>\n + ...`, followed by a newline;
//! a term is its literals joined by ` * `, and a literal is the pin's
//! display letter (`'@' + pin`), prefixed by `/` when inverted. A cell
//! whose equation has zero terms — every row unused — renders with an
//! explicitly empty right-hand side: the symbol, ` = `, and nothing
//! after it.

use vstd::prelude::*;

use crate::profile::{device_profile, lemma_device_profile_wf, wf, Profile};
use crate::rows::{column_literal, lemma_column_literal_injective, row_term_upto};
use crate::synth::{
    cell_row, cell_terms_upto, equations_upto, lemma_cell_row_in_range, output_literal,
    spec_decode, DecodedModel, EquationModel,
};
use crate::types::{equations_view, Decoded, DecodeError, Device, Equation, Event, Literal, Mode,
    Term};

verus! {

/// A literal renders only when its pin has an ASCII capital as display
/// letter; both built-in profiles name pins `1..=26` alone.
pub open spec fn wf_literal(l: Literal) -> bool {
    1 <= l.pin <= 26
}

/// Every literal of the term renders.
pub open spec fn wf_term(t: Seq<Literal>) -> bool {
    forall|k: int| 0 <= k < t.len() ==> wf_literal(#[trigger] t[k])
}

/// Every literal of the equation, output symbol included, renders.
pub open spec fn wf_equation(e: EquationModel) -> bool {
    &&& wf_literal(e.0)
    &&& forall|j: int| 0 <= j < e.1.len() ==> wf_term(#[trigger] e.1[j])
}

/// Every equation of the list renders.
pub open spec fn wf_equations(eqs: Seq<EquationModel>) -> bool {
    forall|j: int| 0 <= j < eqs.len() ==> wf_equation(#[trigger] eqs[j])
}

/// The display letter of a pin: `'@' + pin`, an ASCII capital for pins
/// `1..=26`.
pub open spec fn pin_letter(pin: u8) -> u8 {
    (0x40 + pin) as u8
}

/// The displayed symbol of a literal: its pin letter, preceded by `/`
/// when inverted.
pub open spec fn literal_bytes(l: Literal) -> Seq<u8> {
    if l.inverted {
        seq![0x2fu8, pin_letter(l.pin)]
    } else {
        seq![pin_letter(l.pin)]
    }
}

/// The ` * ` separator between a term's literals.
pub open spec fn sep_and() -> Seq<u8> {
    seq![0x20u8, 0x2a, 0x20]
}

/// The `\n + ` separator between an equation's terms.
pub open spec fn sep_or() -> Seq<u8> {
    seq![0x0au8, 0x20, 0x2b, 0x20]
}

/// The ` = ` between an equation's symbol and its terms.
pub open spec fn sep_eq() -> Seq<u8> {
    seq![0x20u8, 0x3d, 0x20]
}

/// The first `n` literals of a term, joined by ` * `.
pub open spec fn term_bytes_upto(t: Seq<Literal>, n: int) -> Seq<u8>
    decreases n,
{
    if n <= 0 {
        Seq::empty()
    } else if n == 1 {
        literal_bytes(t[0])
    } else {
        term_bytes_upto(t, n - 1) + sep_and() + literal_bytes(t[n - 1])
    }
}

/// A term's displayed form: its literals joined by ` * `.
pub open spec fn term_bytes(t: Seq<Literal>) -> Seq<u8> {
    term_bytes_upto(t, t.len() as int)
}

/// The first `n` terms, joined by `\n + `.
pub open spec fn terms_bytes_upto(ts: Seq<Seq<Literal>>, n: int) -> Seq<u8>
    decreases n,
{
    if n <= 0 {
        Seq::empty()
    } else if n == 1 {
        term_bytes(ts[0])
    } else {
        terms_bytes_upto(ts, n - 1) + sep_or() + term_bytes(ts[n - 1])
    }
}

/// An equation's right-hand side: its terms joined by `\n + `; empty
/// for a zero-term equation.
pub open spec fn terms_bytes(ts: Seq<Seq<Literal>>) -> Seq<u8> {
    terms_bytes_upto(ts, ts.len() as int)
}

/// An equation's displayed form: `<symbol> = <right-hand side>`.
pub open spec fn equation_bytes(e: EquationModel) -> Seq<u8> {
    literal_bytes(e.0) + sep_eq() + terms_bytes(e.1)
}

/// The first `n` equations, each followed by a newline.
pub open spec fn output_bytes_upto(eqs: Seq<EquationModel>, n: int) -> Seq<u8>
    decreases n,
{
    if n <= 0 {
        Seq::empty()
    } else {
        output_bytes_upto(eqs, n - 1) + equation_bytes(eqs[n - 1]) + seq![0x0au8]
    }
}

/// The whole decode output: every equation in cell order, one entry per
/// line group, each closed by a newline.
pub open spec fn output_bytes(eqs: Seq<EquationModel>) -> Seq<u8> {
    output_bytes_upto(eqs, eqs.len() as int)
}

/// Distinct literals over pins `1..=26` display as distinct symbols.
pub proof fn lemma_literal_bytes_injective(l1: Literal, l2: Literal)
    requires
        wf_literal(l1),
        wf_literal(l2),
        l1 != l2,
    ensures
        literal_bytes(l1) != literal_bytes(l2),
{
    if l1.inverted != l2.inverted {
        assert(literal_bytes(l1).len() != literal_bytes(l2).len());
    } else if l1.inverted {
        assert(literal_bytes(l1)[1] == pin_letter(l1.pin));
        assert(literal_bytes(l2)[1] == pin_letter(l2.pin));
        assert(pin_letter(l1.pin) != pin_letter(l2.pin));
    } else {
        assert(literal_bytes(l1)[0] == pin_letter(l1.pin));
        assert(literal_bytes(l2)[0] == pin_letter(l2.pin));
        assert(pin_letter(l1.pin) != pin_letter(l2.pin));
    }
}

/// The column-to-symbol map is a bijection: column pair `k` with
/// polarity bit `p` maps to pin `pins[k]`, inverted exactly when `p` is
/// set, and no two distinct `(k, p)` pairs display as the same symbol.
pub proof fn lemma_column_symbol_bijective(pins: Seq<u8>, k1: int, p1: bool, k2: int, p2: bool)
    requires
        forall|i: int, j: int| 0 <= i < j < pins.len() ==> pins[i] != pins[j],
        forall|i: int| 0 <= i < pins.len() ==> 1 <= #[trigger] pins[i] <= 26,
        0 <= k1 < pins.len(),
        0 <= k2 < pins.len(),
        (k1, p1) != (k2, p2),
    ensures
        column_literal(pins, 2 * k1 + (if p1 { 1int } else { 0int })) == (Literal {
            pin: pins[k1],
            inverted: p1,
        }),
        column_literal(pins, 2 * k2 + (if p2 { 1int } else { 0int })) == (Literal {
            pin: pins[k2],
            inverted: p2,
        }),
        column_literal(pins, 2 * k1 + (if p1 { 1int } else { 0int })) != column_literal(
            pins,
            2 * k2 + (if p2 { 1int } else { 0int }),
        ),
        literal_bytes(column_literal(pins, 2 * k1 + (if p1 { 1int } else { 0int })))
            != literal_bytes(column_literal(pins, 2 * k2 + (if p2 { 1int } else { 0int }))),
{
    let c1 = 2 * k1 + (if p1 { 1int } else { 0int });
    let c2 = 2 * k2 + (if p2 { 1int } else { 0int });
    assert(c1 / 2 == k1 && c1 % 2 == (if p1 { 1int } else { 0int }));
    assert(c2 / 2 == k2 && c2 % 2 == (if p2 { 1int } else { 0int }));
    assert(c1 != c2);
    lemma_column_literal_injective(pins, c1, c2);
    lemma_literal_bytes_injective(column_literal(pins, c1), column_literal(pins, c2));
}

/// The bijection holds of both built-in devices' column tables: no two
/// distinct `(pair, polarity)` inputs display as the same symbol.
pub proof fn lemma_device_column_symbols_bijective(
    d: Device,
    k1: int,
    p1: bool,
    k2: int,
    p2: bool,
)
    requires
        0 <= k1 < device_profile(d).column_pins.len(),
        0 <= k2 < device_profile(d).column_pins.len(),
        (k1, p1) != (k2, p2),
    ensures
        ({
            let pins = device_profile(d).column_pins;
            literal_bytes(column_literal(pins, 2 * k1 + (if p1 { 1int } else { 0int })))
                != literal_bytes(column_literal(pins, 2 * k2 + (if p2 { 1int } else { 0int })))
        }),
{
    lemma_device_profile_wf(d);
    lemma_column_symbol_bijective(device_profile(d).column_pins, k1, p1, k2, p2);
}

proof fn lemma_row_term_upto_wf(row: Seq<bool>, pins: Seq<u8>, n: int)
    requires
        forall|i: int| 0 <= i < pins.len() ==> 1 <= #[trigger] pins[i] <= 26,
        n <= 2 * pins.len(),
    ensures
        wf_term(row_term_upto(row, pins, n)),
    decreases n,
{
    if n > 0 {
        lemma_row_term_upto_wf(row, pins, n - 1);
    }
}

proof fn lemma_cell_terms_upto_wf(f: Seq<bool>, p: Profile, i: int, n: int)
    requires
        wf(p),
        f.len() == p.total_fuses,
        0 <= i < p.cell_count,
        n <= p.rows_per_cell[i],
    ensures
        forall|j: int|
            0 <= j < cell_terms_upto(f, p, i, n).len() ==> wf_term(
                #[trigger] cell_terms_upto(f, p, i, n)[j],
            ),
    decreases n,
{
    if n > 0 {
        lemma_cell_terms_upto_wf(f, p, i, n - 1);
        lemma_cell_row_in_range(p, i, n - 1);
        let row = cell_row(f, p, i, n - 1);
        assert(row.len() == p.row_width);
        lemma_row_term_upto_wf(row, p.column_pins, row.len() as int);
        assert(wf_term(crate::rows::row_term(row, p.column_pins)));
        let cur = cell_terms_upto(f, p, i, n);
        let prev = cell_terms_upto(f, p, i, n - 1);
        assert forall|j: int| 0 <= j < cur.len() implies wf_term(cur[j]) by {
            if j < prev.len() {
                assert(cur[j] == prev[j]);
            } else {
                assert(cur[j] == crate::rows::row_term(row, p.column_pins));
            }
        }
    }
}

proof fn lemma_equations_upto_wf(f: Seq<bool>, p: Profile, n: int)
    requires
        wf(p),
        f.len() == p.total_fuses,
        n <= p.cell_count,
    ensures
        wf_equations(equations_upto(f, p, n)),
    decreases n,
{
    if n > 0 {
        lemma_equations_upto_wf(f, p, n - 1);
        if crate::synth::cell_enabled(f, p, n - 1) {
            lemma_cell_terms_upto_wf(f, p, n - 1, p.rows_per_cell[n - 1] as int);
            assert(wf_literal(output_literal(f, p, n - 1)));
        }
    }
}

/// Everything a successful decode emits renders: each pin of each
/// literal has an ASCII capital as display letter.
pub proof fn lemma_decode_wf(d: Device, f: Seq<bool>, m: Mode, eqs: Seq<EquationModel>, evs: Seq<Event>)
    requires
        spec_decode(d, f) == Ok::<DecodedModel, DecodeError>((m, eqs, evs)),
    ensures
        wf_equations(eqs),
{
    let p = device_profile(d);
    lemma_device_profile_wf(d);
    lemma_equations_upto_wf(f, p, p.cell_count as int);
}

/// Renders one term: its literals joined by ` * `.
#[verifier::loop_isolation(false)]
pub fn render_term(t: &Term) -> (r: Vec<u8>)
    requires
        wf_term(t@),
    ensures
        r@ == term_bytes(t@),
{
    let mut out: Vec<u8> = Vec::new();
    let n = t.literals.len();
    let mut k: usize = 0;
    while k < n
        invariant
            k <= n,
            out@ == term_bytes_upto(t@, k as int),
        decreases n - k,
    {
        if k > 0 {
            out.push(0x20);
            out.push(0x2a);
            out.push(0x20);
        }
        let l = t.literals[k];
        assert(wf_literal(t@[k as int]));
        if l.inverted {
            out.push(0x2f);
        }
        out.push(0x40 + l.pin);
        assert(out@ =~= term_bytes_upto(t@, k as int + 1));
        k += 1;
    }
    out
}

/// Renders one equation: `<symbol> = <terms>`, the terms joined by
/// `\n + `, a zero-term right-hand side left explicitly empty.
#[verifier::loop_isolation(false)]
pub fn render_equation(e: &Equation) -> (r: Vec<u8>)
    requires
        wf_equation(e@),
    ensures
        r@ == equation_bytes(e@),
{
    let mut out: Vec<u8> = Vec::new();
    if e.output.inverted {
        out.push(0x2f);
    }
    out.push(0x40 + e.output.pin);
    out.push(0x20);
    out.push(0x3d);
    out.push(0x20);
    assert(out@ =~= literal_bytes(e@.0) + sep_eq());
    let n = e.terms.len();
    let mut k: usize = 0;
    while k < n
        invariant
            k <= n,
            out@ == literal_bytes(e@.0) + sep_eq() + terms_bytes_upto(e@.1, k as int),
        decreases n - k,
    {
        if k > 0 {
            out.push(0x0a);
            out.push(0x20);
            out.push(0x2b);
            out.push(0x20);
        }
        assert(e@.1[k as int] == e.terms@[k as int]@);
        assert(wf_term(e@.1[k as int]));
        let mut tb = render_term(&e.terms[k]);
        out.append(&mut tb);
        assert(out@ =~= literal_bytes(e@.0) + sep_eq() + terms_bytes_upto(e@.1, k as int + 1));
        k += 1;
    }
    assert(e@.1.len() == n);
    out
}

/// Renders a whole equation list in order, each equation followed by a
/// newline.
#[verifier::loop_isolation(false)]
pub fn render_equations(eqs: &Vec<Equation>) -> (r: Vec<u8>)
    requires
        wf_equations(equations_view(eqs@)),
    ensures
        r@ == output_bytes(equations_view(eqs@)),
{
    let mut out: Vec<u8> = Vec::new();
    let n = eqs.len();
    let mut j: usize = 0;
    while j < n
        invariant
            j <= n,
            out@ == output_bytes_upto(equations_view(eqs@), j as int),
        decreases n - j,
    {
        assert(equations_view(eqs@)[j as int] == eqs@[j as int]@);
        assert(wf_equation(equations_view(eqs@)[j as int]));
        let mut eb = render_equation(&eqs[j]);
        out.append(&mut eb);
        out.push(0x0a);
        assert(out@ =~= output_bytes_upto(equations_view(eqs@), j as int + 1));
        j += 1;
    }
    out
}

/// Decodes `fuses` as device `d` and renders the result: the decoded
/// pass with its diagnostics, and the full equation text as ASCII
/// bytes. Errors pass through [`crate::synth::decode`] unchanged.
pub fn disassemble(d: Device, fuses: &Vec<bool>) -> (r: Result<(Decoded, Vec<u8>), DecodeError>)
    ensures
        (match r {
            Ok((dec, text)) => spec_decode(d, fuses@) == Ok::<DecodedModel, DecodeError>(dec@)
                && text@ == output_bytes(dec@.1),
            Err(e) => spec_decode(d, fuses@) == Err::<DecodedModel, DecodeError>(e),
        }),
{
    match crate::synth::decode(d, fuses) {
        Ok(dec) => {
            proof {
                lemma_decode_wf(d, fuses@, dec@.0, dec@.1, dec@.2);
            }
            let text = render_equations(&dec.equations);
            Ok((dec, text))
        },
        Err(e) => Err(e),
    }
}

} // verus!
