//! Mode detection and equation synthesis: the single forward decode
//! pass shared by every device profile.
//!
//! The pass validates the fuse count, resolves the operating mode (once,
//! before any cell is touched), then walks the output cells in ascending
//! index order. For each enabled cell it decodes that cell's product
//! rows, drops the unused ones, and binds the surviving AND terms to the
//! cell's displayed output literal.

use vstd::prelude::*;

use crate::profile::{
    cell_row_base, device_profile, lemma_rows_before_monotonic, rows_before, wf, DeviceProfile,
    PolarityScheme, Profile,
};
use crate::rows::{decode_row, row_term};
use crate::types::{Decoded, DecodeError, Device, Equation, Event, Literal, Mode, Term};
use vstd::arithmetic::mul::{
    lemma_mul_inequality, lemma_mul_is_commutative, lemma_mul_is_distributive_add,
    lemma_mul_nonnegative,
};

verus! {

/// The mathematical shape of one decoded equation: the displayed output
/// literal and the OR of its AND terms.
pub type EquationModel = (Literal, Seq<Seq<Literal>>);

/// The mathematical shape of one successful decode: resolved mode,
/// equations of the enabled cells in ascending cell order, and the
/// diagnostic events.
pub type DecodedModel = (Mode, Seq<EquationModel>, Seq<Event>);

/// The GAL20V8-style mode table over the two global mode fuses.
pub open spec fn mode_from_bits(syn: bool, ac0: bool) -> Mode {
    if !syn && ac0 {
        Mode::Registered
    } else if syn && ac0 {
        Mode::Complex
    } else if syn && !ac0 {
        Mode::Simple
    } else {
        Mode::Unknown
    }
}

/// The operating mode a fuse array resolves to under profile `p`: the
/// mode-table entry of the two mode fuses, or `Simple` for a profile
/// without mode fuses, whose single supported mode needs no detection.
pub open spec fn resolved_mode(p: Profile, f: Seq<bool>) -> Mode {
    match p.mode_bits {
        Some(mb) => mode_from_bits(f[mb.syn_addr as int], f[mb.ac0_addr as int]),
        None => Mode::Simple,
    }
}

/// Whether cell `i` emits an equation: always, unless the profile has an
/// enable-fuse array and the cell's fuse is set, marking it input-only.
pub open spec fn cell_enabled(f: Seq<bool>, p: Profile, i: int) -> bool {
    match p.enable_base {
        Some(base) => !f[base + i],
        None => true,
    }
}

/// Whether cell `i`'s displayed output symbol carries the `/` inversion
/// prefix, read from the profile's polarity scheme. The two schemes have
/// opposite senses: an intact `External` fuse means active high (no
/// prefix), an intact `PerOutput` fuse means prefixed.
pub open spec fn output_inverted(f: Seq<bool>, p: Profile, i: int) -> bool {
    match p.polarity {
        PolarityScheme::External { base } => !f[base + i],
        PolarityScheme::PerOutput { base } => f[base + 2 * i],
    }
}

/// The displayed output literal of cell `i`.
pub open spec fn output_literal(f: Seq<bool>, p: Profile, i: int) -> Literal {
    Literal { pin: p.output_pins[i], inverted: output_inverted(f, p, i) }
}

/// The fuse slice of product row `r` of cell `i`.
pub open spec fn cell_row(f: Seq<bool>, p: Profile, i: int, r: int) -> Seq<bool> {
    f.subrange(
        cell_row_base(p, i) + r * p.row_width,
        cell_row_base(p, i) + (r + 1) * p.row_width,
    )
}

/// The non-empty AND terms among the first `n` product rows of cell `i`,
/// in row order. Unused rows — those whose term is empty — are dropped.
pub open spec fn cell_terms_upto(f: Seq<bool>, p: Profile, i: int, n: int) -> Seq<Seq<Literal>>
    decreases n,
{
    if n <= 0 {
        Seq::empty()
    } else {
        let t = row_term(cell_row(f, p, i, n - 1), p.column_pins);
        cell_terms_upto(f, p, i, n - 1) + (if t.len() == 0 {
            Seq::<Seq<Literal>>::empty()
        } else {
            seq![t]
        })
    }
}

/// The equation terms of cell `i`: its non-empty AND terms over all of
/// its product rows.
pub open spec fn cell_terms(f: Seq<bool>, p: Profile, i: int) -> Seq<Seq<Literal>> {
    cell_terms_upto(f, p, i, p.rows_per_cell[i] as int)
}

/// The equations of the enabled cells among the first `n` cells, in
/// ascending cell order.
pub open spec fn equations_upto(f: Seq<bool>, p: Profile, n: int) -> Seq<EquationModel>
    decreases n,
{
    if n <= 0 {
        Seq::empty()
    } else {
        equations_upto(f, p, n - 1) + (if cell_enabled(f, p, n - 1) {
            seq![(output_literal(f, p, n - 1), cell_terms(f, p, n - 1))]
        } else {
            Seq::<EquationModel>::empty()
        })
    }
}

/// All emitted equations of a valid fuse array under profile `p`.
pub open spec fn spec_equations(f: Seq<bool>, p: Profile) -> Seq<EquationModel> {
    equations_upto(f, p, p.cell_count as int)
}

/// The mode-resolution diagnostic: one event for a profile with mode
/// fuses, none otherwise.
pub open spec fn mode_events(p: Profile, f: Seq<bool>) -> Seq<Event> {
    match p.mode_bits {
        Some(mb) => seq![
            Event::ModeResolved {
                syn: f[mb.syn_addr as int],
                ac0: f[mb.ac0_addr as int],
                mode: resolved_mode(p, f),
            },
        ],
        None => Seq::empty(),
    }
}

/// One suppression diagnostic per disabled cell among the first `n`, in
/// ascending cell order.
pub open spec fn suppressed_upto(f: Seq<bool>, p: Profile, n: int) -> Seq<Event>
    decreases n,
{
    if n <= 0 {
        Seq::empty()
    } else {
        suppressed_upto(f, p, n - 1) + (if cell_enabled(f, p, n - 1) {
            Seq::<Event>::empty()
        } else {
            seq![Event::CellSuppressed { cell: (n - 1) as usize }]
        })
    }
}

/// All diagnostic events of a successful decode, in the order the pass
/// produces them.
pub open spec fn spec_events(f: Seq<bool>, p: Profile) -> Seq<Event> {
    mode_events(p, f) + suppressed_upto(f, p, p.cell_count as int)
}

/// What a decode of `f` as device `d` yields: the fuse-count check, then
/// the mode gate, then the synthesized equations. Each failure is
/// terminal — no equations accompany an error.
pub open spec fn spec_decode(d: Device, f: Seq<bool>) -> Result<DecodedModel, DecodeError> {
    let p = device_profile(d);
    if f.len() != p.total_fuses {
        Err(DecodeError::FuseCountMismatch)
    } else if resolved_mode(p, f) != Mode::Simple {
        Err(DecodeError::UnsupportedMode)
    } else {
        Ok((Mode::Simple, spec_equations(f, p), spec_events(f, p)))
    }
}

/// The number of enabled cells among the first `n`.
pub open spec fn enabled_count_upto(f: Seq<bool>, p: Profile, n: int) -> int
    decreases n,
{
    if n <= 0 {
        0
    } else {
        enabled_count_upto(f, p, n - 1) + (if cell_enabled(f, p, n - 1) {
            1int
        } else {
            0int
        })
    }
}

/// The number of cells that emit an equation: all of them if the profile
/// has no enable-fuse array, the cells with a clear enable fuse
/// otherwise.
pub open spec fn enabled_count(f: Seq<bool>, p: Profile) -> int {
    enabled_count_upto(f, p, p.cell_count as int)
}

/// Without an enable-fuse array every cell counts as enabled, so every
/// cell emits an equation.
pub proof fn lemma_enabled_count_no_scheme(f: Seq<bool>, p: Profile, n: int)
    requires
        p.enable_base is None,
        0 <= n,
    ensures
        enabled_count_upto(f, p, n) == n,
    decreases n,
{
    if n > 0 {
        lemma_enabled_count_no_scheme(f, p, n - 1);
    }
}

proof fn lemma_equations_len_upto(f: Seq<bool>, p: Profile, n: int)
    ensures
        equations_upto(f, p, n).len() == enabled_count_upto(f, p, n),
    decreases n,
{
    if n > 0 {
        lemma_equations_len_upto(f, p, n - 1);
    }
}

/// For every valid fuse array, the number of emitted equations equals
/// the number of enabled output cells.
pub proof fn lemma_equation_count(d: Device, f: Seq<bool>, m: Mode, eqs: Seq<EquationModel>, evs: Seq<Event>)
    requires
        spec_decode(d, f) == Ok::<DecodedModel, DecodeError>((m, eqs, evs)),
    ensures
        eqs.len() == enabled_count(f, device_profile(d)),
{
    let p = device_profile(d);
    lemma_equations_len_upto(f, p, p.cell_count as int);
}

/// No equation holds an empty term: together with
/// [`crate::rows::lemma_intact_row_no_term`], a row with every fuse
/// intact contributes a term to no equation.
pub proof fn lemma_no_empty_terms(f: Seq<bool>, p: Profile, i: int, n: int, k: int)
    requires
        0 <= k < cell_terms_upto(f, p, i, n).len(),
    ensures
        cell_terms_upto(f, p, i, n)[k].len() > 0,
    decreases n,
{
    if n > 0 {
        let prev = cell_terms_upto(f, p, i, n - 1);
        if k < prev.len() {
            lemma_no_empty_terms(f, p, i, n - 1, k);
        }
    }
}

/// A fuse array whose length differs from the selected device's total is
/// rejected with `FuseCountMismatch` before anything else is read.
pub proof fn lemma_fuse_count_mismatch(d: Device, f: Seq<bool>)
    requires
        f.len() != device_profile(d).total_fuses,
    ensures
        spec_decode(d, f) == Err::<DecodedModel, DecodeError>(DecodeError::FuseCountMismatch),
{
}

/// The GAL20V8 mode gate: the four fuse combinations resolve per the
/// mode table, and only `Simple` proceeds to synthesis — every other
/// resolved mode aborts the whole decode with `UnsupportedMode`, so no
/// equations are emitted.
pub proof fn lemma_gal20v8_mode_gate(f: Seq<bool>)
    requires
        f.len() == device_profile(Device::Gal20v8).total_fuses,
    ensures
        mode_from_bits(false, true) == Mode::Registered,
        mode_from_bits(true, true) == Mode::Complex,
        mode_from_bits(true, false) == Mode::Simple,
        mode_from_bits(false, false) == Mode::Unknown,
        resolved_mode(device_profile(Device::Gal20v8), f) != Mode::Simple ==> spec_decode(
            Device::Gal20v8,
            f,
        ) == Err::<DecodedModel, DecodeError>(DecodeError::UnsupportedMode),
        resolved_mode(device_profile(Device::Gal20v8), f) == Mode::Simple ==> spec_decode(
            Device::Gal20v8,
            f,
        ) is Ok,
{
}

/// The uppercase image of an ASCII byte; other bytes pass unchanged.
pub open spec fn ascii_upper(b: u8) -> u8 {
    if 0x61 <= b <= 0x7a {
        (b - 0x20) as u8
    } else {
        b
    }
}

/// A byte string mapped to uppercase, for the case-insensitive device
/// selector match.
pub open spec fn upper_seq(s: Seq<u8>) -> Seq<u8> {
    s.map_values(|b: u8| ascii_upper(b))
}

/// The selector bytes of each supported device, uppercase.
pub open spec fn device_name(d: Device) -> Seq<u8> {
    match d {
        Device::Gal20v8 => seq![0x47u8, 0x41, 0x4c, 0x32, 0x30, 0x56, 0x38],
        Device::Gal22v10 => seq![0x47u8, 0x41, 0x4c, 0x32, 0x32, 0x56, 0x31, 0x30],
    }
}

/// Which device a selector string names, matched case-insensitively:
/// `UnknownDevice` for anything outside the supported set.
pub open spec fn device_for_name(s: Seq<u8>) -> Result<Device, DecodeError> {
    if upper_seq(s) == device_name(Device::Gal20v8) {
        Ok(Device::Gal20v8)
    } else if upper_seq(s) == device_name(Device::Gal22v10) {
        Ok(Device::Gal22v10)
    } else {
        Err(DecodeError::UnknownDevice)
    }
}

fn ascii_upper_byte(b: u8) -> (r: u8)
    ensures
        r == ascii_upper(b),
{
    if 0x61 <= b && b <= 0x7a {
        b - 0x20
    } else {
        b
    }
}

/// Whether `name`, mapped to uppercase, equals `target`.
fn upper_matches(name: &[u8], target: &Vec<u8>) -> (r: bool)
    ensures
        r == (upper_seq(name@) == target@),
{
    if name.len() != target.len() {
        assert(upper_seq(name@).len() == name@.len());
        return false;
    }
    let n = name.len();
    let mut i: usize = 0;
    while i < n
        invariant
            n == name@.len(),
            n == target@.len(),
            i <= n,
            forall|j: int| 0 <= j < i ==> upper_seq(name@)[j] == target@[j],
        decreases n - i,
    {
        if ascii_upper_byte(name[i]) != target[i] {
            assert(upper_seq(name@)[i as int] != target@[i as int]);
            return false;
        }
        assert(upper_seq(name@)[i as int] == target@[i as int]);
        i += 1;
    }
    assert(upper_seq(name@) =~= target@);
    true
}

/// Resolves a device selector given by name, case-insensitively:
/// `GAL20V8` and `GAL22V10` are the supported set, anything else is an
/// `UnknownDevice` error.
pub fn device_from_name(name: &[u8]) -> (r: Result<Device, DecodeError>)
    ensures
        r == device_for_name(name@),
{
    let t20: Vec<u8> = vec![0x47, 0x41, 0x4c, 0x32, 0x30, 0x56, 0x38];
    let t22: Vec<u8> = vec![0x47, 0x41, 0x4c, 0x32, 0x32, 0x56, 0x31, 0x30];
    proof {
        assert(t20@ =~= device_name(Device::Gal20v8));
        assert(t22@ =~= device_name(Device::Gal22v10));
    }
    if upper_matches(name, &t20) {
        Ok(Device::Gal20v8)
    } else if upper_matches(name, &t22) {
        Ok(Device::Gal22v10)
    } else {
        Err(DecodeError::UnknownDevice)
    }
}

/// The mode-table lookup over the two mode fuse values.
pub fn resolve_mode(syn: bool, ac0: bool) -> (r: Mode)
    ensures
        r == mode_from_bits(syn, ac0),
{
    if !syn && ac0 {
        Mode::Registered
    } else if syn && ac0 {
        Mode::Complex
    } else if syn && !ac0 {
        Mode::Simple
    } else {
        Mode::Unknown
    }
}

/// Resolves the operating mode of `f` under `p`: the mode-table entry of
/// the two mode fuses, or `Simple` for a profile without mode fuses.
pub fn detect_mode(p: &DeviceProfile, f: &Vec<bool>) -> (r: Mode)
    requires
        wf(p@),
        f@.len() == p@.total_fuses,
    ensures
        r == resolved_mode(p@, f@),
{
    match p.mode_bits {
        Some(mb) => resolve_mode(f[mb.syn_addr], f[mb.ac0_addr]),
        None => Mode::Simple,
    }
}

/// The displayed output literal of `cell`: its pin from the output-pin
/// table, inverted or not per the profile's polarity scheme.
pub fn output_symbol(p: &DeviceProfile, f: &Vec<bool>, cell: usize) -> (r: Literal)
    requires
        wf(p@),
        cell < p@.cell_count,
        f@.len() == p@.total_fuses,
    ensures
        r == output_literal(f@, p@, cell as int),
{
    let pin = p.output_pins[cell];
    let inverted = match p.polarity {
        PolarityScheme::External { base } => !f[base + cell],
        PolarityScheme::PerOutput { base } => f[base + 2 * cell],
    };
    Literal { pin, inverted }
}

/// Whether `cell` emits an equation, per the profile's enable scheme.
pub fn cell_is_enabled(p: &DeviceProfile, f: &Vec<bool>, cell: usize) -> (r: bool)
    requires
        wf(p@),
        cell < p@.cell_count,
        f@.len() == p@.total_fuses,
    ensures
        r == cell_enabled(f@, p@, cell as int),
{
    match p.enable_base {
        Some(base) => !f[base + cell],
        None => true,
    }
}

/// Consuming one more row keeps the running address inside the fuse
/// array: `bound` is any row count the pass will not exceed.
proof fn lemma_row_step(p: Profile, rows: int, bound: int)
    requires
        wf(p),
        0 <= rows < bound,
        bound <= rows_before(p, p.cell_count as int),
    ensures
        p.row_width * (rows + 1) == p.row_width * rows + p.row_width,
        0 <= p.row_width * rows,
        p.row_width * (rows + 1) <= p.total_fuses,
{
    let w = p.row_width as int;
    let total_rows = rows_before(p, p.cell_count as int);
    lemma_mul_is_distributive_add(w, rows, 1);
    assert(w * 1 == w) by (nonlinear_arith);
    lemma_mul_nonnegative(w, rows);
    lemma_mul_inequality(rows + 1, total_rows, w);
    lemma_mul_is_commutative(w, rows + 1);
    lemma_mul_is_commutative(w, total_rows);
}

/// The running address of product row `rr` of cell `i`, written both as
/// a multiple of the rows consumed and as an offset from the cell's row
/// base.
proof fn lemma_row_addr(p: Profile, i: int, rr: int)
    ensures
        p.row_width * (rows_before(p, i) + p.per_cell_skip_rows + rr) == cell_row_base(p, i) + rr
            * p.row_width,
        (rr + 1) * p.row_width == rr * p.row_width + p.row_width,
{
    let w = p.row_width as int;
    let base_rows = rows_before(p, i) + p.per_cell_skip_rows;
    lemma_mul_is_distributive_add(w, base_rows, rr);
    lemma_mul_is_commutative(w, rr);
    lemma_mul_is_distributive_add(w, rr, 1);
    lemma_mul_is_commutative(w, rr + 1);
    assert(w * 1 == w) by (nonlinear_arith);
}

/// Every product row of every cell lies inside the fuse array of a
/// well-formed profile.
pub proof fn lemma_cell_row_in_range(p: Profile, i: int, rr: int)
    requires
        wf(p),
        0 <= i < p.cell_count,
        0 <= rr < p.rows_per_cell[i],
    ensures
        0 <= cell_row_base(p, i) + rr * p.row_width,
        cell_row_base(p, i) + (rr + 1) * p.row_width <= p.total_fuses,
        cell_row_base(p, i) + (rr + 1) * p.row_width == cell_row_base(p, i) + rr * p.row_width
            + p.row_width,
{
    let rb = rows_before(p, i);
    assert(rows_before(p, i + 1) == rb + p.per_cell_skip_rows + p.rows_per_cell[i]);
    lemma_rows_before_monotonic(p, 0, i);
    lemma_rows_before_monotonic(p, i + 1, p.cell_count as int);
    lemma_row_addr(p, i, rr);
    lemma_row_addr(p, i, rr + 1);
    lemma_row_step(p, rb + p.per_cell_skip_rows + rr, rows_before(p, i + 1));
}

/// Decodes the fuse array `fuses` as device `d`: validates the fuse
/// count, resolves the operating mode, and synthesizes one equation per
/// enabled output cell, exactly as [`spec_decode`] states.
#[verifier::loop_isolation(false)]
pub fn decode(d: Device, fuses: &Vec<bool>) -> (r: Result<Decoded, DecodeError>)
    ensures
        (match r {
            Ok(dec) => spec_decode(d, fuses@) == Ok::<DecodedModel, DecodeError>(dec@),
            Err(e) => spec_decode(d, fuses@) == Err::<DecodedModel, DecodeError>(e),
        }),
{
    let p = crate::profile::profile_for(d);
    let ghost gp = p@;
    let flen = fuses.len();
    if flen != p.total_fuses {
        return Err(DecodeError::FuseCountMismatch);
    }
    let mut events: Vec<Event> = Vec::new();
    let mode: Mode = match p.mode_bits {
        Some(mb) => {
            let syn = fuses[mb.syn_addr];
            let ac0 = fuses[mb.ac0_addr];
            let m = resolve_mode(syn, ac0);
            events.push(Event::ModeResolved { syn, ac0, mode: m });
            m
        },
        None => Mode::Simple,
    };
    assert(mode == resolved_mode(gp, fuses@));
    assert(events@ =~= mode_events(gp, fuses@));
    if mode != Mode::Simple {
        return Err(DecodeError::UnsupportedMode);
    }
    let width = p.row_width;
    let mut equations: Vec<Equation> = Vec::new();
    let mut addr: usize = 0;
    let mut s: usize = 0;
    while s < p.leading_skip_rows
        invariant
            s <= gp.leading_skip_rows,
            addr == gp.row_width * s,
        decreases gp.leading_skip_rows - s,
    {
        proof {
            lemma_rows_before_monotonic(gp, 0, gp.cell_count as int);
            lemma_row_step(gp, s as int, rows_before(gp, 0));
        }
        addr = addr + width;
        s = s + 1;
    }
    let mut i: usize = 0;
    while i < p.cell_count
        invariant
            i <= gp.cell_count,
            addr == gp.row_width * rows_before(gp, i as int),
            crate::types::equations_view(equations@) == equations_upto(fuses@, gp, i as int),
            events@ == mode_events(gp, fuses@) + suppressed_upto(fuses@, gp, i as int),
        decreases gp.cell_count - i,
    {
        let ghost rb = rows_before(gp, i as int);
        proof {
            assert(rows_before(gp, i as int + 1) == rb + gp.per_cell_skip_rows
                + gp.rows_per_cell[i as int]);
            lemma_rows_before_monotonic(gp, i as int + 1, gp.cell_count as int);
        }
        let mut s2: usize = 0;
        while s2 < p.per_cell_skip_rows
            invariant
                s2 <= gp.per_cell_skip_rows,
                addr == gp.row_width * (rb + s2),
            decreases gp.per_cell_skip_rows - s2,
        {
            proof {
                lemma_row_step(gp, rb + s2, rows_before(gp, i as int + 1));
            }
            addr = addr + width;
            s2 = s2 + 1;
        }
        let nrows = p.rows_per_cell[i];
        let mut terms: Vec<Term> = Vec::new();
        let mut rr: usize = 0;
        proof {
            lemma_row_addr(gp, i as int, 0);
        }
        while rr < nrows
            invariant
                rr <= nrows,
                addr == cell_row_base(gp, i as int) + rr * gp.row_width,
                crate::types::terms_view(terms@) == cell_terms_upto(fuses@, gp, i as int, rr as int),
            decreases nrows - rr,
        {
            proof {
                lemma_row_addr(gp, i as int, rr as int);
                lemma_row_step(gp, rb + gp.per_cell_skip_rows + rr, rows_before(gp, i as int + 1));
            }
            let row = decode_row(fuses, addr, &p.column_pins);
            proof {
                assert(fuses@.subrange(addr as int, addr + gp.column_pins.len() * 2) == cell_row(
                    fuses@,
                    gp,
                    i as int,
                    rr as int,
                ));
            }
            match row {
                Some(t) => {
                    terms.push(t);
                    assert(crate::types::terms_view(terms@) =~= cell_terms_upto(
                        fuses@,
                        gp,
                        i as int,
                        rr as int + 1,
                    ));
                },
                None => {
                    assert(crate::types::terms_view(terms@) =~= cell_terms_upto(
                        fuses@,
                        gp,
                        i as int,
                        rr as int + 1,
                    ));
                },
            }
            addr = addr + width;
            rr = rr + 1;
        }
        let out = output_symbol(&p, fuses, i);
        if cell_is_enabled(&p, fuses, i) {
            let e = Equation { output: out, terms };
            assert(e@ == (output_literal(fuses@, gp, i as int), cell_terms(fuses@, gp, i as int)));
            equations.push(e);
            assert(crate::types::equations_view(equations@) =~= equations_upto(
                fuses@,
                gp,
                i as int + 1,
            ));
            assert(events@ =~= mode_events(gp, fuses@) + suppressed_upto(fuses@, gp, i as int + 1));
        } else {
            events.push(Event::CellSuppressed { cell: i });
            assert(crate::types::equations_view(equations@) =~= equations_upto(
                fuses@,
                gp,
                i as int + 1,
            ));
            assert(events@ =~= mode_events(gp, fuses@) + suppressed_upto(fuses@, gp, i as int + 1));
        }
        proof {
            lemma_row_addr(gp, i as int, nrows as int);
        }
        i = i + 1;
    }
    let result = Decoded { mode, equations, events };
    proof {
        assert(result@.1 == spec_equations(fuses@, gp));
        assert(result@.2 == spec_events(fuses@, gp));
        assert(spec_decode(d, fuses@) == Ok::<DecodedModel, DecodeError>(result@));
    }
    Ok(result)
}

} // verus!

