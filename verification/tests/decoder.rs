use galdisasm::render::disassemble;
use galdisasm::synth::{decode, resolve_mode};
use galdisasm::types::{DecodeError, Device, Event, Mode};

const GAL20V8_FUSES: usize = 2706;
const GAL22V10_FUSES: usize = 5892;

// GAL20V8 config addresses used by the tests.
const XOR_BASE: usize = 2560;
const AC1_BASE: usize = 2632;
const SYN_ADDR: usize = 2704;
const AC0_ADDR: usize = 2705;

/// A GAL20V8 array in Simple mode: every fuse intact, enable fuses
/// clear, `syn = 1`, `ac0 = 0`.
fn gal20v8_simple_blank() -> Vec<bool> {
    let mut f = vec![true; GAL20V8_FUSES];
    for cell in 0..8 {
        f[AC1_BASE + cell] = false;
    }
    f[SYN_ADDR] = true;
    f[AC0_ADDR] = false;
    f
}

/// A GAL22V10 array with every fuse intact.
fn gal22v10_blank() -> Vec<bool> {
    vec![true; GAL22V10_FUSES]
}

fn text_of(r: Result<(galdisasm::types::Decoded, Vec<u8>), DecodeError>) -> String {
    let (_, text) = r.expect("decode should succeed");
    String::from_utf8(text).expect("output should be ASCII")
}

#[test]
fn mode_table_matches_datasheet() {
    assert_eq!(resolve_mode(false, true), Mode::Registered);
    assert_eq!(resolve_mode(true, true), Mode::Complex);
    assert_eq!(resolve_mode(true, false), Mode::Simple);
    assert_eq!(resolve_mode(false, false), Mode::Unknown);
}

#[test]
fn unsupported_modes_abort_with_no_equations() {
    // Registered, Complex and Unknown all abort; only Simple decodes.
    for (syn, ac0) in [(false, true), (true, true), (false, false)] {
        let mut f = gal20v8_simple_blank();
        f[SYN_ADDR] = syn;
        f[AC0_ADDR] = ac0;
        assert_eq!(decode(Device::Gal20v8, &f), Err(DecodeError::UnsupportedMode));
    }
    let f = gal20v8_simple_blank();
    let dec = decode(Device::Gal20v8, &f).expect("simple mode decodes");
    assert_eq!(dec.mode, Mode::Simple);
}

#[test]
fn mode_resolution_is_reported_as_event() {
    let f = gal20v8_simple_blank();
    let dec = decode(Device::Gal20v8, &f).unwrap();
    assert_eq!(
        dec.events,
        vec![Event::ModeResolved { syn: true, ac0: false, mode: Mode::Simple }]
    );
}

#[test]
fn gal22v10_needs_no_mode_fuses() {
    let f = gal22v10_blank();
    let dec = decode(Device::Gal22v10, &f).unwrap();
    assert_eq!(dec.mode, Mode::Simple);
    assert_eq!(dec.events, vec![]);
}

#[test]
fn fuse_count_mismatch_is_fatal() {
    for len in [GAL20V8_FUSES - 1, GAL20V8_FUSES + 1] {
        let f = vec![true; len];
        assert_eq!(decode(Device::Gal20v8, &f), Err(DecodeError::FuseCountMismatch));
        assert!(disassemble(Device::Gal20v8, &f).is_err());
    }
    let f = vec![true; GAL22V10_FUSES + 7];
    assert_eq!(decode(Device::Gal22v10, &f), Err(DecodeError::FuseCountMismatch));
}

#[test]
fn equation_count_equals_enabled_cells() {
    // No enable scheme: every cell of the GAL22V10 emits an equation.
    let dec = decode(Device::Gal22v10, &gal22v10_blank()).unwrap();
    assert_eq!(dec.equations.len(), 10);

    // GAL20V8: three cells marked input-only leave five equations.
    let mut f = gal20v8_simple_blank();
    f[AC1_BASE + 1] = true;
    f[AC1_BASE + 4] = true;
    f[AC1_BASE + 7] = true;
    let dec = decode(Device::Gal20v8, &f).unwrap();
    assert_eq!(dec.equations.len(), 5);
    let suppressed: Vec<Event> = dec
        .events
        .iter()
        .copied()
        .filter(|e| matches!(e, Event::CellSuppressed { .. }))
        .collect();
    assert_eq!(
        suppressed,
        vec![
            Event::CellSuppressed { cell: 1 },
            Event::CellSuppressed { cell: 4 },
            Event::CellSuppressed { cell: 7 },
        ]
    );
}

#[test]
fn single_blown_fuse_yields_single_literal_term() {
    // Column 0 of the first row of cell 0's block blown, everything
    // else intact: cell 0 reads `V = A`, every other right-hand side is
    // empty.
    let mut f = gal20v8_simple_blank();
    f[0] = false;
    let text = text_of(disassemble(Device::Gal20v8, &f));
    assert_eq!(text, "V = A\nU = \nT = \nS = \nR = \nQ = \nP = \nO = \n");
}

#[test]
fn input_only_cell_is_absent_from_output() {
    // The same array, but cell 0 marked input-only: cell 0 vanishes
    // entirely, fuse contents notwithstanding.
    let mut f = gal20v8_simple_blank();
    f[0] = false;
    f[AC1_BASE] = true;
    let (dec, text) = disassemble(Device::Gal20v8, &f).unwrap();
    let text = String::from_utf8(text).unwrap();
    assert_eq!(text, "U = \nT = \nS = \nR = \nQ = \nP = \nO = \n");
    assert!(dec.events.contains(&Event::CellSuppressed { cell: 0 }));
}

#[test]
fn intact_rows_contribute_no_terms() {
    // Every fuse of every row intact: every equation's right-hand side
    // is empty, for either device.
    let text20 = text_of(disassemble(Device::Gal20v8, &gal20v8_simple_blank()));
    assert_eq!(text20, "V = \nU = \nT = \nS = \nR = \nQ = \nP = \nO = \n");
    let text22 = text_of(disassemble(Device::Gal22v10, &gal22v10_blank()));
    assert_eq!(text22, "/W = \n/V = \n/U = \n/T = \n/S = \n/R = \n/Q = \n/P = \n/O = \n/N = \n");
}

#[test]
fn gal20v8_polarity_fuse_inverts_output_symbol() {
    // XOR fuse clear means active low: the symbol takes a `/` prefix.
    let mut f = gal20v8_simple_blank();
    f[XOR_BASE] = false;
    let text = text_of(disassemble(Device::Gal20v8, &f));
    assert_eq!(text, "/V = \nU = \nT = \nS = \nR = \nQ = \nP = \nO = \n");
}

#[test]
fn gal22v10_polarity_sense_is_opposite() {
    // The per-output polarity fuse cleared drops the `/` prefix: the
    // sense is inverted relative to the GAL20V8 scheme.
    let mut f = gal22v10_blank();
    f[5808] = false;
    let text = text_of(disassemble(Device::Gal22v10, &f));
    assert_eq!(text, "W = \n/V = \n/U = \n/T = \n/S = \n/R = \n/Q = \n/P = \n/O = \n/N = \n");
}

#[test]
fn gal22v10_first_product_row_decodes_columns_in_order() {
    // The first product row of cell 0 starts after the async-reset row
    // and cell 0's output-enable row, at fuse 2 * 44. Blowing columns 1
    // and 2 there yields the term `/A * W` on cell 0.
    let mut f = gal22v10_blank();
    f[88 + 1] = false;
    f[88 + 2] = false;
    let text = text_of(disassemble(Device::Gal22v10, &f));
    assert_eq!(text, "/W = /A * W\n/V = \n/U = \n/T = \n/S = \n/R = \n/Q = \n/P = \n/O = \n/N = \n");
}

#[test]
fn gal22v10_terms_of_separate_rows_are_ored() {
    // Blown fuses in two different rows of cell 0 give two AND terms
    // joined by OR.
    let mut f = gal22v10_blank();
    f[88] = false;
    f[88 + 44 + 5] = false;
    let text = text_of(disassemble(Device::Gal22v10, &f));
    assert_eq!(
        text,
        "/W = A\n + /B\n/V = \n/U = \n/T = \n/S = \n/R = \n/Q = \n/P = \n/O = \n/N = \n"
    );
}

#[test]
fn gal22v10_row_allocation_varies_per_cell() {
    // Cell 1's product rows start after the async-reset row, cell 0's
    // enable row, cell 0's eight product rows and cell 1's enable row:
    // at fuse 11 * 44. Cell 9's start at fuse 123 * 44.
    let mut f = gal22v10_blank();
    f[11 * 44] = false;
    f[123 * 44] = false;
    let text = text_of(disassemble(Device::Gal22v10, &f));
    assert_eq!(text, "/W = \n/V = A\n/U = \n/T = \n/S = \n/R = \n/Q = \n/P = \n/O = \n/N = A\n");
}

#[test]
fn gal20v8_rows_are_eight_per_cell() {
    // Column 0 blown in the first row of cell 1's block (rows are 40
    // fuses wide, eight rows per cell) shows up on the second output.
    let mut f = gal20v8_simple_blank();
    f[8 * 40] = false;
    let text = text_of(disassemble(Device::Gal20v8, &f));
    assert_eq!(text, "V = \nU = A\nT = \nS = \nR = \nQ = \nP = \nO = \n");
}
