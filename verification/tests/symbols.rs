use galdisasm::profile::profile_for;
use galdisasm::render::{render_equation, render_term};
use galdisasm::rows::{column_to_symbol, decode_row};
use galdisasm::synth::device_from_name;
use galdisasm::types::{exit_code, DecodeError, Device, Equation, Literal, Term};

fn symbol_text(l: Literal) -> String {
    let t = Term { literals: vec![l] };
    String::from_utf8(render_term(&t)).unwrap()
}

#[test]
fn column_symbols_follow_the_pin_table() {
    let p = profile_for(Device::Gal22v10);
    assert_eq!(column_to_symbol(&p.column_pins, 0), Literal { pin: 1, inverted: false });
    assert_eq!(column_to_symbol(&p.column_pins, 1), Literal { pin: 1, inverted: true });
    assert_eq!(column_to_symbol(&p.column_pins, 2), Literal { pin: 23, inverted: false });
    assert_eq!(column_to_symbol(&p.column_pins, 43), Literal { pin: 13, inverted: true });
    assert_eq!(symbol_text(column_to_symbol(&p.column_pins, 0)), "A");
    assert_eq!(symbol_text(column_to_symbol(&p.column_pins, 1)), "/A");
    assert_eq!(symbol_text(column_to_symbol(&p.column_pins, 2)), "W");
}

#[test]
fn column_symbols_are_pairwise_distinct() {
    // The column-to-symbol map is a bijection for either device: over
    // all (pair, polarity) inputs, no symbol repeats.
    for d in [Device::Gal20v8, Device::Gal22v10] {
        let p = profile_for(d);
        let width = p.column_pins.len() * 2;
        let symbols: Vec<String> = (0..width)
            .map(|c| symbol_text(column_to_symbol(&p.column_pins, c)))
            .collect();
        for a in 0..width {
            for b in 0..width {
                if a != b {
                    assert_ne!(symbols[a], symbols[b], "columns {a} and {b} collide");
                }
            }
        }
    }
}

#[test]
fn intact_row_decodes_to_no_term() {
    let p = profile_for(Device::Gal20v8);
    let row = vec![true; 40];
    assert!(decode_row(&row, 0, &p.column_pins).is_none());
}

#[test]
fn fully_blown_row_keeps_every_literal() {
    let p = profile_for(Device::Gal20v8);
    let row = vec![false; 40];
    let term = decode_row(&row, 0, &p.column_pins).expect("a blown column keeps the row");
    assert_eq!(term.literals.len(), 40);
    assert_eq!(term.literals[0], Literal { pin: 1, inverted: false });
    assert_eq!(term.literals[39], Literal { pin: 14, inverted: true });
}

#[test]
fn equation_renders_terms_with_separators() {
    let e = Equation {
        output: Literal { pin: 22, inverted: true },
        terms: vec![
            Term {
                literals: vec![
                    Literal { pin: 1, inverted: false },
                    Literal { pin: 2, inverted: true },
                ],
            },
            Term { literals: vec![Literal { pin: 3, inverted: false }] },
        ],
    };
    assert_eq!(String::from_utf8(render_equation(&e)).unwrap(), "/V = A * /B\n + C");
}

#[test]
fn empty_equation_renders_empty_right_hand_side() {
    let e = Equation { output: Literal { pin: 15, inverted: false }, terms: vec![] };
    assert_eq!(String::from_utf8(render_equation(&e)).unwrap(), "O = ");
}

#[test]
fn device_names_match_case_insensitively() {
    assert_eq!(device_from_name(b"GAL20V8"), Ok(Device::Gal20v8));
    assert_eq!(device_from_name(b"gal20v8"), Ok(Device::Gal20v8));
    assert_eq!(device_from_name(b"Gal22v10"), Ok(Device::Gal22v10));
    assert_eq!(device_from_name(b"GAL22V10"), Ok(Device::Gal22v10));
    assert_eq!(device_from_name(b"GAL16V8"), Err(DecodeError::UnknownDevice));
    assert_eq!(device_from_name(b"GAL20V8 "), Err(DecodeError::UnknownDevice));
    assert_eq!(device_from_name(b""), Err(DecodeError::UnknownDevice));
}

#[test]
fn exit_codes_follow_the_error_taxonomy() {
    assert_eq!(exit_code(&DecodeError::FuseCountMismatch), 2);
    assert_eq!(exit_code(&DecodeError::UnsupportedMode), 3);
    assert_eq!(exit_code(&DecodeError::UnknownDevice), 4);
}
