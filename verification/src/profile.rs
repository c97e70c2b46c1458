//! Per-device constant tables.
//!
//! Everything a decode pass needs to know about a device variant is held
//! in one [`DeviceProfile`] value: the fuse total, the row geometry, the
//! column-to-pin and cell-to-pin tables, and where the polarity, enable
//! and mode fuses live. The synthesis algorithm is written once against
//! this shape; adding a device means adding a table, not code.

use vstd::prelude::*;

use crate::types::Device;

verus! {

/// Where an output cell's polarity fuse lives.
#[derive(Clone, Copy, Debug, PartialEq, Eq, Structural)]
pub enum PolarityScheme {
    /// One flat fuse array at `base`, one fuse per cell: cell `i`'s fuse
    /// is at `base + i`, and an intact (`true`) fuse means active high,
    /// displayed without a prefix.
    External { base: usize },
    /// One fuse per cell inside the per-cell configuration area at
    /// `base`, two fuses per cell: cell `i`'s polarity fuse is at
    /// `base + 2 * i`, and an intact (`true`) fuse means the displayed
    /// output symbol carries a `/` prefix — note the sense is inverted
    /// relative to `External`.
    PerOutput { base: usize },
}

/// The addresses of a device's two global mode fuses.
#[derive(Clone, Copy, Debug, PartialEq, Eq, Structural)]
pub struct ModeBits {
    pub syn_addr: usize,
    pub ac0_addr: usize,
}

/// The mathematical shape of a device profile, used throughout the
/// decoder's specifications.
#[verifier::ext_equal]
pub struct Profile {
    /// Exact length the fuse array must have.
    pub total_fuses: usize,
    /// Number of output cells.
    pub cell_count: usize,
    /// Number of fuses in one AND row (two per column pair).
    pub row_width: usize,
    /// Rows before the first cell's block that carry no product terms
    /// (the async-reset row of devices that have one).
    pub leading_skip_rows: usize,
    /// Rows at the start of each cell's block that carry no product
    /// terms (the output-enable row of devices that have one).
    pub per_cell_skip_rows: usize,
    /// Product rows of each cell, by cell index.
    pub rows_per_cell: Seq<usize>,
    /// Physical pin of each column pair, by pair index.
    pub column_pins: Seq<u8>,
    /// Physical pin of each output cell, by cell index, top to bottom.
    pub output_pins: Seq<u8>,
    /// Where each cell's polarity fuse lives.
    pub polarity: PolarityScheme,
    /// Base of the flat enable-fuse array, one fuse per cell, where a
    /// set (`true`) fuse marks the cell input-only; `None` for devices
    /// without the concept.
    pub enable_base: Option<usize>,
    /// Addresses of the global mode fuses; `None` for devices whose one
    /// supported mode needs no detection.
    pub mode_bits: Option<ModeBits>,
}

/// Rows (product rows and skipped rows together) that precede cell `i`'s
/// block, counted from the start of the fuse array.
pub open spec fn rows_before(p: Profile, i: int) -> int
    decreases i,
{
    if i <= 0 {
        p.leading_skip_rows as int
    } else {
        rows_before(p, i - 1) + p.per_cell_skip_rows + p.rows_per_cell[i - 1]
    }
}

/// First fuse address of cell `i`'s product rows.
pub open spec fn cell_row_base(p: Profile, i: int) -> int {
    p.row_width * (rows_before(p, i) + p.per_cell_skip_rows)
}

/// Well-formedness of a profile: table lengths agree, every addressed
/// fuse lies inside the declared total, and the pin tables name distinct
/// pins whose display letters are ASCII capitals.
pub open spec fn wf(p: Profile) -> bool {
    &&& p.rows_per_cell.len() == p.cell_count
    &&& p.output_pins.len() == p.cell_count
    &&& p.column_pins.len() * 2 == p.row_width
    &&& 0 < p.row_width
    &&& p.row_width * rows_before(p, p.cell_count as int) <= p.total_fuses
    &&& (match p.polarity {
        PolarityScheme::External { base } => base + p.cell_count <= p.total_fuses,
        PolarityScheme::PerOutput { base } => base + 2 * p.cell_count <= p.total_fuses,
    })
    &&& (match p.enable_base {
        Some(base) => base + p.cell_count <= p.total_fuses,
        None => true,
    })
    &&& (match p.mode_bits {
        Some(mb) => mb.syn_addr < p.total_fuses && mb.ac0_addr < p.total_fuses,
        None => true,
    })
    &&& (forall|i: int, j: int|
        0 <= i < j < p.column_pins.len() ==> p.column_pins[i] != p.column_pins[j])
    &&& (forall|i: int| 0 <= i < p.column_pins.len() ==> 1 <= #[trigger] p.column_pins[i] <= 26)
    &&& (forall|i: int| 0 <= i < p.output_pins.len() ==> 1 <= #[trigger] p.output_pins[i] <= 26)
}

/// `rows_before` never shrinks as the cell index grows.
pub proof fn lemma_rows_before_monotonic(p: Profile, i: int, j: int)
    requires
        0 <= i <= j,
        forall|k: int| 0 <= k < p.rows_per_cell.len() ==> #[trigger] p.rows_per_cell[k] >= 0,
    ensures
        rows_before(p, i) <= rows_before(p, j),
    decreases j - i,
{
    if i < j {
        lemma_rows_before_monotonic(p, i, j - 1);
    }
}

/// The constant table of each supported device.
pub open spec fn device_profile(d: Device) -> Profile {
    match d {
        Device::Gal20v8 => Profile {
            total_fuses: 2706,
            cell_count: 8,
            row_width: 40,
            leading_skip_rows: 0,
            per_cell_skip_rows: 0,
            rows_per_cell: seq![8usize, 8, 8, 8, 8, 8, 8, 8],
            column_pins: seq![
                1u8, 23, 2, 22, 3, 21, 4, 20, 5, 19, 6, 18, 7, 17, 8, 16, 9, 15, 10, 14,
            ],
            output_pins: seq![22u8, 21, 20, 19, 18, 17, 16, 15],
            polarity: PolarityScheme::External { base: 2560 },
            enable_base: Some(2632),
            mode_bits: Some(ModeBits { syn_addr: 2704, ac0_addr: 2705 }),
        },
        Device::Gal22v10 => Profile {
            total_fuses: 5892,
            cell_count: 10,
            row_width: 44,
            leading_skip_rows: 1,
            per_cell_skip_rows: 1,
            rows_per_cell: seq![8usize, 10, 12, 14, 16, 16, 14, 12, 10, 8],
            column_pins: seq![
                1u8, 23, 2, 22, 3, 21, 4, 20, 5, 19, 6, 18, 7, 17, 8, 16, 9, 15, 10, 14, 11, 13,
            ],
            output_pins: seq![23u8, 22, 21, 20, 19, 18, 17, 16, 15, 14],
            polarity: PolarityScheme::PerOutput { base: 5808 },
            enable_base: None,
            mode_bits: None,
        },
    }
}

/// Both built-in profiles are well formed.
pub proof fn lemma_device_profile_wf(d: Device)
    ensures
        wf(device_profile(d)),
{
    let p = device_profile(d);
    match d {
        Device::Gal20v8 => {
            assert(rows_before(p, 8) == 64) by {
                reveal_with_fuel(rows_before, 9);
            };
            assert(wf(p));
        },
        Device::Gal22v10 => {
            assert(rows_before(p, 10) == 131) by {
                reveal_with_fuel(rows_before, 11);
            };
            assert(wf(p));
        },
    }
}

/// The executable form of a device profile; its view is the [`Profile`]
/// the specifications speak of.
#[derive(Clone, Debug)]
pub struct DeviceProfile {
    pub total_fuses: usize,
    pub cell_count: usize,
    pub row_width: usize,
    pub leading_skip_rows: usize,
    pub per_cell_skip_rows: usize,
    pub rows_per_cell: Vec<usize>,
    pub column_pins: Vec<u8>,
    pub output_pins: Vec<u8>,
    pub polarity: PolarityScheme,
    pub enable_base: Option<usize>,
    pub mode_bits: Option<ModeBits>,
}

impl View for DeviceProfile {
    type V = Profile;

    open spec fn view(&self) -> Profile {
        Profile {
            total_fuses: self.total_fuses,
            cell_count: self.cell_count,
            row_width: self.row_width,
            leading_skip_rows: self.leading_skip_rows,
            per_cell_skip_rows: self.per_cell_skip_rows,
            rows_per_cell: self.rows_per_cell@,
            column_pins: self.column_pins@,
            output_pins: self.output_pins@,
            polarity: self.polarity,
            enable_base: self.enable_base,
            mode_bits: self.mode_bits,
        }
    }
}

/// The registry of supported devices: the constant table of `d`.
///
/// The selector type is closed, so every selector resolves; a selector
/// given by name goes through [`crate::synth::device_from_name`], which
/// rejects unknown names.
pub fn profile_for(d: Device) -> (r: DeviceProfile)
    ensures
        r@ == device_profile(d),
        wf(r@),
{
    proof {
        lemma_device_profile_wf(d);
    }
    let r = match d {
        Device::Gal20v8 => DeviceProfile {
            total_fuses: 2706,
            cell_count: 8,
            row_width: 40,
            leading_skip_rows: 0,
            per_cell_skip_rows: 0,
            rows_per_cell: vec![8usize, 8, 8, 8, 8, 8, 8, 8],
            column_pins: vec![
                1u8, 23, 2, 22, 3, 21, 4, 20, 5, 19, 6, 18, 7, 17, 8, 16, 9, 15, 10, 14,
            ],
            output_pins: vec![22u8, 21, 20, 19, 18, 17, 16, 15],
            polarity: PolarityScheme::External { base: 2560 },
            enable_base: Some(2632),
            mode_bits: Some(ModeBits { syn_addr: 2704, ac0_addr: 2705 }),
        },
        Device::Gal22v10 => DeviceProfile {
            total_fuses: 5892,
            cell_count: 10,
            row_width: 44,
            leading_skip_rows: 1,
            per_cell_skip_rows: 1,
            rows_per_cell: vec![8usize, 10, 12, 14, 16, 16, 14, 12, 10, 8],
            column_pins: vec![
                1u8, 23, 2, 22, 3, 21, 4, 20, 5, 19, 6, 18, 7, 17, 8, 16, 9, 15, 10, 14, 11, 13,
            ],
            output_pins: vec![23u8, 22, 21, 20, 19, 18, 17, 16, 15, 14],
            polarity: PolarityScheme::PerOutput { base: 5808 },
            enable_base: None,
            mode_bits: None,
        },
    };
    proof {
        assert(r@.rows_per_cell =~= device_profile(d).rows_per_cell);
        assert(r@.column_pins =~= device_profile(d).column_pins);
        assert(r@.output_pins =~= device_profile(d).output_pins);
        assert(r@ =~= device_profile(d));
    }
    r
}

} // verus!
