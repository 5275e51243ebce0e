//! The integer rules of the scene's wildlife: how many penguins stand on the
//! floes, which way each animal faces, which jacket each penguin wears, and
//! the fixed seeds each animal's scenery is drawn from.

use vstd::prelude::*;

verus! {

/// Upper bound on fish. The whole population is always simulated; load decides
/// how many of them are faded in.
pub const MAX_HALIBUT: usize = 6;

/// The layout has room for this many floes.
pub const MAX_PENGUINS: usize = 4;

/// The jacket colours penguins take in turn.
pub const JACKET_COLOURS: usize = 3;

/// How many penguins to draw for the configured number.
pub open spec fn spec_penguin_count(setting: u8) -> nat {
    if setting as nat <= MAX_PENGUINS as nat {
        setting as nat
    } else {
        MAX_PENGUINS as nat
    }
}

/// How many penguins stand on floes: the configured number, capped at four by
/// the layout.
pub fn penguin_count(setting: u8) -> (n: usize)
    ensures
        n == spec_penguin_count(setting),
        n <= MAX_PENGUINS,
        n <= setting,
        setting <= MAX_PENGUINS ==> n == setting,
        setting >= MAX_PENGUINS ==> n == MAX_PENGUINS,
{
    if (setting as usize) < MAX_PENGUINS {
        setting as usize
    } else {
        MAX_PENGUINS
    }
}

/// Whether animal `i` faces (or swims) to the right: even ones do, odd ones
/// face left, so neighbours look at each other or away.
pub fn heads_right(i: usize) -> (b: bool)
    ensures
        b == (i % 2 == 0),
{
    i % 2 == 0
}

/// Which of the jacket colours penguin `i` wears.
pub fn jacket_slot(i: usize) -> (j: usize)
    ensures
        j == i % JACKET_COLOURS,
        j < JACKET_COLOURS,
{
    i % JACKET_COLOURS
}

/// Seed for halibut `i`'s lane, length, starting offset and drift.
pub fn halibut_layout_seed(i: usize) -> (s: u64)
    requires
        0x1000 + i * 7919 <= u64::MAX,
    ensures
        s == 0x1000 + i * 7919,
{
    0x1000 + i as u64 * 7919
}

/// Seed for halibut `i`'s speckle pattern.
pub fn halibut_speckle_seed(i: usize) -> (s: u64)
    requires
        0xBEEF + i * 104_729 <= u64::MAX,
    ensures
        s == 0xBEEF + i * 104_729,
{
    0xBEEF + i as u64 * 104_729
}

/// Seed for the jitter and size of penguin `i`'s floe.
pub fn floe_seed(i: usize) -> (s: u64)
    requires
        0x2000 + i * 6151 <= u64::MAX,
    ensures
        s == 0x2000 + i * 6151,
{
    0x2000 + i as u64 * 6151
}

/// The penguin count is the smaller of the setting and four: every setting up
/// to four is drawn in full, and anything more is cut to four.
pub proof fn lemma_penguin_count_is_capped_setting(setting: u8)
    ensures
        setting <= 4 ==> spec_penguin_count(setting) == setting,
        setting >= 4 ==> spec_penguin_count(setting) == 4,
        spec_penguin_count(setting) <= setting,
{
}

/// Neighbouring animals face opposite ways and neighbouring penguins wear
/// different jackets.
pub proof fn lemma_neighbours_differ(i: nat)
    ensures
        (i % 2 == 0) != ((i + 1) % 2 == 0),
        i % (JACKET_COLOURS as nat) != (i + 1) % (JACKET_COLOURS as nat),
{
}

/// Every animal gets its own seed, so no two share a pattern.
pub proof fn lemma_seeds_distinct(i: nat, j: nat)
    requires
        i != j,
    ensures
        0x1000 + i * 7919 != 0x1000 + j * 7919,
        0xBEEF + i * 104_729 != 0xBEEF + j * 104_729,
        0x2000 + i * 6151 != 0x2000 + j * 6151,
{
    assert(i * 7919 != j * 7919) by (nonlinear_arith)
        requires
            i != j,
    ;
    assert(i * 104_729 != j * 104_729) by (nonlinear_arith)
        requires
            i != j,
    ;
    assert(i * 6151 != j * 6151) by (nonlinear_arith)
        requires
            i != j,
    ;
}

} // verus!
