//! Gamma ramps for a colour temperature.

use vstd::prelude::*;

verus! {

/// Gamma ramps for the red, green and blue channels of an output.
pub type GammaRamps = (Vec<u16>, Vec<u16>, Vec<u16>);

/// Position of the entry `i` in a ramp of `size` entries, as a fraction of its
/// full value: from nothing in the first entry to all of it in the last one. The
/// entry of a ramp of one is full.
pub open spec fn entry_position(i: int, size: int) -> (int, int) {
    if size == 1 {
        (1, 1)
    } else {
        (i, size - 1)
    }
}

/// Is `ramp` a ramp of `size` entries, each of which `entry` gives for its
/// position and the channel's multiplier?
pub open spec fn is_scaled_ramp<M, E: Fn(usize, usize, M) -> u16>(
    ramp: Seq<u16>,
    multiplier: M,
    size: usize,
    entry: E,
) -> bool {
    &&& ramp.len() == size
    &&& forall|i: int|
        0 <= i < size ==> call_ensures(
            entry,
            (
                entry_position(i, size as int).0 as usize,
                entry_position(i, size as int).1 as usize,
                multiplier,
            ),
            #[trigger] ramp[i],
        )
}

/// A ramp of `size` entries for one channel.
fn scale<M: Copy, E: Fn(usize, usize, M) -> u16>(multiplier: M, size: usize, entry: &E) -> (ramp:
    Vec<u16>)
    requires
        forall|n: usize, d: usize, m: M|
            n <= d && 0 < d ==> #[trigger] call_requires(*entry, (n, d, m)),
    ensures
        is_scaled_ramp(ramp@, multiplier, size, *entry),
{
    let mut ramp: Vec<u16> = Vec::new();
    if size == 1 {
        ramp.push(entry(1, 1, multiplier));
        return ramp;
    }
    let mut i: usize = 0;
    while i < size
        invariant
            size != 1,
            i <= size,
            ramp.len() == i,
            forall|n: usize, d: usize, m: M|
                n <= d && 0 < d ==> #[trigger] call_requires(*entry, (n, d, m)),
            forall|j: int|
                0 <= j < i ==> call_ensures(
                    *entry,
                    (
                        entry_position(j, size as int).0 as usize,
                        entry_position(j, size as int).1 as usize,
                        multiplier,
                    ),
                    #[trigger] ramp[j],
                ),
        decreases size - i,
    {
        ramp.push(entry(i, size - 1, multiplier));
        i += 1;
    }
    ramp
}

/// Convert a color temperature into gamma ramps of `size` entries per channel.
///
/// `multipliers` gives the channel multipliers of a temperature, and `entry` the
/// value of a ramp's entry at a position, a fraction of the ramp, for a
/// multiplier.
pub fn temperature_to_ramps<K, M: Copy, P: Fn(K) -> [M; 3], E: Fn(usize, usize, M) -> u16>(
    kelvin: K,
    size: usize,
    multipliers: &P,
    entry: &E,
) -> (ramps: GammaRamps)
    requires
        size > 0 ==> call_requires(*multipliers, (kelvin,)),
        forall|n: usize, d: usize, m: M|
            n <= d && 0 < d ==> #[trigger] call_requires(*entry, (n, d, m)),
    ensures
        ramps.0@.len() == size,
        ramps.1@.len() == size,
        ramps.2@.len() == size,
        size > 0 ==> exists|m: [M; 3]| #[trigger]
            call_ensures(*multipliers, (kelvin,), m) && is_scaled_ramp(
                ramps.0@,
                m@[0],
                size,
                *entry,
            ) && is_scaled_ramp(ramps.1@, m@[1], size, *entry) && is_scaled_ramp(
                ramps.2@,
                m@[2],
                size,
                *entry,
            ),
{
    if size == 0 {
        return (Vec::new(), Vec::new(), Vec::new());
    }
    let m = multipliers(kelvin);
    (scale(m[0], size, entry), scale(m[1], size, entry), scale(m[2], size, entry))
}

/// The positions of a ramp rise, and the last one is full.
pub proof fn law_positions_rise(i: int, j: int, size: int)
    requires
        0 <= i < j < size,
    ensures
        entry_position(i, size).1 == entry_position(j, size).1,
        entry_position(i, size).0 < entry_position(j, size).0,
        entry_position(0, size).0 == 0,
        entry_position(size - 1, size).0 == entry_position(size - 1, size).1,
{
}

/// Does `entry` rise with the position, for this multiplier?
pub open spec fn entry_rises<M, E: Fn(usize, usize, M) -> u16>(entry: E, multiplier: M) -> bool {
    forall|n: usize, k: usize, d: usize, a: u16, b: u16|
        n <= k <= d && #[trigger] call_ensures(entry, (n, d, multiplier), a)
            && #[trigger] call_ensures(entry, (k, d, multiplier), b) ==> a <= b
}

/// Does `entry` give nothing at the start of a ramp, for this multiplier?
pub open spec fn entry_starts_at_zero<M, E: Fn(usize, usize, M) -> u16>(
    entry: E,
    multiplier: M,
) -> bool {
    forall|d: usize, a: u16|
        0 < d && #[trigger] call_ensures(entry, (0usize, d, multiplier), a) ==> a == 0
}

/// Does `entry` give `full` at the end of a ramp, for this multiplier?
pub open spec fn entry_ends_at<M, E: Fn(usize, usize, M) -> u16>(
    entry: E,
    multiplier: M,
    full: u16,
) -> bool {
    forall|d: usize, a: u16|
        0 < d && #[trigger] call_ensures(entry, (d, d, multiplier), a) ==> a == full
}

/// A ramp rises from nothing to its full value, if its entries do so with their
/// position: it is sorted, starts at 0 unless it has one entry only, and its last
/// entry, also of a ramp of one, is the full value.
pub proof fn law_ramp_rises<M, E: Fn(usize, usize, M) -> u16>(
    ramp: Seq<u16>,
    multiplier: M,
    size: usize,
    entry: E,
    full: u16,
)
    requires
        size >= 1,
        is_scaled_ramp(ramp, multiplier, size, entry),
        entry_rises(entry, multiplier),
        entry_starts_at_zero(entry, multiplier),
        entry_ends_at(entry, multiplier, full),
    ensures
        forall|i: int, j: int| 0 <= i <= j < size ==> ramp[i] <= ramp[j],
        size >= 2 ==> ramp[0] == 0,
        ramp[size - 1] == full,
{
    let last = ramp[size - 1];
    assert forall|i: int, j: int| 0 <= i <= j < size implies ramp[i] <= ramp[j] by {
        if i < j {
            law_positions_rise(i, j, size as int);
            assert(call_ensures(entry, (i as usize, (size - 1) as usize, multiplier), ramp[i]));
            assert(call_ensures(entry, (j as usize, (size - 1) as usize, multiplier), ramp[j]));
        }
    }
    if size >= 2 {
        let first = ramp[0];
        assert(call_ensures(entry, (0usize, (size - 1) as usize, multiplier), first));
        assert(call_ensures(
            entry,
            ((size - 1) as usize, (size - 1) as usize, multiplier),
            last,
        ));
    } else {
        assert(call_ensures(entry, (1usize, 1usize, multiplier), last));
    }
}

/// The positions of a ramp are evenly spaced: the entry `i` stands at `i` parts
/// of `size - 1`, and the only entry of a ramp of one at the whole.
pub proof fn law_positions_even(i: int, size: int)
    requires
        0 <= i < size,
    ensures
        entry_position(i, size).0 * (size - 1) == i * entry_position(i, size).1,
        size >= 2 ==> entry_position(i, size).1 == size - 1,
        size >= 2 ==> entry_position(i, size).0 == i,
        size == 1 ==> entry_position(i, size).0 == 1 && entry_position(i, size).1 == 1,
{
    let p = entry_position(i, size);
    if size == 1 {
        assert(p.0 * (size - 1) == i * p.1) by (nonlinear_arith)
            requires
                size == 1,
                i == 0,
        ;
    } else {
        assert(p == (i, size - 1));
    }
}

/// Each entry of a ramp is what the entry function gives for its place among the
/// others and the channel's multiplier, and there are `size` of them.
pub proof fn law_ramp_entries<M, E: Fn(usize, usize, M) -> u16>(
    ramp: Seq<u16>,
    multiplier: M,
    size: usize,
    entry: E,
    i: usize,
)
    requires
        is_scaled_ramp(ramp, multiplier, size, entry),
        i < size,
    ensures
        ramp.len() == size,
        size >= 2 ==> call_ensures(entry, (i, (size - 1) as usize, multiplier), ramp[i as int]),
        size == 1 ==> call_ensures(entry, (1usize, 1usize, multiplier), ramp[0]),
{
    let value = ramp[i as int];
    law_positions_even(i as int, size as int);
}

} // verus!
