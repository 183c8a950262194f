//! The gamma table that a client hands over: three ramps, one after the other,
//! of 16-bit values in the machine's byte order.

use vstd::prelude::*;

use crate::ramps::GammaRamps;

verus! {

/// The order of the two bytes of a value.
#[derive(Debug, Clone, Copy, PartialEq, Eq, Structural)]
pub enum ByteOrder {
    /// The low byte comes first.
    Little,
    /// The high byte comes first.
    Big,
}

/// A gamma table that does not have the size it should have, in bytes.
#[derive(Debug, Clone, Copy, PartialEq, Eq, Structural)]
pub struct GammaTableError {
    /// The size that it should have.
    pub expected: usize,
    /// The size that it has.
    pub got: usize,
}

/// The value of two bytes.
pub open spec fn pair_value(first: u8, second: u8, order: ByteOrder) -> u16 {
    match order {
        ByteOrder::Little => (first + 256 * second) as u16,
        ByteOrder::Big => (256 * first + second) as u16,
    }
}

/// The `size` values that begin at the byte `start`.
pub open spec fn ramp_at(bytes: Seq<u8>, start: int, size: int, order: ByteOrder) -> Seq<u16> {
    Seq::new(
        size as nat,
        |i: int| pair_value(bytes[start + 2 * i], bytes[start + 2 * i + 1], order),
    )
}

/// Is `ramps` what the bytes of a table hold, in this order: the red ramp, the
/// green one and the blue one, of `size` values each?
pub open spec fn holds_ramps(bytes: Seq<u8>, size: int, order: ByteOrder, ramps: GammaRamps) -> bool {
    &&& bytes.len() == 6 * size
    &&& ramps.0@ == ramp_at(bytes, 0, size, order)
    &&& ramps.1@ == ramp_at(bytes, 2 * size, size, order)
    &&& ramps.2@ == ramp_at(bytes, 4 * size, size, order)
}

/// Is `result` the outcome of reading a table of `size` values per ramp? A table
/// of the right size has ramps, and one of another size is refused with both
/// sizes.
pub open spec fn is_table_result(
    bytes: Seq<u8>,
    size: int,
    order: ByteOrder,
    result: Result<GammaRamps, GammaTableError>,
) -> bool {
    match result {
        Ok(ramps) => holds_ramps(bytes, size, order, ramps),
        Err(error) => {
            &&& bytes.len() != 6 * size
            &&& error.expected == 6 * size
            &&& error.got == bytes.len()
        },
    }
}

/// The value of two bytes in the machine's byte order: `u16::from_ne_bytes`.
///
/// Trusted: it is the value in one of the two orders. Which of them is the
/// machine's business, and is not stated.
#[verifier::external_body]
fn native_pair(first: u8, second: u8) -> (value: u16)
    ensures
        value == pair_value(first, second, ByteOrder::Little) || value == pair_value(
            first,
            second,
            ByteOrder::Big,
        ),
{
    u16::from_ne_bytes([first, second])
}

/// Is `order` the order in which the machine reads the bytes 1 and 0?
pub closed spec fn is_native_order(order: ByteOrder) -> bool {
    call_ensures(native_pair, (1u8, 0u8), pair_value(1, 0, order))
}

/// The machine's byte order.
pub fn native_byte_order() -> (order: ByteOrder)
    ensures
        is_native_order(order),
{
    let value: u16 = native_pair(1, 0);
    if value == 1 {
        ByteOrder::Little
    } else {
        ByteOrder::Big
    }
}

/// Reads the `size` values that begin at the byte `start`.
fn read_ramp(bytes: &Vec<u8>, start: usize, size: usize, order: ByteOrder) -> (ramp: Vec<u16>)
    requires
        start + 2 * size <= bytes.len(),
    ensures
        ramp@ == ramp_at(bytes@, start as int, size as int, order),
{
    let mut ramp: Vec<u16> = Vec::new();
    let mut i: usize = 0;
    while i < size
        invariant
            i <= size,
            start + 2 * size <= bytes.len(),
            ramp@ == ramp_at(bytes@, start as int, i as int, order),
        decreases size - i,
    {
        let first: u16 = bytes[start + 2 * i] as u16;
        let second: u16 = bytes[start + 2 * i + 1] as u16;
        let value: u16 = match order {
            ByteOrder::Little => first + 256 * second,
            ByteOrder::Big => 256 * first + second,
        };
        ramp.push(value);
        i += 1;
        assert(ramp@ =~= ramp_at(bytes@, start as int, i as int, order));
    }
    ramp
}

/// Reads a gamma table of `size` values per ramp, in the given byte order.
pub fn parse_gamma_ramps(bytes: &Vec<u8>, size: usize, order: ByteOrder) -> (result: Result<
    GammaRamps,
    GammaTableError,
>)
    requires
        6 * size <= usize::MAX,
    ensures
        is_table_result(bytes@, size as int, order, result),
{
    let expected: usize = size * 3 * 2;
    if bytes.len() != expected {
        return Err(GammaTableError { expected, got: bytes.len() });
    }
    let red = read_ramp(bytes, 0, size, order);
    let green = read_ramp(bytes, 2 * size, size, order);
    let blue = read_ramp(bytes, 4 * size, size, order);
    Ok((red, green, blue))
}

/// Read three gamma ramps (red, green, blue) of `size` u16 values each from the
/// contents of a file.
///
/// The ramps are encoded as `3 * size` native-endian u16 values, like wlroots does it.
pub fn read_gamma_ramps(contents: &Vec<u8>, size: usize) -> (result: Result<
    GammaRamps,
    GammaTableError,
>)
    requires
        6 * size <= usize::MAX,
    ensures
        exists|order: ByteOrder| #[trigger]
            is_native_order(order) && is_table_result(contents@, size as int, order, result),
        result is Ok <==> contents@.len() == 6 * size,
{
    parse_gamma_ramps(contents, size, native_byte_order())
}

/// The bytes of one ramp.
pub open spec fn ramp_bytes(ramp: Seq<u16>, order: ByteOrder) -> Seq<u8> {
    Seq::new(
        2 * ramp.len(),
        |i: int|
            if (i % 2 == 0) == (order is Little) {
                (ramp[i / 2] % 256) as u8
            } else {
                (ramp[i / 2] / 256) as u8
            },
    )
}

/// The bytes of a gamma table.
pub open spec fn table_bytes(
    red: Seq<u16>,
    green: Seq<u16>,
    blue: Seq<u16>,
    order: ByteOrder,
) -> Seq<u8> {
    ramp_bytes(red, order) + ramp_bytes(green, order) + ramp_bytes(blue, order)
}

/// The two bytes of a value give it back.
proof fn lemma_pair_of_value(value: u16)
    ensures
        pair_value((value % 256) as u8, (value / 256) as u8, ByteOrder::Little) == value,
        pair_value((value / 256) as u8, (value % 256) as u8, ByteOrder::Big) == value,
{
}

/// The ramp that stands at the byte `start` of a table is the one whose bytes do.
proof fn lemma_ramp_read_back(bytes: Seq<u8>, start: int, ramp: Seq<u16>, order: ByteOrder)
    requires
        0 <= start,
        start + 2 * ramp.len() <= bytes.len(),
        bytes.subrange(start, start + 2 * ramp.len()) == ramp_bytes(ramp, order),
    ensures
        ramp_at(bytes, start, ramp.len() as int, order) == ramp,
{
    let read = ramp_at(bytes, start, ramp.len() as int, order);
    let part = bytes.subrange(start, start + 2 * ramp.len());
    assert forall|i: int| 0 <= i < ramp.len() implies read[i] == ramp[i] by {
        lemma_pair_of_value(ramp[i]);
        assert(part[2 * i] == bytes[start + 2 * i]);
        assert(part[2 * i + 1] == bytes[start + 2 * i + 1]);
    }
    assert(read =~= ramp);
}

/// Reading a table gives back the ramps that were written into it in the same
/// byte order.
pub proof fn law_ramps_read_back(
    red: Seq<u16>,
    green: Seq<u16>,
    blue: Seq<u16>,
    order: ByteOrder,
    size: int,
    result: Result<GammaRamps, GammaTableError>,
)
    requires
        red.len() == size,
        green.len() == size,
        blue.len() == size,
        is_table_result(table_bytes(red, green, blue, order), size, order, result),
    ensures
        result is Ok,
        result->Ok_0.0@ == red,
        result->Ok_0.1@ == green,
        result->Ok_0.2@ == blue,
{
    let bytes = table_bytes(red, green, blue, order);
    assert(bytes.subrange(0, 2 * size) =~= ramp_bytes(red, order));
    assert(bytes.subrange(2 * size, 2 * size + 2 * size) =~= ramp_bytes(green, order));
    assert(bytes.subrange(4 * size, 4 * size + 2 * size) =~= ramp_bytes(blue, order));
    lemma_ramp_read_back(bytes, 0, red, order);
    lemma_ramp_read_back(bytes, 2 * size, green, order);
    lemma_ramp_read_back(bytes, 4 * size, blue, order);
}

/// Tables that differ hold ramps that differ: nothing in a table goes unread.
pub proof fn law_table_read_whole(
    a: Seq<u8>,
    b: Seq<u8>,
    size: int,
    order: ByteOrder,
    ramps: GammaRamps,
)
    requires
        holds_ramps(a, size, order, ramps),
        holds_ramps(b, size, order, ramps),
    ensures
        a == b,
{
    assert forall|i: int| 0 <= i < a.len() implies a[i] == b[i] by {
        let start = if i < 2 * size {
            0
        } else if i < 4 * size {
            2 * size
        } else {
            4 * size
        };
        let k = (i - start) / 2;
        assert(ramp_at(a, start, size, order) == ramp_at(b, start, size, order));
        assert(ramp_at(a, start, size, order)[k] == ramp_at(b, start, size, order)[k]);
        assert(i == start + 2 * k || i == start + 2 * k + 1);
    }
    assert(a =~= b);
}

/// Where a table holds what: the red ramp comes first, then the green one, then
/// the blue one, each value in two bytes, of which the low one comes first in the
/// little order and the high one in the big order.
pub proof fn law_table_layout(
    bytes: Seq<u8>,
    size: int,
    order: ByteOrder,
    ramps: GammaRamps,
    i: int,
)
    requires
        holds_ramps(bytes, size, order, ramps),
        0 <= i < size,
    ensures
        bytes.len() == 6 * size,
        ramps.0@.len() == size,
        ramps.1@.len() == size,
        ramps.2@.len() == size,
        order == ByteOrder::Little ==> {
            &&& ramps.0@[i] == bytes[2 * i] + 256 * bytes[2 * i + 1]
            &&& ramps.1@[i] == bytes[2 * size + 2 * i] + 256 * bytes[2 * size + 2 * i + 1]
            &&& ramps.2@[i] == bytes[4 * size + 2 * i] + 256 * bytes[4 * size + 2 * i + 1]
        },
        order == ByteOrder::Big ==> {
            &&& ramps.0@[i] == 256 * bytes[2 * i] + bytes[2 * i + 1]
            &&& ramps.1@[i] == 256 * bytes[2 * size + 2 * i] + bytes[2 * size + 2 * i + 1]
            &&& ramps.2@[i] == 256 * bytes[4 * size + 2 * i] + bytes[4 * size + 2 * i + 1]
        },
{
}

/// A table is read if, and only if, it has two bytes for each of the three ramps'
/// values; otherwise both sizes are reported.
pub proof fn law_table_size_decides(
    bytes: Seq<u8>,
    size: int,
    order: ByteOrder,
    result: Result<GammaRamps, GammaTableError>,
)
    requires
        is_table_result(bytes, size, order, result),
    ensures
        result is Ok <==> bytes.len() == size * 3 * 2,
        result is Ok ==> result->Ok_0.0@.len() == size && result->Ok_0.1@.len() == size
            && result->Ok_0.2@.len() == size,
        result is Ok ==> holds_ramps(bytes, size, order, result->Ok_0),
        result is Err ==> result->Err_0.expected == size * 3 * 2 && result->Err_0.got
            == bytes.len(),
{
}

/// The machine's order is the one in which it reads the bytes 1 and 0: as 1 where
/// the low byte comes first, as 256 where the high one does.
proof fn law_native_order(order: ByteOrder)
    ensures
        is_native_order(order) <==> match order {
            ByteOrder::Little => call_ensures(native_pair, (1u8, 0u8), 1u16),
            ByteOrder::Big => call_ensures(native_pair, (1u8, 0u8), 256u16),
        },
{
}

/// The value of two bytes: the low one counts once and the high one 256 times.
pub proof fn law_pair_value(low: u8, high: u8)
    ensures
        pair_value(low, high, ByteOrder::Little) == low + 256 * high,
        pair_value(high, low, ByteOrder::Big) == low + 256 * high,
{
}

} // verus!
