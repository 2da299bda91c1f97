//! What a reader of the byte stream gets back of what was written.

use vstd::arithmetic::power2;
use vstd::prelude::*;

use crate::bitstream_utils;
use crate::codec::h264::emulation;
use crate::codec::h264::emulation::EmulationPrevention;
use crate::codec::h264::golomb;
use crate::codec::h264::parser::NaluType;
use crate::codec::h264::parser::Pps;
use crate::codec::h264::parser::SliceHeader;
use crate::codec::h264::parser::Sps;
use crate::codec::h264::syntax;
use crate::codec::h264::syntax::Element;
use crate::encode::IsReference;

verus! {

/// Whether a start code, or what a reader may take for one, stands in
/// `bytes`: `00 00 xx`, `xx` at most 2.
pub open spec fn emulates_start_code(bytes: Seq<u8>) -> bool {
    exists|i: int|
        0 <= i < bytes.len() - 2 && #[trigger] bytes[i] == 0 && bytes[i + 1] == 0 && bytes[i + 2]
            <= 2
}

/// `bytes` without the emulation prevention bytes: of `00 00 03`, the last is dropped.
pub open spec fn unescape(bytes: Seq<u8>) -> Seq<u8>
    decreases bytes.len(),
{
    if bytes.len() == 0 {
        seq![]
    } else if bytes.len() >= 3 && bytes[0] == 0 && bytes[1] == 0 && bytes[2] == 3 {
        seq![0u8, 0u8] + unescape(bytes.skip(3))
    } else {
        seq![bytes[0]] + unescape(bytes.skip(1))
    }
}

/// Escaped bytes start with the first two bytes that were escaped.
pub(crate) proof fn lemma_escape_head(bytes: Seq<u8>)
    ensures
        bytes.len() >= 1 ==> emulation::escape(bytes).len() >= 1 && emulation::escape(bytes)[0]
            == bytes[0],
        bytes.len() >= 2 ==> emulation::escape(bytes).len() >= 2 && emulation::escape(bytes)[1]
            == bytes[1],
        bytes.len() <= 1 ==> emulation::escape(bytes).len() == bytes.len(),
{
    reveal_with_fuel(emulation::escape, 3);
}

/// A byte in front of others starts a pattern with the first two of them, or none starts there.
proof fn lemma_pattern_behind(head: u8, tail: Seq<u8>)
    requires
        !emulates_start_code(tail),
        tail.len() >= 2 ==> !(head == 0 && tail[0] == 0 && tail[1] <= 2),
    ensures
        !emulates_start_code(seq![head] + tail),
{
    let all = seq![head] + tail;
    assert forall|i: int| 0 <= i < all.len() - 2 && #[trigger] all[i] == 0 implies !(all[i + 1] == 0
        && all[i + 2] <= 2) by {
        if i > 0 {
            assert(all[i] == tail[i - 1] && all[i + 1] == tail[i] && all[i + 2] == tail[i + 1]);
        }
    }
}

/// Escaped bytes hold nothing that could be taken for a start code.
pub proof fn escaped_bytes_emulate_no_start_code(bytes: Seq<u8>)
    ensures
        !emulates_start_code(emulation::escape(bytes)),
    decreases bytes.len(),
{
    if bytes.len() >= 3 && emulation::needs_escape(bytes[0], bytes[1], bytes[2]) {
        let tail = emulation::escape(bytes.skip(2));
        escaped_bytes_emulate_no_start_code(bytes.skip(2));
        let behind = seq![3u8] + tail;
        lemma_pattern_behind(3, tail);
        lemma_pattern_behind(0, behind);
        lemma_pattern_behind(0, seq![0u8] + behind);
        assert(emulation::escape(bytes) =~= seq![0u8] + (seq![0u8] + behind));
    } else if bytes.len() > 0 {
        let rest = bytes.skip(1);
        escaped_bytes_emulate_no_start_code(rest);
        lemma_escape_head(rest);
        lemma_pattern_behind(bytes[0], emulation::escape(rest));
    }
}

/// Dropping the emulation prevention bytes gives back what was escaped.
pub proof fn unescaping_gives_the_bytes_back(bytes: Seq<u8>)
    ensures
        unescape(emulation::escape(bytes)) == bytes,
    decreases bytes.len(),
{
    let out = emulation::escape(bytes);
    if bytes.len() >= 3 && emulation::needs_escape(bytes[0], bytes[1], bytes[2]) {
        unescaping_gives_the_bytes_back(bytes.skip(2));
        assert(out.skip(3) =~= emulation::escape(bytes.skip(2)));
    } else if bytes.len() > 0 {
        let rest = bytes.skip(1);
        unescaping_gives_the_bytes_back(rest);
        lemma_escape_head(rest);
        assert(out.skip(1) =~= emulation::escape(rest));
    }
    assert(unescape(out) =~= bytes);
}

/// The bits of `bytes`, the most significant first.
pub open spec fn unpack(bytes: Seq<u8>) -> Seq<bool> {
    Seq::new(
        8 * bytes.len(),
        |k: int| (bytes[k / 8] as nat / power2::pow2((7 - k % 8) as nat)) % 2 == 1,
    )
}

/// The digits of a byte.
proof fn lemma_digits(a: int, b: int, c: int, d: int, e: int, f: int, g: int, h: int)
    requires
        0 <= a <= 1,
        0 <= b <= 1,
        0 <= c <= 1,
        0 <= d <= 1,
        0 <= e <= 1,
        0 <= f <= 1,
        0 <= g <= 1,
        0 <= h <= 1,
    ensures
        ({
            let n = 128 * a + 64 * b + 32 * c + 16 * d + 8 * e + 4 * f + 2 * g + h;
            &&& n / 128 == a
            &&& n / 64 == 2 * a + b
            &&& n / 32 == 4 * a + 2 * b + c
            &&& n / 16 == 8 * a + 4 * b + 2 * c + d
            &&& n / 8 == 16 * a + 8 * b + 4 * c + 2 * d + e
            &&& n / 4 == 32 * a + 16 * b + 8 * c + 4 * d + 2 * e + f
            &&& n / 2 == 64 * a + 32 * b + 16 * c + 8 * d + 4 * e + 2 * f + g
        }),
{
}

/// A bit of a byte that was put together from bits.
proof fn lemma_bit_of_byte(bits: Seq<bool>, i: int, j: int)
    requires
        0 <= j < 8,
    ensures
        (byte_as_nat(bits, i) / power2::pow2((7 - j) as nat)) % 2 == bitstream_utils::bit_at(
            bits,
            8 * i + j,
        ),
{
    power2::lemma2_to64();
    bitstream_utils::lemma_byte_range(bits, i);
    lemma_digits(
        bitstream_utils::bit_at(bits, 8 * i),
        bitstream_utils::bit_at(bits, 8 * i + 1),
        bitstream_utils::bit_at(bits, 8 * i + 2),
        bitstream_utils::bit_at(bits, 8 * i + 3),
        bitstream_utils::bit_at(bits, 8 * i + 4),
        bitstream_utils::bit_at(bits, 8 * i + 5),
        bitstream_utils::bit_at(bits, 8 * i + 6),
        bitstream_utils::bit_at(bits, 8 * i + 7),
    );
    let n = byte_as_nat(bits, i);
    let p = power2::pow2((7 - j) as nat);
    if j == 0 {
        assert(p == 128 && n / p == n / 128);
    } else if j == 1 {
        assert(p == 64 && n / p == n / 64);
    } else if j == 2 {
        assert(p == 32 && n / p == n / 32);
    } else if j == 3 {
        assert(p == 16 && n / p == n / 16);
    } else if j == 4 {
        assert(p == 8 && n / p == n / 8);
    } else if j == 5 {
        assert(p == 4 && n / p == n / 4);
    } else if j == 6 {
        assert(p == 2 && n / p == n / 2);
    } else {
        assert(p == 1 && n / p == n);
    }
}

/// The byte at `i`, as a number that is not negative.
spec fn byte_as_nat(bits: Seq<bool>, i: int) -> nat {
    bitstream_utils::byte_at(bits, i) as nat
}

/// Packing loses no bit, and adds nothing but zeros at the end.
pub proof fn unpacking_gives_the_bits_back(bits: Seq<bool>)
    ensures
        unpack(bitstream_utils::pack(bits)) == bits + Seq::new(
            bitstream_utils::padding(bits) as nat,
            |i: int| false,
        ),
{
    let bytes = bitstream_utils::pack(bits);
    let filled = bits + Seq::new(bitstream_utils::padding(bits) as nat, |i: int| false);
    assert(8 * bytes.len() == filled.len());
    assert forall|k: int| 0 <= k < filled.len() implies unpack(bytes)[k] == filled[k] by {
        lemma_bit_of_byte(bits, k / 8, k % 8);
        bitstream_utils::lemma_byte_range(bits, k / 8);
        assert(8 * (k / 8) + k % 8 == k);
    }
    assert(unpack(bytes) =~= filled);
}

/// The number that `bits` spell, the most significant first.
pub open spec fn number(bits: Seq<bool>) -> nat
    decreases bits.len(),
{
    if bits.len() == 0 {
        0
    } else {
        2 * number(bits.drop_last()) + if bits.last() {
            1nat
        } else {
            0nat
        }
    }
}

/// The low bits of a number spell what is left of it.
proof fn lemma_number_of_value_bits(n: nat, value: nat)
    ensures
        number(bitstream_utils::value_bits(n, value)) == value % power2::pow2(n),
    decreases n,
{
    power2::lemma2_to64();
    let bits = bitstream_utils::value_bits(n, value);
    if n > 0 {
        let m = (n - 1) as nat;
        lemma_number_of_value_bits(m, value / 2);
        power2::lemma_pow2_unfold(n);
        power2::lemma_pow2_pos(m);
        assert(bits.drop_last() =~= bitstream_utils::value_bits(m, value / 2)) by {
            assert forall|i: int| 0 <= i < m implies bits[i] == bitstream_utils::value_bits(
                m,
                value / 2,
            )[i] by {
                let k = (m - 1 - i) as nat;
                power2::lemma_pow2_unfold(k + 1);
                power2::lemma_pow2_pos(k);
                assert((n - 1 - i) as nat == k + 1);
                vstd::arithmetic::div_mod::lemma_div_denominator(
                    value as int,
                    2,
                    power2::pow2(k) as int,
                );
            }
        }
        assert((n - 1 - m) as nat == 0);
        assert(value / power2::pow2(0) == value);
        assert(bits.last() == (value % 2 == 1));
        vstd::arithmetic::div_mod::lemma_mod_breakdown(value as int, 2, power2::pow2(m) as int);
    }
}

/// How a reader takes an element: by a number of bits, or as a code.
pub enum Descriptor {
    U(nat),
    Ue,
    Se,
}

/// How many of the first `n` bits are zero, before the first that is not.
pub open spec fn leading_zeros(bits: Seq<bool>) -> nat
    decreases bits.len(),
{
    if bits.len() == 0 || bits[0] {
        0
    } else {
        1 + leading_zeros(bits.skip(1))
    }
}

/// Reads a `ue(v)`: its value, and the bits behind it.
pub open spec fn read_ue(bits: Seq<bool>) -> (int, Seq<bool>) {
    let zeros = leading_zeros(bits) as int;
    let end = 2 * zeros + 1;
    (number(bits.subrange(zeros, end)) - 1, bits.skip(end))
}

/// The signed value that the number `code` stands for.
pub open spec fn signed_value(code: int) -> int {
    if code % 2 == 0 {
        -(code / 2)
    } else {
        (code + 1) / 2
    }
}

/// Reads an element: its value, and the bits behind it.
pub open spec fn read(descriptor: Descriptor, bits: Seq<bool>) -> (int, Seq<bool>) {
    match descriptor {
        Descriptor::U(n) => (number(bits.take(n as int)) as int, bits.skip(n as int)),
        Descriptor::Ue => read_ue(bits),
        Descriptor::Se => (signed_value(read_ue(bits).0), read_ue(bits).1),
    }
}

/// How `element` is read.
pub open spec fn descriptor(element: Element) -> Descriptor {
    match element {
        Element::U(bits, _) => Descriptor::U(bits as nat),
        Element::Ue(_) => Descriptor::Ue,
        Element::Se(_) => Descriptor::Se,
        Element::Unsupported => Descriptor::U(0),
    }
}

/// The value that `element` carries: of a fixed number of bits, no more than fits into them.
pub open spec fn value(element: Element) -> int {
    match element {
        Element::U(bits, value) => (value as nat % power2::pow2(bits as nat)) as int,
        Element::Ue(value) => value as int,
        Element::Se(value) => value as int,
        Element::Unsupported => 0,
    }
}

/// Zeros in front of a one are counted.
proof fn lemma_leading_zeros(zeros: Seq<bool>, rest: Seq<bool>)
    requires
        forall|i: int| 0 <= i < zeros.len() ==> !zeros[i],
        rest.len() > 0,
        rest[0],
    ensures
        leading_zeros(zeros + rest) == zeros.len(),
    decreases zeros.len(),
{
    let all = zeros + rest;
    if zeros.len() == 0 {
        assert(all =~= rest);
    } else {
        assert(all[0] == zeros[0]);
        assert(all.skip(1) =~= zeros.skip(1) + rest);
        lemma_leading_zeros(zeros.skip(1), rest);
    }
}

/// A number's own bits start with a one.
proof fn lemma_top_bit(value: nat)
    requires
        value > 0,
    ensures
        golomb::bit_length(value) > 0,
        bitstream_utils::value_bits(golomb::bit_length(value), value)[0],
        value % power2::pow2(golomb::bit_length(value)) == value,
{
    golomb::lemma_bit_length(value);
    let n = golomb::bit_length(value);
    let top = (n - 1) as nat;
    power2::lemma_pow2_unfold(n);
    power2::lemma_pow2_pos(top);
    vstd::arithmetic::div_mod::lemma_small_mod(value, power2::pow2(n));
    vstd::arithmetic::div_mod::lemma_fundamental_div_mod_converse(
        value as int,
        power2::pow2(top) as int,
        1,
        value - power2::pow2(top),
    );
    assert((n - 1 - 0) as nat == top);
}

/// Reading a `ue(v)` gives back the number that was coded, and the bits behind it.
pub proof fn reading_gives_the_number_back(value: nat, rest: Seq<bool>)
    ensures
        read_ue(golomb::exp_golomb(value) + rest) == (value as int, rest),
{
    let n = golomb::bit_length(value + 1);
    lemma_top_bit(value + 1);
    let zeros = bitstream_utils::value_bits((n - 1) as nat, 0);
    let own = bitstream_utils::value_bits(n, value + 1);
    let bits = golomb::exp_golomb(value) + rest;
    assert forall|i: int| 0 <= i < zeros.len() implies !zeros[i] by {
        let p = power2::pow2((n - 1 - 1 - i) as nat);
        power2::lemma_pow2_pos((n - 1 - 1 - i) as nat);
        assert(0nat / p == 0) by (nonlinear_arith)
            requires
                p > 0,
        ;
    }
    assert(bits =~= zeros + (own + rest));
    lemma_leading_zeros(zeros, own + rest);
    assert(bits.subrange(n - 1, 2 * (n - 1) + 1) =~= own);
    assert(bits.skip(2 * (n - 1) + 1) =~= rest);
    lemma_number_of_value_bits(n, value + 1);
}

/// Reading an element that can be written gives back its value, and the bits behind it.
pub proof fn reading_gives_the_element_back(element: Element, rest: Seq<bool>)
    requires
        element.failure() is None,
    ensures
        read(descriptor(element), element.code() + rest) == (value(element), rest),
{
    let bits = element.code() + rest;
    match element {
        Element::U(n, v) => {
            assert(bits.take(n as int) =~= element.code());
            assert(bits.skip(n as int) =~= rest);
            lemma_number_of_value_bits(n as nat, v as nat);
        },
        Element::Ue(v) => {
            reading_gives_the_number_back(v as nat, rest);
        },
        Element::Se(v) => {
            reading_gives_the_number_back(golomb::signed_code(v as int), rest);
        },
        Element::Unsupported => {},
    }
}

/// Reads elements one after the other: their values, and the bits behind them.
pub open spec fn read_all(descriptors: Seq<Descriptor>, bits: Seq<bool>) -> (Seq<int>, Seq<bool>)
    decreases descriptors.len(),
{
    if descriptors.len() == 0 {
        (seq![], bits)
    } else {
        let (values, rest) = read_all(descriptors.drop_last(), bits);
        let (last, behind) = read(descriptors.last(), rest);
        (values.push(last), behind)
    }
}

/// Reading a whole list of elements, all of which can be written, gives back
/// all their values.
pub proof fn reading_gives_all_elements_back(elements: Seq<Element>, rest: Seq<bool>)
    requires
        syntax::failure(elements) is None,
    ensures
        read_all(
            elements.map_values(|e: Element| descriptor(e)),
            syntax::encoded(elements) + rest,
        ) == (elements.map_values(|e: Element| value(e)), rest),
    decreases elements.len(),
{
    let descriptors = elements.map_values(|e: Element| descriptor(e));
    let values = elements.map_values(|e: Element| value(e));
    if elements.len() == 0 {
        assert(syntax::encoded(elements) + rest =~= rest);
        assert(values =~= seq![]);
    } else {
        let front = elements.drop_last();
        let last = elements.last();
        reading_gives_all_elements_back(front, last.code() + rest);
        reading_gives_the_element_back(last, rest);
        assert(syntax::encoded(elements) + rest =~= syntax::encoded(front) + (last.code() + rest));
        assert(descriptors.drop_last() =~= front.map_values(|e: Element| descriptor(e)));
        assert(values =~= front.map_values(|e: Element| value(e)).push(value(last)));
    }
}

/// A NAL unit opens with a start code and a byte that gives its type, and
/// holds its escaped payload behind them.
pub proof fn a_nal_unit_opens_with_its_type(ref_idc: u8, type_: NaluType, payload: Seq<bool>)
    ensures
        ({
            let unit = syntax::nal_unit(ref_idc, type_, payload, true);
            &&& unit.take(4) == seq![0u8, 0u8, 0u8, 1u8]
            &&& unit[4] == 32 * (ref_idc % 4) + type_.number()
            &&& unit.skip(5) == emulation::escape(bitstream_utils::pack(payload))
        }),
{
    let unit = syntax::nal_unit(ref_idc, type_, payload, true);
    let header = EmulationPrevention::header(ref_idc, type_.number());
    assert(header.len() == 5);
    assert(unit.take(4) =~= seq![0u8, 0u8, 0u8, 1u8]);
    assert(type_.number() < 32);
    assert(unit[4] == header[4]);
    assert(unit.skip(5) =~= emulation::escape(bitstream_utils::pack(payload)));
}

/// The payload is the bits of the elements, then the stop bit and what fills the byte.
pub(crate) proof fn lemma_payload_parts(elements: Seq<Element>) -> (rest: Seq<bool>)
    requires
        syntax::failure(elements) is None,
    ensures
        unpack(bitstream_utils::pack(syntax::payload(elements))) == syntax::encoded(elements)
            + rest,
        1 <= rest.len() <= 8,
        rest[0],
        forall|i: int| 1 <= i < rest.len() ==> !rest[i],
{
    let payload = syntax::payload(elements);
    let bits = syntax::encoded(elements);
    let stopped = bits.push(true);
    let zeros = Seq::new(bitstream_utils::padding(stopped) as nat, |i: int| false);
    let rest = seq![true] + zeros;
    assert(payload =~= bits + rest);
    assert(payload.len() % 8 == 0);
    unpacking_gives_the_bits_back(payload);
    assert(unpack(bitstream_utils::pack(payload)) =~= payload);
    rest
}

/// A NAL unit can be read back: behind the start code and the header, the
/// payload emulates no start code, and without its emulation prevention bytes
/// it holds the elements that the unit was made of, then the stop bit.
pub proof fn a_nal_unit_reads_back(ref_idc: u8, type_: NaluType, elements: Seq<Element>)
    requires
        syntax::failure(elements) is None,
    ensures
        ({
            let unit = syntax::nal_unit(ref_idc, type_, syntax::payload(elements), true);
            let descriptors = elements.map_values(|e: Element| descriptor(e));
            let (values, rest) = read_all(descriptors, unpack(unescape(unit.skip(5))));
            &&& unit.take(4) == seq![0u8, 0u8, 0u8, 1u8]
            &&& unit[4] == 32 * (ref_idc % 4) + type_.number()
            &&& !emulates_start_code(unit.skip(5))
            &&& values == elements.map_values(|e: Element| value(e))
            &&& 1 <= rest.len() <= 8
            &&& rest[0]
            &&& forall|i: int| 1 <= i < rest.len() ==> !rest[i]
        }),
{
    let payload = syntax::payload(elements);
    a_nal_unit_opens_with_its_type(ref_idc, type_, payload);
    escaped_bytes_emulate_no_start_code(bitstream_utils::pack(payload));
    unescaping_gives_the_bytes_back(bitstream_utils::pack(payload));
    let rest = lemma_payload_parts(elements);
    reading_gives_all_elements_back(elements, rest);
}

/// A NAL unit that ends with a slice header can be read back too: what is
/// behind its elements is the zeros that fill the last byte, as many as the
/// writer returns.
pub proof fn a_slice_header_reads_back(
    header: SliceHeader,
    sps: Sps,
    pps: Pps,
    is_idr: bool,
    is_ref: IsReference,
)
    requires
        syntax::failure(syntax::slice_header_syntax(header, sps, pps, is_idr, is_ref)) is None,
    ensures
        ({
            let elements = syntax::slice_header_syntax(header, sps, pps, is_idr, is_ref);
            let ref_idc = syntax::slice_ref_idc(is_idr, is_ref);
            let type_ = syntax::slice_nalu_type(is_idr);
            let bits = syntax::encoded(elements);
            let unit = syntax::nal_unit(ref_idc, type_, bits, true);
            let descriptors = elements.map_values(|e: Element| descriptor(e));
            let (values, rest) = read_all(descriptors, unpack(unescape(unit.skip(5))));
            &&& unit.take(4) == seq![0u8, 0u8, 0u8, 1u8]
            &&& unit[4] == 32 * (ref_idc % 4) + type_.number()
            &&& !emulates_start_code(unit.skip(5))
            &&& values == elements.map_values(|e: Element| value(e))
            &&& rest == Seq::new(bitstream_utils::padding(bits) as nat, |i: int| false)
        }),
{
    let elements = syntax::slice_header_syntax(header, sps, pps, is_idr, is_ref);
    let bits = syntax::encoded(elements);
    let zeros = Seq::new(bitstream_utils::padding(bits) as nat, |i: int| false);
    a_nal_unit_opens_with_its_type(
        syntax::slice_ref_idc(is_idr, is_ref),
        syntax::slice_nalu_type(is_idr),
        bits,
    );
    escaped_bytes_emulate_no_start_code(bitstream_utils::pack(bits));
    unescaping_gives_the_bytes_back(bitstream_utils::pack(bits));
    unpacking_gives_the_bits_back(bits);
    reading_gives_all_elements_back(elements, zeros);
}

/// A reader's progress through a scaling list.
pub struct ScalingListReader {
    /// The values so far.
    pub list: Seq<int>,
    /// `lastScale`.
    pub last: int,
    /// `nextScale`, zero once the rest repeats.
    pub next: int,
    /// How many elements were read.
    pub used: nat,
    /// `useDefaultScalingMatrixFlag`.
    pub default: bool,
}

/// The progress after `n` values, 7.3.2.1.1.1, with `deltas` to read from.
pub open spec fn read_scales(deltas: Seq<int>, n: nat) -> ScalingListReader
    decreases n,
{
    if n == 0 {
        ScalingListReader { list: seq![], last: 8, next: 8, used: 0, default: false }
    } else {
        let before = read_scales(deltas, (n - 1) as nat);
        let reads = before.next != 0;
        let next = if reads {
            (before.last + deltas[before.used as int] + 256) % 256
        } else {
            0
        };
        let scale = if next == 0 {
            before.last
        } else {
            next
        };
        ScalingListReader {
            list: before.list.push(scale),
            last: scale,
            next,
            used: before.used + if reads {
                1nat
            } else {
                0nat
            },
            default: before.default || (n == 1 && next == 0),
        }
    }
}

/// The scaling list that a reader ends up with.
pub open spec fn read_scaling_list(deltas: Seq<int>, n: nat, default: Seq<u8>) -> Seq<int> {
    if read_scales(deltas, n).default {
        default.map_values(|v: u8| v as int)
    } else {
        read_scales(deltas, n).list
    }
}

/// Behind the run, the last value repeats.
proof fn lemma_run(list: Seq<u8>, n: nat)
    requires
        1 <= n <= list.len(),
    ensures
        1 <= syntax::run_length(list, n) <= n,
        forall|k: int|
            syntax::run_length(list, n) <= k < n ==> #[trigger] list[k] == list[syntax::run_length(
                list,
                n,
            ) - 1],
    decreases n,
{
    if n > 1 && list[n - 2] == list[n - 1] {
        lemma_run(list, (n - 1) as nat);
        let run = syntax::run_length(list, n);
        assert forall|k: int| run <= k < n implies #[trigger] list[k] == list[run - 1] by {
            if k == n - 1 {
                assert(n - 2 == run - 1 || list[n - 2] == list[run - 1]);
            }
        }
    }
}

/// The elements of a list that is spelled out.
proof fn lemma_spelled_out(list: Seq<u8>, default: Seq<u8>)
    requires
        list != default,
        list.len() > 0,
    ensures
        ({
            let run = syntax::run_length(list, list.len());
            let deltas = syntax::scaling_list_syntax(list, default).map_values(
                |e: Element| value(e),
            );
            &&& 1 <= run <= list.len()
            &&& deltas.len() == run + if run < list.len() {
                1int
            } else {
                0int
            }
            &&& forall|i: int|
                0 <= i < run ==> #[trigger] deltas[i] == list[i] - syntax::previous_scale(list, i)
            &&& run < list.len() ==> deltas[run as int] == -list[run - 1]
        }),
{
    lemma_run(list, list.len());
}

/// Up to a zero, the reader follows the list.
proof fn lemma_reader_follows(list: Seq<u8>, default: Seq<u8>, n: nat)
    requires
        list != default,
        list.len() > 0,
        n <= syntax::run_length(list, list.len()),
        forall|i: int| 0 <= i < n ==> list[i] != 0,
    ensures
        ({
            let deltas = syntax::scaling_list_syntax(list, default).map_values(
                |e: Element| value(e),
            );
            let reader = read_scales(deltas, n);
            &&& reader.list == list.take(n as int).map_values(|v: u8| v as int)
            &&& reader.last == syntax::previous_scale(list, n as int)
            &&& reader.next == syntax::previous_scale(list, n as int)
            &&& reader.used == n
            &&& !reader.default
        }),
    decreases n,
{
    lemma_spelled_out(list, default);
    let deltas = syntax::scaling_list_syntax(list, default).map_values(|e: Element| value(e));
    if n > 0 {
        lemma_reader_follows(list, default, (n - 1) as nat);
        assert(deltas[n - 1] == list[n - 1] - syntax::previous_scale(list, n - 1));
    }
    assert(read_scales(deltas, n).list =~= list.take(n as int).map_values(|v: u8| v as int));
}

/// Behind the run, the reader repeats the last value.
proof fn lemma_reader_repeats(list: Seq<u8>, default: Seq<u8>, n: nat)
    requires
        list != default,
        list.len() > 0,
        syntax::run_length(list, list.len()) < n <= list.len(),
        forall|i: int| 0 <= i < list.len() ==> list[i] != 0,
    ensures
        ({
            let run = syntax::run_length(list, list.len());
            let deltas = syntax::scaling_list_syntax(list, default).map_values(
                |e: Element| value(e),
            );
            let reader = read_scales(deltas, n);
            &&& reader.list == list.take(n as int).map_values(|v: u8| v as int)
            &&& reader.last == list[run - 1]
            &&& reader.next == 0
            &&& reader.used == run + 1
            &&& !reader.default
        }),
    decreases n,
{
    lemma_spelled_out(list, default);
    lemma_run(list, list.len());
    let run = syntax::run_length(list, list.len());
    let deltas = syntax::scaling_list_syntax(list, default).map_values(|e: Element| value(e));
    if n == run + 1 {
        lemma_reader_follows(list, default, run);
        assert(deltas[run as int] == -list[run - 1]);
    } else {
        lemma_reader_repeats(list, default, (n - 1) as nat);
    }
    assert(list[n - 1] == list[run - 1]);
    assert(read_scales(deltas, n).list =~= list.take(n as int).map_values(|v: u8| v as int));
}

/// What was read stays read.
proof fn lemma_reader_keeps(deltas: Seq<int>, n: nat, m: nat, i: int)
    requires
        i < n <= m,
        0 <= i,
    ensures
        read_scales(deltas, m).list.len() == m,
        read_scales(deltas, m).list[i] == read_scales(deltas, n).list[i],
        read_scales(deltas, n).default ==> read_scales(deltas, m).default,
        n >= 1 && !read_scales(deltas, n).default ==> !read_scales(deltas, m).default,
    decreases m,
{
    if n < m {
        lemma_reader_keeps(deltas, n, (m - 1) as nat, i);
    } else {
        lemma_list_length(deltas, m);
    }
}

/// Signed elements can be written.
pub(crate) proof fn lemma_signed_can_be_written(elements: Seq<Element>)
    requires
        forall|i: int| 0 <= i < elements.len() ==> elements[i] is Se,
    ensures
        syntax::failure(elements) is None,
    decreases elements.len(),
{
    if elements.len() > 0 {
        lemma_signed_can_be_written(elements.drop_last());
    }
}

/// Nothing is read behind a first value that asks for the default.
proof fn lemma_reader_stops(deltas: Seq<int>, n: nat)
    requires
        n >= 1,
        deltas[0] == -8,
    ensures
        read_scales(deltas, n).next == 0,
        read_scales(deltas, n).used == 1,
    decreases n,
{
    reveal_with_fuel(read_scales, 2);
    if n > 1 {
        lemma_reader_stops(deltas, (n - 1) as nat);
    }
}

/// As many values are read as asked for.
proof fn lemma_list_length(deltas: Seq<int>, n: nat)
    ensures
        read_scales(deltas, n).list.len() == n,
    decreases n,
{
    if n > 0 {
        lemma_list_length(deltas, (n - 1) as nat);
    }
}

/// Reading a scaling list gives it back, unless it holds a zero, which the
/// syntax has no place for. All that was written is read, and nothing of what
/// is behind it. Of a list without a zero the reader is told to take the
/// default where it is the default, which is one element, and only there.
pub proof fn a_scaling_list_reads_back(list: Seq<u8>, default: Seq<u8>, rest: Seq<bool>)
    requires
        list.len() > 0,
    ensures
        ({
            let elements = syntax::scaling_list_syntax(list, default);
            let deltas = elements.map_values(|e: Element| value(e));
            let result = read_scaling_list(deltas, list.len(), default);
            let reader = read_scales(deltas, list.len());
            &&& (result == list.map_values(|v: u8| v as int)) == (list == default
                || !list.contains(0))
            &&& list == default || !list.contains(0) ==> reader.used == deltas.len()
            &&& !list.contains(0) ==> reader.default == (list == default)
            &&& list == default ==> elements == seq![Element::Se(-8i32)]
            &&& read_all(
                elements.map_values(|e: Element| descriptor(e)),
                syntax::encoded(elements) + rest,
            ) == (deltas, rest)
        }),
{
    let n = list.len();
    let deltas = syntax::scaling_list_syntax(list, default).map_values(|e: Element| value(e));
    lemma_signed_can_be_written(syntax::scaling_list_syntax(list, default));
    reading_gives_all_elements_back(syntax::scaling_list_syntax(list, default), rest);
    let wanted = list.map_values(|v: u8| v as int);
    let result = read_scaling_list(deltas, n, default);
    if list == default {
        reveal_with_fuel(read_scales, 2);
        assert(deltas[0] == -8);
        assert(read_scales(deltas, 1).default);
        lemma_reader_keeps(deltas, 1, n, 0);
        lemma_reader_stops(deltas, n);
    } else {
        lemma_spelled_out(list, default);
        lemma_run(list, n);
        let run = syntax::run_length(list, n);
        if !list.contains(0) {
            assert forall|i: int| 0 <= i < n implies list[i] != 0 by {
                assert(list.contains(list[i]));
            }
            if run < n {
                lemma_reader_repeats(list, default, n);
            } else {
                lemma_reader_follows(list, default, n);
            }
            assert(list.take(n as int) =~= list);
        } else {
            lemma_first_zero(list, n);
            let k = choose|k: int|
                0 <= k < n && #[trigger] list[k] == 0 && forall|i: int| 0 <= i < k ==> list[i] != 0;
            if k >= run {
                assert(list[k] == list[run - 1]);
            }
            lemma_reader_follows(list, default, k as nat);
            assert(deltas[k] == list[k] - syntax::previous_scale(list, k));
            lemma_reader_keeps(deltas, (k + 1) as nat, n, k);
            if k == 0 {
                assert(read_scales(deltas, 1).default);
                if result == wanted {
                    assert(default =~= list) by {
                        assert(default.len() == result.len());
                        assert forall|i: int| 0 <= i < n implies default[i] == list[i] by {
                            assert(result[i] == default[i] as int);
                            assert(wanted[i] == list[i] as int);
                        }
                    }
                }
            } else {
                assert(result[k] == list[k - 1]);
                assert(wanted[k] == 0);
            }
        }
    }
}

/// A list with a zero has a first one.
proof fn lemma_first_zero(list: Seq<u8>, n: nat)
    requires
        n <= list.len(),
        exists|k: int| 0 <= k < n && list[k] == 0,
    ensures
        exists|k: int|
            0 <= k < n && #[trigger] list[k] == 0 && forall|i: int| 0 <= i < k ==> list[i] != 0,
    decreases n,
{
    let m = (n - 1) as nat;
    if exists|k: int| 0 <= k < m && list[k] == 0 {
        lemma_first_zero(list, m);
    } else {
        assert(list[m as int] == 0);
    }
}

} // verus!
