//! A decoder of the parameter sets, as the syntax tables of the standard have
//! them: from bits to values, with nothing known of what was written but what
//! was read so far. What is written is what it reads.

use vstd::arithmetic::power2;
use vstd::prelude::*;

use crate::bitstream_utils;
use crate::codec::h264::parser::HrdParams;
use crate::codec::h264::parser::NaluType;
use crate::codec::h264::parser::Pps;
use crate::codec::h264::parser::Sps;
use crate::codec::h264::parser::VuiParams;
use crate::codec::h264::parser::DEFAULT_4X4_INTER;
use crate::codec::h264::parser::DEFAULT_4X4_INTRA;
use crate::codec::h264::parser::DEFAULT_8X8_INTER;
use crate::codec::h264::parser::DEFAULT_8X8_INTRA;
use crate::codec::h264::readback;
use crate::codec::h264::readback::Descriptor;
use crate::codec::h264::syntax;
use crate::codec::h264::syntax::Element;

verus! {

/// Reads `u(n)`.
#[verifier::opaque]
pub open spec fn read_u(n: nat, bits: Seq<bool>) -> (int, Seq<bool>) {
    readback::read(Descriptor::U(n), bits)
}

/// Reads `u(1)`.
#[verifier::opaque]
pub open spec fn read_flag(bits: Seq<bool>) -> (bool, Seq<bool>) {
    let (value, rest) = readback::read(Descriptor::U(1), bits);
    (value == 1, rest)
}

/// Reads `ue(v)`.
#[verifier::opaque]
pub open spec fn read_ue(bits: Seq<bool>) -> (int, Seq<bool>) {
    readback::read(Descriptor::Ue, bits)
}

/// Reads `se(v)`.
#[verifier::opaque]
pub open spec fn read_se(bits: Seq<bool>) -> (int, Seq<bool>) {
    readback::read(Descriptor::Se, bits)
}

/// The bits of elements are those of the first of them, then those of the others.
pub(crate) proof fn lemma_split(a: Seq<Element>, b: Seq<Element>, rest: Seq<bool>)
    requires
        syntax::failure(a + b) is None,
    ensures
        syntax::failure(a) is None,
        syntax::failure(b) is None,
        syntax::encoded(a + b) + rest == syntax::encoded(a) + (syntax::encoded(b) + rest),
    decreases b.len(),
{
    if b.len() == 0 {
        assert(a + b =~= a);
        assert(syntax::encoded(a + b) + rest =~= syntax::encoded(a) + (syntax::encoded(b) + rest));
    } else {
        let all = a + b;
        assert(all.drop_last() =~= a + b.drop_last());
        assert(all.last() == b.last());
        lemma_split(a, b.drop_last(), b.last().code() + rest);
        assert(syntax::encoded(all) + rest =~= syntax::encoded(all.drop_last()) + (
        b.last().code() + rest));
        assert(syntax::encoded(b) + rest =~= syntax::encoded(b.drop_last()) + (b.last().code()
            + rest));
    }
}

/// Reading the element at `i` gives its value, and leaves the elements behind it.
pub(crate) proof fn lemma_next(elements: Seq<Element>, i: int, rest: Seq<bool>)
    requires
        syntax::failure(elements) is None,
        0 <= i < elements.len(),
    ensures
        readback::read(
            readback::descriptor(elements[i]),
            syntax::encoded(elements.skip(i)) + rest,
        ) == (readback::value(elements[i]), syntax::encoded(elements.skip(i + 1)) + rest),
{
    let tail = elements.skip(i);
    assert(elements =~= elements.take(i) + tail);
    lemma_split(elements.take(i), tail, rest);
    let one = seq![elements[i]];
    let behind = elements.skip(i + 1);
    assert(tail =~= one + behind);
    lemma_split(one, behind, rest);
    assert(one.drop_last() =~= Seq::<Element>::empty());
    assert(syntax::encoded(one) =~= elements[i].code()) by {
        reveal_with_fuel(syntax::encoded, 2);
        assert(one.last() == elements[i]);
    }
    assert(syntax::failure(one) is None);
    assert(elements[i].failure() is None) by {
        reveal_with_fuel(syntax::failure, 2);
        assert(one.last() == elements[i]);
    }
    readback::reading_gives_the_element_back(elements[i], syntax::encoded(behind) + rest);
}

/// The bits from the element at `i` on.
#[verifier::opaque]
pub open spec fn from(elements: Seq<Element>, i: int, rest: Seq<bool>) -> Seq<bool> {
    syntax::encoded(elements.skip(i)) + rest
}

/// Where reading starts and where it ends.
pub(crate) proof fn lemma_ends(elements: Seq<Element>, rest: Seq<bool>)
    ensures
        from(elements, 0, rest) == syntax::encoded(elements) + rest,
        from(elements, elements.len() as int, rest) == rest,
{
    reveal(from);
    assert(elements.skip(0) =~= elements);
    assert(elements.skip(elements.len() as int) =~= Seq::<Element>::empty());
    assert(syntax::encoded(Seq::<Element>::empty()) + rest =~= rest);
}

/// Reading the flag at `i`.
pub(crate) proof fn lemma_flag(elements: Seq<Element>, i: int, rest: Seq<bool>, value: bool)
    requires
        syntax::failure(elements) is None,
        0 <= i < elements.len(),
        elements[i] == syntax::flag(value),
    ensures
        read_flag(from(elements, i, rest)) == (value, from(elements, i + 1, rest)),
{
    reveal(from);
    reveal(read_flag);
    power2::lemma2_to64();
    lemma_next(elements, i, rest);
    let limit = power2::pow2(1usize as nat);
    assert(limit == 2);
    assert(1nat % limit == 1 && 0nat % limit == 0);
    if value {
        assert(elements[i] == Element::U(1, 1u32));
        assert(readback::value(elements[i]) == 1);
    } else {
        assert(elements[i] == Element::U(1, 0u32));
        assert(readback::value(elements[i]) == 0);
    }
    assert(readback::descriptor(elements[i]) == Descriptor::U(1));
}

/// The number of values of `n` bits.
pub open spec fn is_limit(n: nat, limit: int) -> bool {
    ||| (n, limit) == (2nat, 4int)
    ||| (n, limit) == (3nat, 8int)
    ||| (n, limit) == (4nat, 16int)
    ||| (n, limit) == (5nat, 32int)
    ||| (n, limit) == (8nat, 256int)
    ||| (n, limit) == (16nat, 65_536int)
    ||| (n, limit) == (32nat, 4_294_967_296int)
}

/// Reading the `u(n)` at `i`.
pub(crate) proof fn lemma_u(
    elements: Seq<Element>,
    i: int,
    rest: Seq<bool>,
    n: nat,
    limit: int,
    value: u32,
)
    requires
        syntax::failure(elements) is None,
        0 <= i < elements.len(),
        is_limit(n, limit),
        elements[i] == Element::U(n as usize, value),
    ensures
        read_u(n, from(elements, i, rest)) == (value as int % limit, from(elements, i + 1, rest)),
{
    reveal(from);
    reveal(read_u);
    power2::lemma2_to64();
    lemma_next(elements, i, rest);
}

/// Reading the `ue(v)` at `i`.
pub(crate) proof fn lemma_ue(elements: Seq<Element>, i: int, rest: Seq<bool>, value: u32)
    requires
        syntax::failure(elements) is None,
        0 <= i < elements.len(),
        elements[i] == Element::Ue(value),
    ensures
        read_ue(from(elements, i, rest)) == (value as int, from(elements, i + 1, rest)),
{
    reveal(from);
    reveal(read_ue);
    lemma_next(elements, i, rest);
}

/// Reading the `se(v)` at `i`.
pub(crate) proof fn lemma_se(elements: Seq<Element>, i: int, rest: Seq<bool>, value: i32)
    requires
        syntax::failure(elements) is None,
        0 <= i < elements.len(),
        elements[i] == Element::Se(value),
    ensures
        read_se(from(elements, i, rest)) == (value as int, from(elements, i + 1, rest)),
{
    reveal(from);
    reveal(read_se);
    lemma_next(elements, i, rest);
}

/// Nothing is read of nothing.
pub(crate) proof fn lemma_nothing(rest: Seq<bool>)
    ensures
        syntax::encoded(Seq::<Element>::empty()) + rest == rest,
{
    assert(syntax::encoded(Seq::<Element>::empty()) + rest =~= rest);
}

/// The head of a sequence parameter set.
pub ghost struct DecodedHead {
    pub profile_idc: int,
    pub constraint_set0_flag: bool,
    pub constraint_set1_flag: bool,
    pub constraint_set2_flag: bool,
    pub constraint_set3_flag: bool,
    pub constraint_set4_flag: bool,
    pub constraint_set5_flag: bool,
    pub reserved_zero_2bits: int,
    pub level_idc: int,
    pub seq_parameter_set_id: int,
}

pub open spec fn decode_head(bits: Seq<bool>) -> (DecodedHead, Seq<bool>) {
    let (profile_idc, bits) = read_u(8, bits);
    let (constraint_set0_flag, bits) = read_flag(bits);
    let (constraint_set1_flag, bits) = read_flag(bits);
    let (constraint_set2_flag, bits) = read_flag(bits);
    let (constraint_set3_flag, bits) = read_flag(bits);
    let (constraint_set4_flag, bits) = read_flag(bits);
    let (constraint_set5_flag, bits) = read_flag(bits);
    let (reserved_zero_2bits, bits) = read_u(2, bits);
    let (level_idc, bits) = read_u(8, bits);
    let (seq_parameter_set_id, bits) = read_ue(bits);
    (
        DecodedHead {
            profile_idc,
            constraint_set0_flag,
            constraint_set1_flag,
            constraint_set2_flag,
            constraint_set3_flag,
            constraint_set4_flag,
            constraint_set5_flag,
            reserved_zero_2bits,
            level_idc,
            seq_parameter_set_id,
        },
        bits,
    )
}

pub open spec fn head_is(head: DecodedHead, sps: Sps) -> bool {
    &&& head.profile_idc == sps.profile_idc
    &&& head.constraint_set0_flag == sps.constraint_set0_flag
    &&& head.constraint_set1_flag == sps.constraint_set1_flag
    &&& head.constraint_set2_flag == sps.constraint_set2_flag
    &&& head.constraint_set3_flag == sps.constraint_set3_flag
    &&& head.constraint_set4_flag == sps.constraint_set4_flag
    &&& head.constraint_set5_flag == sps.constraint_set5_flag
    &&& head.reserved_zero_2bits == 0
    &&& head.level_idc == sps.level_idc.number()
    &&& head.seq_parameter_set_id == sps.seq_parameter_set_id
}

proof fn lemma_head(sps: Sps, rest: Seq<bool>)
    requires
        syntax::failure(syntax::sps_profile_syntax(sps)) is None,
        syntax::failure(syntax::sps_level_syntax(sps)) is None,
    ensures
        ({
            let bits = syntax::encoded(syntax::sps_profile_syntax(sps)) + (syntax::encoded(
                syntax::sps_level_syntax(sps),
            ) + rest);
            let (head, behind) = decode_head(bits);
            head_is(head, sps) && behind == rest
        }),
{
    let (a, b) = (syntax::sps_profile_syntax(sps), syntax::sps_level_syntax(sps));
    let middle = syntax::encoded(b) + rest;
    lemma_ends(a, middle);
    lemma_u(a, 0, middle, 8, 256, sps.profile_idc as u32);
    lemma_flag(a, 1, middle, sps.constraint_set0_flag);
    lemma_flag(a, 2, middle, sps.constraint_set1_flag);
    lemma_flag(a, 3, middle, sps.constraint_set2_flag);
    lemma_flag(a, 4, middle, sps.constraint_set3_flag);
    lemma_flag(a, 5, middle, sps.constraint_set4_flag);
    lemma_flag(a, 6, middle, sps.constraint_set5_flag);
    lemma_u(a, 7, middle, 2, 4, 0);
    lemma_ends(b, rest);
    lemma_u(b, 0, rest, 8, 256, sps.level_idc.number() as u32);
    lemma_ue(b, 1, rest, sps.seq_parameter_set_id as u32);
}

/// One scaling list, as it was read.
pub ghost enum DecodedList {
    /// It is not there.
    Absent,
    /// It is the default one.
    Default,
    /// It is this one.
    List(Seq<int>),
}

/// The progress through a scaling list.
pub ghost struct Scales {
    pub list: Seq<int>,
    pub last: int,
    pub next: int,
    pub default: bool,
}

/// Reads the first `n` values of a `scaling_list()`, 7.3.2.1.1.1.
pub open spec fn decode_scales(bits: Seq<bool>, n: nat) -> (Scales, Seq<bool>)
    decreases n,
{
    if n == 0 {
        (Scales { list: seq![], last: 8, next: 8, default: false }, bits)
    } else {
        let (before, bits) = decode_scales(bits, (n - 1) as nat);
        if before.next == 0 {
            (Scales { list: before.list.push(before.last), ..before }, bits)
        } else {
            let (delta_scale, bits) = read_se(bits);
            let next = (before.last + delta_scale + 256) % 256;
            let last = if next == 0 {
                before.last
            } else {
                next
            };
            (
                Scales {
                    list: before.list.push(last),
                    last,
                    next,
                    default: before.default || (n == 1 && next == 0),
                },
                bits,
            )
        }
    }
}

/// Reads the first `n` scaling lists, each behind its flag: six of 16 values, then those of 64.
pub open spec fn decode_lists(bits: Seq<bool>, n: nat) -> (Seq<DecodedList>, Seq<bool>)
    decreases n,
{
    if n == 0 {
        (seq![], bits)
    } else {
        let (lists, bits) = decode_lists(bits, (n - 1) as nat);
        let (present, bits) = read_flag(bits);
        if !present {
            (lists.push(DecodedList::Absent), bits)
        } else {
            let (scales, bits) = decode_scales(
                bits,
                if n <= 6 {
                    16
                } else {
                    64
                },
            );
            (
                lists.push(
                    if scales.default {
                        DecodedList::Default
                    } else {
                        DecodedList::List(scales.list)
                    },
                ),
                bits,
            )
        }
    }
}

/// The default of the scaling list at `i`: Table 7-2.
pub open spec fn fall_back(i: int) -> Seq<u8> {
    if i == 0 || i == 1 || i == 2 {
        DEFAULT_4X4_INTRA@
    } else if i == 3 || i == 4 || i == 5 {
        DEFAULT_4X4_INTER@
    } else if i == 6 || i == 8 || i == 10 {
        DEFAULT_8X8_INTRA@
    } else {
        DEFAULT_8X8_INTER@
    }
}

/// The list at `i` was read as it is: a list of zeros is not there.
pub open spec fn list_is(decoded: DecodedList, list: Seq<u8>, i: int) -> bool {
    match decoded {
        DecodedList::Absent => forall|k: int| 0 <= k < list.len() ==> list[k] == 0,
        DecodedList::Default => list == fall_back(i),
        DecodedList::List(read) => read == list.map_values(|v: u8| v as int),
    }
}

/// The list at `i`, of those of 4x4 and 8x8.
pub open spec fn list_at(lists_4x4: [[u8; 16]; 6], lists_8x8: [[u8; 64]; 6], i: int) -> Seq<u8> {
    if i < 6 {
        lists_4x4[i]@
    } else {
        lists_8x8[i - 6]@
    }
}

/// A list that can be read back: all of it is zero, or nothing of it.
pub open spec fn list_has_syntax(list: Seq<u8>) -> bool {
    (forall|k: int| 0 <= k < list.len() ==> list[k] == 0) || !list.contains(0)
}

/// The first `n` lists can be read back.
pub open spec fn lists_have_syntax(
    lists_4x4: [[u8; 16]; 6],
    lists_8x8: [[u8; 64]; 6],
    n: nat,
) -> bool {
    forall|i: int| 0 <= i < n ==> list_has_syntax(#[trigger] list_at(lists_4x4, lists_8x8, i))
}

/// Reading values from bits is reading them from the elements.
proof fn lemma_scales(elements: Seq<Element>, n: nat, rest: Seq<bool>)
    requires
        syntax::failure(elements) is None,
        forall|i: int| 0 <= i < elements.len() ==> elements[i] is Se,
        readback::read_scales(elements.map_values(|e: Element| readback::value(e)), n).used
            <= elements.len(),
    ensures
        ({
            let deltas = elements.map_values(|e: Element| readback::value(e));
            let reader = readback::read_scales(deltas, n);
            let (scales, behind) = decode_scales(syntax::encoded(elements) + rest, n);
            &&& scales.list == reader.list
            &&& scales.last == reader.last
            &&& scales.next == reader.next
            &&& scales.default == reader.default
            &&& behind == from(elements, reader.used as int, rest)
        }),
    decreases n,
{
    let deltas = elements.map_values(|e: Element| readback::value(e));
    lemma_ends(elements, rest);
    if n > 0 {
        lemma_scales(elements, (n - 1) as nat, rest);
        let before = readback::read_scales(deltas, (n - 1) as nat);
        if before.next != 0 {
            let value = elements[before.used as int]->Se_0;
            assert(deltas[before.used as int] == value);
            lemma_se(elements, before.used as int, rest, value);
        }
    }
}

/// A list that can be read back is read.
proof fn lemma_list(list: Seq<u8>, default: Seq<u8>, rest: Seq<bool>)
    requires
        list.len() > 0,
        !list.contains(0),
    ensures
        ({
            let elements = syntax::scaling_list_syntax(list, default);
            let (scales, behind) = decode_scales(syntax::encoded(elements) + rest, list.len());
            &&& behind == rest
            &&& scales.default == (list == default)
            &&& !scales.default ==> scales.list == list.map_values(|v: u8| v as int)
        }),
{
    let elements = syntax::scaling_list_syntax(list, default);
    readback::a_scaling_list_reads_back(list, default, rest);
    readback::lemma_signed_can_be_written(elements);
    lemma_scales(elements, list.len(), rest);
    lemma_ends(elements, rest);
}

/// The first `n` lists are read.
proof fn lemma_lists(lists_4x4: [[u8; 16]; 6], lists_8x8: [[u8; 64]; 6], n: nat, rest: Seq<bool>)
    requires
        n <= 12,
        syntax::failure(syntax::scaling_lists_syntax(lists_4x4, lists_8x8, n)) is None,
        lists_have_syntax(lists_4x4, lists_8x8, n),
    ensures
        ({
            let elements = syntax::scaling_lists_syntax(lists_4x4, lists_8x8, n);
            let (lists, behind) = decode_lists(syntax::encoded(elements) + rest, n);
            &&& behind == rest
            &&& lists.len() == n
            &&& forall|i: int|
                0 <= i < n ==> list_is(#[trigger] lists[i], list_at(lists_4x4, lists_8x8, i), i)
        }),
    decreases n,
{
    let elements = syntax::scaling_lists_syntax(lists_4x4, lists_8x8, n);
    if n == 0 {
        lemma_nothing(rest);
    } else {
        let m = (n - 1) as nat;
        let before = syntax::scaling_lists_syntax(lists_4x4, lists_8x8, m);
        let list = list_at(lists_4x4, lists_8x8, m as int);
        let default = syntax::default_list(m as int);
        assert(default == fall_back(m as int));
        let last = syntax::optional_list_syntax(list, default);
        lemma_split(before, last, rest);
        lemma_lists(lists_4x4, lists_8x8, m, syntax::encoded(last) + rest);
        let present = !syntax::absent(list);
        let flag = seq![syntax::flag(present)];
        let spelled = syntax::when(present, syntax::scaling_list_syntax(list, default));
        lemma_split(flag, spelled, rest);
        let middle = syntax::encoded(spelled) + rest;
        lemma_ends(flag, middle);
        lemma_flag(flag, 0, middle, present);
        assert(list_has_syntax(list));
        if present {
            assert(list.len() == if n <= 6 {
                16int
            } else {
                64
            });
            lemma_list(list, default, rest);
        } else {
            lemma_nothing(rest);
        }
    }
}

/// The chroma format of a sequence parameter set, and its scaling lists.
pub ghost struct DecodedChroma {
    pub chroma_format_idc: int,
    pub separate_colour_plane_flag: bool,
    pub bit_depth_luma_minus8: int,
    pub bit_depth_chroma_minus8: int,
    pub qpprime_y_zero_transform_bypass_flag: bool,
    pub seq_scaling_matrix_present_flag: bool,
    pub lists: Seq<DecodedList>,
}

pub open spec fn decode_chroma(bits: Seq<bool>) -> (DecodedChroma, Seq<bool>) {
    let (chroma_format_idc, bits) = read_ue(bits);
    let (separate_colour_plane_flag, bits) = if chroma_format_idc == 3 {
        read_flag(bits)
    } else {
        (false, bits)
    };
    let (bit_depth_luma_minus8, bits) = read_ue(bits);
    let (bit_depth_chroma_minus8, bits) = read_ue(bits);
    let (qpprime_y_zero_transform_bypass_flag, bits) = read_flag(bits);
    let (seq_scaling_matrix_present_flag, bits) = read_flag(bits);
    let (lists, bits) = if seq_scaling_matrix_present_flag {
        decode_lists(
            bits,
            if chroma_format_idc == 3 {
                12
            } else {
                8
            },
        )
    } else {
        (seq![], bits)
    };
    (
        DecodedChroma {
            chroma_format_idc,
            separate_colour_plane_flag,
            bit_depth_luma_minus8,
            bit_depth_chroma_minus8,
            qpprime_y_zero_transform_bypass_flag,
            seq_scaling_matrix_present_flag,
            lists,
        },
        bits,
    )
}

pub open spec fn chroma_is(chroma: DecodedChroma, sps: Sps) -> bool {
    &&& chroma.chroma_format_idc == sps.chroma_format_idc
    &&& sps.chroma_format_idc == 3 ==> chroma.separate_colour_plane_flag
        == sps.separate_colour_plane_flag
    &&& chroma.bit_depth_luma_minus8 == sps.bit_depth_luma_minus8
    &&& chroma.bit_depth_chroma_minus8 == sps.bit_depth_chroma_minus8
    &&& chroma.qpprime_y_zero_transform_bypass_flag == sps.qpprime_y_zero_transform_bypass_flag
    &&& chroma.seq_scaling_matrix_present_flag == sps.seq_scaling_matrix_present_flag
    &&& chroma.seq_scaling_matrix_present_flag ==> {
        &&& chroma.lists.len() == if sps.chroma_format_idc == 3 {
            12int
        } else {
            8
        }
        &&& forall|i: int|
            0 <= i < chroma.lists.len() ==> list_is(
                #[trigger] chroma.lists[i],
                list_at(sps.scaling_lists_4x4, sps.scaling_lists_8x8, i),
                i,
            )
    }
}

proof fn lemma_chroma(sps: Sps, rest: Seq<bool>)
    requires
        syntax::failure(syntax::sps_chroma_syntax(sps)) is None,
        lists_have_syntax(sps.scaling_lists_4x4, sps.scaling_lists_8x8, 12),
    ensures
        ({
            let (chroma, behind) = decode_chroma(
                syntax::encoded(syntax::sps_chroma_syntax(sps)) + rest,
            );
            chroma_is(chroma, sps) && behind == rest
        }),
{
    let count: nat = if sps.chroma_format_idc != 3 {
        8
    } else {
        12
    };
    let lists = syntax::when(
        sps.seq_scaling_matrix_present_flag,
        syntax::scaling_lists_syntax(sps.scaling_lists_4x4, sps.scaling_lists_8x8, count),
    );
    let e = seq![Element::Ue(sps.chroma_format_idc as u32)] + syntax::when(
        sps.chroma_format_idc == 3,
        seq![syntax::flag(sps.separate_colour_plane_flag)],
    ) + seq![
        Element::Ue(sps.bit_depth_luma_minus8 as u32),
        Element::Ue(sps.bit_depth_chroma_minus8 as u32),
        syntax::flag(sps.qpprime_y_zero_transform_bypass_flag),
        syntax::flag(sps.seq_scaling_matrix_present_flag),
    ];
    assert(syntax::sps_chroma_syntax(sps) == e + lists);
    lemma_split(e, lists, rest);
    let middle = syntax::encoded(lists) + rest;
    lemma_ends(e, middle);
    let k: int = if sps.chroma_format_idc == 3 {
        1
    } else {
        0
    };
    lemma_ue(e, 0, middle, sps.chroma_format_idc as u32);
    if sps.chroma_format_idc == 3 {
        lemma_flag(e, 1, middle, sps.separate_colour_plane_flag);
    }
    lemma_ue(e, k + 1, middle, sps.bit_depth_luma_minus8 as u32);
    lemma_ue(e, k + 2, middle, sps.bit_depth_chroma_minus8 as u32);
    lemma_flag(e, k + 3, middle, sps.qpprime_y_zero_transform_bypass_flag);
    lemma_flag(e, k + 4, middle, sps.seq_scaling_matrix_present_flag);
    assert(e.len() == k + 5);
    if sps.seq_scaling_matrix_present_flag {
        lemma_lists(sps.scaling_lists_4x4, sps.scaling_lists_8x8, count, rest);
    } else {
        lemma_nothing(rest);
    }
}

/// The picture order of a sequence parameter set.
pub ghost struct DecodedOrder {
    pub log2_max_frame_num_minus4: int,
    pub pic_order_cnt_type: int,
    pub log2_max_pic_order_cnt_lsb_minus4: int,
    pub delta_pic_order_always_zero_flag: bool,
    pub offset_for_non_ref_pic: int,
    pub offset_for_top_to_bottom_field: int,
    pub offset_for_ref_frame: Seq<int>,
}

/// Reads `n` of `se(v)`.
pub open spec fn read_signed(bits: Seq<bool>, n: nat) -> (Seq<int>, Seq<bool>)
    decreases n,
{
    if n == 0 {
        (seq![], bits)
    } else {
        let (values, bits) = read_signed(bits, (n - 1) as nat);
        let (value, bits) = read_se(bits);
        (values.push(value), bits)
    }
}

pub open spec fn decode_order(bits: Seq<bool>) -> (DecodedOrder, Seq<bool>) {
    let (log2_max_frame_num_minus4, bits) = read_ue(bits);
    let (pic_order_cnt_type, bits) = read_ue(bits);
    let blank = DecodedOrder {
        log2_max_frame_num_minus4,
        pic_order_cnt_type,
        log2_max_pic_order_cnt_lsb_minus4: 0,
        delta_pic_order_always_zero_flag: false,
        offset_for_non_ref_pic: 0,
        offset_for_top_to_bottom_field: 0,
        offset_for_ref_frame: seq![],
    };
    if pic_order_cnt_type == 0 {
        let (log2_max_pic_order_cnt_lsb_minus4, bits) = read_ue(bits);
        (DecodedOrder { log2_max_pic_order_cnt_lsb_minus4, ..blank }, bits)
    } else if pic_order_cnt_type == 1 {
        let (delta_pic_order_always_zero_flag, bits) = read_flag(bits);
        let (offset_for_non_ref_pic, bits) = read_se(bits);
        let (offset_for_top_to_bottom_field, bits) = read_se(bits);
        let (num_ref_frames_in_pic_order_cnt_cycle, bits) = read_ue(bits);
        let (offset_for_ref_frame, bits) = read_signed(
            bits,
            num_ref_frames_in_pic_order_cnt_cycle as nat,
        );
        (
            DecodedOrder {
                delta_pic_order_always_zero_flag,
                offset_for_non_ref_pic,
                offset_for_top_to_bottom_field,
                offset_for_ref_frame,
                ..blank
            },
            bits,
        )
    } else {
        (blank, bits)
    }
}

pub open spec fn order_is(order: DecodedOrder, sps: Sps) -> bool {
    &&& order.log2_max_frame_num_minus4 == sps.log2_max_frame_num_minus4
    &&& order.pic_order_cnt_type == sps.pic_order_cnt_type
    &&& sps.pic_order_cnt_type == 0 ==> order.log2_max_pic_order_cnt_lsb_minus4
        == sps.log2_max_pic_order_cnt_lsb_minus4
    &&& sps.pic_order_cnt_type == 1 ==> {
        &&& order.delta_pic_order_always_zero_flag == sps.delta_pic_order_always_zero_flag
        &&& order.offset_for_non_ref_pic == sps.offset_for_non_ref_pic
        &&& order.offset_for_top_to_bottom_field == sps.offset_for_top_to_bottom_field
        &&& order.offset_for_ref_frame.len() == sps.num_ref_frames_in_pic_order_cnt_cycle
        &&& forall|i: int|
            0 <= i < order.offset_for_ref_frame.len() ==> #[trigger] order.offset_for_ref_frame[i]
                == sps.offset_for_ref_frame[i]
    }
}

/// Signed values are read.
proof fn lemma_signed(elements: Seq<Element>, n: nat, rest: Seq<bool>)
    requires
        syntax::failure(elements) is None,
        n <= elements.len(),
        forall|i: int| 0 <= i < elements.len() ==> elements[i] is Se,
    ensures
        ({
            let (values, behind) = read_signed(syntax::encoded(elements) + rest, n);
            &&& behind == from(elements, n as int, rest)
            &&& values.len() == n
            &&& forall|i: int| 0 <= i < n ==> #[trigger] values[i] == elements[i]->Se_0
        }),
    decreases n,
{
    lemma_ends(elements, rest);
    if n > 0 {
        lemma_signed(elements, (n - 1) as nat, rest);
        lemma_se(elements, n - 1, rest, elements[n - 1]->Se_0);
    }
}

proof fn lemma_order(sps: Sps, rest: Seq<bool>)
    requires
        syntax::failure(syntax::sps_order_syntax(sps)) is None,
    ensures
        ({
            let (order, behind) = decode_order(
                syntax::encoded(syntax::sps_order_syntax(sps)) + rest,
            );
            order_is(order, sps) && behind == rest
        }),
{
    let whole = syntax::sps_order_syntax(sps);
    if sps.pic_order_cnt_type == 1 {
        let e = seq![
            Element::Ue(sps.log2_max_frame_num_minus4 as u32),
            Element::Ue(sps.pic_order_cnt_type as u32),
            syntax::flag(sps.delta_pic_order_always_zero_flag),
            Element::Se(sps.offset_for_non_ref_pic),
            Element::Se(sps.offset_for_top_to_bottom_field),
            Element::Ue(sps.num_ref_frames_in_pic_order_cnt_cycle as u32),
        ];
        let n = sps.num_ref_frames_in_pic_order_cnt_cycle as nat;
        let offsets = Seq::new(n, |i: int| Element::Se(sps.offset_for_ref_frame[i]));
        assert(whole =~= e + offsets);
        lemma_split(e, offsets, rest);
        let middle = syntax::encoded(offsets) + rest;
        lemma_ends(e, middle);
        lemma_ue(e, 0, middle, sps.log2_max_frame_num_minus4 as u32);
        lemma_ue(e, 1, middle, sps.pic_order_cnt_type as u32);
        lemma_flag(e, 2, middle, sps.delta_pic_order_always_zero_flag);
        lemma_se(e, 3, middle, sps.offset_for_non_ref_pic);
        lemma_se(e, 4, middle, sps.offset_for_top_to_bottom_field);
        lemma_ue(e, 5, middle, sps.num_ref_frames_in_pic_order_cnt_cycle as u32);
        lemma_signed(offsets, n, rest);
        lemma_ends(offsets, rest);
    } else {
        lemma_ends(whole, rest);
        lemma_ue(whole, 0, rest, sps.log2_max_frame_num_minus4 as u32);
        lemma_ue(whole, 1, rest, sps.pic_order_cnt_type as u32);
        if sps.pic_order_cnt_type == 0 {
            lemma_ue(whole, 2, rest, sps.log2_max_pic_order_cnt_lsb_minus4 as u32);
        }
    }
}

/// The frames of a sequence parameter set, and what is cropped of them.
pub ghost struct DecodedFrame {
    pub max_num_ref_frames: int,
    pub gaps_in_frame_num_value_allowed_flag: bool,
    pub pic_width_in_mbs_minus1: int,
    pub pic_height_in_map_units_minus1: int,
    pub frame_mbs_only_flag: bool,
    pub mb_adaptive_frame_field_flag: bool,
    pub direct_8x8_inference_flag: bool,
    pub frame_cropping_flag: bool,
    pub frame_crop_left_offset: int,
    pub frame_crop_right_offset: int,
    pub frame_crop_top_offset: int,
    pub frame_crop_bottom_offset: int,
}

pub open spec fn decode_frame(bits: Seq<bool>) -> (DecodedFrame, Seq<bool>) {
    let (max_num_ref_frames, bits) = read_ue(bits);
    let (gaps_in_frame_num_value_allowed_flag, bits) = read_flag(bits);
    let (pic_width_in_mbs_minus1, bits) = read_ue(bits);
    let (pic_height_in_map_units_minus1, bits) = read_ue(bits);
    let (frame_mbs_only_flag, bits) = read_flag(bits);
    let (mb_adaptive_frame_field_flag, bits) = if !frame_mbs_only_flag {
        read_flag(bits)
    } else {
        (false, bits)
    };
    let (direct_8x8_inference_flag, bits) = read_flag(bits);
    let (frame_cropping_flag, bits) = read_flag(bits);
    let blank = DecodedFrame {
        max_num_ref_frames,
        gaps_in_frame_num_value_allowed_flag,
        pic_width_in_mbs_minus1,
        pic_height_in_map_units_minus1,
        frame_mbs_only_flag,
        mb_adaptive_frame_field_flag,
        direct_8x8_inference_flag,
        frame_cropping_flag,
        frame_crop_left_offset: 0,
        frame_crop_right_offset: 0,
        frame_crop_top_offset: 0,
        frame_crop_bottom_offset: 0,
    };
    if frame_cropping_flag {
        let (frame_crop_left_offset, bits) = read_ue(bits);
        let (frame_crop_right_offset, bits) = read_ue(bits);
        let (frame_crop_top_offset, bits) = read_ue(bits);
        let (frame_crop_bottom_offset, bits) = read_ue(bits);
        (
            DecodedFrame {
                frame_crop_left_offset,
                frame_crop_right_offset,
                frame_crop_top_offset,
                frame_crop_bottom_offset,
                ..blank
            },
            bits,
        )
    } else {
        (blank, bits)
    }
}

pub open spec fn frame_is(frame: DecodedFrame, sps: Sps) -> bool {
    &&& frame.max_num_ref_frames == sps.max_num_ref_frames
    &&& frame.gaps_in_frame_num_value_allowed_flag == sps.gaps_in_frame_num_value_allowed_flag
    &&& frame.pic_width_in_mbs_minus1 == sps.pic_width_in_mbs_minus1
    &&& frame.pic_height_in_map_units_minus1 == sps.pic_height_in_map_units_minus1
    &&& frame.frame_mbs_only_flag == sps.frame_mbs_only_flag
    &&& !sps.frame_mbs_only_flag ==> frame.mb_adaptive_frame_field_flag
        == sps.mb_adaptive_frame_field_flag
    &&& frame.direct_8x8_inference_flag == sps.direct_8x8_inference_flag
    &&& frame.frame_cropping_flag == sps.frame_cropping_flag
    &&& sps.frame_cropping_flag ==> {
        &&& frame.frame_crop_left_offset == sps.frame_crop_left_offset
        &&& frame.frame_crop_right_offset == sps.frame_crop_right_offset
        &&& frame.frame_crop_top_offset == sps.frame_crop_top_offset
        &&& frame.frame_crop_bottom_offset == sps.frame_crop_bottom_offset
    }
}

proof fn lemma_frame(sps: Sps, rest: Seq<bool>)
    requires
        syntax::failure(syntax::sps_frame_syntax(sps)) is None,
        syntax::failure(syntax::sps_crop_syntax(sps)) is None,
    ensures
        ({
            let bits = syntax::encoded(syntax::sps_frame_syntax(sps)) + (syntax::encoded(
                syntax::sps_crop_syntax(sps),
            ) + rest);
            let (frame, behind) = decode_frame(bits);
            frame_is(frame, sps) && behind == rest
        }),
{
    let (a, b) = (syntax::sps_frame_syntax(sps), syntax::sps_crop_syntax(sps));
    let middle = syntax::encoded(b) + rest;
    lemma_ends(a, middle);
    lemma_ue(a, 0, middle, sps.max_num_ref_frames as u32);
    lemma_flag(a, 1, middle, sps.gaps_in_frame_num_value_allowed_flag);
    lemma_ue(a, 2, middle, sps.pic_width_in_mbs_minus1 as u32);
    lemma_ue(a, 3, middle, sps.pic_height_in_map_units_minus1 as u32);
    lemma_flag(a, 4, middle, sps.frame_mbs_only_flag);
    if !sps.frame_mbs_only_flag {
        lemma_flag(a, 5, middle, sps.mb_adaptive_frame_field_flag);
    }
    lemma_ends(b, rest);
    lemma_flag(b, 0, rest, sps.direct_8x8_inference_flag);
    lemma_flag(b, 1, rest, sps.frame_cropping_flag);
    if sps.frame_cropping_flag {
        lemma_ue(b, 2, rest, sps.frame_crop_left_offset);
        lemma_ue(b, 3, rest, sps.frame_crop_right_offset);
        lemma_ue(b, 4, rest, sps.frame_crop_top_offset);
        lemma_ue(b, 5, rest, sps.frame_crop_bottom_offset);
    }
}

/// The reference decoder's parameters.
pub ghost struct DecodedHrd {
    pub cpb_cnt_minus1: int,
    pub bit_rate_scale: int,
    pub cpb_size_scale: int,
    /// Of each coded picture buffer the rate, the size, and whether the rate is constant.
    pub buffers: Seq<(int, int, bool)>,
    pub initial_cpb_removal_delay_length_minus1: int,
    pub cpb_removal_delay_length_minus1: int,
    pub dpb_output_delay_length_minus1: int,
    pub time_offset_length: int,
}

/// Reads the first `n` coded picture buffers.
pub open spec fn decode_buffers(bits: Seq<bool>, n: nat) -> (Seq<(int, int, bool)>, Seq<bool>)
    decreases n,
{
    if n == 0 {
        (seq![], bits)
    } else {
        let (buffers, bits) = decode_buffers(bits, (n - 1) as nat);
        let (bit_rate_value_minus1, bits) = read_ue(bits);
        let (cpb_size_value_minus1, bits) = read_ue(bits);
        let (cbr_flag, bits) = read_flag(bits);
        (buffers.push((bit_rate_value_minus1, cpb_size_value_minus1, cbr_flag)), bits)
    }
}

/// Reads `hrd_parameters()`, E.1.2.
pub open spec fn decode_hrd(bits: Seq<bool>) -> (DecodedHrd, Seq<bool>) {
    let (cpb_cnt_minus1, bits) = read_ue(bits);
    let (bit_rate_scale, bits) = read_u(4, bits);
    let (cpb_size_scale, bits) = read_u(4, bits);
    let (buffers, bits) = decode_buffers(bits, (cpb_cnt_minus1 + 1) as nat);
    let (initial_cpb_removal_delay_length_minus1, bits) = read_u(5, bits);
    let (cpb_removal_delay_length_minus1, bits) = read_u(5, bits);
    let (dpb_output_delay_length_minus1, bits) = read_u(5, bits);
    let (time_offset_length, bits) = read_u(5, bits);
    (
        DecodedHrd {
            cpb_cnt_minus1,
            bit_rate_scale,
            cpb_size_scale,
            buffers,
            initial_cpb_removal_delay_length_minus1,
            cpb_removal_delay_length_minus1,
            dpb_output_delay_length_minus1,
            time_offset_length,
        },
        bits,
    )
}

pub open spec fn hrd_is(decoded: DecodedHrd, hrd: HrdParams) -> bool {
    &&& decoded.cpb_cnt_minus1 == hrd.cpb_cnt_minus1
    &&& decoded.bit_rate_scale == hrd.bit_rate_scale % 16
    &&& decoded.cpb_size_scale == hrd.cpb_size_scale % 16
    &&& decoded.buffers.len() == hrd.cpb_cnt_minus1 + 1
    &&& forall|i: int|
        0 <= i < decoded.buffers.len() ==> #[trigger] decoded.buffers[i] == (
            hrd.bit_rate_value_minus1[i] as int,
            hrd.cpb_size_value_minus1[i] as int,
            hrd.cbr_flag[i],
        )
    &&& decoded.initial_cpb_removal_delay_length_minus1
        == hrd.initial_cpb_removal_delay_length_minus1 % 32
    &&& decoded.cpb_removal_delay_length_minus1 == hrd.cpb_removal_delay_length_minus1 % 32
    &&& decoded.dpb_output_delay_length_minus1 == hrd.dpb_output_delay_length_minus1 % 32
    &&& decoded.time_offset_length == hrd.time_offset_length % 32
}

proof fn lemma_buffers(hrd: HrdParams, n: nat, rest: Seq<bool>)
    requires
        syntax::failure(syntax::cpb_syntax(hrd, n)) is None,
    ensures
        ({
            let (buffers, behind) = decode_buffers(
                syntax::encoded(syntax::cpb_syntax(hrd, n)) + rest,
                n,
            );
            &&& behind == rest
            &&& buffers.len() == n
            &&& forall|i: int|
                0 <= i < n ==> #[trigger] buffers[i] == (
                    hrd.bit_rate_value_minus1[i] as int,
                    hrd.cpb_size_value_minus1[i] as int,
                    hrd.cbr_flag[i],
                )
        }),
    decreases n,
{
    if n == 0 {
        lemma_nothing(rest);
    } else {
        let i = n - 1;
        let before = syntax::cpb_syntax(hrd, i as nat);
        let e = seq![
            Element::Ue(hrd.bit_rate_value_minus1[i]),
            Element::Ue(hrd.cpb_size_value_minus1[i]),
            syntax::flag(hrd.cbr_flag[i]),
        ];
        assert(syntax::cpb_syntax(hrd, n) == before + e);
        lemma_split(before, e, rest);
        lemma_buffers(hrd, i as nat, syntax::encoded(e) + rest);
        lemma_ends(e, rest);
        lemma_ue(e, 0, rest, hrd.bit_rate_value_minus1[i]);
        lemma_ue(e, 1, rest, hrd.cpb_size_value_minus1[i]);
        lemma_flag(e, 2, rest, hrd.cbr_flag[i]);
    }
}

proof fn lemma_hrd(hrd: HrdParams, rest: Seq<bool>)
    requires
        syntax::failure(syntax::hrd_syntax(hrd)) is None,
    ensures
        ({
            let (decoded, behind) = decode_hrd(syntax::encoded(syntax::hrd_syntax(hrd)) + rest);
            hrd_is(decoded, hrd) && behind == rest
        }),
{
    let n = (hrd.cpb_cnt_minus1 + 1) as nat;
    let a = seq![
        Element::Ue(hrd.cpb_cnt_minus1 as u32),
        Element::U(4, hrd.bit_rate_scale as u32),
        Element::U(4, hrd.cpb_size_scale as u32),
    ];
    let b = syntax::cpb_syntax(hrd, n);
    let c = seq![
        Element::U(5, hrd.initial_cpb_removal_delay_length_minus1 as u32),
        Element::U(5, hrd.cpb_removal_delay_length_minus1 as u32),
        Element::U(5, hrd.dpb_output_delay_length_minus1 as u32),
        Element::U(5, hrd.time_offset_length as u32),
    ];
    assert(syntax::hrd_syntax(hrd) == a + b + c);
    lemma_split(a + b, c, rest);
    let behind_b = syntax::encoded(c) + rest;
    lemma_split(a, b, behind_b);
    let behind_a = syntax::encoded(b) + behind_b;
    lemma_ends(a, behind_a);
    lemma_ue(a, 0, behind_a, hrd.cpb_cnt_minus1 as u32);
    lemma_u(a, 1, behind_a, 4, 16, hrd.bit_rate_scale as u32);
    lemma_u(a, 2, behind_a, 4, 16, hrd.cpb_size_scale as u32);
    lemma_buffers(hrd, n, behind_b);
    lemma_ends(c, rest);
    lemma_u(c, 0, rest, 5, 32, hrd.initial_cpb_removal_delay_length_minus1 as u32);
    lemma_u(c, 1, rest, 5, 32, hrd.cpb_removal_delay_length_minus1 as u32);
    lemma_u(c, 2, rest, 5, 32, hrd.dpb_output_delay_length_minus1 as u32);
    lemma_u(c, 3, rest, 5, 32, hrd.time_offset_length as u32);
}

/// The samples, by the usability information: their shape, and what is shown of them.
pub ghost struct DecodedShape {
    pub aspect_ratio_info_present_flag: bool,
    pub aspect_ratio_idc: int,
    pub sar_width: int,
    pub sar_height: int,
    pub overscan_info_present_flag: bool,
    pub overscan_appropriate_flag: bool,
}

pub open spec fn decode_shape(bits: Seq<bool>) -> (DecodedShape, Seq<bool>) {
    let (aspect_ratio_info_present_flag, bits) = read_flag(bits);
    let (aspect_ratio_idc, bits) = if aspect_ratio_info_present_flag {
        read_u(8, bits)
    } else {
        (0, bits)
    };
    let (sar_width, bits) = if aspect_ratio_idc == 255 {
        read_u(16, bits)
    } else {
        (0, bits)
    };
    let (sar_height, bits) = if aspect_ratio_idc == 255 {
        read_u(16, bits)
    } else {
        (0, bits)
    };
    let (overscan_info_present_flag, bits) = read_flag(bits);
    let (overscan_appropriate_flag, bits) = if overscan_info_present_flag {
        read_flag(bits)
    } else {
        (false, bits)
    };
    (
        DecodedShape {
            aspect_ratio_info_present_flag,
            aspect_ratio_idc,
            sar_width,
            sar_height,
            overscan_info_present_flag,
            overscan_appropriate_flag,
        },
        bits,
    )
}

pub open spec fn shape_is(shape: DecodedShape, vui: VuiParams) -> bool {
    &&& shape.aspect_ratio_info_present_flag == vui.aspect_ratio_info_present_flag
    &&& vui.aspect_ratio_info_present_flag ==> shape.aspect_ratio_idc == vui.aspect_ratio_idc
    &&& vui.aspect_ratio_info_present_flag && vui.aspect_ratio_idc == 255 ==> {
        &&& shape.sar_width == vui.sar_width
        &&& shape.sar_height == vui.sar_height
    }
    &&& shape.overscan_info_present_flag == vui.overscan_info_present_flag
    &&& vui.overscan_info_present_flag ==> shape.overscan_appropriate_flag
        == vui.overscan_appropriate_flag
}

proof fn lemma_shape(vui: VuiParams, rest: Seq<bool>)
    requires
        syntax::failure(syntax::vui_aspect_syntax(vui)) is None,
        syntax::failure(syntax::vui_overscan_syntax(vui)) is None,
    ensures
        ({
            let bits = syntax::encoded(syntax::vui_aspect_syntax(vui)) + (syntax::encoded(
                syntax::vui_overscan_syntax(vui),
            ) + rest);
            let (shape, behind) = decode_shape(bits);
            shape_is(shape, vui) && behind == rest
        }),
{
    let (a, b) = (syntax::vui_aspect_syntax(vui), syntax::vui_overscan_syntax(vui));
    let middle = syntax::encoded(b) + rest;
    lemma_ends(a, middle);
    lemma_flag(a, 0, middle, vui.aspect_ratio_info_present_flag);
    if vui.aspect_ratio_info_present_flag {
        lemma_u(a, 1, middle, 8, 256, vui.aspect_ratio_idc as u32);
        if vui.aspect_ratio_idc == 255 {
            lemma_u(a, 2, middle, 16, 65_536, vui.sar_width as u32);
            lemma_u(a, 3, middle, 16, 65_536, vui.sar_height as u32);
        }
    }
    lemma_ends(b, rest);
    lemma_flag(b, 0, rest, vui.overscan_info_present_flag);
    if vui.overscan_info_present_flag {
        lemma_flag(b, 1, rest, vui.overscan_appropriate_flag);
    }
}

/// The color, by the usability information, and where the chroma samples are.
pub ghost struct DecodedSignal {
    pub video_signal_type_present_flag: bool,
    pub video_format: int,
    pub video_full_range_flag: bool,
    pub colour_description_present_flag: bool,
    pub colour_primaries: int,
    pub transfer_characteristics: int,
    pub matrix_coefficients: int,
    pub chroma_loc_info_present_flag: bool,
    pub chroma_sample_loc_type_top_field: int,
    pub chroma_sample_loc_type_bottom_field: int,
}

pub open spec fn decode_signal(bits: Seq<bool>) -> (DecodedSignal, Seq<bool>) {
    let (video_signal_type_present_flag, bits) = read_flag(bits);
    let (video_format, bits) = if video_signal_type_present_flag {
        read_u(3, bits)
    } else {
        (5, bits)
    };
    let (video_full_range_flag, bits) = if video_signal_type_present_flag {
        read_flag(bits)
    } else {
        (false, bits)
    };
    let (colour_description_present_flag, bits) = if video_signal_type_present_flag {
        read_flag(bits)
    } else {
        (false, bits)
    };
    let (colour_primaries, bits) = if colour_description_present_flag {
        read_u(8, bits)
    } else {
        (2, bits)
    };
    let (transfer_characteristics, bits) = if colour_description_present_flag {
        read_u(8, bits)
    } else {
        (2, bits)
    };
    let (matrix_coefficients, bits) = if colour_description_present_flag {
        read_u(8, bits)
    } else {
        (2, bits)
    };
    let (chroma_loc_info_present_flag, bits) = read_flag(bits);
    let (chroma_sample_loc_type_top_field, bits) = if chroma_loc_info_present_flag {
        read_ue(bits)
    } else {
        (0, bits)
    };
    let (chroma_sample_loc_type_bottom_field, bits) = if chroma_loc_info_present_flag {
        read_ue(bits)
    } else {
        (0, bits)
    };
    (
        DecodedSignal {
            video_signal_type_present_flag,
            video_format,
            video_full_range_flag,
            colour_description_present_flag,
            colour_primaries,
            transfer_characteristics,
            matrix_coefficients,
            chroma_loc_info_present_flag,
            chroma_sample_loc_type_top_field,
            chroma_sample_loc_type_bottom_field,
        },
        bits,
    )
}

pub open spec fn signal_is(signal: DecodedSignal, vui: VuiParams) -> bool {
    let described = vui.video_signal_type_present_flag && vui.colour_description_present_flag;
    &&& signal.video_signal_type_present_flag == vui.video_signal_type_present_flag
    &&& vui.video_signal_type_present_flag ==> {
        &&& signal.video_format == vui.video_format % 8
        &&& signal.video_full_range_flag == vui.video_full_range_flag
    }
    &&& signal.colour_description_present_flag == described
    &&& described ==> {
        &&& signal.colour_primaries == vui.colour_primaries
        &&& signal.transfer_characteristics == vui.transfer_characteristics
        &&& signal.matrix_coefficients == vui.matrix_coefficients
    }
    &&& signal.chroma_loc_info_present_flag == vui.chroma_loc_info_present_flag
    &&& vui.chroma_loc_info_present_flag ==> {
        &&& signal.chroma_sample_loc_type_top_field == vui.chroma_sample_loc_type_top_field
        &&& signal.chroma_sample_loc_type_bottom_field == vui.chroma_sample_loc_type_bottom_field
    }
}

proof fn lemma_signal(vui: VuiParams, rest: Seq<bool>)
    requires
        syntax::failure(syntax::vui_signal_syntax(vui)) is None,
        syntax::failure(syntax::vui_chroma_loc_syntax(vui)) is None,
    ensures
        ({
            let bits = syntax::encoded(syntax::vui_signal_syntax(vui)) + (syntax::encoded(
                syntax::vui_chroma_loc_syntax(vui),
            ) + rest);
            let (signal, behind) = decode_signal(bits);
            signal_is(signal, vui) && behind == rest
        }),
{
    let (a, b) = (syntax::vui_signal_syntax(vui), syntax::vui_chroma_loc_syntax(vui));
    let middle = syntax::encoded(b) + rest;
    lemma_ends(a, middle);
    lemma_flag(a, 0, middle, vui.video_signal_type_present_flag);
    if vui.video_signal_type_present_flag {
        lemma_u(a, 1, middle, 3, 8, vui.video_format as u32);
        lemma_flag(a, 2, middle, vui.video_full_range_flag);
        lemma_flag(a, 3, middle, vui.colour_description_present_flag);
        if vui.colour_description_present_flag {
            lemma_u(a, 4, middle, 8, 256, vui.colour_primaries as u32);
            lemma_u(a, 5, middle, 8, 256, vui.transfer_characteristics as u32);
            lemma_u(a, 6, middle, 8, 256, vui.matrix_coefficients as u32);
        }
    }
    lemma_ends(b, rest);
    lemma_flag(b, 0, rest, vui.chroma_loc_info_present_flag);
    if vui.chroma_loc_info_present_flag {
        lemma_ue(b, 1, rest, vui.chroma_sample_loc_type_top_field as u32);
        lemma_ue(b, 2, rest, vui.chroma_sample_loc_type_bottom_field as u32);
    }
}

/// When pictures are shown, by the usability information, and the reference decoders.
pub ghost struct DecodedTiming {
    pub timing_info_present_flag: bool,
    pub num_units_in_tick: int,
    pub time_scale: int,
    pub fixed_frame_rate_flag: bool,
    pub nal_hrd: Option<DecodedHrd>,
    pub vcl_hrd: Option<DecodedHrd>,
    pub low_delay_hrd_flag: bool,
}

pub open spec fn decode_optional_hrd(bits: Seq<bool>) -> (Option<DecodedHrd>, Seq<bool>) {
    let (present, bits) = read_flag(bits);
    if present {
        let (hrd, bits) = decode_hrd(bits);
        (Some(hrd), bits)
    } else {
        (None, bits)
    }
}

pub open spec fn decode_timing(bits: Seq<bool>) -> (DecodedTiming, Seq<bool>) {
    let (timing_info_present_flag, bits) = read_flag(bits);
    let (num_units_in_tick, bits) = if timing_info_present_flag {
        read_u(32, bits)
    } else {
        (0, bits)
    };
    let (time_scale, bits) = if timing_info_present_flag {
        read_u(32, bits)
    } else {
        (0, bits)
    };
    let (fixed_frame_rate_flag, bits) = if timing_info_present_flag {
        read_flag(bits)
    } else {
        (false, bits)
    };
    let (nal_hrd, bits) = decode_optional_hrd(bits);
    let (vcl_hrd, bits) = decode_optional_hrd(bits);
    let (low_delay_hrd_flag, bits) = if nal_hrd is Some || vcl_hrd is Some {
        read_flag(bits)
    } else {
        (false, bits)
    };
    (
        DecodedTiming {
            timing_info_present_flag,
            num_units_in_tick,
            time_scale,
            fixed_frame_rate_flag,
            nal_hrd,
            vcl_hrd,
            low_delay_hrd_flag,
        },
        bits,
    )
}

pub open spec fn timing_is(timing: DecodedTiming, vui: VuiParams) -> bool {
    &&& timing.timing_info_present_flag == vui.timing_info_present_flag
    &&& vui.timing_info_present_flag ==> {
        &&& timing.num_units_in_tick == vui.num_units_in_tick
        &&& timing.time_scale == vui.time_scale
        &&& timing.fixed_frame_rate_flag == vui.fixed_frame_rate_flag
    }
    &&& match timing.nal_hrd {
        None => !vui.nal_hrd_parameters_present_flag,
        Some(hrd) => vui.nal_hrd_parameters_present_flag && hrd_is(hrd, vui.nal_hrd_parameters),
    }
    &&& match timing.vcl_hrd {
        None => !vui.vcl_hrd_parameters_present_flag,
        Some(hrd) => vui.vcl_hrd_parameters_present_flag && hrd_is(hrd, vui.vcl_hrd_parameters),
    }
    &&& vui.nal_hrd_parameters_present_flag || vui.vcl_hrd_parameters_present_flag
        ==> timing.low_delay_hrd_flag == vui.low_delay_hrd_flag
}

proof fn lemma_optional_hrd(present: bool, hrd: HrdParams, rest: Seq<bool>)
    requires
        syntax::failure(
            seq![syntax::flag(present)] + syntax::when(present, syntax::hrd_syntax(hrd)),
        ) is None,
    ensures
        ({
            let e = seq![syntax::flag(present)] + syntax::when(present, syntax::hrd_syntax(hrd));
            let (decoded, behind) = decode_optional_hrd(syntax::encoded(e) + rest);
            &&& behind == rest
            &&& (decoded is Some) == present
            &&& present ==> hrd_is(decoded->0, hrd)
        }),
{
    let a = seq![syntax::flag(present)];
    let b = syntax::when(present, syntax::hrd_syntax(hrd));
    lemma_split(a, b, rest);
    let middle = syntax::encoded(b) + rest;
    lemma_ends(a, middle);
    lemma_flag(a, 0, middle, present);
    if present {
        lemma_hrd(hrd, rest);
    } else {
        lemma_nothing(rest);
    }
}

proof fn lemma_timing(vui: VuiParams, rest: Seq<bool>)
    requires
        syntax::failure(syntax::vui_timing_syntax(vui)) is None,
        syntax::failure(syntax::vui_hrd_syntax(vui)) is None,
    ensures
        ({
            let bits = syntax::encoded(syntax::vui_timing_syntax(vui)) + (syntax::encoded(
                syntax::vui_hrd_syntax(vui),
            ) + rest);
            let (timing, behind) = decode_timing(bits);
            timing_is(timing, vui) && behind == rest
        }),
{
    let (a, b) = (syntax::vui_timing_syntax(vui), syntax::vui_hrd_syntax(vui));
    let middle = syntax::encoded(b) + rest;
    lemma_ends(a, middle);
    lemma_flag(a, 0, middle, vui.timing_info_present_flag);
    if vui.timing_info_present_flag {
        lemma_u(a, 1, middle, 32, 4_294_967_296, vui.num_units_in_tick);
        lemma_u(a, 2, middle, 32, 4_294_967_296, vui.time_scale);
        lemma_flag(a, 3, middle, vui.fixed_frame_rate_flag);
    }
    let (has_nal, has_vcl) = (
        vui.nal_hrd_parameters_present_flag,
        vui.vcl_hrd_parameters_present_flag,
    );
    let nal = seq![syntax::flag(has_nal)] + syntax::when(
        has_nal,
        syntax::hrd_syntax(vui.nal_hrd_parameters),
    );
    let vcl = seq![syntax::flag(has_vcl)] + syntax::when(
        has_vcl,
        syntax::hrd_syntax(vui.vcl_hrd_parameters),
    );
    let low = syntax::when(has_nal || has_vcl, seq![syntax::flag(vui.low_delay_hrd_flag)]);
    assert(b =~= nal + vcl + low);
    lemma_split(nal + vcl, low, rest);
    let behind_vcl = syntax::encoded(low) + rest;
    lemma_split(nal, vcl, behind_vcl);
    lemma_optional_hrd(has_nal, vui.nal_hrd_parameters, syntax::encoded(vcl) + behind_vcl);
    lemma_optional_hrd(has_vcl, vui.vcl_hrd_parameters, behind_vcl);
    lemma_ends(low, rest);
    if has_nal || has_vcl {
        lemma_flag(low, 0, rest, vui.low_delay_hrd_flag);
    } else {
        lemma_nothing(rest);
    }
}

/// What a stream confines itself to, by the usability information.
pub ghost struct DecodedRestriction {
    pub pic_struct_present_flag: bool,
    pub bitstream_restriction_flag: bool,
    pub motion_vectors_over_pic_boundaries_flag: bool,
    pub max_bytes_per_pic_denom: int,
    pub max_bits_per_mb_denom: int,
    pub log2_max_mv_length_horizontal: int,
    pub log2_max_mv_length_vertical: int,
    pub max_num_reorder_frames: int,
    pub max_dec_frame_buffering: int,
}

pub open spec fn decode_restriction(bits: Seq<bool>) -> (DecodedRestriction, Seq<bool>) {
    let (pic_struct_present_flag, bits) = read_flag(bits);
    let (bitstream_restriction_flag, bits) = read_flag(bits);
    if bitstream_restriction_flag {
        let (motion_vectors_over_pic_boundaries_flag, bits) = read_flag(bits);
        let (max_bytes_per_pic_denom, bits) = read_ue(bits);
        let (max_bits_per_mb_denom, bits) = read_ue(bits);
        let (log2_max_mv_length_horizontal, bits) = read_ue(bits);
        let (log2_max_mv_length_vertical, bits) = read_ue(bits);
        let (max_num_reorder_frames, bits) = read_ue(bits);
        let (max_dec_frame_buffering, bits) = read_ue(bits);
        (
            DecodedRestriction {
                pic_struct_present_flag,
                bitstream_restriction_flag,
                motion_vectors_over_pic_boundaries_flag,
                max_bytes_per_pic_denom,
                max_bits_per_mb_denom,
                log2_max_mv_length_horizontal,
                log2_max_mv_length_vertical,
                max_num_reorder_frames,
                max_dec_frame_buffering,
            },
            bits,
        )
    } else {
        (
            DecodedRestriction {
                pic_struct_present_flag,
                bitstream_restriction_flag,
                motion_vectors_over_pic_boundaries_flag: true,
                max_bytes_per_pic_denom: 2,
                max_bits_per_mb_denom: 1,
                log2_max_mv_length_horizontal: 16,
                log2_max_mv_length_vertical: 16,
                max_num_reorder_frames: 0,
                max_dec_frame_buffering: 0,
            },
            bits,
        )
    }
}

pub open spec fn restriction_is(restriction: DecodedRestriction, vui: VuiParams) -> bool {
    &&& restriction.pic_struct_present_flag == vui.pic_struct_present_flag
    &&& restriction.bitstream_restriction_flag == vui.bitstream_restriction_flag
    &&& vui.bitstream_restriction_flag ==> {
        &&& restriction.motion_vectors_over_pic_boundaries_flag
            == vui.motion_vectors_over_pic_boundaries_flag
        &&& restriction.max_bytes_per_pic_denom == vui.max_bytes_per_pic_denom
        &&& restriction.max_bits_per_mb_denom == vui.max_bits_per_mb_denom
        &&& restriction.log2_max_mv_length_horizontal == vui.log2_max_mv_length_horizontal
        &&& restriction.log2_max_mv_length_vertical == vui.log2_max_mv_length_vertical
        &&& restriction.max_num_reorder_frames == vui.max_num_reorder_frames
        &&& restriction.max_dec_frame_buffering == vui.max_dec_frame_buffering
    }
}

proof fn lemma_restriction(vui: VuiParams, rest: Seq<bool>)
    requires
        syntax::failure(syntax::vui_restriction_syntax(vui)) is None,
    ensures
        ({
            let (restriction, behind) = decode_restriction(
                syntax::encoded(syntax::vui_restriction_syntax(vui)) + rest,
            );
            restriction_is(restriction, vui) && behind == rest
        }),
{
    let e = syntax::vui_restriction_syntax(vui);
    lemma_ends(e, rest);
    lemma_flag(e, 0, rest, vui.pic_struct_present_flag);
    lemma_flag(e, 1, rest, vui.bitstream_restriction_flag);
    if vui.bitstream_restriction_flag {
        lemma_flag(e, 2, rest, vui.motion_vectors_over_pic_boundaries_flag);
        lemma_ue(e, 3, rest, vui.max_bytes_per_pic_denom);
        lemma_ue(e, 4, rest, vui.max_bits_per_mb_denom);
        lemma_ue(e, 5, rest, vui.log2_max_mv_length_horizontal);
        lemma_ue(e, 6, rest, vui.log2_max_mv_length_vertical);
        lemma_ue(e, 7, rest, vui.max_num_reorder_frames);
        lemma_ue(e, 8, rest, vui.max_dec_frame_buffering);
    }
}

/// The usability information.
pub ghost struct DecodedVui {
    pub shape: DecodedShape,
    pub signal: DecodedSignal,
    pub timing: DecodedTiming,
    pub restriction: DecodedRestriction,
}

/// Reads `vui_parameters()`, E.1.1.
pub open spec fn decode_vui(bits: Seq<bool>) -> (DecodedVui, Seq<bool>) {
    let (shape, bits) = decode_shape(bits);
    let (signal, bits) = decode_signal(bits);
    let (timing, bits) = decode_timing(bits);
    let (restriction, bits) = decode_restriction(bits);
    (DecodedVui { shape, signal, timing, restriction }, bits)
}

pub open spec fn vui_is(decoded: DecodedVui, vui: VuiParams) -> bool {
    &&& shape_is(decoded.shape, vui)
    &&& signal_is(decoded.signal, vui)
    &&& timing_is(decoded.timing, vui)
    &&& restriction_is(decoded.restriction, vui)
}

proof fn lemma_vui(vui: VuiParams, rest: Seq<bool>)
    requires
        syntax::failure(syntax::vui_syntax(vui)) is None,
    ensures
        ({
            let (decoded, behind) = decode_vui(syntax::encoded(syntax::vui_syntax(vui)) + rest);
            vui_is(decoded, vui) && behind == rest
        }),
{
    let (a, b) = (syntax::vui_aspect_syntax(vui), syntax::vui_overscan_syntax(vui));
    let (c, d) = (syntax::vui_signal_syntax(vui), syntax::vui_chroma_loc_syntax(vui));
    let (e, f) = (syntax::vui_timing_syntax(vui), syntax::vui_hrd_syntax(vui));
    let g = syntax::vui_restriction_syntax(vui);
    lemma_split(a + b + c + d + e + f, g, rest);
    let behind_f = syntax::encoded(g) + rest;
    lemma_split(a + b + c + d + e, f, behind_f);
    let behind_e = syntax::encoded(f) + behind_f;
    lemma_split(a + b + c + d, e, behind_e);
    let behind_d = syntax::encoded(e) + behind_e;
    lemma_split(a + b + c, d, behind_d);
    let behind_c = syntax::encoded(d) + behind_d;
    lemma_split(a + b, c, behind_c);
    let behind_b = syntax::encoded(c) + behind_c;
    lemma_split(a, b, behind_b);
    lemma_shape(vui, behind_b);
    lemma_signal(vui, behind_d);
    lemma_timing(vui, behind_f);
    lemma_restriction(vui, rest);
}

/// A sequence parameter set.
pub ghost struct DecodedSps {
    pub head: DecodedHead,
    pub chroma: Option<DecodedChroma>,
    pub order: DecodedOrder,
    pub frame: DecodedFrame,
    pub vui: Option<DecodedVui>,
}

/// The profiles whose sequence parameter sets say what the chroma format is.
pub open spec fn speaks_of_chroma(profile_idc: int) -> bool {
    seq![100int, 110, 122, 244, 44, 83, 86, 118, 128, 138, 139, 134, 135].contains(profile_idc)
}

/// Reads `seq_parameter_set_data()`, 7.3.2.1.1.
#[verifier::opaque]
pub open spec fn decode_sps(bits: Seq<bool>) -> (DecodedSps, Seq<bool>) {
    let (head, bits) = decode_head(bits);
    let (chroma, bits) = if speaks_of_chroma(head.profile_idc) {
        let (chroma, bits) = decode_chroma(bits);
        (Some(chroma), bits)
    } else {
        (None, bits)
    };
    let (order, bits) = decode_order(bits);
    let (frame, bits) = decode_frame(bits);
    let (vui_parameters_present_flag, bits) = read_flag(bits);
    let (vui, bits) = if vui_parameters_present_flag {
        let (vui, bits) = decode_vui(bits);
        (Some(vui), bits)
    } else {
        (None, bits)
    };
    (DecodedSps { head, chroma, order, frame, vui }, bits)
}

/// The sequence parameter set was read as it is.
pub open spec fn sps_is(decoded: DecodedSps, sps: Sps) -> bool {
    &&& head_is(decoded.head, sps)
    &&& match decoded.chroma {
        None => !speaks_of_chroma(sps.profile_idc as int),
        Some(chroma) => speaks_of_chroma(sps.profile_idc as int) && chroma_is(chroma, sps),
    }
    &&& order_is(decoded.order, sps)
    &&& frame_is(decoded.frame, sps)
    &&& match decoded.vui {
        None => !sps.vui_parameters_present_flag,
        Some(vui) => sps.vui_parameters_present_flag && vui_is(vui, sps.vui_parameters),
    }
}

/// The profiles that speak of the chroma format, one by one.
proof fn lemma_profiles(profile_idc: u8)
    ensures
        speaks_of_chroma(profile_idc as int) == syntax::profile_has_chroma(profile_idc),
{
    let all = seq![100int, 110, 122, 244, 44, 83, 86, 118, 128, 138, 139, 134, 135];
    assert(all[0] == 100 && all[1] == 110 && all[2] == 122 && all[3] == 244 && all[4] == 44);
    assert(all[5] == 83 && all[6] == 86 && all[7] == 118 && all[8] == 128 && all[9] == 138);
    assert(all[10] == 139 && all[11] == 134 && all[12] == 135);
}

proof fn lemma_sps(sps: Sps, rest: Seq<bool>)
    requires
        syntax::failure(syntax::sps_syntax(sps)) is None,
        lists_have_syntax(sps.scaling_lists_4x4, sps.scaling_lists_8x8, 12),
    ensures
        ({
            let (decoded, behind) = decode_sps(syntax::encoded(syntax::sps_syntax(sps)) + rest);
            sps_is(decoded, sps) && behind == rest
        }),
{
    reveal(decode_sps);
    let (a, b) = (syntax::sps_profile_syntax(sps), syntax::sps_level_syntax(sps));
    let c = syntax::when(
        syntax::profile_has_chroma(sps.profile_idc),
        syntax::sps_chroma_syntax(sps),
    );
    let (d, e) = (syntax::sps_order_syntax(sps), syntax::sps_frame_syntax(sps));
    let (f, g) = (
        syntax::sps_crop_syntax(sps),
        seq![syntax::flag(sps.vui_parameters_present_flag)],
    );
    let h = syntax::when(
        sps.vui_parameters_present_flag,
        syntax::vui_syntax(sps.vui_parameters),
    );
    lemma_split(a + b + c + d + e + f + g, h, rest);
    let behind_g = syntax::encoded(h) + rest;
    lemma_split(a + b + c + d + e + f, g, behind_g);
    let behind_f = syntax::encoded(g) + behind_g;
    lemma_split(a + b + c + d + e, f, behind_f);
    let behind_e = syntax::encoded(f) + behind_f;
    lemma_split(a + b + c + d, e, behind_e);
    let behind_d = syntax::encoded(e) + behind_e;
    lemma_split(a + b + c, d, behind_d);
    let behind_c = syntax::encoded(d) + behind_d;
    lemma_split(a + b, c, behind_c);
    let behind_b = syntax::encoded(c) + behind_c;
    lemma_split(a, b, behind_b);
    lemma_head(sps, behind_b);
    lemma_profiles(sps.profile_idc);
    if syntax::profile_has_chroma(sps.profile_idc) {
        lemma_chroma(sps, behind_c);
    } else {
        lemma_nothing(behind_c);
    }
    lemma_order(sps, behind_d);
    lemma_frame(sps, behind_f);
    lemma_ends(g, behind_g);
    lemma_flag(g, 0, behind_g, sps.vui_parameters_present_flag);
    if sps.vui_parameters_present_flag {
        lemma_vui(sps.vui_parameters, rest);
    } else {
        lemma_nothing(rest);
    }
}

/// The payload of a NAL unit: what is behind the start code and the header,
/// without the emulation prevention bytes.
pub open spec fn payload_of(unit: Seq<u8>) -> Seq<bool> {
    readback::unpack(readback::unescape(unit.skip(5)))
}

/// `rbsp_trailing_bits()` is all there is: a one, and zeros up to the end of the byte.
pub open spec fn is_trailing(bits: Seq<bool>) -> bool {
    &&& 1 <= bits.len() <= 8
    &&& bits[0]
    &&& forall|i: int| 1 <= i < bits.len() ==> !bits[i]
}

/// Where nothing is said of cropping, nothing is cropped.
pub proof fn nothing_is_cropped_where_nothing_is_said(bits: Seq<bool>)
    ensures
        ({
            let frame = decode_sps(bits).0.frame;
            !frame.frame_cropping_flag ==> frame.frame_crop_left_offset == 0
                && frame.frame_crop_right_offset == 0 && frame.frame_crop_top_offset == 0
                && frame.frame_crop_bottom_offset == 0
        }),
{
    reveal(decode_sps);
}

/// A decoder reads the sequence parameter set that was written, value for
/// value, out of the NAL unit. The one exception is a scaling list that holds
/// a zero among other values, which the syntax has no place for.
pub proof fn a_sequence_parameter_set_is_decoded(ref_idc: u8, sps: Sps)
    requires
        syntax::failure(syntax::sps_syntax(sps)) is None,
        lists_have_syntax(sps.scaling_lists_4x4, sps.scaling_lists_8x8, 12),
    ensures
        ({
            let unit = syntax::nal_unit(
                ref_idc,
                NaluType::Sps,
                syntax::payload(syntax::sps_syntax(sps)),
                true,
            );
            let (decoded, rest) = decode_sps(payload_of(unit));
            &&& unit.take(4) == seq![0u8, 0u8, 0u8, 1u8]
            &&& unit[4] == 32 * (ref_idc % 4) + 7
            &&& sps_is(decoded, sps)
            &&& is_trailing(rest)
        }),
{
    let elements = syntax::sps_syntax(sps);
    let payload = syntax::payload(elements);
    readback::a_nal_unit_opens_with_its_type(ref_idc, NaluType::Sps, payload);
    readback::unescaping_gives_the_bytes_back(bitstream_utils::pack(payload));
    let rest = readback::lemma_payload_parts(elements);
    lemma_sps(sps, rest);
}

/// A picture parameter set.
pub ghost struct DecodedPps {
    pub pic_parameter_set_id: int,
    pub seq_parameter_set_id: int,
    pub entropy_coding_mode_flag: bool,
    pub bottom_field_pic_order_in_frame_present_flag: bool,
    pub num_slice_groups_minus1: int,
    pub num_ref_idx_l0_default_active_minus1: int,
    pub num_ref_idx_l1_default_active_minus1: int,
    pub weighted_pred_flag: bool,
    pub weighted_bipred_idc: int,
    pub pic_init_qp_minus26: int,
    pub pic_init_qs_minus26: int,
    pub chroma_qp_index_offset: int,
    pub deblocking_filter_control_present_flag: bool,
    pub constrained_intra_pred_flag: bool,
    pub redundant_pic_cnt_present_flag: bool,
    pub transform_8x8_mode_flag: bool,
    pub pic_scaling_matrix_present_flag: bool,
    pub lists: Seq<DecodedList>,
    pub second_chroma_qp_index_offset: int,
}

/// Reads `pic_parameter_set_rbsp()`, 7.3.2.2, of a picture parameter set
/// without slice groups, up to where there may be more.
pub open spec fn decode_pps_start(bits: Seq<bool>) -> (DecodedPps, Seq<bool>) {
    let (pic_parameter_set_id, bits) = read_ue(bits);
    let (seq_parameter_set_id, bits) = read_ue(bits);
    let (entropy_coding_mode_flag, bits) = read_flag(bits);
    let (bottom_field_pic_order_in_frame_present_flag, bits) = read_flag(bits);
    let (num_slice_groups_minus1, bits) = read_ue(bits);
    let (num_ref_idx_l0_default_active_minus1, bits) = read_ue(bits);
    let (num_ref_idx_l1_default_active_minus1, bits) = read_ue(bits);
    let (weighted_pred_flag, bits) = read_flag(bits);
    let (weighted_bipred_idc, bits) = read_u(2, bits);
    let (pic_init_qp_minus26, bits) = read_se(bits);
    let (pic_init_qs_minus26, bits) = read_se(bits);
    let (chroma_qp_index_offset, bits) = read_se(bits);
    let (deblocking_filter_control_present_flag, bits) = read_flag(bits);
    let (constrained_intra_pred_flag, bits) = read_flag(bits);
    let (redundant_pic_cnt_present_flag, bits) = read_flag(bits);
    (
        DecodedPps {
            pic_parameter_set_id,
            seq_parameter_set_id,
            entropy_coding_mode_flag,
            bottom_field_pic_order_in_frame_present_flag,
            num_slice_groups_minus1,
            num_ref_idx_l0_default_active_minus1,
            num_ref_idx_l1_default_active_minus1,
            weighted_pred_flag,
            weighted_bipred_idc,
            pic_init_qp_minus26,
            pic_init_qs_minus26,
            chroma_qp_index_offset,
            deblocking_filter_control_present_flag,
            constrained_intra_pred_flag,
            redundant_pic_cnt_present_flag,
            transform_8x8_mode_flag: false,
            pic_scaling_matrix_present_flag: false,
            lists: seq![],
            second_chroma_qp_index_offset: chroma_qp_index_offset,
        },
        bits,
    )
}

/// Reads the rest of `pic_parameter_set_rbsp()`, for the chroma format of the
/// sequence parameter set that it refers to.
pub open spec fn decode_pps_end(start: DecodedPps, bits: Seq<bool>, chroma_format_idc: int) -> (
    DecodedPps,
    Seq<bool>,
) {
    let (transform_8x8_mode_flag, bits) = read_flag(bits);
    let (pic_scaling_matrix_present_flag, bits) = read_flag(bits);
    let count: nat = if !transform_8x8_mode_flag {
        6
    } else if chroma_format_idc == 3 {
        12
    } else {
        8
    };
    let (lists, bits) = if pic_scaling_matrix_present_flag {
        decode_lists(bits, count)
    } else {
        (seq![], bits)
    };
    let (second_chroma_qp_index_offset, bits) = read_se(bits);
    (
        DecodedPps {
            transform_8x8_mode_flag,
            pic_scaling_matrix_present_flag,
            lists,
            second_chroma_qp_index_offset,
            ..start
        },
        bits,
    )
}

/// Reads `pic_parameter_set_rbsp()`: there is more where what is left is not
/// the trailing bits.
pub open spec fn decode_pps(bits: Seq<bool>, chroma_format_idc: int) -> (DecodedPps, Seq<bool>) {
    let (start, bits) = decode_pps_start(bits);
    if is_trailing(bits) {
        (start, bits)
    } else {
        decode_pps_end(start, bits, chroma_format_idc)
    }
}

pub open spec fn pps_start_is(decoded: DecodedPps, pps: Pps) -> bool {
    &&& decoded.pic_parameter_set_id == pps.pic_parameter_set_id
    &&& decoded.seq_parameter_set_id == pps.seq_parameter_set_id
    &&& decoded.entropy_coding_mode_flag == pps.entropy_coding_mode_flag
    &&& decoded.bottom_field_pic_order_in_frame_present_flag
        == pps.bottom_field_pic_order_in_frame_present_flag
    &&& decoded.num_slice_groups_minus1 == pps.num_slice_groups_minus1
    &&& decoded.num_ref_idx_l0_default_active_minus1 == pps.num_ref_idx_l0_default_active_minus1
    &&& decoded.num_ref_idx_l1_default_active_minus1 == pps.num_ref_idx_l1_default_active_minus1
    &&& decoded.weighted_pred_flag == pps.weighted_pred_flag
    &&& decoded.weighted_bipred_idc == pps.weighted_bipred_idc % 4
    &&& decoded.pic_init_qp_minus26 == pps.pic_init_qp_minus26
    &&& decoded.pic_init_qs_minus26 == pps.pic_init_qs_minus26
    &&& decoded.chroma_qp_index_offset == pps.chroma_qp_index_offset
    &&& decoded.deblocking_filter_control_present_flag
        == pps.deblocking_filter_control_present_flag
    &&& decoded.constrained_intra_pred_flag == pps.constrained_intra_pred_flag
    &&& decoded.redundant_pic_cnt_present_flag == pps.redundant_pic_cnt_present_flag
}

pub open spec fn pps_end_is(decoded: DecodedPps, pps: Pps) -> bool {
    &&& decoded.transform_8x8_mode_flag == pps.transform_8x8_mode_flag
    &&& decoded.pic_scaling_matrix_present_flag == pps.pic_scaling_matrix_present_flag
    &&& pps.pic_scaling_matrix_present_flag ==> {
        &&& decoded.lists.len() == if !pps.transform_8x8_mode_flag {
            6int
        } else if pps.sps.chroma_format_idc == 3 {
            12
        } else {
            8
        }
        &&& forall|i: int|
            0 <= i < decoded.lists.len() ==> list_is(
                #[trigger] decoded.lists[i],
                list_at(pps.scaling_lists_4x4, pps.scaling_lists_8x8, i),
                i,
            )
    }
    &&& decoded.second_chroma_qp_index_offset == pps.second_chroma_qp_index_offset
}

proof fn lemma_pps_start(pps: Pps, rest: Seq<bool>)
    requires
        syntax::failure(syntax::pps_head_syntax(pps)) is None,
        syntax::failure(syntax::pps_defaults_syntax(pps)) is None,
    ensures
        ({
            let bits = syntax::encoded(syntax::pps_head_syntax(pps)) + (syntax::encoded(
                syntax::pps_defaults_syntax(pps),
            ) + rest);
            let (decoded, behind) = decode_pps_start(bits);
            &&& pps_start_is(decoded, pps)
            &&& decoded.num_slice_groups_minus1 == 0
            &&& !decoded.transform_8x8_mode_flag
            &&& !decoded.pic_scaling_matrix_present_flag
            &&& decoded.second_chroma_qp_index_offset == pps.chroma_qp_index_offset
            &&& behind == rest
        }),
{
    let (a, b) = (syntax::pps_head_syntax(pps), syntax::pps_defaults_syntax(pps));
    if pps.num_slice_groups_minus1 > 0 {
        assert(a.last() == Element::Unsupported);
    }
    let middle = syntax::encoded(b) + rest;
    lemma_ends(a, middle);
    lemma_ue(a, 0, middle, pps.pic_parameter_set_id as u32);
    lemma_ue(a, 1, middle, pps.seq_parameter_set_id as u32);
    lemma_flag(a, 2, middle, pps.entropy_coding_mode_flag);
    lemma_flag(a, 3, middle, pps.bottom_field_pic_order_in_frame_present_flag);
    lemma_ue(a, 4, middle, pps.num_slice_groups_minus1);
    lemma_ends(b, rest);
    lemma_ue(b, 0, rest, pps.num_ref_idx_l0_default_active_minus1 as u32);
    lemma_ue(b, 1, rest, pps.num_ref_idx_l1_default_active_minus1 as u32);
    lemma_flag(b, 2, rest, pps.weighted_pred_flag);
    lemma_u(b, 3, rest, 2, 4, pps.weighted_bipred_idc as u32);
    lemma_se(b, 4, rest, pps.pic_init_qp_minus26 as i32);
    lemma_se(b, 5, rest, pps.pic_init_qs_minus26 as i32);
    lemma_se(b, 6, rest, pps.chroma_qp_index_offset as i32);
    lemma_flag(b, 7, rest, pps.deblocking_filter_control_present_flag);
    lemma_flag(b, 8, rest, pps.constrained_intra_pred_flag);
    lemma_flag(b, 9, rest, pps.redundant_pic_cnt_present_flag);
}

proof fn lemma_pps_end(start: DecodedPps, pps: Pps, rest: Seq<bool>)
    requires
        syntax::failure(syntax::pps_extension_syntax(pps)) is None,
        lists_have_syntax(pps.scaling_lists_4x4, pps.scaling_lists_8x8, 12),
    ensures
        ({
            let (decoded, behind) = decode_pps_end(
                start,
                syntax::encoded(syntax::pps_extension_syntax(pps)) + rest,
                pps.sps.chroma_format_idc as int,
            );
            &&& pps_end_is(decoded, pps)
            &&& decoded == DecodedPps {
                transform_8x8_mode_flag: decoded.transform_8x8_mode_flag,
                pic_scaling_matrix_present_flag: decoded.pic_scaling_matrix_present_flag,
                lists: decoded.lists,
                second_chroma_qp_index_offset: decoded.second_chroma_qp_index_offset,
                ..start
            }
            &&& behind == rest
        }),
{
    let a = seq![
        syntax::flag(pps.transform_8x8_mode_flag),
        syntax::flag(pps.pic_scaling_matrix_present_flag),
    ];
    let count: nat = if !pps.transform_8x8_mode_flag {
        6
    } else if pps.sps.chroma_format_idc != 3 {
        8
    } else {
        12
    };
    let b = syntax::when(
        pps.pic_scaling_matrix_present_flag,
        syntax::scaling_lists_syntax(pps.scaling_lists_4x4, pps.scaling_lists_8x8, count),
    );
    let c = seq![Element::Se(pps.second_chroma_qp_index_offset as i32)];
    assert(syntax::pps_extension_syntax(pps) == a + b + c);
    lemma_split(a + b, c, rest);
    let behind_b = syntax::encoded(c) + rest;
    lemma_split(a, b, behind_b);
    let behind_a = syntax::encoded(b) + behind_b;
    lemma_ends(a, behind_a);
    lemma_flag(a, 0, behind_a, pps.transform_8x8_mode_flag);
    lemma_flag(a, 1, behind_a, pps.pic_scaling_matrix_present_flag);
    if pps.pic_scaling_matrix_present_flag {
        lemma_lists(pps.scaling_lists_4x4, pps.scaling_lists_8x8, count, behind_b);
    } else {
        lemma_nothing(behind_b);
    }
    lemma_ends(c, rest);
    lemma_se(c, 0, rest, pps.second_chroma_qp_index_offset as i32);
}

/// The extension of a picture parameter set is not mistaken for the trailing bits.
proof fn lemma_more(pps: Pps, rest: Seq<bool>)
    requires
        syntax::failure(syntax::pps_extension_syntax(pps)) is None,
        is_trailing(rest),
    ensures
        !is_trailing(syntax::encoded(syntax::pps_extension_syntax(pps)) + rest),
{
    let e = syntax::pps_extension_syntax(pps);
    let bits = syntax::encoded(e);
    let one = seq![e[0]];
    assert(e =~= one + e.skip(1));
    lemma_split(one, e.skip(1), Seq::empty());
    assert(one.drop_last() =~= Seq::<Element>::empty());
    assert(syntax::encoded(one) =~= e[0].code()) by {
        reveal_with_fuel(syntax::encoded, 2);
        assert(one.last() == e[0]);
    }
    assert(e[0].code().len() == 1);
    assert(bits + Seq::<bool>::empty() =~= bits);
    assert(bits.len() >= 1);
    let all = bits + rest;
    assert(all[bits.len() as int] == rest[0]);
}

/// A decoder reads the picture parameter set that was written, value for
/// value, out of the NAL unit. The exceptions are a scaling list that holds a
/// zero among other values, and an offset for the second chroma component
/// that is zero, and so not written for itself, where the other offset is not.
pub proof fn a_picture_parameter_set_is_decoded(ref_idc: u8, pps: Pps)
    requires
        syntax::failure(syntax::pps_syntax(pps)) is None,
        lists_have_syntax(pps.scaling_lists_4x4, pps.scaling_lists_8x8, 12),
        pps.chroma_qp_index_offset != 0 ==> pps.second_chroma_qp_index_offset != 0
            || pps.transform_8x8_mode_flag || pps.pic_scaling_matrix_present_flag,
    ensures
        ({
            let unit = syntax::nal_unit(
                ref_idc,
                NaluType::Pps,
                syntax::payload(syntax::pps_syntax(pps)),
                true,
            );
            let (decoded, rest) = decode_pps(payload_of(unit), pps.sps.chroma_format_idc as int);
            &&& unit.take(4) == seq![0u8, 0u8, 0u8, 1u8]
            &&& unit[4] == 32 * (ref_idc % 4) + 8
            &&& pps_start_is(decoded, pps)
            &&& pps_end_is(decoded, pps)
            &&& is_trailing(rest)
        }),
{
    let elements = syntax::pps_syntax(pps);
    let payload = syntax::payload(elements);
    readback::a_nal_unit_opens_with_its_type(ref_idc, NaluType::Pps, payload);
    readback::unescaping_gives_the_bytes_back(bitstream_utils::pack(payload));
    let rest = readback::lemma_payload_parts(elements);
    let (a, b) = (syntax::pps_head_syntax(pps), syntax::pps_defaults_syntax(pps));
    let c = syntax::when(syntax::pps_is_extended(pps), syntax::pps_extension_syntax(pps));
    lemma_split(a + b, c, rest);
    let behind_b = syntax::encoded(c) + rest;
    lemma_split(a, b, behind_b);
    lemma_pps_start(pps, behind_b);
    let bits = syntax::encoded(a) + (syntax::encoded(b) + behind_b);
    let start = decode_pps_start(bits).0;
    if syntax::pps_is_extended(pps) {
        lemma_more(pps, rest);
        lemma_pps_end(start, pps, rest);
    } else {
        lemma_nothing(rest);
    }
}

} // verus!
