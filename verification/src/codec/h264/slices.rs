//! A decoder of the slice header, which goes by the parameter sets that it refers to.

use vstd::arithmetic::power2;
use vstd::prelude::*;

use crate::bitstream_utils;
use crate::codec::h264::decoder;
use crate::codec::h264::decoder::from;
use crate::codec::h264::decoder::lemma_ends;
use crate::codec::h264::decoder::lemma_flag;
use crate::codec::h264::decoder::lemma_next;
use crate::codec::h264::decoder::lemma_nothing;
use crate::codec::h264::decoder::lemma_se;
use crate::codec::h264::decoder::lemma_split;
use crate::codec::h264::decoder::lemma_u;
use crate::codec::h264::decoder::lemma_ue;
use crate::codec::h264::decoder::read_flag;
use crate::codec::h264::decoder::read_se;
use crate::codec::h264::decoder::read_u;
use crate::codec::h264::decoder::read_ue;
use crate::codec::h264::parser::MaxLongTermFrameIdx;
use crate::codec::h264::parser::Pps;
use crate::codec::h264::parser::PredWeightTable;
use crate::codec::h264::parser::RefPicListModification;
use crate::codec::h264::parser::RefPicMarkingInner;
use crate::codec::h264::parser::SliceHeader;
use crate::codec::h264::parser::SliceType;
use crate::codec::h264::parser::Sps;
use crate::codec::h264::readback;
use crate::codec::h264::syntax;
use crate::codec::h264::syntax::Element;
use crate::encode::IsReference;

verus! {

/// Reading a `u(n)` at `i`, whatever `n` is.
proof fn lemma_u_any(elements: Seq<Element>, i: int, rest: Seq<bool>, n: nat, value: u32)
    requires
        syntax::failure(elements) is None,
        0 <= i < elements.len(),
        n <= 1000,
        elements[i] == Element::U(n as usize, value),
    ensures
        read_u(n, from(elements, i, rest)) == (
            (value as nat % power2::pow2(n)) as int,
            from(elements, i + 1, rest),
        ),
{
    reveal(from);
    reveal(read_u);
    lemma_next(elements, i, rest);
}

/// The picture that a slice is of.
pub ghost struct DecodedPicture {
    pub first_mb_in_slice: int,
    pub slice_type: int,
    pub pic_parameter_set_id: int,
    pub colour_plane_id: int,
    pub frame_num: int,
    pub field_pic_flag: bool,
    pub bottom_field_flag: bool,
    pub idr_pic_id: int,
}

#[verifier::opaque]
pub open spec fn decode_picture(bits: Seq<bool>, sps: Sps, idr: bool) -> (
    DecodedPicture,
    Seq<bool>,
) {
    let (first_mb_in_slice, bits) = read_ue(bits);
    let (slice_type, bits) = read_ue(bits);
    let (pic_parameter_set_id, bits) = read_ue(bits);
    let (colour_plane_id, bits) = if sps.separate_colour_plane_flag {
        read_u(2, bits)
    } else {
        (0, bits)
    };
    let (frame_num, bits) = read_u((sps.log2_max_frame_num_minus4 + 4) as nat, bits);
    let (field_pic_flag, bits) = if !sps.frame_mbs_only_flag {
        read_flag(bits)
    } else {
        (false, bits)
    };
    let (bottom_field_flag, bits) = if field_pic_flag {
        read_flag(bits)
    } else {
        (false, bits)
    };
    let (idr_pic_id, bits) = if idr {
        read_ue(bits)
    } else {
        (0, bits)
    };
    (
        DecodedPicture {
            first_mb_in_slice,
            slice_type,
            pic_parameter_set_id,
            colour_plane_id,
            frame_num,
            field_pic_flag,
            bottom_field_flag,
            idr_pic_id,
        },
        bits,
    )
}

pub open spec fn picture_is(picture: DecodedPicture, hdr: SliceHeader, sps: Sps, idr: bool) -> bool {
    &&& picture.first_mb_in_slice == hdr.first_mb_in_slice
    &&& picture.slice_type == hdr.slice_type.number()
    &&& picture.pic_parameter_set_id == hdr.pic_parameter_set_id
    &&& sps.separate_colour_plane_flag ==> picture.colour_plane_id == hdr.colour_plane_id % 4
    &&& picture.frame_num == hdr.frame_num as nat % power2::pow2(
        (sps.log2_max_frame_num_minus4 + 4) as nat,
    )
    &&& picture.field_pic_flag == (!sps.frame_mbs_only_flag && hdr.field_pic_flag)
    &&& picture.field_pic_flag ==> picture.bottom_field_flag == hdr.bottom_field_flag
    &&& idr ==> picture.idr_pic_id == hdr.idr_pic_id
}

proof fn lemma_picture(hdr: SliceHeader, sps: Sps, idr: bool, rest: Seq<bool>)
    requires
        syntax::failure(syntax::slice_picture_syntax(hdr, sps)) is None,
        syntax::failure(syntax::slice_field_syntax(hdr, sps, idr)) is None,
    ensures
        ({
            let bits = syntax::encoded(syntax::slice_picture_syntax(hdr, sps)) + (syntax::encoded(
                syntax::slice_field_syntax(hdr, sps, idr),
            ) + rest);
            let (picture, behind) = decode_picture(bits, sps, idr);
            picture_is(picture, hdr, sps, idr) && behind == rest
        }),
{
    reveal(decode_picture);
    let a = syntax::slice_picture_syntax(hdr, sps);
    let b = syntax::slice_field_syntax(hdr, sps, idr);
    let middle = syntax::encoded(b) + rest;
    lemma_ends(a, middle);
    lemma_ue(a, 0, middle, hdr.first_mb_in_slice);
    lemma_ue(a, 1, middle, hdr.slice_type.number() as u32);
    lemma_ue(a, 2, middle, hdr.pic_parameter_set_id as u32);
    let k: int = if sps.separate_colour_plane_flag {
        1
    } else {
        0
    };
    if sps.separate_colour_plane_flag {
        lemma_u(a, 3, middle, 2, 4, hdr.colour_plane_id as u32);
    }
    lemma_u_any(
        a,
        k + 3,
        middle,
        (sps.log2_max_frame_num_minus4 + 4) as nat,
        hdr.frame_num as u32,
    );
    assert(a.len() == k + 4);
    lemma_ends(b, rest);
    if !sps.frame_mbs_only_flag {
        lemma_flag(b, 0, rest, hdr.field_pic_flag);
        if hdr.field_pic_flag {
            lemma_flag(b, 1, rest, hdr.bottom_field_flag);
            if idr {
                lemma_ue(b, 2, rest, hdr.idr_pic_id as u32);
            }
        } else if idr {
            lemma_ue(b, 1, rest, hdr.idr_pic_id as u32);
        }
    } else if idr {
        lemma_ue(b, 0, rest, hdr.idr_pic_id as u32);
    }
}

/// The picture order count of a slice.
pub ghost struct DecodedCount {
    pub pic_order_cnt_lsb: int,
    pub delta_pic_order_cnt_bottom: int,
    pub delta_pic_order_cnt_0: int,
    pub delta_pic_order_cnt_1: int,
}

#[verifier::opaque]
pub open spec fn decode_count(bits: Seq<bool>, sps: Sps, pps: Pps, field_pic_flag: bool) -> (
    DecodedCount,
    Seq<bool>,
) {
    let both = pps.bottom_field_pic_order_in_frame_present_flag && !field_pic_flag;
    let low = sps.pic_order_cnt_type == 0;
    let (pic_order_cnt_lsb, bits) = if low {
        read_u((sps.log2_max_pic_order_cnt_lsb_minus4 + 4) as nat, bits)
    } else {
        (0, bits)
    };
    let (delta_pic_order_cnt_bottom, bits) = if low && both {
        read_se(bits)
    } else {
        (0, bits)
    };
    let deltas = sps.pic_order_cnt_type == 1 && !sps.delta_pic_order_always_zero_flag;
    let (delta_pic_order_cnt_0, bits) = if deltas {
        read_se(bits)
    } else {
        (0, bits)
    };
    let (delta_pic_order_cnt_1, bits) = if deltas && both {
        read_se(bits)
    } else {
        (0, bits)
    };
    (
        DecodedCount {
            pic_order_cnt_lsb,
            delta_pic_order_cnt_bottom,
            delta_pic_order_cnt_0,
            delta_pic_order_cnt_1,
        },
        bits,
    )
}

pub open spec fn count_is(count: DecodedCount, hdr: SliceHeader, sps: Sps, pps: Pps) -> bool {
    let both = pps.bottom_field_pic_order_in_frame_present_flag && !hdr.field_pic_flag;
    let deltas = sps.pic_order_cnt_type == 1 && !sps.delta_pic_order_always_zero_flag;
    &&& sps.pic_order_cnt_type == 0 ==> count.pic_order_cnt_lsb == hdr.pic_order_cnt_lsb as nat
        % power2::pow2((sps.log2_max_pic_order_cnt_lsb_minus4 + 4) as nat)
    &&& sps.pic_order_cnt_type == 0 && both ==> count.delta_pic_order_cnt_bottom
        == hdr.delta_pic_order_cnt_bottom
    &&& deltas ==> count.delta_pic_order_cnt_0 == hdr.delta_pic_order_cnt[0]
    &&& deltas && both ==> count.delta_pic_order_cnt_1 == hdr.delta_pic_order_cnt[1]
}

proof fn lemma_count(hdr: SliceHeader, sps: Sps, pps: Pps, rest: Seq<bool>)
    requires
        syntax::failure(syntax::slice_order_syntax(hdr, sps, pps)) is None,
    ensures
        ({
            let (count, behind) = decode_count(
                syntax::encoded(syntax::slice_order_syntax(hdr, sps, pps)) + rest,
                sps,
                pps,
                hdr.field_pic_flag,
            );
            count_is(count, hdr, sps, pps) && behind == rest
        }),
{
    reveal(decode_count);
    let e = syntax::slice_order_syntax(hdr, sps, pps);
    let both = pps.bottom_field_pic_order_in_frame_present_flag && !hdr.field_pic_flag;
    lemma_ends(e, rest);
    if sps.pic_order_cnt_type == 0 {
        lemma_u_any(
            e,
            0,
            rest,
            (sps.log2_max_pic_order_cnt_lsb_minus4 + 4) as nat,
            hdr.pic_order_cnt_lsb as u32,
        );
        if both {
            lemma_se(e, 1, rest, hdr.delta_pic_order_cnt_bottom);
        }
    } else if sps.pic_order_cnt_type == 1 && !sps.delta_pic_order_always_zero_flag {
        lemma_se(e, 0, rest, hdr.delta_pic_order_cnt[0]);
        if both {
            lemma_se(e, 1, rest, hdr.delta_pic_order_cnt[1]);
        }
    }
}

/// The references of a slice.
pub ghost struct DecodedReferences {
    pub redundant_pic_cnt: int,
    pub direct_spatial_mv_pred_flag: bool,
    pub num_ref_idx_active_override_flag: bool,
    /// The picture parameter set's own where the slice has none.
    pub num_ref_idx_l0_active_minus1: int,
    /// The picture parameter set's own where the slice has none.
    pub num_ref_idx_l1_active_minus1: int,
}

/// A slice of the type `slice_type` predicts from one picture at a time.
pub open spec fn is_p(slice_type: int) -> bool {
    slice_type % 5 == 0 || slice_type % 5 == 3
}

/// A slice of the type `slice_type` predicts from two pictures.
pub open spec fn is_b(slice_type: int) -> bool {
    slice_type % 5 == 1
}

#[verifier::opaque]
pub open spec fn decode_references(bits: Seq<bool>, pps: Pps, slice_type: int) -> (
    DecodedReferences,
    Seq<bool>,
) {
    let (redundant_pic_cnt, bits) = if pps.redundant_pic_cnt_present_flag {
        read_ue(bits)
    } else {
        (0, bits)
    };
    let (direct_spatial_mv_pred_flag, bits) = if is_b(slice_type) {
        read_flag(bits)
    } else {
        (false, bits)
    };
    let (num_ref_idx_active_override_flag, bits) = if is_p(slice_type) || is_b(slice_type) {
        read_flag(bits)
    } else {
        (false, bits)
    };
    let (num_ref_idx_l0_active_minus1, bits) = if num_ref_idx_active_override_flag {
        read_ue(bits)
    } else {
        (pps.num_ref_idx_l0_default_active_minus1 as int, bits)
    };
    let (num_ref_idx_l1_active_minus1, bits) = if num_ref_idx_active_override_flag && is_b(
        slice_type,
    ) {
        read_ue(bits)
    } else {
        (pps.num_ref_idx_l1_default_active_minus1 as int, bits)
    };
    (
        DecodedReferences {
            redundant_pic_cnt,
            direct_spatial_mv_pred_flag,
            num_ref_idx_active_override_flag,
            num_ref_idx_l0_active_minus1,
            num_ref_idx_l1_active_minus1,
        },
        bits,
    )
}

pub open spec fn references_are(references: DecodedReferences, hdr: SliceHeader, pps: Pps) -> bool {
    let slice_type = hdr.slice_type;
    let (p, b) = (
        slice_type == SliceType::P || slice_type == SliceType::Sp,
        slice_type == SliceType::B,
    );
    let own = (p || b) && hdr.num_ref_idx_active_override_flag;
    &&& pps.redundant_pic_cnt_present_flag ==> references.redundant_pic_cnt
        == hdr.redundant_pic_cnt
    &&& b ==> references.direct_spatial_mv_pred_flag == hdr.direct_spatial_mv_pred_flag
    &&& references.num_ref_idx_active_override_flag == own
    &&& own ==> references.num_ref_idx_l0_active_minus1 == hdr.num_ref_idx_l0_active_minus1
    &&& own && b ==> references.num_ref_idx_l1_active_minus1 == hdr.num_ref_idx_l1_active_minus1
    &&& !own ==> references.num_ref_idx_l0_active_minus1
        == pps.num_ref_idx_l0_default_active_minus1
    &&& !own ==> references.num_ref_idx_l1_active_minus1
        == pps.num_ref_idx_l1_default_active_minus1
}

proof fn lemma_references(hdr: SliceHeader, pps: Pps, rest: Seq<bool>)
    requires
        syntax::failure(syntax::slice_reference_syntax(hdr, pps)) is None,
    ensures
        ({
            let (references, behind) = decode_references(
                syntax::encoded(syntax::slice_reference_syntax(hdr, pps)) + rest,
                pps,
                hdr.slice_type.number() as int,
            );
            references_are(references, hdr, pps) && behind == rest
        }),
{
    reveal(decode_references);
    let e = syntax::slice_reference_syntax(hdr, pps);
    let b = hdr.slice_type == SliceType::B;
    let p = hdr.slice_type == SliceType::P || hdr.slice_type == SliceType::Sp;
    lemma_ends(e, rest);
    let k: int = if pps.redundant_pic_cnt_present_flag {
        1
    } else {
        0
    };
    if pps.redundant_pic_cnt_present_flag {
        lemma_ue(e, 0, rest, hdr.redundant_pic_cnt as u32);
    }
    let j: int = if b {
        k + 1
    } else {
        k
    };
    if b {
        lemma_flag(e, k, rest, hdr.direct_spatial_mv_pred_flag);
    }
    if p || b {
        lemma_flag(e, j, rest, hdr.num_ref_idx_active_override_flag);
        if hdr.num_ref_idx_active_override_flag {
            lemma_ue(e, j + 1, rest, hdr.num_ref_idx_l0_active_minus1 as u32);
            if b {
                lemma_ue(e, j + 2, rest, hdr.num_ref_idx_l1_active_minus1 as u32);
                assert(e.len() == j + 3);
            } else {
                assert(e.len() == j + 2);
            }
        } else {
            assert(e.len() == j + 1);
        }
    } else {
        assert(e.len() == j);
    }
}

/// Reads the steps of `ref_pic_list_modification()`, 7.3.3.1, up to the one
/// that ends them, but no more than `limit`: what each is, and its operand.
pub open spec fn decode_steps(bits: Seq<bool>, limit: nat) -> (Seq<(int, int)>, Seq<bool>)
    decreases limit,
{
    if limit == 0 {
        (seq![], bits)
    } else {
        let (modification_of_pic_nums_idc, bits) = read_ue(bits);
        if modification_of_pic_nums_idc == 3 {
            (seq![], bits)
        } else {
            let (operand, bits) = read_ue(bits);
            let (steps, bits) = decode_steps(bits, (limit - 1) as nat);
            (seq![(modification_of_pic_nums_idc, operand)] + steps, bits)
        }
    }
}

/// The steps were read as they are.
pub open spec fn steps_are(read: Seq<(int, int)>, steps: Seq<RefPicListModification>) -> bool {
    &&& read.len() == steps.len()
    &&& forall|i: int|
        0 <= i < steps.len() ==> #[trigger] read[i] == (
            steps[i].modification_of_pic_nums_idc as int,
            if steps[i].modification_of_pic_nums_idc == 2 {
                steps[i].long_term_pic_num as int
            } else {
                steps[i].abs_diff_pic_num_minus1 as int
            },
        )
}

/// Each step is one that the syntax has, and none ends them.
pub open spec fn steps_have_syntax(steps: Seq<RefPicListModification>) -> bool {
    forall|i: int| 0 <= i < steps.len() ==> (#[trigger] steps[i]).modification_of_pic_nums_idc <= 2
}

/// The steps are the first and the others.
proof fn lemma_first_step(steps: Seq<RefPicListModification>)
    requires
        steps.len() > 0,
    ensures
        syntax::modifications_syntax(steps) == syntax::modification_syntax(steps[0])
            + syntax::modifications_syntax(steps.skip(1)),
    decreases steps.len(),
{
    reveal_with_fuel(syntax::modifications_syntax, 2);
    if steps.len() == 1 {
        assert(steps.drop_last() =~= seq![]);
        assert(steps.skip(1) =~= seq![]);
        assert(syntax::modifications_syntax(steps) =~= syntax::modification_syntax(steps[0])
            + syntax::modifications_syntax(steps.skip(1)));
    } else {
        lemma_first_step(steps.drop_last());
        assert(steps.drop_last().skip(1) =~= steps.skip(1).drop_last());
        assert(syntax::modifications_syntax(steps) =~= syntax::modification_syntax(steps[0])
            + syntax::modifications_syntax(steps.skip(1)));
    }
}

proof fn lemma_steps(steps: Seq<RefPicListModification>, limit: nat, rest: Seq<bool>)
    requires
        syntax::failure(syntax::modifications_syntax(steps) + seq![Element::Ue(3)]) is None,
        steps_have_syntax(steps),
        limit > steps.len(),
    ensures
        ({
            let e = syntax::modifications_syntax(steps) + seq![Element::Ue(3)];
            let (read, behind) = decode_steps(syntax::encoded(e) + rest, limit);
            steps_are(read, steps) && behind == rest
        }),
    decreases steps.len(),
{
    let end = seq![Element::Ue(3)];
    let e = syntax::modifications_syntax(steps) + end;
    if steps.len() == 0 {
        assert(e =~= end);
        lemma_ends(end, rest);
        lemma_ue(end, 0, rest, 3);
    } else {
        let first = syntax::modification_syntax(steps[0]);
        let later = syntax::modifications_syntax(steps.skip(1)) + end;
        lemma_first_step(steps);
        assert(e =~= first + later);
        lemma_split(first, later, rest);
        let behind = syntax::encoded(later) + rest;
        assert forall|i: int| 0 <= i < steps.len() - 1 implies (
        #[trigger] steps.skip(1)[i]).modification_of_pic_nums_idc <= 2 by {
            assert(steps.skip(1)[i] == steps[i + 1]);
        }
        lemma_steps(steps.skip(1), (limit - 1) as nat, rest);
        lemma_ends(first, behind);
        assert(steps[0].modification_of_pic_nums_idc <= 2);
        lemma_ue(first, 0, behind, steps[0].modification_of_pic_nums_idc as u32);
        if steps[0].modification_of_pic_nums_idc == 2 {
            lemma_ue(first, 1, behind, steps[0].long_term_pic_num);
        } else {
            lemma_ue(first, 1, behind, steps[0].abs_diff_pic_num_minus1);
        }
        assert(first.len() == 2);
        let read = decode_steps(syntax::encoded(e) + rest, limit).0;
        let others = decode_steps(behind, (limit - 1) as nat).0;
        assert forall|i: int| 0 <= i < steps.len() implies #[trigger] read[i] == (
            steps[i].modification_of_pic_nums_idc as int,
            if steps[i].modification_of_pic_nums_idc == 2 {
                steps[i].long_term_pic_num as int
            } else {
                steps[i].abs_diff_pic_num_minus1 as int
            },
        ) by {
            if i > 0 {
                assert(read[i] == others[i - 1]);
                assert(steps.skip(1)[i - 1] == steps[i]);
            }
        }
    }
}

/// Reads the modification of one list: nothing, or its steps.
pub open spec fn decode_modification(bits: Seq<bool>, limit: nat) -> (
    Option<Seq<(int, int)>>,
    Seq<bool>,
) {
    let (modified, bits) = read_flag(bits);
    if modified {
        let (steps, bits) = decode_steps(bits, limit);
        (Some(steps), bits)
    } else {
        (None, bits)
    }
}

/// The modification of one list was read as it is.
pub open spec fn modification_is(
    read: Option<Seq<(int, int)>>,
    modified: bool,
    steps: Seq<RefPicListModification>,
) -> bool {
    match read {
        None => !modified,
        Some(read) => modified && steps_are(read, steps),
    }
}

proof fn lemma_modification(
    modified: bool,
    steps: Seq<RefPicListModification>,
    limit: nat,
    rest: Seq<bool>,
)
    requires
        syntax::failure(syntax::list_modification_syntax(modified, steps)) is None,
        steps_have_syntax(steps),
        limit > steps.len(),
    ensures
        ({
            let e = syntax::list_modification_syntax(modified, steps);
            let (read, behind) = decode_modification(syntax::encoded(e) + rest, limit);
            modification_is(read, modified, steps) && behind == rest
        }),
{
    let a = seq![syntax::flag(modified)];
    let b = syntax::when(modified, syntax::modifications_syntax(steps) + seq![Element::Ue(3)]);
    lemma_split(a, b, rest);
    let middle = syntax::encoded(b) + rest;
    lemma_ends(a, middle);
    lemma_flag(a, 0, middle, modified);
    if modified {
        lemma_steps(steps, limit, rest);
    } else {
        lemma_nothing(rest);
    }
}

/// The modifications of both lists.
pub ghost struct DecodedModifications {
    pub l0: Option<Seq<(int, int)>>,
    pub l1: Option<Seq<(int, int)>>,
}

#[verifier::opaque]
pub open spec fn decode_modifications(bits: Seq<bool>, slice_type: int, limit: nat) -> (
    DecodedModifications,
    Seq<bool>,
) {
    let (l0, bits) = if is_p(slice_type) || is_b(slice_type) {
        decode_modification(bits, limit)
    } else {
        (None, bits)
    };
    let (l1, bits) = if is_b(slice_type) {
        decode_modification(bits, limit)
    } else {
        (None, bits)
    };
    (DecodedModifications { l0, l1 }, bits)
}

pub open spec fn modifications_are(read: DecodedModifications, hdr: SliceHeader) -> bool {
    let intra = hdr.slice_type == SliceType::I || hdr.slice_type == SliceType::Si;
    &&& modification_is(
        read.l0,
        !intra && hdr.ref_pic_list_modification_flag_l0,
        hdr.ref_pic_list_modification_l0@,
    )
    &&& modification_is(
        read.l1,
        hdr.slice_type == SliceType::B && hdr.ref_pic_list_modification_flag_l1,
        hdr.ref_pic_list_modification_l1@,
    )
}

proof fn lemma_modifications(hdr: SliceHeader, limit: nat, rest: Seq<bool>)
    requires
        syntax::failure(syntax::ref_pic_list_modification_syntax(hdr)) is None,
        steps_have_syntax(hdr.ref_pic_list_modification_l0@),
        steps_have_syntax(hdr.ref_pic_list_modification_l1@),
        limit > hdr.ref_pic_list_modification_l0@.len(),
        limit > hdr.ref_pic_list_modification_l1@.len(),
    ensures
        ({
            let e = syntax::ref_pic_list_modification_syntax(hdr);
            let (read, behind) = decode_modifications(
                syntax::encoded(e) + rest,
                hdr.slice_type.number() as int,
                limit,
            );
            modifications_are(read, hdr) && behind == rest
        }),
{
    reveal(decode_modifications);
    let inter = hdr.slice_type != SliceType::I && hdr.slice_type != SliceType::Si;
    let (flag0, steps0) = (
        hdr.ref_pic_list_modification_flag_l0,
        hdr.ref_pic_list_modification_l0@,
    );
    let (flag1, steps1) = (
        hdr.ref_pic_list_modification_flag_l1,
        hdr.ref_pic_list_modification_l1@,
    );
    let a = syntax::when(inter, syntax::list_modification_syntax(flag0, steps0));
    let b = syntax::when(
        hdr.slice_type == SliceType::B,
        syntax::list_modification_syntax(flag1, steps1),
    );
    lemma_split(a, b, rest);
    let middle = syntax::encoded(b) + rest;
    if inter {
        lemma_modification(flag0, steps0, limit, middle);
    } else {
        lemma_nothing(middle);
    }
    if hdr.slice_type == SliceType::B {
        lemma_modification(flag1, steps1, limit, rest);
    } else {
        lemma_nothing(rest);
    }
}

/// The weights of one reference.
pub ghost struct DecodedWeight {
    pub luma_weight: int,
    pub luma_offset: int,
    pub chroma_weight_0: int,
    pub chroma_offset_0: int,
    pub chroma_weight_1: int,
    pub chroma_offset_1: int,
}

/// Reads the weights of one reference. One that is not there is one, over the denominator.
#[verifier::opaque]
pub open spec fn decode_weight(
    bits: Seq<bool>,
    has_chroma: bool,
    luma_log2_weight_denom: int,
    chroma_log2_weight_denom: int,
) -> (DecodedWeight, Seq<bool>) {
    let luma_one = power2::pow2(luma_log2_weight_denom as nat) as int;
    let chroma_one = power2::pow2(chroma_log2_weight_denom as nat) as int;
    let (luma_weight_flag, bits) = read_flag(bits);
    let (luma_weight, bits) = if luma_weight_flag {
        read_se(bits)
    } else {
        (luma_one, bits)
    };
    let (luma_offset, bits) = if luma_weight_flag {
        read_se(bits)
    } else {
        (0, bits)
    };
    let (chroma_weight_flag, bits) = if has_chroma {
        read_flag(bits)
    } else {
        (false, bits)
    };
    let (chroma_weight_0, bits) = if chroma_weight_flag {
        read_se(bits)
    } else {
        (chroma_one, bits)
    };
    let (chroma_offset_0, bits) = if chroma_weight_flag {
        read_se(bits)
    } else {
        (0, bits)
    };
    let (chroma_weight_1, bits) = if chroma_weight_flag {
        read_se(bits)
    } else {
        (chroma_one, bits)
    };
    let (chroma_offset_1, bits) = if chroma_weight_flag {
        read_se(bits)
    } else {
        (0, bits)
    };
    (
        DecodedWeight {
            luma_weight,
            luma_offset,
            chroma_weight_0,
            chroma_offset_0,
            chroma_weight_1,
            chroma_offset_1,
        },
        bits,
    )
}

/// The weights of one reference were read as they are. An offset is not
/// written without a weight.
pub open spec fn weight_is(
    read: DecodedWeight,
    pwt: PredWeightTable,
    has_chroma: bool,
    luma_weight: i16,
    luma_offset: i8,
    chroma_weight: [i16; 2],
    chroma_offset: [i8; 2],
) -> bool {
    &&& read.luma_weight == luma_weight
    &&& read.luma_offset == if luma_weight == power2::pow2(pwt.luma_log2_weight_denom as nat) {
        0
    } else {
        luma_offset as int
    }
    &&& has_chroma ==> {
        &&& read.chroma_weight_0 == chroma_weight[0]
        &&& read.chroma_offset_0 == chroma_offset[0]
        &&& read.chroma_weight_1 == chroma_weight[1]
        &&& read.chroma_offset_1 == chroma_offset[1]
    }
}

proof fn lemma_weight(
    pwt: PredWeightTable,
    has_chroma: bool,
    luma_weight: i16,
    luma_offset: i8,
    chroma_weight: [i16; 2],
    chroma_offset: [i8; 2],
    rest: Seq<bool>,
)
    requires
        pwt.luma_log2_weight_denom <= 7,
        has_chroma ==> pwt.chroma_log2_weight_denom <= 7,
        syntax::failure(
            syntax::weight_syntax(
                pwt,
                has_chroma,
                luma_weight,
                luma_offset,
                chroma_weight,
                chroma_offset,
            ),
        ) is None,
    ensures
        ({
            let e = syntax::weight_syntax(
                pwt,
                has_chroma,
                luma_weight,
                luma_offset,
                chroma_weight,
                chroma_offset,
            );
            let (read, behind) = decode_weight(
                syntax::encoded(e) + rest,
                has_chroma,
                pwt.luma_log2_weight_denom as int,
                pwt.chroma_log2_weight_denom as int,
            );
            &&& weight_is(
                read,
                pwt,
                has_chroma,
                luma_weight,
                luma_offset,
                chroma_weight,
                chroma_offset,
            )
            &&& behind == rest
        }),
{
    reveal(decode_weight);
    let e = syntax::weight_syntax(
        pwt,
        has_chroma,
        luma_weight,
        luma_offset,
        chroma_weight,
        chroma_offset,
    );
    let luma = luma_weight != syntax::default_weight(pwt.luma_log2_weight_denom);
    let unweighted = syntax::default_weight(pwt.chroma_log2_weight_denom);
    let chroma = chroma_weight[0] != unweighted || chroma_weight[1] != unweighted
        || chroma_offset[0] != 0 || chroma_offset[1] != 0;
    lemma_ends(e, rest);
    lemma_flag(e, 0, rest, luma);
    let k: int = if luma {
        3
    } else {
        1
    };
    if luma {
        lemma_se(e, 1, rest, luma_weight as i32);
        lemma_se(e, 2, rest, luma_offset as i32);
    }
    if has_chroma {
        lemma_flag(e, k, rest, chroma);
        if chroma {
            lemma_se(e, k + 1, rest, chroma_weight[0] as i32);
            lemma_se(e, k + 2, rest, chroma_offset[0] as i32);
            lemma_se(e, k + 3, rest, chroma_weight[1] as i32);
            lemma_se(e, k + 4, rest, chroma_offset[1] as i32);
            assert(e.len() == k + 5);
        } else {
            assert(e.len() == k + 1);
        }
    } else {
        assert(e.len() == k);
    }
}

/// Reads the weights of `n` references.
pub open spec fn decode_weights(
    bits: Seq<bool>,
    n: nat,
    has_chroma: bool,
    luma_log2_weight_denom: int,
    chroma_log2_weight_denom: int,
) -> (Seq<DecodedWeight>, Seq<bool>)
    decreases n,
{
    if n == 0 {
        (seq![], bits)
    } else {
        let (weights, bits) = decode_weights(
            bits,
            (n - 1) as nat,
            has_chroma,
            luma_log2_weight_denom,
            chroma_log2_weight_denom,
        );
        let (weight, bits) = decode_weight(
            bits,
            has_chroma,
            luma_log2_weight_denom,
            chroma_log2_weight_denom,
        );
        (weights.push(weight), bits)
    }
}

/// The weights of the first `n` references of list 0 were read as they are.
pub open spec fn weights_l0_are(
    read: Seq<DecodedWeight>,
    pwt: PredWeightTable,
    has_chroma: bool,
    n: nat,
) -> bool {
    &&& read.len() == n
    &&& forall|i: int|
        0 <= i < n ==> weight_is(
            #[trigger] read[i],
            pwt,
            has_chroma,
            pwt.luma_weight_l0[i],
            pwt.luma_offset_l0[i],
            pwt.chroma_weight_l0[i],
            pwt.chroma_offset_l0[i],
        )
}

/// The weights of the first `n` references of list 1 were read as they are.
pub open spec fn weights_l1_are(
    read: Seq<DecodedWeight>,
    pwt: PredWeightTable,
    has_chroma: bool,
    n: nat,
) -> bool {
    &&& read.len() == n
    &&& forall|i: int|
        0 <= i < n ==> weight_is(
            #[trigger] read[i],
            pwt,
            has_chroma,
            pwt.luma_weight_l1[i],
            pwt.luma_offset_l1[i],
            pwt.chroma_weight_l1[i],
            pwt.chroma_offset_l1[i],
        )
}

proof fn lemma_weights_l0(pwt: PredWeightTable, has_chroma: bool, n: nat, rest: Seq<bool>)
    requires
        pwt.luma_log2_weight_denom <= 7,
        has_chroma ==> pwt.chroma_log2_weight_denom <= 7,
        syntax::failure(syntax::weights_l0_syntax(pwt, has_chroma, n)) is None,
    ensures
        ({
            let (read, behind) = decode_weights(
                syntax::encoded(syntax::weights_l0_syntax(pwt, has_chroma, n)) + rest,
                n,
                has_chroma,
                pwt.luma_log2_weight_denom as int,
                pwt.chroma_log2_weight_denom as int,
            );
            weights_l0_are(read, pwt, has_chroma, n) && behind == rest
        }),
    decreases n,
{
    if n == 0 {
        lemma_nothing(rest);
    } else {
        let i = n - 1;
        let a = syntax::weights_l0_syntax(pwt, has_chroma, i as nat);
        let b = syntax::weight_syntax(
            pwt,
            has_chroma,
            pwt.luma_weight_l0[i],
            pwt.luma_offset_l0[i],
            pwt.chroma_weight_l0[i],
            pwt.chroma_offset_l0[i],
        );
        lemma_split(a, b, rest);
        lemma_weights_l0(pwt, has_chroma, i as nat, syntax::encoded(b) + rest);
        lemma_weight(
            pwt,
            has_chroma,
            pwt.luma_weight_l0[i],
            pwt.luma_offset_l0[i],
            pwt.chroma_weight_l0[i],
            pwt.chroma_offset_l0[i],
            rest,
        );
    }
}

proof fn lemma_weights_l1(pwt: PredWeightTable, has_chroma: bool, n: nat, rest: Seq<bool>)
    requires
        pwt.luma_log2_weight_denom <= 7,
        has_chroma ==> pwt.chroma_log2_weight_denom <= 7,
        syntax::failure(syntax::weights_l1_syntax(pwt, has_chroma, n)) is None,
    ensures
        ({
            let (read, behind) = decode_weights(
                syntax::encoded(syntax::weights_l1_syntax(pwt, has_chroma, n)) + rest,
                n,
                has_chroma,
                pwt.luma_log2_weight_denom as int,
                pwt.chroma_log2_weight_denom as int,
            );
            weights_l1_are(read, pwt, has_chroma, n) && behind == rest
        }),
    decreases n,
{
    if n == 0 {
        lemma_nothing(rest);
    } else {
        let i = n - 1;
        let a = syntax::weights_l1_syntax(pwt, has_chroma, i as nat);
        let b = syntax::weight_syntax(
            pwt,
            has_chroma,
            pwt.luma_weight_l1[i],
            pwt.luma_offset_l1[i],
            pwt.chroma_weight_l1[i],
            pwt.chroma_offset_l1[i],
        );
        lemma_split(a, b, rest);
        lemma_weights_l1(pwt, has_chroma, i as nat, syntax::encoded(b) + rest);
        lemma_weight(
            pwt,
            has_chroma,
            pwt.luma_weight_l1[i],
            pwt.luma_offset_l1[i],
            pwt.chroma_weight_l1[i],
            pwt.chroma_offset_l1[i],
            rest,
        );
    }
}

/// The weights of all references.
pub ghost struct DecodedTable {
    pub luma_log2_weight_denom: int,
    pub chroma_log2_weight_denom: int,
    pub l0: Seq<DecodedWeight>,
    pub l1: Seq<DecodedWeight>,
}

/// Reads `pred_weight_table()`, 7.3.3.2.
#[verifier::opaque]
pub open spec fn decode_table(
    bits: Seq<bool>,
    has_chroma: bool,
    slice_type: int,
    references: DecodedReferences,
) -> (DecodedTable, Seq<bool>) {
    let (luma_log2_weight_denom, bits) = read_ue(bits);
    let (chroma_log2_weight_denom, bits) = if has_chroma {
        read_ue(bits)
    } else {
        (0, bits)
    };
    let (l0, bits) = decode_weights(
        bits,
        (references.num_ref_idx_l0_active_minus1 + 1) as nat,
        has_chroma,
        luma_log2_weight_denom,
        chroma_log2_weight_denom,
    );
    let (l1, bits) = if is_b(slice_type) {
        decode_weights(
            bits,
            (references.num_ref_idx_l1_active_minus1 + 1) as nat,
            has_chroma,
            luma_log2_weight_denom,
            chroma_log2_weight_denom,
        )
    } else {
        (seq![], bits)
    };
    (DecodedTable { luma_log2_weight_denom, chroma_log2_weight_denom, l0, l1 }, bits)
}

pub open spec fn table_is(read: DecodedTable, hdr: SliceHeader, has_chroma: bool) -> bool {
    let pwt = hdr.pred_weight_table;
    &&& read.luma_log2_weight_denom == pwt.luma_log2_weight_denom
    &&& has_chroma ==> read.chroma_log2_weight_denom == pwt.chroma_log2_weight_denom
    &&& weights_l0_are(
        read.l0,
        pwt,
        has_chroma,
        (hdr.num_ref_idx_l0_active_minus1 + 1) as nat,
    )
    &&& hdr.slice_type == SliceType::B ==> weights_l1_are(
        read.l1,
        pwt,
        has_chroma,
        (hdr.num_ref_idx_l1_active_minus1 + 1) as nat,
    )
}

/// Without chroma, its denominator is nothing to a weight.
proof fn lemma_no_chroma(bits: Seq<bool>, n: nat, luma: int, chroma_a: int, chroma_b: int)
    ensures
        ({
            let a = decode_weights(bits, n, false, luma, chroma_a);
            let b = decode_weights(bits, n, false, luma, chroma_b);
            &&& a.1 == b.1
            &&& a.0.len() == n
            &&& b.0.len() == n
            &&& forall|i: int|
                #![trigger a.0[i]]
                #![trigger b.0[i]]
                0 <= i < n ==> a.0[i].luma_weight == b.0[i].luma_weight && a.0[i].luma_offset
                    == b.0[i].luma_offset
        }),
    decreases n,
{
    reveal(decode_weight);
    if n > 0 {
        lemma_no_chroma(bits, (n - 1) as nat, luma, chroma_a, chroma_b);
    }
}

proof fn lemma_table(hdr: SliceHeader, sps: Sps, references: DecodedReferences, rest: Seq<bool>)
    requires
        syntax::failure(syntax::pred_weight_table_syntax(hdr, sps)) is None,
        hdr.pred_weight_table.luma_log2_weight_denom <= 7,
        hdr.pred_weight_table.chroma_log2_weight_denom <= 7,
        references.num_ref_idx_l0_active_minus1 == hdr.num_ref_idx_l0_active_minus1,
        hdr.slice_type == SliceType::B ==> references.num_ref_idx_l1_active_minus1
            == hdr.num_ref_idx_l1_active_minus1,
    ensures
        ({
            let has_chroma = sps.spec_chroma_array_type() != 0;
            let (read, behind) = decode_table(
                syntax::encoded(syntax::pred_weight_table_syntax(hdr, sps)) + rest,
                has_chroma,
                hdr.slice_type.number() as int,
                references,
            );
            table_is(read, hdr, has_chroma) && behind == rest
        }),
{
    reveal(decode_table);
    let pwt = hdr.pred_weight_table;
    let has_chroma = sps.spec_chroma_array_type() != 0;
    let (n0, n1) = (
        (hdr.num_ref_idx_l0_active_minus1 + 1) as nat,
        (hdr.num_ref_idx_l1_active_minus1 + 1) as nat,
    );
    let b = hdr.slice_type == SliceType::B;
    let denominators = seq![Element::Ue(pwt.luma_log2_weight_denom as u32)] + syntax::when(
        has_chroma,
        seq![Element::Ue(pwt.chroma_log2_weight_denom as u32)],
    );
    let l0 = syntax::weights_l0_syntax(pwt, has_chroma, n0);
    let l1 = syntax::when(b, syntax::weights_l1_syntax(pwt, has_chroma, n1));
    lemma_split(denominators + l0, l1, rest);
    let behind0 = syntax::encoded(l1) + rest;
    lemma_split(denominators, l0, behind0);
    let behind = syntax::encoded(l0) + behind0;
    lemma_ends(denominators, behind);
    lemma_ue(denominators, 0, behind, pwt.luma_log2_weight_denom as u32);
    let luma = pwt.luma_log2_weight_denom as int;
    let chroma = pwt.chroma_log2_weight_denom as int;
    if has_chroma {
        lemma_ue(denominators, 1, behind, pwt.chroma_log2_weight_denom as u32);
        assert(denominators.len() == 2);
    } else {
        assert(denominators.len() == 1);
        lemma_no_chroma(behind, n0, luma, chroma, 0);
        lemma_no_chroma(behind0, n1, luma, chroma, 0);
    }
    lemma_weights_l0(pwt, has_chroma, n0, behind0);
    if b {
        lemma_weights_l1(pwt, has_chroma, n1, rest);
    } else {
        lemma_nothing(rest);
    }
}

/// A memory management control operation. What it has no operand for is zero.
pub ghost struct DecodedOperation {
    pub memory_management_control_operation: int,
    pub difference_of_pic_nums_minus1: int,
    pub long_term_pic_num: int,
    pub long_term_frame_idx: int,
    pub max_long_term_frame_idx_plus1: int,
}

/// Reads the operands of one memory management control operation.
#[verifier::opaque]
pub open spec fn decode_operands(operation: int, bits: Seq<bool>) -> (DecodedOperation, Seq<bool>) {
    let (difference_of_pic_nums_minus1, bits) = if operation == 1 || operation == 3 {
        read_ue(bits)
    } else {
        (0, bits)
    };
    let (long_term_pic_num, bits) = if operation == 2 {
        read_ue(bits)
    } else {
        (0, bits)
    };
    let (long_term_frame_idx, bits) = if operation == 3 || operation == 6 {
        read_ue(bits)
    } else {
        (0, bits)
    };
    let (max_long_term_frame_idx_plus1, bits) = if operation == 4 {
        read_ue(bits)
    } else {
        (0, bits)
    };
    (
        DecodedOperation {
            memory_management_control_operation: operation,
            difference_of_pic_nums_minus1,
            long_term_pic_num,
            long_term_frame_idx,
            max_long_term_frame_idx_plus1,
        },
        bits,
    )
}

/// Reads the operations up to the one that ends them, but no more than `limit`.
pub open spec fn decode_operations(bits: Seq<bool>, limit: nat) -> (
    Seq<DecodedOperation>,
    Seq<bool>,
)
    decreases limit,
{
    if limit == 0 {
        (seq![], bits)
    } else {
        let (operation, bits) = read_ue(bits);
        if operation == 0 {
            (seq![], bits)
        } else {
            let (first, bits) = decode_operands(operation, bits);
            let (operations, bits) = decode_operations(bits, (limit - 1) as nat);
            (seq![first] + operations, bits)
        }
    }
}

/// The operation was read as it is.
pub open spec fn operation_is(read: DecodedOperation, marking: RefPicMarkingInner) -> bool {
    let op = marking.memory_management_control_operation;
    &&& read.memory_management_control_operation == op
    &&& op == 1 || op == 3 ==> read.difference_of_pic_nums_minus1
        == marking.difference_of_pic_nums_minus1
    &&& op == 2 ==> read.long_term_pic_num == marking.long_term_pic_num
    &&& op == 3 || op == 6 ==> read.long_term_frame_idx == marking.long_term_frame_idx
    &&& op == 4 ==> match marking.max_long_term_frame_idx {
        MaxLongTermFrameIdx::NoLongTermFrameIndices => read.max_long_term_frame_idx_plus1 == 0,
        MaxLongTermFrameIdx::Idx(idx) => read.max_long_term_frame_idx_plus1 == idx + 1,
    }
}

/// The operations were read as they are.
pub open spec fn operations_are(
    read: Seq<DecodedOperation>,
    markings: Seq<RefPicMarkingInner>,
) -> bool {
    &&& read.len() == markings.len()
    &&& forall|i: int| 0 <= i < markings.len() ==> operation_is(#[trigger] read[i], markings[i])
}

/// Each operation is one, none ends them, and the number of long term frame
/// indices can be written.
pub open spec fn operations_have_syntax(markings: Seq<RefPicMarkingInner>) -> bool {
    forall|i: int|
        0 <= i < markings.len() ==> {
            &&& (#[trigger] markings[i]).memory_management_control_operation != 0
            &&& markings[i].max_long_term_frame_idx != MaxLongTermFrameIdx::Idx(u32::MAX)
        }
}

/// The operations are the first and the others.
proof fn lemma_first_operation(markings: Seq<RefPicMarkingInner>)
    requires
        markings.len() > 0,
    ensures
        syntax::markings_syntax(markings) == syntax::marking_syntax(markings[0])
            + syntax::markings_syntax(markings.skip(1)),
    decreases markings.len(),
{
    reveal_with_fuel(syntax::markings_syntax, 2);
    if markings.len() == 1 {
        assert(markings.drop_last() =~= seq![]);
        assert(markings.skip(1) =~= seq![]);
        assert(syntax::markings_syntax(markings) =~= syntax::marking_syntax(markings[0])
            + syntax::markings_syntax(markings.skip(1)));
    } else {
        lemma_first_operation(markings.drop_last());
        assert(markings.drop_last().skip(1) =~= markings.skip(1).drop_last());
        assert(syntax::markings_syntax(markings) =~= syntax::marking_syntax(markings[0])
            + syntax::markings_syntax(markings.skip(1)));
    }
}

proof fn lemma_operation(marking: RefPicMarkingInner, rest: Seq<bool>)
    requires
        syntax::failure(syntax::marking_syntax(marking)) is None,
        marking.max_long_term_frame_idx != MaxLongTermFrameIdx::Idx(u32::MAX),
    ensures
        ({
            let bits = syntax::encoded(syntax::marking_syntax(marking)) + rest;
            let (operation, operands) = read_ue(bits);
            let (read, behind) = decode_operands(operation, operands);
            &&& operation == marking.memory_management_control_operation
            &&& operation_is(read, marking)
            &&& behind == rest
        }),
{
    reveal(decode_operands);
    let e = syntax::marking_syntax(marking);
    let op = marking.memory_management_control_operation;
    lemma_ends(e, rest);
    lemma_ue(e, 0, rest, op as u32);
    if op == 1 || op == 3 {
        lemma_ue(e, 1, rest, marking.difference_of_pic_nums_minus1);
        if op == 3 {
            lemma_ue(e, 2, rest, marking.long_term_frame_idx);
        }
    } else if op == 2 {
        lemma_ue(e, 1, rest, marking.long_term_pic_num);
    } else if op == 6 {
        lemma_ue(e, 1, rest, marking.long_term_frame_idx);
    } else if op == 4 {
        lemma_ue(e, 1, rest, marking.max_long_term_frame_idx.plus1() as u32);
    }
}

proof fn lemma_operations(markings: Seq<RefPicMarkingInner>, limit: nat, rest: Seq<bool>)
    requires
        syntax::failure(syntax::markings_syntax(markings) + seq![Element::Ue(0)]) is None,
        operations_have_syntax(markings),
        limit > markings.len(),
    ensures
        ({
            let e = syntax::markings_syntax(markings) + seq![Element::Ue(0)];
            let (read, behind) = decode_operations(syntax::encoded(e) + rest, limit);
            operations_are(read, markings) && behind == rest
        }),
    decreases markings.len(),
{
    let end = seq![Element::Ue(0)];
    let e = syntax::markings_syntax(markings) + end;
    if markings.len() == 0 {
        assert(e =~= end);
        lemma_ends(end, rest);
        lemma_ue(end, 0, rest, 0);
    } else {
        let first = syntax::marking_syntax(markings[0]);
        let later = syntax::markings_syntax(markings.skip(1)) + end;
        lemma_first_operation(markings);
        assert(e =~= first + later);
        lemma_split(first, later, rest);
        let behind = syntax::encoded(later) + rest;
        assert forall|i: int| 0 <= i < markings.len() - 1 implies {
            &&& (#[trigger] markings.skip(1)[i]).memory_management_control_operation != 0
            &&& markings.skip(1)[i].max_long_term_frame_idx != MaxLongTermFrameIdx::Idx(u32::MAX)
        } by {
            assert(markings.skip(1)[i] == markings[i + 1]);
        }
        lemma_operations(markings.skip(1), (limit - 1) as nat, rest);
        assert(markings[0].memory_management_control_operation != 0);
        lemma_operation(markings[0], behind);
        let read = decode_operations(syntax::encoded(e) + rest, limit).0;
        let others = decode_operations(behind, (limit - 1) as nat).0;
        assert forall|i: int| 0 <= i < markings.len() implies operation_is(
            #[trigger] read[i],
            markings[i],
        ) by {
            if i > 0 {
                assert(read[i] == others[i - 1]);
                assert(markings.skip(1)[i - 1] == markings[i]);
            }
        }
    }
}

/// How references are marked.
pub ghost struct DecodedMarking {
    pub no_output_of_prior_pics_flag: bool,
    pub long_term_reference_flag: bool,
    /// The operations, unless the oldest picture leaves.
    pub operations: Option<Seq<DecodedOperation>>,
}

/// Reads `dec_ref_pic_marking()`, 7.3.3.3.
#[verifier::opaque]
pub open spec fn decode_marking(bits: Seq<bool>, idr: bool, limit: nat) -> (
    DecodedMarking,
    Seq<bool>,
) {
    let (no_output_of_prior_pics_flag, bits) = if idr {
        read_flag(bits)
    } else {
        (false, bits)
    };
    let (long_term_reference_flag, bits) = if idr {
        read_flag(bits)
    } else {
        (false, bits)
    };
    let (adaptive_ref_pic_marking_mode_flag, bits) = if !idr {
        read_flag(bits)
    } else {
        (false, bits)
    };
    let (operations, bits) = if adaptive_ref_pic_marking_mode_flag {
        let (operations, bits) = decode_operations(bits, limit);
        (Some(operations), bits)
    } else {
        (None, bits)
    };
    (
        DecodedMarking { no_output_of_prior_pics_flag, long_term_reference_flag, operations },
        bits,
    )
}

pub open spec fn marking_is(read: DecodedMarking, hdr: SliceHeader, idr: bool) -> bool {
    let rpm = hdr.dec_ref_pic_marking;
    &&& idr ==> read.no_output_of_prior_pics_flag == rpm.no_output_of_prior_pics_flag
    &&& idr ==> read.long_term_reference_flag == rpm.long_term_reference_flag
    &&& !idr ==> match read.operations {
        None => !rpm.adaptive_ref_pic_marking_mode_flag,
        Some(operations) => rpm.adaptive_ref_pic_marking_mode_flag && operations_are(
            operations,
            rpm.inner@,
        ),
    }
}

proof fn lemma_marking(hdr: SliceHeader, idr: bool, limit: nat, rest: Seq<bool>)
    requires
        syntax::failure(syntax::dec_ref_pic_marking_syntax(hdr, idr)) is None,
        operations_have_syntax(hdr.dec_ref_pic_marking.inner@),
        limit > hdr.dec_ref_pic_marking.inner@.len(),
    ensures
        ({
            let (read, behind) = decode_marking(
                syntax::encoded(syntax::dec_ref_pic_marking_syntax(hdr, idr)) + rest,
                idr,
                limit,
            );
            marking_is(read, hdr, idr) && behind == rest
        }),
{
    reveal(decode_marking);
    let rpm = hdr.dec_ref_pic_marking;
    if idr {
        let e = syntax::dec_ref_pic_marking_syntax(hdr, idr);
        lemma_ends(e, rest);
        lemma_flag(e, 0, rest, rpm.no_output_of_prior_pics_flag);
        lemma_flag(e, 1, rest, rpm.long_term_reference_flag);
    } else {
        let adaptive = rpm.adaptive_ref_pic_marking_mode_flag;
        let a = seq![syntax::flag(adaptive)];
        let b = syntax::when(
            adaptive,
            syntax::markings_syntax(rpm.inner@) + seq![Element::Ue(0)],
        );
        lemma_split(a, b, rest);
        let middle = syntax::encoded(b) + rest;
        lemma_ends(a, middle);
        lemma_flag(a, 0, middle, adaptive);
        if adaptive {
            lemma_operations(rpm.inner@, limit, rest);
        } else {
            lemma_nothing(rest);
        }
    }
}

/// The quantizer and the deblocking of a slice.
pub ghost struct DecodedQuality {
    pub cabac_init_idc: int,
    pub slice_qp_delta: int,
    pub sp_for_switch_flag: bool,
    pub slice_qs_delta: int,
    pub disable_deblocking_filter_idc: int,
    pub slice_alpha_c0_offset_div2: int,
    pub slice_beta_offset_div2: int,
}

#[verifier::opaque]
pub open spec fn decode_quality(bits: Seq<bool>, pps: Pps, slice_type: int) -> (
    DecodedQuality,
    Seq<bool>,
) {
    let inter = is_p(slice_type) || is_b(slice_type);
    let (sp, si) = (slice_type % 5 == 3, slice_type % 5 == 4);
    let (cabac_init_idc, bits) = if pps.entropy_coding_mode_flag && inter {
        read_ue(bits)
    } else {
        (0, bits)
    };
    let (slice_qp_delta, bits) = read_se(bits);
    let (sp_for_switch_flag, bits) = if sp {
        read_flag(bits)
    } else {
        (false, bits)
    };
    let (slice_qs_delta, bits) = if sp || si {
        read_se(bits)
    } else {
        (0, bits)
    };
    let control = pps.deblocking_filter_control_present_flag;
    let (disable_deblocking_filter_idc, bits) = if control {
        read_ue(bits)
    } else {
        (0, bits)
    };
    let offsets = control && disable_deblocking_filter_idc != 1;
    let (slice_alpha_c0_offset_div2, bits) = if offsets {
        read_se(bits)
    } else {
        (0, bits)
    };
    let (slice_beta_offset_div2, bits) = if offsets {
        read_se(bits)
    } else {
        (0, bits)
    };
    (
        DecodedQuality {
            cabac_init_idc,
            slice_qp_delta,
            sp_for_switch_flag,
            slice_qs_delta,
            disable_deblocking_filter_idc,
            slice_alpha_c0_offset_div2,
            slice_beta_offset_div2,
        },
        bits,
    )
}

pub open spec fn quality_is(read: DecodedQuality, hdr: SliceHeader, pps: Pps) -> bool {
    let slice_type = hdr.slice_type;
    let intra = slice_type == SliceType::I || slice_type == SliceType::Si;
    let switching = slice_type == SliceType::Sp || slice_type == SliceType::Si;
    let control = pps.deblocking_filter_control_present_flag;
    &&& pps.entropy_coding_mode_flag && !intra ==> read.cabac_init_idc == hdr.cabac_init_idc
    &&& read.slice_qp_delta == hdr.slice_qp_delta
    &&& slice_type == SliceType::Sp ==> read.sp_for_switch_flag == hdr.sp_for_switch_flag
    &&& switching ==> read.slice_qs_delta == hdr.slice_qs_delta
    &&& control ==> read.disable_deblocking_filter_idc == hdr.disable_deblocking_filter_idc
    &&& control && hdr.disable_deblocking_filter_idc != 1 ==> {
        &&& read.slice_alpha_c0_offset_div2 == hdr.slice_alpha_c0_offset_div2
        &&& read.slice_beta_offset_div2 == hdr.slice_beta_offset_div2
    }
}

proof fn lemma_quality(hdr: SliceHeader, pps: Pps, rest: Seq<bool>)
    requires
        syntax::failure(syntax::slice_quantizer_syntax(hdr, pps)) is None,
        syntax::failure(syntax::slice_deblocking_syntax(hdr, pps)) is None,
        pps.num_slice_groups_minus1 == 0,
    ensures
        ({
            let (read, behind) = decode_quality(
                syntax::encoded(syntax::slice_quantizer_syntax(hdr, pps)) + (syntax::encoded(
                    syntax::slice_deblocking_syntax(hdr, pps),
                ) + rest),
                pps,
                hdr.slice_type.number() as int,
            );
            quality_is(read, hdr, pps) && behind == rest
        }),
{
    reveal(decode_quality);
    let a = syntax::slice_quantizer_syntax(hdr, pps);
    let b = syntax::slice_deblocking_syntax(hdr, pps);
    let middle = syntax::encoded(b) + rest;
    let (sp, si) = (hdr.slice_type == SliceType::Sp, hdr.slice_type == SliceType::Si);
    let cabac = pps.entropy_coding_mode_flag && hdr.slice_type != SliceType::I && !si;
    lemma_ends(a, middle);
    let k: int = if cabac {
        1
    } else {
        0
    };
    if cabac {
        lemma_ue(a, 0, middle, hdr.cabac_init_idc as u32);
    }
    lemma_se(a, k, middle, hdr.slice_qp_delta as i32);
    if sp {
        lemma_flag(a, k + 1, middle, hdr.sp_for_switch_flag);
        lemma_se(a, k + 2, middle, hdr.slice_qs_delta as i32);
        assert(a.len() == k + 3);
    } else if si {
        lemma_se(a, k + 1, middle, hdr.slice_qs_delta as i32);
        assert(a.len() == k + 2);
    } else {
        assert(a.len() == k + 1);
    }
    lemma_ends(b, rest);
    if pps.deblocking_filter_control_present_flag {
        lemma_ue(b, 0, rest, hdr.disable_deblocking_filter_idc as u32);
        if hdr.disable_deblocking_filter_idc != 1 {
            lemma_se(b, 1, rest, hdr.slice_alpha_c0_offset_div2 as i32);
            lemma_se(b, 2, rest, hdr.slice_beta_offset_div2 as i32);
            assert(b.len() == 3);
        } else {
            assert(b.len() == 1);
        }
    } else {
        assert(b.len() == 0);
    }
}

/// A slice header.
pub ghost struct DecodedSlice {
    pub picture: DecodedPicture,
    pub count: DecodedCount,
    pub references: DecodedReferences,
    pub modifications: DecodedModifications,
    pub table: Option<DecodedTable>,
    pub marking: Option<DecodedMarking>,
    pub quality: DecodedQuality,
}

/// A slice of the type `slice_type` has weights for its references.
pub open spec fn is_weighted(pps: Pps, slice_type: int) -> bool {
    (pps.weighted_pred_flag && is_p(slice_type)) || (pps.weighted_bipred_idc == 1 && is_b(
        slice_type,
    ))
}

/// Reads `slice_header()`, 7.3.3, of a NAL unit whose header holds
/// `nal_ref_idc` and `nal_unit_type`. No more than `limit` modifications or
/// markings are read.
pub open spec fn decode_slice(
    bits: Seq<bool>,
    sps: Sps,
    pps: Pps,
    nal_ref_idc: int,
    nal_unit_type: int,
    limit: nat,
) -> (DecodedSlice, Seq<bool>) {
    let idr = nal_unit_type == 5;
    let has_chroma = !sps.separate_colour_plane_flag && sps.chroma_format_idc != 0;
    let (picture, bits) = decode_picture(bits, sps, idr);
    let slice_type = picture.slice_type;
    let (count, bits) = decode_count(bits, sps, pps, picture.field_pic_flag);
    let (references, bits) = decode_references(bits, pps, slice_type);
    let (modifications, bits) = decode_modifications(bits, slice_type, limit);
    let (table, bits) = if is_weighted(pps, slice_type) {
        let (table, bits) = decode_table(bits, has_chroma, slice_type, references);
        (Some(table), bits)
    } else {
        (None, bits)
    };
    let (marking, bits) = if nal_ref_idc != 0 {
        let (marking, bits) = decode_marking(bits, idr, limit);
        (Some(marking), bits)
    } else {
        (None, bits)
    };
    let (quality, bits) = decode_quality(bits, pps, slice_type);
    (DecodedSlice { picture, count, references, modifications, table, marking, quality }, bits)
}

/// The header holds what the syntax has a place for: a frame where there are
/// no fields, modifications that are some, as many references as the picture
/// parameter set says where the slice does not say, weights over
/// denominators of at most seven bits, and operations that are some.
pub open spec fn slice_has_syntax(hdr: SliceHeader, sps: Sps, pps: Pps) -> bool {
    let slice_type = hdr.slice_type.number() as int;
    let pwt = hdr.pred_weight_table;
    &&& sps.frame_mbs_only_flag ==> !hdr.field_pic_flag
    &&& steps_have_syntax(hdr.ref_pic_list_modification_l0@)
    &&& steps_have_syntax(hdr.ref_pic_list_modification_l1@)
    &&& is_weighted(pps, slice_type) ==> {
        &&& pwt.luma_log2_weight_denom <= 7
        &&& pwt.chroma_log2_weight_denom <= 7
        &&& !hdr.num_ref_idx_active_override_flag ==> {
            &&& hdr.num_ref_idx_l0_active_minus1 == pps.num_ref_idx_l0_default_active_minus1
            &&& is_b(slice_type) ==> hdr.num_ref_idx_l1_active_minus1
                == pps.num_ref_idx_l1_default_active_minus1
        }
    }
    &&& operations_have_syntax(hdr.dec_ref_pic_marking.inner@)
}

/// `limit` is more than the modifications and the markings of the header.
pub open spec fn is_enough(limit: nat, hdr: SliceHeader) -> bool {
    &&& limit > hdr.ref_pic_list_modification_l0@.len()
    &&& limit > hdr.ref_pic_list_modification_l1@.len()
    &&& limit > hdr.dec_ref_pic_marking.inner@.len()
}

/// The header was read as it is.
pub open spec fn slice_is(
    slice: DecodedSlice,
    hdr: SliceHeader,
    sps: Sps,
    pps: Pps,
    idr: bool,
    is_ref: IsReference,
) -> bool {
    let has_chroma = !sps.separate_colour_plane_flag && sps.chroma_format_idc != 0;
    let slice_type = hdr.slice_type.number() as int;
    &&& picture_is(slice.picture, hdr, sps, idr)
    &&& count_is(slice.count, hdr, sps, pps)
    &&& references_are(slice.references, hdr, pps)
    &&& modifications_are(slice.modifications, hdr)
    &&& match slice.table {
        None => !is_weighted(pps, slice_type),
        Some(table) => is_weighted(pps, slice_type) && table_is(table, hdr, has_chroma),
    }
    &&& match slice.marking {
        None => is_ref == IsReference::No,
        Some(marking) => is_ref != IsReference::No && marking_is(marking, hdr, idr),
    }
    &&& quality_is(slice.quality, hdr, pps)
}

/// What is read of the references, and of what comes before them.
proof fn lemma_slice_start(
    hdr: SliceHeader,
    sps: Sps,
    pps: Pps,
    idr: bool,
    limit: nat,
    rest: Seq<bool>,
) -> (bits: (Seq<bool>, Seq<bool>, Seq<bool>))
    requires
        syntax::failure(syntax::slice_head_syntax(hdr, sps, pps, idr)) is None,
        slice_has_syntax(hdr, sps, pps),
        is_enough(limit, hdr),
    ensures
        ({
            let slice_type = hdr.slice_type.number() as int;
            let all = syntax::encoded(syntax::slice_head_syntax(hdr, sps, pps, idr)) + rest;
            let (picture, behind) = decode_picture(all, sps, idr);
            let (count, behind_count) = decode_count(bits.0, sps, pps, hdr.field_pic_flag);
            let (references, behind_references) = decode_references(bits.1, pps, slice_type);
            let (modifications, end) = decode_modifications(bits.2, slice_type, limit);
            &&& picture_is(picture, hdr, sps, idr) && behind == bits.0
            &&& count_is(count, hdr, sps, pps) && behind_count == bits.1
            &&& references_are(references, hdr, pps) && behind_references == bits.2
            &&& modifications_are(modifications, hdr) && end == rest
        }),
{
    let a = syntax::slice_picture_syntax(hdr, sps);
    let b = syntax::slice_field_syntax(hdr, sps, idr);
    let c = syntax::slice_order_syntax(hdr, sps, pps);
    let d = syntax::slice_reference_syntax(hdr, pps);
    let e = syntax::ref_pic_list_modification_syntax(hdr);
    lemma_split(a + b + c + d, e, rest);
    let behind_d = syntax::encoded(e) + rest;
    lemma_split(a + b + c, d, behind_d);
    let behind_c = syntax::encoded(d) + behind_d;
    lemma_split(a + b, c, behind_c);
    let behind_b = syntax::encoded(c) + behind_c;
    lemma_split(a, b, behind_b);
    lemma_picture(hdr, sps, idr, behind_b);
    lemma_count(hdr, sps, pps, behind_c);
    lemma_references(hdr, pps, behind_d);
    lemma_modifications(hdr, limit, rest);
    (behind_b, behind_c, behind_d)
}

/// What is read of the table of weights, if there is one.
proof fn lemma_slice_table(
    hdr: SliceHeader,
    sps: Sps,
    pps: Pps,
    references: DecodedReferences,
    rest: Seq<bool>,
)
    requires
        syntax::failure(
            syntax::when(
                syntax::has_weights(hdr, pps),
                syntax::pred_weight_table_syntax(hdr, sps),
            ),
        ) is None,
        slice_has_syntax(hdr, sps, pps),
        references_are(references, hdr, pps),
    ensures
        ({
            let has_chroma = !sps.separate_colour_plane_flag && sps.chroma_format_idc != 0;
            let slice_type = hdr.slice_type.number() as int;
            let elements = syntax::when(
                syntax::has_weights(hdr, pps),
                syntax::pred_weight_table_syntax(hdr, sps),
            );
            let bits = syntax::encoded(elements) + rest;
            if is_weighted(pps, slice_type) {
                let (table, behind) = decode_table(bits, has_chroma, slice_type, references);
                table_is(table, hdr, has_chroma) && behind == rest
            } else {
                bits == rest
            }
        }),
{
    let slice_type = hdr.slice_type.number() as int;
    assert(syntax::has_weights(hdr, pps) == is_weighted(pps, slice_type));
    if syntax::has_weights(hdr, pps) {
        lemma_table(hdr, sps, references, rest);
    } else {
        lemma_nothing(rest);
    }
}

/// What is read of the marking, if there is one, and of what comes behind it.
proof fn lemma_slice_end(
    hdr: SliceHeader,
    pps: Pps,
    idr: bool,
    is_ref: IsReference,
    limit: nat,
    rest: Seq<bool>,
) -> (quality: Seq<bool>)
    requires
        syntax::failure(
            syntax::when(
                is_ref != IsReference::No,
                syntax::dec_ref_pic_marking_syntax(hdr, idr),
            ),
        ) is None,
        syntax::failure(syntax::slice_quantizer_syntax(hdr, pps)) is None,
        syntax::failure(syntax::slice_deblocking_syntax(hdr, pps)) is None,
        operations_have_syntax(hdr.dec_ref_pic_marking.inner@),
        is_enough(limit, hdr),
    ensures
        ({
            let slice_type = hdr.slice_type.number() as int;
            let elements = syntax::when(
                is_ref != IsReference::No,
                syntax::dec_ref_pic_marking_syntax(hdr, idr),
            );
            let bits = syntax::encoded(elements) + quality;
            let (marking, behind) = decode_marking(bits, idr, limit);
            let (read, end) = decode_quality(quality, pps, slice_type);
            &&& quality == syntax::encoded(syntax::slice_quantizer_syntax(hdr, pps)) + (
            syntax::encoded(syntax::slice_deblocking_syntax(hdr, pps)) + rest)
            &&& if is_ref != IsReference::No {
                marking_is(marking, hdr, idr) && behind == quality
            } else {
                bits == quality
            }
            &&& quality_is(read, hdr, pps) && end == rest
        }),
{
    let h = syntax::slice_quantizer_syntax(hdr, pps);
    let i = syntax::slice_deblocking_syntax(hdr, pps);
    let quality = syntax::encoded(h) + (syntax::encoded(i) + rest);
    if is_ref != IsReference::No {
        lemma_marking(hdr, idr, limit, quality);
    } else {
        lemma_nothing(quality);
    }
    if pps.num_slice_groups_minus1 > 0 {
        assert(i.last() == Element::Unsupported);
        assert(false);
    }
    lemma_quality(hdr, pps, rest);
    quality
}

proof fn lemma_slice(
    hdr: SliceHeader,
    sps: Sps,
    pps: Pps,
    idr: bool,
    is_ref: IsReference,
    nal_ref_idc: int,
    nal_unit_type: int,
    limit: nat,
    rest: Seq<bool>,
)
    requires
        syntax::failure(syntax::slice_header_syntax(hdr, sps, pps, idr, is_ref)) is None,
        slice_has_syntax(hdr, sps, pps),
        is_enough(limit, hdr),
        (nal_ref_idc != 0) == (is_ref != IsReference::No),
        (nal_unit_type == 5) == idr,
    ensures
        ({
            let bits = syntax::encoded(syntax::slice_header_syntax(hdr, sps, pps, idr, is_ref));
            let (slice, behind) = decode_slice(
                bits + rest,
                sps,
                pps,
                nal_ref_idc,
                nal_unit_type,
                limit,
            );
            slice_is(slice, hdr, sps, pps, idr, is_ref) && behind == rest
        }),
{
    let head = syntax::slice_head_syntax(hdr, sps, pps, idr);
    let f = syntax::when(
        syntax::has_weights(hdr, pps),
        syntax::pred_weight_table_syntax(hdr, sps),
    );
    let g = syntax::when(
        is_ref != IsReference::No,
        syntax::dec_ref_pic_marking_syntax(hdr, idr),
    );
    let h = syntax::slice_quantizer_syntax(hdr, pps);
    let i = syntax::slice_deblocking_syntax(hdr, pps);
    lemma_split(head + f + g + h, i, rest);
    let behind_h = syntax::encoded(i) + rest;
    lemma_split(head + f + g, h, behind_h);
    let behind_g = syntax::encoded(h) + behind_h;
    lemma_split(head + f, g, behind_g);
    let behind_f = syntax::encoded(g) + behind_g;
    lemma_split(head, f, behind_f);
    let behind_e = syntax::encoded(f) + behind_f;
    let parts = lemma_slice_start(hdr, sps, pps, idr, limit, behind_e);
    let slice_type = hdr.slice_type.number() as int;
    let references = decode_references(parts.1, pps, slice_type).0;
    lemma_slice_table(hdr, sps, pps, references, behind_f);
    let quality = lemma_slice_end(hdr, pps, idr, is_ref, limit, rest);
    lemma_assembled(
        syntax::encoded(head) + behind_e,
        parts,
        behind_e,
        behind_f,
        quality,
        hdr,
        sps,
        pps,
        is_ref,
        nal_ref_idc,
        nal_unit_type,
        limit,
    );
}

/// The parts of a header make up the header.
proof fn lemma_assembled(
    bits: Seq<bool>,
    parts: (Seq<bool>, Seq<bool>, Seq<bool>),
    table_bits: Seq<bool>,
    marking_bits: Seq<bool>,
    quality_bits: Seq<bool>,
    hdr: SliceHeader,
    sps: Sps,
    pps: Pps,
    is_ref: IsReference,
    nal_ref_idc: int,
    nal_unit_type: int,
    limit: nat,
)
    requires
        (nal_ref_idc != 0) == (is_ref != IsReference::No),
        ({
            let idr = nal_unit_type == 5;
            let has_chroma = !sps.separate_colour_plane_flag && sps.chroma_format_idc != 0;
            let slice_type = hdr.slice_type.number() as int;
            let (picture, behind) = decode_picture(bits, sps, idr);
            let (count, behind_count) = decode_count(parts.0, sps, pps, hdr.field_pic_flag);
            let (references, behind_references) = decode_references(parts.1, pps, slice_type);
            let (modifications, end) = decode_modifications(parts.2, slice_type, limit);
            let (table, behind_table) = decode_table(
                table_bits,
                has_chroma,
                slice_type,
                references,
            );
            let (marking, behind_marking) = decode_marking(marking_bits, idr, limit);
            &&& sps.frame_mbs_only_flag ==> !hdr.field_pic_flag
            &&& picture_is(picture, hdr, sps, idr) && behind == parts.0
            &&& count_is(count, hdr, sps, pps) && behind_count == parts.1
            &&& references_are(references, hdr, pps) && behind_references == parts.2
            &&& modifications_are(modifications, hdr) && end == table_bits
            &&& if is_weighted(pps, slice_type) {
                table_is(table, hdr, has_chroma) && behind_table == marking_bits
            } else {
                table_bits == marking_bits
            }
            &&& if is_ref != IsReference::No {
                marking_is(marking, hdr, idr) && behind_marking == quality_bits
            } else {
                marking_bits == quality_bits
            }
            &&& quality_is(decode_quality(quality_bits, pps, slice_type).0, hdr, pps)
        }),
    ensures
        ({
            let slice_type = hdr.slice_type.number() as int;
            let (slice, rest) = decode_slice(
                bits,
                sps,
                pps,
                nal_ref_idc,
                nal_unit_type,
                limit,
            );
            &&& slice_is(slice, hdr, sps, pps, nal_unit_type == 5, is_ref)
            &&& rest == decode_quality(quality_bits, pps, slice_type).1
        }),
{
}

/// A decoder reads the slice header that was written, value for value, out of
/// the NAL unit, by the parameter sets that it was written by. An IDR picture
/// is one that is referred to.
pub proof fn a_slice_header_is_decoded(
    hdr: SliceHeader,
    sps: Sps,
    pps: Pps,
    idr: bool,
    is_ref: IsReference,
    limit: nat,
)
    requires
        syntax::failure(syntax::slice_header_syntax(hdr, sps, pps, idr, is_ref)) is None,
        slice_has_syntax(hdr, sps, pps),
        is_enough(limit, hdr),
        idr ==> is_ref != IsReference::No,
    ensures
        ({
            let unit = syntax::nal_unit(
                syntax::slice_ref_idc(idr, is_ref),
                syntax::slice_nalu_type(idr),
                syntax::encoded(syntax::slice_header_syntax(hdr, sps, pps, idr, is_ref)),
                true,
            );
            let (slice, rest) = decode_slice(
                decoder::payload_of(unit),
                sps,
                pps,
                unit[4] as int / 32,
                unit[4] as int % 32,
                limit,
            );
            &&& unit.take(4) == seq![0u8, 0u8, 0u8, 1u8]
            &&& unit[4] == match is_ref {
                IsReference::No => 1u8,
                IsReference::ShortTerm => if idr {
                    0x65
                } else {
                    0x21
                },
                IsReference::LongTerm => if idr {
                    0x65
                } else {
                    0x41
                },
            }
            &&& slice_is(slice, hdr, sps, pps, idr, is_ref)
            &&& rest.len() < 8
            &&& rest.len() == bitstream_utils::padding(
                syntax::encoded(syntax::slice_header_syntax(hdr, sps, pps, idr, is_ref)),
            )
            &&& forall|i: int| 0 <= i < rest.len() ==> !rest[i]
        }),
{
    let elements = syntax::slice_header_syntax(hdr, sps, pps, idr, is_ref);
    let bits = syntax::encoded(elements);
    let zeros = Seq::new(bitstream_utils::padding(bits) as nat, |i: int| false);
    let ref_idc = syntax::slice_ref_idc(idr, is_ref);
    let type_ = syntax::slice_nalu_type(idr);
    let unit = syntax::nal_unit(ref_idc, type_, bits, true);
    readback::a_nal_unit_opens_with_its_type(ref_idc, type_, bits);
    readback::unescaping_gives_the_bytes_back(bitstream_utils::pack(bits));
    readback::unpacking_gives_the_bits_back(bits);
    assert(decoder::payload_of(unit) == bits + zeros);
    lemma_slice(
        hdr,
        sps,
        pps,
        idr,
        is_ref,
        unit[4] as int / 32,
        unit[4] as int % 32,
        limit,
        zeros,
    );
}

} // verus!
