use vstd::prelude::*;
use vstd::multiset::Multiset;
use vstd::pervasive::VecAdditionalExecFns;
use vstd::string::StringExecFns;

use std::collections::VecDeque;

use rand::seq::SliceRandom;
use rand::Rng;

use crate::abstract_instructions::block_elems;
use crate::abstract_instructions::block_len;
use crate::abstract_instructions::dst_of;
use crate::abstract_instructions::eight::eight_elems;
use crate::abstract_instructions::eight::EightInstruction;
use crate::abstract_instructions::flatten_blocks;
use crate::abstract_instructions::four::four_elems;
use crate::abstract_instructions::four::FourInstruction;
use crate::abstract_instructions::lemma_flatten_blocks_push;
use crate::abstract_instructions::lemma_seq_extrema_multiset;
use crate::abstract_instructions::max_dst;
use crate::abstract_instructions::max_src;
use crate::abstract_instructions::min_dst;
use crate::abstract_instructions::min_src;
use crate::abstract_instructions::src_of;
use crate::abstract_instructions::eight_from_elems;
use crate::abstract_instructions::four_from_elems;
use crate::abstract_instructions::single::SingleInstruction;
use crate::abstract_instructions::sixteen::sixteen_elems;
use crate::abstract_instructions::sixteen::SixteenInstruction;
use crate::abstract_instructions::sixteen_from_elems;
use crate::abstract_instructions::InstructionBlock;
use crate::encodings::dec_str;
use crate::encodings::u64_to_dec;

verus! {

/// A shiftmask wrapper struct: the permutation to be compiled. Slot `i`
/// of the mask names the destination slot for the value in source slot `i`.
pub struct ShiftMask {
    /// The array of values of this permutation mask (ie our input).
    values: Vec<u32>,
}

/// The mask seen as its element sequence: one (source, destination)
/// pair per slot, in slot order.
pub open spec fn mask_elems(vals: Seq<u32>) -> Seq<SingleInstruction> {
    Seq::new(vals.len(), |i: int| SingleInstruction { index: i as u32, value: vals[i] })
}

/// A sequence is a valid permutation spec when it is a bijection on
/// `{0, .., len - 1}`: every destination slot is in range and used at
/// most once (and so, by counting, exactly once).
pub open spec fn is_permutation(s: Seq<u32>) -> bool {
    (forall|i: int| 0 <= i < s.len() ==> s[i] < s.len()) && (forall|i: int, j: int|
        0 <= i < j < s.len() ==> s[i] != s[j])
}

/// The locality predicate: a non-empty chunk of elements can stand as
/// one width-`w` vector permute exactly when its source indices span
/// one contiguous `w`-wide window and its destination indices do too.
pub open spec fn self_permutes(s: Seq<SingleInstruction>, w: int) -> bool
    recommends
        s.len() > 0,
{
    max_src(s) - min_src(s) == w - 1 && max_dst(s) - min_dst(s) == w - 1
}

/// A block is well formed when, if it is a composite, its elements
/// satisfy the locality predicate at the block's own width: the
/// precondition the permute-mask derivation relies on, established by
/// the optimizer before it constructs any composite block.
pub open spec fn block_wf(b: InstructionBlock) -> bool {
    match b {
        InstructionBlock::Single(_) => true,
        InstructionBlock::Four(_) => self_permutes(block_elems(b), 4),
        InstructionBlock::Eight(_) => self_permutes(block_elems(b), 8),
        InstructionBlock::Sixteen(_) => self_permutes(block_elems(b), 16),
    }
}

/// Every block of the sequence is well formed.
pub open spec fn blocks_wf(bs: Seq<InstructionBlock>) -> bool {
    forall|i: int| 0 <= i < bs.len() ==> block_wf(#[trigger] bs[i])
}

/// The total logical width of a sequence of blocks.
pub open spec fn sum_lens(bs: Seq<InstructionBlock>) -> int
    decreases bs.len(),
{
    if bs.len() == 0 {
        0
    } else {
        block_len(bs[0]) + sum_lens(bs.drop_first())
    }
}

/// A sequence of blocks never has negative total width.
proof fn lemma_sum_lens_nonneg(bs: Seq<InstructionBlock>)
    ensures
        sum_lens(bs) >= 0,
    decreases bs.len(),
{
    if bs.len() > 0 {
        lemma_sum_lens_nonneg(bs.drop_first());
    }
}

/// Total width distributes over appending one block at the end.
proof fn lemma_sum_lens_push(bs: Seq<InstructionBlock>, b: InstructionBlock)
    ensures
        sum_lens(bs.push(b)) == sum_lens(bs) + block_len(b),
    decreases bs.len(),
{
    if bs.len() == 0 {
        assert(bs.push(b)[0] == b);
        assert(bs.push(b).drop_first() =~= Seq::<InstructionBlock>::empty());
        assert(sum_lens(Seq::<InstructionBlock>::empty()) == 0);
        assert(sum_lens(bs.push(b)) == block_len(b) + sum_lens(
            Seq::<InstructionBlock>::empty(),
        ));
    } else {
        assert(bs.push(b)[0] == bs[0]);
        assert(bs.push(b).drop_first() =~= bs.drop_first().push(b));
        lemma_sum_lens_push(bs.drop_first(), b);
        assert(sum_lens(bs.push(b)) == block_len(bs[0]) + sum_lens(bs.drop_first().push(b)));
        assert(sum_lens(bs) == block_len(bs[0]) + sum_lens(bs.drop_first()));
    }
}


/// The composite block one merge step would build from a full window,
/// if the window's elements are local at width `w` and its shape fits
/// that width's construction requirement; `None` otherwise.
pub open spec fn merge_attempt(queue: Seq<InstructionBlock>, w: int) -> Option<InstructionBlock> {
    if queue.len() > 0 && self_permutes(flatten_blocks(queue), w) {
        if w == 4 && queue.len() == 4 && (forall|i: int| 0 <= i < 4 ==> queue[i] is Single) {
            Some(InstructionBlock::Four(four_from_elems(flatten_blocks(queue))))
        } else if w == 8 && flatten_blocks(queue).len() == 8 {
            Some(InstructionBlock::Eight(eight_from_elems(flatten_blocks(queue))))
        } else if w == 16 && flatten_blocks(queue).len() == 16 {
            Some(InstructionBlock::Sixteen(sixteen_from_elems(flatten_blocks(queue))))
        } else {
            None
        }
    } else {
        None
    }
}

/// Overrun correction: while the window is wider than the target
/// width, its oldest block moves to the output unchanged.
pub open spec fn drain_overrun(
    set2: Seq<InstructionBlock>,
    queue: Seq<InstructionBlock>,
    sum: int,
    w: int,
) -> (Seq<InstructionBlock>, Seq<InstructionBlock>, int)
    decreases queue.len(),
{
    if sum <= w || queue.len() == 0 {
        (set2, queue, sum)
    } else {
        drain_overrun(set2.push(queue[0]), queue.drop_first(), sum - block_len(queue[0]), w)
    }
}

/// One merge scan, written as a function of its state: output built so
/// far, the sliding window with its total width, and the input still
/// to be read. Each step enqueues the next block; a window of exactly
/// the target width is merged if `merge_attempt` accepts it and
/// otherwise gives up its oldest block; an overrun sheds oldest blocks;
/// exhausted input flushes the window to the output.
pub open spec fn merge_scan(
    set2: Seq<InstructionBlock>,
    queue: Seq<InstructionBlock>,
    sum: int,
    set1: Seq<InstructionBlock>,
    w: int,
) -> Seq<InstructionBlock>
    decreases set1.len(),
{
    if set1.len() == 0 {
        set2 + queue
    } else {
        let queue1 = queue.push(set1[0]);
        let sum1 = sum + block_len(set1[0]);
        if sum1 == w {
            match merge_attempt(queue1, w) {
                Some(m) => merge_scan(
                    set2.push(m),
                    Seq::empty(),
                    0,
                    set1.drop_first(),
                    w,
                ),
                None => merge_scan(
                    set2.push(queue1[0]),
                    queue1.drop_first(),
                    sum1 - block_len(queue1[0]),
                    set1.drop_first(),
                    w,
                ),
            }
        } else if sum1 > w {
            let t = drain_overrun(set2, queue1, sum1, w);
            merge_scan(t.0, t.1, t.2, set1.drop_first(), w)
        } else {
            merge_scan(set2, queue1, sum1, set1.drop_first(), w)
        }
    }
}

/// What one whole merge pass over a block sequence produces.
pub open spec fn merge_pass_spec(input: Seq<InstructionBlock>, w: int) -> Seq<InstructionBlock> {
    merge_scan(Seq::empty(), Seq::empty(), 0, input, w)
}

/// The mask as width-1 blocks, one per slot, in slot order.
pub open spec fn singles_of(vals: Seq<u32>) -> Seq<InstructionBlock> {
    Seq::new(
        vals.len(),
        |i: int| InstructionBlock::Single(SingleInstruction { index: i as u32, value: vals[i] }),
    )
}

/// What the optimizer produces: the mask's width-1 blocks, run through
/// one merge scan per target width no larger than `num_iter`, in
/// ascending width order over the candidate widths 4 and 8.
pub open spec fn optimize_spec(vals: Seq<u32>, num_iter: int) -> Seq<InstructionBlock> {
    let singles = singles_of(vals);
    let after4 = if 4 <= num_iter {
        merge_pass_spec(singles, 4)
    } else {
        singles
    };
    if 8 <= num_iter {
        merge_pass_spec(after4, 8)
    } else {
        after4
    }
}

/// The state carried between merge steps: output built so far, the
/// sliding-window queue, and what remains of the input, together
/// holding exactly the elements of the original input.
spec fn pass_inv(
    set2: Seq<InstructionBlock>,
    queue: Seq<InstructionBlock>,
    set1: Seq<InstructionBlock>,
    orig: Seq<InstructionBlock>,
) -> bool {
    flatten_blocks(set2) + flatten_blocks(queue) + flatten_blocks(set1) == flatten_blocks(orig)
}

/// Copies a run of blocks so a construction attempt can consume it
/// while the source stays intact.
pub(crate) fn copy_blocks(v: &Vec<InstructionBlock>) -> (r: Vec<InstructionBlock>)
    ensures
        r@ == v@,
{
    let mut r: Vec<InstructionBlock> = Vec::new();
    let mut i: usize = 0;
    while i < v.len()
        invariant
            i <= v@.len(),
            r@ == v@.subrange(0, i as int),
        decreases v@.len() - i,
    {
        r.push(v[i]);
        proof {
            assert(v@.subrange(0, i + 1 as int) =~= v@.subrange(0, i as int).push(v@[i as int]));
        }
        i = i + 1;
    }
    proof {
        assert(v@.subrange(0, v@.len() as int) =~= v@);
    }
    r
}


/// A full window of four width-1 blocks whose elements are local at
/// width 4 merges to exactly the width-4 block over those elements.
proof fn lemma_merge_attempt_four(queue: Seq<InstructionBlock>, f: FourInstruction)
    requires
        queue.len() == 4,
        forall|i: int| 0 <= i < 4 ==> queue[i] is Single,
        self_permutes(flatten_blocks(queue), 4),
        four_elems(f) == flatten_blocks(queue),
    ensures
        merge_attempt(queue, 4) == Some(InstructionBlock::Four(f)),
{
    let es = flatten_blocks(queue);
    assert(f.value1 == es[0] && f.value2 == es[1] && f.value3 == es[2] && f.value4 == es[3]);
    assert(f == four_from_elems(es));
}

/// A full window of eight elements that is local at width 8 merges to
/// exactly the width-8 block over those elements.
proof fn lemma_merge_attempt_eight(queue: Seq<InstructionBlock>, e: EightInstruction)
    requires
        queue.len() > 0,
        flatten_blocks(queue).len() == 8,
        self_permutes(flatten_blocks(queue), 8),
        eight_elems(e) == flatten_blocks(queue),
    ensures
        merge_attempt(queue, 8) == Some(InstructionBlock::Eight(e)),
{
    let es = flatten_blocks(queue);
    assert(e.value1.value1 == es[0] && e.value1.value2 == es[1] && e.value1.value3 == es[2]
        && e.value1.value4 == es[3]);
    assert(e.value2.value1 == es[4] && e.value2.value2 == es[5] && e.value2.value3 == es[6]
        && e.value2.value4 == es[7]);
    assert(e.value1 == four_from_elems(es.subrange(0, 4)));
    assert(e.value2 == four_from_elems(es.subrange(4, 8)));
    assert(e == eight_from_elems(es));
}

/// A full window of sixteen elements that is local at width 16 merges
/// to exactly the width-16 block over those elements.
proof fn lemma_merge_attempt_sixteen(queue: Seq<InstructionBlock>, sx: SixteenInstruction)
    requires
        queue.len() > 0,
        flatten_blocks(queue).len() == 16,
        self_permutes(flatten_blocks(queue), 16),
        sixteen_elems(sx) == flatten_blocks(queue),
    ensures
        merge_attempt(queue, 16) == Some(InstructionBlock::Sixteen(sx)),
{
    let es = flatten_blocks(queue);
    let lo = es.subrange(0, 8);
    let hi = es.subrange(8, 16);
    assert(sx.value1.value1.value1 == es[0] && sx.value1.value1.value2 == es[1]
        && sx.value1.value1.value3 == es[2] && sx.value1.value1.value4 == es[3]);
    assert(sx.value1.value2.value1 == es[4] && sx.value1.value2.value2 == es[5]
        && sx.value1.value2.value3 == es[6] && sx.value1.value2.value4 == es[7]);
    assert(sx.value2.value1.value1 == es[8] && sx.value2.value1.value2 == es[9]
        && sx.value2.value1.value3 == es[10] && sx.value2.value1.value4 == es[11]);
    assert(sx.value2.value2.value1 == es[12] && sx.value2.value2.value2 == es[13]
        && sx.value2.value2.value3 == es[14] && sx.value2.value2.value4 == es[15]);
    assert(lo.subrange(0, 4) =~= es.subrange(0, 4));
    assert(lo.subrange(4, 8) =~= es.subrange(4, 8));
    assert(hi.subrange(0, 4) =~= es.subrange(8, 12));
    assert(hi.subrange(4, 8) =~= es.subrange(12, 16));
    assert(sx.value1.value1 == four_from_elems(lo.subrange(0, 4)));
    assert(sx.value1.value2 == four_from_elems(lo.subrange(4, 8)));
    assert(sx.value2.value1 == four_from_elems(hi.subrange(0, 4)));
    assert(sx.value2.value2 == four_from_elems(hi.subrange(4, 8)));
    assert(sx.value1 == eight_from_elems(lo));
    assert(sx.value2 == eight_from_elems(hi));
    assert(sx == sixteen_from_elems(es));
}

/// One left-to-right merge scan at a fixed target width: slides a
/// window over the block sequence and replaces every window of total
/// width `simd_count` whose elements satisfy the locality predicate,
/// and whose shape a composite block of that width accepts, by that
/// composite block. Flattening is preserved exactly.
fn merge_pass(input: VecDeque<InstructionBlock>, simd_count: usize) -> (out: VecDeque<
    InstructionBlock,
>)
    requires
        simd_count == 4 || simd_count == 8 || simd_count == 16,
        blocks_wf(input@),
    ensures
        flatten_blocks(out@) == flatten_blocks(input@),
        blocks_wf(out@),
        out@ == merge_pass_spec(input@, simd_count as int),
{
    let ghost orig = input@;
    let mut set1 = input;
    let mut set2: VecDeque<InstructionBlock> = VecDeque::new();
    let mut queue: Vec<InstructionBlock> = Vec::new();
    let mut store_vec: Vec<SingleInstruction> = Vec::new();
    let mut sum: usize = 0;
    while set1.len() > 0
        invariant
            simd_count == 4 || simd_count == 8 || simd_count == 16,
            sum == sum_lens(queue@),
            sum <= simd_count,
            pass_inv(set2@, queue@, set1@, orig),
            blocks_wf(set2@),
            blocks_wf(queue@),
            blocks_wf(set1@),
            merge_scan(set2@, queue@, sum as int, set1@, simd_count as int) == merge_pass_spec(
                orig,
                simd_count as int,
            ),
        decreases set1@.len(),
    {
        let ghost set2_start = set2@;
        let ghost queue_before = queue@;
        let ghost set1_before = set1@;
        let ghost sum_start = sum as int;
        let instr = set1.pop_front().unwrap();
        proof {
            lemma_sum_lens_push(queue@, instr);
            lemma_block_len_le_16(instr);
        }
        sum = sum + instr.len();
        queue.push(instr);
        proof {
            lemma_flatten_blocks_push(queue_before, instr);
            assert(flatten_blocks(set1_before) == block_elems(instr) + flatten_blocks(set1@));
            assert(flatten_blocks(set2@) + flatten_blocks(queue@) + flatten_blocks(set1@)
                =~= flatten_blocks(set2@) + flatten_blocks(queue_before) + flatten_blocks(
                set1_before,
            ));
            assert(instr == set1_before[0]);
            assert(set1@ =~= set1_before.drop_first());
            assert(queue@ == queue_before.push(instr));
            assert(sum as int == sum_start + block_len(instr));
        }
        if sum == simd_count {
            proof {
                if queue@.len() == 0 {
                    assert(sum_lens(queue@) == 0);
                }
            }
            let is_local = ShiftMask::chunk_self_permutes(&mut store_vec, &queue, simd_count as u8);
            let mut merged: Option<InstructionBlock> = None;
            if is_local {
                if simd_count == 4 {
                    match FourInstruction::new_from_instr(copy_blocks(&queue)) {
                        Some(four) => {
                            merged = Some(InstructionBlock::Four(four));
                            proof {
                                lemma_merge_attempt_four(queue@, four);
                                assert(merged == merge_attempt(queue@, simd_count as int));
                            }
                        },
                        None => {
                            proof {
                                assert(merged == merge_attempt(queue@, simd_count as int));
                            }
                        },
                    }
                } else if simd_count == 8 {
                    match EightInstruction::new_from_instr(copy_blocks(&queue)) {
                        Some(eight) => {
                            merged = Some(InstructionBlock::Eight(eight));
                            proof {
                                lemma_merge_attempt_eight(queue@, eight);
                                assert(merged == merge_attempt(queue@, simd_count as int));
                            }
                        },
                        None => {
                            proof {
                                assert(merged == merge_attempt(queue@, simd_count as int));
                            }
                        },
                    }
                } else {
                    match SixteenInstruction::new_from_instr(copy_blocks(&queue)) {
                        Some(sixteen) => {
                            merged = Some(InstructionBlock::Sixteen(sixteen));
                            proof {
                                lemma_merge_attempt_sixteen(queue@, sixteen);
                                assert(merged == merge_attempt(queue@, simd_count as int));
                            }
                        },
                        None => {
                            proof {
                                assert(merged == merge_attempt(queue@, simd_count as int));
                            }
                        },
                    }
                }
            } else {
                proof {
                    assert(merged == merge_attempt(queue@, simd_count as int));
                }
            }
            let ghost queue_full = queue@;
            let ghost set2_before = set2@;
            match merged {
                Some(b) => {
                    proof {
                        assert(block_elems(b) == flatten_blocks(queue_full));
                        assert(self_permutes(flatten_blocks(queue_full), simd_count as int));
                        assert(block_wf(b));
                        lemma_flatten_blocks_push(set2_before, b);
                    }
                    set2.push_back(b);
                    queue.clear();
                    sum = 0;
                    proof {
                        assert(flatten_blocks(queue@) =~= Seq::<SingleInstruction>::empty());
                        assert(flatten_blocks(set2@) + flatten_blocks(queue@) + flatten_blocks(
                            set1@,
                        ) =~= flatten_blocks(set2_before) + flatten_blocks(queue_full)
                            + flatten_blocks(set1@));
                        assert(queue@ =~= Seq::<InstructionBlock>::empty());
                        assert(merge_scan(set2_start, queue_before, sum_start, set1_before,
                            simd_count as int) == merge_scan(set2@, queue@, sum as int, set1@,
                            simd_count as int));
                    }
                },
                None => {
                    proof {
                        lemma_sum_lens_nonneg(queue@.drop_first());
                    }
                    let elem = queue.remove(0);
                    sum = sum - elem.len();
                    set2.push_back(elem);
                    proof {
                        assert(queue@ =~= queue_full.drop_first());
                        lemma_flatten_blocks_push(set2_before, elem);
                        assert(flatten_blocks(queue_full) == block_elems(elem) + flatten_blocks(
                            queue@,
                        ));
                        assert(flatten_blocks(set2@) + flatten_blocks(queue@) + flatten_blocks(
                            set1@,
                        ) =~= flatten_blocks(set2_before) + flatten_blocks(queue_full)
                            + flatten_blocks(set1@));
                        assert(elem == queue_full[0]);
                        assert(merge_scan(set2_start, queue_before, sum_start, set1_before,
                            simd_count as int) == merge_scan(set2@, queue@, sum as int, set1@,
                            simd_count as int));
                    }
                },
            }
        } else if sum > simd_count {
            let ghost set2_entry = set2@;
            let ghost queue_entry = queue@;
            let ghost sum_entry = sum as int;
            while sum > simd_count
                invariant
                    simd_count == 4 || simd_count == 8 || simd_count == 16,
                    sum == sum_lens(queue@),
                    pass_inv(set2@, queue@, set1@, orig),
                    blocks_wf(set2@),
                    blocks_wf(queue@),
                    drain_overrun(set2@, queue@, sum as int, simd_count as int) == drain_overrun(
                        set2_entry,
                        queue_entry,
                        sum_entry,
                        simd_count as int,
                    ),
                decreases sum,
            {
                proof {
                    if queue@.len() == 0 {
                        assert(sum_lens(queue@) == 0);
                    }
                    lemma_sum_lens_nonneg(queue@.drop_first());
                }
                let ghost queue_full = queue@;
                let ghost set2_before = set2@;
                let ghost sum_before = sum as int;
                let elem = queue.remove(0);
                sum = sum - elem.len();
                set2.push_back(elem);
                proof {
                    lemma_block_len_ge_1(elem);
                    assert(queue@ =~= queue_full.drop_first());
                    lemma_flatten_blocks_push(set2_before, elem);
                    assert(flatten_blocks(queue_full) == block_elems(elem) + flatten_blocks(
                        queue@,
                    ));
                    assert(flatten_blocks(set2@) + flatten_blocks(queue@) + flatten_blocks(set1@)
                        =~= flatten_blocks(set2_before) + flatten_blocks(queue_full)
                        + flatten_blocks(set1@));
                    assert(elem == queue_full[0]);
                    assert(drain_overrun(set2_before, queue_full, sum_before, simd_count as int)
                        == drain_overrun(set2@, queue@, sum as int, simd_count as int));
                }
            }
            proof {
                assert(drain_overrun(set2@, queue@, sum as int, simd_count as int).0 == set2@);
                assert(drain_overrun(set2@, queue@, sum as int, simd_count as int).1 == queue@);
                assert(drain_overrun(set2@, queue@, sum as int, simd_count as int).2
                    == sum as int);
                assert(merge_scan(set2_start, queue_before, sum_start, set1_before,
                    simd_count as int) == merge_scan(set2@, queue@, sum as int, set1@,
                    simd_count as int));
            }
        } else {
            proof {
                assert(merge_scan(set2_start, queue_before, sum_start, set1_before,
                    simd_count as int) == merge_scan(set2@, queue@, sum as int, set1@,
                    simd_count as int));
            }
        }
    }
    proof {
        assert(set1@.len() == 0);
        assert(merge_scan(set2@, queue@, sum as int, set1@, simd_count as int) == set2@ + queue@);
        assert(set2@ + queue@ == merge_pass_spec(orig, simd_count as int));
    }
    while queue.len() > 0
        invariant
            flatten_blocks(set2@) + flatten_blocks(queue@) == flatten_blocks(orig),
            blocks_wf(set2@),
            blocks_wf(queue@),
            set2@ + queue@ == merge_pass_spec(orig, simd_count as int),
        decreases queue@.len(),
    {
        let ghost queue_full = queue@;
        let ghost set2_before = set2@;
        let elem = queue.remove(0);
        set2.push_back(elem);
        proof {
            assert(queue@ =~= queue_full.drop_first());
            lemma_flatten_blocks_push(set2_before, elem);
            assert(flatten_blocks(queue_full) == block_elems(elem) + flatten_blocks(queue@));
            assert(flatten_blocks(set2@) + flatten_blocks(queue@) =~= flatten_blocks(set2_before)
                + flatten_blocks(queue_full));
            assert(elem == queue_full[0]);
            assert(set2@ + queue@ =~= set2_before + queue_full);
        }
    }
    proof {
        assert(flatten_blocks(set2@) =~= flatten_blocks(orig));
        assert(set2@ =~= set2@ + queue@);
    }
    set2
}

/// Every block is at most sixteen elements wide.
proof fn lemma_block_len_le_16(b: InstructionBlock)
    ensures
        block_len(b) <= 16,
{
}

/// Every block is at least one element wide.
proof fn lemma_block_len_ge_1(b: InstructionBlock)
    ensures
        block_len(b) >= 1,
{
}


/// Overrun correction only moves blocks between the output and the
/// window; any per-block property of both is preserved.
proof fn lemma_drain_overrun_preserves(
    set2: Seq<InstructionBlock>,
    queue: Seq<InstructionBlock>,
    sum: int,
    w: int,
    p: spec_fn(InstructionBlock) -> bool,
)
    requires
        forall|i: int| 0 <= i < set2.len() ==> p(#[trigger] set2[i]),
        forall|i: int| 0 <= i < queue.len() ==> p(#[trigger] queue[i]),
    ensures
        forall|i: int|
            0 <= i < drain_overrun(set2, queue, sum, w).0.len() ==> p(
                #[trigger] drain_overrun(set2, queue, sum, w).0[i],
            ),
        forall|i: int|
            0 <= i < drain_overrun(set2, queue, sum, w).1.len() ==> p(
                #[trigger] drain_overrun(set2, queue, sum, w).1[i],
            ),
    decreases queue.len(),
{
    if !(sum <= w || queue.len() == 0) {
        assert(forall|i: int|
            0 <= i < set2.push(queue[0]).len() ==> p(#[trigger] set2.push(queue[0])[i]));
        assert(forall|i: int|
            0 <= i < queue.drop_first().len() ==> p(#[trigger] queue.drop_first()[i]));
        lemma_drain_overrun_preserves(
            set2.push(queue[0]),
            queue.drop_first(),
            sum - block_len(queue[0]),
            w,
            p,
        );
        assert(drain_overrun(set2, queue, sum, w) == drain_overrun(
            set2.push(queue[0]),
            queue.drop_first(),
            sum - block_len(queue[0]),
            w,
        ));
    }
}

/// A merge scan only passes input blocks through or builds blocks of
/// its own target width: any per-block property that holds of the
/// state's blocks and of every width-`w` block holds of the result.
proof fn lemma_merge_scan_widths(
    set2: Seq<InstructionBlock>,
    queue: Seq<InstructionBlock>,
    sum: int,
    set1: Seq<InstructionBlock>,
    w: int,
    p: spec_fn(InstructionBlock) -> bool,
)
    requires
        forall|i: int| 0 <= i < set2.len() ==> p(#[trigger] set2[i]),
        forall|i: int| 0 <= i < queue.len() ==> p(#[trigger] queue[i]),
        forall|i: int| 0 <= i < set1.len() ==> p(#[trigger] set1[i]),
        forall|b: InstructionBlock| block_len(b) == w ==> p(b),
    ensures
        forall|i: int|
            0 <= i < merge_scan(set2, queue, sum, set1, w).len() ==> p(
                #[trigger] merge_scan(set2, queue, sum, set1, w)[i],
            ),
    decreases set1.len(),
{
    if set1.len() == 0 {
        assert forall|i: int|
            0 <= i < merge_scan(set2, queue, sum, set1, w).len() implies p(
            #[trigger] merge_scan(set2, queue, sum, set1, w)[i],
        ) by {
            if i < set2.len() {
                assert((set2 + queue)[i] == set2[i]);
            } else {
                assert((set2 + queue)[i] == queue[i - set2.len()]);
            }
        }
    } else {
        let queue1 = queue.push(set1[0]);
        let sum1 = sum + block_len(set1[0]);
        let rest = set1.drop_first();
        assert(forall|i: int| 0 <= i < queue1.len() ==> p(#[trigger] queue1[i]));
        assert(forall|i: int| 0 <= i < rest.len() ==> p(#[trigger] rest[i]));
        if sum1 == w {
            match merge_attempt(queue1, w) {
                Some(m) => {
                    assert(block_len(m) == w);
                    assert(p(m));
                    assert(forall|i: int|
                        0 <= i < set2.push(m).len() ==> p(#[trigger] set2.push(m)[i]));
                    lemma_merge_scan_widths(
                        set2.push(m),
                        Seq::empty(),
                        0,
                        rest,
                        w,
                        p,
                    );
                    assert(merge_scan(set2, queue, sum, set1, w) == merge_scan(
                        set2.push(m),
                        Seq::empty(),
                        0,
                        rest,
                        w,
                    ));
                },
                None => {
                    assert(forall|i: int|
                        0 <= i < set2.push(queue1[0]).len() ==> p(
                            #[trigger] set2.push(queue1[0])[i],
                        ));
                    assert(forall|i: int|
                        0 <= i < queue1.drop_first().len() ==> p(
                            #[trigger] queue1.drop_first()[i],
                        ));
                    lemma_merge_scan_widths(
                        set2.push(queue1[0]),
                        queue1.drop_first(),
                        sum1 - block_len(queue1[0]),
                        rest,
                        w,
                        p,
                    );
                    assert(merge_scan(set2, queue, sum, set1, w) == merge_scan(
                        set2.push(queue1[0]),
                        queue1.drop_first(),
                        sum1 - block_len(queue1[0]),
                        rest,
                        w,
                    ));
                },
            }
        } else if sum1 > w {
            let t = drain_overrun(set2, queue1, sum1, w);
            lemma_drain_overrun_preserves(set2, queue1, sum1, w, p);
            lemma_merge_scan_widths(t.0, t.1, t.2, rest, w, p);
            assert(merge_scan(set2, queue, sum, set1, w) == merge_scan(t.0, t.1, t.2, rest, w));
        } else {
            lemma_merge_scan_widths(set2, queue1, sum1, rest, w, p);
            assert(merge_scan(set2, queue, sum, set1, w) == merge_scan(set2, queue1, sum1, rest, w));
        }
    }
}

impl View for ShiftMask {
    type V = Seq<u32>;

    closed spec fn view(&self) -> Seq<u32> {
        self.values@
    }
}

impl ShiftMask {
    pub fn new(values: Vec<u32>) -> (r: Self)
        ensures
            r@ == values@,
    {
        Self { values }
    }

    pub fn len(&self) -> (r: usize)
        ensures
            r == self@.len(),
    {
        self.values.len()
    }

    /// Turns the mask into a block cover: first one width-1 block per
    /// slot, then one merge scan per target width no larger than
    /// `num_iter`, ascending. Flattening the result reproduces the
    /// mask's elements exactly.
    pub fn optimize_to_blocks(&self, num_iter: u8) -> (r: VecDeque<InstructionBlock>)
        requires
            self@.len() <= u32::MAX,
        ensures
            flatten_blocks(r@) == mask_elems(self@),
            blocks_wf(r@),
            r@ == optimize_spec(self@, num_iter as int),
            forall|i: int|
                0 <= i < r@.len() ==> (block_len(#[trigger] r@[i]) == 1 || block_len(r@[i]) == 4
                    || block_len(r@[i]) == 8),
            forall|i: int|
                0 <= i < r@.len() ==> (block_len(#[trigger] r@[i]) == 1 || block_len(r@[i])
                    <= num_iter),
    {
        let mut set1: VecDeque<InstructionBlock> = VecDeque::new();
        let mut index: usize = 0;
        while index < self.values.len()
            invariant
                index <= self@.len(),
                self@.len() <= u32::MAX,
                flatten_blocks(set1@) == mask_elems(self@).subrange(0, index as int),
                blocks_wf(set1@),
                set1@ == singles_of(self@).subrange(0, index as int),
            decreases self@.len() - index,
        {
            let ghost set1_before = set1@;
            let val = self.values[index];
            let single = InstructionBlock::Single(SingleInstruction::new(index as u32, val));
            set1.push_back(single);
            proof {
                lemma_flatten_blocks_push(set1_before, single);
                assert(block_elems(single) =~= seq![mask_elems(self@)[index as int]]);
                assert(mask_elems(self@).subrange(0, index + 1 as int) =~= mask_elems(
                    self@,
                ).subrange(0, index as int).push(mask_elems(self@)[index as int]));
                assert(single == singles_of(self@)[index as int]);
                assert(singles_of(self@).subrange(0, index + 1 as int) =~= singles_of(
                    self@,
                ).subrange(0, index as int).push(singles_of(self@)[index as int]));
            }
            index = index + 1;
        }
        proof {
            assert(mask_elems(self@).subrange(0, self@.len() as int) =~= mask_elems(self@));
            assert(singles_of(self@).subrange(0, self@.len() as int) =~= singles_of(self@));
        }
        let mut result = set1;
        let ghost singles = singles_of(self@);
        if 4 <= num_iter {
            result = merge_pass(result, 4);
        }
        let ghost after4 = result@;
        if 8 <= num_iter {
            result = merge_pass(result, 8);
        }
        proof {
            let ni = num_iter as int;
            assert(result@ == optimize_spec(self@, ni));
            let p = |b: InstructionBlock|
                block_len(b) == 1 || (block_len(b) == 4 && 4 <= ni) || (block_len(b) == 8 && 8
                    <= ni);
            assert forall|i: int| 0 <= i < singles.len() implies p(#[trigger] singles[i]) by {
                assert(singles[i] is Single);
            }
            if 4 <= ni {
                lemma_merge_scan_widths(Seq::empty(), Seq::empty(), 0, singles, 4, p);
            }
            assert(forall|i: int| 0 <= i < after4.len() ==> p(#[trigger] after4[i]));
            if 8 <= ni {
                lemma_merge_scan_widths(Seq::empty(), Seq::empty(), 0, after4, 8, p);
            }
            assert(forall|i: int| 0 <= i < result@.len() ==> p(#[trigger] result@[i]));
        }
        result
    }

    /// Returns whether a range of elements "self permutes" on
    /// themselves, I.e. the array subset that can be optimized
    /// to a single SIMD instruction. `full_vec` is left holding the
    /// chunk's flattened elements.
    pub fn chunk_self_permutes(
        full_vec: &mut Vec<SingleInstruction>,
        chunk: &Vec<InstructionBlock>,
        simd_count: u8,
    ) -> (r: bool)
        requires
            chunk@.len() > 0,
        ensures
            final(full_vec)@ == flatten_blocks(chunk@),
            r == self_permutes(flatten_blocks(chunk@), simd_count as int),
    {
        full_vec.clear();
        let mut i: usize = 0;
        while i < chunk.len()
            invariant
                i <= chunk@.len(),
                full_vec@ == flatten_blocks(chunk@.subrange(0, i as int)),
            decreases chunk@.len() - i,
        {
            let mut cloned: Vec<SingleInstruction> = chunk[i].flatten();
            proof {
                assert(chunk@.subrange(0, i + 1 as int) =~= chunk@.subrange(0, i as int).push(
                    chunk@[i as int],
                ));
                lemma_flatten_blocks_push(chunk@.subrange(0, i as int), chunk@[i as int]);
            }
            full_vec.append(&mut cloned);
            i = i + 1;
        }
        proof {
            assert(chunk@.subrange(0, chunk@.len() as int) =~= chunk@);
            assert(flatten_blocks(chunk@).len() > 0);
        }
        let ghost s = flatten_blocks(chunk@);
        let mut mn_src: u32 = full_vec[0].index;
        let mut mx_src: u32 = full_vec[0].index;
        let mut mn_dst: u32 = full_vec[0].value;
        let mut mx_dst: u32 = full_vec[0].value;
        let mut j: usize = 1;
        proof {
            assert(s.subrange(0, 1) =~= seq![s[0]]);
        }
        while j < full_vec.len()
            invariant
                1 <= j <= s.len(),
                full_vec@ == s,
                s.len() > 0,
                mn_src as int == min_src(s.subrange(0, j as int)),
                mx_src as int == max_src(s.subrange(0, j as int)),
                mn_dst as int == min_dst(s.subrange(0, j as int)),
                mx_dst as int == max_dst(s.subrange(0, j as int)),
                mn_src <= mx_src,
                mn_dst <= mx_dst,
            decreases s.len() - j,
        {
            let e = full_vec[j];
            proof {
                assert(s.subrange(0, j + 1 as int).drop_last() =~= s.subrange(0, j as int));
                assert(s.subrange(0, j + 1 as int).last() == s[j as int]);
            }
            if e.index < mn_src {
                mn_src = e.index;
            }
            if e.index > mx_src {
                mx_src = e.index;
            }
            if e.value < mn_dst {
                mn_dst = e.value;
            }
            if e.value > mx_dst {
                mx_dst = e.value;
            }
            j = j + 1;
        }
        proof {
            assert(s.subrange(0, s.len() as int) =~= s);
        }
        ((mx_src - mn_src) as u64 + 1 == simd_count as u64) && ((mx_dst - mn_dst) as u64 + 1
            == simd_count as u64)
    }

    /// Applies the mask to an input array: the value in source slot `i`
    /// lands in destination slot `mask[i]`; untouched slots stay zero.
    pub fn permute_array_by_mask(&self, input: &Vec<u32>) -> (r: Vec<u32>)
        requires
            input@.len() == self@.len(),
            forall|i: int| 0 <= i < self@.len() ==> self@[i] < self@.len(),
        ensures
            r@ == permute_spec(self@, input@),
            r@.len() == input@.len(),
    {
        let mut output: Vec<u32> = Vec::new();
        let mut k: usize = 0;
        while k < input.len()
            invariant
                k <= input@.len(),
                output@.len() == k,
                forall|i: int| 0 <= i < k ==> output@[i] == 0u32,
            decreases input@.len() - k,
        {
            output.push(0);
            k = k + 1;
        }
        proof {
            assert(output@ =~= permute_rec(self@, input@, 0));
        }
        let mut index: usize = 0;
        while index < self.values.len()
            invariant
                index <= self@.len(),
                input@.len() == self@.len(),
                forall|i: int| 0 <= i < self@.len() ==> self@[i] < self@.len(),
                output@.len() == input@.len(),
                output@ == permute_rec(self@, input@, index as int),
            decreases self@.len() - index,
        {
            let value = self.values[index];
            output.set(value as usize, input[index]);
            index = index + 1;
        }
        output
    }

    /// Checks that the mask is a valid permutation spec; a mask that
    /// skips or reuses a destination slot is rejected.
    pub fn validate(&self) -> (r: Result<(), PermutationError>)
        ensures
            r is Ok <==> is_permutation(self@),
            !is_permutation(self@) ==> r == Err::<(), PermutationError>(
                PermutationError::InvalidPermutation,
            ),
    {
        let n = self.values.len();
        let mut seen: Vec<bool> = Vec::new();
        let mut k: usize = 0;
        while k < n
            invariant
                k <= n,
                seen@.len() == k,
                forall|i: int| 0 <= i < k ==> !seen@[i],
            decreases n - k,
        {
            seen.push(false);
            k = k + 1;
        }
        let mut i: usize = 0;
        while i < n
            invariant
                i <= n,
                n == self@.len(),
                seen@.len() == n,
                forall|c: int| 0 <= c < n ==> (seen@[c] <==> (exists|j: int|
                    0 <= j < i && self@[j] == c)),
                forall|j: int| 0 <= j < i ==> self@[j] < n,
                forall|a: int, b: int| 0 <= a < b < i ==> self@[a] != self@[b],
            decreases n - i,
        {
            let v = self.values[i];
            if v as usize >= n {
                return Err(PermutationError::InvalidPermutation);
            }
            if seen[v as usize] {
                proof {
                    let j = choose|j: int| 0 <= j < i && self@[j] == v as int;
                    assert(self@[j] == self@[i as int]);
                }
                return Err(PermutationError::InvalidPermutation);
            }
            seen.set(v as usize, true);
            i = i + 1;
        }
        Ok(())
    }

    /// Renders the mask as comma-separated decimal values.
    pub fn to_text(&self) -> (r: String)
        ensures
            r@ == pattern_text(self@),
    {
        let mut r = String::new();
        let n = self.values.len();
        let mut i: usize = 0;
        while i < n
            invariant
                i <= n,
                n == self@.len(),
                i == 0 ==> r@ == Seq::<char>::empty(),
                0 < i < n ==> r@ == pattern_text(self@.subrange(0, i as int)) + ","@,
                0 < i == n ==> r@ == pattern_text(self@),
            decreases n - i,
        {
            let item = u64_to_dec(self.values[i] as u64);
            r.append(item.as_str());
            proof {
                assert(self@.subrange(0, i + 1 as int).drop_last() =~= self@.subrange(0, i as int));
                assert(self@.subrange(0, i + 1 as int).last() == self@[i as int]);
                if i == 0 {
                    assert(self@.subrange(0, 1).len() == 1);
                    assert(r@ =~= pattern_text(self@.subrange(0, 1)));
                } else {
                    assert(r@ =~= pattern_text(self@.subrange(0, i + 1 as int)));
                }
                if i + 1 == n {
                    assert(self@.subrange(0, n as int) =~= self@);
                }
            }
            if i < n - 1 {
                r.append(",");
            }
            i = i + 1;
        }
        r
    }

    /// Builds a random permutation of `0..len` biased towards runs the
    /// optimizer can merge: repeatedly removes a contiguous group of
    /// 1, 4, 8 or 16 indices from the remaining pool, shuffles the
    /// group's order, and appends it to the result.
    pub fn new_random(len: u32) -> (r: Self)
        ensures
            r@.len() == len,
            is_permutation(r@),
    {
        broadcast use vstd::seq_lib::group_to_multiset_ensures;
        broadcast use vstd::multiset::group_multiset_axioms;

        let ghost full = Seq::new(len as nat, |k: int| k as u32);
        let mut dst_set: Vec<u32> = Vec::new();
        let mut src_set: Vec<u32> = Vec::new();
        let mut i: u32 = 0;
        while i < len
            invariant
                i <= len,
                src_set@ == Seq::new(i as nat, |k: int| k as u32),
            decreases len - i,
        {
            src_set.push(i);
            proof {
                assert(src_set@ =~= Seq::new((i + 1) as nat, |k: int| k as u32));
            }
            i = i + 1;
        }
        proof {
            assert(src_set@ == full);
            assert(dst_set@.to_multiset().add(src_set@.to_multiset()) =~= full.to_multiset());
        }
        while src_set.len() > 0
            invariant
                dst_set@.to_multiset().add(src_set@.to_multiset()) == full.to_multiset(),
                src_set@.len() <= len,
            decreases src_set@.len(),
        {
            let remaining = src_set.len();
            let mut nsizes: u32 = 1;
            if remaining >= 4 {
                nsizes = 2;
            }
            if remaining >= 8 {
                nsizes = 3;
            }
            if remaining >= 16 {
                nsizes = 4;
            }
            let choice = rand_below(nsizes);
            let size: usize = if choice == 0 {
                1
            } else if choice == 1 {
                4
            } else if choice == 2 {
                8
            } else {
                16
            };
            let base_index = rand_below((remaining - size + 1) as u32) as usize;
            let mut loc_vec: Vec<u32> = Vec::new();
            proof {
                broadcast use vstd::seq_lib::group_to_multiset_ensures;
                broadcast use vstd::multiset::group_multiset_axioms;

                assert(loc_vec@.to_multiset().len() == 0);
                assert(loc_vec@.to_multiset() =~= Multiset::<u32>::empty());
                assert(dst_set@.to_multiset().add(loc_vec@.to_multiset()).add(
                    src_set@.to_multiset(),
                ) =~= dst_set@.to_multiset().add(src_set@.to_multiset()));
            }
            let mut taken: usize = 0;
            while taken < size
                invariant
                    taken <= size,
                    size <= remaining,
                    remaining <= len,
                    base_index + size <= remaining,
                    src_set@.len() == remaining - taken,
                    loc_vec@.len() == taken,
                    dst_set@.to_multiset().add(loc_vec@.to_multiset()).add(
                        src_set@.to_multiset(),
                    ) == full.to_multiset(),
                decreases size - taken,
            {
                let ghost src_before = src_set@;
                let ghost loc_before = loc_vec@;
                let val = src_set.remove(base_index);
                loc_vec.push(val);
                proof {
                    broadcast use vstd::seq_lib::group_to_multiset_ensures;
                    broadcast use vstd::multiset::group_multiset_axioms;

                    assert(src_set@ == src_before.remove(base_index as int));
                    assert(loc_vec@ == loc_before.push(val));
                    assert(src_before.remove(base_index as int).to_multiset()
                        =~= src_before.to_multiset().remove(src_before[base_index as int]));
                    assert(loc_before.push(val).to_multiset() =~= loc_before.to_multiset().insert(
                        val,
                    ));
                    assert(src_before.contains(val));
                    assert(src_before.to_multiset().count(val) > 0);
                    assert(dst_set@.to_multiset().add(loc_vec@.to_multiset()).add(
                        src_set@.to_multiset(),
                    ) =~= full.to_multiset());
                }
                taken = taken + 1;
            }
            shuffle_values(&mut loc_vec);
            let ghost dst_before = dst_set@;
            let ghost loc_now = loc_vec@;
            dst_set.append(&mut loc_vec);
            proof {
                broadcast use vstd::seq_lib::group_to_multiset_ensures;
                broadcast use vstd::multiset::group_multiset_axioms;

                vstd::seq_lib::lemma_multiset_commutative(dst_before, loc_now);
                assert(dst_set@.to_multiset().add(src_set@.to_multiset())
                    =~= full.to_multiset());
            }
        }
        proof {
            assert(dst_set@.to_multiset() =~= full.to_multiset());
            lemma_full_range_multiset_permutation(dst_set@, len);
        }
        Self { values: dst_set }
    }
}

/// A sequence whose multiset of values equals that of `0..len` is a
/// permutation of `0..len`.
proof fn lemma_full_range_multiset_permutation(s: Seq<u32>, len: u32)
    requires
        s.to_multiset() == Seq::new(len as nat, |k: int| k as u32).to_multiset(),
    ensures
        s.len() == len,
        is_permutation(s),
{
    broadcast use vstd::seq_lib::group_to_multiset_ensures;

    let full = Seq::new(len as nat, |k: int| k as u32);
    assert(full.no_duplicates());
    full.lemma_multiset_has_no_duplicates();
    assert(s.len() == s.to_multiset().len());
    assert(full.len() == full.to_multiset().len());
    assert forall|i: int| 0 <= i < s.len() implies s[i] < s.len() by {
        assert(s.contains(s[i]));
        assert(s.to_multiset().count(s[i]) > 0);
        assert(full.contains(s[i]));
        let k = choose|k: int| 0 <= k < full.len() && full[k] == s[i];
        assert(full[k] == k as u32);
    }
    s.lemma_multiset_has_no_duplicates_conv();
    assert forall|i: int, j: int| 0 <= i < j < s.len() implies s[i] != s[j] by {
        assert(s.no_duplicates());
    }
}

/// Relies on rand's thread-local generator through `Rng::gen_range`:
/// a sample from `0..n` is always strictly below `n`.
#[verifier::external_body]
fn rand_below(n: u32) -> (r: u32)
    requires
        n >= 1,
    ensures
        r < n,
{
    rand::thread_rng().gen_range(0..n)
}

/// Relies on rand's `SliceRandom::shuffle`: it reorders the slice in
/// place and neither adds, changes nor removes elements.
#[verifier::external_body]
fn shuffle_values(v: &mut Vec<u32>)
    ensures
        final(v)@.len() == old(v)@.len(),
        final(v)@.to_multiset() == old(v)@.to_multiset(),
{
    v.shuffle(&mut rand::thread_rng());
}

/// The destination array after the first `k` slots of the mask have
/// been applied to `inp`; slots no mask value names hold zero.
pub open spec fn permute_rec(sp: Seq<u32>, inp: Seq<u32>, k: int) -> Seq<u32>
    recommends
        0 <= k <= sp.len(),
        sp.len() == inp.len(),
    decreases k,
{
    if k <= 0 {
        Seq::new(inp.len(), |i: int| 0u32)
    } else {
        permute_rec(sp, inp, k - 1).update(sp[k - 1] as int, inp[k - 1])
    }
}

/// The destination array an input maps to under a mask.
pub open spec fn permute_spec(sp: Seq<u32>, inp: Seq<u32>) -> Seq<u32> {
    permute_rec(sp, inp, sp.len() as int)
}

/// An error of mask validation.
#[derive(Clone, Copy, PartialEq, Eq, Structural, Debug)]
pub enum PermutationError {
    /// The mask is not a bijection on its own index range.
    InvalidPermutation,
}

/// The software permute law: under a valid mask, the value in source
/// slot `i` lands exactly in destination slot `mask[i]`, for every slot.
pub proof fn lemma_software_permute(sp: Seq<u32>, inp: Seq<u32>)
    requires
        sp.len() == inp.len(),
        is_permutation(sp),
    ensures
        permute_spec(sp, inp).len() == inp.len(),
        forall|i: int| 0 <= i < sp.len() ==> permute_spec(sp, inp)[sp[i] as int] == inp[i],
{
    lemma_permute_rec_frame(sp, inp, sp.len() as int);
}

/// After the first `k` mask slots are applied, every one of those
/// slots' values has reached its destination and stayed there.
proof fn lemma_permute_rec_frame(sp: Seq<u32>, inp: Seq<u32>, k: int)
    requires
        0 <= k <= sp.len(),
        sp.len() == inp.len(),
        is_permutation(sp),
    ensures
        permute_rec(sp, inp, k).len() == inp.len(),
        forall|i: int| 0 <= i < k ==> permute_rec(sp, inp, k)[sp[i] as int] == inp[i],
    decreases k,
{
    if k > 0 {
        lemma_permute_rec_frame(sp, inp, k - 1);
        let prev = permute_rec(sp, inp, k - 1);
        let cur = permute_rec(sp, inp, k);
        assert(cur == prev.update(sp[k - 1] as int, inp[k - 1]));
        assert forall|i: int| 0 <= i < k implies cur[sp[i] as int] == inp[i] by {
            if i < k - 1 {
                assert(sp[i] != sp[k - 1]);
                assert(cur[sp[i] as int] == prev[sp[i] as int]);
            }
        }
    }
}

/// The locality predicate reads only which elements a chunk holds,
/// never their internal order: any reordering of the elements gives
/// the same verdict.
pub proof fn lemma_self_permutes_order_independent(
    s1: Seq<SingleInstruction>,
    s2: Seq<SingleInstruction>,
    w: int,
)
    requires
        s1.len() > 0,
        s1.to_multiset() == s2.to_multiset(),
    ensures
        self_permutes(s1, w) == self_permutes(s2, w),
{
    lemma_seq_extrema_multiset(s1, s2, src_of());
    lemma_seq_extrema_multiset(s1, s2, dst_of());
}

/// The mask rendered as text: its values in decimal, separated by
/// commas, with no trailing separator.
pub open spec fn pattern_text(vals: Seq<u32>) -> Seq<char>
    decreases vals.len(),
{
    if vals.len() == 0 {
        Seq::empty()
    } else if vals.len() == 1 {
        dec_str(vals[0] as nat)
    } else {
        pattern_text(vals.drop_last()) + ","@ + dec_str(vals.last() as nat)
    }
}

} // verus!
