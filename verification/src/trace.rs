//! The trace assembler: puts the finished blocks in execution order, one
//! address space after the other, and turns each block's interim terminator
//! into its final form from the block that ran next in that address space.

use vstd::prelude::*;
use crate::block::{BasicBlock, BlockView};
use crate::branch::BranchView;

verus! {

/// Whether `a` stands at or before `b` in the assembled trace: by address
/// space first, by sequence number within one.
pub open spec fn key_le(a: BlockView, b: BlockView) -> bool {
    a.asid < b.asid || (a.asid == b.asid && a.seq_num <= b.seq_num)
}

/// Whether `a` and `b` have the same address space and sequence number.
pub open spec fn key_eq(a: BlockView, b: BlockView) -> bool {
    a.asid == b.asid && a.seq_num == b.seq_num
}

/// Whether `sorted` holds the elements of `input` ordered by address space
/// and then sequence number, elements that agree in both in the order in
/// which `input` has them; `from[i]` is the place in `input` of `sorted[i]`.
pub open spec fn is_stable_sort_by(input: Seq<BlockView>, sorted: Seq<BlockView>, from: Seq<int>) -> bool {
    &&& from.len() == input.len()
    &&& sorted.len() == input.len()
    &&& forall|i: int|
        0 <= i < sorted.len() ==> 0 <= #[trigger] from[i] < input.len() && sorted[i] == input[from[i]]
    &&& forall|i: int, j: int|
        0 <= i < j < sorted.len() ==> key_le(#[trigger] sorted[i], #[trigger] sorted[j]) && (key_eq(
            sorted[i],
            sorted[j],
        ) ==> from[i] < from[j])
}

/// Whether `sorted` is `input` in the order of the assembled trace.
pub open spec fn is_stable_sort(input: Seq<BlockView>, sorted: Seq<BlockView>) -> bool {
    exists|from: Seq<int>| is_stable_sort_by(input, sorted, from)
}

/// Whether the block at `i` of `blocks` is followed by the block that ran
/// next in its address space: one of the same address space whose sequence
/// number is the next one.
pub open spec fn has_successor(blocks: Seq<BlockView>, i: int) -> bool {
    0 <= i && i + 1 < blocks.len() && blocks[i + 1].asid == blocks[i].asid && blocks[i
        + 1].seq_num == blocks[i].seq_num + 1
}

/// The block at `i` of the ordered trace `sorted` with its branch resolved
/// against its successor; a block without a successor stays as it is, so
/// that a sentinel never takes the start of a block that did not run right
/// after it.
pub open spec fn resolve_at(sorted: Seq<BlockView>, i: int) -> BlockView {
    if has_successor(sorted, i) {
        sorted[i].resolved(sorted[i + 1].pc)
    } else {
        sorted[i]
    }
}

/// The ordered trace `sorted` with every block resolved against its successor.
pub open spec fn resolve_all(sorted: Seq<BlockView>) -> Seq<BlockView> {
    Seq::new(sorted.len(), |i: int| resolve_at(sorted, i))
}

/// Whether `out` is the assembled form of the blocks `input`.
pub open spec fn is_assembly_of(input: Seq<BlockView>, out: Seq<BlockView>) -> bool {
    exists|sorted: Seq<BlockView>| #[trigger]
        is_stable_sort(input, sorted) && out == resolve_all(sorted)
}

/// Whether `blocks` stand in the order of an assembled trace: by address
/// space, and by sequence number within one.
pub open spec fn is_ordered(blocks: Seq<BlockView>) -> bool {
    forall|i: int, j: int|
        0 <= i < j < blocks.len() ==> key_le(#[trigger] blocks[i], #[trigger] blocks[j])
}

/// Whether a block has a branch.
pub open spec fn has_branch(b: BlockView) -> bool {
    b.branch is Some
}

/// Whether a block has no lifted code.
pub open spec fn not_lifted(b: BlockView) -> bool {
    b.translation is None
}

/// The key that the trace is ordered by.
fn order_key(bb: &BasicBlock) -> (k: (u64, usize))
    ensures
        k.0 == bb@.asid,
        k.1 == bb@.seq_num,
{
    (bb.asid(), bb.seq_num())
}

/// Sorts with `slice::sort_by_key` of std, by address space and then
/// sequence number. Claimed of it, as its documentation says: the elements
/// are the same, in ascending order of the key (pairs are ordered by their
/// first component, then by their second), and elements with equal keys
/// keep their order.
#[verifier::external_body]
fn sort_by_key(list: &mut Vec<BasicBlock>)
    ensures
        is_stable_sort(old(list).deep_view(), final(list).deep_view()),
{
    list.sort_by_key(|bb| order_key(bb));
}

/// Final trace representation.
#[derive(Debug)]
pub struct BasicBlockList {
    list: Vec<BasicBlock>,
}

impl View for BasicBlockList {
    type V = Seq<BlockView>;

    closed spec fn view(&self) -> Seq<BlockView> {
        self.list.deep_view()
    }
}

impl Clone for BasicBlockList {
    fn clone(&self) -> (r: Self)
        ensures
            r@ == self@,
    {
        proof {
            use_type_invariant(self);
        }
        let mut copy: Vec<BasicBlock> = Vec::new();
        let mut i: usize = 0;
        while i < self.list.len()
            invariant
                i <= self.list.len(),
                copy.deep_view() == self@.take(i as int),
            decreases self.list.len() - i,
        {
            let ghost before = copy.deep_view();
            copy.push(self.list[i].clone());
            assert(copy.deep_view() =~= before.push(self.list[i as int]@));
            assert(self@.take(i + 1) =~= self@.take(i as int).push(self.list[i as int]@));
            i += 1;
        }
        assert(self@.take(self.list.len() as int) =~= self@);
        BasicBlockList { list: copy }
    }
}

impl BasicBlockList {
    #[verifier::type_invariant]
    spec fn inv(self) -> bool {
        is_ordered(self@)
    }

    /// Constructor, resolves:
    /// * Indirect call/jump and return destinations
    /// * Conditional jump taken or not taken
    ///
    /// The result holds as many blocks as were given, ordered by address
    /// space and then by sequence number.
    pub fn from(list: Vec<BasicBlock>) -> (r: BasicBlockList)
        ensures
            is_assembly_of(list.deep_view(), r@),
            r@.len() == list.len(),
            is_ordered(r@),
    {
        let mut list = list;
        let ghost input = list.deep_view();
        sort_by_key(&mut list);
        let ghost sorted = list.deep_view();
        let n = list.len();
        let last: usize = if n == 0 { 0 } else { n - 1 };
        let mut idx: usize = 0;
        while idx < last
            invariant
                last == if n == 0 { 0 } else { n - 1 },
                idx <= last,
                n == list.len(),
                n == sorted.len(),
                idx <= n,
                forall|i: int| 0 <= i < idx ==> #[trigger] list.deep_view()[i] == resolve_at(sorted, i),
                forall|i: int| idx <= i < n ==> #[trigger] list.deep_view()[i] == sorted[i],
            decreases n - idx,
        {
            assert(list.deep_view()[idx as int] == sorted[idx as int]);
            assert(list.deep_view()[idx + 1] == sorted[idx + 1]);
            let next_asid = list[idx + 1].asid();
            let next_seq = list[idx + 1].seq_num();
            let next_pc = list[idx + 1].pc();
            if list[idx].asid() == next_asid && next_seq > 0 && list[idx].seq_num() == next_seq - 1 {
                let ghost before = list.deep_view();
                list[idx].resolve(next_pc);
                assert forall|i: int| 0 <= i < n && i != idx implies #[trigger] list.deep_view()[i]
                    == before[i] by {}
            }
            idx += 1;
        }
        proof {
            assert forall|i: int| 0 <= i < n implies #[trigger] list.deep_view()[i] == resolve_at(
                sorted,
                i,
            ) by {
                if i >= idx {
                    assert(!has_successor(sorted, i));
                }
            }
            assert(list.deep_view() =~= resolve_all(sorted));
            assert(is_stable_sort(input, sorted));
            assert(is_assembly_of(input, list.deep_view()));
            assert forall|i: int, j: int| 0 <= i < j < n implies key_le(
                #[trigger] list.deep_view()[i],
                #[trigger] list.deep_view()[j],
            ) by {
                lemma_assembly_is_ordered(input, list.deep_view(), i, j);
            }
        }
        BasicBlockList { list }
    }

    /// Get count of translation errors: the blocks without lifted code.
    pub fn trans_err_cnt(&self) -> (r: usize)
        ensures
            r == self@.filter(|b: BlockView| not_lifted(b)).len(),
    {
        let ghost pred = |b: BlockView| not_lifted(b);
        let mut count: usize = 0;
        let mut i: usize = 0;
        proof {
            reveal(Seq::filter);
            assert(self@.take(0) =~= Seq::<BlockView>::empty());
        }
        while i < self.list.len()
            invariant
                i <= self.list.len(),
                self@.len() == self.list.len(),
                self@ == self.list.deep_view(),
                count <= i,
                count == self@.take(i as int).filter(pred).len(),
                pred == (|b: BlockView| not_lifted(b)),
            decreases self.list.len() - i,
        {
            proof {
                reveal(Seq::filter);
                assert(self@.take(i + 1).drop_last() =~= self@.take(i as int));
                assert(self@.take(i + 1).last() == self.list[i as int]@);
            }
            if !self.list[i].is_lifted() {
                count += 1;
            }
            i += 1;
        }
        assert(self@.take(i as int) =~= self@);
        count
    }

    /// Get length
    pub fn len(&self) -> (r: usize)
        ensures
            r == self@.len(),
    {
        self.list.len()
    }

    /// Check if empty
    pub fn is_empty(&self) -> (r: bool)
        ensures
            r == (self@.len() == 0),
    {
        self.list.len() == 0
    }

    /// The trace of the blocks that have a branch: the others are dropped,
    /// the branches stay as they were resolved.
    pub fn into_branch_list(self) -> (r: BasicBlockList)
        ensures
            r@ == self@.filter(|b: BlockView| has_branch(b)),
            is_ordered(r@),
    {
        let ghost pred = |b: BlockView| has_branch(b);
        let ghost all = self@;
        let mut kept: Vec<BasicBlock> = Vec::new();
        proof {
            use_type_invariant(&self);
            reveal(Seq::filter);
            assert(all.take(0) =~= Seq::<BlockView>::empty());
        }
        for bb in it: self.list.into_iter()
            invariant
                it.seq().len() == all.len(),
                forall|i: int| 0 <= i < all.len() ==> (#[trigger] it.seq()[i])@ == all[i],
                pred == (|b: BlockView| has_branch(b)),
                kept.deep_view() == all.take(it.index() as int).filter(pred),
                is_ordered(all),
                is_ordered(kept.deep_view()),
                forall|k: int, m: int|
                    0 <= k < kept.len() && it.index() <= m < all.len() ==> key_le(
                        #[trigger] kept.deep_view()[k],
                        #[trigger] all[m],
                    ),
        {
            let ghost i = it.index() as int;
            proof {
                reveal(Seq::filter);
                assert(all.take(i + 1).drop_last() =~= all.take(i));
                assert(all.take(i + 1).last() == bb@);
            }
            let ghost before = kept.deep_view();
            if bb.branch().is_some() {
                kept.push(bb);
                proof {
                    assert(kept.deep_view() =~= before.push(bb@));
                    assert forall|k: int, m: int|
                        0 <= k < kept.len() && i + 1 <= m < all.len() implies key_le(
                        #[trigger] kept.deep_view()[k],
                        #[trigger] all[m],
                    ) by {
                        if k < before.len() {
                            assert(kept.deep_view()[k] == before[k]);
                        } else {
                            assert(kept.deep_view()[k] == all[i]);
                        }
                    }
                    assert forall|k: int, l: int| 0 <= k < l < kept.len() implies key_le(
                        #[trigger] kept.deep_view()[k],
                        #[trigger] kept.deep_view()[l],
                    ) by {
                        assert(kept.deep_view()[k] == before[k]);
                        if l < before.len() {
                            assert(kept.deep_view()[l] == before[l]);
                        } else {
                            assert(kept.deep_view()[l] == all[i]);
                        }
                    }
                }
            }
        }
        assert(all.take(all.len() as int) =~= all);
        BasicBlockList { list: kept }
    }

    /// The contained basic blocks, in trace order.
    pub fn blocks(&self) -> (r: &Vec<BasicBlock>)
        ensures
            r.deep_view() == self@,
            is_ordered(self@),
    {
        proof {
            use_type_invariant(self);
        }
        &self.list
    }
}

/// Whether every block of `blocks` that has a branch has it as the detector
/// leaves it.
pub open spec fn all_unresolved(blocks: Seq<BlockView>) -> bool {
    forall|i: int|
        0 <= i < blocks.len() ==> ((#[trigger] blocks[i]).branch matches Some(b)
            ==> b.is_unresolved())
}

/// The assembler neither adds nor drops a block.
pub proof fn lemma_count_preserved(input: Seq<BlockView>, out: Seq<BlockView>)
    requires
        is_assembly_of(input, out),
    ensures
        out.len() == input.len(),
{
    let sorted = choose|sorted: Seq<BlockView>| #[trigger]
        is_stable_sort(input, sorted) && out == resolve_all(sorted);
    let from = choose|from: Seq<int>| is_stable_sort_by(input, sorted, from);
    assert(is_stable_sort_by(input, sorted, from));
}

/// The assembler changes nothing of a block but its branch, and leaves the
/// trace ordered by address space and then sequence number.
pub proof fn lemma_assembly_is_ordered(input: Seq<BlockView>, out: Seq<BlockView>, i: int, j: int)
    requires
        is_assembly_of(input, out),
        0 <= i < j < out.len(),
    ensures
        key_le(out[i], out[j]),
{
    let sorted = choose|sorted: Seq<BlockView>| #[trigger]
        is_stable_sort(input, sorted) && out == resolve_all(sorted);
    let from = choose|from: Seq<int>| is_stable_sort_by(input, sorted, from);
    assert(is_stable_sort_by(input, sorted, from));
    assert(key_le(sorted[i], sorted[j]));
    assert(out[i] == resolve_at(sorted, i));
    assert(out[j] == resolve_at(sorted, j));
}

/// In the trace assembled from blocks as the detector leaves them, every
/// final indirect call, indirect jump and return is followed by the block
/// of its address space that has the next sequence number, and the
/// destination it records is where that block starts.
pub proof fn lemma_indirect_destination(input: Seq<BlockView>, out: Seq<BlockView>, i: int)
    requires
        is_assembly_of(input, out),
        all_unresolved(input),
        0 <= i < out.len(),
        out[i].branch matches Some(b) && b.witnessed_dst() is Some,
    ensures
        i + 1 < out.len(),
        out[i + 1].asid == out[i].asid,
        out[i + 1].seq_num == out[i].seq_num + 1,
        out[i].branch->0.witnessed_dst() == Some(out[i + 1].pc),
{
    let sorted = choose|sorted: Seq<BlockView>| #[trigger]
        is_stable_sort(input, sorted) && out == resolve_all(sorted);
    let from = choose|from: Seq<int>| is_stable_sort_by(input, sorted, from);
    assert(is_stable_sort_by(input, sorted, from));
    assert(out[i] == resolve_at(sorted, i));
    assert(sorted[i] == input[from[i]]);
    assert(has_successor(sorted, i));
    assert(out[i + 1] == resolve_at(sorted, i + 1));
}

/// A sentinel that is not followed by the block with the next sequence
/// number of its address space stays a sentinel.
pub proof fn lemma_sentinel_stays(input: Seq<BlockView>, out: Seq<BlockView>, i: int)
    requires
        is_assembly_of(input, out),
        all_unresolved(input),
        0 <= i < out.len(),
        !has_successor(out, i),
    ensures
        out[i].branch matches Some(b) ==> b.is_unresolved(),
{
    let sorted = choose|sorted: Seq<BlockView>| #[trigger]
        is_stable_sort(input, sorted) && out == resolve_all(sorted);
    let from = choose|from: Seq<int>| is_stable_sort_by(input, sorted, from);
    assert(is_stable_sort_by(input, sorted, from));
    assert(out[i] == resolve_at(sorted, i));
    assert(sorted[i] == input[from[i]]);
    if i + 1 < out.len() {
        assert(out[i + 1] == resolve_at(sorted, i + 1));
    }
}

/// In the trace assembled from blocks as the detector leaves them, a direct
/// jump is marked as taken if and only if the block of its address space
/// with the next sequence number follows it and starts at the jump's
/// destination.
pub proof fn lemma_direct_jump_taken(input: Seq<BlockView>, out: Seq<BlockView>, i: int)
    requires
        is_assembly_of(input, out),
        all_unresolved(input),
        0 <= i < out.len(),
        out[i].branch matches Some(b) && b is DirectJump,
    ensures
        out[i].branch->0->DirectJump_taken <==> (has_successor(out, i) && out[i + 1].pc
            == out[i].branch->0->DirectJump_dst_pc),
{
    let sorted = choose|sorted: Seq<BlockView>| #[trigger]
        is_stable_sort(input, sorted) && out == resolve_all(sorted);
    let from = choose|from: Seq<int>| is_stable_sort_by(input, sorted, from);
    assert(is_stable_sort_by(input, sorted, from));
    assert(out[i] == resolve_at(sorted, i));
    assert(sorted[i] == input[from[i]]);
    if has_successor(sorted, i) {
        assert(out[i + 1] == resolve_at(sorted, i + 1));
    }
    if i + 1 < out.len() {
        assert(out[i + 1] == resolve_at(sorted, i + 1));
    }
}

/// Whether the block at `a` of `input` stands before the block at `b` in the
/// assembled trace.
pub open spec fn stands_before(input: Seq<BlockView>, a: int, b: int) -> bool {
    if key_eq(input[a], input[b]) {
        a < b
    } else {
        key_le(input[a], input[b])
    }
}

/// The places that a stable sort takes its elements from are in the order of
/// the assembled trace, and no place is taken from twice.
proof fn lemma_places_ascend(
    input: Seq<BlockView>,
    sorted: Seq<BlockView>,
    from: Seq<int>,
    i: int,
    j: int,
)
    requires
        is_stable_sort_by(input, sorted, from),
        0 <= i < j < sorted.len(),
    ensures
        stands_before(input, from[i], from[j]),
        from[i] != from[j],
{
    assert(sorted[i] == input[from[i]]);
    assert(sorted[j] == input[from[j]]);
    assert(key_le(sorted[i], sorted[j]));
}

/// Every place of the input is taken from.
proof fn lemma_every_place_taken(
    input: Seq<BlockView>,
    sorted: Seq<BlockView>,
    from: Seq<int>,
    place: int,
)
    requires
        is_stable_sort_by(input, sorted, from),
        0 <= place < input.len(),
    ensures
        exists|i: int| 0 <= i < from.len() && from[i] == place,
{
    let n = input.len() as int;
    assert forall|i: int, j: int| 0 <= i < from.len() && 0 <= j < from.len() && i != j implies from[i]
        != from[j] by {
        if i < j {
            lemma_places_ascend(input, sorted, from, i, j);
        } else {
            lemma_places_ascend(input, sorted, from, j, i);
        }
    }
    assert(from.no_duplicates());
    from.unique_seq_to_set();
    vstd::set_lib::lemma_int_range(0, n);
    let all = vstd::set_lib::set_int_range(0, n);
    assert forall|x: int| from.to_set().contains(x) implies all.contains(x) by {
        let i = choose|i: int| 0 <= i < from.len() && from[i] == x;
        assert(0 <= from[i] < input.len());
    }
    assert(from.to_set().subset_of(all));
    vstd::set_lib::lemma_len_subset(from.to_set(), all);
    vstd::set_lib::lemma_subset_equality(from.to_set(), all);
    assert(all.contains(place));
    assert(from.to_set().contains(place));
}

/// Two stable sorts of the same input take each element from the same place.
proof fn lemma_same_places(
    input: Seq<BlockView>,
    first: Seq<BlockView>,
    from_first: Seq<int>,
    second: Seq<BlockView>,
    from_second: Seq<int>,
    i: int,
)
    requires
        is_stable_sort_by(input, first, from_first),
        is_stable_sort_by(input, second, from_second),
        0 <= i < input.len(),
    ensures
        from_first[i] == from_second[i],
    decreases i,
{
    let a = from_first[i];
    let b = from_second[i];
    assert(first[i] == input[a]);
    assert(second[i] == input[b]);
    if a != b {
        // `a` is taken by the second sort at some `j`, and `b` by the first at some `m`
        lemma_every_place_taken(input, second, from_second, a);
        let j = choose|j: int| 0 <= j < from_second.len() && from_second[j] == a;
        lemma_every_place_taken(input, first, from_first, b);
        let m = choose|m: int| 0 <= m < from_first.len() && from_first[m] == b;
        if j < i {
            lemma_same_places(input, first, from_first, second, from_second, j);
            lemma_places_ascend(input, first, from_first, j, i);
        } else if m < i {
            lemma_same_places(input, first, from_first, second, from_second, m);
            lemma_places_ascend(input, second, from_second, m, i);
        } else {
            lemma_places_ascend(input, second, from_second, i, j);
            lemma_places_ascend(input, first, from_first, i, m);
        }
    }
}

/// The order of the assembled trace is determined by the blocks given: two
/// stable sorts of the same input are the same.
pub proof fn lemma_stable_sort_unique(
    input: Seq<BlockView>,
    first: Seq<BlockView>,
    second: Seq<BlockView>,
)
    requires
        is_stable_sort(input, first),
        is_stable_sort(input, second),
    ensures
        first == second,
{
    let from_first = choose|from: Seq<int>| is_stable_sort_by(input, first, from);
    let from_second = choose|from: Seq<int>| is_stable_sort_by(input, second, from);
    assert forall|i: int| 0 <= i < first.len() implies first[i] == second[i] by {
        lemma_same_places(input, first, from_first, second, from_second, i);
        assert(first[i] == input[from_first[i]]);
        assert(second[i] == input[from_second[i]]);
    }
    assert(first =~= second);
}

/// The assembled trace is determined by the blocks given: whatever meets the
/// description of the assembly of `input` is the same trace.
pub proof fn lemma_assembly_unique(
    input: Seq<BlockView>,
    first: Seq<BlockView>,
    second: Seq<BlockView>,
)
    requires
        is_assembly_of(input, first),
        is_assembly_of(input, second),
    ensures
        first == second,
{
    let a = choose|sorted: Seq<BlockView>| #[trigger]
        is_stable_sort(input, sorted) && first == resolve_all(sorted);
    let b = choose|sorted: Seq<BlockView>| #[trigger]
        is_stable_sort(input, sorted) && second == resolve_all(sorted);
    lemma_stable_sort_unique(input, a, b);
}

} // verus!
