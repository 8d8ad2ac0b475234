//! What holds of the segmenter's blocks, whatever the lines: there is one
//! block per boundary, in input order; no block is without lines or
//! without a name; and the blocks' lines, taken block after block, are the
//! input lines with some left out, none twice and none out of place.

use crate::split_sql::{
    block_of, body, head, is_boundary, kept, reclaimed, region_end, segment_spec, span_at, spans,
    Kind, Span,
};
use crate::BlockView;
use vstd::prelude::*;

verus! {

/// Between a position and the first boundary at or behind it there is no
/// boundary.
pub proof fn lemma_region_end(kinds: Seq<Kind>, from: int)
    requires
        0 <= from <= kinds.len(),
    ensures
        from <= region_end(kinds, from) <= kinds.len(),
        forall|t: int| from <= t < region_end(kinds, from) ==> !is_boundary(#[trigger] kinds[t]),
        region_end(kinds, from) < kinds.len() ==> is_boundary(kinds[region_end(kinds, from)]),
    decreases kinds.len() - from,
{
    if from < kinds.len() && !is_boundary(kinds[from]) {
        lemma_region_end(kinds, from + 1);
    }
}

/// Lines that are no boundaries open no blocks.
pub proof fn lemma_spans_skip(kinds: Seq<Kind>, from: int, to: int)
    requires
        0 <= from <= to <= kinds.len(),
        forall|t: int| from <= t < to ==> !is_boundary(#[trigger] kinds[t]),
    ensures
        spans(kinds, to) == spans(kinds, from),
    decreases to - from,
{
    if from < to {
        lemma_spans_skip(kinds, from, to - 1);
    }
}

/// The positions of the boundaries among the first `upto` lines, in
/// increasing order.
pub open spec fn boundaries(kinds: Seq<Kind>, upto: int) -> Seq<int>
    decreases upto,
{
    if upto <= 0 {
        Seq::empty()
    } else if is_boundary(kinds[upto - 1]) {
        boundaries(kinds, upto - 1).push(upto - 1)
    } else {
        boundaries(kinds, upto - 1)
    }
}

/// There is one block for each boundary, and the blocks stand in the order
/// of the positions at which they were opened.
pub proof fn lemma_one_block_per_boundary(kinds: Seq<Kind>, upto: int)
    requires
        0 <= upto <= kinds.len(),
    ensures
        spans(kinds, upto).len() == boundaries(kinds, upto).len(),
        boundaries(kinds, upto).len() <= upto,
        increasing(boundaries(kinds, upto)),
        forall|k: int|
            0 <= k < boundaries(kinds, upto).len() ==> {
                let i = #[trigger] boundaries(kinds, upto)[k];
                &&& 0 <= i < upto
                &&& is_boundary(kinds[i])
                &&& spans(kinds, upto)[k] == span_at(kinds, i)
            },
        forall|i: int|
            0 <= i < upto && is_boundary(#[trigger] kinds[i]) ==> boundaries(kinds, upto).contains(i),
    decreases upto,
{
    if upto > 0 {
        lemma_one_block_per_boundary(kinds, upto - 1);
        let before = boundaries(kinds, upto - 1);
        let now = boundaries(kinds, upto);
        assert forall|i: int| 0 <= i < upto && is_boundary(#[trigger] kinds[i]) implies now.contains(
            i,
        ) by {
            if i < upto - 1 {
                let k = choose|k: int| 0 <= k < before.len() && before[k] == i;
                assert(now[k] == i);
            } else {
                assert(now[now.len() - 1] == i);
            }
        }
    }
}

/// All lines of the blocks, one block after the other.
pub open spec fn all_lines(blocks: Seq<BlockView>) -> Seq<Seq<char>>
    decreases blocks.len(),
{
    if blocks.len() == 0 {
        Seq::empty()
    } else {
        all_lines(blocks.drop_last()) + blocks.last().lines
    }
}

/// All positions of the spans, one span after the other.
pub open spec fn all_picks(spans: Seq<Span>) -> Seq<int>
    decreases spans.len(),
{
    if spans.len() == 0 {
        Seq::empty()
    } else {
        all_picks(spans.drop_last()) + spans.last().picks
    }
}

/// Whether the positions grow strictly from each to the next.
pub open spec fn increasing(at: Seq<int>) -> bool {
    forall|a: int, b: int| 0 <= a < b < at.len() ==> at[a] < at[b]
}

/// Whether `sub` is what `full` holds at the positions `at`, which grow
/// strictly.
pub open spec fn picked_from(sub: Seq<Seq<char>>, full: Seq<Seq<char>>, at: Seq<int>) -> bool {
    &&& at.len() == sub.len()
    &&& increasing(at)
    &&& forall|k: int| 0 <= k < at.len() ==> 0 <= #[trigger] at[k] < full.len() && sub[k] == full[at[k]]
}

/// Whether `sub` is `full` with some of its elements left out, the others
/// in their order.
pub open spec fn is_subsequence(sub: Seq<Seq<char>>, full: Seq<Seq<char>>) -> bool {
    exists|at: Seq<int>| picked_from(sub, full, at)
}

/// The lines of the blocks, taken block after block, are the input lines
/// with some left out, in input order: no line is in two blocks, and none
/// changes place.
pub proof fn lemma_blocks_are_subsequence(lines: Seq<Seq<char>>, kinds: Seq<Kind>)
    requires
        lines.len() == kinds.len(),
    ensures
        is_subsequence(all_lines(segment_spec(lines, kinds)), lines),
{
    let n = kinds.len() as int;
    let at = all_picks(spans(kinds, n));
    lemma_picks(kinds, n);
    lemma_all_lines(lines, spans(kinds, n));
    assert(picked_from(all_lines(segment_spec(lines, kinds)), lines, at));
}

/// No block is without lines, and none is without a name.
pub proof fn lemma_no_block_is_empty(lines: Seq<Seq<char>>, kinds: Seq<Kind>)
    ensures
        forall|k: int|
            0 <= k < segment_spec(lines, kinds).len() ==> {
                &&& (#[trigger] segment_spec(lines, kinds)[k]).lines.len() > 0
                &&& segment_spec(lines, kinds)[k].name.len() > 0
            },
{
    lemma_picks(kinds, kinds.len() as int);
    lemma_names(kinds, kinds.len() as int);
}

/// The boundary at or in front of `j` that is nearest to it, or -1 where
/// there is none.
pub open spec fn opener(kinds: Seq<Kind>, j: int) -> int
    decreases j + 1,
{
    if j < 0 {
        -1
    } else if is_boundary(kinds[j]) {
        j
    } else {
        opener(kinds, j - 1)
    }
}

/// Whether line `j` is in a block: it is a boundary, or the CREATE line
/// behind it takes it, or the nearest boundary in front of it is a CREATE
/// line and it is not blank.
pub open spec fn retained(kinds: Seq<Kind>, j: int) -> bool {
    ||| is_boundary(kinds[j])
    ||| reclaimed(kinds, j)
    ||| (opener(kinds, j) >= 0 && kinds[opener(kinds, j)] is Create && !(kinds[j] is Blank))
}

/// The positions of the lines that are in a block, in increasing order.
pub open spec fn retained_positions(kinds: Seq<Kind>) -> Seq<int> {
    all_picks(spans(kinds, kinds.len() as int))
}

/// The blocks hold, in input order, exactly the lines that are retained:
/// what is left out are the lines in front of the first boundary and behind
/// an ALTER line, and the blank lines behind a CREATE line, but never a
/// GRANT REFERENCES line directly in front of a CREATE line.
pub proof fn lemma_blocks_hold_retained(lines: Seq<Seq<char>>, kinds: Seq<Kind>)
    requires
        lines.len() == kinds.len(),
    ensures
        picked_from(all_lines(segment_spec(lines, kinds)), lines, retained_positions(kinds)),
        forall|j: int|
            0 <= j < kinds.len() ==> (retained_positions(kinds).contains(j) <==> retained(kinds, j)),
{
    let n = kinds.len() as int;
    lemma_picks(kinds, n);
    lemma_all_lines(lines, spans(kinds, n));
    lemma_taken(kinds, n);
    assert forall|j: int| 0 <= j < n implies (retained_positions(kinds).contains(j) <==> retained(
        kinds,
        j,
    )) by {
        assert(retained_positions(kinds).contains(j) <==> taken(kinds, j, n));
    }
}

/// The positions behind a CREATE line that its block keeps grow strictly,
/// lie in the region, and are positions of kept lines.
proof fn lemma_body(kinds: Seq<Kind>, from: int, to: int)
    requires
        0 <= from,
        to <= kinds.len(),
    ensures
        increasing(body(kinds, from, to)),
        forall|k: int|
            0 <= k < body(kinds, from, to).len() ==> {
                &&& from <= #[trigger] body(kinds, from, to)[k] < to
                &&& kept(kinds, body(kinds, from, to)[k])
            },
    decreases to - from,
{
    if to > from {
        lemma_body(kinds, from, to - 1);
    }
}

/// What holds of the positions that the blocks opened among the first
/// `upto` lines take: they grow strictly, they lie in front of the next
/// boundary, and a GRANT REFERENCES line directly in front of a CREATE line
/// is among them only once that CREATE line has opened its block.
proof fn lemma_picks(kinds: Seq<Kind>, upto: int)
    requires
        0 <= upto <= kinds.len(),
    ensures
        increasing(all_picks(spans(kinds, upto))),
        forall|k: int|
            0 <= k < all_picks(spans(kinds, upto)).len() ==> {
                let p = #[trigger] all_picks(spans(kinds, upto))[k];
                &&& 0 <= p < region_end(kinds, upto)
                &&& (!reclaimed(kinds, p) || p + 1 < upto)
            },
        forall|k: int|
            0 <= k < spans(kinds, upto).len() ==> (#[trigger] spans(kinds, upto)[k]).picks.len() > 0,
    decreases upto,
{
    if upto > 0 {
        let i = upto - 1;
        lemma_picks(kinds, i);
        lemma_region_end(kinds, upto);
        let before = spans(kinds, i);
        let old_picks = all_picks(before);
        if is_boundary(kinds[i]) {
            let sp = span_at(kinds, i);
            let now = spans(kinds, upto);
            assert(now.drop_last() == before);
            assert(all_picks(now) == old_picks + sp.picks);
            assert(region_end(kinds, i) == i);
            let e = region_end(kinds, upto);
            lemma_body(kinds, upto, e);
            assert(increasing(sp.picks) && sp.picks.len() > 0 && forall|k: int|
                0 <= k < sp.picks.len() ==> {
                    let p = #[trigger] sp.picks[k];
                    &&& i - 1 <= p < e
                    &&& (p == i - 1 ==> reclaimed(kinds, p))
                    &&& (p >= i ==> !reclaimed(kinds, p))
                }) by {
                match kinds[i] {
                    Kind::Create(_) => {
                        let h = head(kinds, i);
                        let b = body(kinds, upto, e);
                        assert forall|k: int| 0 <= k < sp.picks.len() implies {
                            let p = #[trigger] sp.picks[k];
                            &&& i - 1 <= p < e
                            &&& (p == i - 1 ==> reclaimed(kinds, p))
                            &&& (p >= i ==> !reclaimed(kinds, p))
                        } by {
                            if k >= h.len() {
                                assert(sp.picks[k] == b[k - h.len()]);
                            }
                        }
                        assert forall|x: int, y: int| 0 <= x < y < sp.picks.len() implies sp.picks[x]
                            < sp.picks[y] by {
                            if x >= h.len() {
                                assert(sp.picks[x] == b[x - h.len()]);
                            }
                            if y >= h.len() {
                                assert(sp.picks[y] == b[y - h.len()]);
                            }
                        }
                    },
                    _ => {},
                }
            }
            assert forall|x: int, y: int| 0 <= x < y < all_picks(now).len() implies all_picks(now)[x]
                < all_picks(now)[y] by {
                if x < old_picks.len() {
                    let p = old_picks[x];
                    assert(all_picks(now)[x] == p);
                    if y >= old_picks.len() {
                        let q = sp.picks[y - old_picks.len()];
                        assert(all_picks(now)[y] == q);
                    }
                } else {
                    assert(all_picks(now)[x] == sp.picks[x - old_picks.len()]);
                    assert(all_picks(now)[y] == sp.picks[y - old_picks.len()]);
                }
            }
            assert forall|k: int| 0 <= k < all_picks(now).len() implies {
                let p = #[trigger] all_picks(now)[k];
                &&& 0 <= p < region_end(kinds, upto)
                &&& (!reclaimed(kinds, p) || p + 1 < upto)
            } by {
                if k < old_picks.len() {
                    assert(all_picks(now)[k] == old_picks[k]);
                } else {
                    assert(all_picks(now)[k] == sp.picks[k - old_picks.len()]);
                }
            }
            assert forall|k: int| 0 <= k < now.len() implies (#[trigger] now[k]).picks.len() > 0 by {
                if k < before.len() {
                    assert(now[k] == before[k]);
                }
            }
        }
    }
}

/// The lines of the blocks, one block after the other, are the input
/// lines at the positions of the spans, one span after the other.
proof fn lemma_all_lines(lines: Seq<Seq<char>>, sps: Seq<Span>)
    ensures
        all_lines(sps.map_values(|sp: Span| block_of(lines, sp))) == all_picks(sps).map_values(
            |j: int| lines[j],
        ),
    decreases sps.len(),
{
    let to_block = |sp: Span| block_of(lines, sp);
    let pick = |j: int| lines[j];
    if sps.len() > 0 {
        lemma_all_lines(lines, sps.drop_last());
        assert(sps.map_values(to_block).drop_last() =~= sps.drop_last().map_values(to_block));
        assert(all_picks(sps).map_values(pick) =~= all_picks(sps.drop_last()).map_values(pick)
            + sps.last().picks.map_values(pick));
    } else {
        assert(all_picks(sps).map_values(pick) =~= Seq::<Seq<char>>::empty());
    }
}

/// Every block opened among the first `upto` lines has a name that starts
/// with one of the two prefixes.
proof fn lemma_names(kinds: Seq<Kind>, upto: int)
    requires
        0 <= upto <= kinds.len(),
    ensures
        forall|k: int|
            0 <= k < spans(kinds, upto).len() ==> (#[trigger] spans(kinds, upto)[k]).name.len() >= 6,
    decreases upto,
{
    reveal_strlit("ALTER_");
    reveal_strlit("CREATE_");
    if upto > 0 {
        lemma_names(kinds, upto - 1);
        let before = spans(kinds, upto - 1);
        let now = spans(kinds, upto);
        assert forall|k: int| 0 <= k < now.len() implies (#[trigger] now[k]).name.len() >= 6 by {
            if k < before.len() {
                assert(now[k] == before[k]);
            }
        }
    }
}

/// Behind a boundary and up to the next one, the nearest boundary in front
/// is that boundary.
proof fn lemma_opener(kinds: Seq<Kind>, i: int, j: int)
    requires
        0 <= i <= j < kinds.len(),
        is_boundary(kinds[i]),
        forall|t: int| i < t <= j ==> !is_boundary(#[trigger] kinds[t]),
    ensures
        opener(kinds, j) == i,
    decreases j - i,
{
    if i < j {
        lemma_opener(kinds, i, j - 1);
    }
}

/// Where no boundary stands at or in front of a line, none is nearest.
proof fn lemma_no_opener(kinds: Seq<Kind>, j: int)
    requires
        j < kinds.len(),
        forall|t: int| 0 <= t <= j ==> !is_boundary(#[trigger] kinds[t]),
    ensures
        opener(kinds, j) == -1,
    decreases j + 1,
{
    if j >= 0 {
        lemma_no_opener(kinds, j - 1);
    }
}

/// The positions behind a CREATE line that its block keeps are the
/// positions of the kept lines of the region.
proof fn lemma_body_holds(kinds: Seq<Kind>, from: int, to: int)
    requires
        0 <= from,
        to <= kinds.len(),
    ensures
        forall|j: int|
            #![trigger body(kinds, from, to).contains(j)]
            #![trigger kept(kinds, j)]
            body(kinds, from, to).contains(j) <==> from <= j < to && kept(kinds, j),
    decreases to - from,
{
    if to > from {
        lemma_body_holds(kinds, from, to - 1);
        let before = body(kinds, from, to - 1);
        let now = body(kinds, from, to);
        assert forall|j: int| now.contains(j) implies from <= j < to && kept(kinds, j) by {
            let k = choose|k: int| 0 <= k < now.len() && now[k] == j;
            if k < before.len() {
                assert(before[k] == j);
                assert(before.contains(j));
            }
        }
        assert forall|j: int| from <= j < to && kept(kinds, j) implies now.contains(j) by {
            if j < to - 1 {
                assert(before.contains(j));
                let k = choose|k: int| 0 <= k < before.len() && before[k] == j;
                assert(now[k] == j);
            } else {
                assert(now[now.len() - 1] == j);
            }
        }
    } else {
        assert forall|j: int| !body(kinds, from, to).contains(j) by {}
    }
}

/// Whether line `j` is in one of the blocks opened among the first `upto`
/// lines.
spec fn taken(kinds: Seq<Kind>, j: int, upto: int) -> bool {
    &&& 0 <= j < region_end(kinds, upto)
    &&& {
        ||| is_boundary(kinds[j])
        ||| (reclaimed(kinds, j) && j + 1 < upto)
        ||| (!reclaimed(kinds, j) && opener(kinds, j) >= 0 && kinds[opener(kinds, j)] is Create && !(
        kinds[j] is Blank))
    }
}

/// The blocks opened among the first `upto` lines hold exactly the lines
/// that are taken.
proof fn lemma_taken(kinds: Seq<Kind>, upto: int)
    requires
        0 <= upto <= kinds.len(),
    ensures
        forall|j: int|
            #![trigger all_picks(spans(kinds, upto)).contains(j)]
            #![trigger taken(kinds, j, upto)]
            all_picks(spans(kinds, upto)).contains(j) <==> taken(kinds, j, upto),
    decreases upto,
{
    lemma_region_end(kinds, upto);
    if upto > 0 {
        let i = upto - 1;
        lemma_taken(kinds, i);
        let before = all_picks(spans(kinds, i));
        let now = all_picks(spans(kinds, upto));
        if is_boundary(kinds[i]) {
            let sp = span_at(kinds, i);
            let e = region_end(kinds, upto);
            assert(spans(kinds, upto).drop_last() == spans(kinds, i));
            assert(now == before + sp.picks);
            assert(region_end(kinds, i) == i);
            lemma_body_holds(kinds, upto, e);
            let b = body(kinds, upto, e);
            assert forall|j: int| sp.picks.contains(j) <==> i - 1 <= j < e && taken(kinds, j, upto)
                && !taken(kinds, j, i) by {
                if i < j < e {
                    lemma_opener(kinds, i, j);
                }
                match kinds[i] {
                    Kind::Create(_) => {
                        let h = head(kinds, i);
                        if sp.picks.contains(j) {
                            let k = choose|k: int| 0 <= k < sp.picks.len() && sp.picks[k] == j;
                            if k >= h.len() {
                                assert(b[k - h.len()] == j);
                                assert(b.contains(j));
                            }
                        }
                        if i - 1 <= j < e && taken(kinds, j, upto) && !taken(kinds, j, i) {
                            if j > i {
                                assert(b.contains(j));
                                let k = choose|k: int| 0 <= k < b.len() && b[k] == j;
                                assert(sp.picks[h.len() + k] == j);
                            } else if j == i {
                                assert(sp.picks[h.len() - 1] == j);
                            } else {
                                assert(sp.picks[0] == j);
                            }
                        }
                    },
                    _ => {
                        if i - 1 <= j < e && taken(kinds, j, upto) && !taken(kinds, j, i) {
                            assert(sp.picks[0] == j);
                        }
                    },
                }
            }
            assert forall|j: int| now.contains(j) <==> taken(kinds, j, upto) by {
                if now.contains(j) {
                    let k = choose|k: int| 0 <= k < now.len() && now[k] == j;
                    if k < before.len() {
                        assert(before[k] == j);
                        assert(before.contains(j));
                    } else {
                        assert(sp.picks[k - before.len()] == j);
                        assert(sp.picks.contains(j));
                    }
                }
                if taken(kinds, j, upto) {
                    if taken(kinds, j, i) {
                        assert(before.contains(j));
                        let k = choose|k: int| 0 <= k < before.len() && before[k] == j;
                        assert(now[k] == j);
                    } else {
                        assert(sp.picks.contains(j));
                        let k = choose|k: int| 0 <= k < sp.picks.len() && sp.picks[k] == j;
                        assert(now[before.len() + k] == j);
                    }
                }
            }
        } else {
            assert forall|j: int| taken(kinds, j, upto) <==> taken(kinds, j, i) by {}
        }
    } else {
        assert forall|j: int| !taken(kinds, j, upto) by {
            if 0 <= j < region_end(kinds, upto) {
                lemma_no_opener(kinds, j);
            }
        }
    }
}

} // verus!
