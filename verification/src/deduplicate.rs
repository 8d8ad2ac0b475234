//! Line-level deduplication: each distinct line once, in the order in
//! which the lines are first seen.

use vstd::prelude::*;

verus! {

/// The lines with every repetition of an earlier line left out.
pub open spec fn dedup_spec(lines: Seq<Seq<char>>) -> Seq<Seq<char>>
    decreases lines.len(),
{
    if lines.len() == 0 {
        Seq::empty()
    } else if lines.drop_last().contains(lines.last()) {
        dedup_spec(lines.drop_last())
    } else {
        dedup_spec(lines.drop_last()).push(lines.last())
    }
}

/// The deduplicated lines hold exactly the lines of the input, each one
/// once.
pub proof fn lemma_dedup(lines: Seq<Seq<char>>)
    ensures
        forall|x: Seq<char>| dedup_spec(lines).contains(x) <==> lines.contains(x),
        dedup_spec(lines).no_duplicates(),
        dedup_spec(lines).len() <= lines.len(),
    decreases lines.len(),
{
    if lines.len() > 0 {
        let front = lines.drop_last();
        let last = lines.last();
        lemma_dedup(front);
        let out = dedup_spec(lines);
        assert forall|x: Seq<char>| out.contains(x) <==> lines.contains(x) by {
            if lines.contains(x) {
                let i = choose|i: int| 0 <= i < lines.len() && lines[i] == x;
                if i < front.len() {
                    assert(front[i] == x);
                    assert(front.contains(x));
                    let j = choose|j: int| 0 <= j < dedup_spec(front).len() && dedup_spec(front)[j] == x;
                    assert(out[j] == x);
                } else if !front.contains(last) {
                    assert(out[out.len() - 1] == x);
                }
            }
            if out.contains(x) {
                let j = choose|j: int| 0 <= j < out.len() && out[j] == x;
                if j < dedup_spec(front).len() {
                    assert(dedup_spec(front)[j] == x);
                    assert(front.contains(x));
                    let i = choose|i: int| 0 <= i < front.len() && front[i] == x;
                    assert(lines[i] == x);
                } else {
                    assert(lines[lines.len() - 1] == x);
                }
            }
        }
        if !front.contains(last) {
            assert forall|a: int, b: int| 0 <= a < out.len() && 0 <= b < out.len() && a != b implies out[a]
                != out[b] by {
                if a == out.len() - 1 {
                    assert(dedup_spec(front).contains(out[b]));
                } else if b == out.len() - 1 {
                    assert(dedup_spec(front).contains(out[a]));
                }
            }
        }
    }
}

/// Whether `line` is among `seen`.
fn is_among(seen: &Vec<String>, line: &String) -> (b: bool)
    ensures
        b == seen.deep_view().contains(line@),
{
    let mut i: usize = 0;
    while i < seen.len()
        invariant
            i <= seen.len(),
            forall|t: int| 0 <= t < i ==> seen.deep_view()[t] != line@,
        decreases seen.len() - i,
    {
        if seen[i] == *line {
            assert(seen.deep_view()[i as int] == line@);
            return true;
        }
        i += 1;
    }
    false
}

/// The lines with every repetition of an earlier line left out: each
/// distinct line once, in the order in which the lines are first seen.
pub fn deduplicate_lines(lines: &Vec<String>) -> (out: Vec<String>)
    ensures
        out.deep_view() == dedup_spec(lines.deep_view()),
        out.deep_view().no_duplicates(),
        forall|x: Seq<char>| out.deep_view().contains(x) <==> lines.deep_view().contains(x),
{
    let ghost all = lines.deep_view();
    let mut out: Vec<String> = Vec::new();
    let mut i: usize = 0;
    while i < lines.len()
        invariant
            i <= lines.len(),
            all == lines.deep_view(),
            out.deep_view() == dedup_spec(all.take(i as int)),
        decreases lines.len() - i,
    {
        proof {
            lemma_dedup(all.take(i as int));
            assert(all.take(i + 1).drop_last() =~= all.take(i as int));
        }
        if !is_among(&out, &lines[i]) {
            out.push(lines[i].clone());
        }
        i += 1;
    }
    proof {
        assert(all.take(i as int) =~= all);
        lemma_dedup(all);
    }
    out
}

} // verus!
