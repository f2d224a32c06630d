//! The process filter: a process is shown when its name contains the
//! filter text.

use vstd::prelude::*;
use crate::system_information::ProcessInformation;
use crate::text::chars_of;

verus! {

/// `pattern` occurs in `text` starting at position `i`.
pub open spec fn occurs_at(text: Seq<char>, pattern: Seq<char>, i: int) -> bool {
    &&& 0 <= i
    &&& i + pattern.len() <= text.len()
    &&& text.subrange(i, i + pattern.len()) == pattern
}

/// `text` contains `pattern` as a run of consecutive characters (the empty
/// pattern is contained in every text).
pub open spec fn contains_text(text: Seq<char>, pattern: Seq<char>) -> bool {
    exists|i: int| occurs_at(text, pattern, i)
}

/// The positions, in order, of the processes of `ps` whose name contains
/// `filter`: the rows of the process table.
pub open spec fn visible_indices(ps: Seq<ProcessInformation>, filter: Seq<char>) -> Seq<int>
    decreases ps.len(),
{
    if ps.len() == 0 {
        Seq::empty()
    } else {
        let rest = visible_indices(ps.drop_last(), filter);
        if contains_text(ps.last().name@, filter) { rest.push(ps.len() - 1) } else { rest }
    }
}

/// Every row of the table is a position in the list.
pub proof fn lemma_visible_in_range(ps: Seq<ProcessInformation>, filter: Seq<char>, r: int)
    requires
        0 <= r < visible_indices(ps, filter).len(),
    ensures
        0 <= visible_indices(ps, filter)[r] < ps.len(),
    decreases ps.len(),
{
    let rest = visible_indices(ps.drop_last(), filter);
    if r < rest.len() {
        lemma_visible_in_range(ps.drop_last(), filter, r);
    }
}

/// Whether `pattern` occurs in `text` at position `i`.
fn occurs_at_exec(text: &Vec<char>, pattern: &Vec<char>, i: usize) -> (r: bool)
    requires
        i + pattern.len() <= text.len(),
    ensures
        r == occurs_at(text@, pattern@, i as int),
{
    let mut j: usize = 0;
    while j < pattern.len()
        invariant
            i + pattern.len() <= text.len(),
            j <= pattern.len(),
            forall|a: int| 0 <= a < j ==> text@[i + a] == pattern@[a],
        decreases pattern.len() - j,
    {
        if text[i + j] != pattern[j] {
            assert(text@.subrange(i as int, i + pattern.len())[j as int] != pattern@[j as int]);
            return false;
        }
        j = j + 1;
    }
    assert(text@.subrange(i as int, i + pattern.len()) =~= pattern@);
    true
}

/// Whether the name `name` contains the filter text `filter`.
pub fn matches_filter(name: &str, filter: &Vec<char>) -> (r: bool)
    ensures
        r == contains_text(name@, filter@),
{
    let text = chars_of(name);
    if filter.len() > text.len() {
        return false;
    }
    let last = text.len() - filter.len();
    let mut i: usize = 0;
    while i < last
        invariant
            last == text.len() - filter.len(),
            filter.len() <= text.len(),
            text@ == name@,
            i <= last,
            forall|a: int| 0 <= a < i ==> !occurs_at(text@, filter@, a),
        decreases last - i,
    {
        if occurs_at_exec(&text, filter, i) {
            return true;
        }
        i = i + 1;
    }
    occurs_at_exec(&text, filter, last)
}

/// The positions, in order, of the processes whose name contains `filter`.
pub fn visible_processes(processes: &Vec<ProcessInformation>, filter: &Vec<char>) -> (rows: Vec<usize>)
    ensures
        rows@.len() == visible_indices(processes@, filter@).len(),
        forall|r: int| 0 <= r < rows@.len() ==> rows@[r] as int == #[trigger] visible_indices(processes@, filter@)[r],
{
    let mut rows: Vec<usize> = Vec::new();
    let mut i: usize = 0;
    while i < processes.len()
        invariant
            i <= processes.len(),
            rows@.len() == visible_indices(processes@.take(i as int), filter@).len(),
            forall|r: int| 0 <= r < rows@.len() ==>
                rows@[r] as int == #[trigger] visible_indices(processes@.take(i as int), filter@)[r],
        decreases processes.len() - i,
    {
        let ghost before = rows@;
        assert(processes@.take(i + 1).drop_last() == processes@.take(i as int));
        assert(processes@.take(i + 1).last() == processes@[i as int]);
        if matches_filter(processes[i].name.as_str(), filter) {
            rows.push(i);
        }
        i = i + 1;
    }
    assert(processes@.take(processes.len() as int) == processes@);
    rows
}

/// With an empty filter, the table shows every process, in list order.
pub proof fn lemma_empty_filter_shows_all(ps: Seq<ProcessInformation>)
    ensures
        visible_indices(ps, Seq::empty()) == Seq::new(ps.len(), |i: int| i),
    decreases ps.len(),
{
    if ps.len() > 0 {
        lemma_empty_filter_shows_all(ps.drop_last());
        assert(occurs_at(ps.last().name@, Seq::empty(), 0)) by {
            assert(ps.last().name@.subrange(0, 0) =~= Seq::<char>::empty());
        }
        assert(Seq::new(ps.drop_last().len(), |i: int| i).push(ps.len() - 1) =~= Seq::new(ps.len(), |i: int| i));
    } else {
        assert(Seq::<int>::empty() =~= Seq::new(ps.len(), |i: int| i));
    }
}

/// A text contains every run of its own characters: `pattern` is found in
/// `before + pattern + after` whatever stands around it (at the start, in
/// the middle, at the end, or alone).
pub proof fn lemma_contains_own_parts(before: Seq<char>, pattern: Seq<char>, after: Seq<char>)
    ensures
        contains_text(before + pattern + after, pattern),
{
    let text = before + pattern + after;
    assert(text.subrange(before.len() as int, (before.len() + pattern.len()) as int) =~= pattern);
    assert(occurs_at(text, pattern, before.len() as int));
}

/// The table shows exactly the processes whose name contains the filter:
/// a position is a row if and only if it is a position of the list whose
/// process name contains the filter; rows come in list order, each once.
pub proof fn lemma_visible_exactly_matching(ps: Seq<ProcessInformation>, filter: Seq<char>)
    ensures
        forall|i: int| #![trigger visible_indices(ps, filter).contains(i)]
            visible_indices(ps, filter).contains(i) <==> (0 <= i < ps.len() && contains_text(ps[i].name@, filter)),
        forall|a: int, b: int| 0 <= a < b < visible_indices(ps, filter).len() ==>
            #[trigger] visible_indices(ps, filter)[a] < #[trigger] visible_indices(ps, filter)[b],
    decreases ps.len(),
{
    if ps.len() > 0 {
        let init = ps.drop_last();
        lemma_visible_exactly_matching(init, filter);
        let rest = visible_indices(init, filter);
        assert forall|r: int| 0 <= r < rest.len() implies rest[r] < init.len() by {
            lemma_visible_in_range(init, filter, r);
        }
        assert forall|i: int| #![trigger visible_indices(ps, filter).contains(i)]
            visible_indices(ps, filter).contains(i) <==> (0 <= i < ps.len() && contains_text(ps[i].name@, filter)) by {
            if 0 <= i < init.len() {
                assert(init[i] == ps[i]);
            }
            if rest.contains(i) {
                let r = choose|r: int| 0 <= r < rest.len() && rest[r] == i;
                assert(rest[r] < init.len());
            }
            if contains_text(ps.last().name@, filter) {
                let vs = rest.push(ps.len() - 1);
                if vs.contains(i) {
                    let r = choose|r: int| 0 <= r < vs.len() && vs[r] == i;
                    if r < rest.len() {
                        assert(rest.contains(i));
                    }
                }
                if rest.contains(i) {
                    let r = choose|r: int| 0 <= r < rest.len() && rest[r] == i;
                    assert(vs[r] == i);
                }
                if i == ps.len() - 1 {
                    assert(vs[rest.len() as int] == i);
                }
            }
        }
    }
}

} // verus!
