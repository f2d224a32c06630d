//! The order of the process table.
//!
//! The table lists processes from the heaviest to the lightest, by CPU usage
//! or by memory. CPU usages are 32-bit floats and are compared in the IEEE
//! total order; memory is compared as an unsigned integer. Processes that
//! compare equal keep the order in which they came (the sort is stable).

use vstd::prelude::*;
use crate::system_information::ProcessInformation;

verus! {

/// The signed integer whose order is the IEEE-754 total order of the 32-bit
/// float with bits `bits`: negative values have their magnitude bits flipped.
pub open spec fn cpu_order_key(bits: u32) -> i32 {
    let left = bits as i32;
    left ^ ((((left >> 31u32) as u32) >> 1u32) as i32)
}

/// The key by which a process is ordered: its CPU usage in the total order
/// of floats, or its memory.
pub open spec fn sort_key(p: ProcessInformation, by_cpu: bool) -> int {
    if by_cpu { cpu_order_key(p.cpu_usage_bits) as int } else { p.memory_usage as int }
}

/// The list is ordered from the largest key to the smallest.
pub open spec fn sorted_desc(s: Seq<ProcessInformation>, by_cpu: bool) -> bool {
    forall|a: int, b: int|
        0 <= a < b < s.len() ==> #[trigger] sort_key(s[a], by_cpu) >= #[trigger] sort_key(s[b], by_cpu)
}

/// The processes of `s` whose key is `k`, in their order in `s`.
pub open spec fn with_key(s: Seq<ProcessInformation>, by_cpu: bool, k: int) -> Seq<ProcessInformation>
    decreases s.len(),
{
    if s.len() == 0 {
        s
    } else {
        let rest = with_key(s.drop_last(), by_cpu, k);
        if sort_key(s.last(), by_cpu) == k { rest.push(s.last()) } else { rest }
    }
}

/// `sorted` is `unsorted` ordered from the largest key to the smallest, the
/// processes of equal key in the order in which they came.
pub open spec fn is_stable_sort_of(
    sorted: Seq<ProcessInformation>,
    unsorted: Seq<ProcessInformation>,
    by_cpu: bool,
) -> bool {
    &&& sorted_desc(sorted, by_cpu)
    &&& forall|k: int| #[trigger] with_key(sorted, by_cpu, k) == with_key(unsorted, by_cpu, k)
}

/// The ordering key of the CPU usage with bits `bits`.
pub fn cpu_key(bits: u32) -> (k: i32)
    ensures
        k == cpu_order_key(bits),
{
    let left = bits as i32;
    left ^ ((((left >> 31u32) as u32) >> 1u32) as i32)
}

/// For a usage whose sign bit is clear (zero or positive, as usages are),
/// the key is the bit pattern itself: larger usages have larger keys.
pub proof fn lemma_cpu_key_of_non_negative(bits: u32)
    requires
        bits < 0x8000_0000,
    ensures
        cpu_order_key(bits) == bits as int,
{
    assert(((bits as i32) ^ (((((bits as i32) >> 31u32) as u32) >> 1u32) as i32)) == bits as i32) by (bit_vector)
        requires
            bits < 0x8000_0000u32,
    ;
}

/// The key by which `p` is ordered.
pub fn key_of(p: &ProcessInformation, by_cpu: bool) -> (k: i128)
    ensures
        k == sort_key(*p, by_cpu),
{
    if by_cpu {
        cpu_key(p.cpu_usage_bits) as i128
    } else {
        p.memory_usage as i128
    }
}

/// Picking out one key class distributes over concatenation.
pub proof fn lemma_with_key_add(a: Seq<ProcessInformation>, b: Seq<ProcessInformation>, by_cpu: bool, k: int)
    ensures
        with_key(a + b, by_cpu, k) == with_key(a, by_cpu, k) + with_key(b, by_cpu, k),
    decreases b.len(),
{
    if b.len() == 0 {
        assert(a + b == a);
        assert(with_key(b, by_cpu, k) == b);
        assert(with_key(a, by_cpu, k) + b == with_key(a, by_cpu, k));
    } else {
        lemma_with_key_add(a, b.drop_last(), by_cpu, k);
        assert((a + b).drop_last() == a + b.drop_last());
        assert((a + b).last() == b.last());
    }
}

/// A list with no process of key `k` has an empty class `k`.
pub proof fn lemma_with_key_none(s: Seq<ProcessInformation>, by_cpu: bool, k: int)
    requires
        forall|i: int| 0 <= i < s.len() ==> sort_key(#[trigger] s[i], by_cpu) != k,
    ensures
        with_key(s, by_cpu, k) == Seq::<ProcessInformation>::empty(),
    decreases s.len(),
{
    if s.len() > 0 {
        lemma_with_key_none(s.drop_last(), by_cpu, k);
    }
}

/// Inserting `x` where the keys fall below its own leaves every key class as
/// if `x` were appended.
proof fn lemma_insert_classes(s: Seq<ProcessInformation>, j: int, x: ProcessInformation, by_cpu: bool, k: int)
    requires
        0 <= j <= s.len(),
        forall|a: int| j <= a < s.len() ==> sort_key(#[trigger] s[a], by_cpu) < sort_key(x, by_cpu),
    ensures
        with_key(s.insert(j, x), by_cpu, k) == with_key(s.push(x), by_cpu, k),
{
    let front = s.take(j);
    let back = s.skip(j);
    let one = seq![x];
    assert(s.insert(j, x) == front + one + back);
    assert(s == front + back);
    assert(s.push(x) == front + back + one);
    lemma_with_key_add(front + one, back, by_cpu, k);
    lemma_with_key_add(front, one, by_cpu, k);
    lemma_with_key_add(front + back, one, by_cpu, k);
    lemma_with_key_add(front, back, by_cpu, k);
    assert(one.drop_last() == Seq::<ProcessInformation>::empty());
    assert(with_key(one.drop_last(), by_cpu, k) == Seq::<ProcessInformation>::empty());
    assert(one.last() == x);
    if sort_key(x, by_cpu) == k {
        lemma_with_key_none(back, by_cpu, k);
        assert(Seq::<ProcessInformation>::empty().push(x) == one);
        assert(with_key(one, by_cpu, k) == one);
    } else {
        assert(with_key(one, by_cpu, k) == Seq::<ProcessInformation>::empty());
    }
}

/// Orders `processes` from the largest key to the smallest, keeping
/// processes of equal key in their order.
pub fn sort_processes(processes: &mut Vec<ProcessInformation>, by_cpu: bool)
    ensures
        is_stable_sort_of(final(processes)@, old(processes)@, by_cpu),
{
    let ghost unsorted = processes@;
    let n = processes.len();
    let mut i: usize = 0;
    while i < n
        invariant
            n == processes.len(),
            n == unsorted.len(),
            i <= n,
            sorted_desc(processes@.take(i as int), by_cpu),
            processes@.skip(i as int) == unsorted.skip(i as int),
            forall|k: int| #[trigger] with_key(processes@.take(i as int), by_cpu, k)
                == with_key(unsorted.take(i as int), by_cpu, k),
        decreases n - i,
    {
        let ghost before = processes@;
        let ghost prefix = before.take(i as int);
        assert(before[i as int] == unsorted[i as int]) by {
            assert(before.skip(i as int)[0] == unsorted.skip(i as int)[0]);
        }
        let x = processes.remove(i);
        let kx = key_of(&x, by_cpu);
        let mut j: usize = 0;
        while j < i && key_of(&processes[j], by_cpu) >= kx
            invariant
                i < n,
                before.len() == n,
                prefix == before.take(i as int),
                processes.len() == n - 1,
                processes@ == before.remove(i as int),
                j <= i,
                forall|a: int| 0 <= a < j ==> sort_key(#[trigger] prefix[a], by_cpu) >= kx,
            decreases i - j,
        {
            assert(before.remove(i as int)[j as int] == before[j as int]);
            assert(processes@[j as int] == prefix[j as int]);
            j = j + 1;
        }
        assert(forall|a: int| 0 <= a < i ==> prefix[a] == processes@[a]);
        assert forall|a: int| j <= a < i implies sort_key(#[trigger] prefix[a], by_cpu) < kx by {
            assert(sort_key(prefix[j as int], by_cpu) >= sort_key(prefix[a], by_cpu));
        }
        processes.insert(j, x);
        proof {
            let np = processes@.take(i + 1);
            assert(np == prefix.insert(j as int, x));
            assert(unsorted.take(i + 1) == unsorted.take(i as int).push(x));
            assert forall|k: int| #[trigger] with_key(np, by_cpu, k) == with_key(unsorted.take(i + 1), by_cpu, k) by {
                lemma_insert_classes(prefix, j as int, x, by_cpu, k);
                assert(prefix.push(x).drop_last() == prefix);
                assert(prefix.push(x).last() == x);
                assert(with_key(prefix, by_cpu, k) == with_key(unsorted.take(i as int), by_cpu, k));
                assert(unsorted.take(i + 1).drop_last() == unsorted.take(i as int));
                assert(unsorted.take(i + 1).last() == x);
            }
            assert forall|a: int, b: int| 0 <= a < b < np.len() implies
                #[trigger] sort_key(np[a], by_cpu) >= #[trigger] sort_key(np[b], by_cpu) by {
                if b < j {
                    assert(np[a] == prefix[a] && np[b] == prefix[b]);
                } else if b == j {
                    assert(np[a] == prefix[a]);
                } else if a < j {
                    assert(np[a] == prefix[a] && np[b] == prefix[b - 1]);
                } else if a == j {
                    assert(np[b] == prefix[b - 1]);
                } else {
                    assert(np[a] == prefix[a - 1] && np[b] == prefix[b - 1]);
                }
            }
            assert(processes@.skip(i + 1) == unsorted.skip(i + 1)) by {
                assert forall|a: int| 0 <= a < n - (i + 1) implies
                    #[trigger] processes@.skip(i + 1)[a] == unsorted.skip(i + 1)[a] by {
                    assert(before.skip(i as int)[a + 1] == unsorted.skip(i as int)[a + 1]);
                }
            }
        }
        i = i + 1;
    }
    assert(processes@.take(n as int) == processes@);
    assert(unsorted.take(n as int) == unsorted);
}

/// A non-empty key class has a member in the list.
proof fn lemma_with_key_witness(s: Seq<ProcessInformation>, by_cpu: bool, k: int) -> (i: int)
    requires
        with_key(s, by_cpu, k).len() > 0,
    ensures
        0 <= i < s.len(),
        sort_key(s[i], by_cpu) == k,
    decreases s.len(),
{
    if sort_key(s.last(), by_cpu) == k {
        s.len() - 1
    } else {
        let i = lemma_with_key_witness(s.drop_last(), by_cpu, k);
        assert(s.drop_last()[i] == s[i]);
        i
    }
}

/// A list is determined by being ordered by key and by its key classes: two
/// lists ordered from the largest key to the smallest, whose processes of
/// each key come in the same order, are the same list.
pub proof fn lemma_stable_sort_unique(a: Seq<ProcessInformation>, b: Seq<ProcessInformation>, by_cpu: bool)
    requires
        sorted_desc(a, by_cpu),
        sorted_desc(b, by_cpu),
        forall|k: int| #[trigger] with_key(a, by_cpu, k) == with_key(b, by_cpu, k),
    ensures
        a == b,
    decreases a.len() + b.len(),
{
    if a.len() == 0 && b.len() == 0 {
        assert(a =~= b);
    } else if a.len() == 0 {
        let m = sort_key(b.last(), by_cpu);
        assert(with_key(b, by_cpu, m).len() > 0);
        let i = lemma_with_key_witness(a, by_cpu, m);
    } else if b.len() == 0 {
        let m = sort_key(a.last(), by_cpu);
        assert(with_key(a, by_cpu, m).len() > 0);
        let i = lemma_with_key_witness(b, by_cpu, m);
    } else {
        let m = sort_key(a.last(), by_cpu);
        let mb = sort_key(b.last(), by_cpu);
        assert(with_key(a, by_cpu, m).len() > 0);
        assert(with_key(b, by_cpu, mb).len() > 0);
        let ib = lemma_with_key_witness(b, by_cpu, m);
        let ia = lemma_with_key_witness(a, by_cpu, mb);
        if ib < b.len() - 1 {
            assert(sort_key(b[ib], by_cpu) >= sort_key(b[b.len() - 1], by_cpu));
        }
        if ia < a.len() - 1 {
            assert(sort_key(a[ia], by_cpu) >= sort_key(a[a.len() - 1], by_cpu));
        }
        assert(m == mb);
        assert(with_key(a, by_cpu, m) == with_key(a.drop_last(), by_cpu, m).push(a.last()));
        assert(with_key(b, by_cpu, m) == with_key(b.drop_last(), by_cpu, m).push(b.last()));
        assert(with_key(a, by_cpu, m) == with_key(b, by_cpu, m));
        assert(with_key(a, by_cpu, m).last() == a.last());
        assert(with_key(b, by_cpu, m).last() == b.last());
        assert(a.last() == b.last());
        assert forall|k: int| #[trigger] with_key(a.drop_last(), by_cpu, k) == with_key(b.drop_last(), by_cpu, k) by {
            if k == m {
                assert(with_key(a.drop_last(), by_cpu, m) == with_key(a, by_cpu, m).drop_last());
                assert(with_key(b.drop_last(), by_cpu, m) == with_key(b, by_cpu, m).drop_last());
            } else {
                assert(with_key(a, by_cpu, k) == with_key(a.drop_last(), by_cpu, k));
                assert(with_key(b, by_cpu, k) == with_key(b.drop_last(), by_cpu, k));
            }
        }
        assert(sorted_desc(a.drop_last(), by_cpu)) by {
            assert forall|x: int, y: int| 0 <= x < y < a.drop_last().len() implies
                #[trigger] sort_key(a.drop_last()[x], by_cpu) >= #[trigger] sort_key(a.drop_last()[y], by_cpu) by {
                assert(a.drop_last()[x] == a[x] && a.drop_last()[y] == a[y]);
            }
        }
        assert(sorted_desc(b.drop_last(), by_cpu)) by {
            assert forall|x: int, y: int| 0 <= x < y < b.drop_last().len() implies
                #[trigger] sort_key(b.drop_last()[x], by_cpu) >= #[trigger] sort_key(b.drop_last()[y], by_cpu) by {
                assert(b.drop_last()[x] == b[x] && b.drop_last()[y] == b[y]);
            }
        }
        lemma_stable_sort_unique(a.drop_last(), b.drop_last(), by_cpu);
        assert(a == a.drop_last().push(a.last()));
        assert(b == b.drop_last().push(b.last()));
    }
}

/// Sorting a table that is already in order leaves it as it is; in
/// particular, sorting twice by the same key gives what sorting once gave.
pub proof fn lemma_sort_of_sorted_is_identity(
    sorted: Seq<ProcessInformation>,
    unsorted: Seq<ProcessInformation>,
    by_cpu: bool,
)
    requires
        sorted_desc(unsorted, by_cpu),
        is_stable_sort_of(sorted, unsorted, by_cpu),
    ensures
        sorted == unsorted,
{
    lemma_stable_sort_unique(sorted, unsorted, by_cpu);
}

/// A process occurs in a list as often as in its own key class.
proof fn lemma_count_in_class(s: Seq<ProcessInformation>, by_cpu: bool, e: ProcessInformation)
    ensures
        s.to_multiset().count(e) == with_key(s, by_cpu, sort_key(e, by_cpu)).to_multiset().count(e),
    decreases s.len(),
{
    broadcast use vstd::seq_lib::group_to_multiset_ensures;
    if s.len() == 0 {
        assert(with_key(s, by_cpu, sort_key(e, by_cpu)) == s);
    } else {
        let k = sort_key(e, by_cpu);
        lemma_count_in_class(s.drop_last(), by_cpu, e);
        assert(s == s.drop_last().push(s.last()));
        if sort_key(s.last(), by_cpu) != k {
            assert(s.last() != e);
        }
    }
}

/// A stable sort keeps every process, each as many times as it came: the
/// sorted table is a permutation of the unsorted one.
pub proof fn lemma_stable_sort_permutes(
    sorted: Seq<ProcessInformation>,
    unsorted: Seq<ProcessInformation>,
    by_cpu: bool,
)
    requires
        is_stable_sort_of(sorted, unsorted, by_cpu),
    ensures
        sorted.to_multiset() == unsorted.to_multiset(),
{
    assert forall|e: ProcessInformation| sorted.to_multiset().count(e) == unsorted.to_multiset().count(e) by {
        lemma_count_in_class(sorted, by_cpu, e);
        lemma_count_in_class(unsorted, by_cpu, e);
        assert(with_key(sorted, by_cpu, sort_key(e, by_cpu)) == with_key(unsorted, by_cpu, sort_key(e, by_cpu)));
    }
    assert(sorted.to_multiset() =~= unsorted.to_multiset());
}

/// The CPU key orders usages in the IEEE-754 total order of 32-bit floats,
/// read off their bits: among values with the sign bit clear a larger bit
/// pattern is a larger value, among values with it set a larger bit pattern
/// is a smaller value, and every value with the sign bit set comes below
/// every value with it clear. By memory, the key is the memory itself.
pub proof fn lemma_sort_key_is_total_order(p: ProcessInformation, q: ProcessInformation)
    ensures
        p.cpu_usage_bits < 0x8000_0000 && q.cpu_usage_bits < 0x8000_0000 ==>
            (sort_key(p, true) < sort_key(q, true) <==> p.cpu_usage_bits < q.cpu_usage_bits),
        p.cpu_usage_bits >= 0x8000_0000 && q.cpu_usage_bits >= 0x8000_0000 ==>
            (sort_key(p, true) < sort_key(q, true) <==> p.cpu_usage_bits > q.cpu_usage_bits),
        p.cpu_usage_bits >= 0x8000_0000 && q.cpu_usage_bits < 0x8000_0000 ==>
            sort_key(p, true) < sort_key(q, true),
        sort_key(p, true) == sort_key(q, true) <==> p.cpu_usage_bits == q.cpu_usage_bits,
        sort_key(p, false) == p.memory_usage as int,
{
    let a = p.cpu_usage_bits;
    let b = q.cpu_usage_bits;
    assert(sort_key(p, true) == cpu_order_key(a) as int);
    assert(sort_key(q, true) == cpu_order_key(b) as int);
    assert(
        (a < 0x8000_0000u32 && b < 0x8000_0000u32 ==>
            ((((a as i32) ^ (((((a as i32) >> 31u32) as u32) >> 1u32) as i32))
                < ((b as i32) ^ (((((b as i32) >> 31u32) as u32) >> 1u32) as i32))) <==> a < b))
        && (a >= 0x8000_0000u32 && b >= 0x8000_0000u32 ==>
            ((((a as i32) ^ (((((a as i32) >> 31u32) as u32) >> 1u32) as i32))
                < ((b as i32) ^ (((((b as i32) >> 31u32) as u32) >> 1u32) as i32))) <==> a > b))
        && (a >= 0x8000_0000u32 && b < 0x8000_0000u32 ==>
            (((a as i32) ^ (((((a as i32) >> 31u32) as u32) >> 1u32) as i32))
                < ((b as i32) ^ (((((b as i32) >> 31u32) as u32) >> 1u32) as i32))))
        && ((((a as i32) ^ (((((a as i32) >> 31u32) as u32) >> 1u32) as i32))
                == ((b as i32) ^ (((((b as i32) >> 31u32) as u32) >> 1u32) as i32))) <==> a == b)
    ) by (bit_vector);
}

/// After sorting, the process table runs from the largest CPU usage down:
/// of two processes whose usages are zero or positive, the one placed first
/// has the larger or equal usage (bit pattern); by memory, the one placed
/// first uses at least as much memory.
pub proof fn lemma_sorted_table_runs_heaviest_first(
    sorted: Seq<ProcessInformation>,
    unsorted: Seq<ProcessInformation>,
    by_cpu: bool,
    a: int,
    b: int,
)
    requires
        is_stable_sort_of(sorted, unsorted, by_cpu),
        0 <= a < b < sorted.len(),
    ensures
        by_cpu && sorted[a].cpu_usage_bits < 0x8000_0000 && sorted[b].cpu_usage_bits < 0x8000_0000
            ==> sorted[a].cpu_usage_bits >= sorted[b].cpu_usage_bits,
        by_cpu && sorted[b].cpu_usage_bits < 0x8000_0000 ==> sorted[a].cpu_usage_bits < 0x8000_0000,
        !by_cpu ==> sorted[a].memory_usage >= sorted[b].memory_usage,
{
    lemma_sort_key_is_total_order(sorted[a], sorted[b]);
    lemma_sort_key_is_total_order(sorted[b], sorted[a]);
    assert(sort_key(sorted[a], by_cpu) >= sort_key(sorted[b], by_cpu));
}

} // verus!
