//! Ranking processes by their memory use.
use vstd::prelude::*;

verus! {

/// Among processes whose memory use is `memory`, process `a` ranks before
/// process `b`: it uses more memory, or as much and was listed first.
pub open spec fn ranks_before(memory: Seq<u64>, a: int, b: int) -> bool {
    memory[a] > memory[b] || (memory[a] == memory[b] && a < b)
}

/// `order` lists processes strictly in the order of [`ranks_before`].
pub open spec fn ranked(memory: Seq<u64>, order: Seq<usize>) -> bool {
    forall|i: int, j: int|
        #![trigger order[i], order[j]]
        0 <= i < j < order.len() ==> ranks_before(memory, order[i] as int, order[j] as int)
}

/// The positions of the processes that use the most memory, at most `limit`
/// of them, the largest first, processes of equal use in the order they
/// were listed in: what a stable sort by decreasing memory use, cut to
/// `limit` entries, keeps.
pub fn rank_by_memory(memory: &Vec<u64>, limit: usize) -> (top: Vec<usize>)
    ensures
        top@.len() == if limit < memory@.len() { limit as int } else { memory@.len() as int },
        forall|i: int| 0 <= i < top@.len() ==> #[trigger] top@[i] < memory@.len(),
        ranked(memory@, top@),
        forall|k: int, i: int|
            #![trigger top@[i], top@.contains(k as usize)]
            0 <= k < memory@.len() && !top@.contains(k as usize) && 0 <= i < top@.len()
                ==> ranks_before(memory@, top@[i] as int, k),
        forall|i: int, j: int|
            #![trigger top@[i], top@[j]]
            0 <= i < j < top@.len() ==> memory@[top@[i] as int] >= memory@[top@[j] as int],
        forall|k: int, i: int|
            #![trigger top@[i], top@.contains(k as usize)]
            0 <= k < memory@.len() && !top@.contains(k as usize) && 0 <= i < top@.len()
                ==> memory@[k] <= memory@[top@[i] as int],
{
    let n = memory.len();
    let mut order: Vec<usize> = Vec::new();
    let mut k: usize = 0;
    while k < n
        invariant
            n == memory@.len(),
            k <= n,
            order@.len() == k,
            forall|i: int| 0 <= i < order@.len() ==> #[trigger] order@[i] < k,
            forall|j: int| 0 <= j < k ==> #[trigger] order@.contains(j as usize),
            ranked(memory@, order@),
        decreases n - k,
    {
        let mut p: usize = 0;
        loop
            invariant
                n == memory@.len(),
                k < n,
                p <= order@.len(),
                forall|i: int| 0 <= i < order@.len() ==> #[trigger] order@[i] < k,
                forall|j: int|
                    0 <= j < p ==> ranks_before(memory@, #[trigger] order@[j] as int, k as int),
            ensures
                p <= order@.len(),
                forall|j: int|
                    0 <= j < p ==> ranks_before(memory@, #[trigger] order@[j] as int, k as int),
                p < order@.len() ==> ranks_before(memory@, k as int, order@[p as int] as int),
            decreases order@.len() - p,
        {
            if p == order.len() {
                break;
            }
            if memory[k] > memory[order[p]] {
                break;
            }
            p = p + 1;
        }
        let ghost before = order@;
        order.insert(p, k);
        proof {
            before.insert_ensures(p as int, k);
            assert forall|i: int, j: int| 0 <= i < j < order@.len() implies ranks_before(
                memory@,
                #[trigger] order@[i] as int,
                #[trigger] order@[j] as int,
            ) by {
                if j < p {
                    assert(order@[i] == before[i] && order@[j] == before[j]);
                } else if j == p {
                    assert(order@[i] == before[i]);
                } else if i == p {
                    assert(order@[j] == before[j - 1]);
                    if j - 1 > p {
                        assert(ranks_before(memory@, before[p as int] as int, before[j - 1] as int));
                    }
                } else if i < p {
                    assert(order@[i] == before[i] && order@[j] == before[j - 1]);
                } else {
                    assert(order@[i] == before[i - 1] && order@[j] == before[j - 1]);
                }
            }
            assert forall|i: int| 0 <= i < order@.len() implies #[trigger] order@[i] < k + 1 by {
                if i < p {
                    assert(order@[i] == before[i]);
                } else if i > p {
                    assert(order@[i] == before[i - 1]);
                }
            }
            assert forall|j: int| 0 <= j < k + 1 implies #[trigger] order@.contains(j as usize) by {
                if j == k {
                    assert(order@[p as int] == k);
                } else {
                    assert(before.contains(j as usize));
                    let q = choose|q: int| 0 <= q < before.len() && before[q] == j as usize;
                    if q < p {
                        assert(order@[q] == j as usize);
                    } else {
                        assert(order@[q + 1] == j as usize);
                    }
                }
            }
        }
        k = k + 1;
    }
    let ghost full = order@;
    if limit < n {
        order.truncate(limit);
    }
    proof {
        assert forall|kk: int, i: int|
            #![trigger order@[i], order@.contains(kk as usize)]
            0 <= kk < memory@.len() && !order@.contains(kk as usize) && 0 <= i < order@.len()
            implies ranks_before(memory@, order@[i] as int, kk) by {
            assert(full.contains(kk as usize));
            let q = choose|q: int| 0 <= q < full.len() && full[q] == kk as usize;
            if q < order@.len() {
                assert(order@[q] == full[q]);
            }
            assert(order@[i] == full[i]);
        }
    }
    order
}

} // verus!
