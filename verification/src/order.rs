//! Ordered selection: the positions of a list that are wanted, in ascending
//! order of an integer key.
//!
//! Listings are selections of stored items ordered by a key of each item (a
//! deadline, an urgency rank, a timestamp). Items with the same key keep the
//! order in which they are stored, so every listing has exactly one right
//! answer.

use vstd::prelude::*;

verus! {

/// Position `a` comes before position `b`: its key is smaller, or the keys are
/// the same and `a` is the earlier position.
pub open spec fn comes_before(keys: Seq<u64>, a: int, b: int) -> bool {
    keys[a] < keys[b] || (keys[a] == keys[b] && a < b)
}

/// Whether `picked` holds position `p` somewhere.
pub open spec fn lists(picked: Seq<usize>, p: int) -> bool {
    exists|i: int| 0 <= i < picked.len() && #[trigger] picked[i] == p
}

/// The number of positions that are wanted.
pub open spec fn count_wanted(wanted: Seq<bool>) -> nat
    decreases wanted.len(),
{
    if wanted.len() == 0 {
        0
    } else {
        count_wanted(wanted.drop_last()) + if wanted.last() {
            1nat
        } else {
            0nat
        }
    }
}

/// `picked` holds the wanted positions and no others, each before all that it
/// `comes_before` (and so each once); it is as long as positions are wanted.
pub open spec fn is_ordered_selection(picked: Seq<usize>, keys: Seq<u64>, wanted: Seq<bool>) -> bool {
    &&& picked.len() == count_wanted(wanted)
    &&& forall|i: int|
        0 <= i < picked.len() ==> (#[trigger] picked[i]) < keys.len() && wanted[picked[i] as int]
    &&& forall|p: int| 0 <= p < keys.len() && wanted[p] ==> #[trigger] lists(picked, p)
    &&& forall|i: int, j: int|
        0 <= i < j < picked.len() ==> comes_before(
            keys,
            #[trigger] picked[i] as int,
            #[trigger] picked[j] as int,
        )
}

/// The number of positions that both lists have.
pub open spec fn spec_common_len(keys: Seq<u64>, wanted: Seq<bool>) -> int {
    if keys.len() < wanted.len() {
        keys.len() as int
    } else {
        wanted.len() as int
    }
}

/// The wanted positions in ascending order of key, equal keys in the order of
/// their positions. Where one list is longer than the other, the positions
/// that only it has are not looked at.
pub fn ordered_selection(keys: &Vec<u64>, wanted: &Vec<bool>) -> (picked: Vec<usize>)
    ensures
        is_ordered_selection(
            picked@,
            keys@.take(spec_common_len(keys@, wanted@)),
            wanted@.take(spec_common_len(keys@, wanted@)),
        ),
        keys.len() == wanted.len() ==> is_ordered_selection(picked@, keys@, wanted@),
        picked.len() <= keys.len(),
{
    let n = if keys.len() < wanted.len() {
        keys.len()
    } else {
        wanted.len()
    };
    let mut picked: Vec<usize> = Vec::new();
    let mut m: usize = 0;
    while m < n
        invariant
            m <= n,
            n == spec_common_len(keys@, wanted@),
            picked.len() <= m,
            picked.len() == count_wanted(wanted@.take(m as int)),
            forall|i: int|
                0 <= i < picked.len() ==> (#[trigger] picked[i]) < m && wanted[picked[i] as int],
            forall|p: int| 0 <= p < m && wanted[p] ==> #[trigger] lists(picked@, p),
            forall|i: int, j: int|
                0 <= i < j < picked.len() ==> comes_before(
                    keys@,
                    #[trigger] picked[i] as int,
                    #[trigger] picked[j] as int,
                ),
        decreases n - m,
    {
        proof {
            assert(wanted@.take(m as int + 1).drop_last() =~= wanted@.take(m as int));
            assert(wanted@.take(m as int + 1).last() == wanted@[m as int]);
        }
        if wanted[m] {
            let mut p: usize = picked.len();
            while p > 0 && keys[picked[p - 1]] > keys[m]
                invariant
                    p <= picked.len() <= m < n,
                    n == spec_common_len(keys@, wanted@),
                    forall|i: int| 0 <= i < picked.len() ==> (#[trigger] picked[i]) < m,
                    forall|i: int|
                        p <= i < picked.len() ==> keys[(#[trigger] picked[i]) as int]
                            > keys[m as int],
                decreases p,
            {
                p -= 1;
            }
            let ghost before = picked@;
            picked.insert(p, m);
            proof {
                let after = picked@;
                assert(after == before.insert(p as int, m));
                assert forall|i: int| 0 <= i < after.len() implies (#[trigger] after[i]) < m + 1
                    && wanted[after[i] as int] by {
                    if i < p {
                        assert(after[i] == before[i]);
                    } else if i > p {
                        assert(after[i] == before[i - 1]);
                    }
                }
                assert forall|k: int| 0 <= k < m + 1 && wanted[k] implies #[trigger] lists(
                    after,
                    k,
                ) by {
                    if k == m {
                        assert(after[p as int] == k);
                    } else {
                        assert(lists(before, k));
                        let i0 = choose|i: int| 0 <= i < before.len() && #[trigger] before[i] == k;
                        if i0 < p {
                            assert(after[i0] == k);
                        } else {
                            assert(after[i0 + 1] == before[i0]);
                        }
                    }
                }
                assert forall|i: int, j: int| 0 <= i < j < after.len() implies comes_before(
                    keys@,
                    #[trigger] after[i] as int,
                    #[trigger] after[j] as int,
                ) by {
                    if j < p {
                        assert(after[i] == before[i] && after[j] == before[j]);
                    } else if j == p {
                        assert(after[i] == before[i]);
                        assert(before[i] < m);
                        if i < p - 1 {
                            assert(comes_before(keys@, before[i] as int, before[p - 1] as int));
                        }
                        assert(keys[before[p - 1] as int] <= keys[m as int]);
                    } else if i < p {
                        assert(after[i] == before[i] && after[j] == before[j - 1]);
                    } else if i == p {
                        assert(after[j] == before[j - 1]);
                    } else {
                        assert(after[i] == before[i - 1] && after[j] == before[j - 1]);
                    }
                }
            }
        }
        m += 1;
    }
    proof {
        let shown_keys = keys@.take(n as int);
        let shown_wanted = wanted@.take(n as int);
        assert forall|i: int, j: int| 0 <= i < j < picked.len() implies comes_before(
            shown_keys,
            #[trigger] picked[i] as int,
            #[trigger] picked[j] as int,
        ) by {
            assert(comes_before(keys@, picked[i] as int, picked[j] as int));
        }
        assert forall|p: int| 0 <= p < shown_keys.len() && shown_wanted[p] implies #[trigger] lists(
            picked@,
            p,
        ) by {
            assert(wanted[p]);
        }
        if keys.len() == wanted.len() {
            assert(shown_keys =~= keys@);
            assert(shown_wanted =~= wanted@);
        }
    }
    picked
}

/// Two ordered selections of the same positions agree on their first `n`
/// places.
proof fn selections_agree_upto(
    a: Seq<usize>,
    b: Seq<usize>,
    keys: Seq<u64>,
    wanted: Seq<bool>,
    n: nat,
)
    requires
        is_ordered_selection(a, keys, wanted),
        is_ordered_selection(b, keys, wanted),
        n <= a.len(),
    ensures
        n <= b.len(),
        forall|i: int| 0 <= i < n ==> a[i] == b[i],
    decreases n,
{
    if n > 0 {
        let m = (n - 1) as int;
        selections_agree_upto(a, b, keys, wanted, m as nat);
        let x = a[m];
        assert(lists(b, x as int));
        let p = choose|i: int| 0 <= i < b.len() && #[trigger] b[i] == x as int;
        if p < m {
            assert(a[p] == b[p]);
            assert(comes_before(keys, a[p] as int, a[m] as int));
        }
        let y = b[m];
        assert(lists(a, y as int));
        let q = choose|i: int| 0 <= i < a.len() && #[trigger] a[i] == y as int;
        if q < m {
            assert(a[q] == b[q]);
            assert(comes_before(keys, b[q] as int, b[m] as int));
        }
        if p > m {
            assert(comes_before(keys, b[m] as int, b[p] as int));
            if q > m {
                assert(comes_before(keys, a[m] as int, a[q] as int));
            }
        }
    }
}

/// Keys and wishes decide the selection: two ordered selections of the same
/// positions are equal.
pub proof fn ordered_selection_unique(
    a: Seq<usize>,
    b: Seq<usize>,
    keys: Seq<u64>,
    wanted: Seq<bool>,
)
    requires
        is_ordered_selection(a, keys, wanted),
        is_ordered_selection(b, keys, wanted),
    ensures
        a == b,
{
    selections_agree_upto(a, b, keys, wanted, a.len());
    selections_agree_upto(b, a, keys, wanted, b.len());
    assert(a =~= b);
}

/// One more position that is not wanted changes nothing about the ordered
/// selection.
pub proof fn selection_ignores_unwanted_position(
    picked: Seq<usize>,
    keys: Seq<u64>,
    wanted: Seq<bool>,
    key: u64,
)
    requires
        keys.len() == wanted.len(),
        is_ordered_selection(picked, keys, wanted),
    ensures
        is_ordered_selection(picked, keys.push(key), wanted.push(false)),
{
    let keys2 = keys.push(key);
    let wanted2 = wanted.push(false);
    assert(wanted2.drop_last() =~= wanted);
    assert forall|i: int| 0 <= i < picked.len() implies (#[trigger] picked[i]) < keys2.len()
        && wanted2[picked[i] as int] by {
        assert(wanted[picked[i] as int]);
    }
    assert forall|p: int| 0 <= p < keys2.len() && wanted2[p] implies #[trigger] lists(picked, p) by {
        assert(wanted[p]);
    }
    assert forall|i: int, j: int| 0 <= i < j < picked.len() implies comes_before(
        keys2,
        #[trigger] picked[i] as int,
        #[trigger] picked[j] as int,
    ) by {
        assert(comes_before(keys, picked[i] as int, picked[j] as int));
    }
}

/// One more position that is wanted, with a key that no wanted position
/// exceeds, comes last in the ordered selection.
pub proof fn selection_ends_with_latest_position(
    picked: Seq<usize>,
    keys: Seq<u64>,
    wanted: Seq<bool>,
    key: u64,
)
    requires
        keys.len() == wanted.len(),
        keys.len() <= usize::MAX,
        is_ordered_selection(picked, keys, wanted),
        forall|p: int| 0 <= p < keys.len() && wanted[p] ==> #[trigger] keys[p] <= key,
    ensures
        is_ordered_selection(picked.push(keys.len() as usize), keys.push(key), wanted.push(true)),
{
    let n = keys.len() as int;
    let keys2 = keys.push(key);
    let wanted2 = wanted.push(true);
    let extended = picked.push(n as usize);
    assert(wanted2.drop_last() =~= wanted);
    assert forall|i: int| 0 <= i < extended.len() implies (#[trigger] extended[i]) < keys2.len()
        && wanted2[extended[i] as int] by {
        if i < picked.len() {
            assert(extended[i] == picked[i]);
            assert(wanted[picked[i] as int]);
        }
    }
    assert forall|p: int| 0 <= p < keys2.len() && wanted2[p] implies #[trigger] lists(extended, p) by {
        if p < n {
            assert(wanted[p]);
            assert(lists(picked, p));
            let k = choose|k: int| 0 <= k < picked.len() && #[trigger] picked[k] == p;
            assert(extended[k] == p);
        } else {
            assert(extended[picked.len() as int] == p);
        }
    }
    assert forall|i: int, j: int| 0 <= i < j < extended.len() implies comes_before(
        keys2,
        #[trigger] extended[i] as int,
        #[trigger] extended[j] as int,
    ) by {
        if j < picked.len() {
            assert(extended[i] == picked[i] && extended[j] == picked[j]);
            assert(comes_before(keys, picked[i] as int, picked[j] as int));
        } else {
            assert(extended[i] == picked[i]);
            assert(wanted[picked[i] as int]);
            assert(keys[picked[i] as int] <= key);
        }
    }
}

/// An ordered selection holds no position twice.
pub proof fn ordered_selection_injective(picked: Seq<usize>, keys: Seq<u64>, wanted: Seq<bool>)
    requires
        is_ordered_selection(picked, keys, wanted),
    ensures
        forall|i: int, j: int|
            0 <= i < picked.len() && 0 <= j < picked.len() && i != j ==> picked[i] != picked[j],
{
    assert forall|i: int, j: int|
        0 <= i < picked.len() && 0 <= j < picked.len() && i != j implies picked[i] != picked[j] by {
        if i < j {
            assert(comes_before(keys, picked[i] as int, picked[j] as int));
        } else {
            assert(comes_before(keys, picked[j] as int, picked[i] as int));
        }
    }
}

/// The part of a listing that a page shows: `offset` items are passed over
/// (none where `offset` is negative), then at most `limit` items are taken
/// (all of them where `limit` is negative).
pub open spec fn spec_page_bounds(len: int, limit: int, offset: int) -> (int, int) {
    let start = if offset < 0 {
        0
    } else if offset > len {
        len
    } else {
        offset
    };
    let end = if limit < 0 || start + limit > len {
        len
    } else {
        start + limit
    };
    (start, end)
}

/// The bounds of a page within a listing of `len` items.
pub fn page_bounds(len: usize, limit: i32, offset: i32) -> (bounds: (usize, usize))
    ensures
        (bounds.0 as int, bounds.1 as int) == spec_page_bounds(
            len as int,
            limit as int,
            offset as int,
        ),
        bounds.0 <= bounds.1 <= len,
{
    let start: usize = if offset < 0 {
        0
    } else if offset as usize > len {
        len
    } else {
        offset as usize
    };
    let end: usize = if limit < 0 || limit as usize > len - start {
        len
    } else {
        start + limit as usize
    };
    (start, end)
}

} // verus!
