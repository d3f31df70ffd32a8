//! Listing order: entries are sorted by a key made of a rank and a text
//! (compared character by character), keeping the original order of equal
//! keys. Directory listings, browse trees and log lists use it.
use vstd::prelude::*;
use crate::files::{lowercase, spec_lowercase};
use crate::text::chars_of;

verus! {

// ==================== text order ====================

/// Whether `a` sorts before `b`, comparing from position `i` on: the first
/// differing character decides, and a proper prefix comes first.
pub open spec fn text_lt_from(a: Seq<char>, b: Seq<char>, i: int) -> bool
    decreases a.len() - i,
{
    if i < 0 || i >= a.len() {
        0 <= i < b.len()
    } else if i >= b.len() {
        false
    } else if a[i] != b[i] {
        (a[i] as int) < (b[i] as int)
    } else {
        text_lt_from(a, b, i + 1)
    }
}

/// Lexicographic order of texts by character code.
pub open spec fn text_lt(a: Seq<char>, b: Seq<char>) -> bool {
    text_lt_from(a, b, 0)
}

proof fn lemma_text_irreflexive(a: Seq<char>, i: int)
    requires
        0 <= i <= a.len(),
    ensures
        !text_lt_from(a, a, i),
    decreases a.len() - i,
{
    if i < a.len() {
        lemma_text_irreflexive(a, i + 1);
    }
}

proof fn lemma_text_transitive(a: Seq<char>, b: Seq<char>, c: Seq<char>, i: int)
    requires
        0 <= i,
        text_lt_from(a, b, i),
        text_lt_from(b, c, i),
    ensures
        text_lt_from(a, c, i),
    decreases a.len() - i,
{
    if i < a.len() && i < b.len() && i < c.len() && a[i] == b[i] && b[i] == c[i] {
        lemma_text_transitive(a, b, c, i + 1);
    }
}

proof fn lemma_text_total(a: Seq<char>, b: Seq<char>, i: int)
    requires
        0 <= i <= a.len(),
        i <= b.len(),
        forall|k: int| 0 <= k < i ==> a[k] == b[k],
        !text_lt_from(a, b, i),
        !text_lt_from(b, a, i),
    ensures
        a == b,
    decreases a.len() - i,
{
    if i == a.len() {
        assert(a =~= b);
    } else if i == b.len() {
    } else if a[i] != b[i] {
    } else {
        lemma_text_total(a, b, i + 1);
    }
}

// ==================== keys ====================

/// A sort key: a rank first, then a text.
#[derive(Debug, Clone)]
pub struct SortKey {
    pub rank: u64,
    pub text: Vec<char>,
}

/// The mathematical value of a key.
pub open spec fn key_of(k: SortKey) -> (u64, Seq<char>) {
    (k.rank, k.text@)
}

/// Key order: by rank, then by text.
pub open spec fn key_lt(a: (u64, Seq<char>), b: (u64, Seq<char>)) -> bool {
    a.0 < b.0 || (a.0 == b.0 && text_lt(a.1, b.1))
}

/// Entry `x` comes before entry `y` of a key list: a smaller key, or an equal
/// key and an earlier position.
pub open spec fn before(keys: Seq<SortKey>, x: int, y: int) -> bool {
    key_lt(key_of(keys[x]), key_of(keys[y])) || (key_of(keys[x]) == key_of(keys[y]) && x < y)
}

proof fn lemma_key_irreflexive(a: (u64, Seq<char>))
    ensures
        !key_lt(a, a),
{
    lemma_text_irreflexive(a.1, 0);
}

proof fn lemma_key_transitive(a: (u64, Seq<char>), b: (u64, Seq<char>), c: (u64, Seq<char>))
    requires
        key_lt(a, b),
        key_lt(b, c),
    ensures
        key_lt(a, c),
{
    if a.0 == b.0 && b.0 == c.0 {
        lemma_text_transitive(a.1, b.1, c.1, 0);
    }
}

proof fn lemma_key_total(a: (u64, Seq<char>), b: (u64, Seq<char>))
    requires
        !key_lt(a, b),
        !key_lt(b, a),
    ensures
        a == b,
{
    lemma_text_total(a.1, b.1, 0);
}

proof fn lemma_key_asymmetric(a: (u64, Seq<char>), b: (u64, Seq<char>))
    requires
        key_lt(a, b),
    ensures
        !key_lt(b, a),
{
    if key_lt(b, a) {
        lemma_key_transitive(a, b, a);
        lemma_key_irreflexive(a);
    }
}

proof fn lemma_before_transitive(keys: Seq<SortKey>, x: int, y: int, z: int)
    requires
        before(keys, x, y),
        before(keys, y, z),
    ensures
        before(keys, x, z),
{
    let (a, b, c) = (key_of(keys[x]), key_of(keys[y]), key_of(keys[z]));
    if key_lt(a, b) && key_lt(b, c) {
        lemma_key_transitive(a, b, c);
    }
}

/// Whether text `a` sorts before text `b`.
fn text_less(a: &Vec<char>, b: &Vec<char>) -> (r: bool)
    ensures
        r == text_lt(a@, b@),
{
    let mut i: usize = 0;
    while i < a.len() && i < b.len() && a[i] == b[i]
        invariant
            i <= a@.len(),
            i <= b@.len(),
            text_lt_from(a@, b@, i as int) == text_lt(a@, b@),
        decreases a@.len() - i,
    {
        i = i + 1;
    }
    if i >= a.len() {
        i < b.len()
    } else if i >= b.len() {
        false
    } else {
        a[i] < b[i]
    }
}

/// Whether key `a` sorts before key `b`.
pub fn key_less(a: &SortKey, b: &SortKey) -> (r: bool)
    ensures
        r == key_lt(key_of(*a), key_of(*b)),
{
    if a.rank != b.rank {
        a.rank < b.rank
    } else {
        text_less(&a.text, &b.text)
    }
}

// ==================== stable sort ====================

/// `order` lists positions of `keys`, each once, sorted by key and, among
/// equal keys, by position.
pub open spec fn sorted_positions(keys: Seq<SortKey>, order: Seq<usize>, n: int) -> bool {
    &&& order.len() == n
    &&& forall|i: int| 0 <= i < order.len() ==> (#[trigger] order[i]) < keys.len()
    &&& forall|i: int, j: int|
        0 <= i < j < order.len() ==> before(keys, order[i] as int, order[j] as int)
}

/// Whether a list of positions holds every position below `n`.
pub open spec fn covers(order: Seq<usize>, n: int) -> bool {
    forall|p: int| 0 <= p < n ==> #[trigger] occurs(order, p)
}

/// Whether a position occurs in a list of positions.
pub open spec fn occurs(order: Seq<usize>, p: int) -> bool {
    exists|i: int| 0 <= i < order.len() && order[i] == p
}

/// The positions of `keys` in sorted order, equal keys keeping their
/// original order (a stable sort): every position occurs exactly once.
pub fn sorted_order(keys: &Vec<SortKey>) -> (order: Vec<usize>)
    ensures
        sorted_positions(keys@, order@, keys@.len() as int),
        covers(order@, keys@.len() as int),
{
    let n = keys.len();
    let mut order: Vec<usize> = Vec::new();
    let mut idx: usize = 0;
    while idx < n
        invariant
            n == keys@.len(),
            idx <= n,
            sorted_positions(keys@, order@, idx as int),
            forall|i: int| 0 <= i < order@.len() ==> (#[trigger] order@[i]) < idx,
            covers(order@, idx as int),
        decreases n - idx,
    {
        let mut p: usize = order.len();
        while p > 0 && key_less(&keys[idx], &keys[order[p - 1]])
            invariant
                n == keys@.len(),
                idx < n,
                p <= order@.len(),
                sorted_positions(keys@, order@, idx as int),
                forall|i: int| 0 <= i < order@.len() ==> (#[trigger] order@[i]) < idx,
                forall|q: int|
                    p <= q < order@.len() ==> key_lt(
                        key_of(keys@[idx as int]),
                        key_of(#[trigger] keys@[order@[q] as int]),
                    ),
            decreases p,
        {
            p = p - 1;
        }
        proof {
            let o = order@;
            if p > 0 {
                let last = o[p - 1] as int;
                let a = key_of(keys@[idx as int]);
                let b = key_of(keys@[last]);
                if !key_lt(b, a) {
                    lemma_key_total(a, b);
                }
                assert(before(keys@, last, idx as int));
                assert forall|q: int| 0 <= q < p implies before(
                    keys@,
                    #[trigger] o[q] as int,
                    idx as int,
                ) by {
                    if q < p - 1 {
                        lemma_before_transitive(keys@, o[q] as int, last, idx as int);
                    }
                }
            }
        }
        let ghost old_order = order@;
        order.insert(p, idx);
        proof {
            let o = order@;
            assert(o.len() == old_order.len() + 1);
            assert forall|i: int, j: int| 0 <= i < j < o.len() implies before(
                keys@,
                o[i] as int,
                o[j] as int,
            ) by {
                if i < p && j < p {
                    assert(o[i] == old_order[i] && o[j] == old_order[j]);
                } else if i < p && j == p {
                    assert(o[i] == old_order[i]);
                } else if i < p && j > p {
                    assert(o[i] == old_order[i] && o[j] == old_order[j - 1]);
                } else if i == p {
                    assert(o[j] == old_order[j - 1]);
                    assert(key_lt(
                        key_of(keys@[idx as int]),
                        key_of(keys@[old_order[j - 1] as int]),
                    ));
                } else {
                    assert(o[i] == old_order[i - 1] && o[j] == old_order[j - 1]);
                }
            }
            assert forall|i: int| 0 <= i < o.len() implies (#[trigger] o[i]) < idx + 1 by {
                if i < p {
                    assert(o[i] == old_order[i]);
                } else if i > p {
                    assert(o[i] == old_order[i - 1]);
                }
            }
            assert forall|x: int| 0 <= x < idx + 1 implies #[trigger] occurs(o, x) by {
                if x == idx {
                    assert(o[p as int] == idx);
                } else {
                    assert(occurs(old_order, x));
                    let i0 = choose|i: int| 0 <= i < old_order.len() && old_order[i] == x;
                    if i0 < p {
                        assert(o[i0] == x);
                    } else {
                        assert(o[i0 + 1] == x);
                    }
                }
            }
        }
        idx = idx + 1;
    }
    order
}

/// Law: a sorted listing is ordered by key, every entry of the input occurs
/// once, and entries with equal keys keep their input order.
pub proof fn law_sorted_order_is_stable(keys: Seq<SortKey>, order: Seq<usize>, i: int, j: int)
    requires
        sorted_positions(keys, order, keys.len() as int),
        0 <= i < j < order.len(),
    ensures
        !key_lt(key_of(keys[order[j] as int]), key_of(keys[order[i] as int])),
        order[i] != order[j],
        key_of(keys[order[i] as int]) == key_of(keys[order[j] as int]) ==> order[i] < order[j],
{
    let a = key_of(keys[order[i] as int]);
    let b = key_of(keys[order[j] as int]);
    assert(before(keys, order[i] as int, order[j] as int));
    lemma_key_irreflexive(a);
    if key_lt(a, b) {
        lemma_key_asymmetric(a, b);
    }
}

// ==================== listing keys ====================

/// Key of a browse-tree child: folders (not leaves) first, then by name.
pub fn browse_key(is_leaf: bool, name: &str) -> (k: SortKey)
    ensures
        k.rank == (if is_leaf {
            1u64
        } else {
            0u64
        }),
        k.text@ == name@,
{
    SortKey {
        rank: if is_leaf {
            1
        } else {
            0
        },
        text: chars_of(name),
    }
}

/// Key of an entry listed by name alone.
pub fn name_key(name: &str) -> (k: SortKey)
    ensures
        k.rank == 0,
        k.text@ == name@,
{
    SortKey { rank: 0, text: chars_of(name) }
}

/// Key of a file-manager entry: directories first, then by lower-cased name.
pub fn file_list_key(is_dir: bool, name: &str) -> (k: SortKey)
    ensures
        k.rank == (if is_dir {
            0u64
        } else {
            1u64
        }),
        k.text@ == spec_lowercase(name@),
{
    let lower = lowercase(name);
    SortKey {
        rank: if is_dir {
            0
        } else {
            1
        },
        text: chars_of(lower.as_str()),
    }
}

/// Key of a log file: the most recently modified first.
pub fn log_key(modified: u64) -> (k: SortKey)
    ensures
        k.rank == u64::MAX - modified,
        k.text@.len() == 0,
{
    SortKey { rank: u64::MAX - modified, text: Vec::new() }
}

} // verus!
