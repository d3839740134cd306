//! Address ranges and the rules of the mapping table.

use vstd::prelude::*;
use crate::memory::ADDRESS_SPACE_SIZE;

verus! {

/// Whether the range starts no later than it ends and ends inside the
/// address space.
pub open spec fn valid_range(r: (usize, usize)) -> bool {
    r.0 <= r.1 <= 65536
}

/// Whether the address `a` lies in the half-open range `r`.
pub open spec fn contains(r: (usize, usize), a: int) -> bool {
    r.0 <= a < r.1
}

/// Whether two ranges share an address: the later of the two starts lies in
/// both.
pub open spec fn overlapping(r: (usize, usize), s: (usize, usize)) -> bool {
    let a = if r.0 >= s.0 {
        r.0 as int
    } else {
        s.0 as int
    };
    contains(r, a) && contains(s, a)
}

/// Whether every range of the table is valid.
pub open spec fn all_valid(table: Seq<(usize, usize)>) -> bool {
    forall|k: int| 0 <= k < table.len() ==> valid_range(#[trigger] table[k])
}

/// Whether no two ranges of the table share an address.
pub open spec fn pairwise_disjoint(table: Seq<(usize, usize)>) -> bool {
    forall|j: int, k: int|
        0 <= j < k < table.len() ==> !overlapping(#[trigger] table[j], #[trigger] table[k])
}

/// Whether no range of the table contains the address `a`.
pub open spec fn no_hit(table: Seq<(usize, usize)>, a: int) -> bool {
    forall|k: int| 0 <= k < table.len() ==> !contains(#[trigger] table[k], a)
}

/// Whether entry `k` is the first of the table whose range contains `a`.
pub open spec fn first_hit(table: Seq<(usize, usize)>, a: int, k: int) -> bool {
    &&& 0 <= k < table.len()
    &&& contains(table[k], a)
    &&& forall|j: int| 0 <= j < k ==> !contains(#[trigger] table[j], a)
}

/// Two ranges that both contain one address overlap.
pub proof fn lemma_shared_address_overlaps(r: (usize, usize), s: (usize, usize), a: int)
    requires
        contains(r, a),
        contains(s, a),
    ensures
        overlapping(r, s),
{
}

/// Overlapping ranges share an address, and overlap does not depend on the
/// order in which the two are named.
pub proof fn lemma_overlapping_shares(r: (usize, usize), s: (usize, usize))
    requires
        overlapping(r, s),
    ensures
        overlapping(s, r),
        exists|a: int| contains(r, a) && contains(s, a),
{
    let a = if r.0 >= s.0 {
        r.0 as int
    } else {
        s.0 as int
    };
    assert(contains(r, a) && contains(s, a));
}

/// In a table of pairwise disjoint ranges at most one entry contains a given
/// address, so the entry that contains it is the first hit.
pub proof fn lemma_hit_is_unique(table: Seq<(usize, usize)>, a: int, k: int)
    requires
        pairwise_disjoint(table),
        0 <= k < table.len(),
        contains(table[k], a),
    ensures
        first_hit(table, a, k),
        forall|j: int| 0 <= j < table.len() && j != k ==> !contains(#[trigger] table[j], a),
{
    assert forall|j: int| 0 <= j < table.len() && j != k implies !contains(
        #[trigger] table[j],
        a,
    ) by {
        if contains(table[j], a) {
            if j < k {
                lemma_shared_address_overlaps(table[j], table[k], a);
            } else {
                lemma_shared_address_overlaps(table[k], table[j], a);
            }
        }
    }
}

/// Whether `r` starts no later than it ends and ends inside the address
/// space.
pub fn range_is_valid(r: (usize, usize)) -> (ok: bool)
    ensures
        ok == valid_range(r),
{
    r.0 <= r.1 && r.1 <= ADDRESS_SPACE_SIZE
}

/// Whether `r` and `s` share an address.
pub fn ranges_overlap(r: (usize, usize), s: (usize, usize)) -> (hit: bool)
    ensures
        hit == overlapping(r, s),
{
    r.0 < r.1 && s.0 < s.1 && r.0 < s.1 && s.0 < r.1
}

/// The index of the first entry of `table` whose range contains `a`.
pub fn find_first(table: &Vec<(usize, usize)>, a: usize) -> (found: Option<usize>)
    ensures
        match found {
            Some(k) => first_hit(table@, a as int, k as int),
            None => no_hit(table@, a as int),
        },
{
    let mut k: usize = 0;
    while k < table.len()
        invariant
            k <= table@.len(),
            forall|j: int| 0 <= j < k ==> !contains(#[trigger] table@[j], a as int),
        decreases table@.len() - k,
    {
        let r: (usize, usize) = table[k];
        if r.0 <= a && a < r.1 {
            return Some(k);
        }
        k += 1;
    }
    None
}

/// Whether no two ranges of `table` share an address.
pub fn table_is_disjoint(table: &Vec<(usize, usize)>) -> (ok: bool)
    ensures
        ok == pairwise_disjoint(table@),
{
    let mut k: usize = 0;
    while k < table.len()
        invariant
            k <= table@.len(),
            forall|i: int, j: int|
                0 <= i < j < k ==> !overlapping(#[trigger] table@[i], #[trigger] table@[j]),
        decreases table@.len() - k,
    {
        let mut j: usize = 0;
        while j < k
            invariant
                j <= k < table@.len(),
                forall|i: int| 0 <= i < j ==> !overlapping(#[trigger] table@[i], table@[k as int]),
            decreases k - j,
        {
            if ranges_overlap(table[j], table[k]) {
                return false;
            }
            j += 1;
        }
        k += 1;
    }
    true
}

} // verus!
