//! Grouping of a release's changes by category, in an `indexmap::IndexMap`.

use crate::changelog::{Category, Change, ChangeModel};
use indexmap::IndexMap;
use vstd::prelude::*;

verus! {

/// `indexmap::IndexMap`, whose inside stays hidden.
#[verifier::external_type_specification]
#[verifier::external_body]
#[verifier::reject_recursive_types(K)]
#[verifier::reject_recursive_types(V)]
#[verifier::reject_recursive_types(S)]
pub struct ExIndexMap<K, V, S>(IndexMap<K, V, S>);

/// The entries of a table, in the order in which the table hands them out:
/// each a key with the positions filed under it.
pub uninterp spec fn table_entries(m: IndexMap<u8, Vec<usize>>) -> Seq<(u8, Seq<usize>)>;

/// Whether some entry has the key.
pub open spec fn has_key(entries: Seq<(u8, Seq<usize>)>, key: u8) -> bool {
    exists|i: int| 0 <= i < entries.len() && (#[trigger] entries[i]).0 == key
}

/// The place of an entry with the key.
pub open spec fn key_index(entries: Seq<(u8, Seq<usize>)>, key: u8) -> int {
    choose|i: int| 0 <= i < entries.len() && (#[trigger] entries[i]).0 == key
}

/// `IndexMap::new`: a table without entries.
#[verifier::external_body]
fn table_new() -> (m: IndexMap<u8, Vec<usize>>)
    ensures
        table_entries(m) == Seq::<(u8, Seq<usize>)>::empty(),
{
    IndexMap::new()
}

/// `IndexMap::insert` with a key that the table does not hold: the new entry
/// comes last, the others stay as they are.
#[verifier::external_body]
fn table_insert(m: &mut IndexMap<u8, Vec<usize>>, key: u8, value: Vec<usize>)
    requires
        !has_key(table_entries(*old(m)), key),
    ensures
        table_entries(*final(m)) == table_entries(*old(m)).push((key, value@)),
{
    m.insert(key, value);
}

/// `IndexMap::get_mut` with a key that the table holds: the value of the
/// entry with that key, which keeps its place and its key while the other
/// entries stay as they are.
#[verifier::external_body]
fn table_get_mut(m: &mut IndexMap<u8, Vec<usize>>, key: u8) -> (v: &mut Vec<usize>)
    requires
        has_key(table_entries(*old(m)), key),
    ensures
        v@ == table_entries(*old(m))[key_index(table_entries(*old(m)), key)].1,
        table_entries(*final(m)) == table_entries(*old(m)).update(
            key_index(table_entries(*old(m)), key),
            (key, final(v)@),
        ),
{
    m.get_mut(&key).unwrap()
}

/// `IndexMap::into_iter`, collected: the entries in the table's order.
#[verifier::external_body]
fn table_into_entries(m: IndexMap<u8, Vec<usize>>) -> (r: Vec<(u8, Vec<usize>)>)
    ensures
        r.len() == table_entries(m).len(),
        forall|i: int|
            0 <= i < r.len() ==> (#[trigger] r[i]).0 == table_entries(m)[i].0 && r[i].1@
                == table_entries(m)[i].1,
{
    m.into_iter().collect()
}

/// The category at a place of the order in which a release lists them.
pub open spec fn category_at(k: int) -> Category {
    if k == 0 {
        Category::Added
    } else if k == 1 {
        Category::Changed
    } else if k == 2 {
        Category::Deprecated
    } else if k == 3 {
        Category::Removed
    } else if k == 4 {
        Category::Fixed
    } else {
        Category::Security
    }
}

/// The place of a category in that order.
pub fn code_of(c: Category) -> (k: u8)
    ensures
        k < 6,
        category_at(k as int) == c,
{
    match c {
        Category::Added => 0,
        Category::Changed => 1,
        Category::Deprecated => 2,
        Category::Removed => 3,
        Category::Fixed => 4,
        Category::Security => 5,
    }
}

/// The category at a place of that order.
pub fn category_of_code(k: u8) -> (c: Category)
    ensures
        c == category_at(k as int),
{
    if k == 0 {
        Category::Added
    } else if k == 1 {
        Category::Changed
    } else if k == 2 {
        Category::Deprecated
    } else if k == 3 {
        Category::Removed
    } else if k == 4 {
        Category::Fixed
    } else {
        Category::Security
    }
}

/// The positions below `n` of the changes of category `c`, in rising order.
pub open spec fn positions(changes: Seq<ChangeModel>, c: Category, n: int) -> Seq<int>
    decreases n,
{
    if n <= 0 {
        Seq::empty()
    } else {
        let rest = positions(changes, c, n - 1);
        if n <= changes.len() && changes[n - 1].category == c {
            rest.push(n - 1)
        } else {
            rest
        }
    }
}

/// The positions of all changes of category `c`.
pub open spec fn group_positions(changes: Seq<ChangeModel>, c: Category) -> Seq<int> {
    positions(changes, c, changes.len() as int)
}

/// The changes of category `c`, in the order in which `changes` holds them.
pub open spec fn group(changes: Seq<ChangeModel>, c: Category) -> Seq<ChangeModel> {
    group_positions(changes, c).map_values(|i: int| changes[i])
}

/// The models of a list of changes.
pub open spec fn models(changes: Seq<Change>) -> Seq<ChangeModel> {
    changes.map_values(|c: Change| c@)
}

/// A list of positions as integers.
pub open spec fn as_ints(s: Seq<usize>) -> Seq<int> {
    s.map_values(|i: usize| i as int)
}

/// `positions` lists exactly the places below `n` that hold a change of the
/// category, each once and in rising order.
pub proof fn lemma_positions(changes: Seq<ChangeModel>, c: Category, n: int)
    requires
        0 <= n <= changes.len(),
    ensures
        forall|a: int|
            0 <= a < positions(changes, c, n).len() ==> 0 <= #[trigger] positions(changes, c, n)[a]
                < n && changes[positions(changes, c, n)[a]].category == c,
        forall|a: int, b: int|
            0 <= a < b < positions(changes, c, n).len() ==> positions(changes, c, n)[a]
                < positions(changes, c, n)[b],
        forall|i: int|
            0 <= i < n && (#[trigger] changes[i]).category == c ==> positions(
                changes,
                c,
                n,
            ).contains(i),
    decreases n,
{
    if n > 0 {
        lemma_positions(changes, c, n - 1);
        let rest = positions(changes, c, n - 1);
        let all = positions(changes, c, n);
        if changes[n - 1].category == c {
            assert(all[all.len() - 1] == n - 1);
            assert forall|i: int| 0 <= i < n && (#[trigger] changes[i]).category
                == c implies all.contains(i) by {
                if i < n - 1 {
                    assert(rest.contains(i));
                    let a = choose|a: int| 0 <= a < rest.len() && rest[a] == i;
                    assert(all[a] == i);
                }
            }
        }
    }
}

/// Grouping is stable: the changes of one category are those of the list
/// that have it, each once and in the order of the list.
pub proof fn lemma_group_is_stable(changes: Seq<ChangeModel>, c: Category)
    ensures
        group(changes, c).len() == group_positions(changes, c).len(),
        forall|a: int|
            0 <= a < group(changes, c).len() ==> {
                &&& 0 <= #[trigger] group_positions(changes, c)[a] < changes.len()
                &&& group(changes, c)[a] == changes[group_positions(changes, c)[a]]
                &&& group(changes, c)[a].category == c
            },
        forall|a: int, b: int|
            0 <= a < b < group(changes, c).len() ==> group_positions(changes, c)[a]
                < group_positions(changes, c)[b],
        forall|i: int|
            0 <= i < changes.len() && (#[trigger] changes[i]).category == c ==> group_positions(
                changes,
                c,
            ).contains(i),
{
    lemma_positions(changes, c, changes.len() as int);
}

/// A category without changes has an empty group.
pub proof fn lemma_empty_group(changes: Seq<ChangeModel>, c: Category)
    ensures
        group(changes, c).len() == 0 <==> forall|i: int|
            0 <= i < changes.len() ==> (#[trigger] changes[i]).category != c,
{
    lemma_positions(changes, c, changes.len() as int);
    let p = group_positions(changes, c);
    if p.len() > 0 {
        assert(changes[p[0]].category == c);
    }
    if exists|i: int| 0 <= i < changes.len() && (#[trigger] changes[i]).category == c {
        let i = choose|i: int| 0 <= i < changes.len() && (#[trigger] changes[i]).category == c;
        assert(p.contains(i));
    }
}

/// Whether `entries` holds, for each of the first `upto` categories and in
/// their order, the positions below `n` of the changes of that category.
pub open spec fn is_grouping(
    entries: Seq<(u8, Seq<usize>)>,
    changes: Seq<ChangeModel>,
    upto: int,
    n: int,
) -> bool {
    &&& entries.len() == upto
    &&& forall|k: int|
        0 <= k < upto ==> (#[trigger] entries[k]).0 == k && as_ints(entries[k].1) == positions(
            changes,
            category_at(k),
            n,
        )
}

/// The positions of the changes of each category, the six categories in
/// their order.
pub fn group_by_category(changes: &Vec<Change>) -> (r: Vec<(u8, Vec<usize>)>)
    ensures
        r.len() == 6,
        forall|k: int|
            0 <= k < 6 ==> (#[trigger] r[k]).0 == k && as_ints(r[k].1@) == group_positions(
                models(changes@),
                category_at(k),
            ),
{
    let ghost cm = models(changes@);
    let mut table = table_new();
    let mut k: u8 = 0;
    while k < 6
        invariant
            k <= 6,
            is_grouping(table_entries(table), cm, k as int, 0),
        decreases 6 - k,
    {
        let ghost before = table_entries(table);
        assert(!has_key(before, k));
        let empty: Vec<usize> = Vec::new();
        assert(as_ints(empty@) =~= Seq::<int>::empty());
        table_insert(&mut table, k, empty);
        k += 1;
    }
    let mut i: usize = 0;
    while i < changes.len()
        invariant
            i <= changes.len(),
            cm == models(changes@),
            is_grouping(table_entries(table), cm, 6, i as int),
        decreases changes.len() - i,
    {
        let ghost before = table_entries(table);
        let key = code_of(changes[i].category());
        assert(before[key as int].0 == key);
        let ghost at = key_index(before, key);
        assert(at == key as int);
        let bucket = table_get_mut(&mut table, key);
        bucket.push(i);
        proof {
            let after = table_entries(table);
            assert(cm[i as int] == changes@[i as int]@);
            assert forall|k: int| 0 <= k < 6 implies (#[trigger] after[k]).0 == k && as_ints(
                after[k].1,
            ) == positions(cm, category_at(k), i + 1) by {
                if k == key as int {
                    assert(as_ints(after[k].1) =~= as_ints(before[k].1).push(i as int));
                } else {
                    assert(after[k] == before[k]);
                }
            }
        }
        i += 1;
    }
    table_into_entries(table)
}

} // verus!
