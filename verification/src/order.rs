//! The order of strings, and sorting by it.
use vstd::prelude::*;

use crate::text;
use crate::text::chars_of;

verus! {

/// Whether `a` comes before `b` or equals it, character by character.
///
/// Strings are ordered by their UTF-8 bytes, which order characters by their
/// code points.
pub open spec fn text_le(a: Seq<char>, b: Seq<char>) -> bool
    decreases a.len(),
{
    if a.len() == 0 {
        true
    } else if b.len() == 0 {
        false
    } else if a[0] == b[0] {
        text_le(a.drop_first(), b.drop_first())
    } else {
        (a[0] as int) < (b[0] as int)
    }
}

/// `text_le` as a relation.
pub open spec fn text_order() -> spec_fn(Seq<char>, Seq<char>) -> bool {
    |a: Seq<char>, b: Seq<char>| text_le(a, b)
}

/// The list in ascending order.
pub open spec fn sorted(list: Seq<Seq<char>>) -> Seq<Seq<char>> {
    list.sort_by(text_order())
}

proof fn lemma_reflexive(a: Seq<char>)
    ensures
        text_le(a, a),
    decreases a.len(),
{
    if a.len() > 0 {
        lemma_reflexive(a.drop_first());
    }
}

proof fn lemma_antisymmetric(a: Seq<char>, b: Seq<char>)
    requires
        text_le(a, b),
        text_le(b, a),
    ensures
        a == b,
    decreases a.len(),
{
    if a.len() > 0 && b.len() > 0 {
        assert(a[0] == b[0]);
        lemma_antisymmetric(a.drop_first(), b.drop_first());
        assert(a =~= seq![a[0]] + a.drop_first());
        assert(b =~= seq![b[0]] + b.drop_first());
    } else {
        assert(a =~= b);
    }
}

proof fn lemma_transitive(a: Seq<char>, b: Seq<char>, c: Seq<char>)
    requires
        text_le(a, b),
        text_le(b, c),
    ensures
        text_le(a, c),
    decreases a.len(),
{
    if a.len() > 0 && b.len() > 0 && c.len() > 0 {
        if a[0] == b[0] && b[0] == c[0] {
            lemma_transitive(a.drop_first(), b.drop_first(), c.drop_first());
        }
    }
}

proof fn lemma_connected(a: Seq<char>, b: Seq<char>)
    ensures
        text_le(a, b) || text_le(b, a),
    decreases a.len(),
{
    if a.len() > 0 && b.len() > 0 && a[0] == b[0] {
        lemma_connected(a.drop_first(), b.drop_first());
    }
}

/// The order of strings is a total order.
pub proof fn lemma_total()
    ensures
        vstd::relations::total_ordering(text_order()),
{
    let r = text_order();
    assert forall|a: Seq<char>| #[trigger] r(a, a) by {
        lemma_reflexive(a);
    }
    assert forall|a: Seq<char>, b: Seq<char>| #[trigger] r(a, b) && #[trigger] r(b, a) implies a
        == b by {
        lemma_antisymmetric(a, b);
    }
    assert forall|a: Seq<char>, b: Seq<char>, c: Seq<char>| #[trigger]
        r(a, b) && #[trigger] r(b, c) implies r(a, c) by {
        lemma_transitive(a, b, c);
    }
    assert forall|a: Seq<char>, b: Seq<char>| #[trigger] r(a, b) || #[trigger] r(b, a) by {
        lemma_connected(a, b);
    }
}

/// Whether `a` comes before `b` or equals it.
#[verifier::loop_isolation(false)]
fn at_most(a: &Vec<char>, b: &Vec<char>) -> (res: bool)
    ensures
        res == text_le(a@, b@),
{
    let mut i: usize = 0;
    assert(a@.skip(0) =~= a@);
    assert(b@.skip(0) =~= b@);
    while i < a.len() && i < b.len()
        invariant
            i <= a@.len(),
            i <= b@.len(),
            text_le(a@, b@) == text_le(a@.skip(i as int), b@.skip(i as int)),
        decreases a@.len() - i,
    {
        if a[i] != b[i] {
            let x = a[i] as u32;
            let y = b[i] as u32;
            proof {
                vstd::utf8::char_u32_cast(a@[i as int], x);
                vstd::utf8::char_u32_cast(b@[i as int], y);
            }
            return x < y;
        }
        assert(a@.skip(i as int).drop_first() =~= a@.skip(i + 1));
        assert(b@.skip(i as int).drop_first() =~= b@.skip(i + 1));
        i += 1;
    }
    i == a.len()
}

/// The strings of `list` in ascending order.
#[verifier::loop_isolation(false)]
pub fn sort(list: Vec<String>) -> (res: Vec<String>)
    ensures
        text::views(res@) == sorted(text::views(list@)),
{
    proof {
        lemma_total();
    }
    let ghost r = text_order();
    let mut res: Vec<String> = Vec::new();
    let mut i: usize = 0;
    assert(text::views(res@) =~= text::views(list@).take(0));
    while i < list.len()
        invariant
            i <= list@.len(),
            vstd::relations::sorted_by(text::views(res@), r),
            text::views(res@).to_multiset() == text::views(list@).take(i as int).to_multiset(),
        decreases list@.len() - i,
    {
        let item = chars_of(list[i].as_str());
        let mut at: usize = 0;
        while at < res.len() && at_most(&chars_of(res[at].as_str()), &item)
            invariant
                at <= res@.len(),
                forall|k: int| 0 <= k < at ==> #[trigger] r(text::views(res@)[k], item@),
            decreases res@.len() - at,
        {
            at += 1;
        }
        let ghost before = text::views(res@);
        res.insert(at, list[i].clone());
        proof {
            let after = text::views(res@);
            assert(after =~= before.insert(at as int, item@));
            vstd::seq_lib::to_multiset_insert(before, at as int, item@);
            let done = text::views(list@).take(i as int);
            assert(text::views(list@).take(i + 1) =~= done.push(item@));
            vstd::seq_lib::to_multiset_build(done, item@);
            assert forall|x: int, y: int| 0 <= x < y < after.len() implies #[trigger] r(
                after[x],
                after[y],
            ) by {
                let px = if x > at { x - 1 } else { x };
                let py = if y > at { y - 1 } else { y };
                if x == at {
                    lemma_connected(before[at as int], item@);
                    assert(r(item@, before[at as int]));
                    if py > at {
                        assert(r(before[at as int], before[py]));
                        lemma_transitive(item@, before[at as int], before[py]);
                    }
                } else if y == at {
                    assert(r(before[px], item@));
                } else {
                    assert(r(before[px], before[py]));
                }
            }
        }
        i += 1;
    }
    proof {
        assert(text::views(list@).take(i as int) =~= text::views(list@));
        text::views(list@).lemma_sort_by_ensures(r);
        vstd::seq_lib::lemma_sorted_unique(text::views(res@), sorted(text::views(list@)), r);
    }
    res
}

/// The members of a finite set in ascending order.
pub open spec fn sorted_set(set: Set<Seq<char>>) -> Seq<Seq<char>> {
    sorted(set.to_seq())
}

/// Listing a finite set yields each member once.
proof fn lemma_listed_once(set: Set<Seq<char>>)
    requires
        set.finite(),
    ensures
        set.to_seq().to_set() == set,
        set.to_seq().no_duplicates(),
{
    set.lemma_to_seq_to_set_id();
    lemma_listed_len(set);
    set.to_seq().lemma_no_dup_set_cardinality();
}

/// Listing a finite set yields as many items as it has members.
proof fn lemma_listed_len(set: Set<Seq<char>>)
    requires
        set.finite(),
    ensures
        set.to_seq().len() == set.len(),
    decreases set.len(),
{
    if set.len() > 0 {
        lemma_listed_len(set.remove(set.choose()));
    }
}

/// Sorting a list without duplicates sorts the set of its items.
pub proof fn lemma_sorted_set(list: Seq<Seq<char>>)
    requires
        list.no_duplicates(),
    ensures
        sorted(list) == sorted_set(list.to_set()),
{
    broadcast use vstd::seq_lib::group_to_multiset_ensures;

    vstd::seq_lib::seq_to_set_is_finite(list);
    let other = list.to_set().to_seq();
    lemma_listed_once(list.to_set());
    list.lemma_multiset_has_no_duplicates();
    other.lemma_multiset_has_no_duplicates();
    assert forall|x: Seq<char>| list.to_multiset().count(x) == other.to_multiset().count(x) by {
        assert(list.contains(x) == list.to_set().contains(x));
        assert(other.contains(x) == other.to_set().contains(x));
    }
    assert(list.to_multiset() =~= other.to_multiset());
    lemma_total();
    list.lemma_sort_by_ensures(text_order());
    other.lemma_sort_by_ensures(text_order());
    vstd::seq_lib::lemma_sorted_unique(sorted(list), sorted(other), text_order());
}

/// Every member of a finite set stands in its sorted list.
pub proof fn lemma_in_sorted_set(set: Set<Seq<char>>, item: Seq<char>)
    requires
        set.finite(),
        set.contains(item),
    ensures
        sorted_set(set).contains(item),
{
    broadcast use vstd::seq_lib::group_to_multiset_ensures;

    let list = set.to_seq();
    lemma_listed_once(set);
    assert(list.to_set().contains(item));
    lemma_total();
    list.lemma_sort_by_ensures(text_order());
    assert(list.to_multiset().count(item) > 0);
    assert(sorted(list).to_multiset().count(item) > 0);
}

/// Strings are ordered by the first character in which they differ, by its
/// code point; a string comes before every longer one that it starts.
pub proof fn law_the_first_difference_decides(
    start: Seq<char>,
    x: char,
    a: Seq<char>,
    y: char,
    b: Seq<char>,
)
    requires
        (x as int) < (y as int),
    ensures
        text_le(start + seq![x] + a, start + seq![y] + b),
        !text_le(start + seq![y] + b, start + seq![x] + a),
        text_le(start, start + a),
        a.len() > 0 ==> !text_le(start + a, start),
    decreases start.len(),
{
    let p = start + seq![x] + a;
    let q = start + seq![y] + b;
    if start.len() == 0 {
        assert(p[0] == x);
        assert(q[0] == y);
        assert(start + a =~= a);
    } else {
        law_the_first_difference_decides(start.drop_first(), x, a, y, b);
        assert(p.drop_first() =~= start.drop_first() + seq![x] + a);
        assert(q.drop_first() =~= start.drop_first() + seq![y] + b);
        assert((start + a).drop_first() =~= start.drop_first() + a);
    }
}

/// Sorting keeps every item as often as it occurs, and puts none before a
/// smaller one.
pub proof fn law_sorting_keeps_and_orders(list: Seq<Seq<char>>)
    ensures
        sorted(list).to_multiset() == list.to_multiset(),
        forall|i: int, j: int|
            0 <= i < j < sorted(list).len() ==> text_le(
                #[trigger] sorted(list)[i],
                #[trigger] sorted(list)[j],
            ),
{
    lemma_total();
    list.lemma_sort_by_ensures(text_order());
    let res = sorted(list);
    assert forall|i: int, j: int| 0 <= i < j < res.len() implies text_le(
        #[trigger] res[i],
        #[trigger] res[j],
    ) by {
        assert(text_order()(res[i], res[j]));
    }
}

/// The sorted list of a finite set holds its members only.
pub proof fn lemma_sorted_set_members(set: Set<Seq<char>>, i: int)
    requires
        set.finite(),
        0 <= i < sorted_set(set).len(),
    ensures
        set.contains(sorted_set(set)[i]),
{
    broadcast use vstd::seq_lib::group_to_multiset_ensures;

    let list = set.to_seq();
    lemma_listed_once(set);
    lemma_total();
    list.lemma_sort_by_ensures(text_order());
    let item = sorted(list)[i];
    assert(sorted(list).contains(item));
    assert(sorted(list).to_multiset().count(item) > 0);
    assert(list.to_multiset().count(item) > 0);
    assert(list.contains(item));
    assert(list.to_set().contains(item));
}

/// Sorting keeps the number of items.
pub proof fn lemma_sorted_len(list: Seq<Seq<char>>)
    ensures
        sorted(list).len() == list.len(),
{
    broadcast use vstd::seq_lib::group_to_multiset_ensures;

    law_sorting_keeps_and_orders(list);
    assert(sorted(list).to_multiset().len() == list.to_multiset().len());
}

/// Sorting keeps the items.
pub proof fn lemma_sorted_contains(list: Seq<Seq<char>>, item: Seq<char>)
    requires
        list.contains(item),
    ensures
        sorted(list).contains(item),
{
    broadcast use vstd::seq_lib::group_to_multiset_ensures;

    law_sorting_keeps_and_orders(list);
    assert(list.to_multiset().count(item) > 0);
    assert(sorted(list).to_multiset().count(item) > 0);
}

/// A list that is in ascending order stays as it is when it is sorted, and so
/// does every other list of the same items become it.
pub proof fn law_sorted_lists_stay(list: Seq<Seq<char>>, other: Seq<Seq<char>>)
    requires
        forall|i: int, j: int|
            0 <= i < j < list.len() ==> text_le(#[trigger] list[i], #[trigger] list[j]),
        other.to_multiset() == list.to_multiset(),
    ensures
        sorted(other) == list,
        list.no_duplicates() ==> sorted_set(list.to_set()) == list,
{
    lemma_total();
    other.lemma_sort_by_ensures(text_order());
    list.lemma_sort_by_ensures(text_order());
    assert(vstd::relations::sorted_by(list, text_order()));
    vstd::seq_lib::lemma_sorted_unique(sorted(other), list, text_order());
    vstd::seq_lib::lemma_sorted_unique(sorted(list), list, text_order());
    if list.no_duplicates() {
        lemma_sorted_set(list);
    }
}

/// The sorted list of a finite set has as many items as the set.
pub proof fn lemma_sorted_set_len(set: Set<Seq<char>>)
    requires
        set.finite(),
    ensures
        sorted_set(set).len() == set.len(),
{
    lemma_listed_len(set);
    lemma_sorted_len(set.to_seq());
}

} // verus!
