//! Stable sorting of catalog entries by named fields.
//!
//! A sort specification is an ordered list of field and direction pairs.
//! One stable insertion pass runs per key, in reverse list order, so that
//! the first listed key dominates the final ordering. The fields `datetime`
//! and `id` compare their strings lexicographically; any other field
//! compares as equal, which makes that pass keep the prior order.

use vstd::prelude::*;
use crate::item::Item;
use crate::strutil::{lemma_lex_le_total, lemma_lex_le_trans, lex_le, str_eq, str_le};

verus! {

/// The datetime string an entry sorts under: its searchable timestamp, or
/// the empty string when it has none.
pub open spec fn item_datetime_str(it: Item) -> Seq<char> {
    match it.properties.datetime {
        Some(s) => s@,
        None => Seq::empty(),
    }
}

/// Whether `a` comes weakly before `b` under one sort key.
pub open spec fn entry_le(field: Seq<char>, desc: bool, a: Item, b: Item) -> bool {
    if field == "datetime"@ {
        if desc {
            lex_le(item_datetime_str(b), item_datetime_str(a))
        } else {
            lex_le(item_datetime_str(a), item_datetime_str(b))
        }
    } else if field == "id"@ {
        if desc {
            lex_le(b.id@, a.id@)
        } else {
            lex_le(a.id@, b.id@)
        }
    } else {
        true
    }
}

/// Any two entries are comparable under any key.
pub proof fn lemma_entry_le_total(field: Seq<char>, desc: bool, a: Item, b: Item)
    ensures
        entry_le(field, desc, a, b) || entry_le(field, desc, b, a),
{
    if field == "datetime"@ {
        lemma_lex_le_total(item_datetime_str(a), item_datetime_str(b));
    } else if field == "id"@ {
        lemma_lex_le_total(a.id@, b.id@);
    }
}

/// The ordering under any key is transitive.
pub proof fn lemma_entry_le_trans(field: Seq<char>, desc: bool, a: Item, b: Item, c: Item)
    requires
        entry_le(field, desc, a, b),
        entry_le(field, desc, b, c),
    ensures
        entry_le(field, desc, a, c),
{
    if field == "datetime"@ {
        if desc {
            lemma_lex_le_trans(item_datetime_str(c), item_datetime_str(b), item_datetime_str(a));
        } else {
            lemma_lex_le_trans(item_datetime_str(a), item_datetime_str(b), item_datetime_str(c));
        }
    } else if field == "id"@ {
        if desc {
            lemma_lex_le_trans(c.id@, b.id@, a.id@);
        } else {
            lemma_lex_le_trans(a.id@, b.id@, c.id@);
        }
    }
}

/// `x` inserted into `s` after every entry that comes weakly before it;
/// entries that compare equal therefore stay ahead of `x`.
pub open spec fn spec_insert(s: Seq<Item>, x: Item, field: Seq<char>, desc: bool) -> Seq<Item>
    decreases s.len(),
{
    if s.len() == 0 {
        seq![x]
    } else if !entry_le(field, desc, s[0], x) {
        seq![x] + s
    } else {
        seq![s[0]] + spec_insert(s.skip(1), x, field, desc)
    }
}

/// The stable insertion sort of `s` under one key.
pub open spec fn spec_isort(s: Seq<Item>, field: Seq<char>, desc: bool) -> Seq<Item>
    decreases s.len(),
{
    if s.len() == 0 {
        Seq::empty()
    } else {
        spec_insert(spec_isort(s.drop_last(), field, desc), s.last(), field, desc)
    }
}

/// `items` sorted under a list of keys, each a field and a direction: each
/// key sorts once, in reverse list order, so the first key decides last and
/// dominates.
pub open spec fn spec_sort_items(items: Seq<Item>, keys: Seq<(Seq<char>, Seq<char>)>) -> Seq<Item>
    decreases keys.len(),
{
    if keys.len() == 0 {
        items
    } else {
        spec_isort(spec_sort_items(items, keys.skip(1)), keys[0].0, keys[0].1 == "desc"@)
    }
}

/// Whether `s` is weakly ordered under one key.
pub open spec fn sorted_by(s: Seq<Item>, field: Seq<char>, desc: bool) -> bool {
    forall|i: int, j: int| 0 <= i < j < s.len() ==> entry_le(field, desc, #[trigger] s[i], #[trigger] s[j])
}

/// Inserting adds one entry, and every entry of the result is the inserted
/// one or one of the source.
pub proof fn lemma_insert_elems(s: Seq<Item>, x: Item, field: Seq<char>, desc: bool)
    ensures
        spec_insert(s, x, field, desc).len() == s.len() + 1,
        forall|i: int|
            0 <= i < spec_insert(s, x, field, desc).len() ==> #[trigger] spec_insert(
                s,
                x,
                field,
                desc,
            )[i] == x || s.contains(spec_insert(s, x, field, desc)[i]),
    decreases s.len(),
{
    if s.len() == 0 {
    } else if !entry_le(field, desc, s[0], x) {
        assert forall|i: int|
            0 <= i < spec_insert(s, x, field, desc).len() implies #[trigger] spec_insert(
            s,
            x,
            field,
            desc,
        )[i] == x || s.contains(spec_insert(s, x, field, desc)[i]) by {
            if i > 0 {
                assert(spec_insert(s, x, field, desc)[i] == s[i - 1]);
            }
        }
    } else {
        lemma_insert_elems(s.skip(1), x, field, desc);
        let r = spec_insert(s, x, field, desc);
        let rr = spec_insert(s.skip(1), x, field, desc);
        assert forall|i: int| 0 <= i < r.len() implies #[trigger] r[i] == x || s.contains(r[i]) by {
            if i == 0 {
                assert(r[0] == s[0]);
            } else {
                assert(r[i] == rr[i - 1]);
                if rr[i - 1] != x {
                    let j = choose|j: int| 0 <= j < s.skip(1).len() && s.skip(1)[j] == rr[i - 1];
                    assert(s[j + 1] == rr[i - 1]);
                }
            }
        }
    }
}

/// Inserting into an ordered run keeps it ordered.
pub proof fn lemma_insert_sorted(s: Seq<Item>, x: Item, field: Seq<char>, desc: bool)
    requires
        sorted_by(s, field, desc),
    ensures
        sorted_by(spec_insert(s, x, field, desc), field, desc),
    decreases s.len(),
{
    let r = spec_insert(s, x, field, desc);
    if s.len() == 0 {
    } else if !entry_le(field, desc, s[0], x) {
        lemma_entry_le_total(field, desc, s[0], x);
        assert forall|i: int, j: int| 0 <= i < j < r.len() implies entry_le(
            field,
            desc,
            #[trigger] r[i],
            #[trigger] r[j],
        ) by {
            if i == 0 {
                assert(r[j] == s[j - 1]);
                if j - 1 > 0 {
                    lemma_entry_le_trans(field, desc, x, s[0], s[j - 1]);
                }
            } else {
                assert(r[i] == s[i - 1] && r[j] == s[j - 1]);
            }
        }
    } else {
        assert(sorted_by(s.skip(1), field, desc));
        lemma_insert_sorted(s.skip(1), x, field, desc);
        lemma_insert_elems(s.skip(1), x, field, desc);
        let rr = spec_insert(s.skip(1), x, field, desc);
        assert forall|i: int, j: int| 0 <= i < j < r.len() implies entry_le(
            field,
            desc,
            #[trigger] r[i],
            #[trigger] r[j],
        ) by {
            if i == 0 {
                assert(r[j] == rr[j - 1]);
                if rr[j - 1] == x {
                    assert(entry_le(field, desc, s[0], x));
                } else {
                    let q = choose|q: int| 0 <= q < s.skip(1).len() && s.skip(1)[q] == rr[j - 1];
                    assert(s[q + 1] == rr[j - 1]);
                    assert(entry_le(field, desc, s[0], s[q + 1]));
                }
            } else {
                assert(r[i] == rr[i - 1] && r[j] == rr[j - 1]);
            }
        }
    }
}

/// An insertion sort under one key leaves the run ordered.
pub proof fn lemma_isort_sorted(s: Seq<Item>, field: Seq<char>, desc: bool)
    ensures
        sorted_by(spec_isort(s, field, desc), field, desc),
    decreases s.len(),
{
    if s.len() > 0 {
        lemma_isort_sorted(s.drop_last(), field, desc);
        lemma_insert_sorted(spec_isort(s.drop_last(), field, desc), s.last(), field, desc);
    }
}

/// Inserting an entry adds exactly it to the run's contents.
pub proof fn lemma_insert_multiset(s: Seq<Item>, x: Item, field: Seq<char>, desc: bool)
    ensures
        spec_insert(s, x, field, desc).to_multiset() =~= s.to_multiset().insert(x),
    decreases s.len(),
{
    broadcast use vstd::seq_lib::group_to_multiset_ensures;

    let r = spec_insert(s, x, field, desc);
    if s.len() == 0 {
        assert(r =~= Seq::<Item>::empty().push(x));
    } else if !entry_le(field, desc, s[0], x) {
        assert(r.remove(0) =~= s);
        assert(r.remove(0).to_multiset() =~= r.to_multiset().remove(r[0]));
        assert(r[0] == x);
        assert(r.to_multiset().contains(x)) by {
            assert(r.contains(x)) by {
                assert(r[0] == x);
            }
        }
        assert forall|e: Item| true implies r.to_multiset().count(e) == s.to_multiset().insert(
            x,
        ).count(e) by {
            if e == x {
                assert(r.to_multiset().remove(x).count(x) == s.to_multiset().count(x));
            } else {
                assert(r.to_multiset().remove(x).count(e) == s.to_multiset().count(e));
            }
        }
        assert(r.to_multiset() =~= s.to_multiset().insert(x));
    } else {
        lemma_insert_multiset(s.skip(1), x, field, desc);
        let rr = spec_insert(s.skip(1), x, field, desc);
        assert(r.remove(0) =~= rr);
        assert(r.remove(0).to_multiset() =~= r.to_multiset().remove(r[0]));
        assert(r[0] == s[0]);
        assert(s.remove(0) =~= s.skip(1));
        assert(s.remove(0).to_multiset() =~= s.to_multiset().remove(s[0]));
        assert(r.to_multiset().contains(s[0])) by {
            assert(r.contains(s[0])) by {
                assert(r[0] == s[0]);
            }
        }
        assert(s.to_multiset().contains(s[0])) by {
            assert(s.contains(s[0])) by {
                assert(s[0] == s[0]);
            }
        }
        assert forall|e: Item| true implies r.to_multiset().count(e) == s.to_multiset().insert(
            x,
        ).count(e) by {
            assert(r.to_multiset().remove(s[0]).count(e) == s.skip(1).to_multiset().insert(
                x,
            ).count(e));
            assert(s.to_multiset().remove(s[0]).count(e) == s.skip(1).to_multiset().count(e));
        }
        assert(r.to_multiset() =~= s.to_multiset().insert(x));
    }
}

/// A sorting pass rearranges the run and neither adds nor drops entries.
pub proof fn lemma_isort_multiset(s: Seq<Item>, field: Seq<char>, desc: bool)
    ensures
        spec_isort(s, field, desc).to_multiset() =~= s.to_multiset(),
    decreases s.len(),
{
    broadcast use vstd::seq_lib::group_to_multiset_ensures;

    if s.len() > 0 {
        lemma_isort_multiset(s.drop_last(), field, desc);
        lemma_insert_multiset(spec_isort(s.drop_last(), field, desc), s.last(), field, desc);
        assert(s =~= s.drop_last().push(s.last()));
        assert(s.drop_last().push(s.last()).to_multiset() =~= s.drop_last().to_multiset().insert(
            s.last(),
        ));
    }
}

/// Sorting under any list of keys keeps exactly the entries given.
pub proof fn lemma_sort_items_permutation(items: Seq<Item>, keys: Seq<(Seq<char>, Seq<char>)>)
    ensures
        spec_sort_items(items, keys).to_multiset() =~= items.to_multiset(),
    decreases keys.len(),
{
    if keys.len() > 0 {
        lemma_sort_items_permutation(items, keys.skip(1));
        lemma_isort_multiset(spec_sort_items(items, keys.skip(1)), keys[0].0, keys[0].1 == "desc"@);
    }
}

/// Under a key whose field is neither `datetime` nor `id`, every pass is a
/// no-op: the input order is preserved.
pub proof fn lemma_isort_unknown_field(s: Seq<Item>, field: Seq<char>, desc: bool)
    requires
        field != "datetime"@,
        field != "id"@,
    ensures
        spec_isort(s, field, desc) == s,
    decreases s.len(),
{
    if s.len() > 0 {
        lemma_isort_unknown_field(s.drop_last(), field, desc);
        lemma_insert_unknown_field(s.drop_last(), s.last(), field, desc);
        assert(s.drop_last().push(s.last()) =~= s);
    }
}

proof fn lemma_insert_unknown_field(s: Seq<Item>, x: Item, field: Seq<char>, desc: bool)
    requires
        field != "datetime"@,
        field != "id"@,
    ensures
        spec_insert(s, x, field, desc) == s.push(x),
    decreases s.len(),
{
    if s.len() == 0 {
        assert(spec_insert(s, x, field, desc) =~= s.push(x));
    } else {
        lemma_insert_unknown_field(s.skip(1), x, field, desc);
        assert(seq![s[0]] + s.skip(1).push(x) =~= s.push(x));
    }
}

/// Sorting by `id` ascending as the only key yields non-decreasing
/// identifiers.
pub proof fn lemma_sort_by_id_ascending(items: Seq<Item>, keys: Seq<(Seq<char>, Seq<char>)>)
    requires
        keys.len() == 1,
        keys[0].0 == "id"@,
        keys[0].1 != "desc"@,
    ensures
        forall|i: int, j: int|
            0 <= i < j < spec_sort_items(items, keys).len() ==> lex_le(
                (#[trigger] spec_sort_items(items, keys)[i]).id@,
                (#[trigger] spec_sort_items(items, keys)[j]).id@,
            ),
{
    assert(keys.skip(1).len() == 0);
    assert(spec_sort_items(items, keys.skip(1)) == items);
    reveal_strlit("id");
    reveal_strlit("datetime");
    assert("id"@.len() != "datetime"@.len());
    lemma_isort_sorted(items, "id"@, false);
    assert(spec_sort_items(items, keys) == spec_isort(items, "id"@, false));
}

/// Sorting by `datetime` descending as the only key yields non-increasing
/// timestamp strings.
pub proof fn lemma_sort_by_datetime_descending(items: Seq<Item>, keys: Seq<(Seq<char>, Seq<char>)>)
    requires
        keys.len() == 1,
        keys[0].0 == "datetime"@,
        keys[0].1 == "desc"@,
    ensures
        forall|i: int, j: int|
            0 <= i < j < spec_sort_items(items, keys).len() ==> lex_le(
                item_datetime_str(#[trigger] spec_sort_items(items, keys)[j]),
                item_datetime_str(#[trigger] spec_sort_items(items, keys)[i]),
            ),
{
    assert(keys.skip(1).len() == 0);
    assert(spec_sort_items(items, keys.skip(1)) == items);
    lemma_isort_sorted(items, "datetime"@, true);
    assert(spec_sort_items(items, keys) == spec_isort(items, "datetime"@, true));
}

/// Sorting by an unknown field as the only key keeps the input order.
pub proof fn lemma_sort_unknown_field_noop(items: Seq<Item>, keys: Seq<(Seq<char>, Seq<char>)>)
    requires
        keys.len() == 1,
        keys[0].0 != "datetime"@,
        keys[0].0 != "id"@,
    ensures
        spec_sort_items(items, keys) == items,
{
    assert(keys.skip(1).len() == 0);
    assert(spec_sort_items(items, keys.skip(1)) == items);
    lemma_isort_unknown_field(items, keys[0].0, keys[0].1 == "desc"@);
}

fn entry_le_exec(field: &str, desc: bool, a: &Item, b: &Item) -> (r: bool)
    ensures
        r == entry_le(field@, desc, *a, *b),
{
    proof {
        reveal_strlit("");
    }
    if str_eq(field, "datetime") {
        let da: &str = match &a.properties.datetime {
            Some(s) => s.as_str(),
            None => "",
        };
        let db: &str = match &b.properties.datetime {
            Some(s) => s.as_str(),
            None => "",
        };
        proof {
            assert(""@ =~= Seq::<char>::empty());
        }
        if desc {
            str_le(db, da)
        } else {
            str_le(da, db)
        }
    } else if str_eq(field, "id") {
        if desc {
            str_le(b.id.as_str(), a.id.as_str())
        } else {
            str_le(a.id.as_str(), b.id.as_str())
        }
    } else {
        true
    }
}

/// Positional insertion agrees with the recursive insertion: when the first
/// `k` entries come weakly before `x` and the next does not, `x` lands at
/// index `k`.
proof fn lemma_insert_at(s: Seq<Item>, x: Item, k: int, field: Seq<char>, desc: bool)
    requires
        0 <= k <= s.len(),
        forall|j: int| 0 <= j < k ==> entry_le(field, desc, #[trigger] s[j], x),
        k < s.len() ==> !entry_le(field, desc, s[k], x),
    ensures
        spec_insert(s, x, field, desc) == s.subrange(0, k) + seq![x] + s.skip(k),
    decreases k,
{
    if k == 0 {
        if s.len() == 0 {
            assert(spec_insert(s, x, field, desc) =~= s.subrange(0, 0) + seq![x] + s.skip(0));
        } else {
            assert(seq![x] + s =~= s.subrange(0, 0) + seq![x] + s.skip(0));
        }
    } else {
        assert(entry_le(field, desc, s[0], x));
        assert(forall|j: int| 0 <= j < k - 1 ==> entry_le(field, desc, #[trigger] s.skip(1)[j], x));
        assert(k - 1 < s.skip(1).len() ==> !entry_le(field, desc, s.skip(1)[k - 1], x));
        lemma_insert_at(s.skip(1), x, k - 1, field, desc);
        assert(seq![s[0]] + (s.skip(1).subrange(0, k - 1) + seq![x] + s.skip(1).skip(k - 1)) =~= s.subrange(
            0,
            k,
        ) + seq![x] + s.skip(k));
    }
}

fn insert_item(items: Vec<Item>, x: Item, field: &str, desc: bool) -> (r: Vec<Item>)
    ensures
        r@ == spec_insert(items@, x, field@, desc),
{
    let n = items.len();
    let mut k: usize = 0;
    while k < n && entry_le_exec(field, desc, &items[k], &x)
        invariant
            k <= n,
            n == items@.len(),
            forall|j: int| 0 <= j < k ==> entry_le(field@, desc, #[trigger] items@[j], x),
        decreases n - k,
    {
        k = k + 1;
    }
    proof {
        lemma_insert_at(items@, x, k as int, field@, desc);
    }
    let mut out = items;
    let ghost pre = out@;
    out.insert(k, x);
    proof {
        assert(out@ =~= pre.subrange(0, k as int) + seq![x] + pre.skip(k as int));
    }
    out
}

fn isort_pass(items: Vec<Item>, field: &str, desc: bool) -> (r: Vec<Item>)
    ensures
        r@ == spec_isort(items@, field@, desc),
{
    let ghost orig = items@;
    let mut input = items;
    let mut out: Vec<Item> = Vec::new();
    let ghost mut i: int = 0;
    proof {
        assert(orig.take(0) =~= Seq::<Item>::empty());
        assert(orig.skip(0) =~= orig);
    }
    while input.len() > 0
        invariant
            0 <= i <= orig.len(),
            input@ == orig.skip(i),
            out@ == spec_isort(orig.take(i), field@, desc),
        decreases input@.len(),
    {
        let x = input.remove(0);
        proof {
            assert(x == orig[i]);
            assert(orig.skip(i).remove(0) =~= orig.skip(i + 1));
            assert(orig.take(i + 1).drop_last() =~= orig.take(i));
            assert(orig.take(i + 1).last() == orig[i]);
        }
        out = insert_item(out, x, field, desc);
        proof {
            i = i + 1;
        }
    }
    proof {
        assert(i == orig.len());
        assert(orig.take(i) =~= orig);
    }
    out
}

/// Sorts entries under the given keys: one stable pass per key, in reverse
/// list order.
pub fn sort_items(items: Vec<Item>, sortby: &Vec<(String, String)>) -> (r: Vec<Item>)
    ensures
        r@ == spec_sort_items(items@, sortby.deep_view()),
{
    let ghost orig = items@;
    let ghost keys = sortby.deep_view();
    let mut out = items;
    let n = sortby.len();
    let mut k: usize = n;
    proof {
        assert(keys.len() == sortby@.len());
        assert(keys.skip(n as int).len() == 0);
    }
    while k > 0
        invariant
            k <= n,
            n == sortby@.len(),
            keys == sortby.deep_view(),
            keys.len() == n,
            forall|q: int|
                0 <= q < n ==> #[trigger] keys[q] == ((sortby@[q].0@, sortby@[q].1@)),
            out@ == spec_sort_items(orig, keys.skip(k as int)),
        decreases k,
    {
        k = k - 1;
        let desc = str_eq(sortby[k].1.as_str(), "desc");
        proof {
            assert(keys.skip(k as int)[0] == keys[k as int]);
            assert(keys.skip(k as int).skip(1) =~= keys.skip(k as int + 1));
        }
        out = isort_pass(out, sortby[k].0.as_str(), desc);
    }
    proof {
        assert(keys.skip(0) =~= keys);
    }
    out
}

} // verus!
