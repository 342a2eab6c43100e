//! Stable ordering of items by a text key.

use vstd::prelude::*;
use crate::domain::{lemma_path_order, path_less, NativePath, PathText};
use crate::duplicates::string_views;
use crate::text::{
    chars_less, chars_of, compare_chars, compare_strings, lemma_chars_less_total, lemma_chars_less_transitive,
};

verus! {

/// Inserts `x` after every element whose key is not greater than its key.
pub open spec fn spec_insert<T>(s: Seq<(Seq<char>, T)>, x: (Seq<char>, T)) -> Seq<(Seq<char>, T)>
    decreases s.len(),
{
    if s.len() == 0 {
        seq![x]
    } else if chars_less(x.0, s.last().0) {
        spec_insert(s.drop_last(), x).push(s.last())
    } else {
        s.push(x)
    }
}

/// Stable insertion sort of keyed items by key.
pub open spec fn spec_sort_by_key<T>(s: Seq<(Seq<char>, T)>) -> Seq<(Seq<char>, T)>
    decreases s.len(),
{
    if s.len() == 0 {
        seq![]
    } else {
        spec_insert(spec_sort_by_key(s.drop_last()), s.last())
    }
}

/// Pairs each item with the text of its key.
pub open spec fn keyed<T>(keys: Seq<String>, items: Seq<T>) -> Seq<(Seq<char>, T)> {
    Seq::new(items.len(), |i: int| (keys[i]@, items[i]))
}

/// The items of `s`, in order.
pub open spec fn items_of<T>(s: Seq<(Seq<char>, T)>) -> Seq<T> {
    s.map_values(|p: (Seq<char>, T)| p.1)
}

proof fn lemma_insert_at<T>(s: Seq<(Seq<char>, T)>, x: (Seq<char>, T), pos: int)
    requires
        0 <= pos <= s.len(),
        forall|j: int| pos <= j < s.len() ==> chars_less(x.0, #[trigger] s[j].0),
        pos > 0 ==> !chars_less(x.0, s[pos - 1].0),
    ensures
        spec_insert(s, x) == s.take(pos).push(x) + s.skip(pos),
    decreases s.len(),
{
    if s.len() == 0 {
        assert(s.take(pos).push(x) + s.skip(pos) =~= seq![x]);
    } else if pos == s.len() {
        assert(s.take(pos) =~= s);
        assert(s.skip(pos) =~= Seq::<(Seq<char>, T)>::empty());
        assert(s.take(pos).push(x) + s.skip(pos) =~= s.push(x));
    } else {
        let d = s.drop_last();
        assert(chars_less(x.0, s[s.len() - 1].0));
        lemma_insert_at(d, x, pos);
        assert(d.take(pos) =~= s.take(pos));
        assert((d.take(pos).push(x) + d.skip(pos)).push(s.last()) =~= s.take(pos).push(x) + s.skip(pos));
    }
}

/// Sorts items stably by their keys in `str` order.
pub fn sort_by_key<T>(items: Vec<T>, keys: Vec<String>) -> (sorted: Vec<T>)
    requires
        items@.len() == keys@.len(),
    ensures
        sorted@ == items_of(spec_sort_by_key(keyed(keys@, items@))),
{
    let ghost input = keyed(keys@, items@);
    let mut items = items;
    let mut out_items: Vec<T> = Vec::new();
    let mut out_keys: Vec<Vec<char>> = Vec::new();
    let ghost mut done: Seq<(Seq<char>, T)> = seq![];
    let n = keys.len();
    let mut k: usize = 0;
    let ghost original = items@;
    // Items are taken from the front, so reverse them first.
    let mut reversed: Vec<T> = Vec::new();
    while items.len() > 0
        invariant
            items@.len() + reversed@.len() == original.len(),
            items@ == original.take(items@.len() as int),
            forall|j: int| 0 <= j < reversed@.len() ==>
                reversed@[j] == original[original.len() - 1 - j],
        decreases items@.len(),
    {
        let it = items.pop().unwrap();
        proof {
            assert(items@ =~= original.take(items@.len() as int));
        }
        reversed.push(it);
    }
    while k < n
        invariant
            n == keys@.len(),
            n == original.len(),
            input == keyed(keys@, original),
            k <= n,
            reversed@.len() == n - k,
            forall|j: int| 0 <= j < reversed@.len() ==>
                reversed@[j] == original[original.len() - 1 - j],
            done == spec_sort_by_key(input.take(k as int)),
            out_items@.len() == done.len(),
            out_keys@.len() == done.len(),
            forall|j: int| 0 <= j < done.len() ==>
                (#[trigger] done[j]).0 == out_keys@[j]@ && done[j].1 == out_items@[j],
        decreases n - k,
    {
        let it = reversed.pop().unwrap();
        assert(it == original[k as int]);
        let key = chars_of(keys[k].as_str());
        let ghost x = (keys@[k as int]@, it);
        let mut pos = out_keys.len();
        while pos > 0 && compare_chars(&key, &out_keys[pos - 1]) < 0
            invariant
                pos <= out_keys@.len(),
                key@ == x.0,
                out_keys@.len() == done.len(),
                forall|j: int| 0 <= j < done.len() ==>
                    (#[trigger] done[j]).0 == out_keys@[j]@,
                forall|j: int| pos <= j < done.len() ==> chars_less(x.0, #[trigger] done[j].0),
            decreases pos,
        {
            pos = pos - 1;
        }
        proof {
            if pos > 0 {
                assert(done[pos - 1].0 == out_keys@[pos - 1]@);
            }
            lemma_insert_at(done, x, pos as int);
            assert(input.take(k + 1).drop_last() =~= input.take(k as int));
            assert(input.take(k + 1).last() == x);
        }
        out_keys.insert(pos, key);
        out_items.insert(pos, it);
        proof {
            let nd = done.take(pos as int).push(x) + done.skip(pos as int);
            assert forall|j: int| 0 <= j < nd.len() implies
                (#[trigger] nd[j]).0 == out_keys@[j]@ && nd[j].1 == out_items@[j] by {
                if j < pos {
                } else if j == pos {
                } else {
                    assert(nd[j] == done[j - 1]);
                }
            }
            done = nd;
        }
        k = k + 1;
    }
    assert(input.take(n as int) =~= input);
    assert(out_items@ =~= items_of(done));
    out_items
}

/// The items of `s`, in order.
pub open spec fn path_items_of<T>(s: Seq<(PathText, T)>) -> Seq<T> {
    s.map_values(|p: (PathText, T)| p.1)
}

/// Inserts `x` after every element whose key is not greater than its key.
pub open spec fn spec_insert_by_path<T>(s: Seq<(PathText, T)>, x: (PathText, T)) -> Seq<(PathText, T)>
    decreases s.len(),
{
    if s.len() == 0 {
        seq![x]
    } else if path_less(x.0, s.last().0) {
        spec_insert_by_path(s.drop_last(), x).push(s.last())
    } else {
        s.push(x)
    }
}

/// Stable insertion sort of path-keyed items by path.
pub open spec fn spec_sort_by_path<T>(s: Seq<(PathText, T)>) -> Seq<(PathText, T)>
    decreases s.len(),
{
    if s.len() == 0 {
        seq![]
    } else {
        spec_insert_by_path(spec_sort_by_path(s.drop_last()), s.last())
    }
}

/// Pairs each item with the view of its path key.
pub open spec fn path_keyed<T>(keys: Seq<NativePath>, items: Seq<T>) -> Seq<(PathText, T)> {
    Seq::new(items.len(), |i: int| (keys[i]@, items[i]))
}

proof fn lemma_insert_by_path_at<T>(s: Seq<(PathText, T)>, x: (PathText, T), pos: int)
    requires
        0 <= pos <= s.len(),
        forall|j: int| pos <= j < s.len() ==> path_less(x.0, #[trigger] s[j].0),
        pos > 0 ==> !path_less(x.0, s[pos - 1].0),
    ensures
        spec_insert_by_path(s, x) == s.take(pos).push(x) + s.skip(pos),
    decreases s.len(),
{
    if s.len() == 0 {
        assert(s.take(pos).push(x) + s.skip(pos) =~= seq![x]);
    } else if pos == s.len() {
        assert(s.take(pos) =~= s);
        assert(s.skip(pos) =~= Seq::<(PathText, T)>::empty());
        assert(s.take(pos).push(x) + s.skip(pos) =~= s.push(x));
    } else {
        let d = s.drop_last();
        assert(path_less(x.0, s[s.len() - 1].0));
        lemma_insert_by_path_at(d, x, pos);
        assert(d.take(pos) =~= s.take(pos));
        assert((d.take(pos).push(x) + d.skip(pos)).push(s.last()) =~= s.take(pos).push(x) + s.skip(pos));
    }
}

/// Sorts items stably by their path keys in path order.
pub fn sort_by_path<T>(items: Vec<T>, keys: Vec<NativePath>) -> (sorted: Vec<T>)
    requires
        items@.len() == keys@.len(),
    ensures
        sorted@ == path_items_of(spec_sort_by_path(path_keyed(keys@, items@))),
{
    let ghost input = path_keyed(keys@, items@);
    let mut items = items;
    let mut out_items: Vec<T> = Vec::new();
    let mut out_keys: Vec<NativePath> = Vec::new();
    let ghost mut done: Seq<(PathText, T)> = seq![];
    let n = keys.len();
    let mut k: usize = 0;
    let ghost original = items@;
    // Items are taken from the front, so reverse them first.
    let mut reversed: Vec<T> = Vec::new();
    while items.len() > 0
        invariant
            items@.len() + reversed@.len() == original.len(),
            items@ == original.take(items@.len() as int),
            forall|j: int| 0 <= j < reversed@.len() ==>
                reversed@[j] == original[original.len() - 1 - j],
        decreases items@.len(),
    {
        let it = items.pop().unwrap();
        proof {
            assert(items@ =~= original.take(items@.len() as int));
        }
        reversed.push(it);
    }
    while k < n
        invariant
            n == keys@.len(),
            n == original.len(),
            input == path_keyed(keys@, original),
            k <= n,
            reversed@.len() == n - k,
            forall|j: int| 0 <= j < reversed@.len() ==>
                reversed@[j] == original[original.len() - 1 - j],
            done == spec_sort_by_path(input.take(k as int)),
            out_items@.len() == done.len(),
            out_keys@.len() == done.len(),
            forall|j: int| 0 <= j < done.len() ==>
                (#[trigger] done[j]).0 == out_keys@[j]@ && done[j].1 == out_items@[j],
        decreases n - k,
    {
        let it = reversed.pop().unwrap();
        assert(it == original[k as int]);
        let key = keys[k].copy();
        let ghost x = (keys@[k as int]@, it);
        let mut pos = out_keys.len();
        while pos > 0 && key.compare(&out_keys[pos - 1]) < 0
            invariant
                pos <= out_keys@.len(),
                key@ == x.0,
                out_keys@.len() == done.len(),
                forall|j: int| 0 <= j < done.len() ==>
                    (#[trigger] done[j]).0 == out_keys@[j]@,
                forall|j: int| pos <= j < done.len() ==> path_less(x.0, #[trigger] done[j].0),
            decreases pos,
        {
            pos = pos - 1;
        }
        proof {
            if pos > 0 {
                assert(done[pos - 1].0 == out_keys@[pos - 1]@);
            }
            lemma_insert_by_path_at(done, x, pos as int);
            assert(input.take(k + 1).drop_last() =~= input.take(k as int));
            assert(input.take(k + 1).last() == x);
        }
        out_keys.insert(pos, key);
        out_items.insert(pos, it);
        proof {
            let nd = done.take(pos as int).push(x) + done.skip(pos as int);
            assert forall|j: int| 0 <= j < nd.len() implies
                (#[trigger] nd[j]).0 == out_keys@[j]@ && nd[j].1 == out_items@[j] by {
                if j < pos {
                } else if j == pos {
                } else {
                    assert(nd[j] == done[j - 1]);
                }
            }
            done = nd;
        }
        k = k + 1;
    }
    assert(input.take(n as int) =~= input);
    assert(out_items@ =~= path_items_of(done));
    out_items
}

proof fn lemma_insert_by_path_keeps<T>(s: Seq<(PathText, T)>, x: (PathText, T))
    ensures
        spec_insert_by_path(s, x).len() == s.len() + 1,
        forall|e: (PathText, T)| #[trigger] spec_insert_by_path(s, x).contains(e) ==> e == x || s.contains(e),
    decreases s.len(),
{
    if s.len() > 0 && path_less(x.0, s.last().0) {
        let d = s.drop_last();
        lemma_insert_by_path_keeps(d, x);
        assert forall|e: (PathText, T)| #[trigger] spec_insert_by_path(s, x).contains(e) implies e == x || s.contains(e) by {
            let r = spec_insert_by_path(d, x);
            let k = choose|k: int| 0 <= k < r.push(s.last()).len() && r.push(s.last())[k] == e;
            if k < r.len() {
                assert(r.contains(e));
                if d.contains(e) {
                    let q = choose|q: int| 0 <= q < d.len() && d[q] == e;
                    assert(s[q] == e);
                }
            } else {
                assert(s[s.len() - 1] == e);
            }
        }
    } else if s.len() > 0 {
        assert forall|e: (PathText, T)| #[trigger] spec_insert_by_path(s, x).contains(e) implies e == x || s.contains(e) by {
            let k = choose|k: int| 0 <= k < s.push(x).len() && s.push(x)[k] == e;
            if k < s.len() {
                assert(s[k] == e);
            }
        }
    } else {
        assert forall|e: (PathText, T)| #[trigger] spec_insert_by_path(s, x).contains(e) implies e == x || s.contains(e) by {
            assert(seq![x][0] == x);
        }
    }
}

/// Sorting by path keeps the length and brings in no new element.
pub proof fn lemma_sort_by_path_keeps<T>(s: Seq<(PathText, T)>)
    ensures
        spec_sort_by_path(s).len() == s.len(),
        forall|e: (PathText, T)| #[trigger] spec_sort_by_path(s).contains(e) ==> s.contains(e),
    decreases s.len(),
{
    if s.len() > 0 {
        let d = s.drop_last();
        lemma_sort_by_path_keeps(d);
        lemma_insert_by_path_keeps(spec_sort_by_path(d), s.last());
        assert forall|e: (PathText, T)| #[trigger] spec_sort_by_path(s).contains(e) implies s.contains(e) by {
            if e == s.last() {
                assert(s[s.len() - 1] == e);
            } else {
                assert(spec_sort_by_path(d).contains(e));
                assert(d.contains(e));
                let q = choose|q: int| 0 <= q < d.len() && d[q] == e;
                assert(s[q] == e);
            }
        }
    }
}

/// No item comes before an earlier one in path order.
pub open spec fn path_sorted<T>(s: Seq<(PathText, T)>) -> bool {
    forall|i: int, j: int| 0 <= i < j < s.len() ==> !path_less(#[trigger] s[j].0, #[trigger] s[i].0)
}

proof fn lemma_insert_by_path_props<T>(s: Seq<(PathText, T)>, x: (PathText, T))
    requires
        path_sorted(s),
    ensures
        spec_insert_by_path(s, x).len() == s.len() + 1,
        forall|e: (PathText, T)| #[trigger] spec_insert_by_path(s, x).contains(e) <==> (e == x || s.contains(e)),
        path_sorted(spec_insert_by_path(s, x)),
        s.no_duplicates() && !s.contains(x) ==> spec_insert_by_path(s, x).no_duplicates(),
    decreases s.len(),
{
    let r = spec_insert_by_path(s, x);
    if s.len() == 0 {
        assert(r =~= seq![x]);
        assert forall|e: (PathText, T)| #[trigger] r.contains(e) <==> (e == x || s.contains(e)) by {
            if r.contains(e) {
                let k = choose|k: int| 0 <= k < r.len() && r[k] == e;
            }
            if e == x {
                assert(r[0] == x);
            }
        }
    } else if path_less(x.0, s.last().0) {
        let d = s.drop_last();
        let last = s.last();
        assert(path_sorted(d)) by {
            assert forall|i: int, j: int| 0 <= i < j < d.len() implies !path_less(#[trigger] d[j].0, #[trigger] d[i].0) by {
                assert(d[i] == s[i] && d[j] == s[j]);
            }
        }
        lemma_insert_by_path_props(d, x);
        let rd = spec_insert_by_path(d, x);
        assert(r == rd.push(last));
        assert forall|e: (PathText, T)| d.contains(e) ==> #[trigger] s.contains(e) by {
            if d.contains(e) {
                let q = choose|q: int| 0 <= q < d.len() && d[q] == e;
                assert(s[q] == e);
            }
        }
        assert forall|e: (PathText, T)| #[trigger] s.contains(e) ==> d.contains(e) || e == last by {
            if s.contains(e) {
                let q = choose|q: int| 0 <= q < s.len() && s[q] == e;
                if q < d.len() {
                    assert(d[q] == e);
                }
            }
        }
        assert forall|e: (PathText, T)| #[trigger] r.contains(e) <==> (e == x || s.contains(e)) by {
            if r.contains(e) {
                let k = choose|k: int| 0 <= k < r.len() && r[k] == e;
                if k < rd.len() {
                    assert(rd[k] == e);
                    assert(rd.contains(e));
                }
            }
            if e == x {
                assert(rd.contains(x));
                let k = choose|k: int| 0 <= k < rd.len() && rd[k] == x;
                assert(r[k] == x);
            } else if s.contains(e) {
                if e == last {
                    assert(r[r.len() - 1] == e);
                } else {
                    assert(d.contains(e));
                    assert(rd.contains(e));
                    let k = choose|k: int| 0 <= k < rd.len() && rd[k] == e;
                    assert(r[k] == e);
                }
            }
        }
        assert forall|i: int, j: int| 0 <= i < j < r.len() implies !path_less(#[trigger] r[j].0, #[trigger] r[i].0) by {
            if j < rd.len() {
                assert(r[i] == rd[i] && r[j] == rd[j]);
            } else {
                assert(r[j] == last);
                assert(r[i] == rd[i]);
                assert(rd.contains(rd[i]));
                lemma_path_order(x.0, last.0, x.0);
                if rd[i] != x {
                    assert(d.contains(rd[i]));
                    let q = choose|q: int| 0 <= q < d.len() && d[q] == rd[i];
                    assert(s[q] == rd[i]);
                    assert(s[s.len() - 1] == last);
                }
            }
        }
        if s.no_duplicates() && !s.contains(x) {
            assert(d.no_duplicates()) by {
                assert forall|i: int, j: int| 0 <= i < d.len() && 0 <= j < d.len() && i != j implies d[i] != d[j] by {
                    assert(d[i] == s[i] && d[j] == s[j]);
                }
            }
            assert(!d.contains(x));
            assert(!rd.contains(last)) by {
                if rd.contains(last) {
                    if last == x {
                        assert(s[s.len() - 1] == last);
                    } else {
                        let q = choose|q: int| 0 <= q < d.len() && d[q] == last;
                        assert(s[q] == last && s[s.len() - 1] == last);
                    }
                }
            }
            assert forall|i: int, j: int| 0 <= i < r.len() && 0 <= j < r.len() && i != j implies r[i] != r[j] by {
                if i < rd.len() && j < rd.len() {
                    assert(r[i] == rd[i] && r[j] == rd[j]);
                } else if i < rd.len() {
                    assert(r[i] == rd[i]);
                    assert(rd.contains(rd[i]));
                } else {
                    assert(r[j] == rd[j]);
                    assert(rd.contains(rd[j]));
                }
            }
        }
    } else {
        let last = s.last();
        assert(r == s.push(x));
        assert forall|e: (PathText, T)| #[trigger] r.contains(e) <==> (e == x || s.contains(e)) by {
            if r.contains(e) {
                let k = choose|k: int| 0 <= k < r.len() && r[k] == e;
                if k < s.len() {
                    assert(s[k] == e);
                }
            }
            if e == x {
                assert(r[s.len() as int] == x);
            } else if s.contains(e) {
                let k = choose|k: int| 0 <= k < s.len() && s[k] == e;
                assert(r[k] == e);
            }
        }
        assert forall|i: int, j: int| 0 <= i < j < r.len() implies !path_less(#[trigger] r[j].0, #[trigger] r[i].0) by {
            if j < s.len() {
                assert(r[i] == s[i] && r[j] == s[j]);
            } else {
                assert(r[j] == x && r[i] == s[i]);
                lemma_path_order(x.0, s[i].0, last.0);
                lemma_path_order(s[i].0, last.0, x.0);
                if i < s.len() - 1 {
                    assert(s[s.len() - 1] == last);
                    assert(!path_less(s[s.len() - 1].0, s[i].0));
                }
            }
        }
        if s.no_duplicates() && !s.contains(x) {
            assert forall|i: int, j: int| 0 <= i < r.len() && 0 <= j < r.len() && i != j implies r[i] != r[j] by {
                if i < s.len() && j < s.len() {
                    assert(r[i] == s[i] && r[j] == s[j]);
                } else if i < s.len() {
                    assert(r[i] == s[i]);
                } else {
                    assert(r[j] == s[j]);
                }
            }
        }
    }
}

/// Sorting by path orders the items, keeps exactly the items it was given
/// and brings in no duplicate.
pub proof fn lemma_sort_by_path_props<T>(s: Seq<(PathText, T)>)
    ensures
        spec_sort_by_path(s).len() == s.len(),
        forall|e: (PathText, T)| #[trigger] spec_sort_by_path(s).contains(e) <==> s.contains(e),
        path_sorted(spec_sort_by_path(s)),
        s.no_duplicates() ==> spec_sort_by_path(s).no_duplicates(),
    decreases s.len(),
{
    if s.len() > 0 {
        let d = s.drop_last();
        lemma_sort_by_path_props(d);
        lemma_insert_by_path_props(spec_sort_by_path(d), s.last());
        assert forall|e: (PathText, T)| #[trigger] s.contains(e) <==> (e == s.last() || d.contains(e)) by {
            if s.contains(e) {
                let q = choose|q: int| 0 <= q < s.len() && s[q] == e;
                if q < d.len() {
                    assert(d[q] == e);
                }
            }
            if d.contains(e) {
                let q = choose|q: int| 0 <= q < d.len() && d[q] == e;
                assert(s[q] == e);
            }
            if e == s.last() {
                assert(s[s.len() - 1] == e);
            }
        }
        if s.no_duplicates() {
            assert(d.no_duplicates()) by {
                assert forall|i: int, j: int| 0 <= i < d.len() && 0 <= j < d.len() && i != j implies d[i] != d[j] by {
                    assert(d[i] == s[i] && d[j] == s[j]);
                }
            }
            assert(!d.contains(s.last())) by {
                if d.contains(s.last()) {
                    let q = choose|q: int| 0 <= q < d.len() && d[q] == s.last();
                    assert(s[q] == s[s.len() - 1]);
                }
            }
            assert(!spec_sort_by_path(d).contains(s.last()));
        }
    } else {
        assert(spec_sort_by_path(s) =~= Seq::<(PathText, T)>::empty());
    }
}

/// Two path sequences, each in strictly ascending path order, that hold the
/// same paths are the same sequence.
pub proof fn lemma_ascending_paths_equal(a: Seq<PathText>, b: Seq<PathText>)
    requires
        forall|i: int, j: int| 0 <= i < j < a.len() ==> path_less(#[trigger] a[i], #[trigger] a[j]),
        forall|i: int, j: int| 0 <= i < j < b.len() ==> path_less(#[trigger] b[i], #[trigger] b[j]),
        forall|x: PathText| #![trigger a.contains(x)] #![trigger b.contains(x)] a.contains(x) <==> b.contains(x),
    ensures
        a == b,
    decreases a.len(),
{
    if a.len() == 0 {
        if b.len() > 0 {
            assert(b.contains(b[0]));
            assert(a.contains(b[0]));
        }
        assert(a =~= b);
    } else {
        assert(a.contains(a[0]));
        assert(b.len() > 0);
        assert(b.contains(b[0]));
        assert(a.contains(b[0]));
        assert(b.contains(a[0]));
        let k = choose|k: int| 0 <= k < b.len() && b[k] == a[0];
        let m = choose|m: int| 0 <= m < a.len() && a[m] == b[0];
        lemma_path_order(a[0], b[0], a[0]);
        if k > 0 {
            assert(path_less(b[0], b[k]));
            if m > 0 {
                assert(path_less(a[0], a[m]));
            }
        }
        assert(a[0] == b[0]);
        let a1 = a.skip(1);
        let b1 = b.skip(1);
        assert forall|x: PathText| #![trigger a1.contains(x)] #![trigger b1.contains(x)] a1.contains(x) <==> b1.contains(x) by {
            if a1.contains(x) {
                let q = choose|q: int| 0 <= q < a1.len() && a1[q] == x;
                assert(a[q + 1] == x);
                assert(a.contains(x));
                assert(b.contains(x));
                let p = choose|p: int| 0 <= p < b.len() && b[p] == x;
                lemma_path_order(a[0], x, a[0]);
                if p == 0 {
                    assert(path_less(a[0], a[q + 1]));
                }
                assert(b1[p - 1] == x);
            }
            if b1.contains(x) {
                let q = choose|q: int| 0 <= q < b1.len() && b1[q] == x;
                assert(b[q + 1] == x);
                assert(b.contains(x));
                assert(a.contains(x));
                let p = choose|p: int| 0 <= p < a.len() && a[p] == x;
                lemma_path_order(b[0], x, b[0]);
                if p == 0 {
                    assert(path_less(b[0], b[q + 1]));
                }
                assert(a1[p - 1] == x);
            }
        }
        assert forall|i: int, j: int| 0 <= i < j < a1.len() implies path_less(#[trigger] a1[i], #[trigger] a1[j]) by {
            assert(a1[i] == a[i + 1] && a1[j] == a[j + 1]);
        }
        assert forall|i: int, j: int| 0 <= i < j < b1.len() implies path_less(#[trigger] b1[i], #[trigger] b1[j]) by {
            assert(b1[i] == b[i + 1] && b1[j] == b[j + 1]);
        }
        lemma_ascending_paths_equal(a1, b1);
        assert(a =~= seq![a[0]] + a1);
        assert(b =~= seq![b[0]] + b1);
    }
}

/// Every text of `s` is before every later one.
pub open spec fn strictly_ascending(s: Seq<Seq<char>>) -> bool {
    forall|i: int, j: int| 0 <= i < j < s.len() ==> chars_less(#[trigger] s[i], #[trigger] s[j])
}

/// The distinct texts of `items`, in ascending order.
pub fn sorted_unique(items: &Vec<String>) -> (r: Vec<String>)
    ensures
        strictly_ascending(string_views(r@)),
        string_views(r@).to_set() == string_views(items@).to_set(),
{
    let mut out: Vec<String> = Vec::new();
    let mut k: usize = 0;
    while k < items.len()
        invariant
            k <= items@.len(),
            strictly_ascending(string_views(out@)),
            string_views(out@).to_set() == string_views(items@.take(k as int)).to_set(),
        decreases items@.len() - k,
    {
        let x = &items[k];
        let ghost xs = x@;
        let ghost before = string_views(out@);
        let mut pos: usize = 0;
        while pos < out.len() && compare_strings(out[pos].as_str(), x.as_str()) < 0
            invariant
                pos <= out@.len(),
                before == string_views(out@),
                xs == x@,
                forall|j: int| 0 <= j < pos ==> chars_less(#[trigger] before[j], xs),
            decreases out@.len() - pos,
        {
            assert(before[pos as int] == out@[pos as int]@);
            pos = pos + 1;
        }
        proof {
            string_views(items@.take(k as int)).lemma_push_to_set_commute(xs);
            assert(items@.take(k + 1) =~= items@.take(k as int).push(items@[k as int]));
            assert(string_views(items@.take(k + 1)) =~= string_views(items@.take(k as int)).push(xs));
        }
        if pos < out.len() && compare_strings(out[pos].as_str(), x.as_str()) == 0 {
            proof {
                assert(before[pos as int] == xs);
                assert(before.to_set().insert(xs) =~= before.to_set());
            }
        } else {
            proof {
                if pos < out@.len() {
                    lemma_chars_less_total(before[pos as int], xs);
                }
            }
            out.insert(pos, x.clone());
            proof {
                let after = string_views(out@);
                assert(after =~= before.take(pos as int).push(xs) + before.skip(pos as int));
                assert forall|i: int, j: int| 0 <= i < j < after.len() implies chars_less(#[trigger] after[i], #[trigger] after[j]) by {
                    if j < pos {
                        assert(after[i] == before[i] && after[j] == before[j]);
                    } else if j == pos {
                        assert(after[i] == before[i]);
                    } else if i == pos {
                        assert(after[j] == before[j - 1]);
                        if j - 1 > pos {
                            lemma_chars_less_transitive(xs, before[pos as int], before[j - 1]);
                        }
                    } else if i < pos {
                        assert(after[i] == before[i] && after[j] == before[j - 1]);
                    } else {
                        assert(after[i] == before[i - 1] && after[j] == before[j - 1]);
                    }
                }
                assert forall|t: Seq<char>| after.to_set().contains(t) <==> before.to_set().insert(xs).contains(t) by {
                    if after.to_set().contains(t) {
                        let i = choose|i: int| 0 <= i < after.len() && after[i] == t;
                        if i < pos {
                            assert(before[i] == t);
                        } else if i > pos {
                            assert(before[i - 1] == t);
                        }
                    }
                    if before.to_set().contains(t) && t != xs {
                        let i = choose|i: int| 0 <= i < before.len() && before[i] == t;
                        if i < pos {
                            assert(after[i] == t);
                        } else {
                            assert(after[i + 1] == t);
                        }
                    }
                    if t == xs {
                        assert(after[pos as int] == xs);
                    }
                }
                assert(after.to_set() =~= before.to_set().insert(xs));
            }
        }
        k = k + 1;
    }
    assert(items@.take(items@.len() as int) =~= items@);
    out
}

} // verus!
