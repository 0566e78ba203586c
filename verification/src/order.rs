//! The byte order of texts, and rows put into that order.

use vstd::prelude::*;
use vstd::utf8::*;

verus! {

/// Whether one byte string stands before another in lexicographic order.
pub open spec fn bytes_less(left: Seq<u8>, right: Seq<u8>) -> bool
    decreases left.len(),
{
    if right.len() == 0 {
        false
    } else if left.len() == 0 {
        true
    } else if left[0] != right[0] {
        left[0] < right[0]
    } else {
        bytes_less(left.drop_first(), right.drop_first())
    }
}

/// Whether one text stands before another, by the bytes of their encodings.
pub open spec fn text_before(left: Seq<char>, right: Seq<char>) -> bool {
    bytes_less(encode_utf8(left), encode_utf8(right))
}

proof fn lemma_bytes_less_total(left: Seq<u8>, right: Seq<u8>)
    ensures
        bytes_less(left, right) || bytes_less(right, left) || left == right,
        !(bytes_less(left, right) && bytes_less(right, left)),
        !bytes_less(left, left),
    decreases left.len(),
{
    if left.len() == 0 || right.len() == 0 {
        if left.len() == 0 && right.len() == 0 {
            assert(left =~= right);
        }
    } else {
        lemma_bytes_less_total(left.drop_first(), right.drop_first());
        if left[0] == right[0] && left.drop_first() == right.drop_first() {
            assert(left =~= seq![left[0]] + left.drop_first());
            assert(right =~= seq![right[0]] + right.drop_first());
        }
    }
    if left.len() > 0 {
        lemma_bytes_less_total(left.drop_first(), left.drop_first());
    }
}

proof fn lemma_bytes_less_transitive(a: Seq<u8>, b: Seq<u8>, c: Seq<u8>)
    requires
        bytes_less(a, b),
        bytes_less(b, c),
    ensures
        bytes_less(a, c),
    decreases a.len(),
{
    if a.len() > 0 && b.len() > 0 && c.len() > 0 && a[0] == b[0] && b[0] == c[0] {
        lemma_bytes_less_transitive(a.drop_first(), b.drop_first(), c.drop_first());
    }
}

/// The byte order of texts is total, irreflexive and asymmetric.
pub proof fn lemma_text_before_total(left: Seq<char>, right: Seq<char>)
    ensures
        text_before(left, right) || text_before(right, left) || left == right,
        !(text_before(left, right) && text_before(right, left)),
        !text_before(left, left),
{
    lemma_bytes_less_total(encode_utf8(left), encode_utf8(right));
    lemma_bytes_less_total(encode_utf8(left), encode_utf8(left));
    crate::text::lemma_utf8_injective(left, right);
}

/// The byte order of texts is transitive.
pub proof fn lemma_text_before_transitive(a: Seq<char>, b: Seq<char>, c: Seq<char>)
    requires
        text_before(a, b),
        text_before(b, c),
    ensures
        text_before(a, c),
{
    lemma_bytes_less_transitive(encode_utf8(a), encode_utf8(b), encode_utf8(c));
}

/// Whether one text stands before another in byte order.
pub fn text_less(left: &str, right: &str) -> (less: bool)
    ensures
        less == text_before(left@, right@),
{
    let a = left.as_bytes();
    let b = right.as_bytes();
    let mut i: usize = 0;
    assert(a@.skip(0) =~= a@);
    assert(b@.skip(0) =~= b@);
    while i < a.len() && i < b.len()
        invariant
            i <= a@.len(),
            i <= b@.len(),
            a@ == encode_utf8(left@),
            b@ == encode_utf8(right@),
            bytes_less(a@, b@) == bytes_less(a@.skip(i as int), b@.skip(i as int)),
        decreases a@.len() - i,
    {
        assert(a@.skip(i as int).drop_first() =~= a@.skip(i + 1));
        assert(b@.skip(i as int).drop_first() =~= b@.skip(i + 1));
        if a[i] != b[i] {
            return a[i] < b[i];
        }
        i += 1;
    }
    i < b.len()
}

/// A row in key order, with one more keyed value put behind all that do not
/// follow it.
pub open spec fn insert_by_key<T>(
    row: Seq<(Seq<char>, T)>,
    item: (Seq<char>, T),
) -> Seq<(Seq<char>, T)>
    decreases row.len(),
{
    if row.len() > 0 && text_before(item.0, row.last().0) {
        insert_by_key(row.drop_last(), item).push(row.last())
    } else {
        row.push(item)
    }
}

/// A row of keyed values, put into the byte order of the keys.
pub open spec fn sorted_by_key<T>(row: Seq<(Seq<char>, T)>) -> Seq<(Seq<char>, T)>
    decreases row.len(),
{
    if row.len() == 0 {
        row
    } else {
        insert_by_key(sorted_by_key(row.drop_last()), row.last())
    }
}

/// Whether no key in a row stands before an earlier one.
pub open spec fn keys_ascend<T>(row: Seq<(Seq<char>, T)>) -> bool {
    forall|i: int, j: int|
        0 <= i < j < row.len() ==> !text_before((#[trigger] row[j]).0, (#[trigger] row[i]).0)
}

/// Where [`insert_by_key`] puts the item, given the place up to which all that
/// is behind follows the item.
pub proof fn lemma_insert_place<T>(row: Seq<(Seq<char>, T)>, item: (Seq<char>, T), place: int)
    requires
        0 <= place <= row.len(),
        forall|k: int| place <= k < row.len() ==> text_before(item.0, (#[trigger] row[k]).0),
        place > 0 ==> !text_before(item.0, row[place - 1].0),
    ensures
        insert_by_key(row, item) == row.insert(place, item),
    decreases row.len(),
{
    if place == row.len() {
        assert(row.push(item) =~= row.insert(place, item));
    } else {
        let head = row.drop_last();
        assert forall|k: int| place <= k < head.len() implies text_before(
            item.0,
            (#[trigger] head[k]).0,
        ) by {
            assert(head[k] == row[k]);
        }
        assert(text_before(item.0, row[row.len() - 1].0));
        lemma_insert_place(head, item, place);
        assert(head.insert(place, item).push(row.last()) =~= row.insert(place, item));
    }
}

proof fn lemma_insert_keeps<T>(row: Seq<(Seq<char>, T)>, item: (Seq<char>, T))
    requires
        keys_ascend(row),
    ensures
        keys_ascend(insert_by_key(row, item)),
        insert_by_key(row, item).to_multiset() == row.to_multiset().insert(item),
        insert_by_key(row, item).len() == row.len() + 1,
        forall|k: int|
            0 <= k < insert_by_key(row, item).len() ==> #[trigger] insert_by_key(row, item)[k] == item
                || row.contains(insert_by_key(row, item)[k]),
    decreases row.len(),
{
    broadcast use vstd::seq_lib::group_to_multiset_ensures;

    let result = insert_by_key(row, item);
    if row.len() > 0 && text_before(item.0, row.last().0) {
        let head = row.drop_last();
        assert(keys_ascend(head)) by {
            assert forall|i: int, j: int| 0 <= i < j < head.len() implies !text_before(
                (#[trigger] head[j]).0,
                (#[trigger] head[i]).0,
            ) by {
                assert(head[i] == row[i] && head[j] == row[j]);
            }
        }
        lemma_insert_keeps(head, item);
        let inner = insert_by_key(head, item);
        assert(result == inner.push(row.last()));
        assert(row =~= head.push(row.last()));
        assert forall|i: int, j: int| 0 <= i < j < result.len() implies !text_before(
            (#[trigger] result[j]).0,
            (#[trigger] result[i]).0,
        ) by {
            if j < inner.len() {
                assert(result[j] == inner[j] && result[i] == inner[i]);
            } else {
                assert(result[i] == inner[i]);
                if inner[i] == item {
                    lemma_text_before_total(item.0, row.last().0);
                } else {
                    let k = choose|k: int| 0 <= k < head.len() && head[k] == inner[i];
                    assert(row[k] == inner[i]);
                    assert(!text_before(row[row.len() - 1].0, row[k].0));
                }
            }
        }
        assert(result.to_multiset() =~= row.to_multiset().insert(item));
        assert forall|k: int| 0 <= k < result.len() implies #[trigger] result[k] == item
            || row.contains(result[k]) by {
            if k < inner.len() {
                assert(result[k] == inner[k]);
                if inner[k] != item {
                    let m = choose|m: int| 0 <= m < head.len() && head[m] == inner[k];
                    assert(row[m] == inner[k]);
                }
            } else {
                assert(result[k] == row[row.len() - 1]);
            }
        }
    } else {
        assert forall|i: int, j: int| 0 <= i < j < result.len() implies !text_before(
            (#[trigger] result[j]).0,
            (#[trigger] result[i]).0,
        ) by {
            if j < row.len() {
                assert(result[j] == row[j] && result[i] == row[i]);
            } else {
                assert(result[i] == row[i] && result[j] == item);
                if i < row.len() - 1 {
                    assert(!text_before(row[row.len() - 1].0, row[i].0));
                    let last = row.last().0;
                    lemma_text_before_total(last, row[i].0);
                    lemma_text_before_total(item.0, last);
                    if text_before(item.0, row[i].0) {
                        if row[i].0 == last {
                        } else {
                            lemma_text_before_transitive(item.0, row[i].0, last);
                        }
                    }
                }
            }
        }
        assert(result.to_multiset() =~= row.to_multiset().insert(item));
        assert forall|k: int| 0 <= k < result.len() implies #[trigger] result[k] == item
            || row.contains(result[k]) by {
            if k < row.len() {
                assert(result[k] == row[k]);
            }
        }
    }
}

/// Putting a row into key order keeps exactly its items, and the keys ascend.
pub proof fn lemma_sorted_by_key<T>(row: Seq<(Seq<char>, T)>)
    ensures
        keys_ascend(sorted_by_key(row)),
        sorted_by_key(row).to_multiset() == row.to_multiset(),
        sorted_by_key(row).len() == row.len(),
    decreases row.len(),
{
    broadcast use vstd::seq_lib::group_to_multiset_ensures;

    if row.len() > 0 {
        let head = row.drop_last();
        lemma_sorted_by_key(head);
        lemma_insert_keeps(sorted_by_key(head), row.last());
        assert(row =~= head.push(row.last()));
        assert(row.to_multiset() =~= head.to_multiset().insert(row.last()));
    }
}

/// Whether no two values in a row have the same key.
pub open spec fn keys_distinct<T>(row: Seq<(Seq<char>, T)>) -> bool {
    forall|i: int, j: int|
        0 <= i < row.len() && 0 <= j < row.len() && i != j ==> (#[trigger] row[i]).0 != (
        #[trigger] row[j]).0
}

/// Whether two rows have the same members.
pub open spec fn same_members<T>(left: Seq<T>, right: Seq<T>) -> bool {
    forall|x: T| #[trigger] left.contains(x) <==> right.contains(x)
}

/// Putting a row into key order keeps its members and the distinctness of its
/// keys.
pub proof fn lemma_sorted_members<T>(row: Seq<(Seq<char>, T)>)
    ensures
        same_members(sorted_by_key(row), row),
        keys_distinct(row) ==> keys_distinct(sorted_by_key(row)),
{
    broadcast use vstd::seq_lib::group_to_multiset_ensures;

    let sorted = sorted_by_key(row);
    lemma_sorted_by_key(row);
    assert forall|x: (Seq<char>, T)| #[trigger] sorted.contains(x) <==> row.contains(x) by {
        assert(sorted.to_multiset().count(x) == row.to_multiset().count(x));
    }
    if keys_distinct(row) {
        assert(row.no_duplicates());
        row.lemma_multiset_has_no_duplicates();
        sorted.lemma_multiset_has_no_duplicates_conv();
        assert forall|i: int, j: int|
            0 <= i < sorted.len() && 0 <= j < sorted.len() && i != j implies (
        #[trigger] sorted[i]).0 != (#[trigger] sorted[j]).0 by {
            assert(sorted.contains(sorted[i]) && sorted.contains(sorted[j]));
            assert(row.contains(sorted[i]) && row.contains(sorted[j]));
            let a = choose|a: int| 0 <= a < row.len() && row[a] == sorted[i];
            let b = choose|b: int| 0 <= b < row.len() && row[b] == sorted[j];
            assert(row[a] == sorted[i] && row[b] == sorted[j]);
            assert(a != b);
        }
    }
}

proof fn lemma_ascending_row_unique<T>(left: Seq<(Seq<char>, T)>, right: Seq<(Seq<char>, T)>)
    requires
        keys_ascend(left),
        keys_ascend(right),
        keys_distinct(left),
        keys_distinct(right),
        same_members(left, right),
    ensures
        left == right,
    decreases left.len(),
{
    if left.len() == 0 {
        if right.len() > 0 {
            assert(right.contains(right[0]));
            assert(left.contains(right[0]));
        }
        assert(left =~= right);
    } else {
        let x = left.last();
        assert(left.contains(x));
        assert(right.contains(x));
        let y = right.last();
        let j = choose|j: int| 0 <= j < right.len() && right[j] == x;
        assert(right.contains(y));
        assert(left.contains(y));
        let i = choose|i: int| 0 <= i < left.len() && left[i] == y;
        lemma_text_before_total(x.0, y.0);
        if i < left.len() - 1 {
            assert(!text_before(left[left.len() - 1].0, left[i].0));
        }
        if j < right.len() - 1 {
            assert(!text_before(right[right.len() - 1].0, right[j].0));
        }
        if j < right.len() - 1 {
            assert(right[j].0 != right[right.len() - 1].0);
        }
        assert(x == y);
        let l = left.drop_last();
        let r = right.drop_last();
        assert(keys_ascend(l) && keys_distinct(l)) by {
            assert forall|a: int, b: int| 0 <= a < b < l.len() implies !text_before(
                (#[trigger] l[b]).0,
                (#[trigger] l[a]).0,
            ) by {
                assert(l[a] == left[a] && l[b] == left[b]);
            }
            assert forall|a: int, b: int|
                0 <= a < l.len() && 0 <= b < l.len() && a != b implies (#[trigger] l[a]).0 != (
            #[trigger] l[b]).0 by {
                assert(l[a] == left[a] && l[b] == left[b]);
            }
        }
        assert(keys_ascend(r) && keys_distinct(r)) by {
            assert forall|a: int, b: int| 0 <= a < b < r.len() implies !text_before(
                (#[trigger] r[b]).0,
                (#[trigger] r[a]).0,
            ) by {
                assert(r[a] == right[a] && r[b] == right[b]);
            }
            assert forall|a: int, b: int|
                0 <= a < r.len() && 0 <= b < r.len() && a != b implies (#[trigger] r[a]).0 != (
            #[trigger] r[b]).0 by {
                assert(r[a] == right[a] && r[b] == right[b]);
            }
        }
        assert forall|z: (Seq<char>, T)| #[trigger] l.contains(z) <==> r.contains(z) by {
            if l.contains(z) {
                let a = choose|a: int| 0 <= a < l.len() && l[a] == z;
                assert(left[a] == z);
                assert(left[a].0 != left[left.len() - 1].0);
                assert(left.contains(z));
                assert(right.contains(z));
                let b = choose|b: int| 0 <= b < right.len() && right[b] == z;
                assert(b != right.len() - 1);
                assert(r[b] == z);
            }
            if r.contains(z) {
                let a = choose|a: int| 0 <= a < r.len() && r[a] == z;
                assert(right[a] == z);
                assert(right[a].0 != right[right.len() - 1].0);
                assert(right.contains(z));
                assert(left.contains(z));
                let b = choose|b: int| 0 <= b < left.len() && left[b] == z;
                assert(b != left.len() - 1);
                assert(l[b] == z);
            }
        }
        lemma_ascending_row_unique(l, r);
        assert(left =~= l.push(x));
        assert(right =~= r.push(y));
    }
}

/// Rows with the same members and distinct keys come into the same order,
/// whatever order they were in.
pub proof fn lemma_sorted_by_key_unique<T>(
    left: Seq<(Seq<char>, T)>,
    right: Seq<(Seq<char>, T)>,
)
    requires
        keys_distinct(left),
        keys_distinct(right),
        same_members(left, right),
    ensures
        sorted_by_key(left) == sorted_by_key(right),
{
    lemma_sorted_by_key(left);
    lemma_sorted_by_key(right);
    lemma_sorted_members(left);
    lemma_sorted_members(right);
    assert forall|x: (Seq<char>, T)| #[trigger]
        sorted_by_key(left).contains(x) <==> sorted_by_key(right).contains(x) by {
        assert(left.contains(x) <==> right.contains(x));
    }
    lemma_ascending_row_unique(sorted_by_key(left), sorted_by_key(right));
}

} // verus!
