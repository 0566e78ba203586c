//! Paths as byte strings.

use crate::text::same_bytes;
use vstd::prelude::*;

verus! {

/// The separator of path components.
pub const SLASH: u8 = 47;

/// A path that was read from the left: the components that are closed, and the
/// one that is still open.
pub struct Reading {
    pub closed: Seq<Seq<u8>>,
    pub open: Seq<u8>,
}

/// Closes the open component. An empty one, and `.`, do not count.
pub open spec fn closed_components(reading: Reading) -> Seq<Seq<u8>> {
    if reading.open.len() == 0 || reading.open == seq![46u8] {
        reading.closed
    } else {
        reading.closed.push(reading.open)
    }
}

/// A path, read from the left.
pub open spec fn reading(path: Seq<u8>) -> Reading
    decreases path.len(),
{
    if path.len() == 0 {
        Reading { closed: seq![], open: seq![] }
    } else {
        let before = reading(path.drop_last());
        if path.last() == SLASH {
            Reading { closed: closed_components(before), open: seq![] }
        } else {
            Reading { closed: before.closed, open: before.open.push(path.last()) }
        }
    }
}

/// The components of a path below its root, without empty ones and without `.`.
pub open spec fn components(path: Seq<u8>) -> Seq<Seq<u8>> {
    closed_components(reading(path))
}

/// Whether a path starts at the root.
pub open spec fn is_absolute(path: Seq<u8>) -> bool {
    path.len() > 0 && path[0] == SLASH
}

/// Whether two absolute paths are equal component by component.
pub open spec fn same_absolute(left: Seq<u8>, right: Seq<u8>) -> bool {
    is_absolute(left) && is_absolute(right) && components(left) == components(right)
}

/// Whether a path starts at the root.
pub fn starts_at_root(path: &[u8]) -> (yes: bool)
    ensures
        yes == is_absolute(path@),
{
    path.len() > 0 && path[0] == SLASH
}

/// The views of a row of byte strings.
pub open spec fn byte_rows(rows: Seq<Vec<u8>>) -> Seq<Seq<u8>> {
    rows.map_values(|row: Vec<u8>| row@)
}

fn close_component(closed: &mut Vec<Vec<u8>>, open: Vec<u8>)
    ensures
        byte_rows(final(closed)@) == closed_components(
            Reading { closed: byte_rows(old(closed)@), open: open@ },
        ),
{
    let dot = open.len() == 1 && open[0] == 46;
    proof {
        assert(dot == (open@ =~= seq![46u8]));
    }
    if open.len() != 0 && !dot {
        closed.push(open);
        assert(byte_rows(closed@) =~= byte_rows(old(closed)@).push(open@));
    }
}

/// The components of a path below its root.
pub fn path_components(path: &[u8]) -> (rows: Vec<Vec<u8>>)
    ensures
        byte_rows(rows@) == components(path@),
{
    let mut closed: Vec<Vec<u8>> = Vec::new();
    let mut open: Vec<u8> = Vec::new();
    let mut i: usize = 0;
    assert(byte_rows(closed@) =~= seq![]);
    assert(path@.take(0) =~= seq![]);
    assert(open@ =~= seq![]);
    while i < path.len()
        invariant
            i <= path@.len(),
            byte_rows(closed@) == reading(path@.take(i as int)).closed,
            open@ == reading(path@.take(i as int)).open,
        decreases path@.len() - i,
    {
        assert(path@.take(i + 1).drop_last() =~= path@.take(i as int));
        assert(path@.take(i + 1).last() == path@[i as int]);
        if path[i] == SLASH {
            let finished = open;
            open = Vec::new();
            close_component(&mut closed, finished);
            assert(open@ =~= seq![]);
        } else {
            open.push(path[i]);
        }
        i += 1;
    }
    assert(path@.take(i as int) =~= path@);
    close_component(&mut closed, open);
    closed
}

/// Whether two absolute paths are equal component by component.
pub fn same_absolute_path(left: &[u8], right: &[u8]) -> (same: bool)
    ensures
        same == same_absolute(left@, right@),
{
    if !starts_at_root(left) || !starts_at_root(right) {
        return false;
    }
    let a = path_components(left);
    let b = path_components(right);
    let ghost x = components(left@);
    let ghost y = components(right@);
    if a.len() != b.len() {
        assert(x.len() != y.len());
        return false;
    }
    let mut i: usize = 0;
    while i < a.len()
        invariant
            i <= a@.len(),
            a@.len() == b@.len(),
            x == byte_rows(a@),
            y == byte_rows(b@),
            x == components(left@),
            y == components(right@),
            forall|k: int| 0 <= k < i ==> x[k] == y[k],
        decreases a@.len() - i,
    {
        assert(x[i as int] == a@[i as int]@);
        assert(y[i as int] == b@[i as int]@);
        if !same_bytes(a[i].as_slice(), b[i].as_slice()) {
            return false;
        }
        i += 1;
    }
    assert(x =~= y);
    true
}

/// Equal paths are equal however often their separators are repeated: a
/// trailing separator changes no component.
pub proof fn law_trailing_separator_is_immaterial(path: Seq<u8>)
    ensures
        components(path.push(SLASH)) == components(path),
{
    assert(path.push(SLASH).drop_last() =~= path);
    assert(reading(path.push(SLASH)).open.len() == 0);
}

/// The components of a path with a separator in it are those before it and then
/// those behind it, however many separators follow one another.
pub proof fn law_components_are_parted_by_separators(left: Seq<u8>, right: Seq<u8>)
    ensures
        components(left.push(SLASH) + right) == components(left) + components(right),
{
    lemma_parted(left, right);
    assert(components(left.push(SLASH) + right) =~= components(left) + components(right));
}

proof fn lemma_parted(left: Seq<u8>, right: Seq<u8>)
    ensures
        ({
            let whole = reading(left.push(SLASH) + right);
            let rest = reading(right);
            whole.closed == components(left) + rest.closed && whole.open == rest.open
        }),
    decreases right.len(),
{
    let path = left.push(SLASH) + right;
    if right.len() == 0 {
        assert(path =~= left.push(SLASH));
        assert(path.drop_last() =~= left);
        assert(components(left) + Seq::<Seq<u8>>::empty() =~= components(left));
    } else {
        let shorter = right.drop_last();
        lemma_parted(left, shorter);
        assert(path.drop_last() =~= left.push(SLASH) + shorter);
        assert(path.last() == right.last());
        let before = reading(left.push(SLASH) + shorter);
        let rest = reading(shorter);
        if right.last() == SLASH {
            assert(closed_components(before) =~= components(left) + closed_components(rest));
        }
    }
}

/// A name that is neither empty nor a single dot and holds no separator is one
/// component.
pub proof fn law_name_is_one_component(name: Seq<u8>)
    requires
        name.len() > 0,
        name != seq![46u8],
        !name.contains(SLASH),
    ensures
        components(name) == seq![name],
        components(seq![46u8]).len() == 0,
        components(seq![SLASH]).len() == 0,
{
    lemma_open_name(name);
    reveal_with_fuel(reading, 3);
    assert(seq![46u8].drop_last() =~= Seq::<u8>::empty());
    assert(Seq::<u8>::empty().push(46u8) =~= seq![46u8]);
    assert(seq![SLASH].drop_last() =~= Seq::<u8>::empty());
    assert(Seq::<Seq<u8>>::empty().push(name) =~= seq![name]);
}

proof fn lemma_open_name(name: Seq<u8>)
    requires
        !name.contains(SLASH),
    ensures
        reading(name) == (Reading { closed: Seq::empty(), open: name }),
    decreases name.len(),
{
    if name.len() > 0 {
        let head = name.drop_last();
        assert forall|i: int| 0 <= i < head.len() implies head[i] != SLASH by {
            assert(name.contains(name[i]));
        }
        lemma_open_name(head);
        assert(name.contains(name[name.len() - 1]));
        assert(head.push(name.last()) =~= name);
    } else {
        assert(name =~= Seq::<u8>::empty());
    }
}

/// Two absolute paths are the same exactly where their components are.
pub proof fn law_same_paths_have_the_same_components(left: Seq<u8>, right: Seq<u8>)
    ensures
        same_absolute(left, right) <==> left.len() > 0 && right.len() > 0 && left[0] == 47u8
            && right[0] == 47u8 && components(left) == components(right),
        same_absolute(left, right) ==> same_absolute(right, left),
{
}

} // verus!
