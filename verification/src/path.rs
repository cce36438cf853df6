//! Paths as byte strings: components joined by `/`.

use vstd::prelude::*;
use crate::bytes::put_bytes;

verus! {

/// The byte that separates the components of a path.
pub const PATH_SEPARATOR: u8 = 0x2f;

/// The path that results from appending the component `comp` to `path`. A component
/// that starts with the separator is absolute and replaces the path. Otherwise it is
/// appended, behind a separator unless the path is empty or ends with one.
pub open spec fn path_push(path: Seq<u8>, comp: Seq<u8>) -> Seq<u8> {
    if comp.len() > 0 && comp[0] == PATH_SEPARATOR {
        comp
    } else if path.len() == 0 || path.last() == PATH_SEPARATOR {
        path + comp
    } else {
        path + seq![PATH_SEPARATOR] + comp
    }
}

/// The path made of `components`, the outermost first.
pub open spec fn path_join(components: Seq<Seq<u8>>) -> Seq<u8>
    decreases components.len(),
{
    if components.len() == 0 {
        Seq::empty()
    } else {
        path_push(path_join(components.drop_last()), components.last())
    }
}

/// The byte strings held by a sequence of vectors.
pub open spec fn views(v: Seq<Vec<u8>>) -> Seq<Seq<u8>> {
    Seq::new(v.len(), |i: int| v[i]@)
}

/// Appends the component `comp` to `path`.
pub fn push_component(path: &mut Vec<u8>, comp: &[u8])
    ensures
        final(path)@ == path_push(old(path)@, comp@),
{
    if comp.len() > 0 && comp[0] == PATH_SEPARATOR {
        path.clear();
        put_bytes(path, comp);
        assert(path@ =~= comp@);
    } else if path.len() == 0 || path[path.len() - 1] == PATH_SEPARATOR {
        put_bytes(path, comp);
    } else {
        path.push(PATH_SEPARATOR);
        put_bytes(path, comp);
    }
}

/// The path made of `components`, the outermost first.
pub fn join_components(components: &Vec<Vec<u8>>) -> (path: Vec<u8>)
    ensures
        path@ == path_join(views(components@)),
{
    let mut path: Vec<u8> = Vec::new();
    let mut k: usize = 0;
    assert(views(components@).subrange(0, 0) =~= Seq::<Seq<u8>>::empty());
    while k < components.len()
        invariant
            k <= components@.len(),
            path@ == path_join(views(components@).subrange(0, k as int)),
        decreases components@.len() - k,
    {
        push_component(&mut path, components[k].as_slice());
        proof {
            let next = views(components@).subrange(0, k + 1);
            assert(next.drop_last() =~= views(components@).subrange(0, k as int));
            assert(next.last() == components@[k as int]@);
        }
        k = k + 1;
    }
    assert(views(components@).subrange(0, k as int) =~= views(components@));
    path
}

/// The path made of `components`, the innermost first.
pub fn join_components_reversed(components: &Vec<Vec<u8>>) -> (path: Vec<u8>)
    ensures
        path@ == path_join(views(components@).reverse()),
{
    let n = components.len();
    let ghost target = views(components@).reverse();
    let mut path: Vec<u8> = Vec::new();
    let mut k: usize = 0;
    assert(target.subrange(0, 0) =~= Seq::<Seq<u8>>::empty());
    while k < n
        invariant
            k <= n,
            n == components@.len(),
            target == views(components@).reverse(),
            path@ == path_join(target.subrange(0, k as int)),
        decreases n - k,
    {
        push_component(&mut path, components[n - 1 - k].as_slice());
        proof {
            let next = target.subrange(0, k + 1);
            assert(next.drop_last() =~= target.subrange(0, k as int));
            assert(next.last() == components@[n - 1 - k]@);
        }
        k = k + 1;
    }
    assert(target.subrange(0, k as int) =~= target);
    path
}

} // verus!
