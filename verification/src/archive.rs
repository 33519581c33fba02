//! Where the unpacker writes an entry: the entry's path, with a prefix taken
//! off it where the path begins with that prefix.
//!
//! Paths are the bytes that an archive stores, with `/` between components.
//! They are compared component by component: `template/a.txt` begins with
//! `template`, `templates/a.txt` does not.

use vstd::prelude::*;
use vstd::slice::slice_to_vec;
use crate::bytes::views_of;
use crate::error::Error;

verus! {

/// The byte between the components of a path.
pub const SEPARATOR: u8 = 0x2f;

/// The byte that, alone in a component, names the current directory.
pub const DOT: u8 = 0x2e;

/// What stands between the separators of a path, empty pieces included:
/// one piece more than the path has separators.
pub open spec fn pieces(path: Seq<u8>) -> Seq<Seq<u8>>
    decreases path.len(),
{
    if path.len() == 0 {
        seq![Seq::<u8>::empty()]
    } else {
        let before = pieces(path.drop_last());
        if path.last() == SEPARATOR {
            before.push(Seq::<u8>::empty())
        } else {
            before.drop_last().push(before.last().push(path.last()))
        }
    }
}

/// A piece that names something: not empty, and not the current directory.
pub open spec fn is_name(piece: Seq<u8>) -> bool {
    piece.len() > 0 && !(piece.len() == 1 && piece[0] == DOT)
}

/// `is_name` as a value, for filtering.
pub open spec fn names_only() -> spec_fn(Seq<u8>) -> bool {
    |piece: Seq<u8>| is_name(piece)
}

/// The path begins at the root.
pub open spec fn is_rooted(path: Seq<u8>) -> bool {
    path.len() > 0 && path[0] == SEPARATOR
}

/// The path's first component is the current directory.
pub open spec fn begins_with_dot(path: Seq<u8>) -> bool {
    path.len() > 0 && path[0] == DOT && (path.len() == 1 || path[1] == SEPARATOR)
}

/// The component that stands for how a path begins: the root, the current
/// directory, or none.
pub open spec fn lead(path: Seq<u8>) -> Seq<Seq<u8>> {
    if is_rooted(path) {
        seq![seq![SEPARATOR]]
    } else if begins_with_dot(path) {
        seq![seq![DOT]]
    } else {
        Seq::<Seq<u8>>::empty()
    }
}

/// The components of a path: how it begins, then its names in order.
/// Repeated separators, a separator at the end, and a current directory
/// after the beginning do not count.
pub open spec fn components(path: Seq<u8>) -> Seq<Seq<u8>> {
    lead(path) + pieces(path).filter(names_only())
}

/// Components written as one path, with a separator between neighbours.
pub open spec fn join(parts: Seq<Seq<u8>>) -> Seq<u8>
    decreases parts.len(),
{
    if parts.len() == 0 {
        Seq::<u8>::empty()
    } else if parts.len() == 1 {
        parts.last()
    } else {
        join(parts.drop_last()) + seq![SEPARATOR] + parts.last()
    }
}

/// The path begins with the prefix, component by component, and the prefix
/// has a component.
pub open spec fn has_prefix(path: Seq<u8>, prefix: Seq<u8>) -> bool {
    components(prefix).len() > 0 && components(prefix).is_prefix_of(components(path))
}

/// The path to write to: what follows the prefix where the path begins with
/// it, the path as it is where it does not.
pub open spec fn stripped(path: Seq<u8>, prefix: Seq<u8>) -> Seq<u8> {
    if has_prefix(path, prefix) {
        join(components(path).skip(components(prefix).len() as int))
    } else {
        path
    }
}

/// The path that an entry is written to, under an optional prefix to take
/// off.
pub open spec fn destination(path: Seq<u8>, prefix: Option<&[u8]>) -> Seq<u8> {
    match prefix {
        Some(prefix) => stripped(path, prefix@),
        None => path,
    }
}

/// A path has at least one piece.
proof fn lemma_pieces_nonempty(path: Seq<u8>)
    ensures
        pieces(path).len() >= 1,
    decreases path.len(),
{
    if path.len() > 0 {
        lemma_pieces_nonempty(path.drop_last());
    }
}

/// Filtering a sequence with one more element keeps that element exactly
/// when it is a name.
proof fn lemma_names_push(done: Seq<Seq<u8>>, piece: Seq<u8>)
    ensures
        done.push(piece).filter(names_only()) == if is_name(piece) {
            done.filter(names_only()).push(piece)
        } else {
            done.filter(names_only())
        },
{
    reveal(Seq::filter);
    assert(done.push(piece).drop_last() == done);
}

/// Whether a piece names something.
fn piece_is_name(piece: &Vec<u8>) -> (b: bool)
    ensures
        b == is_name(piece@),
{
    piece.len() > 0 && !(piece.len() == 1 && piece[0] == DOT)
}

/// Splits a path into its components.
pub fn split_components(path: &[u8]) -> (parts: Vec<Vec<u8>>)
    ensures
        views_of(parts@) == components(path@),
{
    let mut parts: Vec<Vec<u8>> = Vec::new();
    if path.len() > 0 && path[0] == SEPARATOR {
        parts.push(vec![SEPARATOR]);
        assert(parts@[0]@ == seq![SEPARATOR]);
    } else if path.len() > 0 && path[0] == DOT && (path.len() == 1 || path[1] == SEPARATOR) {
        parts.push(vec![DOT]);
        assert(parts@[0]@ == seq![DOT]);
    }
    let mut current: Vec<u8> = Vec::new();
    let mut i: usize = 0;
    proof {
        reveal(Seq::filter);
    }
    while i < path.len()
        invariant
            i <= path.len(),
            pieces(path@.take(i as int)).len() >= 1,
            views_of(parts@) == lead(path@) + pieces(path@.take(i as int)).drop_last().filter(
                names_only(),
            ),
            current@ == pieces(path@.take(i as int)).last(),
        decreases path.len() - i,
    {
        let byte = path[i];
        proof {
            let seen = path@.take(i as int);
            let next = path@.take(i + 1);
            assert(next.drop_last() == seen);
            lemma_pieces_nonempty(next);
            let before = pieces(seen);
            if byte == SEPARATOR {
                assert(pieces(next).drop_last() == before);
                assert(before == before.drop_last().push(before.last()));
                lemma_names_push(before.drop_last(), before.last());
            } else {
                assert(pieces(next).drop_last() == before.drop_last());
            }
        }
        if byte == SEPARATOR {
            if piece_is_name(&current) {
                let ghost old_parts = views_of(parts@);
                parts.push(current);
                assert(views_of(parts@) == old_parts.push(current@));
            }
            current = Vec::new();
        } else {
            current.push(byte);
        }
        i = i + 1;
    }
    proof {
        assert(path@.take(i as int) == path@);
        let all = pieces(path@);
        lemma_names_push(all.drop_last(), all.last());
    }
    if piece_is_name(&current) {
        let ghost old_parts = views_of(parts@);
        parts.push(current);
        assert(views_of(parts@) == old_parts.push(current@));
    }
    parts
}

/// Takes `prefix` off the front of `path` where the path begins with it,
/// component by component; a path that does not begin with it comes back
/// unchanged.
pub fn strip_prefix(path: &[u8], prefix: &[u8]) -> (out: Vec<u8>)
    ensures
        out@ == stripped(path@, prefix@),
{
    let parts = split_components(path);
    let leading = split_components(prefix);
    let n = leading.len();
    if n == 0 || n > parts.len() {
        return slice_to_vec(path);
    }
    let mut j: usize = 0;
    while j < n
        invariant
            j <= n,
            n == leading.len(),
            n <= parts.len(),
            views_of(parts@) == components(path@),
            views_of(leading@) == components(prefix@),
            forall|k: int| 0 <= k < j ==> parts@[k]@ == leading@[k]@,
        decreases n - j,
    {
        if !(parts[j] == leading[j]) {
            assert(components(path@).subrange(0, n as int)[j as int] == parts@[j as int]@);
            return slice_to_vec(path);
        }
        j = j + 1;
    }
    assert(components(prefix@) =~= components(path@).subrange(0, n as int));
    let ghost rest = components(path@).skip(n as int);
    let mut out: Vec<u8> = Vec::new();
    let mut k: usize = n;
    while k < parts.len()
        invariant
            n <= k <= parts.len(),
            views_of(parts@) == components(path@),
            rest == components(path@).skip(n as int),
            out@ == join(rest.take(k - n)),
        decreases parts.len() - k,
    {
        proof {
            let more = rest.take(k - n + 1);
            assert(more.drop_last() == rest.take(k - n));
            assert(more.last() == parts@[k as int]@);
        }
        if k > n {
            out.push(SEPARATOR);
        }
        out.extend_from_slice(parts[k].as_slice());
        k = k + 1;
    }
    assert(rest.take(k - n) == rest);
    out
}

/// Decides where one entry of an archive is written.
///
/// `entry_path` is `None` where the entry could not be read from the
/// archive: the unpacking is given up with `CodecError`. Without a prefix the
/// entry keeps its path; with one, the prefix is taken off where the path
/// begins with it.
pub fn entry_destination(entry_path: Option<&[u8]>, prefix: Option<&[u8]>) -> (r: Result<
    Vec<u8>,
    Error,
>)
    ensures
        r is Err <==> entry_path is None,
        r matches Err(e) ==> e == Error::CodecError,
        r matches Ok(target) ==> entry_path matches Some(path) && target@ == destination(
            path@,
            prefix,
        ),
{
    match entry_path {
        None => Err(Error::CodecError),
        Some(path) => match prefix {
            None => Ok(slice_to_vec(path)),
            Some(prefix) => Ok(strip_prefix(path, prefix)),
        },
    }
}

/// No byte of the piece is a separator.
pub open spec fn is_unbroken(piece: Seq<u8>) -> bool {
    forall|j: int| 0 <= j < piece.len() ==> piece[j] != SEPARATOR
}

/// The pieces of a path hold no separator.
proof fn lemma_pieces_are_unbroken(path: Seq<u8>)
    ensures
        forall|i: int| 0 <= i < pieces(path).len() ==> is_unbroken(#[trigger] pieces(path)[i]),
    decreases path.len(),
{
    if path.len() > 0 {
        lemma_pieces_are_unbroken(path.drop_last());
        lemma_pieces_nonempty(path.drop_last());
    }
}

/// What the filter keeps of unbroken pieces is unbroken, and a name.
proof fn lemma_names_are_unbroken(all: Seq<Seq<u8>>)
    requires
        forall|i: int| 0 <= i < all.len() ==> is_unbroken(#[trigger] all[i]),
    ensures
        forall|k: int|
            0 <= k < all.filter(names_only()).len() ==> is_name(
                #[trigger] all.filter(names_only())[k],
            ) && is_unbroken(all.filter(names_only())[k]),
    decreases all.len(),
{
    reveal(Seq::filter);
    if all.len() > 0 {
        let init = all.drop_last();
        assert forall|i: int| 0 <= i < init.len() implies is_unbroken(#[trigger] init[i]) by {
            assert(init[i] == all[i]);
        }
        lemma_names_are_unbroken(init);
        let kept = all.filter(names_only());
        let kept_before = init.filter(names_only());
        assert forall|k: int| 0 <= k < kept.len() implies is_name(#[trigger] kept[k])
            && is_unbroken(kept[k]) by {
            if k < kept_before.len() {
                assert(kept[k] == kept_before[k]);
            } else {
                assert(kept[k] == all.last());
            }
        }
    }
}

/// A joined path begins with its first component.
proof fn lemma_join_begins_with_first(parts: Seq<Seq<u8>>)
    requires
        parts.len() >= 1,
    ensures
        parts[0].is_prefix_of(join(parts)),
    decreases parts.len(),
{
    if parts.len() > 1 {
        lemma_join_begins_with_first(parts.drop_last());
    }
}

/// After a prefix, every component of a path is a name without a separator
/// in it.
proof fn lemma_rest_is_names(path: Seq<u8>, n: int)
    requires
        1 <= n <= components(path).len(),
    ensures
        forall|i: int|
            0 <= i < components(path).skip(n).len() ==> is_name(
                #[trigger] components(path).skip(n)[i],
            ) && is_unbroken(components(path).skip(n)[i]),
{
    lemma_pieces_are_unbroken(path);
    lemma_names_are_unbroken(pieces(path));
    let names = pieces(path).filter(names_only());
    assert forall|i: int| 0 <= i < components(path).skip(n).len() implies is_name(
        #[trigger] components(path).skip(n)[i],
    ) && is_unbroken(components(path).skip(n)[i]) by {
        assert(components(path).skip(n)[i] == names[n + i - lead(path).len()]);
    }
}

/// Bytes without a separator, put after a path, lengthen its last piece.
proof fn lemma_pieces_of_extended(path: Seq<u8>, more: Seq<u8>)
    requires
        is_unbroken(more),
    ensures
        pieces(path + more) == pieces(path).drop_last().push(pieces(path).last() + more),
    decreases more.len(),
{
    lemma_pieces_nonempty(path);
    if more.len() > 0 {
        let shorter = more.drop_last();
        assert(is_unbroken(shorter)) by {
            assert forall|j: int| 0 <= j < shorter.len() implies shorter[j] != SEPARATOR by {
                assert(shorter[j] == more[j]);
            }
        }
        lemma_pieces_of_extended(path, shorter);
        assert((path + more).drop_last() == path + shorter);
        assert((pieces(path).last() + shorter).push(more.last()) == pieces(path).last() + more);
    }
}

/// Names joined into a path are that path's pieces.
proof fn lemma_pieces_of_joined(names: Seq<Seq<u8>>)
    requires
        names.len() >= 1,
        forall|i: int| 0 <= i < names.len() ==> is_unbroken(#[trigger] names[i]),
    ensures
        pieces(join(names)) == names,
    decreases names.len(),
{
    if names.len() == 1 {
        lemma_pieces_of_extended(Seq::<u8>::empty(), names[0]);
    } else {
        let init = names.drop_last();
        assert forall|i: int| 0 <= i < init.len() implies is_unbroken(#[trigger] init[i]) by {
            assert(init[i] == names[i]);
        }
        lemma_pieces_of_joined(init);
        let stem = join(init) + seq![SEPARATOR];
        assert(stem.drop_last() == join(init));
        lemma_pieces_of_extended(stem, names.last());
    }
}

/// A filter keeps all of a sequence of names.
proof fn lemma_names_are_kept(names: Seq<Seq<u8>>)
    requires
        forall|i: int| 0 <= i < names.len() ==> is_name(#[trigger] names[i]),
    ensures
        names.filter(names_only()) == names,
    decreases names.len(),
{
    reveal(Seq::filter);
    if names.len() > 0 {
        let init = names.drop_last();
        assert forall|i: int| 0 <= i < init.len() implies is_name(#[trigger] init[i]) by {
            assert(init[i] == names[i]);
        }
        lemma_names_are_kept(init);
    }
}

/// A path that does not begin with the prefix is written where it says.
pub proof fn law_path_without_prefix_is_unchanged(path: Seq<u8>, prefix: Seq<u8>)
    requires
        !has_prefix(path, prefix),
    ensures
        stripped(path, prefix) == path,
{
}

/// What is left of a path after its prefix does not begin at the root: the
/// entry stays below the place it is unpacked to.
pub proof fn law_stripped_path_is_relative(path: Seq<u8>, prefix: Seq<u8>)
    requires
        has_prefix(path, prefix),
    ensures
        !is_rooted(stripped(path, prefix)),
{
    let rest = components(path).skip(components(prefix).len() as int);
    if rest.len() > 0 {
        lemma_rest_is_names(path, components(prefix).len() as int);
        lemma_join_begins_with_first(rest);
        assert(join(rest)[0] == rest[0][0]);
    }
}

/// The components of what is left after a prefix are the path's components
/// after those of the prefix: nothing else is lost, and nothing added.
pub proof fn law_stripped_path_keeps_the_rest(path: Seq<u8>, prefix: Seq<u8>)
    requires
        has_prefix(path, prefix),
    ensures
        components(stripped(path, prefix)) == components(path).skip(
            components(prefix).len() as int,
        ),
{
    let rest = components(path).skip(components(prefix).len() as int);
    if rest.len() == 0 {
        reveal_with_fuel(Seq::filter, 2);
    } else {
        lemma_rest_is_names(path, components(prefix).len() as int);
        lemma_pieces_of_joined(rest);
        lemma_names_are_kept(rest);
        lemma_join_begins_with_first(rest);
        assert(join(rest)[0] == rest[0][0]);
        if rest[0].len() >= 2 {
            assert(join(rest)[1] == rest[0][1]);
        }
    }
}

} // verus!
