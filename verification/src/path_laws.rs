//! Which directory a path is in, told by how the path is put together.
use crate::path::{
    is_separator, last_part, parent_path, path_head, without_idle_parts, without_last_part,
};
use crate::sequence::{last_index, lemma_last_index, lemma_last_index_is};
use vstd::prelude::*;

verus! {

/// A part of a path: no separator is in it.
pub open spec fn unseparated(part: Seq<char>) -> bool {
    forall|i: int| 0 <= i < part.len() ==> #[trigger] part[i] != '/'
}

/// A part that says nothing: the empty one, or a dot.
pub open spec fn idle(part: Seq<char>) -> bool {
    part == Seq::<char>::empty() || part == seq!['.']
}

/// A part that names something.
pub open spec fn naming(part: Seq<char>) -> bool {
    unseparated(part) && !idle(part)
}

/// A path with a part behind it.
pub open spec fn below(path: Seq<char>, part: Seq<char>) -> Seq<char> {
    path.push('/') + part
}

/// A path that does not end in a separator, nor in a dot behind one. The root is such a path too.
pub open spec fn ends_well(path: Seq<char>) -> bool {
    path == seq!['/'] || (path.len() > 0 && path.last() != '/' && !(path.len() > 1 && path.last()
        == '.' && path[path.len() - 2] == '/'))
}

proof fn lemma_below(path: Seq<char>, part: Seq<char>)
    requires
        path.len() > 0,
        unseparated(part),
    ensures
        ({
            let x = below(path, part);
            let head = path_head(path);
            &&& path_head(x) == head
            &&& 0 <= head <= 1 < x.len()
            &&& x.skip(last_part(x, head)) == part
            &&& without_last_part(x, head) == path
        }),
{
    let x = below(path, part);
    let head = path_head(path);
    assert(x[0] == path[0]);
    if path.len() > 1 {
        assert(x[1] == path[1]);
    } else {
        assert(x[1] == '/');
    }
    let rest = x.skip(head);
    let i = path.len() - head;
    assert(rest[i] == '/');
    assert forall|j: int| i < j < rest.len() implies !is_separator()(#[trigger] rest[j]) by {
        assert(rest[j] == part[j - i - 1]);
    }
    lemma_last_index_is(rest, is_separator(), i);
    assert(x.skip(path.len() as int + 1) =~= part);
    assert(x.take(path.len() as int) =~= path);
}

proof fn lemma_part_ahead(head: int, path: Seq<char>, part: Seq<char>)
    requires
        head == path_head(path),
        path.len() >= head,
        path.skip(head) == part,
        unseparated(part),
    ensures
        last_part(path, head) == head,
        without_last_part(path, head) == path.take(head),
{
    lemma_last_index_is(part, is_separator(), -1);
}

proof fn lemma_naming(part: Seq<char>)
    requires
        naming(part),
    ensures
        part.len() > 0,
{
    if part.len() == 0 {
        assert(part =~= Seq::empty());
    }
}

proof fn lemma_alone(part: Seq<char>)
    requires
        naming(part),
    ensures
        path_head(part) == 0,
        last_part(part, 0) == 0,
        without_last_part(part, 0) == Seq::<char>::empty(),
        without_idle_parts(part, 0) == part,
{
    lemma_naming(part);
    if part[0] == '.' && part.len() == 1 {
        assert(part =~= seq!['.']);
    }
    if part.len() > 1 {
        assert(part[1] != '/');
    }
    assert(part[0] != '/');
    assert(part.skip(0) =~= part);
    lemma_part_ahead(0, part, part);
    assert(part.take(0) =~= Seq::empty());
}

proof fn lemma_below_the_root(part: Seq<char>)
    requires
        naming(part),
    ensures
        ({
            let x = seq!['/'] + part;
            &&& path_head(x) == 1
            &&& x.len() > 1
            &&& without_last_part(x, 1) == seq!['/']
            &&& without_idle_parts(x, 1) == x
        }),
{
    let x = seq!['/'] + part;
    assert(x[0] == '/');
    lemma_naming(part);
    assert(x.skip(1) =~= part);
    lemma_part_ahead(1, x, part);
    assert(x.take(1) =~= seq!['/']);
}

proof fn lemma_ends_well(path: Seq<char>)
    requires
        ends_well(path),
    ensures
        without_idle_parts(path, path_head(path)) == path,
{
    let n = path.len() as int;
    if path == seq!['/'] || path == seq!['.'] {
        assert(path.len() == 1);
        assert(path[0] == '/' || path[0] == '.');
    } else if forall|i: int| 0 <= i < n ==> path[i] != '/' {
        lemma_alone(path);
    } else {
        let k = last_index(path, is_separator());
        lemma_last_index(path, is_separator());
        assert(0 <= k < n) by {
            let i = choose|i: int| 0 <= i < n && path[i] == '/';
            assert(is_separator()(path[i]));
        }
        let ahead = path.take(k);
        let part = path.skip(k + 1);
        assert forall|i: int| 0 <= i < part.len() implies #[trigger] part[i] != '/' by {
            assert(!is_separator()(path[i + k + 1]));
        }
        assert(path =~= below(ahead, part));
        if part.len() == 0 {
            assert(path.last() == path[k]);
        }
        if part == seq!['.'] {
            assert(part[0] == path[k + 1]);
        }
        assert(naming(part));
        if k == 0 {
            assert(path =~= seq!['/'] + part);
            lemma_below_the_root(part);
        } else {
            lemma_below(ahead, part);
        }
    }
}

/// A part that names something is in the directory that it stands behind: the root, the directory
/// of the empty path where it stands alone, or any path that ends well.
pub proof fn law_parents(path: Seq<char>, part: Seq<char>)
    requires
        naming(part),
    ensures
        parent_path(part) == Some(Seq::<char>::empty()),
        parent_path(seq!['/'] + part) == Some(seq!['/']),
        ends_well(path) ==> parent_path(below(path, part)) == Some(path),
{
    lemma_alone(part);
    lemma_naming(part);
    lemma_below_the_root(part);
    if ends_well(path) {
        lemma_below(path, part);
        lemma_ends_well(path);
    }
}

/// Parts that say nothing make no difference, neither at the end of a path nor ahead of its last
/// part.
pub proof fn law_idle_parts_say_nothing(path: Seq<char>, nothing: Seq<char>, part: Seq<char>)
    requires
        path.len() > 0,
        idle(nothing),
        naming(part),
    ensures
        parent_path(below(path, nothing)) == parent_path(path),
        parent_path(below(below(path, nothing), part)) == parent_path(below(path, part)),
{
    let longer = below(path, nothing);
    lemma_below(path, nothing);
    lemma_below(path, part);
    lemma_below(longer, part);
}

/// The root is in no directory, and neither is the empty path. The directory that the program is
/// in is in that of the empty path.
pub proof fn law_paths_without_parts()
    ensures
        parent_path(Seq::empty()) is None,
        parent_path(seq!['/']) is None,
        parent_path(seq!['.']) == Some(Seq::<char>::empty()),
{
}

} // verus!
