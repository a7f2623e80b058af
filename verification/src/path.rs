//! Paths as text.
use crate::sequence::{last_index, lemma_last_index, lemma_last_index_is};
use crate::sysfs::attributes::joined;
use crate::text::{chars_of, part};
use vstd::prelude::*;

verus! {

/// The predicate that a character ends a part of a path.
pub open spec fn is_separator() -> spec_fn(char) -> bool {
    |c: char| c == '/'
}

/// How much of a path stands ahead of its parts: the root, or a dot for the directory that the
/// program is in.
pub open spec fn path_head(path: Seq<char>) -> int {
    if path.len() > 0 && path[0] == '/' {
        1
    } else if path.len() > 0 && path[0] == '.' && (path.len() == 1 || path[1] == '/') {
        1
    } else {
        0
    }
}

/// Where the last part of a path begins.
pub open spec fn last_part(path: Seq<char>, head: int) -> int {
    head + last_index(path.skip(head), is_separator()) + 1
}

/// A path without its last part, and without the separator ahead of it.
pub open spec fn without_last_part(path: Seq<char>, head: int) -> Seq<char> {
    let start = last_part(path, head);
    path.take(
        if start > head {
            start - 1
        } else {
            head
        },
    )
}

/// A path without the parts at its end that say nothing: empty ones, and dots.
pub open spec fn without_idle_parts(path: Seq<char>, head: int) -> Seq<char>
    decreases path.len(),
    when 0 <= head
    via idle_parts_decrease
{
    if path.len() <= head {
        path
    } else {
        let last = path.skip(last_part(path, head));
        if last.len() == 0 || last == seq!['.'] {
            without_idle_parts(without_last_part(path, head), head)
        } else {
            path
        }
    }
}

#[via_fn]
proof fn idle_parts_decrease(path: Seq<char>, head: int) {
    if path.len() > head {
        lemma_last_index(path.skip(head), is_separator());
    }
}

/// The directory that a path is in: the path without its last part. A path of a single part is in
/// the directory of the empty path. The root and the empty path are in no directory.
pub open spec fn parent_path(path: Seq<char>) -> Option<Seq<char>> {
    let head = path_head(path);
    let whole = without_idle_parts(path, head);
    if whole.len() > head {
        Some(without_idle_parts(without_last_part(whole, head), head))
    } else if whole == seq!['.'] {
        Some(Seq::empty())
    } else {
        None
    }
}

fn find_last_part(path: &Vec<char>, head: usize, n: usize) -> (r: usize)
    requires
        head <= n <= path@.len(),
    ensures
        r == last_part(path@.take(n as int), head as int),
        head <= r <= n,
{
    let ghost parts = path@.take(n as int).skip(head as int);
    let mut i: usize = n;
    while i > head && path[i - 1] != '/'
        invariant
            head <= i <= n <= path@.len(),
            parts == path@.take(n as int).skip(head as int),
            forall|j: int| i - head <= j < parts.len() ==> !is_separator()(#[trigger] parts[j]),
        decreases i,
    {
        assert(parts[i - 1 - head] == path@[i - 1]);
        i -= 1;
    }
    proof {
        if i > head {
            assert(parts[i - 1 - head] == path@[i - 1]);
        }
        lemma_last_index_is(parts, is_separator(), i - head - 1);
    }
    i
}

fn drop_last_part(path: &Vec<char>, head: usize, n: usize) -> (r: usize)
    requires
        head <= n <= path@.len(),
    ensures
        path@.take(r as int) == without_last_part(path@.take(n as int), head as int),
        head <= r <= n,
        head < n ==> r < n,
{
    let start = find_last_part(path, head, n);
    if start > head {
        assert(path@.take(n as int).take(start - 1) =~= path@.take(start - 1));
        start - 1
    } else {
        assert(path@.take(n as int).take(head as int) =~= path@.take(head as int));
        head
    }
}

fn drop_idle_parts(path: &Vec<char>, head: usize, n: usize) -> (r: usize)
    requires
        head <= n <= path@.len(),
    ensures
        path@.take(r as int) == without_idle_parts(path@.take(n as int), head as int),
        head <= r <= n,
{
    let ghost all = path@.take(n as int);
    let mut end: usize = n;
    while end > head
        invariant_except_break
            without_idle_parts(all, head as int) == without_idle_parts(
                path@.take(end as int),
                head as int,
            ),
        invariant
            head <= end <= n <= path@.len(),
        ensures
            without_idle_parts(all, head as int) == path@.take(end as int),
        decreases end,
    {
        let ghost now = path@.take(end as int);
        let start = find_last_part(path, head, end);
        let ghost last = now.skip(last_part(now, head as int));
        let idle = start == end || (end - start == 1 && path[start] == '.');
        proof {
            let dot = seq!['.'];
            assert(dot.len() == 1 && dot[0] == '.');
            assert(last.len() == end - start);
            if end - start == 1 {
                assert(last[0] == path@[start as int]);
                if path@[start as int] == '.' {
                    assert(last =~= dot);
                }
            }
            assert(idle <==> last.len() == 0 || last == dot);
        }
        if !idle {
            break;
        }
        end = drop_last_part(path, head, end);
    }
    end
}

/// The directory that a path is in, where there is one.
pub fn parent_of(path: &str) -> (r: Option<String>)
    ensures
        r.deep_view() == parent_path(path@),
{
    let chars = chars_of(path);
    let head: usize = if chars.len() > 0 && (chars[0] == '/' || chars[0] == '.' && (chars.len() == 1
        || chars[1] == '/')) {
        1
    } else {
        0
    };
    assert(chars@.take(chars@.len() as int) =~= path@);
    let whole = drop_idle_parts(&chars, head, chars.len());
    let ghost text = chars@.take(whole as int);
    if whole > head {
        let end = drop_last_part(&chars, head, whole);
        let end = drop_idle_parts(&chars, head, end);
        assert(chars@.subrange(0, end as int) =~= chars@.take(end as int));
        Some(part(&chars, 0, end))
    } else if whole == 1 && chars[0] == '.' {
        assert(text =~= seq!['.']);
        Some(String::new())
    } else {
        proof {
            if whole == 1 {
                assert(text[0] == chars@[0]);
                assert(seq!['.'][0] == '.');
            }
        }
        None
    }
}

// ---- Laws ------------------------------------------------------------------------------------

/// What is put into a directory is in that directory, where the directory's path ends with a part
/// that says something and the name is a single part that does.
pub proof fn law_entries_are_in_their_directory(directory: Seq<char>, name: Seq<char>)
    requires
        directory.len() > 0,
        directory.last() != '/',
        without_idle_parts(directory, path_head(directory)) == directory,
        name.len() > 0,
        name != seq!['.'],
        forall|i: int| 0 <= i < name.len() ==> #[trigger] name[i] != '/',
    ensures
        parent_path(joined(directory, name)) == Some(directory),
{
    let path = joined(directory, name);
    let head = path_head(directory);
    let n = directory.len() as int;
    assert(path =~= directory + seq!['/'] + name);
    assert(path[0] == directory[0]);
    assert(n > 1 ==> path[1] == directory[1]);
    assert(path_head(path) == head);
    let parts = path.skip(head);
    assert forall|j: int| n - head < j < parts.len() implies !is_separator()(
        #[trigger] parts[j],
    ) by {
        assert(parts[j] == name[j + head - n - 1]);
    }
    assert(parts[n - head] == '/');
    lemma_last_index_is(parts, is_separator(), n - head);
    assert(path.skip(n + 1) =~= name);
    assert(path.take(n) =~= directory);
}

} // verus!
