//! Reading sysfs attributes: paths, contents and the text inside them.
use crate::error::{Error, ErrorView, IoError, IoErrorKind, IoErrorView};
use crate::table::Table;
use crate::text::{
    chars_of, find_char, part, split, split_chars, split_once,
};
use vstd::prelude::*;
use vstd::utf8::{decode_utf8, valid_utf8};

verus! {

/// What came of reading a file: its bytes, or how it failed.
pub type Contents = Result<Vec<u8>, IoError>;

/// `std::str::from_utf8` gives the text of a byte slice that is valid UTF-8, and nothing of one
/// that is not.
#[verifier::external_body]
pub(crate) fn utf8_text(bytes: &[u8]) -> (r: Option<&str>)
    ensures
        r is Some <==> valid_utf8(bytes@),
        r is Some ==> r->0@ == decode_utf8(bytes@),
{
    std::str::from_utf8(bytes).ok()
}

// ---- Paths -----------------------------------------------------------------------------------

/// A path below another. An absolute path stands for itself.
pub open spec fn joined(base: Seq<char>, path: Seq<char>) -> Seq<char> {
    if path.len() > 0 && path[0] == '/' {
        path
    } else if base.len() == 0 || base.last() == '/' {
        base + path
    } else {
        base.push('/') + path
    }
}

pub fn join_path(base: &str, path: &str) -> (r: String)
    ensures
        r@ == joined(base@, path@),
{
    let base_chars = chars_of(base);
    let path_chars = chars_of(path);
    if path_chars.len() > 0 && path_chars[0] == '/' {
        return path.to_owned();
    }
    let mut r = base.to_owned();
    if base_chars.len() > 0 && base_chars[base_chars.len() - 1] != '/' {
        r.push('/');
    }
    r.append(path);
    r
}

// ---- Contents --------------------------------------------------------------------------------

/// The characters that end a sysfs value.
pub open spec fn value_end(c: char) -> bool {
    c == '\u{0}' || c == '\n' || c == '\r' || c == '\t'
}

/// A sysfs value without what ends it.
pub open spec fn trimmed(s: Seq<char>) -> Seq<char>
    decreases s.len(),
{
    if s.len() > 0 && value_end(s.last()) {
        trimmed(s.drop_last())
    } else {
        s
    }
}

pub fn trim_sysfs_value(value: &str) -> (r: String)
    ensures
        r@ == trimmed(value@),
{
    let chars = chars_of(value);
    let mut n: usize = chars.len();
    assert(chars@.take(n as int) =~= value@);
    while n > 0 && (chars[n - 1] == '\0' || chars[n - 1] == '\n' || chars[n - 1] == '\r' || chars[n
        - 1] == '\t')
        invariant
            n <= chars@.len(),
            chars@ == value@,
            trimmed(value@) == trimmed(chars@.take(n as int)),
        decreases n,
    {
        assert(chars@.take(n as int).drop_last() =~= chars@.take(n - 1));
        n -= 1;
    }
    let r = part(&chars, 0, n);
    assert(chars@.subrange(0, n as int) =~= chars@.take(n as int));
    r
}

pub open spec fn read_failure(path: Seq<char>, source: IoErrorView) -> ErrorView {
    ErrorView::Io { context: "failed to read "@ + path, source }
}

pub open spec fn not_text() -> IoErrorView {
    IoErrorView {
        kind: IoErrorKind::Other,
        os_code: None,
        message: "stream did not contain valid UTF-8"@,
    }
}

/// What a file says: its text, nothing where it is absent, or an error.
pub open spec fn optional_text(path: Seq<char>, contents: Contents) -> Result<
    Option<Seq<char>>,
    ErrorView,
> {
    match contents {
        Ok(bytes) => if valid_utf8(bytes@) {
            Ok(Some(decode_utf8(bytes@)))
        } else {
            Err(read_failure(path, not_text()))
        },
        Err(error) => if error.kind == IoErrorKind::NotFound {
            Ok(None)
        } else {
            Err(read_failure(path, error@))
        },
    }
}

/// What a file says, without what ends a sysfs value.
pub open spec fn optional_value(path: Seq<char>, contents: Contents) -> Result<
    Option<Seq<char>>,
    ErrorView,
> {
    match optional_text(path, contents) {
        Ok(Some(text)) => Ok(Some(trimmed(text))),
        Ok(None) => Ok(None),
        Err(error) => Err(error),
    }
}

/// The plain value of an optional text that was read.
pub open spec fn text_result(r: Result<Option<String>, Error>) -> Result<
    Option<Seq<char>>,
    ErrorView,
> {
    match r {
        Ok(text) => Ok(text.deep_view()),
        Err(error) => Err(error@),
    }
}

pub fn read_error(path: &str, source: IoError) -> (r: Error)
    ensures
        r@ == read_failure(path@, source@),
{
    let mut context = "failed to read ".to_owned();
    context.append(path);
    Error::io(context, source)
}

/// What a file says: its text, or nothing where it is absent.
pub fn read_optional(path: &str, contents: Contents) -> (r: Result<Option<String>, Error>)
    ensures
        text_result(r) == optional_text(path@, contents),
{
    match contents {
        Ok(bytes) => match utf8_text(bytes.as_slice()) {
            Some(text) => Ok(Some(text.to_owned())),
            None => {
                let source = IoError {
                    kind: IoErrorKind::Other,
                    os_code: None,
                    message: "stream did not contain valid UTF-8".to_owned(),
                };
                Err(read_error(path, source))
            },
        },
        Err(error) => {
            if error.kind == IoErrorKind::NotFound {
                Ok(None)
            } else {
                Err(read_error(path, error))
            }
        },
    }
}

/// What a file says, without what ends a sysfs value.
pub fn read_trimmed_optional(path: &str, contents: Contents) -> (r: Result<Option<String>, Error>)
    ensures
        text_result(r) == optional_value(path@, contents),
{
    match read_optional(path, contents) {
        Ok(Some(text)) => Ok(Some(trim_sysfs_value(text.as_str()))),
        Ok(None) => Ok(None),
        Err(error) => Err(error),
    }
}

// ---- The uevent attribute --------------------------------------------------------------------

/// A line that a line feed ended, without a carriage return before it.
pub open spec fn without_return(line: Seq<char>) -> Seq<char> {
    if line.len() > 0 && line.last() == '\r' {
        line.drop_last()
    } else {
        line
    }
}

/// The lines of a text. What follows the last line feed is a line only where it is not empty.
pub open spec fn lines(s: Seq<char>) -> Seq<Seq<char>> {
    let pieces = split(s, '\n');
    let ended = pieces.drop_last().map_values(|line: Seq<char>| without_return(line));
    if pieces.last().len() == 0 {
        ended
    } else {
        ended.push(pieces.last())
    }
}

/// The properties `key=value` of some lines. Of two lines with one key the later counts; lines
/// without `=` do not.
pub open spec fn properties(lines: Seq<Seq<char>>) -> Map<Seq<char>, Seq<char>>
    decreases lines.len(),
{
    if lines.len() == 0 {
        Map::empty()
    } else {
        let before = properties(lines.drop_last());
        match split_once(lines.last(), '=') {
            Some((key, value)) => before.insert(key, value),
            None => before,
        }
    }
}

/// A table of texts, as a map of plain values.
pub open spec fn texts(m: Map<Seq<char>, String>) -> Map<Seq<char>, Seq<char>> {
    m.map_values(|value: String| value@)
}

/// Adds the property of one line.
fn add_property(table: &mut Table<String, String>, line: &[char])
    requires
        old(table).wf(),
    ensures
        final(table).wf(),
        texts(final(table)@) == (match split_once(line@, '=') {
            Some((key, value)) => texts(old(table)@).insert(key, value),
            None => texts(old(table)@),
        }),
{
    let ghost before = table@;
    let i = find_char(line, '=');
    proof {
        crate::sequence::lemma_first_index(line@, crate::text::equals('='));
    }
    if i < line.len() {
        let key = part(line, 0, i);
        let value = part(line, i + 1, line.len());
        proof {
            assert(key@ =~= line@.take(i as int));
            assert(value@ =~= line@.skip(i + 1));
            assert(texts(before.insert(key@, value)) =~= texts(before).insert(key@, value@));
        }
        table.insert(key, value);
    }
}

/// The properties that a `uevent` attribute lists.
pub fn parse_uevent(contents: &str) -> (r: Table<String, String>)
    ensures
        r.wf(),
        texts(r@) == properties(lines(contents@)),
{
    let chars = chars_of(contents);
    let mut pieces = split_chars(&chars, '\n');
    let ghost all = split(contents@, '\n');
    let ghost listed = lines(contents@);
    let mut table: Table<String, String> = Table::new();
    proof {
        crate::text::lemma_split_nonempty(contents@, '\n');
        assert(pieces@.len() == all.len());
        assert forall|j: int| 0 <= j < all.len() implies #[trigger] pieces@[j]@ == all[j] by {
            assert(pieces.deep_view()[j] =~= pieces@[j]@);
        }
        assert(texts(table@) =~= Map::empty());
        assert(listed.take(0) =~= Seq::empty());
    }
    let last = pieces.len() - 1;
    for i in 0..last
        invariant
            last == all.len() - 1,
            pieces@.len() == all.len(),
            all == split(contents@, '\n'),
            listed == lines(contents@),
            forall|j: int| 0 <= j < all.len() ==> #[trigger] pieces@[j]@ == all[j],
            table.wf(),
            texts(table@) == properties(listed.take(i as int)),
    {
        let line = &pieces[i];
        proof {
            assert(pieces@[i as int]@ == all[i as int]);
            assert(listed[i as int] == without_return(all[i as int]));
            assert(listed.take(i + 1).drop_last() =~= listed.take(i as int));
        }
        if line.len() > 0 && line[line.len() - 1] == '\r' {
            let mut shorter = line.clone();
            shorter.pop();
            assert(shorter@ =~= without_return(all[i as int]));
            add_property(&mut table, &shorter);
        } else {
            add_property(&mut table, line);
        }
    }
    assert(pieces@[last as int]@ == all[last as int]);
    if pieces[last].len() > 0 {
        proof {
            assert(listed.drop_last() =~= listed.take(last as int));
        }
        add_property(&mut table, &pieces[last]);
    } else {
        assert(listed =~= listed.take(last as int));
    }
    table
}

} // verus!
