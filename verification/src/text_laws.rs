//! What the operations on text come to, character by character.
use crate::sequence::{first_index, lemma_first_index, lemma_first_index_is};
use crate::text::{
    all_decimal, all_hex, blank, decimal, decimal_digit, equals, hex_byte, hex_digit,
    lemma_split_nonempty, lower, lower_char, position, split, split_once, upper, upper_char,
};
use vstd::prelude::*;

verus! {

// ---- Case ------------------------------------------------------------------------------------

/// Two characters are equal, or the same ASCII letter in the two cases.
pub open spec fn same_letter(a: char, b: char) -> bool {
    ||| a == b
    ||| 'A' <= a && a <= 'Z' && b as u32 == a as u32 + 32
    ||| 'A' <= b && b <= 'Z' && a as u32 == b as u32 + 32
}

/// Two texts differ in nothing but the case of ASCII letters.
pub open spec fn same_letters(a: Seq<char>, b: Seq<char>) -> bool {
    &&& a.len() == b.len()
    &&& forall|i: int| 0 <= i < a.len() ==> same_letter(#[trigger] a[i], b[i])
}

proof fn lemma_lower_char(c: char)
    ensures
        'A' <= c && c <= 'Z' ==> lower_char(c) as u32 == c as u32 + 32,
        !('A' <= c && c <= 'Z') ==> lower_char(c) == c,
        'a' <= c && c <= 'z' ==> upper_char(c) as u32 + 32 == c as u32,
        !('a' <= c && c <= 'z') ==> upper_char(c) == c,
{
}

/// Putting a text in lower case changes the letters `A` to `Z`, to those that stand 32 places
/// behind them, and nothing else. Upper case is the way back.
pub proof fn law_case_changes_letters_only(s: Seq<char>)
    ensures
        lower(s).len() == s.len(),
        upper(s).len() == s.len(),
        forall|i: int|
            0 <= i < s.len() ==> #[trigger] lower(s)[i] as u32 == (if 'A' <= s[i] && s[i] <= 'Z' {
                s[i] as u32 + 32
            } else {
                s[i] as u32 as int
            }),
        forall|i: int|
            0 <= i < s.len() ==> #[trigger] upper(s)[i] as u32 == (if 'a' <= s[i] && s[i] <= 'z' {
                s[i] as u32 - 32
            } else {
                s[i] as u32 as int
            }),
        same_letters(s, lower(s)),
        same_letters(s, upper(s)),
{
    assert forall|i: int| 0 <= i < s.len() implies #[trigger] lower(s)[i] as u32 == (if 'A' <= s[i]
        && s[i] <= 'Z' {
        s[i] as u32 + 32
    } else {
        s[i] as u32 as int
    }) by {
        lemma_lower_char(s[i]);
    }
    assert forall|i: int| 0 <= i < s.len() implies #[trigger] upper(s)[i] as u32 == (if 'a' <= s[i]
        && s[i] <= 'z' {
        s[i] as u32 - 32
    } else {
        s[i] as u32 as int
    }) by {
        lemma_lower_char(s[i]);
    }
    assert forall|i: int| 0 <= i < s.len() implies same_letter(#[trigger] s[i], lower(s)[i]) by {
        lemma_lower_char(s[i]);
        assert(lower(s)[i] == lower_char(s[i]));
    }
    assert forall|i: int| 0 <= i < s.len() implies same_letter(#[trigger] s[i], upper(s)[i]) by {
        lemma_lower_char(s[i]);
        assert(upper(s)[i] == upper_char(s[i]));
    }
}

proof fn lemma_same_letter(a: char, b: char)
    ensures
        lower_char(a) == lower_char(b) <==> same_letter(a, b),
{
    lemma_lower_char(a);
    lemma_lower_char(b);
    if lower_char(a) as u32 == lower_char(b) as u32 {
        assert(lower_char(a) == lower_char(b));
    }
}

/// Texts are equal in lower case exactly where they differ in nothing but case.
pub proof fn law_lower_case_forgets_case_only(a: Seq<char>, b: Seq<char>)
    ensures
        lower(a) == lower(b) <==> same_letters(a, b),
{
    if lower(a) == lower(b) {
        assert(a.len() == lower(a).len() && b.len() == lower(b).len());
        assert forall|i: int| 0 <= i < a.len() implies same_letter(#[trigger] a[i], b[i]) by {
            assert(lower(a)[i] == lower_char(a[i]));
            assert(lower(b)[i] == lower_char(b[i]));
            lemma_same_letter(a[i], b[i]);
        }
    }
    if same_letters(a, b) {
        assert forall|i: int| 0 <= i < a.len() implies lower(a)[i] == lower(b)[i] by {
            assert(same_letter(a[i], b[i]));
            lemma_same_letter(a[i], b[i]);
        }
        assert(lower(a) =~= lower(b));
    }
}

// ---- Classes ---------------------------------------------------------------------------------

/// A text is hexadecimal exactly where it holds the sixteen digits only, in either case.
pub proof fn law_hexadecimal_texts(s: Seq<char>)
    ensures
        all_hex(s) <==> forall|i: int|
            0 <= i < s.len() ==> "0123456789abcdefABCDEF"@.contains(#[trigger] s[i]),
        all_decimal(s) <==> forall|i: int|
            0 <= i < s.len() ==> "0123456789"@.contains(#[trigger] s[i]),
{
    reveal_strlit("0123456789abcdefABCDEF");
    reveal_strlit("0123456789");
    let hex = "0123456789abcdefABCDEF"@;
    let ten = "0123456789"@;
    assert forall|c: char| #[trigger] hex.contains(c) <==> hex_digit(c) by {
        if hex_digit(c) {
            let k: int = if '0' <= c && c <= '9' {
                c as u32 - '0' as u32
            } else if 'a' <= c && c <= 'f' {
                c as u32 - 'a' as u32 + 10
            } else {
                c as u32 - 'A' as u32 + 16
            };
            assert(hex[k] as u32 == c as u32);
        }
    }
    assert forall|c: char| #[trigger] ten.contains(c) <==> decimal_digit(c) by {
        if decimal_digit(c) {
            let k: int = c as u32 - '0' as u32;
            assert(ten[k] as u32 == c as u32);
        }
    }
    if all_hex(s) {
        assert forall|i: int| 0 <= i < s.len() implies hex.contains(#[trigger] s[i]) by {
            assert(hex_digit(s[i]));
        }
    }
    if forall|i: int| 0 <= i < s.len() ==> hex.contains(#[trigger] s[i]) {
        assert forall|i: int| 0 <= i < s.len() implies hex_digit(#[trigger] s[i]) by {
            assert(hex.contains(s[i]));
        }
    }
    if all_decimal(s) {
        assert forall|i: int| 0 <= i < s.len() implies ten.contains(#[trigger] s[i]) by {
            assert(decimal_digit(s[i]));
        }
    }
    if forall|i: int| 0 <= i < s.len() ==> ten.contains(#[trigger] s[i]) {
        assert forall|i: int| 0 <= i < s.len() implies decimal_digit(
            #[trigger] s[i],
        ) by {
            assert(ten.contains(s[i]));
        }
    }
}

/// A text with a character that can be seen is not blank: one that is neither ASCII white space
/// nor beyond ASCII. A text of spaces is.
pub proof fn law_blank_texts(s: Seq<char>)
    ensures
        (exists|i: int| 0 <= i < s.len() && '!' <= #[trigger] s[i] && s[i] <= '~') ==> !blank(s),
        (forall|i: int| 0 <= i < s.len() ==> #[trigger] s[i] == ' ') ==> blank(s),
        s.len() == 0 ==> blank(s),
{
}

// ---- Numbers ---------------------------------------------------------------------------------

/// The number that decimal digits stand for.
pub open spec fn digits_value(s: Seq<char>) -> int
    decreases s.len(),
{
    if s.len() == 0 {
        0
    } else {
        digits_value(s.drop_last()) * 10 + (s.last() as u32 - '0' as u32)
    }
}

/// A number is written in decimal digits that stand for it, without a zero ahead of it.
pub proof fn law_decimal_texts(n: nat)
    ensures
        digits_value(decimal(n)) == n,
        decimal(n).len() >= 1,
        forall|i: int|
            0 <= i < decimal(n).len() ==> '0' <= #[trigger] decimal(n)[i] && decimal(n)[i] <= '9',
        n > 0 ==> decimal(n)[0] != '0',
    decreases n,
{
    reveal_with_fuel(digits_value, 2);
    if n < 10 {
        assert(decimal(n).drop_last() =~= Seq::empty());
    } else {
        law_decimal_texts(n / 10);
        assert(decimal(n).drop_last() =~= decimal(n / 10));
        assert forall|i: int| 0 <= i < decimal(n).len() implies '0' <= #[trigger] decimal(n)[i]
            && decimal(n)[i] <= '9' by {
            if i < decimal(n).len() - 1 {
                assert(decimal(n)[i] == decimal(n / 10)[i]);
            }
        }
        assert(decimal(n)[0] == decimal(n / 10)[0]);
    }
}

/// Different numbers are written differently.
pub proof fn law_decimal_texts_differ(a: nat, b: nat)
    ensures
        decimal(a) == decimal(b) <==> a == b,
{
    law_decimal_texts(a);
    law_decimal_texts(b);
}

/// The number that a lower-case hexadecimal digit stands for.
pub open spec fn hex_value(c: char) -> int {
    if '0' <= c && c <= '9' {
        c as u32 - '0' as u32
    } else {
        c as u32 - 'a' as u32 + 10
    }
}

/// A byte is written as two lower-case hexadecimal digits, the higher one first.
pub proof fn law_hexadecimal_bytes(b: u8)
    ensures
        hex_byte(b).len() == 2,
        forall|i: int|
            0 <= i < 2 ==> {
                let c = #[trigger] hex_byte(b)[i];
                ('0' <= c && c <= '9') || ('a' <= c && c <= 'f')
            },
        hex_value(hex_byte(b)[0]) * 16 + hex_value(hex_byte(b)[1]) == b,
{
    assert(b as int / 16 < 16);
    assert(b as int % 16 < 16);
}

// ---- Cutting text apart ----------------------------------------------------------------------

/// Pieces put together with a separator between them.
pub open spec fn put_together<A>(pieces: Seq<Seq<A>>, separator: A) -> Seq<A>
    decreases pieces.len(),
{
    if pieces.len() <= 1 {
        if pieces.len() == 1 {
            pieces[0]
        } else {
            Seq::empty()
        }
    } else {
        put_together(pieces.drop_last(), separator).push(separator) + pieces.last()
    }
}

/// The pieces of a text, put together again, are the text, and none of them holds the separator.
pub proof fn law_pieces_make_the_text<A>(s: Seq<A>, separator: A)
    ensures
        put_together(split(s, separator), separator) == s,
        split(s, separator).len() >= 1,
        forall|i: int|
            0 <= i < split(s, separator).len() ==> !(#[trigger] split(s, separator)[i]).contains(
                separator,
            ),
    decreases s.len(),
{
    let p = split(s, separator);
    if s.len() == 0 {
        assert(p[0] =~= Seq::<A>::empty());
        assert(put_together(p, separator) =~= s);
    } else {
        let rest = s.drop_last();
        let q = split(rest, separator);
        law_pieces_make_the_text(rest, separator);
        if s.last() == separator {
            assert(p.drop_last() =~= q);
            assert(p.last() =~= Seq::<A>::empty());
            assert(put_together(p, separator) =~= s);
            assert forall|i: int| 0 <= i < p.len() implies !(#[trigger] p[i]).contains(separator) by {
                if i < q.len() {
                    assert(p[i] == q[i]);
                }
            }
        } else {
            let grown = q.last().push(s.last());
            assert(p.drop_last() =~= q.drop_last());
            assert(p.last() == grown);
            assert(p.len() == q.len());
            if q.len() == 1 {
                assert(p[0] == grown && q[0] == rest);
                assert(grown =~= s);
            } else {
                let ahead = put_together(q.drop_last(), separator).push(separator);
                assert(put_together(q, separator) == ahead + q.last());
                assert(put_together(p, separator) == ahead + grown);
                assert(ahead + grown =~= (ahead + q.last()).push(s.last()));
                assert(rest.push(s.last()) =~= s);
            }
            assert forall|i: int| 0 <= i < p.len() implies !(#[trigger] p[i]).contains(separator) by {
                if i < q.len() - 1 {
                    assert(p[i] == q[i]);
                } else {
                    let before = q[q.len() - 1];
                    assert(!before.contains(separator));
                    if grown.contains(separator) {
                        let k = choose|k: int| 0 <= k < grown.len() && grown[k] == separator;
                        assert(k < before.len());
                        assert(before[k] == separator);
                    }
                }
            }
        }
    }
}

/// A text behind a piece and a separator adds its own pieces to that piece.
pub proof fn law_pieces_behind_a_separator<A>(piece: Seq<A>, separator: A, rest: Seq<A>)
    requires
        !piece.contains(separator),
    ensures
        split(piece.push(separator) + rest, separator) == seq![piece] + split(rest, separator),
        split(piece, separator) == seq![piece],
    decreases rest.len(),
{
    lemma_single_piece(piece, separator);
    let s = piece.push(separator) + rest;
    if rest.len() == 0 {
        assert(s.drop_last() =~= piece);
        assert(split(s, separator) =~= seq![piece] + split(rest, separator));
    } else {
        let less = rest.drop_last();
        law_pieces_behind_a_separator(piece, separator, less);
        lemma_split_nonempty(less, separator);
        assert(s.drop_last() =~= piece.push(separator) + less);
        let q = split(less, separator);
        let before = seq![piece] + q;
        assert(before.last() == q.last());
        assert(before.drop_last() =~= seq![piece] + q.drop_last());
        assert(split(s, separator) =~= seq![piece] + split(rest, separator));
    }
}

proof fn lemma_single_piece<A>(piece: Seq<A>, separator: A)
    requires
        !piece.contains(separator),
    ensures
        split(piece, separator) == seq![piece],
    decreases piece.len(),
{
    if piece.len() == 0 {
        assert(piece =~= Seq::<A>::empty());
        assert(split(piece, separator) =~= seq![piece]);
    } else {
        let less = piece.drop_last();
        if less.contains(separator) {
            let k = choose|k: int| 0 <= k < less.len() && less[k] == separator;
            assert(piece[k] == separator);
        }
        lemma_single_piece(less, separator);
        assert(piece[piece.len() - 1] == piece.last());
        assert(seq![less].drop_last() =~= Seq::<Seq<A>>::empty());
        assert(less.push(piece.last()) =~= piece);
        assert(split(piece, separator) =~= seq![piece]);
    }
}

/// A text is cut at the first separator, where it has one: the part before holds none, and the two
/// parts with the separator between them are the text.
pub proof fn law_cut_at_the_first_separator(s: Seq<char>, separator: char)
    ensures
        split_once(s, separator) is Some <==> s.contains(separator),
        split_once(s, separator) matches Some(parts) ==> {
            &&& !parts.0.contains(separator)
            &&& parts.0.push(separator) + parts.1 == s
        },
        0 <= position(s, separator) <= s.len(),
        position(s, separator) == s.len() <==> !s.contains(separator),
{
    let f = equals(separator);
    let i = first_index(s, f);
    lemma_first_index(s, f);
    if i < s.len() {
        assert(s[i] == separator);
        let before = s.take(i);
        if before.contains(separator) {
            let k = choose|k: int| 0 <= k < before.len() && before[k] == separator;
            assert(!f(s[k]));
        }
        assert(before.push(separator) + s.skip(i + 1) =~= s);
    } else if s.contains(separator) {
        let k = choose|k: int| 0 <= k < s.len() && s[k] == separator;
        assert(!f(s[k]));
    }
}

/// A text that is put together of a part without the separator, the separator and any other text
/// is cut into these two.
pub proof fn law_cut_apart_again(before: Seq<char>, separator: char, after: Seq<char>)
    requires
        !before.contains(separator),
    ensures
        split_once(before.push(separator) + after, separator) == Some((before, after)),
{
    let s = before.push(separator) + after;
    assert forall|j: int| 0 <= j < before.len() implies !equals(separator)(#[trigger] s[j]) by {
        assert(s[j] == before[j]);
        assert(before.contains(before[j]));
    }
    assert(s[before.len() as int] == separator);
    lemma_first_index_is(s, equals(separator), before.len() as int);
    assert(s.take(before.len() as int) =~= before);
    assert(s.skip(before.len() as int + 1) =~= after);
}

} // verus!
