//! Comma-separated lists and integer literals, as query dimensions are written.

use vstd::prelude::*;
use vstd::slice::slice_to_vec;
use vstd::string::*;
use vstd::utf8::{decode_utf8, valid_utf8};
use vstd::std_specs::iter::IteratorSpec;

verus! {

broadcast use vstd::string::group_string_axioms;

/// The pieces of `s` between occurrences of `sep`, read from left to right.
///
/// Every text has at least one piece: the empty text has the single empty piece.
pub open spec fn split(s: Seq<char>, sep: char) -> Seq<Seq<char>>
    decreases s.len(),
{
    if s.len() == 0 {
        seq![Seq::<char>::empty()]
    } else {
        let before = split(s.drop_last(), sep);
        if s.last() == sep {
            before.push(Seq::<char>::empty())
        } else {
            before.update(before.len() - 1, before.last().push(s.last()))
        }
    }
}

/// The texts held by a sequence of strings.
pub open spec fn texts(items: Seq<String>) -> Seq<Seq<char>> {
    items.map_values(|t: String| t@)
}

/// A split has at least one piece.
pub proof fn lemma_split_nonempty(s: Seq<char>, sep: char)
    ensures
        split(s, sep).len() >= 1,
    decreases s.len(),
{
    if s.len() > 0 {
        lemma_split_nonempty(s.drop_last(), sep);
    }
}

/// Splitting proceeds one character at a time: a separator opens a new, empty
/// piece, and any other character is added to the last piece.
pub proof fn lemma_split_push(s: Seq<char>, c: char, sep: char)
    ensures
        split(s, sep).len() >= 1,
        c == sep ==> split(s.push(c), sep) == split(s, sep).push(Seq::<char>::empty()),
        c != sep ==> split(s.push(c), sep) == split(s, sep).update(
            split(s, sep).len() - 1,
            split(s, sep).last().push(c),
        ),
{
    lemma_split_nonempty(s, sep);
    assert(s.push(c).drop_last() =~= s);
}

/// Whether `sep` does not occur in `s`.
pub open spec fn free_of(s: Seq<char>, sep: char) -> bool {
    forall|i: int| 0 <= i < s.len() ==> #[trigger] s[i] != sep
}

/// The pieces put together again, with `sep` between neighbours.
pub open spec fn join(pieces: Seq<Seq<char>>, sep: char) -> Seq<char>
    decreases pieces.len(),
{
    if pieces.len() == 0 {
        Seq::empty()
    } else if pieces.len() == 1 {
        pieces[0]
    } else {
        join(pieces.drop_last(), sep).push(sep) + pieces.last()
    }
}

/// No piece of a split holds the separator.
pub proof fn lemma_split_pieces_free(s: Seq<char>, sep: char)
    ensures
        forall|i: int| 0 <= i < split(s, sep).len() ==> free_of(#[trigger] split(s, sep)[i], sep),
    decreases s.len(),
{
    if s.len() > 0 {
        lemma_split_pieces_free(s.drop_last(), sep);
        lemma_split_nonempty(s.drop_last(), sep);
        let before = split(s.drop_last(), sep);
        let after = split(s, sep);
        assert forall|i: int| 0 <= i < after.len() implies free_of(#[trigger] after[i], sep) by {
            if i < before.len() - 1 {
                assert(after[i] == before[i]);
            } else if i == before.len() - 1 && s.last() != sep {
                assert(free_of(before[i], sep));
            } else if i == before.len() - 1 {
                assert(after[i] == before[i]);
            }
        }
    }
}

/// Joining the pieces of a split gives the text back.
pub proof fn lemma_join_split(s: Seq<char>, sep: char)
    ensures
        join(split(s, sep), sep) == s,
    decreases s.len(),
{
    if s.len() == 0 {
        assert(join(split(s, sep), sep) =~= s);
    } else {
        let head = s.drop_last();
        lemma_join_split(head, sep);
        lemma_split_nonempty(head, sep);
        let before = split(head, sep);
        let after = split(s, sep);
        if s.last() == sep {
            assert(after.drop_last() =~= before);
            assert(join(after, sep) =~= head.push(sep));
        } else if before.len() == 1 {
            assert(join(after, sep) =~= head.push(s.last()));
        } else {
            assert(after.drop_last() =~= before.drop_last());
            assert(join(after, sep) =~= join(before, sep).push(s.last()));
        }
        assert(head.push(s.last()) =~= s);
    }
}

/// Text without a separator, put behind any text, lengthens the last piece.
pub proof fn lemma_split_append_free(s: Seq<char>, t: Seq<char>, sep: char)
    requires
        free_of(t, sep),
    ensures
        split(s, sep).len() >= 1,
        split(s + t, sep) == split(s, sep).update(
            split(s, sep).len() - 1,
            split(s, sep).last() + t,
        ),
    decreases t.len(),
{
    lemma_split_nonempty(s, sep);
    let pieces = split(s, sep);
    if t.len() == 0 {
        assert(s + t =~= s);
        assert(pieces.last() + t =~= pieces.last());
        assert(pieces.update(pieces.len() - 1, pieces.last()) =~= pieces);
    } else {
        let head = t.drop_last();
        assert(free_of(head, sep)) by {
            assert forall|i: int| 0 <= i < head.len() implies #[trigger] head[i] != sep by {
                assert(head[i] == t[i]);
            }
        }
        lemma_split_append_free(s, head, sep);
        lemma_split_push(s + head, t.last(), sep);
        assert((s + head).push(t.last()) =~= s + t);
        assert(t.last() == t[t.len() - 1]);
        assert((pieces.last() + head).push(t.last()) =~= pieces.last() + t);
        assert(split(s + t, sep) =~= pieces.update(pieces.len() - 1, pieces.last() + t));
    }
}

/// Splitting is the inverse of joining: pieces without a separator, joined
/// and split again, are the same pieces.
pub proof fn lemma_split_join(pieces: Seq<Seq<char>>, sep: char)
    requires
        pieces.len() >= 1,
        forall|i: int| 0 <= i < pieces.len() ==> free_of(#[trigger] pieces[i], sep),
    ensures
        split(join(pieces, sep), sep) == pieces,
    decreases pieces.len(),
{
    let empty = Seq::<char>::empty();
    if pieces.len() == 1 {
        assert(free_of(pieces[0], sep));
        lemma_split_append_free(empty, pieces[0], sep);
        assert(empty + pieces[0] =~= pieces[0]);
        assert(split(empty, sep) =~= seq![empty]);
        assert(split(pieces[0], sep) =~= pieces);
    } else {
        let head = pieces.drop_last();
        assert forall|i: int| 0 <= i < head.len() implies free_of(#[trigger] head[i], sep) by {
            assert(head[i] == pieces[i]);
        }
        lemma_split_join(head, sep);
        let joined = join(head, sep);
        lemma_split_push(joined, sep, sep);
        assert(free_of(pieces.last(), sep));
        lemma_split_append_free(joined.push(sep), pieces.last(), sep);
        assert(empty + pieces.last() =~= pieces.last());
        assert(split(join(pieces, sep), sep) =~= pieces);
    }
}

/// Splits `s` at every comma.
pub fn split_commas(s: &str) -> (pieces: Vec<String>)
    ensures
        texts(pieces@) == split(s@, ','),
{
    let n = s.unicode_len();
    let mut pieces: Vec<String> = Vec::new();
    let mut start: usize = 0;
    let mut pos: usize = 0;
    let mut it = s.chars();
    assert(texts(pieces@).push(s@.subrange(0, 0)) =~~= split(s@.take(0), ','));
    loop
        invariant_except_break
            it.remaining() == s@.skip(pos as int),
        invariant
            n == s@.len(),
            start <= pos <= n,
            texts(pieces@).push(s@.subrange(start as int, pos as int)) == split(
                s@.take(pos as int),
                ',',
            ),
        ensures
            pos == n,
        decreases n - pos,
    {
        match it.next() {
            None => {
                break ;
            },
            Some(c) => {
                proof {
                    lemma_split_push(s@.take(pos as int), c, ',');
                    assert(s@.take(pos as int).push(c) =~= s@.take(pos + 1));
                    assert(s@.skip(pos as int).drop_first() =~= s@.skip(pos + 1));
                    assert(s@.subrange(start as int, pos as int).push(c) =~= s@.subrange(
                        start as int,
                        pos + 1,
                    ));
                }
                if c == ',' {
                    let piece = String::from_str(s.substring_char(start, pos));
                    pieces.push(piece);
                    start = pos + 1;
                    assert(texts(pieces@).push(s@.subrange(start as int, pos + 1)) =~~= split(
                        s@.take(pos + 1),
                        ',',
                    ));
                } else {
                    assert(texts(pieces@).push(s@.subrange(start as int, pos + 1)) =~~= split(
                        s@.take(pos + 1),
                        ',',
                    ));
                }
                pos = pos + 1;
            },
        }
    }
    assert(s@.take(pos as int) =~= s@);
    let piece = String::from_str(s.substring_char(start, pos));
    pieces.push(piece);
    assert(texts(pieces@) =~~= split(s@, ','));
    pieces
}

/// `std::string::FromUtf8Error`, of which verified code only learns that it
/// occurred.
#[verifier::external_type_specification]
#[verifier::external_body]
pub struct ExFromUtf8Error(std::string::FromUtf8Error);

/// Calls `String::from_utf8`, which succeeds exactly on well-formed UTF-8 and
/// then gives the text that the bytes encode.
#[verifier::external_body]
fn string_from_utf8(bytes: Vec<u8>) -> (r: Result<String, std::string::FromUtf8Error>)
    ensures
        r is Ok <==> valid_utf8(bytes@),
        r matches Ok(s) ==> s@ == decode_utf8(bytes@),
{
    String::from_utf8(bytes)
}

/// The text that `bytes` encode in UTF-8.
pub fn bytes_to_ascii(bytes: &[u8]) -> (text: String)
    requires
        valid_utf8(bytes@),
    ensures
        text@ == decode_utf8(bytes@),
{
    match string_from_utf8(slice_to_vec(bytes)) {
        Ok(text) => text,
        Err(_) => String::new(),
    }
}

/// Whether `a` and `b` are the same text, character by character.
pub fn same_text(a: &str, b: &str) -> (same: bool)
    ensures
        same == (a@ == b@),
{
    let mut left = a.chars();
    let mut right = b.chars();
    let ghost mut pos: int = 0;
    loop
        invariant
            0 <= pos <= a@.len(),
            pos <= b@.len(),
            left.remaining() == a@.skip(pos),
            right.remaining() == b@.skip(pos),
            a@.take(pos) == b@.take(pos),
        decreases a@.len() - pos,
    {
        let x = left.next();
        let y = right.next();
        match x {
            None => {
                proof {
                    assert(a@.take(pos) =~= a@);
                    if y is None {
                        assert(b@.take(pos) =~= b@);
                    }
                }
                return y.is_none();
            },
            Some(c) => {
                match y {
                    None => {
                        return false;
                    },
                    Some(d) => {
                        proof {
                            assert(c == a@[pos] && d == b@[pos]);
                        }
                        if c != d {
                            return false;
                        }
                    },
                }
            },
        }
        proof {
            assert(a@.skip(pos).drop_first() =~= a@.skip(pos + 1));
            assert(b@.skip(pos).drop_first() =~= b@.skip(pos + 1));
            assert(a@.take(pos + 1) =~= a@.take(pos).push(a@[pos]));
            assert(b@.take(pos + 1) =~= b@.take(pos).push(b@[pos]));
            pos = pos + 1;
        }
    }
}

/// Whether `c` is one of the ten decimal digits.
pub open spec fn is_digit(c: char) -> bool {
    '0' <= c <= '9'
}

/// Whether every character of `s` is a decimal digit.
pub open spec fn all_digits(s: Seq<char>) -> bool {
    forall|i: int| 0 <= i < s.len() ==> is_digit(#[trigger] s[i])
}

/// The number that the decimal digits `s` write, most significant digit first.
pub open spec fn digits_value(s: Seq<char>) -> int
    decreases s.len(),
{
    if s.len() == 0 {
        0
    } else {
        10 * digits_value(s.drop_last()) + (s.last() as int - '0' as int)
    }
}

/// Whether `s` opens with a minus sign.
pub open spec fn has_minus(s: Seq<char>) -> bool {
    s.len() > 0 && s[0] == '-'
}

/// The digits of a literal: `s` without one leading `+` or `-`.
pub open spec fn unsigned_part(s: Seq<char>) -> Seq<char> {
    if s.len() > 0 && (s[0] == '-' || s[0] == '+') {
        s.skip(1)
    } else {
        s
    }
}

/// The value of `s` read as a decimal literal of a 64-bit signed integer.
///
/// A literal is an optional sign followed by at least one digit and nothing
/// else; it has a value only if that value fits in 64 bits.
pub open spec fn integer_value(s: Seq<char>) -> Option<int> {
    let digits = unsigned_part(s);
    let value = if has_minus(s) {
        -digits_value(digits)
    } else {
        digits_value(digits)
    };
    if digits.len() > 0 && all_digits(digits) && i64::MIN <= value <= i64::MAX {
        Some(value)
    } else {
        None
    }
}

/// Appending digits never makes the written number smaller.
pub proof fn lemma_digits_value_grows(s: Seq<char>, k: int)
    requires
        all_digits(s),
        0 <= k <= s.len(),
    ensures
        0 <= digits_value(s.take(k)) <= digits_value(s),
    decreases s.len() - k,
{
    lemma_digits_value_nonnegative(s.take(k));
    if k < s.len() {
        assert(s.take(k + 1).drop_last() =~= s.take(k));
        assert(is_digit(s[k]));
        assert(s.take(k + 1).last() == s[k]);
        lemma_digits_value_grows(s, k + 1);
    } else {
        assert(s.take(k) =~= s);
    }
}

/// A run of digits writes a number that is not negative.
pub proof fn lemma_digits_value_nonnegative(s: Seq<char>)
    requires
        all_digits(s),
    ensures
        0 <= digits_value(s),
    decreases s.len(),
{
    if s.len() > 0 {
        assert(is_digit(s.last()));
        lemma_digits_value_nonnegative(s.drop_last());
    }
}

/// Reads `s` as a decimal literal of a 64-bit signed integer.
pub fn parse_integer(s: &str) -> (value: Option<i64>)
    ensures
        value is Some <==> integer_value(s@) is Some,
        value matches Some(v) ==> integer_value(s@) == Some(v as int),
{
    let n = s.unicode_len();
    let ghost digits = unsigned_part(s@);
    let ghost sign = s@.len() - digits.len();
    let mut it = s.chars();
    let mut negative = false;
    let mut magnitude: u64 = 0;
    let mut pos: usize = 0;
    let mut seen: usize = 0;
    loop
        invariant_except_break
            it.remaining() == s@.skip(pos as int),
        invariant
            n == s@.len(),
            digits == unsigned_part(s@),
            sign == s@.len() - digits.len(),
            pos <= n,
            negative == (pos > 0 && has_minus(s@)),
            pos == 0 ==> seen == 0,
            pos > 0 ==> seen == pos - sign,
            all_digits(digits.take(seen as int)),
            magnitude == digits_value(digits.take(seen as int)),
            magnitude <= 0x8000_0000_0000_0000,
        ensures
            pos == n,
        decreases n - pos,
    {
        match it.next() {
            None => {
                break ;
            },
            Some(c) => {
                proof {
                    assert(s@.skip(pos as int).drop_first() =~= s@.skip(pos + 1));
                    assert(c == s@[pos as int]);
                }
                if pos == 0 && (c == '-' || c == '+') {
                    negative = c == '-';
                    assert(digits.take(0) =~= Seq::<char>::empty());
                } else {
                    if !('0' <= c && c <= '9') {
                        proof {
                            assert(digits[seen as int] == c);
                            assert(!all_digits(digits));
                        }
                        return None;
                    }
                    let d: u64 = (c as u64) - ('0' as u64);
                    proof {
                        assert(digits[seen as int] == c);
                        assert(digits.take(seen + 1).drop_last() =~= digits.take(seen as int));
                        assert(digits.take(seen + 1).last() == c);
                    }
                    if magnitude > (0x8000_0000_0000_0000 - d) / 10 {
                        proof {
                            if all_digits(digits) {
                                lemma_digits_value_grows(digits, seen + 1);
                            }
                        }
                        return None;
                    }
                    magnitude = magnitude * 10 + d;
                    seen = seen + 1;
                }
                pos = pos + 1;
            },
        }
    }
    proof {
        assert(digits.take(seen as int) =~= digits);
    }
    if seen == 0 {
        None
    } else if negative {
        if magnitude == 0x8000_0000_0000_0000 {
            Some(i64::MIN)
        } else {
            Some(-(magnitude as i64))
        }
    } else if magnitude > 0x7fff_ffff_ffff_ffff {
        None
    } else {
        Some(magnitude as i64)
    }
}

} // verus!
