//! Byte-indexed string primitives shared by the history engine and the editor.
//!
//! Buffers are `String`s indexed by UTF-8 byte offsets. Contracts speak of the
//! byte sequence `bytes(s@)`, the UTF-8 encoding of the string's characters.
use vstd::prelude::*;
use vstd::string::*;
use vstd::utf8::*;
use vstd::std_specs::iter::IteratorSpec;

verus! {

broadcast use vstd::utf8::group_utf8_lib, vstd::string::axiom_spec_iter, vstd::string::next_postcondition;

/// The UTF-8 bytes of a character sequence.
pub open spec fn bytes(s: Seq<char>) -> Seq<u8> {
    encode_utf8(s)
}

/// Byte length of a character sequence.
pub open spec fn blen(s: Seq<char>) -> int {
    bytes(s).len() as int
}

/// `i` is a valid cut point in the buffer whose characters are `s`.
pub open spec fn boundary(s: Seq<char>, i: int) -> bool {
    0 <= i <= blen(s) && is_char_boundary(bytes(s), i)
}

/// The bytes of `b` with `start..end` replaced by `t`.
pub open spec fn splice(b: Seq<u8>, start: int, end: int, t: Seq<u8>) -> Seq<u8> {
    b.subrange(0, start) + t + b.subrange(end, b.len() as int)
}

/// Relies on `String::replace_range`: the bytes in `start..end` are replaced by
/// the bytes of `t`; it panics unless both ends lie on character boundaries.
#[verifier::external_body]
pub(crate) fn replace_range(s: &mut String, start: usize, end: usize, t: &str)
    requires
        start <= end,
        boundary(old(s)@, start as int),
        boundary(old(s)@, end as int),
    ensures
        bytes(final(s)@) == splice(bytes(old(s)@), start as int, end as int, bytes(t@)),
{
    s.replace_range(start..end, t)
}

/// Relies on indexing a `str` by a byte range: the slice holds the bytes in
/// `start..end`; it panics unless both ends lie on character boundaries.
#[verifier::external_body]
pub(crate) fn slice(s: &str, start: usize, end: usize) -> (r: &str)
    requires
        start <= end,
        boundary(s@, start as int),
        boundary(s@, end as int),
    ensures
        bytes(r@) == bytes(s@).subrange(start as int, end as int),
{
    &s[start..end]
}

/// Byte length of a string.
pub fn byte_len(s: &String) -> (r: usize)
    ensures
        r as int == blen(s@),
{
    let t = s.as_str();
    let b = t.as_bytes();
    b.len()
}

/// Two strings with equal bytes are equal.
pub proof fn lemma_bytes_injective(a: Seq<char>, b: Seq<char>)
    requires
        bytes(a) == bytes(b),
    ensures
        a == b,
{
    encode_utf8_decode_utf8(a);
    encode_utf8_decode_utf8(b);
}

/// Encoding distributes over concatenation.
pub proof fn lemma_bytes_concat(a: Seq<char>, b: Seq<char>)
    ensures
        bytes(a + b) == bytes(a) + bytes(b),
    decreases a.len(),
{
    if a.len() == 0 {
        assert(a + b =~= b);
        assert(bytes(a) =~= Seq::<u8>::empty());
        assert(bytes(a) + bytes(b) =~= bytes(b));
    } else {
        assert((a + b).drop_first() =~= a.drop_first() + b);
        lemma_bytes_concat(a.drop_first(), b);
        assert(bytes(a + b) =~= bytes(a) + bytes(b));
    }
}

/// Every character takes at least one byte.
pub proof fn lemma_take_grows(s: Seq<char>, i: int)
    requires
        0 <= i < s.len(),
    ensures
        blen(s.take(i + 1)) == blen(s.take(i)) + bytes(seq![s[i]]).len(),
        bytes(seq![s[i]]).len() >= 1,
{
    assert(s.take(i + 1) =~= s.take(i) + seq![s[i]]);
    lemma_bytes_concat(s.take(i), seq![s[i]]);
    assert(seq![s[i]].drop_first() =~= Seq::<char>::empty());
    reveal_with_fuel(encode_utf8, 2);
    assert(encode_utf8(Seq::<char>::empty()) =~= Seq::<u8>::empty());
}

/// Byte lengths of prefixes grow with the number of characters.
pub proof fn lemma_take_monotone(s: Seq<char>, i: int, j: int)
    requires
        0 <= i <= j <= s.len(),
    ensures
        blen(s.take(i)) <= blen(s.take(j)),
        i < j ==> blen(s.take(i)) < blen(s.take(j)),
    decreases j - i,
{
    if i < j {
        lemma_take_monotone(s, i, j - 1);
        lemma_take_grows(s, j - 1);
    }
}

/// The end of every character prefix is a boundary.
pub proof fn lemma_prefix_boundary(s: Seq<char>, k: int)
    requires
        0 <= k <= s.len(),
    ensures
        boundary(s, blen(s.take(k))),
    decreases k,
{
    let b = bytes(s);
    encode_utf8_valid_utf8(s);
    assert(s =~= s.take(k) + s.skip(k));
    lemma_bytes_concat(s.take(k), s.skip(k));
    if k == 0 {
        assert(s.take(0) =~= Seq::<char>::empty());
        assert(bytes(s.take(0)) =~= Seq::<u8>::empty());
    } else {
        let rest = s.drop_first();
        encode_utf8_first_scalar(s);
        assert(pop_first_scalar(b) =~= bytes(rest));
        assert(s.take(k).drop_first() =~= rest.take(k - 1));
        encode_utf8_first_scalar(s.take(k));
        lemma_prefix_boundary(rest, k - 1);
        assert(blen(s.take(k)) > 0);
    }
}

/// The seam of a concatenation is a boundary.
pub proof fn lemma_concat_boundary(a: Seq<char>, b: Seq<char>)
    ensures
        boundary(a + b, blen(a)),
{
    assert((a + b).take(a.len() as int) =~= a);
    lemma_prefix_boundary(a + b, a.len() as int);
}

/// A boundary of a buffer ends a character prefix.
pub proof fn lemma_boundary_prefix(s: Seq<char>, i: int)
    requires
        boundary(s, i),
    ensures
        bytes(decode_utf8(bytes(s).subrange(0, i))) == bytes(s).subrange(0, i),
        bytes(decode_utf8(bytes(s).subrange(i, blen(s)))) == bytes(s).subrange(i, blen(s)),
        s == decode_utf8(bytes(s).subrange(0, i)) + decode_utf8(bytes(s).subrange(i, blen(s))),
        decode_utf8(bytes(s).subrange(0, i)) == s.take(decode_utf8(bytes(s).subrange(0, i)).len() as int),
{
    let b = bytes(s);
    encode_utf8_valid_utf8(s);
    valid_utf8_split(b, i);
    decode_utf8_split(b, i);
    decode_utf8_encode_utf8(b.subrange(0, i));
    decode_utf8_encode_utf8(b.subrange(i, b.len() as int));
    encode_utf8_decode_utf8(s);
    let p = decode_utf8(b.subrange(0, i));
    assert(s.take(p.len() as int) =~= p);
}

/// The bytes between two boundaries encode some characters.
pub proof fn lemma_piece(s: Seq<char>, start: int, end: int)
    requires
        boundary(s, start),
        boundary(s, end),
        start <= end,
    ensures
        bytes(decode_utf8(bytes(s).subrange(start, end))) == bytes(s).subrange(start, end),
{
    let b = bytes(s);
    lemma_boundary_prefix(s, start);
    lemma_boundary_prefix(s, end);
    let p = decode_utf8(b.subrange(0, start));
    let q = decode_utf8(b.subrange(0, end));
    if p.len() > q.len() {
        lemma_take_monotone(s, q.len() as int, p.len() as int);
        assert(false);
    }
    assert(q.len() <= s.len());
    let x = s.subrange(p.len() as int, q.len() as int);
    assert(q =~= p + x);
    lemma_bytes_concat(p, x);
    assert(bytes(q) == b.subrange(0, end));
    assert(bytes(p) == b.subrange(0, start));
    assert(bytes(x) =~= bytes(q).subrange(start, end));
    assert(bytes(x) =~= b.subrange(start, end));
    encode_utf8_decode_utf8(x);
}

/// After a splice at two boundaries, both ends of the new text are boundaries.
pub proof fn lemma_splice(s: Seq<char>, start: int, end: int, t: Seq<char>, r: Seq<char>)
    requires
        boundary(s, start),
        boundary(s, end),
        start <= end,
        bytes(r) == splice(bytes(s), start, end, bytes(t)),
    ensures
        boundary(r, start),
        boundary(r, start + blen(t)),
        blen(r) == blen(s) - (end - start) + blen(t),
        r == decode_utf8(bytes(s).subrange(0, start)) + t + decode_utf8(
            bytes(s).subrange(end, blen(s)),
        ),
{
    let b = bytes(s);
    lemma_boundary_prefix(s, start);
    lemma_boundary_prefix(s, end);
    let p = decode_utf8(b.subrange(0, start));
    let q = decode_utf8(b.subrange(end, b.len() as int));
    lemma_bytes_concat(p, t);
    lemma_bytes_concat(p + t, q);
    assert(bytes(p + t + q) =~= bytes(r));
    lemma_bytes_injective(p + t + q, r);
    lemma_concat_boundary(p + t, q);
    assert(p + (t + q) =~= p + t + q);
    lemma_concat_boundary(p, t + q);
}

/// A boundary of a buffer is the byte length of one of its character prefixes.
pub proof fn lemma_boundary_is_prefix_end(s: Seq<char>, i: int)
    requires
        boundary(s, i),
    ensures
        exists|m: int| 0 <= m <= s.len() && blen(s.take(m)) == i,
{
    lemma_boundary_prefix(s, i);
    let p = decode_utf8(bytes(s).subrange(0, i));
    assert(p.len() <= s.len());
    assert(blen(s.take(p.len() as int)) == i);
}

/// Appending keeps the boundaries of the front part.
pub proof fn lemma_boundary_append(a: Seq<char>, b: Seq<char>, i: int)
    requires
        boundary(a, i),
    ensures
        boundary(a + b, i),
{
    lemma_boundary_is_prefix_end(a, i);
    let m = choose|m: int| 0 <= m <= a.len() && blen(a.take(m)) == i;
    assert((a + b).take(m) =~= a.take(m));
    lemma_prefix_boundary(a + b, m);
}

/// Both ends of a buffer are boundaries.
pub proof fn lemma_ends_are_boundaries(s: Seq<char>)
    ensures
        boundary(s, 0),
        boundary(s, blen(s)),
{
    encode_utf8_valid_utf8(s);
    is_char_boundary_start_end_of_seq(bytes(s));
}

/// The byte after an ASCII byte that starts a character is a boundary.
pub proof fn lemma_ascii_next_boundary(b: Seq<u8>, i: int)
    requires
        valid_utf8(b),
        0 <= i < b.len(),
        is_char_boundary(b, i),
        b[i] <= 0x7f,
    ensures
        is_char_boundary(b, i + 1),
    decreases b.len(),
{
    reveal_with_fuel(is_char_boundary, 2);
    let p = pop_first_scalar(b);
    let l = length_of_first_scalar(b);
    if i == 0 {
        assert(l == 1);
    } else {
        assert(p.len() < b.len()) by {
            assert(l >= 1);
        }
        assert(p[i - l] == b[i]);
        lemma_ascii_next_boundary(p, i - l);
    }
}

/// An ASCII byte of a valid buffer starts a character.
pub proof fn lemma_ascii_is_boundary(s: Seq<char>, i: int)
    requires
        0 <= i < blen(s),
        bytes(s)[i] <= 0x7f,
    ensures
        boundary(s, i),
        boundary(s, i + 1),
{
    encode_utf8_valid_utf8(s);
    is_char_boundary_iff_not_is_continuation_byte(bytes(s), i);
    lemma_ascii_next_boundary(bytes(s), i);
}

/// An ASCII character is encoded as the one byte of its code.
pub proof fn lemma_ascii_char_bytes(c: char)
    requires
        (c as u32) <= 0x7f,
    ensures
        bytes(seq![c]) == seq![(c as u32) as u8],
{
    let x = c as u32;
    assert((x & 0x7Fu32) == x) by (bit_vector)
        requires
            x <= 0x7f,
    ;
    assert(seq![c].drop_first() =~= Seq::<char>::empty());
    reveal_with_fuel(encode_utf8, 2);
    assert(encode_utf8(Seq::<char>::empty()) =~= Seq::<u8>::empty());
    assert(bytes(seq![c]) =~= seq![(c as u32) as u8]);
}

/// The empty string has no bytes.
pub proof fn lemma_empty_bytes()
    ensures
        bytes(""@) == Seq::<u8>::empty(),
        bytes(Seq::<char>::empty()) == Seq::<u8>::empty(),
{
    reveal_strlit("");
    assert(""@ =~= Seq::<char>::empty());
    assert(bytes(Seq::<char>::empty()) =~= Seq::<u8>::empty());
}

/// The bytes of `" "`.
pub proof fn lemma_space_bytes()
    ensures
        bytes(" "@) == seq![32u8],
{
    reveal_strlit(" ");
    assert(" "@ =~= seq![' ']);
    lemma_ascii_char_bytes(' ');
}

/// The bytes of `"\n"`.
pub proof fn lemma_newline_bytes()
    ensures
        bytes("\n"@) == seq![10u8],
{
    reveal_strlit("\n");
    assert("\n"@ =~= seq!['\n']);
    lemma_ascii_char_bytes('\n');
}

/// `b` holds no line feed and no carriage return.
pub open spec fn no_newlines(b: Seq<u8>) -> bool {
    forall|i: int| 0 <= i < b.len() ==> b[i] != 10u8 && b[i] != 13u8
}

/// `b` with every line feed and carriage return turned into a space.
pub open spec fn newlines_to_spaces(b: Seq<u8>) -> Seq<u8> {
    Seq::new(b.len(), |i: int| if b[i] == 10u8 || b[i] == 13u8 { 32u8 } else { b[i] })
}

/// Replace every `\n` and `\r` by a space, in place; returns whether any was found.
pub fn remove_newlines_inplace(text: &mut String) -> (changed: bool)
    ensures
        bytes(final(text)@) == newlines_to_spaces(bytes(old(text)@)),
        no_newlines(bytes(final(text)@)),
        changed == !no_newlines(bytes(old(text)@)),
{
    let ghost orig = bytes(text@);
    let n = byte_len(text);
    let mut changed = false;
    let mut i: usize = 0;
    while i < n
        invariant
            0 <= i <= n,
            n == orig.len(),
            bytes(text@) == newlines_to_spaces(orig).subrange(0, i as int) + orig.subrange(
                i as int,
                n as int,
            ),
            changed == exists|j: int| 0 <= j < i && (orig[j] == 10u8 || orig[j] == 13u8),
        decreases n - i,
    {
        let b = text.as_str().as_bytes()[i];
        proof {
            assert(bytes(text@)[i as int] == orig[i as int]);
        }
        if b == 10u8 || b == 13u8 {
            proof {
                lemma_ascii_is_boundary(text@, i as int);
            }
            replace_range(text, i, i + 1, " ");
            proof {
                lemma_space_bytes();
            }
            changed = true;
        }
        proof {
            assert(bytes(text@) =~= newlines_to_spaces(orig).subrange(0, i + 1) + orig.subrange(
                i + 1,
                n as int,
            ));
        }
        i = i + 1;
    }
    proof {
        assert(bytes(text@) =~= newlines_to_spaces(orig));
    }
    changed
}

/// `t` with every line feed and carriage return turned into a space.
pub open spec fn spaces_for_newlines(t: Seq<char>) -> Seq<char> {
    t.map_values(|c: char| if c == '\n' || c == '\r' { ' ' } else { c })
}

proof fn lemma_high_bytes(z: u8)
    ensures
        (0x80u8 | z) >= 0x80u8,
        (0xC0u8 | z) >= 0x80u8,
        (0xE0u8 | z) >= 0x80u8,
        (0xF0u8 | z) >= 0x80u8,
{
    assert((0x80u8 | z) >= 0x80u8) by (bit_vector);
    assert((0xC0u8 | z) >= 0x80u8) by (bit_vector);
    assert((0xE0u8 | z) >= 0x80u8) by (bit_vector);
    assert((0xF0u8 | z) >= 0x80u8) by (bit_vector);
}

/// Turning newline bytes into spaces is turning newline characters into spaces.
pub proof fn lemma_newlines_to_spaces_chars(t: Seq<char>)
    ensures
        newlines_to_spaces(bytes(t)) == bytes(spaces_for_newlines(t)),
    decreases t.len(),
{
    if t.len() == 0 {
        assert(bytes(t) =~= Seq::<u8>::empty());
        assert(spaces_for_newlines(t) =~= Seq::<char>::empty());
        assert(newlines_to_spaces(bytes(t)) =~= bytes(spaces_for_newlines(t)));
    } else {
        let c = t[0];
        let rest = t.drop_first();
        assert(t =~= seq![c] + rest);
        let m = if c == '\n' || c == '\r' { ' ' } else { c };
        assert(spaces_for_newlines(t) =~= seq![m] + spaces_for_newlines(rest));
        lemma_bytes_concat(seq![c], rest);
        lemma_bytes_concat(seq![m], spaces_for_newlines(rest));
        lemma_newlines_to_spaces_chars(rest);
        let x = c as u32;
        assert(seq![c].drop_first() =~= Seq::<char>::empty());
        assert(seq![m].drop_first() =~= Seq::<char>::empty());
        reveal_with_fuel(encode_utf8, 2);
        assert(encode_utf8(Seq::<char>::empty()) =~= Seq::<u8>::empty());
        if x <= 0x7f {
            lemma_ascii_char_bytes(c);
            lemma_ascii_char_bytes(m);
            vstd::utf8::char_u32_cast(c, x);
            if x == 10 {
                assert(c == ((10u32) as char));
            }
            if x == 13 {
                assert(c == ((13u32) as char));
            }
            assert(('\n' as u32) == 10 && ('\r' as u32) == 13 && (' ' as u32) == 32);
            assert(newlines_to_spaces(bytes(seq![c])) =~= bytes(seq![m]));
        } else {
            vstd::utf8::char_is_scalar(c);
            assert(bytes(seq![c]) =~= encode_scalar(x));
            lemma_high_bytes(((x >> 6) & 0x1F) as u8);
            lemma_high_bytes(((x >> 12) & 0x0F) as u8);
            lemma_high_bytes(((x >> 18) & 0x7) as u8);
            lemma_high_bytes((x & 0x3F) as u8);
            lemma_high_bytes(((x >> 6) & 0x3F) as u8);
            lemma_high_bytes(((x >> 12) & 0x3F) as u8);
            assert(newlines_to_spaces(bytes(seq![c])) =~= bytes(seq![m]));
        }
        let bc = bytes(seq![c]);
        let br = bytes(rest);
        assert(newlines_to_spaces(bc + br) =~= newlines_to_spaces(bc) + newlines_to_spaces(br));
    }
}

/// What `char::is_whitespace` accepts: the Unicode `White_Space` property.
pub open spec fn is_white_space(c: char) -> bool {
    ||| '\u{9}' <= c <= '\u{d}'
    ||| c == ' '
    ||| c == '\u{85}'
    ||| c == '\u{a0}'
    ||| c == '\u{1680}'
    ||| '\u{2000}' <= c <= '\u{200a}'
    ||| c == '\u{2028}'
    ||| c == '\u{2029}'
    ||| c == '\u{202f}'
    ||| c == '\u{205f}'
    ||| c == '\u{3000}'
}

/// What `char::is_ascii_punctuation` accepts.
pub open spec fn is_ascii_punct(c: char) -> bool {
    ||| '!' <= c <= '/'
    ||| ':' <= c <= '@'
    ||| '[' <= c <= '`'
    ||| '{' <= c <= '~'
}

/// Whether `c` has the `White_Space` property, as `char::is_whitespace`
/// documents it.
fn char_is_whitespace(c: char) -> (r: bool)
    ensures
        r == is_white_space(c),
{
    ('\u{9}' <= c && c <= '\u{d}') || c == ' ' || c == '\u{85}' || c == '\u{a0}' || c == '\u{1680}'
        || ('\u{2000}' <= c && c <= '\u{200a}') || c == '\u{2028}' || c == '\u{2029}' || c
        == '\u{202f}' || c == '\u{205f}' || c == '\u{3000}'
}

/// Whether `c` is ASCII punctuation, as `char::is_ascii_punctuation`
/// documents it.
fn char_is_ascii_punctuation(c: char) -> (r: bool)
    ensures
        r == is_ascii_punct(c),
{
    ('!' <= c && c <= '/') || (':' <= c && c <= '@') || ('[' <= c && c <= '`') || ('{' <= c && c <= '~')
}

/// The coalescing class: every character is whitespace or ASCII punctuation.
pub open spec fn all_blank(s: Seq<char>) -> bool {
    forall|i: int| 0 <= i < s.len() ==> is_white_space(#[trigger] s[i]) || is_ascii_punct(s[i])
}

/// Whether every character of `s` is whitespace or ASCII punctuation.
pub fn is_all_blank(s: &str) -> (r: bool)
    ensures
        r == all_blank(s@),
{
    let mut it = s.chars();
    let ghost mut k: int = 0;
    loop
        invariant
            0 <= k <= s@.len(),
            it.remaining() == s@.subrange(k, s@.len() as int),
            it.obeys_prophetic_iter_laws(),
            forall|i: int| 0 <= i < k ==> is_white_space(#[trigger] s@[i]) || is_ascii_punct(s@[i]),
        decreases s@.len() - k,
    {
        match it.next() {
            None => {
                return true;
            },
            Some(c) => {
                if !(char_is_whitespace(c) || char_is_ascii_punctuation(c)) {
                    return false;
                }
                proof {
                    k = k + 1;
                }
            },
        }
    }
}

/// The last character of `s`, if any.
pub fn last_char(s: &str) -> (r: Option<char>)
    ensures
        r == (if s@.len() == 0 { None } else { Some(s@.last()) }),
{
    let mut it = s.chars();
    let ghost mut k: int = 0;
    let mut last: Option<char> = None;
    loop
        invariant
            0 <= k <= s@.len(),
            it.remaining() == s@.subrange(k, s@.len() as int),
            it.obeys_prophetic_iter_laws(),
            last == (if k == 0 { None } else { Some(s@[k - 1]) }),
        decreases s@.len() - k,
    {
        match it.next() {
            None => {
                return last;
            },
            Some(c) => {
                last = Some(c);
                proof {
                    k = k + 1;
                }
            },
        }
    }
}

/// Whether `c` is whitespace.
pub fn is_whitespace(c: char) -> (r: bool)
    ensures
        r == is_white_space(c),
{
    char_is_whitespace(c)
}

} // verus!
