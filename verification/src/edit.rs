//! Editing a line of text at a cursor that counts UTF-8 bytes.
use vstd::prelude::*;
use vstd::utf8::*;

verus! {

/// `String::push` appends one character. It panics where the capacity would
/// grow past `isize::MAX` bytes; the precondition leaves that out, with room for
/// a capacity that grows by doubling.
pub assume_specification[ String::push ](s: &mut String, ch: char)
    requires
        encode_utf8(old(s)@).len() + encode_scalar(ch as u32).len() <= isize::MAX / 2,
    ensures
        final(s)@ == old(s)@.push(ch),
;

/// The number of bytes that `s` takes in UTF-8.
pub open spec fn byte_len(s: Seq<char>) -> nat {
    encode_utf8(s).len()
}

/// The number of bytes that `c` takes in UTF-8.
pub open spec fn width(c: char) -> nat {
    encode_scalar(c as u32).len()
}

/// The byte offset `at` lies between two characters of `s`, or at one of its
/// ends.
pub open spec fn boundary(s: Seq<char>, at: int) -> bool {
    is_char_boundary(encode_utf8(s), at)
}

/// The characters of `s` that precede the byte offset `at`.
pub open spec fn before(s: Seq<char>, at: int) -> Seq<char> {
    decode_utf8(encode_utf8(s).subrange(0, at))
}

/// The characters of `s` from the byte offset `at` on.
pub open spec fn after(s: Seq<char>, at: int) -> Seq<char> {
    decode_utf8(encode_utf8(s).subrange(at, byte_len(s) as int))
}

/// `s` with `c` put in at the byte offset `at`.
pub open spec fn inserted(s: Seq<char>, at: int, c: char) -> Seq<char> {
    before(s, at).push(c) + after(s, at)
}

/// `s` without the character at the byte offset `at`.
pub open spec fn removed(s: Seq<char>, at: int) -> Seq<char> {
    before(s, at) + after(s, at).drop_first()
}

/// The encoding of a concatenation is the concatenation of the encodings.
pub proof fn lemma_encode_concat(a: Seq<char>, b: Seq<char>)
    ensures
        encode_utf8(a + b) == encode_utf8(a) + encode_utf8(b),
        byte_len(a + b) == byte_len(a) + byte_len(b),
    decreases a.len(),
{
    if a.len() == 0 {
        assert(a + b =~= b);
        assert(encode_utf8(a) + encode_utf8(b) =~= encode_utf8(b));
    } else {
        assert((a + b).drop_first() =~= a.drop_first() + b);
        lemma_encode_concat(a.drop_first(), b);
        assert(encode_utf8(a + b) =~= encode_utf8(a) + encode_utf8(b));
    }
}

/// One more character makes the text longer by its width.
pub proof fn lemma_push_width(s: Seq<char>, c: char)
    ensures
        byte_len(s.push(c)) == byte_len(s) + width(c),
{
    assert(s.push(c) =~= s + seq![c]);
    lemma_encode_concat(s, seq![c]);
    assert(seq![c].drop_first() =~= Seq::empty());
    reveal_with_fuel(encode_utf8, 2);
}

/// A boundary splits the text in two, at the byte it names.
pub proof fn lemma_split(s: Seq<char>, at: int)
    requires
        boundary(s, at),
    ensures
        0 <= at <= byte_len(s),
        before(s, at) + after(s, at) == s,
        byte_len(before(s, at)) == at,
        byte_len(after(s, at)) == byte_len(s) - at,
        at < byte_len(s) ==> after(s, at).len() > 0,
{
    let bytes = encode_utf8(s);
    encode_utf8_valid_utf8(s);
    lemma_boundary_in_range(bytes, at);
    valid_utf8_split(bytes, at);
    decode_utf8_split(bytes, at);
    encode_utf8_decode_utf8(s);
    decode_utf8_encode_utf8(bytes.subrange(0, at));
    decode_utf8_encode_utf8(bytes.subrange(at, bytes.len() as int));
    if after(s, at).len() == 0 {
        assert(encode_utf8(after(s, at)).len() == 0);
    }
}

/// A boundary lies within the bytes.
proof fn lemma_boundary_in_range(bytes: Seq<u8>, at: int)
    requires
        valid_utf8(bytes),
        is_char_boundary(bytes, at),
    ensures
        0 <= at <= bytes.len(),
{
}

/// The end of the first part of a concatenation is a boundary, and splitting
/// there gives the two parts back.
pub proof fn lemma_split_concat(a: Seq<char>, b: Seq<char>)
    ensures
        boundary(a + b, byte_len(a) as int),
        before(a + b, byte_len(a) as int) == a,
        after(a + b, byte_len(a) as int) == b,
{
    lemma_encode_concat(a, b);
    lemma_concat_boundary(a, b);
    let bytes = encode_utf8(a + b);
    assert(bytes.subrange(0, byte_len(a) as int) =~= encode_utf8(a));
    assert(bytes.subrange(byte_len(a) as int, bytes.len() as int) =~= encode_utf8(b));
    encode_utf8_decode_utf8(a);
    encode_utf8_decode_utf8(b);
}

proof fn lemma_concat_boundary(a: Seq<char>, b: Seq<char>)
    ensures
        boundary(a + b, byte_len(a) as int),
    decreases a.len(),
{
    let whole = a + b;
    encode_utf8_valid_utf8(whole);
    if a.len() > 0 {
        let rest = a.drop_first();
        assert(whole.drop_first() =~= rest + b);
        lemma_concat_boundary(rest, b);
        lemma_encode_concat(a, b);
        lemma_encode_concat(rest, b);
        encode_utf8_first_scalar(whole);
        assert(pop_first_scalar(encode_utf8(whole)) =~= encode_utf8(rest + b));
        assert(byte_len(a) == width(a[0]) + byte_len(rest));
    }
}

/// In ASCII text every offset is a boundary, and offsets count characters.
pub proof fn lemma_ascii_split(s: Seq<char>, at: int)
    requires
        is_ascii_chars(s),
        0 <= at <= s.len(),
    ensures
        byte_len(s) == s.len(),
        boundary(s, at),
        before(s, at) == s.take(at),
        after(s, at) == s.skip(at),
{
    let a = s.take(at);
    let b = s.skip(at);
    assert(is_ascii_chars(a));
    assert(is_ascii_chars(b));
    is_ascii_chars_encode_utf8(s);
    is_ascii_chars_encode_utf8(a);
    assert(a + b =~= s);
    lemma_split_concat(a, b);
}

/// The number of bytes of `s`.
pub fn byte_length(s: &str) -> (n: usize)
    ensures
        n == byte_len(s@),
{
    s.as_bytes().len()
}

/// The number of bytes of `c`.
pub fn char_width(c: char) -> (n: usize)
    ensures
        n == width(c),
        1 <= n <= 4,
{
    let u = c as u32;
    if u < 0x80 {
        1
    } else if u < 0x800 {
        2
    } else if u < 0x10000 {
        3
    } else {
        4
    }
}

/// Whether `at` is a boundary of `s`.
pub fn at_boundary(s: &str, at: usize) -> (r: bool)
    ensures
        r == boundary(s@, at as int),
{
    s.is_char_boundary(at)
}

/// Puts `c` into `s` at the byte offset `at`.
pub fn insert_at(s: &String, at: usize, c: char) -> (r: String)
    requires
        boundary(s@, at as int),
        byte_len(s@) + width(c) <= isize::MAX / 2,
    ensures
        r@ == inserted(s@, at as int, c),
{
    let (head, tail) = s.as_str().split_at(at);
    proof {
        lemma_split(s@, at as int);
        encode_utf8_decode_utf8(head@);
        encode_utf8_decode_utf8(tail@);
    }
    let mut r = head.to_owned();
    r.push(c);
    r.append(tail);
    r
}

/// Takes the character at the byte offset `at` out of `s`.
pub fn remove_at(s: &String, at: usize) -> (r: String)
    requires
        boundary(s@, at as int),
        at < byte_len(s@),
    ensures
        r@ == removed(s@, at as int),
{
    let (head, tail) = s.as_str().split_at(at);
    proof {
        lemma_split(s@, at as int);
        encode_utf8_decode_utf8(head@);
        encode_utf8_decode_utf8(tail@);
    }
    let mut r = head.to_owned();
    let rest = tail.substring_char(1, tail.unicode_len());
    assert(rest@ =~= tail@.drop_first());
    r.append(rest);
    r
}

} // verus!
