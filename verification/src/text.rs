//! Text and numerals: decimal notation, the widths and offsets of characters in UTF-8, and
//! slices of a text by the offsets of its bytes.

use vstd::prelude::*;
use vstd::string::StringExecFns;
use vstd::string::StringSliceAdditionalSpecFns;
use vstd::utf8::*;

verus! {

/// The character that writes the decimal digit `d`.
pub open spec fn digit_char(d: nat) -> char {
    if d == 0 {
        '0'
    } else if d == 1 {
        '1'
    } else if d == 2 {
        '2'
    } else if d == 3 {
        '3'
    } else if d == 4 {
        '4'
    } else if d == 5 {
        '5'
    } else if d == 6 {
        '6'
    } else if d == 7 {
        '7'
    } else if d == 8 {
        '8'
    } else {
        '9'
    }
}

/// The decimal numeral of `n`, without leading zeros.
pub open spec fn decimal(n: nat) -> Seq<char>
    decreases n,
{
    if n < 10 {
        seq![digit_char(n)]
    } else {
        decimal(n / 10).push(digit_char(n % 10))
    }
}

fn digit_str(d: usize) -> (s: &'static str)
    requires
        d < 10,
    ensures
        s@ == seq![digit_char(d as nat)],
{
    proof {
        reveal_strlit("0");
        reveal_strlit("1");
        reveal_strlit("2");
        reveal_strlit("3");
        reveal_strlit("4");
        reveal_strlit("5");
        reveal_strlit("6");
        reveal_strlit("7");
        reveal_strlit("8");
        reveal_strlit("9");
    }
    let s = if d == 0 {
        "0"
    } else if d == 1 {
        "1"
    } else if d == 2 {
        "2"
    } else if d == 3 {
        "3"
    } else if d == 4 {
        "4"
    } else if d == 5 {
        "5"
    } else if d == 6 {
        "6"
    } else if d == 7 {
        "7"
    } else if d == 8 {
        "8"
    } else {
        "9"
    };
    assert(s@ =~= seq![digit_char(d as nat)]);
    s
}

/// Appends the decimal numeral of `n` to `out`.
pub fn push_decimal(out: &mut String, n: usize)
    ensures
        final(out)@ == old(out)@ + decimal(n as nat),
    decreases n,
{
    if n >= 10 {
        push_decimal(out, n / 10);
    }
    out.append(digit_str(n % 10));
    assert(final(out)@ =~= old(out)@ + decimal(n as nat));
}

/// The number of bytes that the UTF-8 encoding of `c` takes.
pub open spec fn char_width(c: char) -> nat {
    encode_scalar(c as u32).len()
}

/// The number of bytes that the UTF-8 encoding of `cs` takes.
pub open spec fn byte_len(cs: Seq<char>) -> nat {
    encode_utf8(cs).len()
}

/// The byte offset at which the character of index `i` begins in the encoding of `src`.
pub open spec fn byte_offset(src: Seq<char>, i: int) -> nat {
    byte_len(src.take(i))
}

/// Encoding distributes over concatenation.
pub proof fn lemma_encode_concat(a: Seq<char>, b: Seq<char>)
    ensures
        encode_utf8(a + b) == encode_utf8(a) + encode_utf8(b),
    decreases a.len(),
{
    if a.len() == 0 {
        assert(a + b =~= b);
        assert(encode_utf8(a) + encode_utf8(b) =~= encode_utf8(b));
    } else {
        assert((a + b).drop_first() =~= a.drop_first() + b);
        lemma_encode_concat(a.drop_first(), b);
        assert(encode_utf8(a + b) =~= encode_utf8(a) + encode_utf8(b));
    }
}

/// Every character takes between one and four bytes.
pub proof fn lemma_char_width_bounds(c: char)
    ensures
        1 <= char_width(c) <= 4,
{
    char_is_scalar(c);
}

/// The end of an encoded prefix is a character boundary of the whole encoding.
pub proof fn lemma_prefix_is_boundary(a: Seq<char>, b: Seq<char>)
    ensures
        is_char_boundary(encode_utf8(a + b), encode_utf8(a).len() as int),
    decreases a.len(),
{
    let bytes = encode_utf8(a + b);
    encode_utf8_valid_utf8(a + b);
    if a.len() == 0 {
    } else {
        lemma_encode_concat(a, b);
        lemma_char_width_bounds(a[0]);
        encode_utf8_first_scalar(a + b);
        assert((a + b).drop_first() =~= a.drop_first() + b);
        assert(pop_first_scalar(bytes) =~= encode_utf8(a.drop_first() + b));
        lemma_prefix_is_boundary(a.drop_first(), b);
    }
}

/// Byte offsets grow with the character index, one character's width at a time,
/// and never pass the end of the encoding.
pub proof fn lemma_byte_offset_step(src: Seq<char>, i: int)
    requires
        0 <= i < src.len(),
    ensures
        byte_offset(src, i + 1) == byte_offset(src, i) + char_width(src[i]),
        byte_offset(src, i + 1) <= byte_len(src),
        1 <= char_width(src[i]) <= 4,
{
    lemma_char_width_bounds(src[i]);
    assert(src.take(i + 1) =~= src.take(i) + seq![src[i]]);
    lemma_encode_concat(src.take(i), seq![src[i]]);
    assert(seq![src[i]].drop_first() =~= Seq::<char>::empty());
    assert(encode_utf8(seq![src[i]]) =~= encode_scalar(src[i] as u32)) by {
        reveal_with_fuel(encode_utf8, 2);
    }
    assert(src =~= src.take(i + 1) + src.skip(i + 1));
    lemma_encode_concat(src.take(i + 1), src.skip(i + 1));
}

/// Byte offsets are monotone in the character index.
pub proof fn lemma_byte_offset_monotone(src: Seq<char>, i: int, j: int)
    requires
        0 <= i <= j <= src.len(),
    ensures
        byte_offset(src, i) <= byte_offset(src, j) <= byte_len(src),
        i < j ==> byte_offset(src, i) < byte_offset(src, j),
        byte_offset(src, j) - byte_offset(src, i) == byte_len(src.subrange(i, j)),
        byte_offset(src, 0) == 0,
        byte_offset(src, src.len() as int) == byte_len(src),
{
    assert(src.take(j) =~= src.take(i) + src.subrange(i, j));
    lemma_encode_concat(src.take(i), src.subrange(i, j));
    assert(src =~= src.take(j) + src.skip(j));
    lemma_encode_concat(src.take(j), src.skip(j));
    assert(src.take(0) =~= Seq::<char>::empty());
    assert(src.take(src.len() as int) =~= src);
    if i < j {
        let sub = src.subrange(i, j);
        lemma_char_width_bounds(sub[0]);
    }
}

/// The number of bytes that `c` takes in UTF-8.
pub fn utf8_width(c: char) -> (n: usize)
    ensures
        n == char_width(c),
        1 <= n <= 4,
{
    proof {
        char_is_scalar(c);
    }
    let v: u32 = c as u32;
    if v <= 0x7F {
        1
    } else if v <= 0x7FF {
        2
    } else if v <= 0xFFFF {
        3
    } else {
        4
    }
}

/// The slice of `s` that holds its characters `i..j`, found by their byte offsets.
pub(crate) fn slice<'a>(s: &'a str, from: usize, to: usize, Ghost(i): Ghost<int>, Ghost(j): Ghost<int>) -> (r:
    &'a str)
    requires
        0 <= i <= j <= s@.len(),
        from == byte_offset(s@, i),
        to == byte_offset(s@, j),
    ensures
        r@ == s@.subrange(i, j),
{
    proof {
        assert(s@ =~= s@.take(j) + s@.skip(j));
        lemma_prefix_is_boundary(s@.take(j), s@.skip(j));
        lemma_encode_concat(s@.take(j), s@.skip(j));
    }
    let (head, _) = s.split_at(to);
    proof {
        assert(head.spec_bytes() =~= encode_utf8(s@.take(j)));
        encode_utf8_decode_utf8(head@);
        encode_utf8_decode_utf8(s@.take(j));
        assert(head@ == s@.take(j));
        assert(head@ =~= head@.take(i) + head@.skip(i));
        assert(head@.take(i) =~= s@.take(i));
        lemma_prefix_is_boundary(head@.take(i), head@.skip(i));
        lemma_encode_concat(head@.take(i), head@.skip(i));
    }
    let (_, r) = head.split_at(from);
    proof {
        assert(r.spec_bytes() =~= encode_utf8(head@.skip(i)));
        encode_utf8_decode_utf8(r@);
        encode_utf8_decode_utf8(head@.skip(i));
        assert(head@.skip(i) =~= s@.subrange(i, j));
    }
    r
}

/// The characters of `source`, decoded into a vector.
pub fn chars_of(source: &str) -> (chars: Vec<char>)
    ensures
        chars@ == source@,
{
    broadcast use vstd::string::group_string_axioms;

    let mut chars: Vec<char> = Vec::new();
    for c in it: source.chars()
        invariant
            chars@ == it.seq().take(it.index()),
            it.seq() == source@,
    {
        chars.push(c);
        assert(it.seq().take(it.index() + 1) =~= it.seq().take(it.index()).push(c));
    }
    assert(chars@ =~= source@);
    chars
}

/// The length of `s` in bytes.
pub fn byte_length(s: &str) -> (n: usize)
    ensures
        n == byte_len(s@),
{
    s.as_bytes().len()
}

/// Whether two string slices hold the same characters.
pub fn str_eq(a: &str, b: &str) -> (same: bool)
    ensures
        same == (a@ == b@),
{
    let x = a.as_bytes();
    let y = b.as_bytes();
    proof {
        encode_utf8_decode_utf8(a@);
        encode_utf8_decode_utf8(b@);
    }
    if x.len() != y.len() {
        return false;
    }
    let mut i: usize = 0;
    while i < x.len()
        invariant
            x.len() == y.len(),
            x@ == encode_utf8(a@),
            y@ == encode_utf8(b@),
            i <= x.len(),
            forall|k: int| 0 <= k < i ==> x@[k] == y@[k],
        decreases x.len() - i,
    {
        if x[i] != y[i] {
            return false;
        }
        i = i + 1;
    }
    assert(x@ =~= y@);
    true
}

} // verus!
