use vstd::prelude::*;
use vstd::utf8::*;

verus! {

/// Whether `c` has the Unicode `White_Space` property, which `char::is_whitespace`
/// reports: the tab, line feed, vertical tab, form feed and carriage return controls, the
/// space, the next-line control, the no-break space, the Ogham space mark, the spaces from
/// the en quad to the hair space, the line and paragraph separators, the narrow no-break
/// space, the medium mathematical space and the ideographic space.
pub open spec fn unicode_white_space(c: char) -> bool {
    let v = c as u32;
    (0x9 <= v <= 0xD) || v == 0x20 || v == 0x85 || v == 0xA0 || v == 0x1680 || (0x2000 <= v <= 0x200A) || v
        == 0x2028 || v == 0x2029 || v == 0x202F || v == 0x205F || v == 0x3000
}

/// Whether `c` is white space, as `char::is_whitespace` tells.
pub fn char_is_whitespace(c: char) -> (r: bool)
    ensures
        r == unicode_white_space(c),
{
    let v = c as u32;
    (0x9 <= v && v <= 0xD) || v == 0x20 || v == 0x85 || v == 0xA0 || v == 0x1680 || (0x2000 <= v && v <= 0x200A)
        || v == 0x2028 || v == 0x2029 || v == 0x202F || v == 0x205F || v == 0x3000
}

/// `s` without its leading white space.
pub open spec fn trim_start_spec(s: Seq<char>) -> Seq<char>
    decreases s.len(),
{
    if s.len() > 0 && unicode_white_space(s[0]) {
        trim_start_spec(s.drop_first())
    } else {
        s
    }
}

/// `s` without its trailing white space.
pub open spec fn trim_end_spec(s: Seq<char>) -> Seq<char>
    decreases s.len(),
{
    if s.len() > 0 && unicode_white_space(s.last()) {
        trim_end_spec(s.drop_last())
    } else {
        s
    }
}

/// `s` without leading and trailing white space, as `str::trim` computes it.
pub open spec fn trim_spec(s: Seq<char>) -> Seq<char> {
    trim_end_spec(trim_start_spec(s))
}

/// Whether `s` has no white space at either end.
pub open spec fn is_trimmed(s: Seq<char>) -> bool {
    s.len() == 0 || (!unicode_white_space(s[0]) && !unicode_white_space(s.last()))
}

proof fn lemma_trim_start_front(s: Seq<char>)
    ensures
        trim_start_spec(s).len() == 0 || !unicode_white_space(trim_start_spec(s)[0]),
    decreases s.len(),
{
    if s.len() > 0 && unicode_white_space(s[0]) {
        lemma_trim_start_front(s.drop_first());
    }
}

proof fn lemma_trim_end_keeps_front(t: Seq<char>)
    requires
        t.len() == 0 || !unicode_white_space(t[0]),
    ensures
        is_trimmed(trim_end_spec(t)),
    decreases t.len(),
{
    if t.len() > 0 && unicode_white_space(t.last()) {
        assert(t.len() > 1);
        assert(t.drop_last()[0] == t[0]);
        lemma_trim_end_keeps_front(t.drop_last());
    }
}

/// Trimming gives a text with no white space at either end, and trimming such a text
/// leaves it as it is: trimming twice is trimming once.
pub proof fn lemma_trim_idempotent(s: Seq<char>)
    ensures
        is_trimmed(trim_spec(s)),
        trim_spec(trim_spec(s)) == trim_spec(s),
{
    lemma_trim_start_front(s);
    lemma_trim_end_keeps_front(trim_start_spec(s));
    let t = trim_spec(s);
    assert(trim_start_spec(t) == t);
    assert(trim_end_spec(t) == t);
}

/// The text of `s` with leading and trailing white space removed.
pub fn trim(s: &str) -> (r: String)
    ensures
        r@ == trim_spec(s@),
{
    let n = s.unicode_len();
    let mut start: usize = 0;
    assert(s@.subrange(0, n as int) =~= s@);
    while start < n && char_is_whitespace(s.get_char(start))
        invariant
            n == s@.len(),
            start <= n,
            trim_start_spec(s@) == trim_start_spec(s@.subrange(start as int, n as int)),
        decreases n - start,
    {
        assert(s@.subrange(start as int, n as int).drop_first() =~= s@.subrange(start + 1, n as int));
        start = start + 1;
    }
    assert(trim_start_spec(s@) == s@.subrange(start as int, n as int));
    let mut end: usize = n;
    while end > start && char_is_whitespace(s.get_char(end - 1))
        invariant
            n == s@.len(),
            start <= end <= n,
            trim_spec(s@) == trim_end_spec(s@.subrange(start as int, end as int)),
        decreases end - start,
    {
        assert(s@.subrange(start as int, end as int).drop_last() =~= s@.subrange(start as int, end - 1));
        end = end - 1;
    }
    let piece = s.substring_char(start, end);
    String::from_str(piece)
}

/// The decimal digit character for `d < 10`.
pub open spec fn digit_char(d: nat) -> char {
    if d == 0 { '0' } else if d == 1 { '1' } else if d == 2 { '2' } else if d == 3 { '3' }
    else if d == 4 { '4' } else if d == 5 { '5' } else if d == 6 { '6' } else if d == 7 { '7' }
    else if d == 8 { '8' } else { '9' }
}

/// The decimal representation of `n`, as `n.to_string()` gives it.
pub open spec fn decimal(n: nat) -> Seq<char>
    decreases n,
{
    if n < 10 {
        seq![digit_char(n)]
    } else {
        decimal(n / 10).push(digit_char(n % 10))
    }
}

fn digit_str(d: u64) -> (r: &'static str)
    requires
        d < 10,
    ensures
        r@ == seq![digit_char(d as nat)],
{
    if d == 0 { proof { reveal_strlit("0"); } "0" }
    else if d == 1 { proof { reveal_strlit("1"); } "1" }
    else if d == 2 { proof { reveal_strlit("2"); } "2" }
    else if d == 3 { proof { reveal_strlit("3"); } "3" }
    else if d == 4 { proof { reveal_strlit("4"); } "4" }
    else if d == 5 { proof { reveal_strlit("5"); } "5" }
    else if d == 6 { proof { reveal_strlit("6"); } "6" }
    else if d == 7 { proof { reveal_strlit("7"); } "7" }
    else if d == 8 { proof { reveal_strlit("8"); } "8" }
    else { proof { reveal_strlit("9"); } "9" }
}

/// The decimal representation of `n`.
pub fn decimal_string(n: u64) -> (r: String)
    ensures
        r@ == decimal(n as nat),
    decreases n,
{
    if n < 10 {
        String::from_str(digit_str(n))
    } else {
        let mut s = decimal_string(n / 10);
        s.append(digit_str(n % 10));
        s
    }
}

/// The largest byte index at or below `e` that is a character boundary of `bytes`.
pub open spec fn boundary_at_or_below(bytes: Seq<u8>, e: int) -> int
    decreases e,
{
    if e <= 0 || is_char_boundary(bytes, e) {
        if e <= 0 { 0 } else { e }
    } else {
        boundary_at_or_below(bytes, e - 1)
    }
}

/// Whether `value` exceeds `maximum_bytes`; and its longest prefix of at most that many
/// bytes that ends on a character boundary.
pub open spec fn bounded_prefix_bytes(value: Seq<char>, maximum_bytes: nat) -> Seq<u8> {
    let bytes = encode_utf8(value);
    if bytes.len() <= maximum_bytes {
        bytes
    } else {
        bytes.subrange(0, boundary_at_or_below(bytes, maximum_bytes as int))
    }
}

/// The characters of `value` that fit in `maximum_bytes` bytes of UTF-8, cut on a character
/// boundary.
pub open spec fn bounded_text(value: Seq<char>, maximum_bytes: nat) -> Seq<char> {
    decode_utf8(bounded_prefix_bytes(value, maximum_bytes))
}

/// A copy of `value` cut to at most `maximum_bytes` bytes on a character boundary, and
/// whether anything was cut.
pub fn bounded_name(value: &str, maximum_bytes: usize) -> (r: (String, bool))
    ensures
        r.1 == (encode_utf8(value@).len() > maximum_bytes),
        !r.1 ==> r.0@ == value@,
        encode_utf8(r.0@) == bounded_prefix_bytes(value@, maximum_bytes as nat),
        r.0@ == bounded_text(value@, maximum_bytes as nat),
{
    proof {
        broadcast use encode_utf8_decode_utf8;
    }
    let byte_len = value.as_bytes().len();
    if byte_len <= maximum_bytes {
        let owned = String::from_str(value);
        return (owned, false);
    }
    let mut end: usize = maximum_bytes;
    while end > 0 && !value.is_char_boundary(end)
        invariant
            end <= maximum_bytes,
            maximum_bytes < encode_utf8(value@).len(),
            boundary_at_or_below(encode_utf8(value@), maximum_bytes as int)
                == boundary_at_or_below(encode_utf8(value@), end as int),
        decreases end,
    {
        end = end - 1;
    }
    proof {
        broadcast use is_char_boundary_start_end_of_seq;
        broadcast use encode_utf8_valid_utf8;
    }
    let (head, _tail) = value.split_at(end);
    let owned = String::from_str(head);
    (owned, true)
}

} // verus!
