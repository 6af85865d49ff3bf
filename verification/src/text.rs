//! Characters and character sequences: the raw material of a source text.
//!
//! A text is modelled as the sequence of its characters. The executable
//! functions work on a `Vec<char>`, so that a position is an index and
//! never falls inside a character.

use vstd::prelude::*;

verus! {

/// `String::push` of the standard library: appends one character at the end
/// of the string and leaves the characters before it as they were.
pub assume_specification[ String::push ](s: &mut String, c: char)
    ensures
        final(s)@ == old(s)@.push(c),
;

/// Whether `c` is one of the ten decimal digits.
pub open spec fn is_digit(c: char) -> bool {
    '0' <= c <= '9'
}

/// Whether `c` is white space: the characters with Unicode's `White_Space`
/// property.
pub open spec fn is_whitespace(c: char) -> bool {
    let u = c as u32;
    ||| 0x09 <= u <= 0x0D
    ||| u == 0x20
    ||| u == 0x85
    ||| u == 0xA0
    ||| u == 0x1680
    ||| 0x2000 <= u <= 0x200A
    ||| u == 0x2028
    ||| u == 0x2029
    ||| u == 0x202F
    ||| u == 0x205F
    ||| u == 0x3000
}

/// The capital of a small letter from `a` to `z`, and every other
/// character itself.
pub open spec fn capital(c: char) -> char {
    if 'a' <= c <= 'z' {
        ((c as u32) - 32) as char
    } else {
        c
    }
}

/// `s` with a capital for every small letter.
pub open spec fn capitals(s: Seq<char>) -> Seq<char> {
    Seq::new(s.len(), |i: int| capital(s[i]))
}

/// How many characters at the start of `s` satisfy `p`, up to the first
/// that does not.
pub open spec fn prefix_len(s: Seq<char>, p: spec_fn(char) -> bool) -> nat
    decreases s.len(),
{
    if s.len() > 0 && p(s[0]) {
        1 + prefix_len(s.drop_first(), p)
    } else {
        0
    }
}

/// `s` without the white space at its start.
pub open spec fn trim_start(s: Seq<char>) -> Seq<char> {
    s.skip(prefix_len(s, |c: char| is_whitespace(c)) as int)
}

/// Whether `s` begins with `prefix`.
pub open spec fn starts_with(s: Seq<char>, prefix: Seq<char>) -> bool {
    prefix.len() <= s.len() && s.subrange(0, prefix.len() as int) =~= prefix
}

/// Whether `s` begins a comment.
pub open spec fn starts_comment(s: Seq<char>) -> bool {
    s.len() >= 2 && s[0] == '/' && s[1] == '/'
}

/// Whether nothing but white space and, at most, a comment is left in `s`.
pub open spec fn is_comment_or_empty(s: Seq<char>) -> bool {
    trim_start(s).len() == 0 || starts_comment(trim_start(s))
}

/// `prefix_len(s, p)` is the one `n` such that the first `n` characters
/// satisfy `p` and the next one, if there is one, does not.
pub proof fn lemma_prefix_len(s: Seq<char>, p: spec_fn(char) -> bool, n: int)
    requires
        0 <= n <= s.len(),
        forall|i: int| 0 <= i < n ==> p(#[trigger] s[i]),
        n < s.len() ==> !p(s[n]),
    ensures
        prefix_len(s, p) == n,
    decreases n,
{
    if n > 0 {
        let rest = s.drop_first();
        assert forall|i: int| 0 <= i < n - 1 implies p(#[trigger] rest[i]) by {
            assert(rest[i] == s[i + 1]);
        }
        lemma_prefix_len(rest, p, n - 1);
    }
}

/// The first `prefix_len(s, p)` characters satisfy `p`, and the one after
/// them does not.
pub proof fn lemma_prefix_len_properties(s: Seq<char>, p: spec_fn(char) -> bool)
    ensures
        prefix_len(s, p) <= s.len(),
        forall|i: int| 0 <= i < prefix_len(s, p) ==> p(#[trigger] s[i]),
        prefix_len(s, p) < s.len() ==> !p(s[prefix_len(s, p) as int]),
    decreases s.len(),
{
    if s.len() > 0 && p(s[0]) {
        let rest = s.drop_first();
        lemma_prefix_len_properties(rest, p);
        assert forall|i: int| 0 <= i < prefix_len(s, p) implies p(#[trigger] s[i]) by {
            if i > 0 {
                assert(s[i] == rest[i - 1]);
            }
        }
        if prefix_len(s, p) < s.len() {
            assert(s[prefix_len(s, p) as int] == rest[prefix_len(rest, p) as int]);
        }
    }
}

/// To begin with `a` followed by `b` is to begin with `a` and go on with `b`.
pub proof fn lemma_starts_with_concat(s: Seq<char>, a: Seq<char>, b: Seq<char>)
    ensures
        starts_with(s, a + b) <==> starts_with(s, a) && starts_with(s.skip(a.len() as int), b),
{
    let ab = a + b;
    if starts_with(s, ab) {
        assert(s.subrange(0, a.len() as int) =~= ab.subrange(0, a.len() as int));
        assert(ab.subrange(0, a.len() as int) =~= a);
        assert(s.skip(a.len() as int).subrange(0, b.len() as int) =~= s.subrange(
            0,
            ab.len() as int,
        ).subrange(a.len() as int, ab.len() as int));
        assert(ab.subrange(a.len() as int, ab.len() as int) =~= b);
    }
    if starts_with(s, a) && starts_with(s.skip(a.len() as int), b) {
        let t = s.skip(a.len() as int);
        assert forall|i: int| 0 <= i < ab.len() implies s.subrange(0, ab.len() as int)[i]
            == ab[i] by {
            if i < a.len() {
                assert(s.subrange(0, a.len() as int)[i] == a[i]);
            } else {
                assert(t.subrange(0, b.len() as int)[i - a.len()] == b[i - a.len()]);
            }
        }
        assert(s.subrange(0, ab.len() as int) =~= ab);
    }
}

/// Whether `c` is white space.
pub fn char_is_whitespace(c: char) -> (result: bool)
    ensures
        result == is_whitespace(c),
{
    let u = c as u32;
    (0x09 <= u && u <= 0x0D) || u == 0x20 || u == 0x85 || u == 0xA0 || u == 0x1680 || (0x2000 <= u
        && u <= 0x200A) || u == 0x2028 || u == 0x2029 || u == 0x202F || u == 0x205F || u == 0x3000
}

/// Whether `c` is the capital letter `letter` or the small letter that
/// goes with it.
pub fn is_letter(c: char, letter: char) -> (result: bool)
    requires
        'A' <= letter <= 'Z',
    ensures
        result == (capital(c) == letter),
{
    c == letter || c as u32 == letter as u32 + 32
}

/// The characters of `s`, in order.
pub fn to_chars(s: &str) -> (chars: Vec<char>)
    ensures
        chars@ == s@,
{
    broadcast use vstd::string::axiom_spec_iter;

    let mut chars: Vec<char> = Vec::new();
    for c in it: s.chars()
        invariant
            it.seq() == s@,
            chars@ == s@.take(it.index()),
    {
        chars.push(c);
    }
    chars
}

/// The string made of the characters `chars[from..to]`.
pub fn to_string(chars: &Vec<char>, from: usize, to: usize) -> (s: String)
    requires
        from <= to <= chars.len(),
    ensures
        s@ == chars@.subrange(from as int, to as int),
{
    let mut s = String::new();
    let mut i: usize = from;
    while i < to
        invariant
            from <= i <= to <= chars.len(),
            s@ == chars@.subrange(from as int, i as int),
        decreases to - i,
    {
        s.push(chars[i]);
        i += 1;
    }
    s
}

/// The characters `chars[from..to]`.
pub fn copy_range(chars: &Vec<char>, from: usize, to: usize) -> (result: Vec<char>)
    requires
        from <= to <= chars.len(),
    ensures
        result@ == chars@.subrange(from as int, to as int),
{
    let mut result: Vec<char> = Vec::new();
    let mut i: usize = from;
    while i < to
        invariant
            from <= i <= to <= chars.len(),
            result@ == chars@.subrange(from as int, i as int),
        decreases to - i,
    {
        result.push(chars[i]);
        i += 1;
    }
    result
}

/// Whether `needle` stands in `hay` at position `at`.
pub fn starts_with_at(hay: &Vec<char>, at: usize, needle: &Vec<char>) -> (result: bool)
    requires
        at <= hay.len(),
    ensures
        result == starts_with(hay@.skip(at as int), needle@),
{
    let ghost rest = hay@.skip(at as int);
    if needle.len() > hay.len() - at {
        return false;
    }
    let mut i: usize = 0;
    while i < needle.len()
        invariant
            at <= hay.len(),
            needle.len() <= hay.len() - at,
            i <= needle.len(),
            rest == hay@.skip(at as int),
            forall|j: int| 0 <= j < i ==> rest[j] == needle@[j],
        decreases needle.len() - i,
    {
        if hay[at + i] != needle[i] {
            assert(rest.subrange(0, needle.len() as int)[i as int] != needle@[i as int]);
            return false;
        }
        i += 1;
    }
    assert(rest.subrange(0, needle.len() as int) =~= needle@);
    true
}

/// Whether `c` occurs among `set`.
pub fn contains_char(set: &Vec<char>, c: char) -> (result: bool)
    ensures
        result == set@.contains(c),
{
    let mut i: usize = 0;
    while i < set.len()
        invariant
            i <= set.len(),
            forall|j: int| 0 <= j < i ==> set@[j] != c,
        decreases set.len() - i,
    {
        if set[i] == c {
            return true;
        }
        i += 1;
    }
    false
}

} // verus!
