//! Small verified text utilities shared by the protocol conversions.

use vstd::prelude::*;

verus! {

/// The decimal digit character for `d < 10`.
pub open spec fn digit_char(d: nat) -> char {
    if d == 0 { '0' }
    else if d == 1 { '1' }
    else if d == 2 { '2' }
    else if d == 3 { '3' }
    else if d == 4 { '4' }
    else if d == 5 { '5' }
    else if d == 6 { '6' }
    else if d == 7 { '7' }
    else if d == 8 { '8' }
    else { '9' }
}

/// The decimal rendering of a natural number, without leading zeros.
pub open spec fn decimal(n: nat) -> Seq<char>
    decreases n,
{
    if n < 10 {
        seq![digit_char(n)]
    } else {
        decimal(n / 10) + seq![digit_char(n % 10)]
    }
}

fn digit_str(d: u64) -> (s: &'static str)
    requires
        d < 10,
    ensures
        s@ == seq![digit_char(d as nat)],
{
    proof {
        reveal_strlit("0");
        reveal_strlit("1");
        reveal_strlit("2");
        reveal_strlit("3");
        reveal_strlit("4");
        reveal_strlit("5");
        reveal_strlit("6");
        reveal_strlit("7");
        reveal_strlit("8");
        reveal_strlit("9");
    }
    if d == 0 { "0" }
    else if d == 1 { "1" }
    else if d == 2 { "2" }
    else if d == 3 { "3" }
    else if d == 4 { "4" }
    else if d == 5 { "5" }
    else if d == 6 { "6" }
    else if d == 7 { "7" }
    else if d == 8 { "8" }
    else { "9" }
}

/// Appends the decimal rendering of `n` to `out`.
pub fn push_decimal(out: &mut String, n: u64)
    ensures
        final(out)@ == old(out)@ + decimal(n as nat),
    decreases n,
{
    if n < 10 {
        out.append(digit_str(n));
    } else {
        push_decimal(out, n / 10);
        out.append(digit_str(n % 10));
        proof {
            assert(old(out)@ + decimal((n / 10) as nat) + seq![digit_char((n % 10) as nat)]
                =~= old(out)@ + decimal(n as nat));
        }
    }
}

} // verus!

verus! {

/// The characters of a string.
pub fn chars_of(s: &str) -> (v: Vec<char>)
    ensures
        v@ == s@,
{
    let n = s.unicode_len();
    let mut v: Vec<char> = Vec::new();
    let mut i: usize = 0;
    while i < n
        invariant
            n == s@.len(),
            i <= n,
            v@ == s@.take(i as int),
        decreases n - i,
    {
        let c = s.get_char(i);
        v.push(c);
        proof {
            assert(s@.take(i as int).push(c) =~= s@.take(i + 1));
        }
        i = i + 1;
    }
    proof {
        assert(s@.take(n as int) =~= s@);
    }
    v
}

/// The number of bytes `c` takes in UTF-8.
pub open spec fn utf8_len(c: char) -> nat {
    if (c as u32) < 0x80 { 1 }
    else if (c as u32) < 0x800 { 2 }
    else if (c as u32) < 0x10000 { 3 }
    else { 4 }
}

/// The number of 16-bit units `c` takes in UTF-16.
pub open spec fn utf16_len(c: char) -> nat {
    if (c as u32) < 0x10000 { 1 } else { 2 }
}

pub fn char_len_utf8(c: char) -> (n: usize)
    ensures
        n == utf8_len(c),
{
    let u = c as u32;
    if u < 0x80 { 1 }
    else if u < 0x800 { 2 }
    else if u < 0x10000 { 3 }
    else { 4 }
}

pub fn char_len_utf16(c: char) -> (n: usize)
    ensures
        n == utf16_len(c),
{
    let u = c as u32;
    if u < 0x10000 { 1 } else { 2 }
}

/// The UTF-8 length of a character sequence.
pub open spec fn utf8_size(s: Seq<char>) -> nat
    decreases s.len(),
{
    if s.len() == 0 { 0 } else { utf8_size(s.drop_last()) + utf8_len(s.last()) }
}

/// The UTF-16 length of a character sequence.
pub open spec fn utf16_size(s: Seq<char>) -> nat
    decreases s.len(),
{
    if s.len() == 0 { 0 } else { utf16_size(s.drop_last()) + utf16_len(s.last()) }
}

/// `p` is a prefix of `s`.
pub open spec fn is_prefix_of(p: Seq<char>, s: Seq<char>) -> bool {
    p.len() <= s.len() && s.take(p.len() as int) == p
}

/// `needle` occurs in `hay` at character position `i`.
pub open spec fn occurs_at(hay: Seq<char>, needle: Seq<char>, i: int) -> bool {
    0 <= i && i + needle.len() <= hay.len() && hay.subrange(i, i + needle.len()) == needle
}

/// `needle` occurs somewhere in `hay`.
pub open spec fn contains_seq(hay: Seq<char>, needle: Seq<char>) -> bool {
    exists|i: int| occurs_at(hay, needle, i)
}

/// Whether `p` is a prefix of `s`.
pub fn starts_with(s: &Vec<char>, p: &Vec<char>) -> (b: bool)
    ensures
        b == is_prefix_of(p@, s@),
{
    if p.len() > s.len() {
        return false;
    }
    let mut i: usize = 0;
    while i < p.len()
        invariant
            p@.len() <= s@.len(),
            i <= p@.len(),
            forall|j: int| 0 <= j < i ==> s@[j] == p@[j],
        decreases p@.len() - i,
    {
        if s[i] != p[i] {
            proof {
                assert(s@.take(p@.len() as int)[i as int] != p@[i as int]);
            }
            return false;
        }
        i = i + 1;
    }
    proof {
        assert(s@.take(p@.len() as int) =~= p@);
    }
    true
}

/// Whether `needle` occurs in `hay` at character position `at`.
pub fn matches_at(hay: &Vec<char>, needle: &Vec<char>, at: usize) -> (b: bool)
    ensures
        b == occurs_at(hay@, needle@, at as int),
{
    if at > hay.len() || needle.len() > hay.len() - at {
        return false;
    }
    let mut i: usize = 0;
    while i < needle.len()
        invariant
            at + needle@.len() <= hay@.len(),
            hay@.len() == hay.len(),
            i <= needle@.len(),
            forall|j: int| 0 <= j < i ==> hay@[at + j] == needle@[j],
        decreases needle@.len() - i,
    {
        if hay[at + i] != needle[i] {
            proof {
                assert(hay@.subrange(at as int, at + needle@.len())[i as int] != needle@[i as int]);
            }
            return false;
        }
        i = i + 1;
    }
    proof {
        assert(hay@.subrange(at as int, at + needle@.len()) =~= needle@);
    }
    true
}

/// The first character position at which `needle` occurs in `hay`.
pub fn find_first(hay: &Vec<char>, needle: &Vec<char>) -> (r: Option<usize>)
    ensures
        match r {
            Some(i) => occurs_at(hay@, needle@, i as int) && forall|j: int| 0 <= j < i ==> !occurs_at(hay@, needle@, j),
            None => !contains_seq(hay@, needle@),
        },
{
    if needle.len() > hay.len() {
        return None;
    }
    let last = hay.len() - needle.len();
    let mut i: usize = 0;
    loop
        invariant
            i <= last,
            last + needle@.len() == hay@.len(),
            forall|j: int| 0 <= j < i ==> !occurs_at(hay@, needle@, j),
        decreases last - i,
    {
        if matches_at(hay, needle, i) {
            return Some(i);
        }
        if i == last {
            proof {
                assert forall|j: int| !occurs_at(hay@, needle@, j) by {
                    if 0 <= j < i {
                    }
                }
            }
            return None;
        }
        i = i + 1;
    }
}

} // verus!

verus! {

pub proof fn lemma_utf8_size_step(s: Seq<char>, i: int)
    requires
        0 <= i < s.len(),
    ensures
        utf8_size(s.take(i + 1)) == utf8_size(s.take(i)) + utf8_len(s[i]),
        utf16_size(s.take(i + 1)) == utf16_size(s.take(i)) + utf16_len(s[i]),
{
    assert(s.take(i + 1).drop_last() =~= s.take(i));
}

pub proof fn lemma_utf8_size_bound(s: Seq<char>)
    ensures
        utf8_size(s) <= 4 * s.len(),
        utf16_size(s) <= 2 * s.len(),
    decreases s.len(),
{
    if s.len() > 0 {
        lemma_utf8_size_bound(s.drop_last());
    }
}

/// The UTF-8 length of the first `i` characters of `s`.
pub fn utf8_prefix_len(s: &Vec<char>, i: usize) -> (n: usize)
    requires
        i <= s@.len(),
        s@.len() <= usize::MAX / 4,
    ensures
        n == utf8_size(s@.take(i as int)),
{
    let mut n: usize = 0;
    let mut j: usize = 0;
    while j < i
        invariant
            j <= i <= s@.len(),
            s@.len() <= usize::MAX / 4,
            n == utf8_size(s@.take(j as int)),
        decreases i - j,
    {
        proof {
            lemma_utf8_size_step(s@, j as int);
            lemma_utf8_size_bound(s@.take(j + 1));
        }
        n = n + char_len_utf8(s[j]);
        j = j + 1;
    }
    n
}

/// The UTF-8 length of `s`.
pub fn utf8_total_len(s: &Vec<char>) -> (n: usize)
    requires
        s@.len() <= usize::MAX / 4,
    ensures
        n == utf8_size(s@),
{
    proof {
        assert(s@.take(s@.len() as int) =~= s@);
    }
    utf8_prefix_len(s, s.len())
}

} // verus!

verus! {

pub proof fn lemma_utf8_size_concat(a: Seq<char>, b: Seq<char>)
    ensures
        utf8_size(a + b) == utf8_size(a) + utf8_size(b),
        utf16_size(a + b) == utf16_size(a) + utf16_size(b),
    decreases b.len(),
{
    if b.len() == 0 {
        assert(a + b =~= a);
    } else {
        lemma_utf8_size_concat(a, b.drop_last());
        assert((a + b).drop_last() =~= a + b.drop_last());
    }
}

/// Where `needle` occurs in `hay`, its bytes end within `hay`'s bytes.
pub proof fn lemma_occurrence_bytes(hay: Seq<char>, needle: Seq<char>, i: int)
    requires
        occurs_at(hay, needle, i),
    ensures
        utf8_size(hay.take(i)) + utf8_size(needle) <= utf8_size(hay),
{
    lemma_utf8_size_concat(hay.take(i), needle);
    lemma_utf8_size_concat(hay.take(i) + needle, hay.skip(i + needle.len()));
    assert(hay.take(i) + needle + hay.skip(i + needle.len()) =~= hay);
}

} // verus!

verus! {

/// Appends `c` to `s`: std's `String::push`, which its documentation describes as
/// appending the character to the end of the string.
#[verifier::external_body]
pub(crate) fn push_char(s: &mut String, c: char)
    ensures
        final(s)@ == old(s)@.push(c),
{
    s.push(c);
}

/// The text with every line ending (`\r\n`, or a lone `\r`) replaced by `\n`.
pub open spec fn normalized_line_endings(s: Seq<char>) -> Seq<char>
    decreases s.len(),
{
    if s.len() == 0 {
        s
    } else if s[0] == '\r' {
        if s.len() >= 2 && s[1] == '\n' {
            seq!['\n'] + normalized_line_endings(s.skip(2))
        } else {
            seq!['\n'] + normalized_line_endings(s.skip(1))
        }
    } else {
        seq![s[0]] + normalized_line_endings(s.skip(1))
    }
}

/// Replaces every line ending of `text` (`\r\n`, or a lone `\r`) by `\n`.
pub fn normalize_line_endings(text: &mut String)
    ensures
        final(text)@ == normalized_line_endings(old(text)@),
{
    let chars = chars_of(text.as_str());
    let ghost s = chars@;
    let mut out = String::new();
    let mut i: usize = 0;
    proof {
        assert(s.skip(0) =~= s);
        assert(out@ + normalized_line_endings(s) =~= normalized_line_endings(s));
    }
    while i < chars.len()
        invariant
            s == chars@,
            i <= s.len(),
            normalized_line_endings(s) == out@ + normalized_line_endings(s.skip(i as int)),
        decreases s.len() - i,
    {
        let ghost rest = s.skip(i as int);
        let c = chars[i];
        if c == '\r' {
            push_char(&mut out, '\n');
            if i + 1 < chars.len() && chars[i + 1] == '\n' {
                proof {
                    assert(rest.skip(2) =~= s.skip(i + 2));
                    assert(seq!['\n'] + normalized_line_endings(rest.skip(2)) == normalized_line_endings(rest));
                }
                i = i + 2;
            } else {
                proof {
                    assert(rest.skip(1) =~= s.skip(i + 1));
                    assert(seq!['\n'] + normalized_line_endings(rest.skip(1)) == normalized_line_endings(rest));
                }
                i = i + 1;
            }
        } else {
            push_char(&mut out, c);
            proof {
                assert(rest.skip(1) =~= s.skip(i + 1));
                assert(seq![c] + normalized_line_endings(rest.skip(1)) == normalized_line_endings(rest));
            }
            i = i + 1;
        }
        proof {
            assert(normalized_line_endings(s) == out@ + normalized_line_endings(s.skip(i as int)));
        }
    }
    proof {
        assert(s.skip(i as int) =~= Seq::<char>::empty());
        assert(out@ + Seq::<char>::empty() =~= out@);
    }
    *text = out;
}


/// Text with normalized line endings has no carriage return left.
pub proof fn law_normalized_has_no_carriage_return(s: Seq<char>)
    ensures
        forall|i: int| 0 <= i < normalized_line_endings(s).len() ==> normalized_line_endings(s)[i] != '\r',
    decreases s.len(),
{
    if s.len() > 0 {
        let n = if s[0] == '\r' && s.len() >= 2 && s[1] == '\n' { 2int } else { 1int };
        law_normalized_has_no_carriage_return(s.skip(n));
        let head = if s[0] == '\r' { '\n' } else { s[0] };
        assert(normalized_line_endings(s) == seq![head] + normalized_line_endings(s.skip(n)));
        assert forall|i: int| 0 <= i < normalized_line_endings(s).len() implies normalized_line_endings(s)[i] != '\r' by {
            if i > 0 {
                assert(normalized_line_endings(s)[i] == normalized_line_endings(s.skip(n))[i - 1]);
            }
        }
    }
}

/// Text without carriage returns is left as it is.
pub proof fn lemma_normalized_without_carriage_return(s: Seq<char>)
    requires
        forall|i: int| 0 <= i < s.len() ==> s[i] != '\r',
    ensures
        normalized_line_endings(s) == s,
    decreases s.len(),
{
    if s.len() > 0 {
        lemma_normalized_without_carriage_return(s.skip(1));
        assert(seq![s[0]] + s.skip(1) =~= s);
    }
}

/// Normalizing line endings twice gives what normalizing once gives.
pub proof fn law_normalize_idempotent(s: Seq<char>)
    ensures
        normalized_line_endings(normalized_line_endings(s)) == normalized_line_endings(s),
{
    law_normalized_has_no_carriage_return(s);
    lemma_normalized_without_carriage_return(normalized_line_endings(s));
}

} // verus!
