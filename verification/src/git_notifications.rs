//! The texts of git notifications: the title of an operation's output and the message
//! of a failed operation, which is not shown when the user cancelled it.

use vstd::prelude::*;
use crate::text::{chars_of, contains_seq, find_first, push_char};

verus! {

/// A character of the Unicode `White_Space` property.
pub open spec fn is_white_space(c: char) -> bool {
    let u = c as u32;
    ||| 0x09 <= u <= 0x0D
    ||| u == 0x20
    ||| u == 0x85
    ||| u == 0xA0
    ||| u == 0x1680
    ||| 0x2000 <= u <= 0x200A
    ||| u == 0x2028
    ||| u == 0x2029
    ||| u == 0x202F
    ||| u == 0x205F
    ||| u == 0x3000
}

fn white_space(c: char) -> (b: bool)
    ensures
        b == is_white_space(c),
{
    let u = c as u32;
    (0x09 <= u && u <= 0x0D) || u == 0x20 || u == 0x85 || u == 0xA0 || u == 0x1680
        || (0x2000 <= u && u <= 0x200A) || u == 0x2028 || u == 0x2029 || u == 0x202F
        || u == 0x205F || u == 0x3000
}

/// `t` is `s` without its leading and trailing white space.
pub open spec fn trimmed(s: Seq<char>, t: Seq<char>) -> bool {
    exists|a: int, b: int| {
        &&& 0 <= a <= b <= s.len()
        &&& t == s.subrange(a, b)
        &&& forall|i: int| 0 <= i < a ==> is_white_space(#[trigger] s[i])
        &&& forall|i: int| b <= i < s.len() ==> is_white_space(#[trigger] s[i])
        &&& (a < b ==> !is_white_space(s[a]) && !is_white_space(s[b - 1]))
    }
}

/// The characters of `s` without leading and trailing white space.
pub fn trim_chars(s: &Vec<char>) -> (t: Vec<char>)
    ensures
        trimmed(s@, t@),
{
    let mut a: usize = 0;
    while a < s.len() && white_space(s[a])
        invariant
            a <= s@.len(),
            forall|i: int| 0 <= i < a ==> is_white_space(#[trigger] s@[i]),
        decreases s@.len() - a,
    {
        a = a + 1;
    }
    let mut b: usize = s.len();
    while b > a && white_space(s[b - 1])
        invariant
            a <= b <= s@.len(),
            forall|i: int| b <= i < s@.len() ==> is_white_space(#[trigger] s@[i]),
        decreases b,
    {
        b = b - 1;
    }
    let mut t: Vec<char> = Vec::new();
    let mut i: usize = a;
    while i < b
        invariant
            a <= i <= b <= s@.len(),
            t@ == s@.subrange(a as int, i as int),
        decreases b - i,
    {
        t.push(s[i]);
        proof {
            assert(s@.subrange(a as int, i + 1) =~= s@.subrange(a as int, i as int).push(s@[i as int]));
        }
        i = i + 1;
    }
    proof {
        assert(0 <= a <= b <= s@.len() && t@ == s@.subrange(a as int, b as int));
    }
    t
}

fn string_of_chars(v: &Vec<char>) -> (s: String)
    ensures
        s@ == v@,
{
    let mut s = String::new();
    let mut i: usize = 0;
    while i < v.len()
        invariant
            i <= v@.len(),
            s@ == v@.take(i as int),
        decreases v@.len() - i,
    {
        push_char(&mut s, v[i]);
        proof {
            assert(v@.take(i as int).push(v@[i as int]) =~= v@.take(i + 1));
        }
        i = i + 1;
    }
    proof {
        assert(v@.take(v@.len() as int) =~= v@);
    }
    s
}

/// The title of the buffer that shows the output of a git operation.
pub fn git_output_title(operation: &str) -> (r: String)
    ensures
        r@ == "Output from git "@ + operation@,
{
    let mut r = String::from_str("Output from git ");
    r.append(operation);
    r
}

/// The message of the toast for a failed git operation, given the error's text: the
/// trimmed text after `Git <action> failed: `; none when the text mentions
/// `cancelled_marker`, the text git gives when the user cancelled the operation.
pub fn git_error_toast_message(action: &str, error_text: &str, cancelled_marker: &str) -> (r: Option<String>)
    ensures
        match r {
            Some(m) => exists|t: Seq<char>| trimmed(error_text@, t)
                && !contains_seq(t, cancelled_marker@)
                && m@ == "Git "@ + action@ + " failed: "@ + t,
            None => exists|t: Seq<char>| trimmed(error_text@, t) && contains_seq(t, cancelled_marker@),
        },
{
    let text = chars_of(error_text);
    let message = trim_chars(&text);
    let marker = chars_of(cancelled_marker);
    match find_first(&message, &marker) {
        Some(_) => None,
        None => {
            let mut r = String::from_str("Git ");
            r.append(action);
            r.append(" failed: ");
            let m = string_of_chars(&message);
            r.append(m.as_str());
            Some(r)
        },
    }
}

} // verus!
