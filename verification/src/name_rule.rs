//! The rule that node ids, method names, topic names and payload types obey.
use vstd::prelude::*;

verus! {

/// The pattern that every node id, method name, topic name and payload type matches.
pub const NAME_PATTERN: &'static str = "^[a-zA-Z_][a-zA-Z0-9_]{0,15}$";

/// A character that may open a name: an ASCII letter or an underscore.
pub open spec fn is_name_start(c: char) -> bool {
    ('a' <= c && c <= 'z') || ('A' <= c && c <= 'Z') || c == '_'
}

/// A character that may follow the first one: an ASCII letter, digit or underscore.
pub open spec fn is_name_char(c: char) -> bool {
    is_name_start(c) || ('0' <= c && c <= '9')
}

/// What `NAME_PATTERN` matches: one to sixteen characters, the first a letter or an
/// underscore, the others letters, digits or underscores.
pub open spec fn is_valid_name(s: Seq<char>) -> bool {
    &&& 1 <= s.len() <= 16
    &&& is_name_start(s[0])
    &&& forall|i: int| 1 <= i < s.len() ==> is_name_char(#[trigger] s[i])
}

/// The characters of names, spelled out: a name may open with any ASCII letter, upper or
/// lower case, or an underscore, and go on with any ASCII letter, digit or underscore;
/// no other character may appear.
pub proof fn lemma_name_characters(c: char)
    ensures
        is_name_start(c) <==> (('a' <= c && c <= 'z') || ('A' <= c && c <= 'Z') || c == '_'),
        is_name_char(c) <==> (('a' <= c && c <= 'z') || ('A' <= c && c <= 'Z') || ('0' <= c && c
            <= '9') || c == '_'),
        ('0' <= c && c <= '9') ==> !is_name_start(c) && is_name_char(c),
{
}

/// The other case of an ASCII letter; any other character stays as it is.
pub open spec fn swap_ascii_case(c: char) -> char {
    if 'a' <= c && c <= 'z' {
        ((c as u32) - 32) as char
    } else if 'A' <= c && c <= 'Z' {
        ((c as u32) + 32) as char
    } else {
        c
    }
}

proof fn lemma_swap_case_char(c: char)
    ensures
        is_name_start(swap_ascii_case(c)) <==> is_name_start(c),
        is_name_char(swap_ascii_case(c)) <==> is_name_char(c),
{
    if 'a' <= c && c <= 'z' {
        let d = ((c as u32) - 32) as char;
        assert(d as u32 == (c as u32) - 32);
        assert('A' <= d && d <= 'Z');
    } else if 'A' <= c && c <= 'Z' {
        let d = ((c as u32) + 32) as char;
        assert(d as u32 == (c as u32) + 32);
        assert('a' <= d && d <= 'z');
    }
}

/// The rule does not depend on letter case: turning any letters of a name to the other
/// case keeps a valid name valid and an invalid one invalid.
pub proof fn lemma_name_case_blind(s: Seq<char>)
    ensures
        is_valid_name(s.map_values(|c: char| swap_ascii_case(c))) <==> is_valid_name(s),
{
    let t = s.map_values(|c: char| swap_ascii_case(c));
    assert forall|i: int| 0 <= i < s.len() implies (is_name_char(#[trigger] t[i]) <==> is_name_char(s[i]))
        && (is_name_start(t[i]) <==> is_name_start(s[i])) by {
        lemma_swap_case_char(s[i]);
    }
    if is_valid_name(s) {
        assert(is_name_start(t[0]));
    }
    if is_valid_name(t) {
        assert(is_name_start(s[0]));
        assert forall|i: int| 1 <= i < s.len() implies is_name_char(#[trigger] s[i]) by {
            assert(is_name_char(t[i]));
        }
    }
}

/// A valid name of fewer than sixteen characters stays valid when any ASCII letter, digit
/// or underscore is added at its end, and becomes invalid with any other character; a
/// name of sixteen characters cannot grow.
pub proof fn lemma_name_extends(s: Seq<char>, c: char)
    requires
        is_valid_name(s),
    ensures
        s.len() < 16 ==> (is_valid_name(s.push(c)) <==> (('a' <= c && c <= 'z') || ('A' <= c && c
            <= 'Z') || ('0' <= c && c <= '9') || c == '_')),
        s.len() == 16 ==> !is_valid_name(s.push(c)),
{
    let t = s.push(c);
    assert(t[0] == s[0]);
    assert(t[s.len() as int] == c);
    if s.len() < 16 && is_name_char(c) {
        assert forall|i: int| 1 <= i < t.len() implies is_name_char(#[trigger] t[i]) by {
            if i < s.len() {
                assert(t[i] == s[i]);
            }
        }
    }
}

/// Compiles `pattern` with `regex::Regex::new` and asks `Regex::is_match` whether it
/// matches `haystack`. Trusted: for `NAME_PATTERN`, which compiles, the regex crate's
/// syntax (`^` and `$` anchor at the ends of the haystack, `[a-zA-Z_]` is the class of
/// ASCII letters and the underscore, `{0,15}` repeats zero to fifteen times) gives
/// exactly `is_valid_name`.
#[verifier::external_body]
fn regex_is_match(pattern: &str, haystack: &str) -> (matched: bool)
    requires
        pattern@ == NAME_PATTERN@,
    ensures
        matched == is_valid_name(haystack@),
{
    regex::Regex::new(pattern).unwrap().is_match(haystack)
}

/// Whether `s` is a valid name.
pub fn check_name(s: &str) -> (valid: bool)
    ensures
        valid == is_valid_name(s@),
{
    regex_is_match(NAME_PATTERN, s)
}

} // verus!
