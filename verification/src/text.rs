//! Character-level text utilities shared by the pipeline: the whitespace
//! predicate used for trimming and blank checks, HTML escaping of the five
//! XML-unsafe characters, and the katakana-to-hiragana script remapping used
//! for ruby glosses.

use vstd::prelude::*;

verus! {

use vstd::string::StrSliceExecFns;
use vstd::string::StringExecFns;

/// First codepoint of the katakana range that is remapped to hiragana.
pub const KATAKANA_FIRST: u32 = 0x30A1;

/// Last codepoint of the katakana range that is remapped to hiragana.
pub const KATAKANA_LAST: u32 = 0x30F6;

/// Distance between a katakana codepoint and its hiragana counterpart.
pub const KATAKANA_HIRAGANA_OFFSET: u32 = 0x60;

/// The Unicode white-space characters, the set `str::trim` strips.
pub open spec fn is_space_char(c: char) -> bool {
    let u = c as u32;
    (9 <= u && u <= 13) || u == 32 || u == 0x85 || u == 0xA0 || u == 0x1680 || (0x2000 <= u
        && u <= 0x200A) || u == 0x2028 || u == 0x2029 || u == 0x202F || u == 0x205F || u == 0x3000
}

/// A string is blank when every character in it is white space.
pub open spec fn is_blank(s: Seq<char>) -> bool {
    forall|i: int| 0 <= i < s.len() ==> is_space_char(s[i])
}

/// `s` with leading white space removed.
pub open spec fn trim_start_spec(s: Seq<char>) -> Seq<char>
    decreases s.len(),
{
    if s.len() == 0 {
        s
    } else if is_space_char(s[0]) {
        trim_start_spec(s.drop_first())
    } else {
        s
    }
}

/// `s` with trailing white space removed.
pub open spec fn trim_end_spec(s: Seq<char>) -> Seq<char>
    decreases s.len(),
{
    if s.len() == 0 {
        s
    } else if is_space_char(s.last()) {
        trim_end_spec(s.drop_last())
    } else {
        s
    }
}

/// `s` with leading and trailing white space removed.
pub open spec fn trim_spec(s: Seq<char>) -> Seq<char> {
    trim_end_spec(trim_start_spec(s))
}

/// Whether `c` is one of the Unicode white-space characters.
pub fn is_space(c: char) -> (r: bool)
    ensures
        r == is_space_char(c),
{
    let u = c as u32;
    (9 <= u && u <= 13) || u == 32 || u == 0x85 || u == 0xA0 || u == 0x1680 || (0x2000 <= u
        && u <= 0x200A) || u == 0x2028 || u == 0x2029 || u == 0x202F || u == 0x205F || u == 0x3000
}

/// Whether `s` is empty or consists of white space alone.
pub fn str_is_blank(s: &str) -> (r: bool)
    ensures
        r == is_blank(s@),
{
    let n = s.unicode_len();
    let mut i: usize = 0;
    while i < n
        invariant
            n == s@.len(),
            i <= n,
            forall|j: int| 0 <= j < i ==> is_space_char(s@[j]),
        decreases n - i,
    {
        let c = s.get_char(i);
        if !is_space(c) {
            return false;
        }
        i += 1;
    }
    true
}

proof fn lemma_trim_start_prefix(s: Seq<char>, i: int)
    requires
        0 <= i <= s.len(),
        forall|j: int| 0 <= j < i ==> is_space_char(s[j]),
        i < s.len() ==> !is_space_char(s[i]),
    ensures
        trim_start_spec(s) =~= s.subrange(i, s.len() as int),
    decreases i,
{
    if i == 0 {
        if s.len() > 0 && is_space_char(s[0]) {
        } else {
            assert(trim_start_spec(s) == s);
        }
        assert(s.subrange(0, s.len() as int) =~= s);
    } else {
        assert(is_space_char(s[0]));
        lemma_trim_start_prefix(s.drop_first(), i - 1);
        assert(s.drop_first().subrange(i - 1, s.drop_first().len() as int) =~= s.subrange(
            i,
            s.len() as int,
        ));
    }
}

proof fn lemma_trim_end_suffix(s: Seq<char>, i: int)
    requires
        0 <= i <= s.len(),
        forall|j: int| i <= j < s.len() ==> is_space_char(s[j]),
        i > 0 ==> !is_space_char(s[i - 1]),
    ensures
        trim_end_spec(s) =~= s.subrange(0, i),
    decreases s.len() - i,
{
    if i == s.len() {
        if s.len() > 0 && is_space_char(s.last()) {
            assert(false);
        } else {
            assert(s.subrange(0, s.len() as int) =~= s);
        }
    } else {
        assert(is_space_char(s.last()));
        lemma_trim_end_suffix(s.drop_last(), i);
        assert(s.drop_last().subrange(0, i) =~= s.subrange(0, i));
    }
}

/// A copy of `s` with leading and trailing white space removed, as
/// `str::trim` produces.
pub fn trim_str(s: &str) -> (r: String)
    ensures
        r@ == trim_spec(s@),
{
    let n = s.unicode_len();
    let mut start: usize = 0;
    while start < n && is_space(s.get_char(start))
        invariant
            n == s@.len(),
            start <= n,
            forall|j: int| 0 <= j < start ==> is_space_char(s@[j]),
        decreases n - start,
    {
        start += 1;
    }
    proof {
        lemma_trim_start_prefix(s@, start as int);
    }
    let mut end: usize = n;
    while end > start && is_space(s.get_char(end - 1))
        invariant
            n == s@.len(),
            start <= end <= n,
            forall|j: int| end <= j < n ==> is_space_char(s@[j]),
        decreases end,
    {
        end -= 1;
    }
    let sub = s.substring_char(start, end);
    proof {
        let trimmed = s@.subrange(start as int, s@.len() as int);
        lemma_trim_end_suffix(trimmed, end - start);
        assert(trimmed.subrange(0, end - start) =~= s@.subrange(start as int, end as int));
    }
    sub.to_owned()
}

/// The HTML escape of one character: the five XML-unsafe characters map to
/// their named entities, everything else passes through.
pub open spec fn escape_char(c: char) -> Seq<char> {
    if c == '&' {
        seq!['&', 'a', 'm', 'p', ';']
    } else if c == '<' {
        seq!['&', 'l', 't', ';']
    } else if c == '>' {
        seq!['&', 'g', 't', ';']
    } else if c == '"' {
        seq!['&', 'q', 'u', 'o', 't', ';']
    } else if c == '\'' {
        seq!['&', '#', '3', '9', ';']
    } else {
        seq![c]
    }
}

/// The HTML escape of a string, character by character.
pub open spec fn escape_chars(s: Seq<char>) -> Seq<char>
    decreases s.len(),
{
    if s.len() == 0 {
        seq![]
    } else {
        escape_char(s[0]) + escape_chars(s.drop_first())
    }
}

/// Escaping a string one character longer appends that character's escape.
pub proof fn lemma_escape_chars_snoc(s: Seq<char>, c: char)
    ensures
        escape_chars(s.push(c)) =~= escape_chars(s) + escape_char(c),
    decreases s.len(),
{
    let t = s.push(c);
    assert(t.len() == s.len() + 1);
    assert(escape_chars(t) == escape_char(t[0]) + escape_chars(t.drop_first()));
    if s.len() == 0 {
        assert(t[0] == c);
        assert(t.drop_first() =~= seq![]);
        assert(escape_chars(t) =~= escape_char(c));
        assert(escape_chars(s) + escape_char(c) =~= escape_char(c));
    } else {
        assert(t[0] == s[0]);
        assert(t.drop_first() =~= s.drop_first().push(c));
        lemma_escape_chars_snoc(s.drop_first(), c);
        assert(escape_chars(t) =~= escape_char(s[0]) + (escape_chars(s.drop_first())
            + escape_char(c)));
        assert(escape_chars(s) == escape_char(s[0]) + escape_chars(s.drop_first()));
    }
}

/// Relies on `String::push`: appends one character at the end of the string.
#[verifier::external_body]
pub(crate) fn string_push_char(s: &mut String, c: char)
    ensures
        final(s)@ == old(s)@.push(c),
{
    s.push(c);
}

/// Relies on `char::from_u32`: returns the character with the given scalar
/// value, or `None` when the value is a surrogate or above the Unicode range.
#[verifier::external_body]
pub(crate) fn char_from_u32(u: u32) -> (r: Option<char>)
    ensures
        r matches Some(c) ==> c as u32 == u,
        (u < 0xD800 || (0xE000 <= u && u <= 0x10FFFF)) ==> r is Some,
{
    char::from_u32(u)
}

/// Escapes the five XML-unsafe characters (`& < > " '`) as their named
/// entities; no other character is transformed.
pub fn escape_html(input: &str) -> (r: String)
    ensures
        r@ == escape_chars(input@),
{
    let n = input.unicode_len();
    let mut out = String::new();
    let mut i: usize = 0;
    while i < n
        invariant
            n == input@.len(),
            i <= n,
            out@ == escape_chars(input@.subrange(0, i as int)),
        decreases n - i,
    {
        let c = input.get_char(i);
        if c == '&' {
            out.append("&amp;");
            proof {
                reveal_strlit("&amp;");
            }
            assert(escape_char(c) =~= "&amp;"@);
        } else if c == '<' {
            out.append("&lt;");
            proof {
                reveal_strlit("&lt;");
            }
            assert(escape_char(c) =~= "&lt;"@);
        } else if c == '>' {
            out.append("&gt;");
            proof {
                reveal_strlit("&gt;");
            }
            assert(escape_char(c) =~= "&gt;"@);
        } else if c == '"' {
            out.append("&quot;");
            proof {
                reveal_strlit("&quot;");
            }
            assert(escape_char(c) =~= "&quot;"@);
        } else if c == '\'' {
            out.append("&#39;");
            proof {
                reveal_strlit("&#39;");
            }
            assert(escape_char(c) =~= "&#39;"@);
        } else {
            string_push_char(&mut out, c);
            assert(escape_char(c) =~= seq![c]);
        }
        proof {
            lemma_escape_chars_snoc(input@.subrange(0, i as int), input@[i as int]);
            assert(input@.subrange(0, i as int).push(input@[i as int]) =~= input@.subrange(
                0,
                i + 1,
            ));
        }
        i += 1;
    }
    proof {
        assert(input@.subrange(0, n as int) =~= input@);
    }
    out
}

/// The hiragana counterpart of `c` when `c` lies in the remapped katakana
/// block, and `c` itself otherwise.
pub open spec fn kata_to_hira_char(c: char) -> char {
    if KATAKANA_FIRST <= c as u32 && c as u32 <= KATAKANA_LAST {
        (c as u32 - KATAKANA_HIRAGANA_OFFSET) as char
    } else {
        c
    }
}

/// The katakana-to-hiragana remapping of a whole string.
pub open spec fn kata_to_hira_chars(s: Seq<char>) -> Seq<char> {
    s.map_values(|c: char| kata_to_hira_char(c))
}

/// Converts every character of the katakana block `KATAKANA_FIRST` to
/// `KATAKANA_LAST` to its hiragana counterpart by the fixed codepoint
/// offset; characters outside that block pass through unchanged.
pub fn katakana_to_hiragana(input: &str) -> (r: String)
    ensures
        r@ == kata_to_hira_chars(input@),
{
    let n = input.unicode_len();
    let mut out = String::new();
    let mut i: usize = 0;
    while i < n
        invariant
            n == input@.len(),
            i <= n,
            out@ =~= kata_to_hira_chars(input@).subrange(0, i as int),
        decreases n - i,
    {
        let c = input.get_char(i);
        let u = c as u32;
        let mapped: char = if KATAKANA_FIRST <= u && u <= KATAKANA_LAST {
            match char_from_u32(u - KATAKANA_HIRAGANA_OFFSET) {
                Some(h) => {
                    proof {
                        vstd::utf8::char_u32_cast(h, (u - KATAKANA_HIRAGANA_OFFSET) as u32);
                    }
                    h
                },
                None => c,
            }
        } else {
            c
        };
        assert(mapped == kata_to_hira_char(c));
        string_push_char(&mut out, mapped);
        proof {
            assert(kata_to_hira_chars(input@).subrange(0, i as int).push(mapped)
                =~= kata_to_hira_chars(input@).subrange(0, i + 1));
        }
        i += 1;
    }
    proof {
        assert(kata_to_hira_chars(input@).subrange(0, n as int) =~= kata_to_hira_chars(input@));
    }
    out
}

} // verus!
