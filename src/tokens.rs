//! Rough token estimates for text and for source code.
use vstd::prelude::*;
use vstd::std_specs::iter::IteratorSpec;
use vstd::string::StringSliceAdditionalSpecFns;

verus! {

/// A Unicode `White_Space` character, as `char::is_whitespace` decides it.
pub open spec fn is_white_space(c: char) -> bool {
    let u = c as u32;
    (0x9 <= u <= 0xd) || u == 0x20 || u == 0x85 || u == 0xa0 || u == 0x1680 || (0x2000 <= u
        <= 0x200a) || u == 0x2028 || u == 0x2029 || u == 0x202f || u == 0x205f || u == 0x3000
}

/// Punctuation that separates code tokens and counts as half a token.
pub open spec fn is_code_delimiter(c: char) -> bool {
    c == '(' || c == ')' || c == '{' || c == '}' || c == '[' || c == ']' || c == '<' || c == '>'
        || c == ',' || c == '.' || c == ';' || c == ':' || c == '"' || c == '\'' || c == '`'
        || c == '|' || c == '\\' || c == '/' || c == '-' || c == '+' || c == '=' || c == '*'
        || c == '&' || c == '%' || c == '$' || c == '#' || c == '@' || c == '!' || c == '?'
        || c == '~'
}

pub open spec fn is_separator(c: char) -> bool {
    is_white_space(c) || is_code_delimiter(c)
}

/// The number of maximal runs of non-separator characters.
pub open spec fn word_count(s: Seq<char>) -> nat
    decreases s.len(),
{
    if s.len() == 0 {
        0
    } else {
        let starts = !is_separator(s.last()) && (s.len() == 1 || is_separator(s[s.len() - 2]));
        word_count(s.drop_last()) + if starts {
            1nat
        } else {
            0nat
        }
    }
}

/// The number of delimiter characters.
pub open spec fn delimiter_count(s: Seq<char>) -> nat
    decreases s.len(),
{
    if s.len() == 0 {
        0
    } else {
        delimiter_count(s.drop_last()) + if is_code_delimiter(s.last()) {
            1nat
        } else {
            0nat
        }
    }
}

proof fn lemma_counts_bounded(s: Seq<char>)
    ensures
        word_count(s) + delimiter_count(s) <= s.len(),
    decreases s.len(),
{
    if s.len() > 0 {
        lemma_counts_bounded(s.drop_last());
    }
}

fn white_space(c: char) -> (r: bool)
    ensures
        r == is_white_space(c),
{
    let u = c as u32;
    (0x9 <= u && u <= 0xd) || u == 0x20 || u == 0x85 || u == 0xa0 || u == 0x1680 || (0x2000 <= u
        && u <= 0x200a) || u == 0x2028 || u == 0x2029 || u == 0x202f || u == 0x205f || u == 0x3000
}

fn code_delimiter(c: char) -> (r: bool)
    ensures
        r == is_code_delimiter(c),
{
    match c {
        '(' | ')' | '{' | '}' | '[' | ']' | '<' | '>' | ',' | '.' | ';' | ':' | '"' | '\''
        | '`' | '|' | '\\' | '/' | '-' | '+' | '=' | '*' | '&' | '%' | '$' | '#' | '@' | '!'
        | '?' | '~' => true,
        _ => false,
    }
}

/// About four bytes of text per token: the byte length divided by four,
/// rounded up.
pub fn estimate_tokens(text: &str) -> (r: u64)
    ensures
        r == (text.spec_bytes().len() + 3) / 4,
{
    let n = text.as_bytes_vec().len() as u64;
    let whole = n / 4;
    if n % 4 == 0 {
        whole
    } else {
        whole + 1
    }
}

/// A token estimate for source code: one per run of characters between
/// white space and delimiters, plus one per two delimiters, and at least one.
pub fn estimate_code_tokens(code: &str) -> (r: u64)
    ensures
        r == if word_count(code@) + delimiter_count(code@) / 2 == 0 {
            1
        } else {
            word_count(code@) + delimiter_count(code@) / 2
        },
{
    broadcast use vstd::string::group_string_axioms;

    let len = code.unicode_len();
    let ghost all = code@;
    let mut it = code.chars();
    let ghost mut i: int = 0;
    let mut words: usize = 0;
    let mut delims: usize = 0;
    let mut prev_sep = true;
    loop
        invariant
            all == code@,
            len == all.len(),
            0 <= i <= all.len(),
            it.remaining() == all.subrange(i, all.len() as int),
            words == word_count(all.subrange(0, i)),
            delims == delimiter_count(all.subrange(0, i)),
            prev_sep == (i == 0 || is_separator(all[i - 1])),
        ensures
            i == all.len(),
            all == code@,
            words == word_count(all.subrange(0, i)),
            delims == delimiter_count(all.subrange(0, i)),
        decreases all.len() - i,
    {
        let ghost before = it;
        match it.next() {
            None => {
                assert(i == all.len());
                break;
            },
            Some(c) => {
                assert(c == all[i]);
                let ghost sub = all.subrange(0, i + 1);
                assert(sub.drop_last() =~= all.subrange(0, i));
                assert(sub.last() == c);
                assert(i > 0 ==> sub[sub.len() - 2] == all[i - 1]);
                proof {
                    lemma_counts_bounded(all.subrange(0, i));
                }
                let sep_ws = white_space(c);
                let delim = code_delimiter(c);
                if !sep_ws && !delim && prev_sep {
                    words = words + 1;
                }
                if delim {
                    delims = delims + 1;
                }
                prev_sep = sep_ws || delim;
                proof {
                    i = i + 1;
                }
                assert(it.remaining() =~= all.subrange(i, all.len() as int));
            },
        }
    }
    assert(all.subrange(0, i) =~= all);
    proof {
        lemma_counts_bounded(all);
    }
    let total = words as u64 + (delims / 2) as u64;
    if total == 0 {
        1
    } else {
        total
    }
}

} // verus!
