//! Character-level helpers over request text.
use vstd::prelude::*;
use vstd::string::*;
use vstd::utf8::*;

verus! {

/// Space, carriage return and line feed end a word of the request line.
pub open spec fn is_delim(c: char) -> bool {
    c == ' ' || c == '\r' || c == '\n'
}

/// `i` is the position of the first delimiter in `s`.
pub open spec fn is_first_delim(s: Seq<char>, i: int) -> bool {
    &&& 0 <= i < s.len()
    &&& is_delim(s[i])
    &&& forall|j: int| 0 <= j < i ==> !is_delim(#[trigger] s[j])
}

/// The position of the first delimiter in `s`, if there is one.
pub open spec fn first_delim(s: Seq<char>) -> Option<int> {
    if exists|i: int| is_first_delim(s, i) {
        Some(choose|i: int| is_first_delim(s, i))
    } else {
        None
    }
}

/// `i` is the position of the first occurrence of `c` in `s`.
pub open spec fn is_first_of(s: Seq<char>, c: char, i: int) -> bool {
    &&& 0 <= i < s.len()
    &&& s[i] == c
    &&& forall|j: int| 0 <= j < i ==> #[trigger] s[j] != c
}

/// The position of the first occurrence of `c` in `s`, if there is one.
pub open spec fn first_of(s: Seq<char>, c: char) -> Option<int> {
    if exists|i: int| is_first_of(s, c, i) {
        Some(choose|i: int| is_first_of(s, c, i))
    } else {
        None
    }
}

/// The word before the first delimiter, and everything after that delimiter.
pub open spec fn next_word(s: Seq<char>) -> Option<(Seq<char>, Seq<char>)> {
    match first_delim(s) {
        Some(i) => Some((s.take(i), s.skip(i + 1))),
        None => None,
    }
}

/// The first delimiter found by a scan is the one `first_delim` names.
proof fn lemma_first_delim_at(s: Seq<char>, i: int)
    requires
        is_first_delim(s, i),
    ensures
        first_delim(s) == Some(i),
{
    let k = choose|k: int| is_first_delim(s, k);
    assert(is_first_delim(s, k));
    if k < i {
        assert(!is_delim(s[k]));
    } else if k > i {
        assert(!is_delim(s[i]));
    }
}

/// The first occurrence found by a scan is the one `first_of` names.
pub proof fn lemma_first_of_at(s: Seq<char>, c: char, i: int)
    requires
        is_first_of(s, c, i),
    ensures
        first_of(s, c) == Some(i),
{
    let k = choose|k: int| is_first_of(s, c, k);
    assert(is_first_of(s, c, k));
    if k < i {
        assert(s[k] != c);
    } else if k > i {
        assert(s[i] != c);
    }
}

/// Whether two texts hold the same characters.
pub fn same_text(a: &str, b: &str) -> (r: bool)
    ensures
        r == (a@ == b@),
{
    let n = a.unicode_len();
    let m = b.unicode_len();
    if n != m {
        return false;
    }
    let mut i: usize = 0;
    while i < n
        invariant
            n == a@.len(),
            m == b@.len(),
            n == m,
            i <= n,
            forall|j: int| 0 <= j < i ==> a@[j] == b@[j],
        decreases n - i,
    {
        if a.get_char(i) != b.get_char(i) {
            return false;
        }
        i = i + 1;
    }
    assert(a@ =~= b@);
    true
}

/// Position of the first occurrence of `c` in `s`.
pub fn find_char(s: &str, c: char) -> (r: Option<usize>)
    ensures
        match r {
            Some(i) => first_of(s@, c) == Some(i as int),
            None => first_of(s@, c) is None,
        },
{
    let n = s.unicode_len();
    let mut i: usize = 0;
    while i < n
        invariant
            n == s@.len(),
            i <= n,
            forall|j: int| 0 <= j < i ==> #[trigger] s@[j] != c,
        decreases n - i,
    {
        if s.get_char(i) == c {
            proof {
                lemma_first_of_at(s@, c, i as int);
            }
            return Some(i);
        }
        i = i + 1;
    }
    None
}

/// Splits off the next word: the text before the first space, carriage
/// return or line feed, and the text after that delimiter.
pub fn get_next_word<'a>(text: &'a str) -> (r: Option<(&'a str, &'a str)>)
    ensures
        match r {
            Some((word, rest)) => next_word(text@) == Some((word@, rest@)),
            None => next_word(text@) is None,
        },
{
    let n = text.unicode_len();
    let mut i: usize = 0;
    while i < n
        invariant
            n == text@.len(),
            i <= n,
            forall|j: int| 0 <= j < i ==> !is_delim(#[trigger] text@[j]),
        decreases n - i,
    {
        let c = text.get_char(i);
        if c == ' ' || c == '\r' || c == '\n' {
            proof {
                lemma_first_delim_at(text@, i as int);
            }
            let word = text.substring_char(0, i);
            let rest = text.substring_char(i + 1, n);
            return Some((word, rest));
        }
        i = i + 1;
    }
    None
}

/// Carriage return and line feed end a line.
pub open spec fn is_line_end(c: char) -> bool {
    c == '\r' || c == '\n'
}

/// `i` is the position of the first line end in `s`.
pub open spec fn is_first_line_end(s: Seq<char>, i: int) -> bool {
    &&& 0 <= i < s.len()
    &&& is_line_end(s[i])
    &&& forall|j: int| 0 <= j < i ==> !is_line_end(#[trigger] s[j])
}

/// The first line of `s`: the text before its first line end, or all of
/// `s` where it has none.
pub open spec fn first_line_spec(s: Seq<char>) -> Seq<char> {
    if exists|i: int| is_first_line_end(s, i) {
        s.take(choose|i: int| is_first_line_end(s, i))
    } else {
        s
    }
}

/// The text before the first space and the text after it.
pub open spec fn split_word_spec(s: Seq<char>) -> Option<(Seq<char>, Seq<char>)> {
    match first_of(s, ' ') {
        Some(i) => Some((s.take(i), s.skip(i + 1))),
        None => None,
    }
}

/// The text before the first space, or all of `s` where it has none.
pub open spec fn first_word_spec(s: Seq<char>) -> Seq<char> {
    match first_of(s, ' ') {
        Some(i) => s.take(i),
        None => s,
    }
}

proof fn lemma_first_line_end_at(s: Seq<char>, i: int)
    requires
        is_first_line_end(s, i),
    ensures
        first_line_spec(s) == s.take(i),
{
    let k = choose|k: int| is_first_line_end(s, k);
    assert(is_first_line_end(s, k));
    if k < i {
        assert(!is_line_end(s[k]));
    } else if k > i {
        assert(!is_line_end(s[i]));
    }
}

/// The first line of `text`, without its line end.
pub fn first_line<'a>(text: &'a str) -> (r: &'a str)
    ensures
        r@ == first_line_spec(text@),
{
    let n = text.unicode_len();
    let mut i: usize = 0;
    while i < n
        invariant
            n == text@.len(),
            i <= n,
            forall|j: int| 0 <= j < i ==> !is_line_end(#[trigger] text@[j]),
        decreases n - i,
    {
        let c = text.get_char(i);
        if c == '\r' || c == '\n' {
            proof {
                lemma_first_line_end_at(text@, i as int);
            }
            return text.substring_char(0, i);
        }
        i = i + 1;
    }
    proof {
        if exists|k: int| is_first_line_end(text@, k) {
            let k = choose|k: int| is_first_line_end(text@, k);
            assert(is_line_end(text@[k]));
        }
    }
    text
}

/// Splits `s` at its first space.
pub fn split_word<'a>(s: &'a str) -> (r: Option<(&'a str, &'a str)>)
    ensures
        match r {
            Some((word, rest)) => split_word_spec(s@) == Some((word@, rest@)),
            None => split_word_spec(s@) is None,
        },
{
    match find_char(s, ' ') {
        Some(i) => {
            let n = s.unicode_len();
            Some((s.substring_char(0, i), s.substring_char(i + 1, n)))
        },
        None => None,
    }
}

/// The text of `s` before its first space.
pub fn first_word<'a>(s: &'a str) -> (r: &'a str)
    ensures
        r@ == first_word_spec(s@),
{
    match find_char(s, ' ') {
        Some(i) => s.substring_char(0, i),
        None => s,
    }
}

/// Relies on std::str::from_utf8: it accepts exactly the well-formed UTF-8
/// byte sequences, and the text it returns is their decoding.
#[verifier::external_body]
pub(crate) fn decode_text(b: &[u8]) -> (r: Option<&str>)
    ensures
        r is Some <==> valid_utf8(b@),
        r matches Some(s) ==> s@ == decode_utf8(b@),
{
    std::str::from_utf8(b).ok()
}

} // verus!
