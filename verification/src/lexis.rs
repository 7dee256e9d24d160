//! Character classes and the scanning primitives the scenario grammar is
//! written in.

use vstd::prelude::*;

verus! {

/// Whether `c` separates words inside a line: a space, a tab or a carriage
/// return.
pub open spec fn is_blank(c: char) -> bool {
    c == ' ' || c == '\t' || c == '\r'
}

/// Whether `c` may begin an identifier: an ASCII letter or an underscore.
pub open spec fn is_ident_start(c: char) -> bool {
    ('a' <= c && c <= 'z') || ('A' <= c && c <= 'Z') || c == '_'
}

/// Whether `c` may occur in an identifier: an ASCII letter, an ASCII digit or
/// an underscore.
pub open spec fn is_ident_char(c: char) -> bool {
    is_ident_start(c) || ('0' <= c && c <= '9')
}

/// A non-empty run of identifier characters that does not begin with a digit.
pub open spec fn is_identifier(s: Seq<char>) -> bool {
    &&& s.len() > 0
    &&& is_ident_start(s[0])
    &&& forall|i: int| 0 <= i < s.len() ==> is_ident_char(#[trigger] s[i])
}

/// The sets of characters at which a scan stops.
#[derive(Clone, Copy, Debug)]
pub enum CharClass {
    /// The line feed.
    LineFeed,
    /// Spaces, tabs and carriage returns.
    Blank,
    /// Everything that is not blank.
    Visible,
    /// The double quote.
    Quote,
}

impl CharClass {
    /// Whether `c` belongs to the class.
    pub open spec fn has(self, c: char) -> bool {
        match self {
            CharClass::LineFeed => c == '\n',
            CharClass::Blank => is_blank(c),
            CharClass::Visible => !is_blank(c),
            CharClass::Quote => c == '"',
        }
    }

    /// Decides membership.
    pub fn contains(self, c: char) -> (b: bool)
        ensures
            b == self.has(c),
    {
        match self {
            CharClass::LineFeed => c == '\n',
            CharClass::Blank => c == ' ' || c == '\t' || c == '\r',
            CharClass::Visible => !(c == ' ' || c == '\t' || c == '\r'),
            CharClass::Quote => c == '"',
        }
    }
}

/// The number of characters of `s` before the first one in `class`; the
/// length of `s` when there is none.
pub open spec fn span(s: Seq<char>, class: CharClass) -> nat
    decreases s.len(),
{
    if s.len() == 0 || class.has(s[0]) {
        0
    } else {
        1 + span(s.drop_first(), class)
    }
}

/// The length of `s` without its trailing blanks.
pub open spec fn trimmed_len(s: Seq<char>) -> nat
    decreases s.len(),
{
    if s.len() > 0 && is_blank(s.last()) {
        trimmed_len(s.drop_last())
    } else {
        s.len()
    }
}

/// `s` without leading and trailing blanks.
pub open spec fn trim(s: Seq<char>) -> Seq<char> {
    let rest = s.skip(span(s, CharClass::Visible) as int);
    rest.take(trimmed_len(rest) as int)
}

/// `span` never runs past the end, skips no member of the class, and stops
/// on one unless it reaches the end.
pub proof fn span_bounds(s: Seq<char>, class: CharClass)
    ensures
        span(s, class) <= s.len(),
        forall|i: int| 0 <= i < span(s, class) ==> !class.has(#[trigger] s[i]),
        span(s, class) < s.len() ==> class.has(s[span(s, class) as int]),
    decreases s.len(),
{
    if s.len() == 0 || class.has(s[0]) {
    } else {
        let t = s.drop_first();
        span_bounds(t, class);
        assert forall|i: int| 0 <= i < span(s, class) implies !class.has(#[trigger] s[i]) by {
            if i > 0 {
                assert(s[i] == t[i - 1]);
            }
        }
        if span(s, class) < s.len() {
            assert(s[span(s, class) as int] == t[span(t, class) as int]);
        }
    }
}

/// A scan stops at `n` if no character before `n` is in the class and the
/// one at `n`, if there is one, is.
pub proof fn span_stops_at(s: Seq<char>, class: CharClass, n: int)
    requires
        0 <= n <= s.len(),
        forall|i: int| 0 <= i < n ==> !class.has(#[trigger] s[i]),
        n < s.len() ==> class.has(s[n]),
    ensures
        span(s, class) == n,
{
    span_bounds(s, class);
    let m = span(s, class) as int;
    if m < n {
        assert(!class.has(s[m]));
    } else if m > n {
        assert(!class.has(s[n]));
    }
}

/// Appending a member of the class does not move the place where a scan
/// stops.
pub proof fn span_push_member(s: Seq<char>, c: char, class: CharClass)
    requires
        class.has(c),
    ensures
        span(s.push(c), class) == span(s, class),
    decreases s.len(),
{
    if s.len() == 0 {
        assert(s.push(c)[0] == c);
    } else if class.has(s[0]) {
        assert(s.push(c)[0] == s[0]);
    } else {
        assert(s.push(c)[0] == s[0]);
        assert(s.push(c).drop_first() =~= s.drop_first().push(c));
        span_push_member(s.drop_first(), c, class);
    }
}

/// `trimmed_len` stays within the sequence and leaves no blank at the end.
pub proof fn trimmed_len_bounds(s: Seq<char>)
    ensures
        trimmed_len(s) <= s.len(),
        trimmed_len(s) > 0 ==> !is_blank(s[trimmed_len(s) - 1]),
    decreases s.len(),
{
    if s.len() > 0 && is_blank(s.last()) {
        trimmed_len_bounds(s.drop_last());
    }
}

/// A trimmed text neither begins nor ends with a blank.
pub proof fn trim_leaves_no_blank_ends(s: Seq<char>)
    ensures
        trim(s).len() > 0 ==> !is_blank(trim(s)[0]) && !is_blank(trim(s).last()),
{
    let lead = span(s, CharClass::Visible) as int;
    span_bounds(s, CharClass::Visible);
    let rest = s.skip(lead);
    trimmed_len_bounds(rest);
    if trim(s).len() > 0 {
        assert(trim(s)[0] == s[lead]);
        assert(trim(s).last() == rest[trimmed_len(rest) - 1]);
    }
}

/// Finds the first character of `class` in `buf[from..to]`.
pub(crate) fn scan(buf: &[char], from: usize, to: usize, class: CharClass) -> (at: usize)
    requires
        from <= to <= buf@.len(),
    ensures
        from <= at <= to,
        at == from + span(buf@.subrange(from as int, to as int), class),
{
    let mut at = from;
    while at < to && !class.contains(buf[at])
        invariant
            from <= at <= to <= buf@.len(),
            span(buf@.subrange(from as int, to as int), class) == (at - from) + span(
                buf@.subrange(at as int, to as int),
                class,
            ),
        decreases to - at,
    {
        proof {
            let cur = buf@.subrange(at as int, to as int);
            assert(cur[0] == buf@[at as int]);
            assert(cur.drop_first() =~= buf@.subrange(at + 1, to as int));
        }
        at += 1;
    }
    proof {
        let cur = buf@.subrange(at as int, to as int);
        if at < to {
            assert(cur[0] == buf@[at as int]);
        }
    }
    at
}

/// Finds the end of `buf[from..to]` once its trailing blanks are dropped.
pub(crate) fn scan_back(buf: &[char], from: usize, to: usize) -> (at: usize)
    requires
        from <= to <= buf@.len(),
    ensures
        from <= at <= to,
        at == from + trimmed_len(buf@.subrange(from as int, to as int)),
{
    let mut at = to;
    while at > from && CharClass::Blank.contains(buf[at - 1])
        invariant
            from <= at <= to <= buf@.len(),
            trimmed_len(buf@.subrange(from as int, to as int)) == trimmed_len(
                buf@.subrange(from as int, at as int),
            ),
        decreases at - from,
    {
        proof {
            let cur = buf@.subrange(from as int, at as int);
            assert(cur.last() == buf@[at - 1]);
            assert(cur.drop_last() =~= buf@.subrange(from as int, at - 1));
        }
        at -= 1;
    }
    proof {
        let cur = buf@.subrange(from as int, at as int);
        if at > from {
            assert(cur.last() == buf@[at - 1]);
        }
    }
    at
}

/// Decides whether `buf[from..to]` is an identifier.
pub(crate) fn check_identifier(buf: &[char], from: usize, to: usize) -> (b: bool)
    requires
        from <= to <= buf@.len(),
    ensures
        b == is_identifier(buf@.subrange(from as int, to as int)),
{
    let ghost s = buf@.subrange(from as int, to as int);
    if from == to {
        return false;
    }
    let first = buf[from];
    assert(s[0] == first);
    if !(('a' <= first && first <= 'z') || ('A' <= first && first <= 'Z') || first == '_') {
        return false;
    }
    let mut i = from;
    while i < to
        invariant
            from <= i <= to <= buf@.len(),
            s == buf@.subrange(from as int, to as int),
            forall|k: int| 0 <= k < i - from ==> is_ident_char(#[trigger] s[k]),
        decreases to - i,
    {
        let c = buf[i];
        assert(s[i - from] == c);
        if !(('a' <= c && c <= 'z') || ('A' <= c && c <= 'Z') || c == '_' || ('0' <= c && c
            <= '9')) {
            return false;
        }
        i += 1;
    }
    true
}

/// Decides whether `buf[from..to]` spells `word`.
pub(crate) fn spells(buf: &[char], from: usize, to: usize, word: &str) -> (b: bool)
    requires
        from <= to <= buf@.len(),
    ensures
        b == (buf@.subrange(from as int, to as int) == word@),
{
    let ghost s = buf@.subrange(from as int, to as int);
    let n = word.unicode_len();
    if to - from != n {
        return false;
    }
    let mut i: usize = 0;
    while i < n
        invariant
            from <= to <= buf@.len(),
            n == word@.len(),
            to - from == n,
            i <= n,
            s == buf@.subrange(from as int, to as int),
            forall|k: int| 0 <= k < i ==> s[k] == word@[k],
        decreases n - i,
    {
        let c = word.get_char(i);
        assert(s[i as int] == buf@[from + i]);
        if buf[from + i] != c {
            return false;
        }
        i += 1;
    }
    assert(s =~= word@);
    true
}

} // verus!
