//! Text as the rest of the library reads and writes it.
//!
//! A `&str` or `String` is modelled by the sequence of its characters.

use vstd::prelude::*;
use vstd::string::*;

verus! {

/// Appends one character: what `String::push` documents.
pub assume_specification[ String::push ](s: &mut String, c: char)
    ensures
        final(s)@ == old(s)@.push(c),
;

/// The lowercase form of a text, by Unicode's own tables.
pub uninterp spec fn lowercase(s: Seq<char>) -> Seq<char>;

/// Whether every character of `s` is ASCII.
pub open spec fn all_ascii(s: Seq<char>) -> bool {
    forall|i: int| 0 <= i < s.len() ==> (s[i] as u32) < 128
}

/// The lowercase form of one ASCII character; any other is left alone.
pub open spec fn ascii_lower(c: char) -> char {
    if 'A' <= c && c <= 'Z' {
        (c as u32 + 32) as char
    } else {
        c
    }
}

/// `s` with its ASCII capitals made small.
pub open spec fn ascii_lowercase(s: Seq<char>) -> Seq<char> {
    s.map_values(|c: char| ascii_lower(c))
}

/// The capital of one ASCII character; any other is left alone.
pub open spec fn ascii_upper(c: char) -> char {
    if 'a' <= c && c <= 'z' {
        (c as u32 - 32) as char
    } else {
        c
    }
}

/// `s` with its small ASCII letters made capitals.
pub open spec fn ascii_uppercase(s: Seq<char>) -> Seq<char> {
    s.map_values(|c: char| ascii_upper(c))
}

/// Lowers `s` with `str::to_lowercase`, which goes by Unicode's tables.
///
/// The result is a function of the text alone. On ASCII text it maps `A` to `Z`
/// onto `a` to `z` and leaves the rest, character by character; of other text
/// nothing more is said than that the result has a name.
#[verifier::external_body]
pub(crate) fn to_lowercase(s: &str) -> (r: String)
    ensures
        r@ == lowercase(s@),
        all_ascii(s@) ==> r@ == ascii_lowercase(s@),
{
    s.to_lowercase()
}

/// Whether `c` is white space: Unicode's `White_Space` property.
pub open spec fn is_space(c: char) -> bool {
    ||| 0x09 <= c as u32 <= 0x0d
    ||| c as u32 == 0x20
    ||| c as u32 == 0x85
    ||| c as u32 == 0xa0
    ||| c as u32 == 0x1680
    ||| 0x2000 <= c as u32 <= 0x200a
    ||| c as u32 == 0x2028
    ||| c as u32 == 0x2029
    ||| c as u32 == 0x202f
    ||| c as u32 == 0x205f
    ||| c as u32 == 0x3000
}

/// Tests for white space.
pub fn is_whitespace(c: char) -> (r: bool)
    ensures
        r == is_space(c),
{
    let n: u32 = c as u32;
    (0x09 <= n && n <= 0x0d) || n == 0x20 || n == 0x85 || n == 0xa0 || n == 0x1680 || (0x2000 <= n
        && n <= 0x200a) || n == 0x2028 || n == 0x2029 || n == 0x202f || n == 0x205f || n == 0x3000
}

/// How many characters at the front of `s` are white space.
pub open spec fn leading(s: Seq<char>) -> nat
    decreases s.len(),
{
    if s.len() == 0 || !is_space(s[0]) {
        0
    } else {
        1 + leading(s.drop_first())
    }
}

/// How many characters at the back of `s` are white space.
pub open spec fn trailing(s: Seq<char>) -> nat
    decreases s.len(),
{
    if s.len() == 0 || !is_space(s.last()) {
        0
    } else {
        1 + trailing(s.drop_last())
    }
}

/// `s` without the white space at either end.
pub open spec fn trimmed(s: Seq<char>) -> Seq<char> {
    let t = s.skip(leading(s) as int);
    t.take(t.len() - trailing(t))
}

/// The front of `s` is white space exactly as far as [`leading`] says.
pub(crate) proof fn lemma_leading(s: Seq<char>, n: int)
    requires
        0 <= n <= s.len(),
        forall|i: int| 0 <= i < n ==> is_space(s[i]),
        n < s.len() ==> !is_space(s[n]),
    ensures
        leading(s) == n,
    decreases n,
{
    if n > 0 {
        let t = s.drop_first();
        assert forall|i: int| 0 <= i < n - 1 implies is_space(t[i]) by {
            assert(t[i] == s[i + 1]);
        }
        lemma_leading(t, n - 1);
    }
}

/// The back of `s` is white space exactly as far as [`trailing`] says.
pub(crate) proof fn lemma_trailing(s: Seq<char>, n: int)
    requires
        0 <= n <= s.len(),
        forall|i: int| s.len() - n <= i < s.len() ==> is_space(s[i]),
        n < s.len() ==> !is_space(s[s.len() - n - 1]),
    ensures
        trailing(s) == n,
    decreases n,
{
    if n > 0 {
        lemma_trailing(s.drop_last(), n - 1);
    }
}

/// No more characters lead a text than it has.
pub(crate) proof fn lemma_leading_fits(s: Seq<char>)
    ensures
        leading(s) <= s.len(),
    decreases s.len(),
{
    if s.len() > 0 && is_space(s[0]) {
        lemma_leading_fits(s.drop_first());
    }
}

/// No more characters trail a text than it has.
pub(crate) proof fn lemma_trailing_fits(s: Seq<char>)
    ensures
        trailing(s) <= s.len(),
    decreases s.len(),
{
    if s.len() > 0 && is_space(s.last()) {
        lemma_trailing_fits(s.drop_last());
    }
}

/// Text that neither starts nor ends in white space is its own trimmed form.
pub(crate) proof fn lemma_trimmed_same(s: Seq<char>)
    requires
        s.len() > 0 ==> !is_space(s[0]) && !is_space(s.last()),
    ensures
        trimmed(s) == s,
{
    assert(s.skip(0) =~= s);
    assert(s.take(s.len() as int) =~= s);
}

/// White space put around a text that has none at its ends is trimmed away.
pub(crate) proof fn lemma_trimmed_around(a: Seq<char>, s: Seq<char>, b: Seq<char>)
    requires
        s.len() > 0,
        !is_space(s[0]),
        !is_space(s.last()),
        forall|i: int| 0 <= i < a.len() ==> is_space(a[i]),
        forall|i: int| 0 <= i < b.len() ==> is_space(b[i]),
    ensures
        trimmed(a + s + b) == s,
{
    let w = a + s + b;
    assert forall|i: int| 0 <= i < a.len() implies is_space(w[i]) by {
        assert(w[i] == a[i]);
    }
    lemma_leading(w, a.len() as int);
    let t = w.skip(a.len() as int);
    assert(t =~= s + b);
    assert forall|i: int| t.len() - b.len() <= i < t.len() implies is_space(t[i]) by {
        assert(t[i] == b[i - s.len()]);
    }
    assert(t[t.len() - b.len() - 1] == s.last());
    lemma_trailing(t, b.len() as int);
    assert(t.take(t.len() - b.len()) =~= s);
}

/// Cuts the white space off both ends of `s`.
pub fn trim<'a>(s: &'a str) -> (r: &'a str)
    ensures
        r@ == trimmed(s@),
{
    let len: usize = s.unicode_len();
    let mut from: usize = 0;
    while from < len && is_whitespace(s.get_char(from))
        invariant
            len == s@.len(),
            from <= len,
            forall|i: int| 0 <= i < from ==> is_space(s@[i]),
        ensures
            from <= len,
            forall|i: int| 0 <= i < from ==> is_space(s@[i]),
            from < len ==> !is_space(s@[from as int]),
        decreases len - from,
    {
        from = from + 1;
    }
    proof {
        lemma_leading(s@, from as int);
    }
    let ghost t = s@.skip(from as int);
    let mut to: usize = len;
    while to > from && is_whitespace(s.get_char(to - 1))
        invariant
            len == s@.len(),
            from <= to <= len,
            t == s@.skip(from as int),
            forall|i: int| to <= i < len ==> is_space(s@[i]),
        ensures
            from <= to <= len,
            forall|i: int| to <= i < len ==> is_space(s@[i]),
            to > from ==> !is_space(s@[to - 1]),
        decreases to,
    {
        to = to - 1;
    }
    proof {
        assert forall|i: int| t.len() - (len - to) <= i < t.len() implies is_space(t[i]) by {
            assert(t[i] == s@[i + from]);
        }
        lemma_trailing(t, len - to);
        assert(t.take(to - from) =~= s@.subrange(from as int, to as int));
    }
    s.substring_char(from, to)
}

/// How many characters of `s` stand before the first `c`; all of them when
/// there is none.
pub open spec fn before(s: Seq<char>, c: char) -> nat
    decreases s.len(),
{
    if s.len() == 0 || s[0] == c {
        0
    } else {
        1 + before(s.drop_first(), c)
    }
}

/// `s` around its first `c`, or nothing when there is none.
pub open spec fn split_at_first(s: Seq<char>, c: char) -> Option<(Seq<char>, Seq<char>)> {
    let n = before(s, c) as int;
    if n < s.len() {
        Some((s.take(n), s.skip(n + 1)))
    } else {
        None
    }
}

/// Where the first `c` stands is where [`before`] says.
pub(crate) proof fn lemma_before(s: Seq<char>, c: char, n: int)
    requires
        0 <= n <= s.len(),
        forall|i: int| 0 <= i < n ==> s[i] != c,
        n < s.len() ==> s[n] == c,
    ensures
        before(s, c) == n,
    decreases n,
{
    if n > 0 {
        let t = s.drop_first();
        assert forall|i: int| 0 <= i < n - 1 implies t[i] != c by {
            assert(t[i] == s[i + 1]);
        }
        lemma_before(t, c, n - 1);
    }
}

/// Two texts joined by a character that the first one lacks come apart again.
pub(crate) proof fn lemma_split_joined(a: Seq<char>, c: char, b: Seq<char>)
    requires
        forall|i: int| 0 <= i < a.len() ==> a[i] != c,
    ensures
        split_at_first(a + seq![c] + b, c) == Some((a, b)),
{
    let s = a + seq![c] + b;
    lemma_before(s, c, a.len() as int);
    assert(s.take(a.len() as int) =~= a);
    assert(s.skip(a.len() as int + 1) =~= b);
}

/// Splits `s` at its first `c`, which belongs to neither half.
pub fn split_once<'a>(s: &'a str, c: char) -> (r: Option<(&'a str, &'a str)>)
    ensures
        match r {
            Some((a, b)) => split_at_first(s@, c) == Some((a@, b@)),
            None => split_at_first(s@, c) is None,
        },
{
    let len: usize = s.unicode_len();
    let mut at: usize = 0;
    while at < len && s.get_char(at) != c
        invariant
            len == s@.len(),
            at <= len,
            forall|i: int| 0 <= i < at ==> s@[i] != c,
        ensures
            at <= len,
            forall|i: int| 0 <= i < at ==> s@[i] != c,
            at < len ==> s@[at as int] == c,
        decreases len - at,
    {
        at = at + 1;
    }
    proof {
        lemma_before(s@, c, at as int);
        if at < len {
            assert(s@.subrange(0, at as int) =~= s@.take(at as int));
            assert(s@.subrange(at + 1, len as int) =~= s@.skip(at + 1));
        }
    }
    if at < len {
        Some((s.substring_char(0, at), s.substring_char(at + 1, len)))
    } else {
        None
    }
}

/// How many characters of `s` stand before the first `pattern`; all of them when
/// there is none.
pub open spec fn before_text(s: Seq<char>, pattern: Seq<char>) -> nat
    decreases s.len(),
{
    if s.len() == 0 || has_prefix(s, pattern) {
        0
    } else {
        1 + before_text(s.drop_first(), pattern)
    }
}

/// `s` around its first `pattern`, or nothing when there is none.
pub open spec fn split_at_text(s: Seq<char>, pattern: Seq<char>) -> Option<(Seq<char>, Seq<char>)> {
    let n = before_text(s, pattern) as int;
    if n < s.len() {
        Some((s.take(n), s.skip(n + pattern.len())))
    } else {
        None
    }
}

/// Where the first `pattern` stands is where [`before_text`] says.
proof fn lemma_before_text(s: Seq<char>, pattern: Seq<char>, n: int)
    requires
        0 <= n <= s.len(),
        forall|i: int| 0 <= i < n ==> !has_prefix(#[trigger] s.skip(i), pattern),
        n < s.len() ==> has_prefix(s.skip(n), pattern),
    ensures
        before_text(s, pattern) == n,
    decreases n,
{
    if n > 0 {
        let t = s.drop_first();
        assert(s.skip(0) =~= s);
        assert forall|i: int| 0 <= i < n - 1 implies !has_prefix(#[trigger] t.skip(i), pattern) by {
            assert(t.skip(i) =~= s.skip(i + 1));
        }
        assert(t.skip(n - 1) =~= s.skip(n));
        lemma_before_text(t, pattern, n - 1);
    } else {
        assert(s.skip(0) =~= s);
    }
}

/// Splits `s` at its first `pattern`, which belongs to neither half.
pub fn split_once_at<'a>(s: &'a str, pattern: &str) -> (r: Option<(&'a str, &'a str)>)
    requires
        pattern@.len() > 0,
    ensures
        match r {
            Some((a, b)) => split_at_text(s@, pattern@) == Some((a@, b@)),
            None => split_at_text(s@, pattern@) is None,
        },
{
    let len: usize = s.unicode_len();
    let take: usize = pattern.unicode_len();
    let mut at: usize = 0;
    while at < len
        invariant
            len == s@.len(),
            take == pattern@.len(),
            at <= len,
            forall|i: int| 0 <= i < at ==> !has_prefix(#[trigger] s@.skip(i), pattern@),
        decreases len - at,
    {
        let rest = s.substring_char(at, len);
        proof {
            assert(s@.subrange(at as int, len as int) =~= s@.skip(at as int));
        }
        match strip_prefix(rest, pattern) {
            Some(after) => {
                proof {
                    lemma_before_text(s@, pattern@, at as int);
                    assert(s@.subrange(0, at as int) =~= s@.take(at as int));
                    assert(s@.skip(at as int).skip(take as int) =~= s@.skip(at + take));
                }
                return Some((s.substring_char(0, at), after));
            },
            None => {},
        }
        at = at + 1;
    }
    proof {
        lemma_before_text(s@, pattern@, len as int);
    }
    None
}

/// What stands after the last `c` of `s`, or all of it when there is none.
pub open spec fn after_last(s: Seq<char>, c: char) -> Seq<char>
    decreases s.len(),
{
    if s.len() == 0 || s.last() == c {
        Seq::empty()
    } else {
        after_last(s.drop_last(), c).push(s.last())
    }
}

/// The end of `s` from `n` on is what stands after the last `c`, if it holds no
/// `c` and either one stands before it or it is all of `s`.
pub(crate) proof fn lemma_after_last(s: Seq<char>, c: char, n: int)
    requires
        0 <= n <= s.len(),
        forall|i: int| n <= i < s.len() ==> s[i] != c,
        n > 0 ==> s[n - 1] == c,
    ensures
        after_last(s, c) == s.skip(n),
    decreases s.len(),
{
    if n == s.len() {
        assert(s.skip(n) =~= Seq::empty());
    } else {
        lemma_after_last(s.drop_last(), c, n);
        assert(s.drop_last().skip(n).push(s.last()) =~= s.skip(n));
    }
}

/// Whether `s` starts with `prefix`.
pub open spec fn has_prefix(s: Seq<char>, prefix: Seq<char>) -> bool {
    prefix.len() <= s.len() && s.take(prefix.len() as int) == prefix
}

/// Takes `prefix` off the front of `s`, if it is there.
pub fn strip_prefix<'a>(s: &'a str, prefix: &str) -> (r: Option<&'a str>)
    ensures
        match r {
            Some(rest) => has_prefix(s@, prefix@) && rest@ == s@.skip(prefix@.len() as int),
            None => !has_prefix(s@, prefix@),
        },
{
    let len: usize = s.unicode_len();
    let take: usize = prefix.unicode_len();
    if take > len {
        return None;
    }
    let mut at: usize = 0;
    while at < take
        invariant
            len == s@.len(),
            take == prefix@.len(),
            at <= take <= len,
            forall|i: int| 0 <= i < at ==> s@[i] == prefix@[i],
        decreases take - at,
    {
        if s.get_char(at) != prefix.get_char(at) {
            assert(s@.take(take as int)[at as int] != prefix@[at as int]);
            return None;
        }
        at = at + 1;
    }
    assert(s@.take(take as int) =~= prefix@);
    assert(s@.subrange(take as int, len as int) =~= s@.skip(take as int));
    Some(s.substring_char(take, len))
}

/// Whether two texts are the same, character for character.
pub fn same(a: &str, b: &str) -> (r: bool)
    ensures
        r == (a@ == b@),
{
    let len: usize = a.unicode_len();
    if len != b.unicode_len() {
        return false;
    }
    let mut at: usize = 0;
    while at < len
        invariant
            len == a@.len() == b@.len(),
            at <= len,
            forall|i: int| 0 <= i < at ==> a@[i] == b@[i],
        decreases len - at,
    {
        if a.get_char(at) != b.get_char(at) {
            return false;
        }
        at = at + 1;
    }
    assert(a@ =~= b@);
    true
}

/// Whether two lists hold the same texts in the same order.
pub fn same_lists(a: &Vec<String>, b: &Vec<String>) -> (r: bool)
    ensures
        r == (views(a@) == views(b@)),
{
    if a.len() != b.len() {
        assert(views(a@).len() != views(b@).len());
        return false;
    }
    let mut at: usize = 0;
    while at < a.len()
        invariant
            a@.len() == b@.len(),
            at <= a@.len(),
            forall|i: int| 0 <= i < at ==> (#[trigger] a@[i])@ == b@[i]@,
        decreases a@.len() - at,
    {
        if !same(a[at].as_str(), b[at].as_str()) {
            assert(views(a@)[at as int] != views(b@)[at as int]);
            return false;
        }
        at = at + 1;
    }
    assert(views(a@) =~= views(b@));
    true
}

/// Makes an ASCII capital small.
pub fn lower_char(c: char) -> (r: char)
    ensures
        r == ascii_lower(c),
{
    if 'A' <= c && c <= 'Z' {
        ((c as u32 + 32) as u8) as char
    } else {
        c
    }
}

/// Whether two texts are the same up to the case of their ASCII letters.
pub fn same_ignoring_case(a: &str, b: &str) -> (r: bool)
    ensures
        r == (ascii_lowercase(a@) == ascii_lowercase(b@)),
{
    let len: usize = a.unicode_len();
    if len != b.unicode_len() {
        assert(ascii_lowercase(a@).len() != ascii_lowercase(b@).len());
        return false;
    }
    let mut at: usize = 0;
    while at < len
        invariant
            len == a@.len() == b@.len(),
            at <= len,
            forall|i: int| 0 <= i < at ==> ascii_lower(a@[i]) == ascii_lower(b@[i]),
        decreases len - at,
    {
        if lower_char(a.get_char(at)) != lower_char(b.get_char(at)) {
            assert(ascii_lowercase(a@)[at as int] != ascii_lowercase(b@)[at as int]);
            return false;
        }
        at = at + 1;
    }
    assert(ascii_lowercase(a@) =~= ascii_lowercase(b@));
    true
}

/// The character of one decimal digit.
pub open spec fn digit(d: nat) -> char {
    (48 + d) as char
}

/// `n` in decimal, without leading zeros.
pub open spec fn decimal(n: nat) -> Seq<char>
    decreases n,
{
    if n < 10 {
        seq![digit(n)]
    } else {
        decimal(n / 10).push(digit(n % 10))
    }
}

/// Writes `n` in decimal.
pub fn decimal_text(n: u64) -> (r: String)
    ensures
        r@ == decimal(n as nat),
{
    wide_decimal_text(n as u128)
}

/// Writes a number of up to 128 bits in decimal.
pub fn wide_decimal_text(n: u128) -> (r: String)
    ensures
        r@ == decimal(n as nat),
    decreases n,
{
    let mut r = if n < 10 {
        String::new()
    } else {
        wide_decimal_text(n / 10)
    };
    let last: u8 = (n % 10) as u8;
    r.push((48 + last) as char);
    assert(n < 10 ==> r@ =~= seq![digit(n as nat)]);
    r
}

/// An optional text as an optional sequence of characters.
pub open spec fn view_option(s: Option<String>) -> Option<Seq<char>> {
    match s {
        Some(s) => Some(s@),
        None => None,
    }
}

/// An optional borrowed text as a sequence of characters.
pub open spec fn view_str_option(s: Option<&str>) -> Option<Seq<char>> {
    match s {
        Some(s) => Some(s@),
        None => None,
    }
}

/// An optional text, copied.
pub fn owned_option(s: Option<&str>) -> (r: Option<String>)
    ensures
        view_option(r) == (match s {
            Some(s) => Some(s@),
            None => None,
        }),
{
    match s {
        Some(s) => Some(s.to_owned()),
        None => None,
    }
}

/// An optional text, copied out of another.
pub fn clone_option(s: &Option<String>) -> (r: Option<String>)
    ensures
        view_option(r) == view_option(*s),
{
    match s {
        Some(s) => Some(s.clone()),
        None => None,
    }
}

/// A list of texts as a sequence of sequences of characters.
pub open spec fn views(v: Seq<String>) -> Seq<Seq<char>> {
    Seq::new(v.len(), |i: int| v[i]@)
}

/// A list of texts, copied.
pub fn clone_all(v: &Vec<String>) -> (r: Vec<String>)
    ensures
        views(r@) == views(v@),
{
    let mut r: Vec<String> = Vec::new();
    let mut i: usize = 0;
    while i < v.len()
        invariant
            i <= v@.len(),
            r@.len() == i,
            forall|j: int| 0 <= j < i ==> r@[j]@ == v@[j]@,
        decreases v@.len() - i,
    {
        r.push(v[i].clone());
        i = i + 1;
    }
    assert(views(r@) =~= views(v@));
    r
}

/// Appends a line to a list.
pub fn push_line(lines: &mut Vec<String>, line: String)
    ensures
        views(final(lines)@) == views(old(lines)@).push(line@),
        final(lines)@.len() == old(lines)@.len() + 1,
{
    let ghost before = lines@;
    lines.push(line);
    assert(views(lines@) =~= views(before).push(line@));
}

/// Appends the lines of one list to another.
pub fn push_lines(lines: &mut Vec<String>, more: Vec<String>)
    ensures
        views(final(lines)@) == views(old(lines)@) + views(more@),
{
    let ghost before = lines@;
    let mut more = more;
    let ghost added = more@;
    lines.append(&mut more);
    assert(lines@ =~= before + added);
    assert(views(lines@) =~= views(before) + views(added));
}

/// Two texts joined.
pub fn join2(a: &str, b: &str) -> (r: String)
    ensures
        r@ == a@ + b@,
{
    let mut r = a.to_owned();
    r.append(b);
    r
}

/// Three texts joined.
pub fn join3(a: &str, b: &str, c: &str) -> (r: String)
    ensures
        r@ == a@ + b@ + c@,
{
    let mut r = a.to_owned();
    r.append(b);
    r.append(c);
    r
}

/// Four texts joined.
pub fn join4(a: &str, b: &str, c: &str, d: &str) -> (r: String)
    ensures
        r@ == a@ + b@ + c@ + d@,
{
    let mut r = a.to_owned();
    r.append(b);
    r.append(c);
    r.append(d);
    r
}

/// Five texts joined.
pub fn join5(a: &str, b: &str, c: &str, d: &str, e: &str) -> (r: String)
    ensures
        r@ == a@ + b@ + c@ + d@ + e@,
{
    let mut r = a.to_owned();
    r.append(b);
    r.append(c);
    r.append(d);
    r.append(e);
    r
}

/// Texts in a row with `between` between each two.
pub open spec fn joined(list: Seq<Seq<char>>, between: Seq<char>) -> Seq<char>
    decreases list.len(),
{
    if list.len() == 0 {
        Seq::empty()
    } else if list.len() == 1 {
        list[0]
    } else {
        joined(list.drop_last(), between) + between + list.last()
    }
}

/// Joins a list of texts with `between` between each two.
pub fn join_all(list: &Vec<String>, between: &str) -> (r: String)
    ensures
        r@ == joined(views(list@), between@),
{
    let ghost all = views(list@);
    if list.len() == 0 {
        return String::new();
    }
    let mut r = list[0].clone();
    let mut i: usize = 1;
    proof {
        assert(all.take(1)[0] == all[0]);
    }
    while i < list.len()
        invariant
            all == views(list@),
            1 <= i <= list@.len(),
            r@ == joined(all.take(i as int), between@),
        decreases list@.len() - i,
    {
        proof {
            assert(all.take(i + 1).drop_last() =~= all.take(i as int));
            assert(all.take(i + 1).last() == all[i as int]);
        }
        r.append(between);
        r.append(list[i].as_str());
        i = i + 1;
    }
    proof {
        assert(all.take(i as int) =~= all);
    }
    r
}

/// Whether `c` is a decimal digit.
pub open spec fn is_digit(c: char) -> bool {
    '0' <= c && c <= '9'
}

/// The number that a run of decimal digits stands for.
pub open spec fn digits_value(s: Seq<char>) -> nat
    decreases s.len(),
{
    if s.len() == 0 {
        0
    } else {
        digits_value(s.drop_last()) * 10 + (s.last() as u32 - 48) as nat
    }
}

/// A number without the plus sign that it may carry.
pub open spec fn unsigned_digits(s: Seq<char>) -> Seq<char> {
    if s.len() > 0 && s[0] == '+' {
        s.drop_first()
    } else {
        s
    }
}

/// The number up to `max` that a text is: at least one decimal digit, nothing
/// but digits, and an optional plus sign in front.
pub open spec fn number_up_to(s: Seq<char>, max: nat) -> Option<nat> {
    let d = unsigned_digits(s);
    if d.len() > 0 && (forall|i: int| 0 <= i < d.len() ==> is_digit(d[i])) && digits_value(d)
        <= max {
        Some(digits_value(d))
    } else {
        None
    }
}

/// The 32-bit number that a text is.
pub open spec fn number(s: Seq<char>) -> Option<nat> {
    number_up_to(s, u32::MAX as nat)
}

/// A longer run of digits is no smaller a number.
proof fn lemma_digits_grow(s: Seq<char>, n: int)
    requires
        0 <= n <= s.len(),
    ensures
        digits_value(s.take(n)) <= digits_value(s),
    decreases s.len() - n,
{
    if n < s.len() {
        lemma_digits_grow(s, n + 1);
        assert(s.take(n + 1).drop_last() =~= s.take(n));
    } else {
        assert(s.take(n) =~= s);
    }
}

/// Reads a 32-bit number: decimal digits with an optional plus sign.
pub fn parse_u32(s: &str) -> (r: Option<u32>)
    ensures
        match r {
            Some(n) => number(s@) == Some(n as nat),
            None => number(s@) is None,
        },
{
    let len: usize = s.unicode_len();
    let start: usize = if len > 0 && s.get_char(0) == '+' {
        1
    } else {
        0
    };
    let ghost d = unsigned_digits(s@);
    proof {
        assert(d =~= s@.skip(start as int));
    }
    if start == len {
        return None;
    }
    let mut at: usize = start;
    let mut value: u64 = 0;
    while at < len
        invariant
            len == s@.len(),
            start <= at <= len,
            start < len,
            d == unsigned_digits(s@),
            d == s@.skip(start as int),
            forall|i: int| 0 <= i < at - start ==> is_digit(d[i]),
            value == digits_value(d.take(at - start)),
            value <= u32::MAX,
        decreases len - at,
    {
        let c = s.get_char(at);
        assert(d[at - start] == c);
        if !('0' <= c && c <= '9') {
            assert(!is_digit(d[at - start]));
            return None;
        }
        let digit: u64 = (c as u32 - 48) as u64;
        proof {
            assert(d.take(at - start + 1).drop_last() =~= d.take(at - start));
        }
        value = value * 10 + digit;
        at = at + 1;
        if value > u32::MAX as u64 {
            proof {
                lemma_digits_grow(d, at - start);
            }
            return None;
        }
    }
    proof {
        assert(d.take(len - start) =~= d);
    }
    Some(value as u32)
}

/// Trimming takes away nothing but white space, and leaves none at either end: tabs,
/// line ends and blanks are white space, and no letter, digit or mark of ASCII is.
pub proof fn trimming_takes_only_space(s: Seq<char>)
    ensures
        exists|a: Seq<char>, b: Seq<char>|
            {
                &&& s == #[trigger] (a + trimmed(s) + b)
                &&& forall|i: int| 0 <= i < a.len() ==> is_space(a[i])
                &&& forall|i: int| 0 <= i < b.len() ==> is_space(b[i])
            },
        trimmed(s).len() > 0 ==> !is_space(trimmed(s)[0]) && !is_space(trimmed(s).last()),
        is_space(' ') && is_space('\t') && is_space('\n') && is_space('\r'),
        forall|c: char| 0x21 <= c as u32 <= 0x7e ==> !is_space(c),
{
    lemma_leading_ends(s);
    let n = leading(s) as int;
    let t = s.skip(n);
    lemma_trailing_ends(t);
    let m = t.len() - trailing(t);
    let a = s.take(n);
    let b = t.skip(m);
    assert(s =~= a + trimmed(s) + b);
    assert forall|i: int| 0 <= i < b.len() implies is_space(b[i]) by {
        assert(b[i] == t[m + i]);
    }
    if trimmed(s).len() > 0 {
        assert(trimmed(s)[0] == s[n]);
        assert(trimmed(s).last() == t[m - 1]);
    }
}

/// The front of a text is white space as far as [`leading`] says, and no further.
proof fn lemma_leading_ends(s: Seq<char>)
    ensures
        leading(s) <= s.len(),
        forall|i: int| 0 <= i < leading(s) ==> is_space(s[i]),
        leading(s) < s.len() ==> !is_space(s[leading(s) as int]),
    decreases s.len(),
{
    if s.len() > 0 && is_space(s[0]) {
        let rest = s.drop_first();
        lemma_leading_ends(rest);
        assert forall|i: int| 0 <= i < leading(s) implies is_space(s[i]) by {
            if i > 0 {
                assert(s[i] == rest[i - 1]);
            }
        }
        if leading(s) < s.len() {
            assert(s[leading(s) as int] == rest[leading(rest) as int]);
        }
    }
}

/// The back of a text is white space as far as [`trailing`] says, and no further.
proof fn lemma_trailing_ends(s: Seq<char>)
    ensures
        trailing(s) <= s.len(),
        forall|i: int| s.len() - trailing(s) <= i < s.len() ==> is_space(s[i]),
        trailing(s) < s.len() ==> !is_space(s[s.len() - trailing(s) - 1]),
    decreases s.len(),
{
    if s.len() > 0 && is_space(s.last()) {
        let front = s.drop_last();
        lemma_trailing_ends(front);
        assert forall|i: int| s.len() - trailing(s) <= i < s.len() implies is_space(s[i]) by {
            if i < front.len() {
                assert(s[i] == front[i]);
            }
        }
    }
}

/// What a text is split into are the parts around the first `c`; a text that is not
/// split holds no `c`.
pub proof fn splits_are_at_the_first(s: Seq<char>, c: char)
    ensures
        match split_at_first(s, c) {
            Some((a, b)) => {
                &&& s == a + seq![c] + b
                &&& forall|i: int| 0 <= i < a.len() ==> a[i] != c
            },
            None => forall|i: int| 0 <= i < s.len() ==> s[i] != c,
        },
{
    lemma_before_ends(s, c);
    if split_at_first(s, c) is Some {
        let (a, b) = split_at_first(s, c)->0;
        assert(s =~= a + seq![c] + b);
    }
}

/// No `c` stands as far as [`before`] counts, and one stands there.
pub(crate) proof fn lemma_before_ends(s: Seq<char>, c: char)
    ensures
        before(s, c) <= s.len(),
        forall|i: int| 0 <= i < before(s, c) ==> s[i] != c,
        before(s, c) < s.len() ==> s[before(s, c) as int] == c,
    decreases s.len(),
{
    if s.len() > 0 && s[0] != c {
        let rest = s.drop_first();
        lemma_before_ends(rest, c);
        assert forall|i: int| 0 <= i < before(s, c) implies s[i] != c by {
            if i > 0 {
                assert(s[i] == rest[i - 1]);
            }
        }
        if before(s, c) < s.len() {
            assert(s[before(s, c) as int] == rest[before(rest, c) as int]);
        }
    }
}

/// What a text is split into by a longer mark are the parts around it, and the mark
/// stands nowhere earlier; a text that is not split holds it nowhere.
pub proof fn splits_are_at_the_first_text(s: Seq<char>, pattern: Seq<char>)
    requires
        pattern.len() > 0,
    ensures
        match split_at_text(s, pattern) {
            Some((a, b)) => {
                &&& s == a + pattern + b
                &&& forall|i: int| 0 <= i < a.len() ==> !has_prefix(#[trigger] s.skip(i), pattern)
            },
            None => forall|i: int|
                0 <= i < s.len() ==> !has_prefix(#[trigger] s.skip(i), pattern),
        },
        has_prefix(s, pattern) <==> exists|rest: Seq<char>| s == #[trigger] (pattern + rest),
{
    lemma_before_text_ends(s, pattern);
    if split_at_text(s, pattern) is Some {
        let n = before_text(s, pattern) as int;
        let (a, b) = split_at_text(s, pattern)->0;
        let rest = s.skip(n);
        assert(has_prefix(rest, pattern));
        assert(rest =~= pattern + rest.skip(pattern.len() as int));
        assert(b =~= rest.skip(pattern.len() as int));
        assert(s =~= a + rest);
        assert(a + rest =~= a + pattern + b);
    }
    if has_prefix(s, pattern) {
        assert(s =~= pattern + s.skip(pattern.len() as int));
    }
    if exists|rest: Seq<char>| s == #[trigger] (pattern + rest) {
        let rest = choose|rest: Seq<char>| s == #[trigger] (pattern + rest);
        assert(s.take(pattern.len() as int) =~= pattern);
    }
}

/// The mark stands nowhere before where [`before_text`] counts to, and stands there.
proof fn lemma_before_text_ends(s: Seq<char>, pattern: Seq<char>)
    ensures
        before_text(s, pattern) <= s.len(),
        forall|i: int|
            0 <= i < before_text(s, pattern) ==> !has_prefix(#[trigger] s.skip(i), pattern),
        before_text(s, pattern) < s.len() ==> has_prefix(
            s.skip(before_text(s, pattern) as int),
            pattern,
        ),
    decreases s.len(),
{
    assert(s.skip(0) =~= s);
    if s.len() > 0 && !has_prefix(s, pattern) {
        let rest = s.drop_first();
        lemma_before_text_ends(rest, pattern);
        assert forall|i: int| 0 <= i < before_text(s, pattern) implies !has_prefix(
            #[trigger] s.skip(i),
            pattern,
        ) by {
            if i > 0 {
                assert(s.skip(i) =~= rest.skip(i - 1));
            }
        }
        let n = before_text(rest, pattern) as int;
        assert(s.skip(n + 1) =~= rest.skip(n));
    }
}

/// What stands after the last `c` is the end of the text, holds no `c`, and is all of
/// it or follows one.
pub proof fn the_end_is_after_the_last(s: Seq<char>, c: char)
    ensures
        ({
            let end = after_last(s, c);
            let n = s.len() - end.len();
            &&& end.len() <= s.len()
            &&& end == s.skip(n)
            &&& forall|i: int| 0 <= i < end.len() ==> end[i] != c
            &&& n > 0 ==> s[n - 1] == c
        }),
    decreases s.len(),
{
    if s.len() > 0 && s.last() != c {
        let front = s.drop_last();
        the_end_is_after_the_last(front, c);
        let n = front.len() - after_last(front, c).len();
        assert(after_last(s, c) =~= s.skip(n));
    } else {
        assert(after_last(s, c) =~= s.skip(s.len() as int));
    }
}

/// A number below ten is written as its digit, and a further digit goes behind what
/// the number before it was written as.
pub proof fn digits_go_behind(n: nat, d: nat)
    requires
        d < 10,
    ensures
        decimal(d) == seq![(48 + d) as char],
        n > 0 ==> decimal(10 * n + d) == decimal(n).push((48 + d) as char),
{
    if n > 0 {
        assert((10 * n + d) / 10 == n);
        assert((10 * n + d) % 10 == d);
    }
}

/// What a number is written as are digits that stand for it.
pub(crate) proof fn lemma_decimal(n: nat)
    ensures
        decimal(n).len() > 0,
        forall|i: int| 0 <= i < decimal(n).len() ==> '0' <= #[trigger] decimal(n)[i] <= '9',
        digits_value(decimal(n)) == n,
    decreases n,
{
    if n < 10 {
        assert(decimal(n).drop_last() =~= Seq::empty());
        assert(digits_value(decimal(n).drop_last()) == 0);
        assert((digit(n) as u32 - 48) as nat == n);
    } else {
        lemma_decimal(n / 10);
        let front = decimal(n / 10);
        assert(decimal(n).drop_last() =~= front);
        assert((digit(n % 10) as u32 - 48) as nat == n % 10);
        assert forall|i: int| 0 <= i < decimal(n).len() implies '0' <= #[trigger] decimal(n)[i]
            <= '9' by {
            if i < front.len() {
                assert(decimal(n)[i] == front[i]);
            }
        }
    }
}

/// A number reads back from its decimal form, with or without a plus sign before it,
/// wherever it is not above the limit, and is refused where it is.
pub proof fn numbers_read_back(n: nat, max: nat)
    ensures
        n <= max ==> number_up_to(decimal(n), max) == Some(n),
        n <= max ==> number_up_to(seq!['+'] + decimal(n), max) == Some(n),
        n > max ==> number_up_to(decimal(n), max) is None,
        number(decimal(n)) == (if n <= u32::MAX {
            Some(n)
        } else {
            None
        }),
{
    lemma_decimal(n);
    assert(decimal(n)[0] != '+');
    assert((seq!['+'] + decimal(n)).drop_first() =~= decimal(n));
}

/// Nothing but digits behind at most one plus sign is a number: not an empty text, and
/// not one with any other character in it.
pub proof fn numbers_are_digits(s: Seq<char>, max: nat)
    ensures
        number_up_to(s, max) matches Some(n) ==> {
            &&& n <= max
            &&& s.len() > 0
            &&& forall|i: int|
                0 <= i < s.len() ==> '0' <= #[trigger] s[i] <= '9' || i == 0 && s[i] == '+'
                    && s.len() > 1
        },
{
    if number_up_to(s, max) is Some {
        let d = unsigned_digits(s);
        assert forall|i: int| 0 <= i < s.len() implies '0' <= #[trigger] s[i] <= '9' || i == 0
            && s[i] == '+' && s.len() > 1 by {
            if s[0] == '+' {
                if i > 0 {
                    assert(d[i - 1] == s[i]);
                }
            } else {
                assert(d[i] == s[i]);
            }
        }
    }
}

/// A list of no texts joins to nothing and a list of one to that one; one more text
/// goes behind the rest and the mark between them.
pub proof fn joined_texts_stand_in_a_row(list: Seq<Seq<char>>, more: Seq<char>, between: Seq<char>)
    ensures
        joined(Seq::empty(), between) == Seq::<char>::empty(),
        joined(seq![more], between) == more,
        list.len() > 0 ==> joined(list.push(more), between) == joined(list, between) + between
            + more,
{
    assert(list.push(more).drop_last() =~= list);
}

/// Lowering and raising swap the two cases of ASCII letters and leave every other
/// character alone.
pub proof fn letter_cases_are_swapped(c: char)
    ensures
        'A' <= c <= 'Z' ==> ascii_lower(c) as u32 == c as u32 + 32 && ascii_upper(ascii_lower(c))
            == c,
        'a' <= c <= 'z' ==> ascii_upper(c) as u32 == c as u32 - 32 && ascii_lower(ascii_upper(c))
            == c,
        !('A' <= c <= 'Z') ==> ascii_lower(c) == c,
        !('a' <= c <= 'z') ==> ascii_upper(c) == c,
        forall|s: Seq<char>|
            #![trigger ascii_lowercase(s)]
            ascii_lowercase(s.push(c)) == ascii_lowercase(s).push(ascii_lower(c)),
        forall|s: Seq<char>|
            #![trigger ascii_uppercase(s)]
            ascii_uppercase(s.push(c)) == ascii_uppercase(s).push(ascii_upper(c)),
{
    assert forall|s: Seq<char>| #![trigger ascii_lowercase(s)] ascii_lowercase(s.push(c))
        == ascii_lowercase(s).push(ascii_lower(c)) by {
        assert(ascii_lowercase(s.push(c)) =~= ascii_lowercase(s).push(ascii_lower(c)));
    }
    assert forall|s: Seq<char>| #![trigger ascii_uppercase(s)] ascii_uppercase(s.push(c))
        == ascii_uppercase(s).push(ascii_upper(c)) by {
        assert(ascii_uppercase(s.push(c)) =~= ascii_uppercase(s).push(ascii_upper(c)));
    }
}

/// A text that may be missing is seen as what it is, and a list of texts one by one.
pub proof fn texts_are_seen_whole(one: Option<String>, slice: Option<&str>, many: Seq<String>)
    ensures
        one is Some <==> view_option(one) is Some,
        one matches Some(s) ==> view_option(one) == Some(s@),
        slice is Some <==> view_str_option(slice) is Some,
        slice matches Some(s) ==> view_str_option(slice) == Some(s@),
        views(many).len() == many.len(),
        forall|i: int| 0 <= i < many.len() ==> #[trigger] views(many)[i] == many[i]@,
{
}

/// A number may be written with a plus in front.
pub proof fn numbers_take_a_plus(s: Seq<char>, max: nat)
    requires
        s.len() > 0,
        s[0] != '+',
    ensures
        number_up_to(seq!['+'] + s, max) == number_up_to(s, max),
{
    let signed = seq!['+'] + s;
    assert(signed.drop_first() =~= s);
    assert(signed.skip(1) =~= s);
    assert(signed[0] == '+');
}

} // verus!
