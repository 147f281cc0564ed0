//! Text primitives: trimming, splitting, searching and decimal numbers over
//! the characters of a string.

use vstd::prelude::*;
use vstd::string::*;

verus! {

// ---------------------------------------------------------------------------
// Characters
// ---------------------------------------------------------------------------

/// The characters with the Unicode `White_Space` property.
pub open spec fn is_white(c: char) -> bool {
    let u = c as u32;
    ||| 0x09 <= u <= 0x0d
    ||| u == 0x20
    ||| u == 0x85
    ||| u == 0xa0
    ||| u == 0x1680
    ||| 0x2000 <= u <= 0x200a
    ||| u == 0x2028
    ||| u == 0x2029
    ||| u == 0x202f
    ||| u == 0x205f
    ||| u == 0x3000
}

/// Whether `c` is Unicode white space.
pub fn is_whitespace(c: char) -> (r: bool)
    ensures
        r == is_white(c),
{
    let u: u32 = c as u32;
    (0x09 <= u && u <= 0x0d) || u == 0x20 || u == 0x85 || u == 0xa0 || u == 0x1680 || (0x2000 <= u
        && u <= 0x200a) || u == 0x2028 || u == 0x2029 || u == 0x202f || u == 0x205f || u == 0x3000
}

/// Code point of `c` with the ASCII capitals folded onto the small letters.
pub open spec fn folded(c: char) -> u32 {
    let u = c as u32;
    if 0x41 <= u <= 0x5a {
        (u + 0x20) as u32
    } else {
        u
    }
}

fn fold(c: char) -> (r: u32)
    ensures
        r == folded(c),
{
    let u: u32 = c as u32;
    if 0x41 <= u && u <= 0x5a {
        u + 0x20
    } else {
        u
    }
}

/// An ASCII decimal digit.
pub open spec fn is_digit(c: char) -> bool {
    0x30 <= c as u32 <= 0x39
}

/// Value of an ASCII decimal digit.
pub open spec fn digit_value(c: char) -> nat {
    (c as u32 - 0x30) as nat
}

// ---------------------------------------------------------------------------
// Views and copies
// ---------------------------------------------------------------------------

/// The character sequences that a sequence of strings holds.
pub open spec fn views(v: Seq<String>) -> Seq<Seq<char>> {
    v.map_values(|s: String| s@)
}

/// The characters of an optional string.
pub open spec fn opt_view(o: Option<String>) -> Option<Seq<char>> {
    match o {
        Some(s) => Some(s@),
        None => None,
    }
}

/// The characters of an optional string slice.
pub open spec fn opt_str_view(o: Option<&str>) -> Option<Seq<char>> {
    match o {
        Some(s) => Some(s@),
        None => None,
    }
}

/// Copy of an optional string.
pub fn clone_opt(o: &Option<String>) -> (r: Option<String>)
    ensures
        opt_view(r) == opt_view(*o),
{
    match o {
        Some(s) => Some(s.clone()),
        None => None,
    }
}

/// Owned copy of an optional string slice.
pub fn own_opt(o: Option<&str>) -> (r: Option<String>)
    ensures
        opt_view(r) == opt_str_view(o),
{
    match o {
        Some(s) => Some(s.to_owned()),
        None => None,
    }
}

/// Borrowed form of an optional string.
pub fn borrow_opt(o: &Option<String>) -> (r: Option<&str>)
    ensures
        opt_str_view(r) == opt_view(*o),
{
    match o {
        Some(s) => Some(s.as_str()),
        None => None,
    }
}

/// Copy of a list of strings.
pub fn clone_strings(v: &Vec<String>) -> (r: Vec<String>)
    ensures
        views(r@) == views(v@),
{
    let mut out: Vec<String> = Vec::new();
    let mut i: usize = 0;
    while i < v.len()
        invariant
            i <= v.len(),
            out.len() == i,
            forall|k: int| 0 <= k < i ==> out@[k]@ == v@[k]@,
        decreases v.len() - i,
    {
        out.push(v[i].clone());
        i = i + 1;
    }
    assert(views(out@) =~= views(v@));
    out
}

/// Whether two strings hold the same characters.
pub fn str_eq(a: &str, b: &str) -> (r: bool)
    ensures
        r == (a@ == b@),
{
    a.to_owned() == b.to_owned()
}

/// Whether one of the strings in `v` holds the characters of `s`.
pub fn contains_string(v: &Vec<String>, s: &str) -> (r: bool)
    ensures
        r == views(v@).contains(s@),
{
    let mut i: usize = 0;
    while i < v.len()
        invariant
            i <= v.len(),
            forall|k: int| 0 <= k < i ==> v@[k]@ != s@,
        decreases v.len() - i,
    {
        if str_eq(v[i].as_str(), s) {
            assert(views(v@)[i as int] == s@);
            return true;
        }
        i = i + 1;
    }
    assert forall|k: int| 0 <= k < views(v@).len() implies views(v@)[k] != s@ by {}
    false
}

/// The characters of `s`, indexable in constant time.
pub fn to_chars(s: &str) -> (r: Vec<char>)
    ensures
        r@ == s@,
{
    let mut out: Vec<char> = Vec::new();
    for c in it: s.chars()
        invariant
            out@ =~= s@.take(it.index()),
            it.seq() == s@,
    {
        out.push(c);
    }
    assert(s@.take(s@.len() as int) =~= s@);
    out
}

// ---------------------------------------------------------------------------
// Concatenation
// ---------------------------------------------------------------------------

/// `a` followed by `b`.
pub fn concat2(a: &str, b: &str) -> (r: String)
    ensures
        r@ == a@ + b@,
{
    let mut s = a.to_owned();
    s.append(b);
    s
}

/// `a`, `b` and `c` in a row.
pub fn concat3(a: &str, b: &str, c: &str) -> (r: String)
    ensures
        r@ == a@ + b@ + c@,
{
    let mut s = a.to_owned();
    s.append(b);
    s.append(c);
    s
}

/// `a`, `b`, `c` and `d` in a row.
pub fn concat4(a: &str, b: &str, c: &str, d: &str) -> (r: String)
    ensures
        r@ == a@ + b@ + c@ + d@,
{
    let mut s = a.to_owned();
    s.append(b);
    s.append(c);
    s.append(d);
    s
}

/// `a`, `b`, `c`, `d` and `e` in a row.
pub fn concat5(a: &str, b: &str, c: &str, d: &str, e: &str) -> (r: String)
    ensures
        r@ == a@ + b@ + c@ + d@ + e@,
{
    let mut s = a.to_owned();
    s.append(b);
    s.append(c);
    s.append(d);
    s.append(e);
    s
}

/// The parts of `parts` with `sep` between neighbours.
pub open spec fn joined(parts: Seq<Seq<char>>, sep: Seq<char>) -> Seq<char>
    decreases parts.len(),
{
    if parts.len() == 0 {
        Seq::empty()
    } else if parts.len() == 1 {
        parts[0]
    } else {
        joined(parts.drop_last(), sep) + sep + parts.last()
    }
}

/// The strings of `parts` with `sep` between neighbours.
pub fn join(parts: &Vec<String>, sep: &str) -> (r: String)
    ensures
        r@ == joined(views(parts@), sep@),
{
    let mut out = String::new();
    let mut i: usize = 0;
    while i < parts.len()
        invariant
            i <= parts.len(),
            out@ == joined(views(parts@).take(i as int), sep@),
        decreases parts.len() - i,
    {
        let ghost done = views(parts@).take(i as int);
        let ghost next = views(parts@).take(i as int + 1);
        assert(next.drop_last() =~= done);
        assert(next.last() == parts@[i as int]@);
        if i > 0 {
            out.append(sep);
        }
        out.append(parts[i].as_str());
        proof {
            if i == 0 {
                assert(out@ =~= parts@[0]@);
            }
        }
        i = i + 1;
    }
    assert(views(parts@).take(parts@.len() as int) =~= views(parts@));
    out
}

// ---------------------------------------------------------------------------
// Trimming
// ---------------------------------------------------------------------------

/// `s` without its leading white space.
pub open spec fn trim_start_of(s: Seq<char>) -> Seq<char>
    decreases s.len(),
{
    if s.len() > 0 && is_white(s[0]) {
        trim_start_of(s.drop_first())
    } else {
        s
    }
}

/// `s` without its trailing white space.
pub open spec fn trim_end_of(s: Seq<char>) -> Seq<char>
    decreases s.len(),
{
    if s.len() > 0 && is_white(s.last()) {
        trim_end_of(s.drop_last())
    } else {
        s
    }
}

/// `s` without white space at either end.
pub open spec fn trim_of(s: Seq<char>) -> Seq<char> {
    trim_end_of(trim_start_of(s))
}

/// Trimming takes away the ends only: what is left is a stretch of `s` that
/// neither starts nor ends with white space.
pub proof fn trim_leaves_no_outer_white(s: Seq<char>)
    ensures
        trim_of(s).len() > 0 ==> !is_white(trim_of(s)[0]) && !is_white(trim_of(s).last()),
        exists|i: int, j: int| 0 <= i <= j <= s.len() && trim_of(s) == s.subrange(i, j),
{
    let a = lemma_trim_start(s);
    let t = trim_start_of(s);
    let b = lemma_trim_end(t);
    assert(trim_of(s) == s.subrange(a, a + b)) by {
        assert(t.subrange(0, b) =~= s.subrange(a, a + b));
    }
    if b > 0 {
        assert(trim_of(s)[0] == t[0]);
    }
}

/// Trimming twice is trimming once.
pub proof fn trim_is_idempotent(s: Seq<char>)
    ensures
        trim_of(trim_of(s)) == trim_of(s),
{
    trim_leaves_no_outer_white(s);
}

proof fn lemma_trim_start(s: Seq<char>) -> (k: int)
    ensures
        0 <= k <= s.len(),
        trim_start_of(s) == s.subrange(k, s.len() as int),
        forall|i: int| 0 <= i < k ==> is_white(s[i]),
        k < s.len() ==> !is_white(s[k]),
    decreases s.len(),
{
    if s.len() > 0 && is_white(s[0]) {
        let j = lemma_trim_start(s.drop_first());
        assert(s.drop_first().subrange(j, s.len() - 1) =~= s.subrange(j + 1, s.len() as int));
        assert forall|i: int| 0 <= i < j + 1 implies is_white(s[i]) by {
            if i > 0 {
                assert(s.drop_first()[i - 1] == s[i]);
            }
        }
        if j + 1 < s.len() {
            assert(s.drop_first()[j] == s[j + 1]);
        }
        j + 1
    } else {
        assert(s.subrange(0, s.len() as int) =~= s);
        0
    }
}

proof fn lemma_trim_end(s: Seq<char>) -> (k: int)
    ensures
        0 <= k <= s.len(),
        trim_end_of(s) == s.subrange(0, k),
        forall|i: int| k <= i < s.len() ==> is_white(s[i]),
        k > 0 ==> !is_white(s[k - 1]),
    decreases s.len(),
{
    if s.len() > 0 && is_white(s.last()) {
        let k = lemma_trim_end(s.drop_last());
        assert(s.drop_last().subrange(0, k) =~= s.subrange(0, k));
        assert forall|i: int| k <= i < s.len() implies is_white(s[i]) by {
            if i < s.len() - 1 {
                assert(s.drop_last()[i] == s[i]);
            }
        }
        k
    } else {
        assert(s.subrange(0, s.len() as int) =~= s);
        s.len() as int
    }
}

/// `s` without leading white space.
pub fn trim_start(s: &str) -> (r: &str)
    ensures
        r@ == trim_start_of(s@),
{
    let cs = to_chars(s);
    let n: usize = cs.len();
    let mut i: usize = 0;
    assert(s@.subrange(0, n as int) =~= s@);
    while i < n && is_whitespace(cs[i])
        invariant
            i <= n,
            n == cs.len(),
            cs@ == s@,
            trim_start_of(s@) == trim_start_of(s@.subrange(i as int, n as int)),
        decreases n - i,
    {
        assert(s@.subrange(i as int, n as int).drop_first() =~= s@.subrange(i + 1, n as int));
        i = i + 1;
    }
    s.substring_char(i, n)
}

/// `s` without trailing white space.
pub fn trim_end(s: &str) -> (r: &str)
    ensures
        r@ == trim_end_of(s@),
{
    let cs = to_chars(s);
    let mut n: usize = cs.len();
    assert(s@.subrange(0, n as int) =~= s@);
    while n > 0 && is_whitespace(cs[n - 1])
        invariant
            n <= cs.len(),
            cs@ == s@,
            trim_end_of(s@) == trim_end_of(s@.subrange(0, n as int)),
        decreases n,
    {
        assert(s@.subrange(0, n as int).drop_last() =~= s@.subrange(0, n - 1));
        n = n - 1;
    }
    s.substring_char(0, n)
}

/// `s` without white space at either end.
pub fn trim(s: &str) -> (r: &str)
    ensures
        r@ == trim_of(s@),
{
    trim_end(trim_start(s))
}

// ---------------------------------------------------------------------------
// Lines and words
// ---------------------------------------------------------------------------

/// Position of the first `c` in `s`, or the length of `s`.
pub open spec fn find_char(s: Seq<char>, c: char) -> int
    decreases s.len(),
{
    if s.len() == 0 || s[0] == c {
        0
    } else {
        1 + find_char(s.drop_first(), c)
    }
}

/// `s` without one trailing carriage return.
pub open spec fn without_cr(s: Seq<char>) -> Seq<char> {
    if s.len() > 0 && s.last() == '\r' {
        s.drop_last()
    } else {
        s
    }
}

/// The lines of `s`: each ends at a line feed, which with a carriage return
/// before it is left out; a last line needs none.
pub open spec fn lines_of(s: Seq<char>) -> Seq<Seq<char>>
    decreases s.len(),
{
    let k = find_char(s, '\n');
    if s.len() == 0 {
        Seq::empty()
    } else if k < 0 || k >= s.len() {
        seq![s]
    } else {
        seq![without_cr(s.subrange(0, k))] + lines_of(s.subrange(k + 1, s.len() as int))
    }
}

/// How `find_char` is found by searching from the front.
pub proof fn lemma_find_char(s: Seq<char>, c: char, k: int)
    requires
        0 <= k <= s.len(),
        forall|i: int| 0 <= i < k ==> s[i] != c,
        k < s.len() ==> s[k] == c,
    ensures
        find_char(s, c) == k,
    decreases s.len(),
{
    if s.len() > 0 && k > 0 {
        let t = s.drop_first();
        assert forall|i: int| 0 <= i < k - 1 implies t[i] != c by {
            assert(t[i] == s[i + 1]);
        }
        lemma_find_char(t, c, k - 1);
    }
}

/// The lines of `text`.
pub fn lines(text: &str) -> (r: Vec<String>)
    ensures
        views(r@) == lines_of(text@),
{
    let cs = to_chars(text);
    let n: usize = cs.len();
    let mut out: Vec<String> = Vec::new();
    let mut start: usize = 0;
    let mut i: usize = 0;
    assert(text@.subrange(0, n as int) =~= text@);
    assert(views(out@) + lines_of(text@) =~= lines_of(text@));
    while i < n
        invariant
            start <= i <= n,
            n == cs.len(),
            cs@ == text@,
            forall|k: int| start <= k < i ==> cs@[k] != '\n',
            views(out@) + lines_of(text@.subrange(start as int, n as int)) == lines_of(text@),
        decreases n - i,
    {
        if cs[i] == '\n' {
            let ghost rest = text@.subrange(start as int, n as int);
            let ghost before = out@;
            let end: usize = if i > start && cs[i - 1] == '\r' {
                i - 1
            } else {
                i
            };
            out.push(text.substring_char(start, end).to_owned());
            proof {
                lemma_find_char(rest, '\n', i - start);
                assert(rest.subrange(0, i - start) =~= text@.subrange(start as int, i as int));
                assert(rest.subrange(i - start + 1, rest.len() as int) =~= text@.subrange(
                    i + 1,
                    n as int,
                ));
                assert(without_cr(text@.subrange(start as int, i as int)) =~= text@.subrange(
                    start as int,
                    end as int,
                ));
                assert(views(out@) =~= views(before).push(
                    text@.subrange(start as int, end as int),
                ));
                assert(views(out@) + lines_of(text@.subrange(i + 1, n as int)) =~= views(before)
                    + lines_of(rest));
            }
            start = i + 1;
        }
        i = i + 1;
    }
    proof {
        let rest = text@.subrange(start as int, n as int);
        lemma_find_char(rest, '\n', rest.len() as int);
    }
    if start < n {
        let ghost before = out@;
        out.push(text.substring_char(start, n).to_owned());
        assert(views(out@) =~= views(before) + seq![text@.subrange(start as int, n as int)]);
    } else {
        assert(views(out@) + Seq::<Seq<char>>::empty() =~= views(out@));
    }
    out
}

/// Number of leading characters of `s` that are not white space.
pub open spec fn word_len(s: Seq<char>) -> nat
    decreases s.len(),
{
    if s.len() == 0 || is_white(s[0]) {
        0
    } else {
        1 + word_len(s.drop_first())
    }
}

proof fn lemma_word_len(s: Seq<char>, k: int)
    requires
        0 <= k <= s.len(),
        forall|i: int| 0 <= i < k ==> !is_white(s[i]),
        k < s.len() ==> is_white(s[k]),
    ensures
        word_len(s) == k,
    decreases s.len(),
{
    if s.len() > 0 && k > 0 {
        let t = s.drop_first();
        assert forall|i: int| 0 <= i < k - 1 implies !is_white(t[i]) by {
            assert(t[i] == s[i + 1]);
        }
        lemma_word_len(t, k - 1);
    }
}

/// The runs of characters of `s` that white space separates.
pub open spec fn words_of(s: Seq<char>) -> Seq<Seq<char>>
    decreases s.len(),
{
    if s.len() == 0 {
        Seq::empty()
    } else if is_white(s[0]) {
        words_of(s.drop_first())
    } else {
        let k = word_len(s) as int;
        if 0 < k <= s.len() {
            seq![s.subrange(0, k)] + words_of(s.subrange(k, s.len() as int))
        } else {
            Seq::empty()
        }
    }
}

/// The words of `text`, split at white space.
pub fn split_whitespace(text: &str) -> (r: Vec<String>)
    ensures
        views(r@) == words_of(text@),
{
    let cs = to_chars(text);
    let n: usize = cs.len();
    let mut out: Vec<String> = Vec::new();
    let mut i: usize = 0;
    assert(text@.subrange(0, n as int) =~= text@);
    assert(views(out@) + words_of(text@) =~= words_of(text@));
    while i < n
        invariant
            i <= n,
            n == cs.len(),
            cs@ == text@,
            views(out@) + words_of(text@.subrange(i as int, n as int)) == words_of(text@),
        decreases n - i,
    {
        let ghost rest = text@.subrange(i as int, n as int);
        if is_whitespace(cs[i]) {
            assert(rest.drop_first() =~= text@.subrange(i + 1, n as int));
            i = i + 1;
        } else {
            let start: usize = i;
            let ghost before = out@;
            i = i + 1;
            while i < n && !is_whitespace(cs[i])
                invariant
                    start < i <= n,
                    n == cs.len(),
                    forall|k: int| start <= k < i ==> !is_white(cs@[k]),
                decreases n - i,
            {
                i = i + 1;
            }
            out.push(text.substring_char(start, i).to_owned());
            proof {
                assert forall|k: int| 0 <= k < i - start implies !is_white(rest[k]) by {
                    assert(rest[k] == cs@[start + k]);
                }
                lemma_word_len(rest, i - start);
                assert(rest.subrange(0, i - start) =~= text@.subrange(start as int, i as int));
                assert(rest.subrange(i - start, rest.len() as int) =~= text@.subrange(
                    i as int,
                    n as int,
                ));
                assert(views(out@) =~= views(before).push(
                    text@.subrange(start as int, i as int),
                ));
                assert(views(out@) + words_of(text@.subrange(i as int, n as int)) =~= views(before)
                    + words_of(rest));
            }
        }
    }
    assert(views(out@) + Seq::<Seq<char>>::empty() =~= views(out@));
    out
}

// ---------------------------------------------------------------------------
// Prefixes, suffixes and searching
// ---------------------------------------------------------------------------

/// Whether `s` starts with `prefix`.
pub open spec fn has_prefix(s: Seq<char>, prefix: Seq<char>) -> bool {
    prefix.len() <= s.len() && s.subrange(0, prefix.len() as int) == prefix
}

/// Whether `s` ends with `suffix`.
pub open spec fn has_suffix(s: Seq<char>, suffix: Seq<char>) -> bool {
    suffix.len() <= s.len() && s.subrange(s.len() - suffix.len(), s.len() as int) == suffix
}

/// `s` after the prefix, where it has that prefix.
pub open spec fn after_prefix(s: Seq<char>, prefix: Seq<char>) -> Option<Seq<char>> {
    if has_prefix(s, prefix) {
        Some(s.subrange(prefix.len() as int, s.len() as int))
    } else {
        None
    }
}

/// Whether `s` starts with `prefix`.
pub fn starts_with(s: &str, prefix: &str) -> (r: bool)
    ensures
        r == has_prefix(s@, prefix@),
{
    let n: usize = s.unicode_len();
    let k: usize = prefix.unicode_len();
    k <= n && str_eq(s.substring_char(0, k), prefix)
}

/// Whether `s` ends with `suffix`.
pub fn ends_with(s: &str, suffix: &str) -> (r: bool)
    ensures
        r == has_suffix(s@, suffix@),
{
    let n: usize = s.unicode_len();
    let k: usize = suffix.unicode_len();
    k <= n && str_eq(s.substring_char(n - k, n), suffix)
}

/// What follows `prefix` in `s`, if `s` starts with it.
pub fn strip_prefix<'a>(s: &'a str, prefix: &str) -> (r: Option<&'a str>)
    ensures
        opt_str_view(r) == after_prefix(s@, prefix@),
{
    if starts_with(s, prefix) {
        let n: usize = s.unicode_len();
        let k: usize = prefix.unicode_len();
        Some(s.substring_char(k, n))
    } else {
        None
    }
}

/// Whether `a` and `b` are equal up to the case of ASCII letters.
pub open spec fn same_ignoring_case(a: Seq<char>, b: Seq<char>) -> bool {
    &&& a.len() == b.len()
    &&& forall|i: int| 0 <= i < a.len() ==> folded(#[trigger] a[i]) == folded(b[i])
}

/// Whether `needle` occurs in `s` at position `at`, up to the case of ASCII letters.
pub open spec fn occurs_at(s: Seq<char>, needle: Seq<char>, at: int) -> bool {
    &&& 0 <= at
    &&& at + needle.len() <= s.len()
    &&& same_ignoring_case(s.subrange(at, at + needle.len()), needle)
}

/// Whether `needle` occurs in `s`, up to the case of ASCII letters.
pub open spec fn has_ignoring_case(s: Seq<char>, needle: Seq<char>) -> bool {
    exists|at: int| occurs_at(s, needle, at)
}

/// Whether `a` and `b` are equal up to the case of ASCII letters.
pub fn eq_ignore_ascii_case(a: &str, b: &str) -> (r: bool)
    ensures
        r == same_ignoring_case(a@, b@),
{
    let x = to_chars(a);
    let y = to_chars(b);
    if x.len() != y.len() {
        return false;
    }
    let mut i: usize = 0;
    while i < x.len()
        invariant
            i <= x.len(),
            x.len() == y.len(),
            x@ == a@,
            y@ == b@,
            forall|k: int| 0 <= k < i ==> folded(#[trigger] a@[k]) == folded(b@[k]),
        decreases x.len() - i,
    {
        if fold(x[i]) != fold(y[i]) {
            assert(folded(a@[i as int]) != folded(b@[i as int]));
            return false;
        }
        i = i + 1;
    }
    true
}

/// Whether `needle` occurs in `s`, up to the case of ASCII letters.
pub fn contains_ignore_ascii_case(s: &str, needle: &str) -> (r: bool)
    ensures
        r == has_ignoring_case(s@, needle@),
{
    let n: usize = s.unicode_len();
    let k: usize = needle.unicode_len();
    if k > n {
        return false;
    }
    let mut at: usize = 0;
    while at <= n - k
        invariant
            k <= n,
            n == s@.len(),
            k == needle@.len(),
            at <= n - k + 1,
            forall|i: int| 0 <= i < at ==> !occurs_at(s@, needle@, i),
        decreases n - k + 1 - at,
    {
        if eq_ignore_ascii_case(s.substring_char(at, at + k), needle) {
            assert(occurs_at(s@, needle@, at as int));
            return true;
        }
        assert(!occurs_at(s@, needle@, at as int));
        if at == n - k {
            return false;
        }
        at = at + 1;
    }
    false
}

/// What follows the first occurrence of `pat` in `s`.
pub open spec fn after_first(s: Seq<char>, pat: Seq<char>) -> Option<Seq<char>>
    decreases s.len(),
{
    if has_prefix(s, pat) {
        Some(s.subrange(pat.len() as int, s.len() as int))
    } else if s.len() == 0 {
        None
    } else {
        after_first(s.drop_first(), pat)
    }
}

/// What follows the first occurrence of `pat` in `s`.
pub fn find_after<'a>(s: &'a str, pat: &str) -> (r: Option<&'a str>)
    ensures
        opt_str_view(r) == after_first(s@, pat@),
{
    let n: usize = s.unicode_len();
    let k: usize = pat.unicode_len();
    let mut i: usize = 0;
    assert(s@.subrange(0, n as int) =~= s@);
    while i <= n
        invariant
            n == s@.len(),
            k == pat@.len(),
            i <= n + 1,
            i <= n ==> after_first(s@, pat@) == after_first(
                s@.subrange(i as int, n as int),
                pat@,
            ),
            i == n + 1 ==> after_first(s@, pat@) is None,
        decreases n + 1 - i,
    {
        let ghost rest = s@.subrange(i as int, n as int);
        if k <= n - i && str_eq(s.substring_char(i, i + k), pat) {
            proof {
                assert(rest.subrange(0, k as int) =~= s@.subrange(i as int, i + k));
                assert(rest.subrange(k as int, rest.len() as int) =~= s@.subrange(i + k, n as int));
            }
            return Some(s.substring_char(i + k, n));
        }
        proof {
            if k <= n - i {
                assert(rest.subrange(0, k as int) =~= s@.subrange(i as int, i + k));
            }
            assert(!has_prefix(rest, pat@));
            if i < n {
                assert(rest.drop_first() =~= s@.subrange(i + 1, n as int));
            }
        }
        if i == n {
            return None;
        }
        i = i + 1;
    }
    None
}

/// The parts of `s` between occurrences of `c`.
pub open spec fn split_of(s: Seq<char>, c: char) -> Seq<Seq<char>>
    decreases s.len(),
{
    let k = find_char(s, c);
    if 0 <= k < s.len() {
        seq![s.subrange(0, k)] + split_of(s.subrange(k + 1, s.len() as int), c)
    } else {
        seq![s]
    }
}

/// The parts of `text` between occurrences of `c`.
pub fn split_char(text: &str, c: char) -> (r: Vec<String>)
    ensures
        views(r@) == split_of(text@, c),
{
    let cs = to_chars(text);
    let n: usize = cs.len();
    let mut out: Vec<String> = Vec::new();
    let mut start: usize = 0;
    let mut i: usize = 0;
    assert(text@.subrange(0, n as int) =~= text@);
    assert(views(out@) + split_of(text@, c) =~= split_of(text@, c));
    while i < n
        invariant
            start <= i <= n,
            n == cs.len(),
            cs@ == text@,
            forall|k: int| start <= k < i ==> cs@[k] != c,
            views(out@) + split_of(text@.subrange(start as int, n as int), c) == split_of(text@, c),
        decreases n - i,
    {
        if cs[i] == c {
            let ghost rest = text@.subrange(start as int, n as int);
            let ghost before = out@;
            out.push(text.substring_char(start, i).to_owned());
            proof {
                lemma_find_char(rest, c, i - start);
                assert(rest.subrange(0, i - start) =~= text@.subrange(start as int, i as int));
                assert(rest.subrange(i - start + 1, rest.len() as int) =~= text@.subrange(
                    i + 1,
                    n as int,
                ));
                assert(views(out@) =~= views(before).push(text@.subrange(start as int, i as int)));
                assert(views(out@) + split_of(text@.subrange(i + 1, n as int), c) =~= views(before)
                    + split_of(rest, c));
            }
            start = i + 1;
        }
        i = i + 1;
    }
    proof {
        let rest = text@.subrange(start as int, n as int);
        lemma_find_char(rest, c, rest.len() as int);
    }
    let ghost before = out@;
    out.push(text.substring_char(start, n).to_owned());
    assert(views(out@) =~= views(before) + seq![text@.subrange(start as int, n as int)]);
    out
}

/// Whether `s` holds the character `c`.
pub fn has_char(s: &str, c: char) -> (r: bool)
    ensures
        r == s@.contains(c),
{
    let cs = to_chars(s);
    let mut i: usize = 0;
    while i < cs.len()
        invariant
            i <= cs.len(),
            cs@ == s@,
            forall|k: int| 0 <= k < i ==> s@[k] != c,
        decreases cs.len() - i,
    {
        if cs[i] == c {
            assert(s@[i as int] == c);
            return true;
        }
        i = i + 1;
    }
    false
}

/// The order of texts: character by character, by code point.
pub open spec fn comes_before(a: Seq<char>, b: Seq<char>) -> bool
    decreases a.len(),
{
    if b.len() == 0 {
        false
    } else if a.len() == 0 {
        true
    } else if a[0] == b[0] {
        comes_before(a.drop_first(), b.drop_first())
    } else {
        a[0] < b[0]
    }
}

/// Of two texts one comes before the other, or they are the same.
pub proof fn order_is_total(a: Seq<char>, b: Seq<char>)
    ensures
        comes_before(a, b) || comes_before(b, a) || a == b,
        !(comes_before(a, b) && comes_before(b, a)),
        !comes_before(a, a),
    decreases a.len(),
{
    if a.len() > 0 && b.len() > 0 {
        order_is_total(a.drop_first(), b.drop_first());
        order_is_total(a.drop_first(), a.drop_first());
        if a[0] == b[0] && a.drop_first() == b.drop_first() {
            assert(a =~= seq![a[0]] + a.drop_first());
            assert(b =~= seq![b[0]] + b.drop_first());
        }
    } else {
        if a.len() == 0 && b.len() == 0 {
            assert(a =~= b);
        }
        if a.len() > 0 {
            order_is_total(a.drop_first(), a.drop_first());
        }
    }
}

/// What comes before something that comes before a text comes before it too.
pub proof fn order_is_transitive(a: Seq<char>, b: Seq<char>, c: Seq<char>)
    requires
        comes_before(a, b),
        comes_before(b, c),
    ensures
        comes_before(a, c),
    decreases a.len(),
{
    if a.len() > 0 && a[0] == b[0] && b[0] == c[0] {
        order_is_transitive(a.drop_first(), b.drop_first(), c.drop_first());
    }
}

proof fn lemma_order_at(a: Seq<char>, b: Seq<char>, k: int)
    requires
        0 <= k <= a.len(),
        k <= b.len(),
        forall|i: int| 0 <= i < k ==> a[i] == b[i],
    ensures
        comes_before(a, b) == comes_before(a.skip(k), b.skip(k)),
    decreases k,
{
    if k > 0 {
        assert(a[0] == b[0]);
        lemma_order_at(a.drop_first(), b.drop_first(), k - 1);
        assert(a.drop_first().skip(k - 1) =~= a.skip(k));
        assert(b.drop_first().skip(k - 1) =~= b.skip(k));
    } else {
        assert(a.skip(0) =~= a);
        assert(b.skip(0) =~= b);
    }
}

/// Whether `a` comes before `b`.
pub fn is_before(a: &str, b: &str) -> (r: bool)
    ensures
        r == comes_before(a@, b@),
{
    let ca = to_chars(a);
    let cb = to_chars(b);
    let mut i: usize = 0;
    while i < ca.len() && i < cb.len() && ca[i] == cb[i]
        invariant
            ca@ == a@,
            cb@ == b@,
            i <= ca.len(),
            i <= cb.len(),
            forall|k: int| 0 <= k < i ==> a@[k] == b@[k],
        decreases ca.len() - i,
    {
        i = i + 1;
    }
    proof {
        lemma_order_at(a@, b@, i as int);
    }
    if i >= cb.len() {
        false
    } else if i >= ca.len() {
        true
    } else {
        ca[i] < cb[i]
    }
}

// ---------------------------------------------------------------------------
// Decimal numbers
// ---------------------------------------------------------------------------

/// The digit character for a value below ten.
pub open spec fn digit_char(d: nat) -> char {
    (0x30 + d) as char
}

/// `n` written in decimal, without leading zeros.
pub open spec fn decimal(n: nat) -> Seq<char>
    decreases n,
{
    if n < 10 {
        seq![digit_char(n)]
    } else {
        decimal(n / 10).push(digit_char(n % 10))
    }
}

/// `i` written in decimal, with a minus sign where it is negative.
pub open spec fn decimal_int(i: int) -> Seq<char> {
    if i < 0 {
        seq!['-'] + decimal((-i) as nat)
    } else {
        decimal(i as nat)
    }
}

/// `s` with zeros in front up to a width of `width` characters.
pub open spec fn zero_padded(s: Seq<char>, width: nat) -> Seq<char> {
    if s.len() < width {
        Seq::new((width - s.len()) as nat, |i: int| '0') + s
    } else {
        s
    }
}

/// All characters of `s` are digits.
pub open spec fn all_digits(s: Seq<char>) -> bool {
    forall|i: int| 0 <= i < s.len() ==> is_digit(#[trigger] s[i])
}

/// The number that the digits `s` write in decimal.
pub open spec fn digits_value(s: Seq<char>) -> nat
    decreases s.len(),
{
    if s.len() == 0 {
        0
    } else {
        digits_value(s.drop_last()) * 10 + digit_value(s.last())
    }
}

/// The number that `s` writes: at least one digit, after an optional plus sign.
pub open spec fn parsed_nat(s: Seq<char>) -> Option<nat> {
    let d = if s.len() > 0 && s[0] == '+' {
        s.drop_first()
    } else {
        s
    };
    if d.len() > 0 && all_digits(d) {
        Some(digits_value(d))
    } else {
        None
    }
}

/// `s` read as a `u32`, where it writes one.
pub open spec fn parsed_u32(s: Seq<char>) -> Option<u32> {
    match parsed_nat(s) {
        Some(n) => if n <= u32::MAX {
            Some(n as u32)
        } else {
            None
        },
        None => None,
    }
}

fn digit_str(d: u64) -> (r: &'static str)
    requires
        d < 10,
    ensures
        r@ == seq![digit_char(d as nat)],
{
    proof {
        reveal_strlit("0");
        reveal_strlit("1");
        reveal_strlit("2");
        reveal_strlit("3");
        reveal_strlit("4");
        reveal_strlit("5");
        reveal_strlit("6");
        reveal_strlit("7");
        reveal_strlit("8");
        reveal_strlit("9");
    }
    let r = match d {
        0 => "0",
        1 => "1",
        2 => "2",
        3 => "3",
        4 => "4",
        5 => "5",
        6 => "6",
        7 => "7",
        8 => "8",
        _ => "9",
    };
    assert(r@ =~= seq![digit_char(d as nat)]);
    r
}

proof fn lemma_digit_char(c: char)
    requires
        is_digit(c),
    ensures
        digit_char(digit_value(c)) == c,
{
    assert(digit_value(c) == 0 ==> c == '0' && digit_char(0) == '0');
    assert(digit_value(c) == 1 ==> c == '1' && digit_char(1) == '1');
    assert(digit_value(c) == 2 ==> c == '2' && digit_char(2) == '2');
    assert(digit_value(c) == 3 ==> c == '3' && digit_char(3) == '3');
    assert(digit_value(c) == 4 ==> c == '4' && digit_char(4) == '4');
    assert(digit_value(c) == 5 ==> c == '5' && digit_char(5) == '5');
    assert(digit_value(c) == 6 ==> c == '6' && digit_char(6) == '6');
    assert(digit_value(c) == 7 ==> c == '7' && digit_char(7) == '7');
    assert(digit_value(c) == 8 ==> c == '8' && digit_char(8) == '8');
    assert(digit_value(c) == 9 ==> c == '9' && digit_char(9) == '9');
}

/// The digits as text.
pub fn digits_text(digits: &Vec<char>) -> (r: String)
    requires
        all_digits(digits@),
    ensures
        r@ == digits@,
{
    let mut s = String::new();
    let mut i: usize = 0;
    assert(s@ =~= digits@.take(0));
    while i < digits.len()
        invariant
            i <= digits.len(),
            all_digits(digits@),
            s@ == digits@.take(i as int),
        decreases digits.len() - i,
    {
        assert(is_digit(digits@[i as int]));
        let u: u32 = digits[i] as u32;
        let d: u64 = (u - 0x30) as u64;
        s.append(digit_str(d));
        proof {
            lemma_digit_char(digits@[i as int]);
        }
        assert(s@ =~= digits@.take(i + 1));
        i = i + 1;
    }
    assert(digits@.take(i as int) =~= digits@);
    s
}

/// `n` in decimal.
pub fn u64_to_string(n: u64) -> (r: String)
    ensures
        r@ == decimal(n as nat),
    decreases n,
{
    if n < 10 {
        digit_str(n).to_owned()
    } else {
        let mut s = u64_to_string(n / 10);
        s.append(digit_str(n % 10));
        assert(s@ =~= decimal((n / 10) as nat).push(digit_char((n % 10) as nat)));
        s
    }
}

/// `i` in decimal.
pub fn i64_to_string(i: i64) -> (r: String)
    ensures
        r@ == decimal_int(i as int),
{
    if i < 0 {
        let m: u64 = (-(i as i128)) as u64;
        proof {
            reveal_strlit("-");
        }
        let r = concat2("-", u64_to_string(m).as_str());
        assert("-"@ =~= seq!['-']);
        r
    } else {
        u64_to_string(i as u64)
    }
}

/// `n` in decimal with zeros in front up to a width of `width`.
pub fn padded(n: u64, width: usize) -> (r: String)
    ensures
        r@ == zero_padded(decimal(n as nat), width as nat),
{
    let digits = u64_to_string(n);
    let len: usize = digits.as_str().unicode_len();
    let mut zeros = String::new();
    let mut k: usize = len;
    proof {
        reveal_strlit("0");
    }
    while k < width
        invariant
            len <= k,
            len <= width ==> k <= width,
            len > width ==> k == len,
            "0"@.len() == 1,
            "0"@[0] == '0',
            zeros@ =~= Seq::new((k - len) as nat, |i: int| '0'),
        decreases width - k,
    {
        zeros.append("0");
        k = k + 1;
    }
    let r = concat2(zeros.as_str(), digits.as_str());
    proof {
        if len >= width {
            assert(r@ =~= digits@);
        }
    }
    r
}

proof fn lemma_digits_prefix(s: Seq<char>, k: int)
    requires
        0 <= k <= s.len(),
    ensures
        digits_value(s.take(k)) <= digits_value(s),
    decreases s.len() - k,
{
    if k < s.len() {
        lemma_digits_prefix(s, k + 1);
        assert(s.take(k + 1).drop_last() =~= s.take(k));
        assert(digits_value(s.take(k + 1)) >= digits_value(s.take(k)) * 10);
    } else {
        assert(s.take(k) =~= s);
    }
}

/// `s` as a `u32`: digits after an optional plus sign, not above `u32::MAX`.
pub fn parse_u32(s: &str) -> (r: Option<u32>)
    ensures
        r == parsed_u32(s@),
{
    let cs = to_chars(s);
    let n: usize = cs.len();
    let start: usize = if n > 0 && cs[0] == '+' {
        1
    } else {
        0
    };
    let ghost d = s@.subrange(start as int, n as int);
    proof {
        if start == 0 {
            assert(d =~= s@);
        } else {
            assert(d =~= s@.drop_first());
        }
    }
    if start == n {
        return None;
    }
    let mut v: u64 = 0;
    let mut i: usize = start;
    assert(d.take(0) =~= Seq::<char>::empty());
    while i < n
        invariant
            start <= i <= n,
            n == cs.len(),
            cs@ == s@,
            d == s@.subrange(start as int, n as int),
            d.len() > 0,
            parsed_u32(s@) == (if all_digits(d) && digits_value(d) <= u32::MAX {
                Some(digits_value(d) as u32)
            } else {
                None
            }),
            v <= u32::MAX,
            v == digits_value(d.take(i - start)),
            forall|k: int| 0 <= k < i - start ==> is_digit(#[trigger] d[k]),
        decreases n - i,
    {
        let u: u32 = cs[i] as u32;
        assert(d[i - start] == cs@[i as int]);
        if u < 0x30 || u > 0x39 {
            assert(!is_digit(d[i - start]));
            return None;
        }
        v = v * 10 + (u - 0x30) as u64;
        proof {
            assert(d.take(i - start + 1).drop_last() =~= d.take(i - start));
            lemma_digits_prefix(d, i - start + 1);
        }
        if v > 0xffff_ffff {
            return None;
        }
        i = i + 1;
    }
    assert(d.take(n - start) =~= d);
    Some(v as u32)
}

/// Writing a number in decimal and reading it back gives the number.
pub proof fn parse_reads_back_decimal(n: u32)
    ensures
        parsed_u32(decimal(n as nat)) == Some(n),
{
    lemma_decimal_digits(n as nat);
}

/// The decimal form of a number: digits that read back as the number.
pub proof fn lemma_decimal_digits(n: nat)
    ensures
        decimal(n).len() > 0,
        all_digits(decimal(n)),
        digits_value(decimal(n)) == n,
        decimal(n)[0] != '+',
    decreases n,
{
    if n < 10 {
        let s = decimal(n);
        assert(s.drop_last() =~= Seq::<char>::empty());
        assert(digits_value(s.drop_last()) == 0);
    } else {
        lemma_decimal_digits(n / 10);
        let s = decimal(n);
        let t = decimal(n / 10);
        assert(s.drop_last() =~= t);
        assert forall|i: int| 0 <= i < s.len() implies is_digit(#[trigger] s[i]) by {
            if i < t.len() {
                assert(s[i] == t[i]);
            }
        }
        assert(s[0] == t[0]);
    }
}

} // verus!
