//! Laws of the text primitives: that what is taken apart can be put together again.

use vstd::prelude::*;
use vstd::string::*;

use crate::audio_laws::ends_in;
use crate::capture::last_bytes;
use crate::ports::{videos_dir, ExitStatus, PortError};
use crate::text::{
    after_prefix, all_digits, comes_before, decimal, decimal_int, digit_value, digits_value,
    find_char, folded, has_ignoring_case, has_prefix, has_suffix, is_digit, is_white, joined,
    lemma_decimal_digits, lemma_find_char, lines_of, occurs_at, parsed_nat, parsed_u32,
    same_ignoring_case, split_of, trim_end_of, trim_of, trim_start_of, words_of, zero_padded,
};

verus! {

// ---------------------------------------------------------------------------
// White space
// ---------------------------------------------------------------------------

/// All of `s` is white space.
pub open spec fn all_white(s: Seq<char>) -> bool {
    forall|i: int| 0 <= i < s.len() ==> is_white(#[trigger] s[i])
}

/// Among the ASCII characters the space and the five controls from tab to carriage
/// return are white space, and no other.
pub proof fn ascii_white_space(c: char)
    requires
        c as u32 <= 127,
    ensures
        is_white(c) <==> c == ' ' || c == '\t' || c == '\n' || c == '\r' || c as u32 == 11
            || c as u32 == 12,
{
}

proof fn lemma_trim_start(a: Seq<char>, s: Seq<char>)
    requires
        all_white(a),
        s.len() == 0 || !is_white(s[0]),
    ensures
        trim_start_of(a + s) == s,
    decreases a.len(),
{
    if a.len() == 0 {
        assert(a + s =~= s);
    } else {
        assert(is_white(a[0]));
        assert((a + s)[0] == a[0]);
        let rest = a.drop_first();
        assert forall|i: int| 0 <= i < rest.len() implies is_white(#[trigger] rest[i]) by {
            assert(rest[i] == a[i + 1]);
        }
        lemma_trim_start(rest, s);
        assert((a + s).drop_first() =~= rest + s);
    }
}

proof fn lemma_trim_end(s: Seq<char>, b: Seq<char>)
    requires
        all_white(b),
        s.len() == 0 || !is_white(s.last()),
    ensures
        trim_end_of(s + b) == s,
    decreases b.len(),
{
    if b.len() == 0 {
        assert(s + b =~= s);
    } else {
        assert(is_white(b[b.len() - 1]));
        assert((s + b).last() == b.last());
        let rest = b.drop_last();
        assert forall|i: int| 0 <= i < rest.len() implies is_white(#[trigger] rest[i]) by {
            assert(rest[i] == b[i]);
        }
        lemma_trim_end(s, rest);
        assert((s + b).drop_last() =~= s + rest);
    }
}

/// Trimming takes white space away from both ends, all of it, and nothing else.
pub proof fn trimming_takes_white_space_alone(a: Seq<char>, s: Seq<char>, b: Seq<char>)
    requires
        all_white(a),
        all_white(b),
        s.len() > 0 ==> !is_white(s[0]) && !is_white(s.last()),
    ensures
        trim_of(a + s + b) == s,
{
    if s.len() == 0 {
        let w = a + b;
        assert(a + s + b =~= w);
        assert forall|i: int| 0 <= i < w.len() implies is_white(#[trigger] w[i]) by {
            if i < a.len() {
                assert(w[i] == a[i]);
            } else {
                assert(w[i] == b[i - a.len()]);
            }
        }
        lemma_trim_start(w, s);
        assert(w + s =~= w);
    } else {
        assert(a + s + b =~= a + (s + b));
        assert((s + b)[0] == s[0]);
        lemma_trim_start(a, s + b);
        lemma_trim_end(s, b);
    }
}

/// Text without white space has no words but itself, and none if it is empty.
pub proof fn a_word_is_itself(word: Seq<char>)
    requires
        forall|i: int| 0 <= i < word.len() ==> !is_white(#[trigger] word[i]),
    ensures
        word.len() > 0 ==> words_of(word) == seq![word],
        word.len() == 0 ==> words_of(word).len() == 0,
{
    let none = Seq::<char>::empty();
    if word.len() > 0 {
        crate::outputs_laws::words_stand_between_white_space(none, word, none);
        assert(none + word + none =~= word);
        assert(words_of(none) =~= Seq::<Seq<char>>::empty());
        assert(words_of(word) =~= seq![word]);
    }
}

// ---------------------------------------------------------------------------
// Lines and parts
// ---------------------------------------------------------------------------

/// `s` has no `c` in it.
pub open spec fn free_of(s: Seq<char>, c: char) -> bool {
    forall|i: int| 0 <= i < s.len() ==> #[trigger] s[i] != c
}

/// A line ends at the line feed, which with a carriage return before it is left out; the
/// other lines are those of the rest. The last line needs no line feed.
pub proof fn lines_end_at_line_feeds(line: Seq<char>, rest: Seq<char>)
    requires
        free_of(line, '\n'),
    ensures
        line.len() == 0 || line.last() != '\r' ==> lines_of(line + seq!['\n'] + rest) == seq![line]
            + lines_of(rest),
        lines_of(line + seq!['\r'] + seq!['\n'] + rest) == seq![line] + lines_of(rest),
        line.len() > 0 ==> lines_of(line) == seq![line],
        lines_of(Seq::empty()).len() == 0,
{
    let s = line + seq!['\n'] + rest;
    assert forall|i: int| 0 <= i < line.len() implies s[i] != '\n' by {
        assert(s[i] == line[i]);
    }
    lemma_find_char(s, '\n', line.len() as int);
    assert(s.subrange(0, line.len() as int) =~= line);
    assert(s.subrange(line.len() as int + 1, s.len() as int) =~= rest);
    let with_cr = line + seq!['\r'];
    let t = line + seq!['\r'] + seq!['\n'] + rest;
    assert forall|i: int| 0 <= i < with_cr.len() implies t[i] != '\n' by {
        assert(t[i] == with_cr[i]);
        if i < line.len() {
            assert(with_cr[i] == line[i]);
        }
    }
    lemma_find_char(t, '\n', with_cr.len() as int);
    assert(t.subrange(0, with_cr.len() as int) =~= with_cr);
    assert(with_cr.drop_last() =~= line);
    assert(t.subrange(with_cr.len() as int + 1, t.len() as int) =~= rest);
    lemma_find_char(line, '\n', line.len() as int);
}

proof fn lemma_find(s: Seq<char>, c: char)
    ensures
        0 <= find_char(s, c) <= s.len(),
        forall|i: int| 0 <= i < find_char(s, c) ==> s[i] != c,
        find_char(s, c) < s.len() ==> s[find_char(s, c)] == c,
    decreases s.len(),
{
    if s.len() > 0 && s[0] != c {
        let t = s.drop_first();
        lemma_find(t, c);
        let k = find_char(t, c);
        assert forall|i: int| 0 <= i < k + 1 implies s[i] != c by {
            if i > 0 {
                assert(s[i] == t[i - 1]);
            }
        }
        if k < t.len() {
            assert(t[k] == s[k + 1]);
        }
    }
}

proof fn lemma_joined_first(first: Seq<char>, rest: Seq<Seq<char>>, sep: Seq<char>)
    requires
        rest.len() > 0,
    ensures
        joined(seq![first] + rest, sep) == first + sep + joined(rest, sep),
    decreases rest.len(),
{
    let all = seq![first] + rest;
    assert(all.last() == rest.last());
    if rest.len() == 1 {
        assert(all.drop_last() =~= seq![first]);
        assert(joined(seq![first], sep) == first);
    } else {
        lemma_joined_first(first, rest.drop_last(), sep);
        assert(all.drop_last() =~= seq![first] + rest.drop_last());
        assert(joined(all, sep) =~= first + sep + joined(rest, sep));
    }
}

/// The parts of a text, joined again, are the text; no part has the separator in it.
pub proof fn parts_join_to_the_text(s: Seq<char>, c: char)
    ensures
        joined(split_of(s, c), seq![c]) == s,
        split_of(s, c).len() > 0,
        forall|k: int| 0 <= k < split_of(s, c).len() ==> free_of(#[trigger] split_of(s, c)[k], c),
    decreases s.len(),
{
    let k = find_char(s, c);
    lemma_find(s, c);
    if k < s.len() {
        let first = s.subrange(0, k);
        let rest = s.subrange(k + 1, s.len() as int);
        parts_join_to_the_text(rest, c);
        lemma_joined_first(first, split_of(rest, c), seq![c]);
        assert(s =~= first + seq![c] + rest);
        let all = split_of(s, c);
        assert forall|j: int| 0 <= j < all.len() implies free_of(#[trigger] all[j], c) by {
            if j == 0 {
                assert(all[0] == first);
            } else {
                assert(all[j] == split_of(rest, c)[j - 1]);
            }
        }
    } else {
        assert(split_of(s, c) =~= seq![s]);
        assert(joined(seq![s], seq![c]) == s);
    }
}

// ---------------------------------------------------------------------------
// Beginnings, ends and case
// ---------------------------------------------------------------------------

/// A text begins with what was put before it and ends with what was put behind it; what
/// follows a prefix is the rest.
pub proof fn prefixes_and_suffixes(s: Seq<char>, p: Seq<char>)
    ensures
        has_prefix(p + s, p),
        after_prefix(p + s, p) == Some(s),
        has_suffix(s + p, p),
        has_prefix(s, p) ==> after_prefix(s, p) is Some && s == p + after_prefix(s, p)->0,
        !has_prefix(s, p) ==> after_prefix(s, p) is None && (forall|r: Seq<char>|
            s != #[trigger] (p + r)),
{
    assert((p + s).subrange(0, p.len() as int) =~= p);
    assert((p + s).subrange(p.len() as int, (p + s).len() as int) =~= s);
    assert((s + p).subrange(s.len() as int, (s + p).len() as int) =~= p);
    if has_prefix(s, p) {
        assert(s =~= p + s.subrange(p.len() as int, s.len() as int));
    } else {
        assert forall|r: Seq<char>| s != #[trigger] (p + r) by {
            if s == p + r {
                assert(s.subrange(0, p.len() as int) =~= p);
            }
        }
    }
}

/// Only the ASCII capitals are taken for the small letters.
pub proof fn only_ascii_letters_are_folded(c: char)
    ensures
        'A' as u32 <= c as u32 <= 'Z' as u32 ==> folded(c) == c as u32 + ('a' as u32 - 'A' as u32),
        !('A' as u32 <= c as u32 <= 'Z' as u32) ==> folded(c) == c as u32,
{
}

/// To be equal up to case is to be equal for a text and itself, both ways round and from
/// one to the next; a text that is equal occurs, and so does every part.
pub proof fn equal_up_to_case(a: Seq<char>, b: Seq<char>, c: Seq<char>)
    ensures
        same_ignoring_case(a, a),
        same_ignoring_case(a, b) ==> same_ignoring_case(b, a),
        same_ignoring_case(a, b) && same_ignoring_case(b, c) ==> same_ignoring_case(a, c),
        same_ignoring_case(a, b) ==> has_ignoring_case(a, b),
        has_ignoring_case(b + a + c, a),
        has_ignoring_case(a, b) ==> b.len() <= a.len(),
{
    if same_ignoring_case(a, b) {
        assert(a.subrange(0, a.len() as int) =~= a);
        assert(occurs_at(a, b, 0));
        assert forall|i: int| 0 <= i < b.len() implies folded(#[trigger] b[i]) == folded(a[i]) by {
            assert(folded(a[i]) == folded(b[i]));
        }
        if same_ignoring_case(b, c) {
            assert forall|i: int| 0 <= i < a.len() implies folded(#[trigger] a[i]) == folded(
                c[i],
            ) by {
                assert(folded(a[i]) == folded(b[i]));
                assert(folded(b[i]) == folded(c[i]));
            }
        }
    }
    let s = b + a + c;
    assert(s.subrange(b.len() as int, b.len() as int + a.len()) =~= a);
    assert(occurs_at(s, a, b.len() as int));
}

/// The order of two texts is that of the first characters in which they differ; a text
/// comes before every longer one that begins with it.
pub proof fn texts_are_ordered_by_their_first_difference(
    head: Seq<char>,
    x: char,
    y: char,
    a: Seq<char>,
    b: Seq<char>,
)
    requires
        (x as u32) < (y as u32),
    ensures
        comes_before(head + seq![x] + a, head + seq![y] + b),
        comes_before(head, head + seq![x] + a),
    decreases head.len(),
{
    let s = head + seq![x] + a;
    let t = head + seq![y] + b;
    if head.len() > 0 {
        let rest = head.drop_first();
        texts_are_ordered_by_their_first_difference(rest, x, y, a, b);
        assert(s.drop_first() =~= rest + seq![x] + a);
        assert(t.drop_first() =~= rest + seq![y] + b);
        assert(s[0] == head[0] && t[0] == head[0]);
    } else {
        assert(s[0] == x && t[0] == y);
    }
}

// ---------------------------------------------------------------------------
// Numbers
// ---------------------------------------------------------------------------

/// A number is written without leading zeros, and two numbers are written differently.
pub proof fn numbers_are_written_plainly(n: nat, m: nat)
    ensures
        n > 0 ==> decimal(n)[0] != '0',
        decimal(n) == decimal(m) ==> n == m,
        decimal_int(n as int) == decimal(n),
        n > 0 ==> decimal_int(-(n as int)) == seq!['-'] + decimal(n),
    decreases n,
{
    lemma_decimal_digits(n);
    lemma_decimal_digits(m);
    if n >= 10 {
        numbers_are_written_plainly(n / 10, m);
        lemma_decimal_digits(n / 10);
        assert(decimal(n)[0] == decimal(n / 10)[0]);
    }
}

/// Digits are read by their places: a digit behind others counts once, the others ten
/// times.
pub proof fn digits_count_by_place(s: Seq<char>, c: char)
    requires
        is_digit(c),
    ensures
        digits_value(s.push(c)) == 10 * digits_value(s) + (c as u32 - '0' as u32),
        digits_value(Seq::empty()) == 0,
        all_digits(s) && s.len() > 0 ==> parsed_nat(s) == Some(digits_value(s)),
{
    assert(s.push(c).drop_last() =~= s);
    if s.len() > 0 && all_digits(s) {
        assert(is_digit(s[0]));
    }
}

/// A text is no number if it is empty or has a character that is no digit, but for a
/// plus sign before digits, which says nothing.
pub proof fn only_digits_are_numbers(s: Seq<char>, i: int)
    ensures
        parsed_u32(Seq::empty()) is None,
        0 <= i < s.len() && !is_digit(s[i]) && !(i == 0 && s[0] == '+') ==> parsed_u32(s) is None,
        s.len() > 0 && all_digits(s) ==> parsed_u32(seq!['+'] + s) == parsed_u32(s),
        s.len() > 0 && all_digits(s) && digits_value(s) <= u32::MAX ==> parsed_u32(s) is Some
            && parsed_u32(s)->0 == digits_value(s),
        s.len() > 0 && all_digits(s) && digits_value(s) > u32::MAX ==> parsed_u32(s) is None,
{
    if 0 <= i < s.len() && !is_digit(s[i]) && !(i == 0 && s[0] == '+') {
        if s[0] == '+' {
            let d = s.drop_first();
            assert(d[i - 1] == s[i]);
        }
    }
    if s.len() > 0 && all_digits(s) {
        assert(is_digit(s[0]));
        let p = seq!['+'] + s;
        assert(p[0] == '+');
        assert(p.drop_first() =~= s);
    }
}

/// Zeros before a number fill it up to its width and change neither its digits nor its
/// value.
pub proof fn zeros_fill_up_the_width(s: Seq<char>, width: nat)
    requires
        all_digits(s),
    ensures
        s.len() <= width ==> zero_padded(s, width).len() == width,
        s.len() >= width ==> zero_padded(s, width) == s,
        ends_in(zero_padded(s, width), s),
        all_digits(zero_padded(s, width)),
        digits_value(zero_padded(s, width)) == digits_value(s),
    decreases s.len(),
{
    let z = zero_padded(s, width);
    assert(z.skip(z.len() - s.len()) =~= s);
    let pad = if s.len() < width {
        Seq::new((width - s.len()) as nat, |i: int| '0')
    } else {
        Seq::empty()
    };
    assert(z =~= pad + s);
    assert forall|i: int| 0 <= i < pad.len() implies #[trigger] pad[i] == '0' by {}
    assert forall|i: int| 0 <= i < z.len() implies is_digit(#[trigger] z[i]) by {
        if i < pad.len() {
            assert(z[i] == pad[i]);
        } else {
            assert(z[i] == s[i - pad.len()]);
        }
    }
    lemma_leading_zeros(pad, s);
}

proof fn lemma_leading_zeros(pad: Seq<char>, s: Seq<char>)
    requires
        forall|i: int| 0 <= i < pad.len() ==> #[trigger] pad[i] == '0',
    ensures
        digits_value(pad + s) == digits_value(s),
    decreases pad.len() + s.len(),
{
    let z = pad + s;
    if s.len() > 0 {
        assert(z.drop_last() =~= pad + s.drop_last());
        assert(z.last() == s.last());
        lemma_leading_zeros(pad, s.drop_last());
    } else if pad.len() > 0 {
        assert(z =~= pad);
        let fewer = pad.drop_last();
        assert forall|i: int| 0 <= i < fewer.len() implies #[trigger] fewer[i] == '0' by {
            assert(fewer[i] == pad[i]);
        }
        lemma_leading_zeros(fewer, s);
        assert(fewer + s =~= fewer);
        assert(pad[pad.len() - 1] == '0');
        assert(pad.last() == '0');
        assert(digit_value('0') == 0);
        assert(digits_value(fewer) == 0);
        assert(digits_value(s) == 0);
    } else {
        assert(z =~= s);
    }
}

// ---------------------------------------------------------------------------
// Messages and ends
// ---------------------------------------------------------------------------

/// The message of an error ends with what was said.
pub proof fn an_error_says_why(e: PortError)
    ensures
        e is Spawn ==> ends_in(e.text(), e->Spawn_0@),
        e is Signal ==> ends_in(e.text(), e->Signal_0@),
        e is Wait ==> ends_in(e.text(), e->Wait_0@),
        e is Io ==> ends_in(e.text(), e->Io_0@),
        e is NotFound ==> ends_in(e.text(), e->NotFound_0@),
        e is Other ==> e.text() == e->Other_0@,
{
    let t = e.text();
    let said = match e {
        PortError::Spawn(s) => s@,
        PortError::Signal(s) => s@,
        PortError::Wait(s) => s@,
        PortError::Io(s) => s@,
        PortError::NotFound(s) => s@,
        PortError::Other(s) => s@,
    };
    assert(t.skip(t.len() - said.len()) =~= said);
}

/// Two exits are told differently.
pub proof fn exits_are_told_apart(a: ExitStatus, b: ExitStatus)
    ensures
        a.text() == b.text() ==> a == b,
{
    reveal_strlit("exit ");
    reveal_strlit("signal ");
    let (x, y) = (a.text(), b.text());
    if x == y {
        assert("exit "@[0] == 'e' && "signal "@[0] == 's');
        let head = if a is Code {
            "exit "@
        } else {
            "signal "@
        };
        assert(x[0] == head[0]);
        let (v, w) = (
            if a is Code {
                a->Code_0 as int
            } else {
                a->Signal_0 as int
            },
            if b is Code {
                b->Code_0 as int
            } else {
                b->Signal_0 as int
            },
        );
        assert(a is Code == b is Code);
        assert(x.skip(head.len() as int) =~= decimal_int(v));
        assert(y.skip(head.len() as int) =~= decimal_int(w));
        lemma_int_text(v, w);
    }
}

proof fn lemma_int_text(v: int, w: int)
    requires
        decimal_int(v) == decimal_int(w),
    ensures
        v == w,
{
    let (m, n) = (
        (if v < 0 {
            -v
        } else {
            v
        }) as nat,
        (if w < 0 {
            -w
        } else {
            w
        }) as nat,
    );
    lemma_decimal_digits(m);
    lemma_decimal_digits(n);
    assert(is_digit(decimal(m)[0]) && is_digit(decimal(n)[0]));
    numbers_are_written_plainly(m, n);
    if v < 0 {
        assert(decimal_int(v)[0] == '-');
        assert(decimal_int(v).skip(1) =~= decimal(m));
    }
    if w < 0 {
        assert(decimal_int(w)[0] == '-');
        assert(decimal_int(w).skip(1) =~= decimal(n));
    }
}

/// The user's directory for videos is the one given; else it is `Videos` below the home
/// directory.
pub proof fn videos_go_where_the_user_says(home: Seq<char>, xdg: Option<Seq<char>>)
    ensures
        xdg is Some && xdg->0.len() > 0 ==> videos_dir(home, xdg) == xdg->0,
        xdg is None || xdg->0.len() == 0 ==> crate::output_laws::lies_in(
            videos_dir(home, xdg),
            home,
            "Videos"@,
        ),
{
    reveal_strlit("Videos");
    assert("Videos"@[0] == 'V');
}

/// The last bytes are the end of what was written: all of it where it fits, and else as
/// much as fits.
pub proof fn the_last_bytes_are_the_end(s: Seq<u8>, max: nat)
    ensures
        s.len() <= max ==> last_bytes(s, max) == s,
        s.len() > max ==> last_bytes(s, max).len() == max,
        forall|i: int|
            0 <= i < last_bytes(s, max).len() ==> #[trigger] last_bytes(s, max)[i] == s[s.len()
                - last_bytes(s, max).len() + i],
{
}

} // verus!
