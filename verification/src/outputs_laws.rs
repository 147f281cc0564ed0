//! Laws of the outputs: what is read of a monitor, and how it is listed.

use vstd::prelude::*;
use vstd::string::*;

use crate::outputs::{
    decimal_parts, field_of, listed_name, listed_names, monitor_of_record, monitors_of, names_of,
    rate_text, rounded_u32, scalar_i32, spacing, unsigned_text, DecimalView, OutputView, ScalarView,
};
use crate::text::{
    after_first, all_digits, decimal, decimal_int, digits_value, is_digit, is_white,
    lemma_decimal_digits, lemma_find_char, trim_of, word_len, words_of,
};

verus! {

// ---------------------------------------------------------------------------
// Numbers
// ---------------------------------------------------------------------------

/// A point and digits behind it, or nothing.
pub open spec fn fraction_text(fraction: Seq<char>) -> Seq<char> {
    if fraction.len() > 0 {
        seq!['.'] + fraction
    } else {
        Seq::empty()
    }
}

proof fn lemma_parts(negative: bool, whole: Seq<char>, fraction: Seq<char>)
    requires
        whole.len() > 0,
        all_digits(whole),
        all_digits(fraction),
    ensures
        decimal_parts(
            (if negative {
                seq!['-']
            } else {
                Seq::empty()
            }) + whole + fraction_text(fraction),
        ) == (DecimalView {
            negative,
            whole,
            fraction,
            exponent: None,
            power: Seq::empty(),
        }),
{
    let sign = if negative {
        seq!['-']
    } else {
        Seq::<char>::empty()
    };
    let t = sign + whole + fraction_text(fraction);
    let u = whole + fraction_text(fraction);
    assert(is_digit(whole[0]));
    if negative {
        assert(t[0] == '-');
        assert(t.drop_first() =~= u);
    } else {
        assert(t =~= u);
        assert(t[0] == whole[0]);
    }
    assert(unsigned_text(t) == u);
    assert forall|i: int| 0 <= i < u.len() implies u[i] != 'e' by {
        if i < whole.len() {
            assert(is_digit(whole[i]));
        } else if i > whole.len() {
            assert(u[i] == fraction[i - whole.len() - 1]);
            assert(is_digit(fraction[i - whole.len() - 1]));
        }
    }
    lemma_find_char(u, 'e', u.len() as int);
    assert(u.take(u.len() as int) =~= u);
    assert forall|i: int| 0 <= i < whole.len() implies u[i] != '.' by {
        assert(is_digit(whole[i]));
    }
    lemma_find_char(u, '.', whole.len() as int);
    assert(u.take(whole.len() as int) =~= whole);
    if fraction.len() > 0 {
        assert(u.skip(whole.len() as int + 1) =~= fraction);
    }
}

proof fn lemma_signed(v: int) -> (parts: (bool, Seq<char>))
    ensures
        parts.1.len() > 0,
        all_digits(parts.1),
        parts.0 == (v < 0),
        digits_value(parts.1) == (if v < 0 {
            -v
        } else {
            v
        }),
        decimal_int(v) == (if parts.0 {
            seq!['-']
        } else {
            Seq::empty()
        }) + parts.1,
{
    let n = (if v < 0 {
        -v
    } else {
        v
    }) as nat;
    lemma_decimal_digits(n);
    assert(Seq::<char>::empty() + decimal(n) =~= decimal(n));
    (v < 0, decimal(n))
}

/// A whole number is read as it is written, and a fraction behind it is cut off.
pub proof fn a_number_is_read_as_written(v: i32, fraction: Seq<char>)
    requires
        all_digits(fraction),
        fraction.len() == 0 || i32::MIN < v < i32::MAX,
    ensures
        scalar_i32(ScalarView::Number(decimal_int(v as int) + fraction_text(fraction))) == Some(v),
{
    let (negative, whole) = lemma_signed(v as int);
    lemma_parts(negative, whole, fraction);
}

/// A rate is rounded to the nearest whole one, halves up.
pub proof fn a_rate_is_rounded(n: u32, fraction: Seq<char>)
    requires
        all_digits(fraction),
        n < u32::MAX,
    ensures
        ({
            let t = decimal(n as nat) + fraction_text(fraction);
            let half_or_more = fraction.len() > 0 && fraction[0] as u32 >= '5' as u32;
            &&& half_or_more ==> rounded_u32(decimal_parts(t)) == Some((n + 1) as u32)
            &&& !half_or_more && n > 0 ==> rounded_u32(decimal_parts(t)) == Some(n)
            &&& !half_or_more && n == 0 ==> rounded_u32(decimal_parts(t)) is None
        }),
{
    let t = decimal(n as nat) + fraction_text(fraction);
    lemma_decimal_digits(n as nat);
    lemma_parts(false, decimal(n as nat), fraction);
    assert(t =~= Seq::<char>::empty() + decimal(n as nat) + fraction_text(fraction));
}

/// A rate is listed as it was read, but for a fraction that says nothing.
pub proof fn a_rate_is_listed_as_read(n: u32, fraction: Seq<char>)
    requires
        all_digits(fraction),
    ensures
        ({
            let t = decimal(n as nat) + fraction_text(fraction);
            let plain = forall|i: int| 0 <= i < fraction.len() ==> #[trigger] fraction[i] == '0';
            &&& plain ==> rate_text(t) == decimal(n as nat)
            &&& !plain ==> rate_text(t) == t
        }),
{
    let t = decimal(n as nat) + fraction_text(fraction);
    lemma_decimal_digits(n as nat);
    lemma_parts(false, decimal(n as nat), fraction);
    assert(t =~= Seq::<char>::empty() + decimal(n as nat) + fraction_text(fraction));
    assert(spacing(n as nat) == 1);
    assert(n as nat % 1 == 0);
}

/// A sign, or nothing.
pub open spec fn sign_text(negative: bool) -> Seq<char> {
    if negative {
        seq!['-']
    } else {
        Seq::empty()
    }
}

/// An exponent is read with its sign, a missing one being a plus, and its digits; what
/// stands before it is read as without it.
pub proof fn an_exponent_is_read(
    negative: bool,
    whole: Seq<char>,
    fraction: Seq<char>,
    sign: Option<char>,
    power: Seq<char>,
)
    requires
        whole.len() > 0,
        all_digits(whole),
        all_digits(fraction),
        all_digits(power),
        sign is Some ==> sign->0 == '-' || sign->0 == '+',
    ensures
        ({
            let mark = if sign is Some {
                seq!['e', sign->0]
            } else {
                seq!['e']
            };
            let t = sign_text(negative) + whole + fraction_text(fraction) + mark + power;
            decimal_parts(t) == (DecimalView {
                negative,
                whole,
                fraction,
                exponent: if sign == Some('-') {
                    Some('-')
                } else {
                    Some('+')
                },
                power,
            })
        }),
{
    let mark = if sign is Some {
        seq!['e', sign->0]
    } else {
        seq!['e']
    };
    let mantissa = whole + fraction_text(fraction);
    let u = mantissa + mark + power;
    let t = sign_text(negative) + whole + fraction_text(fraction) + mark + power;
    assert(is_digit(whole[0]));
    if negative {
        assert(t[0] == '-');
        assert(t.drop_first() =~= u);
    } else {
        assert(t =~= u);
        assert(t[0] == whole[0]);
    }
    assert(unsigned_text(t) == u);
    let e = mantissa.len() as int;
    assert forall|i: int| 0 <= i < e implies u[i] != 'e' by {
        assert(u[i] == mantissa[i]);
        if i < whole.len() {
            assert(is_digit(whole[i]));
        } else if i > whole.len() {
            assert(mantissa[i] == fraction[i - whole.len() - 1]);
            assert(is_digit(fraction[i - whole.len() - 1]));
        }
    }
    assert(u[e] == 'e');
    lemma_find_char(u, 'e', e);
    assert(u.take(e) =~= mantissa);
    assert forall|i: int| 0 <= i < whole.len() implies mantissa[i] != '.' by {
        assert(is_digit(whole[i]));
    }
    lemma_find_char(mantissa, '.', whole.len() as int);
    assert(mantissa.take(whole.len() as int) =~= whole);
    if fraction.len() > 0 {
        assert(mantissa.skip(whole.len() as int + 1) =~= fraction);
    }
    if sign is Some {
        assert(u[e + 1] == sign->0);
        assert(u.skip(e + 2) =~= power);
    } else {
        if power.len() > 0 {
            assert(u[e + 1] == power[0]);
            assert(is_digit(power[0]));
        }
        assert(u.skip(e + 1) =~= power);
    }
}

/// A small rate is listed with its zeros written out: a zero and the point, one zero less
/// than the power, and the digits.
pub proof fn a_small_rate_is_written_out(
    negative: bool,
    digit: Seq<char>,
    fraction: Seq<char>,
    k: nat,
)
    requires
        digit.len() == 1,
        all_digits(digit),
        all_digits(fraction),
        0 < k <= 400,
    ensures
        rate_text(
            sign_text(negative) + digit + fraction_text(fraction) + seq!['e', '-'] + decimal(k),
        ) == sign_text(negative) + "0."@ + Seq::new((k - 1) as nat, |i: int| '0') + digit + fraction,
{
    lemma_decimal_digits(k);
    an_exponent_is_read(negative, digit, fraction, Some('-'), decimal(k));
    reveal_strlit("0.");
    reveal_strlit("-0.");
    assert("-0."@ =~= seq!['-'] + "0."@);
    assert(Seq::<char>::empty() + "0."@ =~= "0."@);
    assert(crate::outputs::zeros((k - 1) as nat) =~= Seq::new((k - 1) as nat, |i: int| '0'));
}

// ---------------------------------------------------------------------------
// Monitors
// ---------------------------------------------------------------------------

/// The record has `value` under `key`, the first time that the key occurs.
pub open spec fn has_field(
    record: Seq<(Seq<char>, ScalarView)>,
    key: Seq<char>,
    value: ScalarView,
) -> bool {
    exists|i: int|
        {
            &&& 0 <= i < record.len()
            &&& #[trigger] record[i] == (key, value)
            &&& forall|j: int| 0 <= j < i ==> (#[trigger] record[j]).0 != key
        }
}

/// The record does not have `key`.
pub open spec fn lacks(record: Seq<(Seq<char>, ScalarView)>, key: Seq<char>) -> bool {
    forall|i: int| 0 <= i < record.len() ==> (#[trigger] record[i]).0 != key
}

/// The record has the whole number `v` under `key`.
pub open spec fn has_number(record: Seq<(Seq<char>, ScalarView)>, key: Seq<char>, v: i32) -> bool {
    has_field(record, key, ScalarView::Number(decimal_int(v as int)))
}

proof fn lemma_has(record: Seq<(Seq<char>, ScalarView)>, key: Seq<char>)
    ensures
        forall|value: ScalarView| #[trigger]
            has_field(record, key, value) ==> field_of(record, key) == Some(value),
        lacks(record, key) ==> field_of(record, key) is None,
    decreases record.len(),
{
    if record.len() > 0 {
        let rest = record.drop_first();
        lemma_has(rest, key);
        assert forall|value: ScalarView| #[trigger] has_field(record, key, value) implies field_of(
            record,
            key,
        ) == Some(value) by {
            let i = choose|i: int|
                {
                    &&& 0 <= i < record.len()
                    &&& #[trigger] record[i] == (key, value)
                    &&& forall|j: int| 0 <= j < i ==> (#[trigger] record[j]).0 != key
                };
            if i > 0 {
                assert(record[0].0 != key);
                assert(rest[i - 1] == (key, value));
                assert forall|j: int| 0 <= j < i - 1 implies (#[trigger] rest[j]).0 != key by {
                    assert(rest[j] == record[j + 1]);
                }
                assert(has_field(rest, key, value));
            }
        }
        if lacks(record, key) {
            assert(record[0].0 != key);
            assert forall|j: int| 0 <= j < rest.len() implies (#[trigger] rest[j]).0 != key by {
                assert(rest[j] == record[j + 1]);
            }
        }
    }
}

proof fn lemma_number(record: Seq<(Seq<char>, ScalarView)>, key: Seq<char>)
    ensures
        forall|v: i32| #[trigger]
            has_number(record, key, v) ==> crate::outputs::field_i32(record, key) == Some(v),
        lacks(record, key) ==> crate::outputs::field_i32(record, key) is None,
{
    lemma_has(record, key);
    assert forall|v: i32| #[trigger] has_number(record, key, v) implies crate::outputs::field_i32(
        record,
        key,
    ) == Some(v) by {
        a_number_is_read_as_written(v, Seq::empty());
        assert(decimal_int(v as int) + fraction_text(Seq::empty()) =~= decimal_int(v as int));
    }
}

/// A monitor is read as its record says: its name, and under the keys of these names
/// its place, its size and its refresh rate, each where it is there.
pub proof fn a_monitor_is_read_as_described(
    record: Seq<(Seq<char>, ScalarView)>,
    name: Seq<char>,
) -> (o: OutputView)
    requires
        has_field(record, "name"@, ScalarView::Text(name)),
        trim_of(name).len() > 0,
    ensures
        monitor_of_record(record) == Some(o),
        o.name == trim_of(name),
        forall|v: i32| #[trigger] has_number(record, "x"@, v) ==> o.x == Some(v),
        forall|v: i32| #[trigger] has_number(record, "y"@, v) ==> o.y == Some(v),
        forall|v: i32| #[trigger] has_number(record, "width"@, v) ==> o.width == Some(v),
        forall|v: i32| #[trigger] has_number(record, "height"@, v) ==> o.height == Some(v),
        lacks(record, "x"@) ==> o.x is None,
        lacks(record, "y"@) ==> o.y is None,
        lacks(record, "width"@) ==> o.width is None,
        lacks(record, "height"@) ==> o.height is None,
        forall|t: Seq<char>| #[trigger]
            has_field(record, "refreshRate"@, ScalarView::Number(t)) ==> o.refresh == Some(t),
        forall|t: Seq<char>|
            lacks(record, "refreshRate"@) && #[trigger] has_field(
                record,
                "refresh"@,
                ScalarView::Number(t),
            ) ==> o.refresh == Some(t),
        lacks(record, "refreshRate"@) && lacks(record, "refresh"@) ==> o.refresh is None,
{
    lemma_has(record, "name"@);
    lemma_number(record, "x"@);
    lemma_number(record, "y"@);
    lemma_number(record, "width"@);
    lemma_number(record, "height"@);
    lemma_has(record, "refreshRate"@);
    lemma_has(record, "refresh"@);
    monitor_of_record(record)->0
}

/// A record without a name, or with a blank one, is no monitor.
pub proof fn no_monitor_without_a_name(record: Seq<(Seq<char>, ScalarView)>)
    ensures
        lacks(record, "name"@) ==> monitor_of_record(record) is None,
        forall|name: Seq<char>| #[trigger]
            has_field(record, "name"@, ScalarView::Text(name)) && trim_of(name).len() == 0
                ==> monitor_of_record(record) is None,
{
    lemma_has(record, "name"@);
}

/// The monitors are those of the records, in order; the names are theirs.
pub proof fn monitors_keep_their_order(
    records: Seq<Seq<(Seq<char>, ScalarView)>>,
    record: Seq<(Seq<char>, ScalarView)>,
)
    ensures
        monitors_of(Seq::empty()).len() == 0,
        monitor_of_record(record) is None ==> monitors_of(records.push(record)) == monitors_of(
            records,
        ),
        monitor_of_record(record) is Some ==> monitors_of(records.push(record)) == monitors_of(
            records,
        ).push(monitor_of_record(record)->0),
        names_of(monitors_of(records)).len() == monitors_of(records).len(),
        forall|i: int|
            0 <= i < monitors_of(records).len() ==> names_of(monitors_of(records))[i] == (
            #[trigger] monitors_of(records)[i]).name,
{
    let f = |r: Seq<(Seq<char>, ScalarView)>| monitor_of_record(r);
    let all = records.push(record).map_values(f);
    assert(all.drop_last() =~= records.map_values(f));
    assert(all.last() == monitor_of_record(record));
}

/// A monitor is listed by its name; where its place and a proper size are known, they
/// stand behind it in columns, and the rate behind them where that is known.
pub proof fn a_monitor_is_listed_in_columns(o: OutputView)
    ensures
        ({
            let tab = seq!['\t'];
            let placed = o.x is Some && o.y is Some && o.width is Some && o.height is Some
                && o.width->0 > 0 && o.height->0 > 0;
            &&& !placed ==> o.line() == o.name
            &&& placed && o.refresh is None ==> o.line() == o.name + tab + decimal_int(
                o.x->0 as int,
            ) + tab + decimal_int(o.y->0 as int) + tab + decimal_int(o.width->0 as int) + tab
                + decimal_int(o.height->0 as int) + tab
            &&& placed && o.refresh is Some ==> o.line() == o.name + tab + decimal_int(
                o.x->0 as int,
            ) + tab + decimal_int(o.y->0 as int) + tab + decimal_int(o.width->0 as int) + tab
                + decimal_int(o.height->0 as int) + tab + rate_text(o.refresh->0)
        }),
{
    reveal_strlit("\t");
    assert("\t"@ =~= seq!['\t']);
    if o.has_layout() && o.refresh is None {
        let tab = seq!['\t'];
        let s = o.name + tab + decimal_int(o.x->0 as int) + tab + decimal_int(o.y->0 as int) + tab
            + decimal_int(o.width->0 as int) + tab + decimal_int(o.height->0 as int) + tab;
        assert(s + Seq::<char>::empty() =~= s);
    }
}

// ---------------------------------------------------------------------------
// The recorder's own listing
// ---------------------------------------------------------------------------

/// `pat` stands in `s` at `at`.
pub open spec fn stands_at(s: Seq<char>, pat: Seq<char>, at: int) -> bool {
    0 <= at && at + pat.len() <= s.len() && s.subrange(at, at + pat.len()) == pat
}

proof fn lemma_after_first(s: Seq<char>, pat: Seq<char>, at: int)
    requires
        stands_at(s, pat, at),
        forall|i: int| 0 <= i < at ==> !stands_at(s, pat, i),
    ensures
        after_first(s, pat) == Some(s.skip(at + pat.len())),
    decreases s.len(),
{
    if at == 0 {
        assert(s.subrange(pat.len() as int, s.len() as int) =~= s.skip(pat.len() as int));
    } else {
        assert(!stands_at(s, pat, 0));
        let t = s.drop_first();
        assert(t.subrange(at - 1, at - 1 + pat.len()) =~= s.subrange(at, at + pat.len()));
        assert forall|i: int| 0 <= i < at - 1 implies !stands_at(t, pat, i) by {
            if stands_at(t, pat, i) {
                assert(t.subrange(i, i + pat.len()) =~= s.subrange(i + 1, i + 1 + pat.len()));
                assert(stands_at(s, pat, i + 1));
            }
        }
        lemma_after_first(t, pat, at - 1);
        assert(t.skip(at - 1 + pat.len()) =~= s.skip(at + pat.len()));
    }
}

proof fn lemma_nowhere(s: Seq<char>, pat: Seq<char>)
    requires
        forall|i: int| !stands_at(s, pat, i),
    ensures
        after_first(s, pat) is None,
    decreases s.len(),
{
    assert(!stands_at(s, pat, 0));
    if s.len() > 0 {
        let t = s.drop_first();
        assert forall|i: int| !stands_at(t, pat, i) by {
            if stands_at(t, pat, i) {
                assert(t.subrange(i, i + pat.len()) =~= s.subrange(i + 1, i + 1 + pat.len()));
                assert(stands_at(s, pat, i + 1));
            }
        }
        lemma_nowhere(t, pat);
    }
}

/// `s` begins with white space, or is empty.
pub open spec fn starts_white(s: Seq<char>) -> bool {
    s.len() == 0 || is_white(s[0])
}

proof fn lemma_first_word(gap: Seq<char>, word: Seq<char>, tail: Seq<char>)
    requires
        forall|i: int| 0 <= i < gap.len() ==> is_white(#[trigger] gap[i]),
        word.len() > 0,
        forall|i: int| 0 <= i < word.len() ==> !is_white(#[trigger] word[i]),
        starts_white(tail),
    ensures
        words_of(gap + word + tail) == seq![word] + words_of(tail),
    decreases gap.len(),
{
    let s = gap + word + tail;
    if gap.len() > 0 {
        assert(s[0] == gap[0]);
        let rest = gap.drop_first();
        assert forall|i: int| 0 <= i < rest.len() implies is_white(#[trigger] rest[i]) by {
            assert(rest[i] == gap[i + 1]);
        }
        lemma_first_word(rest, word, tail);
        assert(s.drop_first() =~= rest + word + tail);
    } else {
        assert(s =~= word + tail);
        lemma_word(word, tail);
        assert(s[0] == word[0]);
        assert(s.subrange(0, word.len() as int) =~= word);
        assert(s.subrange(word.len() as int, s.len() as int) =~= tail);
    }
}

proof fn lemma_word(word: Seq<char>, tail: Seq<char>)
    requires
        forall|i: int| 0 <= i < word.len() ==> !is_white(#[trigger] word[i]),
        starts_white(tail),
    ensures
        word_len(word + tail) == word.len(),
    decreases word.len(),
{
    let s = word + tail;
    if word.len() > 0 {
        assert(s[0] == word[0]);
        let rest = word.drop_first();
        assert forall|i: int| 0 <= i < rest.len() implies !is_white(#[trigger] rest[i]) by {
            assert(rest[i] == word[i + 1]);
        }
        lemma_word(rest, tail);
        assert(s.drop_first() =~= rest + tail);
    } else {
        assert(s =~= tail);
    }
}

/// The first word of a text is what stands before white space; the others are those
/// of the rest.
pub proof fn words_stand_between_white_space(gap: Seq<char>, word: Seq<char>, tail: Seq<char>)
    requires
        forall|i: int| 0 <= i < gap.len() ==> is_white(#[trigger] gap[i]),
        word.len() > 0,
        forall|i: int| 0 <= i < word.len() ==> !is_white(#[trigger] word[i]),
        starts_white(tail),
    ensures
        words_of(gap + word + tail) == seq![word] + words_of(tail),
        words_of(gap).len() == 0,
    decreases gap.len(),
{
    lemma_first_word(gap, word, tail);
    if gap.len() > 0 {
        let rest = gap.drop_first();
        assert forall|i: int| 0 <= i < rest.len() implies is_white(#[trigger] rest[i]) by {
            assert(rest[i] == gap[i + 1]);
        }
        words_stand_between_white_space(rest, word, tail);
        assert(is_white(gap[0]));
    }
}

/// A line of the recorder's listing names the output that stands behind `Name:`; a
/// line without it names none.
pub proof fn a_listed_name_stands_behind_its_key(
    line: Seq<char>,
    head: Seq<char>,
    gap: Seq<char>,
    word: Seq<char>,
    tail: Seq<char>,
)
    requires
        trim_of(line) == head + "Name:"@ + (gap + word + tail),
        forall|i: int| 0 <= i < head.len() ==> !stands_at(trim_of(line), "Name:"@, i),
        forall|i: int| 0 <= i < gap.len() ==> is_white(#[trigger] gap[i]),
        word.len() > 0,
        forall|i: int| 0 <= i < word.len() ==> !is_white(#[trigger] word[i]),
        starts_white(tail),
    ensures
        listed_name(line) == Some(word),
{
    let s = trim_of(line);
    let at = head.len() as int;
    assert(s.subrange(at, at + "Name:"@.len()) =~= "Name:"@);
    lemma_after_first(s, "Name:"@, at);
    assert(s.skip(at + "Name:"@.len()) =~= gap + word + tail);
    words_stand_between_white_space(gap, word, tail);
    assert(words_of(gap + word + tail)[0] == word);
}

/// A line without `Name:` names no output, and the names come in the order of the
/// lines.
pub proof fn listed_names_keep_their_order(ls: Seq<Seq<char>>, line: Seq<char>)
    ensures
        (forall|i: int| !stands_at(trim_of(line), "Name:"@, i)) ==> listed_name(line) is None,
        listed_names(Seq::empty()).len() == 0,
        listed_name(line) is None ==> listed_names(ls.push(line)) == listed_names(ls),
        listed_name(line) is Some ==> listed_names(ls.push(line)) == listed_names(ls).push(
            listed_name(line)->0,
        ),
{
    if forall|i: int| !stands_at(trim_of(line), "Name:"@, i) {
        lemma_nowhere(trim_of(line), "Name:"@);
    }
    let f = |l: Seq<char>| listed_name(l);
    let all = ls.push(line).map_values(f);
    assert(all.drop_last() =~= ls.map_values(f));
    assert(all.last() == listed_name(line));
}

} // verus!
