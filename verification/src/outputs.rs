//! The Wayland outputs that are there, read from what `hyprctl` and
//! `wf-recorder` print.

use vstd::prelude::*;
use vstd::string::*;

use crate::seqs::somes;
use crate::text::{
    after_first, all_digits, clone_opt, concat2, decimal_int, digits_text, digits_value, find_after,
    find_char, i64_to_string, is_digit, lines, lines_of, opt_view, split_whitespace, str_eq,
    to_chars, trim, trim_of, u64_to_string, views, words_of,
};

verus! {

// ---------------------------------------------------------------------------
// JSON
// ---------------------------------------------------------------------------

/// A JSON value that is no array and no object. A number is kept as its decimal
/// text; of other values only that they are there.
#[derive(Debug, Clone, PartialEq, Eq)]
pub enum JsonScalar {
    Text(String),
    Number(String),
    Other,
}

/// What a [`JsonScalar`] says.
#[verifier::ext_equal]
pub enum ScalarView {
    Text(Seq<char>),
    Number(Seq<char>),
    Other,
}

impl View for JsonScalar {
    type V = ScalarView;

    open spec fn view(&self) -> ScalarView {
        match self {
            JsonScalar::Text(s) => ScalarView::Text(s@),
            JsonScalar::Number(t) => ScalarView::Number(t@),
            JsonScalar::Other => ScalarView::Other,
        }
    }
}

/// What the fields of an object say.
pub open spec fn record_view(v: Seq<(String, JsonScalar)>) -> Seq<(Seq<char>, ScalarView)> {
    v.map_values(|e: (String, JsonScalar)| (e.0@, e.1@))
}

/// What a list of objects says.
pub open spec fn records_view(
    v: Seq<Vec<(String, JsonScalar)>>,
) -> Seq<Seq<(Seq<char>, ScalarView)>> {
    v.map_values(|r: Vec<(String, JsonScalar)>| record_view(r@))
}

/// The elements of the JSON array that `text` holds, each as the fields of an
/// object; nothing if `text` holds no JSON array.
pub uninterp spec fn json_array(text: Seq<char>) -> Option<Seq<Seq<(Seq<char>, ScalarView)>>>;

/// `serde_json::from_str`, read into a `serde_json::Value`: the elements of the
/// array that `text` holds, each with the fields of its object (none if it is no
/// object), and each number as `serde_json::Number` writes it.
/// Nothing for text that is no JSON, or whose root is no array. The result
/// depends on the text alone; what it is for a given text is not stated.
#[verifier::external_body]
fn json_records(text: &str) -> (r: Option<Vec<Vec<(String, JsonScalar)>>>)
    ensures
        match r {
            Some(v) => json_array(text@) == Some(records_view(v@)),
            None => json_array(text@) is None,
        },
{
    let root: serde_json::Value = serde_json::from_str(text).ok()?;
    let mut out = Vec::new();
    for item in root.as_array()? {
        let mut record = Vec::new();
        for (key, value) in item.as_object().into_iter().flatten() {
            record.push((key.clone(), match value {
                serde_json::Value::String(s) => JsonScalar::Text(s.clone()),
                serde_json::Value::Number(n) => JsonScalar::Number(n.to_string()),
                _ => JsonScalar::Other,
            }));
        }
        out.push(record);
    }
    Some(out)
}

/// The value of the first field `key`.
pub open spec fn field_of(record: Seq<(Seq<char>, ScalarView)>, key: Seq<char>) -> Option<ScalarView>
    decreases record.len(),
{
    if record.len() == 0 {
        None
    } else if record[0].0 == key {
        Some(record[0].1)
    } else {
        field_of(record.drop_first(), key)
    }
}

fn find_field<'a>(record: &'a Vec<(String, JsonScalar)>, key: &str) -> (r: Option<&'a JsonScalar>)
    ensures
        match r {
            Some(v) => field_of(record_view(record@), key@) == Some(v@),
            None => field_of(record_view(record@), key@) is None,
        },
{
    let mut i: usize = 0;
    let ghost all = record_view(record@);
    assert(all.skip(0) =~= all);
    while i < record.len()
        invariant
            i <= record.len(),
            all == record_view(record@),
            field_of(all, key@) == field_of(all.skip(i as int), key@),
        decreases record.len() - i,
    {
        assert(all.skip(i as int)[0] == (record@[i as int].0@, record@[i as int].1@));
        assert(all.skip(i as int).drop_first() =~= all.skip(i + 1));
        if str_eq(record[i].0.as_str(), key) {
            return Some(&record[i].1);
        }
        i = i + 1;
    }
    None
}

// ---------------------------------------------------------------------------
// Decimal text
// ---------------------------------------------------------------------------

/// A number as text: `-` or nothing, digits, and a fraction or nothing. An
/// exponent stands only where the number is below a hundred-thousandth or from
/// ten to the sixteenth on, a negative one in the first case.
#[verifier::ext_equal]
pub struct DecimalView {
    pub negative: bool,
    /// The digits before the point.
    pub whole: Seq<char>,
    /// The digits after the point.
    pub fraction: Seq<char>,
    /// The sign of the exponent, where there is one.
    pub exponent: Option<char>,
    /// The digits of the exponent.
    pub power: Seq<char>,
}

/// The text without its sign.
pub open spec fn unsigned_text(t: Seq<char>) -> Seq<char> {
    if t.len() > 0 && t[0] == '-' {
        t.drop_first()
    } else {
        t
    }
}

/// Whether the text `u` has the sign of an exponent after the `e` at `e`.
pub open spec fn signed_power(u: Seq<char>, e: int) -> bool {
    e + 1 < u.len() && (u[e + 1] == '-' || u[e + 1] == '+')
}

/// The parts of a number's text.
pub open spec fn decimal_parts(t: Seq<char>) -> DecimalView {
    let u = unsigned_text(t);
    let e = find_char(u, 'e');
    let mantissa = u.take(e);
    let p = find_char(mantissa, '.');
    DecimalView {
        negative: t.len() > 0 && t[0] == '-',
        whole: mantissa.take(p),
        fraction: if p < mantissa.len() {
            mantissa.skip(p + 1)
        } else {
            Seq::empty()
        },
        exponent: if e < u.len() {
            if e + 1 < u.len() && u[e + 1] == '-' {
                Some('-')
            } else {
                Some('+')
            }
        } else {
            None
        },
        power: if e >= u.len() {
            Seq::empty()
        } else if signed_power(u, e) {
            u.skip(e + 2)
        } else {
            u.skip(e + 1)
        },
    }
}

/// No digit of the fraction counts.
pub open spec fn all_zeros(s: Seq<char>) -> bool {
    forall|i: int| 0 <= i < s.len() ==> #[trigger] s[i] == '0'
}

/// The number cut off after the point, where that fits a 32-bit integer and the
/// number itself is within its bounds.
pub open spec fn truncated_i32(d: DecimalView) -> Option<i32> {
    let n = digits_value(d.whole);
    let limit: nat = if d.negative {
        0x8000_0000
    } else {
        0x7fff_ffff
    };
    match d.exponent {
        Some('-') => Some(0),
        Some(_) => None,
        None => if !all_digits(d.whole) {
            None
        } else if n < limit || (n == limit && all_zeros(d.fraction)) {
            Some(
                (if d.negative {
                    -(n as int)
                } else {
                    n as int
                }) as i32,
            )
        } else {
            None
        },
    }
}

/// The number rounded to the nearest whole one, halves up, not above `u32::MAX`;
/// nothing for zero and for a negative number.
pub open spec fn rounded_u32(d: DecimalView) -> Option<u32> {
    let n = digits_value(d.whole) + (if d.fraction.len() > 0 && d.fraction[0] as u32 >= 0x35 {
        1nat
    } else {
        0
    });
    if d.negative || d.exponent == Some('-') || !all_digits(d.whole) {
        None
    } else if d.exponent is Some || n > u32::MAX {
        Some(u32::MAX)
    } else if n == 0 {
        None
    } else {
        Some(n as u32)
    }
}

struct Decimal {
    negative: bool,
    whole: Vec<char>,
    fraction: Vec<char>,
    exponent: Option<char>,
    power: Vec<char>,
}

impl Decimal {
    spec fn view(&self) -> DecimalView {
        DecimalView {
            negative: self.negative,
            whole: self.whole@,
            fraction: self.fraction@,
            exponent: self.exponent,
            power: self.power@,
        }
    }
}

fn take_chars(cs: &Vec<char>, from: usize, to: usize) -> (r: Vec<char>)
    requires
        from <= to <= cs.len(),
    ensures
        r@ == cs@.subrange(from as int, to as int),
{
    let mut out: Vec<char> = Vec::new();
    let mut i: usize = from;
    while i < to
        invariant
            from <= i <= to <= cs.len(),
            out@ == cs@.subrange(from as int, i as int),
        decreases to - i,
    {
        out.push(cs[i]);
        assert(out@ =~= cs@.subrange(from as int, i + 1));
        i = i + 1;
    }
    out
}

fn index_of(cs: &Vec<char>, from: usize, to: usize, c: char) -> (r: usize)
    requires
        from <= to <= cs.len(),
    ensures
        from <= r <= to,
        r - from == find_char(cs@.subrange(from as int, to as int), c),
{
    let mut i: usize = from;
    while i < to && cs[i] != c
        invariant
            from <= i <= to <= cs.len(),
            forall|k: int| from <= k < i ==> cs@[k] != c,
        decreases to - i,
    {
        i = i + 1;
    }
    proof {
        let s = cs@.subrange(from as int, to as int);
        crate::text::lemma_find_char(s, c, i - from);
    }
    i
}

fn read_decimal(t: &str) -> (r: Decimal)
    ensures
        r.view() == decimal_parts(t@),
{
    let cs = to_chars(t);
    let n: usize = cs.len();
    let negative = n > 0 && cs[0] == '-';
    let start: usize = if negative {
        1
    } else {
        0
    };
    let ghost u = unsigned_text(t@);
    assert(cs@.subrange(start as int, n as int) =~= u);
    let e: usize = index_of(&cs, start, n, 'e');
    let ghost mantissa = u.take(e - start);
    assert(cs@.subrange(start as int, e as int) =~= mantissa);
    let p: usize = index_of(&cs, start, e, '.');
    let whole = take_chars(&cs, start, p);
    assert(whole@ =~= mantissa.take(p - start));
    let fraction = if p < e {
        take_chars(&cs, p + 1, e)
    } else {
        Vec::new()
    };
    proof {
        if p < e {
            assert(fraction@ =~= mantissa.skip(p - start + 1));
        } else {
            assert(fraction@ =~= Seq::<char>::empty());
        }
    }
    let exponent = if e < n {
        if e + 1 < n && cs[e + 1] == '-' {
            Some('-')
        } else {
            Some('+')
        }
    } else {
        None
    };
    let power = if e >= n {
        Vec::new()
    } else if e + 1 < n && (cs[e + 1] == '-' || cs[e + 1] == '+') {
        take_chars(&cs, e + 2, n)
    } else {
        take_chars(&cs, e + 1, n)
    };
    proof {
        assert(forall|i: int| 0 <= i < u.len() ==> u[i] == cs@[start + i]);
        if e >= n {
            assert(power@ =~= Seq::<char>::empty());
        } else if signed_power(u, e - start) {
            assert(power@ =~= u.skip(e - start + 2));
        } else {
            assert(power@ =~= u.skip(e - start + 1));
        }
    }
    Decimal { negative, whole, fraction, exponent, power }
}

/// The value of digits, not above `cap`.
fn capped_value(digits: &Vec<char>, cap: u64) -> (r: u64)
    requires
        all_digits(digits@),
    ensures
        r == (if digits_value(digits@) <= cap {
            digits_value(digits@) as u64
        } else {
            cap
        }),
{
    let mut v: u64 = 0;
    let mut i: usize = 0;
    let ghost d = digits@;
    assert(d.take(0) =~= Seq::<char>::empty());
    while i < digits.len()
        invariant
            i <= digits.len(),
            d == digits@,
            all_digits(d),
            v <= cap,
            v == (if digits_value(d.take(i as int)) <= cap {
                digits_value(d.take(i as int)) as u64
            } else {
                cap
            }),
        decreases digits.len() - i,
    {
        assert(is_digit(d[i as int]));
        let u: u32 = digits[i] as u32;
        let x: u32 = u - 0x30;
        assert(d.take(i + 1).drop_last() =~= d.take(i as int));
        let next: u128 = v as u128 * 10 + x as u128;
        proof {
            let before = digits_value(d.take(i as int));
            assert(digits_value(d.take(i + 1)) == before * 10 + x);
            if before > cap {
                assert(before * 10 + x > cap);
            }
        }
        v = if next > cap as u128 {
            cap
        } else {
            next as u64
        };
        i = i + 1;
    }
    assert(d.take(d.len() as int) =~= d);
    v
}

fn are_digits(cs: &Vec<char>) -> (r: bool)
    ensures
        r == all_digits(cs@),
{
    let mut i: usize = 0;
    while i < cs.len()
        invariant
            i <= cs.len(),
            forall|k: int| 0 <= k < i ==> is_digit(#[trigger] cs@[k]),
        decreases cs.len() - i,
    {
        let u: u32 = cs[i] as u32;
        if u < 0x30 || u > 0x39 {
            assert(!is_digit(cs@[i as int]));
            return false;
        }
        i = i + 1;
    }
    true
}

fn are_zeros(cs: &Vec<char>) -> (r: bool)
    ensures
        r == all_zeros(cs@),
{
    let mut i: usize = 0;
    while i < cs.len()
        invariant
            i <= cs.len(),
            forall|k: int| 0 <= k < i ==> #[trigger] cs@[k] == '0',
        decreases cs.len() - i,
    {
        if cs[i] != '0' {
            assert(cs@[i as int] != '0');
            return false;
        }
        i = i + 1;
    }
    true
}

fn truncate_i32(d: &Decimal) -> (r: Option<i32>)
    ensures
        r == truncated_i32(d.view()),
{
    match d.exponent {
        Some(c) => {
            if c == '-' {
                return Some(0);
            }
            return None;
        },
        None => {},
    }
    if !are_digits(&d.whole) {
        return None;
    }
    let limit: u64 = if d.negative {
        0x8000_0000
    } else {
        0x7fff_ffff
    };
    let n: u64 = capped_value(&d.whole, 0x1_0000_0000);
    if n < limit || (n == limit && are_zeros(&d.fraction)) {
        if d.negative {
            Some((-(n as i64)) as i32)
        } else {
            Some(n as i32)
        }
    } else {
        None
    }
}

/// The refresh rate `text` as a whole number of frames: rounded, and nothing for
/// zero or a negative rate.
pub fn whole_rate(text: &str) -> (r: Option<u32>)
    ensures
        r == rounded_u32(decimal_parts(text@)),
{
    let d = read_decimal(text);
    if d.negative {
        return None;
    }
    match d.exponent {
        Some(c) => {
            if c == '-' {
                return None;
            }
        },
        None => {},
    }
    if !are_digits(&d.whole) {
        return None;
    }
    if d.exponent.is_some() {
        return Some(0xffff_ffff);
    }
    let up: u64 = if d.fraction.len() > 0 && d.fraction[0] as u32 >= 0x35 {
        1
    } else {
        0
    };
    let n: u64 = capped_value(&d.whole, 0x1_0000_0000) + up;
    if n > 0xffff_ffff {
        Some(0xffff_ffff)
    } else if n == 0 {
        None
    } else {
        Some(n as u32)
    }
}

// ---------------------------------------------------------------------------
// Outputs
// ---------------------------------------------------------------------------

/// A Wayland output. What is not known of its layout is left out, never made up.
#[derive(Debug, PartialEq, Eq)]
pub struct OutputInfo {
    pub name: String,
    /// Layout origin.
    pub x: Option<i32>,
    pub y: Option<i32>,
    pub width: Option<i32>,
    pub height: Option<i32>,
    /// Refresh rate in Hz, as decimal text.
    pub refresh: Option<String>,
}

/// What an [`OutputInfo`] says.
#[verifier::ext_equal]
pub struct OutputView {
    pub name: Seq<char>,
    pub x: Option<i32>,
    pub y: Option<i32>,
    pub width: Option<i32>,
    pub height: Option<i32>,
    pub refresh: Option<Seq<char>>,
}

impl View for OutputInfo {
    type V = OutputView;

    open spec fn view(&self) -> OutputView {
        OutputView {
            name: self.name@,
            x: self.x,
            y: self.y,
            width: self.width,
            height: self.height,
            refresh: opt_view(self.refresh),
        }
    }
}

impl Clone for OutputInfo {
    fn clone(&self) -> (r: Self)
        ensures
            r@ == self@,
    {
        OutputInfo {
            name: self.name.clone(),
            x: self.x,
            y: self.y,
            width: self.width,
            height: self.height,
            refresh: clone_opt(&self.refresh),
        }
    }
}

/// What a list of outputs says.
pub open spec fn output_views(v: Seq<OutputInfo>) -> Seq<OutputView> {
    v.map_values(|o: OutputInfo| o@)
}

/// The names of outputs.
pub open spec fn names_of(v: Seq<OutputView>) -> Seq<Seq<char>> {
    v.map_values(|o: OutputView| o.name)
}

/// The step between the numbers around `n` that a double can hold: one below two
/// to the fifty-third, and doubled with each binary digit more.
pub open spec fn spacing(n: nat) -> nat
    decreases n,
{
    if n < 0x20_0000_0000_0000 {
        1
    } else {
        2 * spacing(n / 2)
    }
}

/// The number nearest to `n` that a double can hold; of two the even one.
pub open spec fn nearest_double(n: nat) -> nat {
    let e = spacing(n);
    let rest = n % e;
    let below = (n - rest) as nat;
    if 2 * rest > e || (2 * rest == e && (n / e) % 2 == 1) {
        below + e
    } else {
        below
    }
}

/// A whole rate, kept within 64 bits.
pub open spec fn whole_text(negative: bool, n: nat) -> Seq<char> {
    let m = if n < 0x8000_0000_0000_0000 {
        nearest_double(n) as int
    } else {
        0x8000_0000_0000_0000
    };
    if negative {
        decimal_int(-m)
    } else if m < 0x8000_0000_0000_0000 {
        decimal_int(m)
    } else {
        decimal_int(0x7fff_ffff_ffff_ffff)
    }
}

/// `n` zeros.
pub open spec fn zeros(n: nat) -> Seq<char> {
    Seq::new(n, |i: int| '0')
}

/// The parts are those of a number within the reach of a double.
pub open spec fn is_number(d: DecimalView) -> bool {
    &&& d.whole.len() > 0 && all_digits(d.whole)
    &&& all_digits(d.fraction)
    &&& all_digits(d.power)
    &&& d.exponent is Some ==> 0 < digits_value(d.power) <= 400
    &&& d.exponent == Some('-') ==> d.whole.len() == 1
    &&& d.exponent == Some('+') ==> d.fraction.len() <= digits_value(d.power)
}

/// A refresh rate in digits alone: a whole one without a fraction, any other with
/// its fraction written out.
pub open spec fn rate_text(t: Seq<char>) -> Seq<char> {
    let d = decimal_parts(t);
    let power = digits_value(d.power);
    if !is_number(d) {
        t
    } else if d.exponent == Some('-') {
        (if d.negative {
            "-0."@
        } else {
            "0."@
        }) + zeros((power - 1) as nat) + d.whole + d.fraction
    } else if d.exponent is Some {
        whole_text(
            d.negative,
            digits_value(d.whole + d.fraction + zeros((power - d.fraction.len()) as nat)),
        )
    } else if all_zeros(d.fraction) {
        whole_text(d.negative, digits_value(d.whole))
    } else {
        t
    }
}

impl OutputView {
    /// An output of which only the name is known.
    pub open spec fn named(name: Seq<char>) -> OutputView {
        OutputView { name, x: None, y: None, width: None, height: None, refresh: None }
    }

    /// Whether the place and a proper size of the output are known.
    pub open spec fn has_layout(self) -> bool {
        &&& self.x is Some
        &&& self.y is Some
        &&& self.width is Some && self.width->0 > 0
        &&& self.height is Some && self.height->0 > 0
    }

    /// The line that lists the output: its name, and with a layout also place,
    /// size and rate, in columns.
    pub open spec fn line(self) -> Seq<char> {
        if self.has_layout() {
            self.name + "\t"@ + decimal_int(self.x->0 as int) + "\t"@ + decimal_int(
                self.y->0 as int,
            ) + "\t"@ + decimal_int(self.width->0 as int) + "\t"@ + decimal_int(
                self.height->0 as int,
            ) + "\t"@ + (match self.refresh {
                Some(t) => rate_text(t),
                None => Seq::empty(),
            })
        } else {
            self.name
        }
    }
}

fn zeros_text(n: u64) -> (r: String)
    ensures
        r@ == zeros(n as nat),
{
    let mut s = String::new();
    let mut k: u64 = 0;
    proof {
        reveal_strlit("0");
    }
    while k < n
        invariant
            k <= n,
            "0"@.len() == 1,
            "0"@[0] == '0',
            s@ =~= zeros(k as nat),
        decreases n - k,
    {
        s.append("0");
        k = k + 1;
    }
    s
}

fn spacing_of(n: u64) -> (r: u64)
    ensures
        r == spacing(n as nat),
        r >= 1,
        n >= 0x10_0000_0000_0000 ==> 0x10_0000_0000_0000 * r <= n,
        n < 0x10_0000_0000_0000 ==> r == 1,
    decreases n,
{
    if n < 0x20_0000_0000_0000 {
        1
    } else {
        2 * spacing_of(n / 2)
    }
}

fn round_to_double(n: u64) -> (r: u64)
    requires
        n < 0x8000_0000_0000_0000,
    ensures
        r == nearest_double(n as nat),
        r <= 0x8000_0000_0000_0000 + 0x800,
{
    let e: u64 = spacing_of(n);
    let rest: u64 = n % e;
    let below: u64 = n - rest;
    if 2 * rest > e || (2 * rest == e && (n / e) % 2 == 1) {
        below + e
    } else {
        below
    }
}

fn whole_rate_text(negative: bool, digits: &Vec<char>) -> (r: String)
    requires
        all_digits(digits@),
    ensures
        r@ == whole_text(negative, digits_value(digits@)),
{
    let n: u64 = capped_value(digits, 0x8000_0000_0000_0000);
    let m: u64 = if n < 0x8000_0000_0000_0000 {
        round_to_double(n)
    } else {
        0x8000_0000_0000_0000
    };
    if negative && m > 0 {
        proof {
            reveal_strlit("-");
            assert("-"@ =~= seq!['-']);
        }
        concat2("-", u64_to_string(m).as_str())
    } else if negative {
        u64_to_string(0)
    } else if m < 0x8000_0000_0000_0000 {
        i64_to_string(m as i64)
    } else {
        i64_to_string(0x7fff_ffff_ffff_ffff)
    }
}

/// A refresh rate for a list, in digits alone.
pub fn format_refresh_hz(t: &str) -> (r: String)
    ensures
        r@ == rate_text(t@),
{
    let d = read_decimal(t);
    if d.whole.len() == 0 || !are_digits(&d.whole) || !are_digits(&d.fraction) || !are_digits(
        &d.power,
    ) {
        return t.to_owned();
    }
    let power: u64 = capped_value(&d.power, 401);
    match d.exponent {
        Some(sign) => {
            if power == 0 || power > 400 {
                return t.to_owned();
            }
            if sign == '-' {
                if d.whole.len() != 1 {
                    return t.to_owned();
                }
                let mut s = if d.negative {
                    "-0.".to_owned()
                } else {
                    "0.".to_owned()
                };
                s.append(zeros_text(power - 1).as_str());
                s.append(digits_text(&d.whole).as_str());
                s.append(digits_text(&d.fraction).as_str());
                return s;
            }
            if d.fraction.len() as u64 > power {
                return t.to_owned();
            }
            let mut digits = take_chars(&d.whole, 0, d.whole.len());
            assert(digits@ =~= d.whole@);
            let mut i: usize = 0;
            while i < d.fraction.len()
                invariant
                    i <= d.fraction.len(),
                    all_digits(d.fraction@),
                    all_digits(digits@),
                    digits@ =~= d.whole@ + d.fraction@.take(i as int),
                decreases d.fraction.len() - i,
            {
                assert(is_digit(d.fraction@[i as int]));
                digits.push(d.fraction[i]);
                i = i + 1;
            }
            assert(d.fraction@.take(i as int) =~= d.fraction@);
            let ghost start = digits@;
            let more: u64 = power - d.fraction.len() as u64;
            let mut k: u64 = 0;
            while k < more
                invariant
                    k <= more,
                    all_digits(digits@),
                    digits@ =~= start + zeros(k as nat),
                decreases more - k,
            {
                digits.push('0');
                k = k + 1;
            }
            whole_rate_text(d.negative, &digits)
        },
        None => if are_zeros(&d.fraction) {
            whole_rate_text(d.negative, &d.whole)
        } else {
            t.to_owned()
        },
    }
}

impl OutputInfo {
    /// An output of which only the name is known.
    pub fn names_only(name: &str) -> (r: Self)
        ensures
            r@ == OutputView::named(name@),
    {
        OutputInfo {
            name: name.to_owned(),
            x: None,
            y: None,
            width: None,
            height: None,
            refresh: None,
        }
    }

    /// Whether the place and a proper size of the output are known.
    pub fn has_geometry(&self) -> (r: bool)
        ensures
            r == self@.has_layout(),
    {
        match (self.x, self.y, self.width, self.height) {
            (Some(_), Some(_), Some(w), Some(h)) => w > 0 && h > 0,
            _ => false,
        }
    }

    /// The line that lists the output.
    pub fn display_line(&self) -> (r: String)
        ensures
            r@ == self@.line(),
    {
        if !self.has_geometry() {
            return self.name.clone();
        }
        let x: i32 = self.x.unwrap();
        let y: i32 = self.y.unwrap();
        let w: i32 = self.width.unwrap();
        let h: i32 = self.height.unwrap();
        let mut s = self.name.clone();
        s.append("\t");
        s.append(i64_to_string(x as i64).as_str());
        s.append("\t");
        s.append(i64_to_string(y as i64).as_str());
        s.append("\t");
        s.append(i64_to_string(w as i64).as_str());
        s.append("\t");
        s.append(i64_to_string(h as i64).as_str());
        s.append("\t");
        let rate = match &self.refresh {
            Some(t) => format_refresh_hz(t.as_str()),
            None => String::new(),
        };
        s.append(rate.as_str());
        s
    }
}

/// The names of outputs.
pub fn output_names(inventory: &Vec<OutputInfo>) -> (r: Vec<String>)
    ensures
        views(r@) == names_of(output_views(inventory@)),
{
    let mut out: Vec<String> = Vec::new();
    let mut i: usize = 0;
    while i < inventory.len()
        invariant
            i <= inventory.len(),
            out.len() == i,
            forall|k: int| 0 <= k < i ==> (#[trigger] out@[k])@ == inventory@[k].name@,
        decreases inventory.len() - i,
    {
        out.push(inventory[i].name.clone());
        i = i + 1;
    }
    assert(views(out@) =~= names_of(output_views(inventory@)));
    out
}

// ---------------------------------------------------------------------------
// hyprctl
// ---------------------------------------------------------------------------

/// A value as a 32-bit integer, where it is a number that fits.
pub open spec fn scalar_i32(s: ScalarView) -> Option<i32> {
    match s {
        ScalarView::Number(t) => truncated_i32(decimal_parts(t)),
        _ => None,
    }
}

/// A value as a rate, where it is a number.
pub open spec fn scalar_rate(s: ScalarView) -> Option<Seq<char>> {
    match s {
        ScalarView::Number(t) => Some(t),
        _ => None,
    }
}

/// An integer field of a record.
pub open spec fn field_i32(record: Seq<(Seq<char>, ScalarView)>, key: Seq<char>) -> Option<i32> {
    match field_of(record, key) {
        Some(s) => scalar_i32(s),
        None => None,
    }
}

/// The output that a record of `hyprctl monitors -j` describes; a record without
/// a name describes none.
pub open spec fn monitor_of_record(record: Seq<(Seq<char>, ScalarView)>) -> Option<OutputView> {
    match field_of(record, "name"@) {
        Some(ScalarView::Text(name)) => if trim_of(name).len() == 0 {
            None
        } else {
            Some(
                OutputView {
                    name: trim_of(name),
                    x: field_i32(record, "x"@),
                    y: field_i32(record, "y"@),
                    width: field_i32(record, "width"@),
                    height: field_i32(record, "height"@),
                    refresh: match field_of(record, "refreshRate"@) {
                        Some(s) => scalar_rate(s),
                        None => match field_of(record, "refresh"@) {
                            Some(s) => scalar_rate(s),
                            None => None,
                        },
                    },
                },
            )
        },
        _ => None,
    }
}

/// The outputs that records of `hyprctl monitors -j` describe.
pub open spec fn monitors_of(records: Seq<Seq<(Seq<char>, ScalarView)>>) -> Seq<OutputView> {
    somes(records.map_values(|r: Seq<(Seq<char>, ScalarView)>| monitor_of_record(r)))
}

fn as_i32(v: Option<&JsonScalar>) -> (r: Option<i32>)
    ensures
        r == (match v {
            Some(s) => scalar_i32(s@),
            None => None,
        }),
{
    match v {
        Some(JsonScalar::Number(t)) => truncate_i32(&read_decimal(t.as_str())),
        _ => None,
    }
}

fn as_rate(v: &JsonScalar) -> (r: Option<String>)
    ensures
        opt_view(r) == scalar_rate(v@),
{
    match v {
        JsonScalar::Number(t) => Some(t.clone()),
        _ => None,
    }
}

fn monitor_from_record(record: &Vec<(String, JsonScalar)>) -> (r: Option<OutputInfo>)
    ensures
        match r {
            Some(o) => monitor_of_record(record_view(record@)) == Some(o@),
            None => monitor_of_record(record_view(record@)) is None,
        },
{
    let name = match find_field(record, "name") {
        Some(JsonScalar::Text(n)) => trim(n.as_str()),
        _ => {
            return None;
        },
    };
    if name.is_empty() {
        return None;
    }
    let refresh = match find_field(record, "refreshRate") {
        Some(v) => as_rate(v),
        None => match find_field(record, "refresh") {
            Some(v) => as_rate(v),
            None => None,
        },
    };
    Some(
        OutputInfo {
            name: name.to_owned(),
            x: as_i32(find_field(record, "x")),
            y: as_i32(find_field(record, "y")),
            width: as_i32(find_field(record, "width")),
            height: as_i32(find_field(record, "height")),
            refresh,
        },
    )
}

/// The outputs that records of `hyprctl monitors -j` describe.
pub fn monitors_from_records(records: &Vec<Vec<(String, JsonScalar)>>) -> (r: Vec<OutputInfo>)
    ensures
        output_views(r@) == monitors_of(records_view(records@)),
{
    let mut out: Vec<OutputInfo> = Vec::new();
    let mut i: usize = 0;
    let ghost f = |r: Seq<(Seq<char>, ScalarView)>| monitor_of_record(r);
    let ghost all = records_view(records@).map_values(f);
    assert(output_views(out@) =~= somes(all.take(0)));
    while i < records.len()
        invariant
            i <= records.len(),
            f == (|r: Seq<(Seq<char>, ScalarView)>| monitor_of_record(r)),
            all == records_view(records@).map_values(f),
            output_views(out@) == somes(all.take(i as int)),
        decreases records.len() - i,
    {
        let ghost before = out@;
        proof {
            let next = all.take(i + 1);
            assert(next.drop_last() =~= all.take(i as int));
            assert(records_view(records@)[i as int] == record_view(records@[i as int]@));
            assert(next.last() == monitor_of_record(record_view(records@[i as int]@)));
        }
        if let Some(o) = monitor_from_record(&records[i]) {
            let ghost v = o@;
            out.push(o);
            assert(output_views(out@) =~= output_views(before).push(v));
        }
        i = i + 1;
    }
    assert(all.take(all.len() as int) =~= all);
    out
}

/// The outputs that `hyprctl monitors -j` lists; nothing if the text is no JSON
/// array.
pub fn parse_hyprctl_monitors(json: &str) -> (r: Option<Vec<OutputInfo>>)
    ensures
        match r {
            Some(v) => json_array(json@) is Some && output_views(v@) == monitors_of(
                json_array(json@)->0,
            ),
            None => json_array(json@) is None,
        },
{
    match json_records(json) {
        Some(records) => Some(monitors_from_records(&records)),
        None => None,
    }
}

/// The names of the outputs that `hyprctl monitors -j` lists.
pub fn parse_hyprctl_monitor_names(json: &str) -> (r: Option<Vec<String>>)
    ensures
        match r {
            Some(v) => json_array(json@) is Some && views(v@) == names_of(
                monitors_of(json_array(json@)->0),
            ),
            None => json_array(json@) is None,
        },
{
    match parse_hyprctl_monitors(json) {
        Some(v) => Some(output_names(&v)),
        None => None,
    }
}

/// The inventory from what `hyprctl monitors -j` printed, if it lists any output.
pub fn inventory_from_hyprctl(stdout: &str) -> (r: Option<Vec<OutputInfo>>)
    ensures
        match r {
            Some(v) => json_array(stdout@) is Some && output_views(v@) == monitors_of(
                json_array(stdout@)->0,
            ) && v@.len() > 0,
            None => json_array(stdout@) is None || monitors_of(json_array(stdout@)->0).len() == 0,
        },
{
    match parse_hyprctl_monitors(stdout) {
        Some(v) => {
            assert(output_views(v@).len() == v@.len());
            if v.len() == 0 {
                None
            } else {
                Some(v)
            }
        },
        None => None,
    }
}

// ---------------------------------------------------------------------------
// wf-recorder
// ---------------------------------------------------------------------------

/// The output name on a line of `wf-recorder -L`: the word after `Name:`.
pub open spec fn listed_name(line: Seq<char>) -> Option<Seq<char>> {
    match after_first(trim_of(line), "Name:"@) {
        Some(rest) => if words_of(rest).len() > 0 {
            Some(words_of(rest)[0])
        } else {
            None
        },
        None => None,
    }
}

/// The output names on the lines of `wf-recorder -L`.
pub open spec fn listed_names(ls: Seq<Seq<char>>) -> Seq<Seq<char>> {
    somes(ls.map_values(|l: Seq<char>| listed_name(l)))
}

/// The output names that `wf-recorder -L` lists.
pub fn parse_wf_recorder_list_names(text: &str) -> (r: Vec<String>)
    ensures
        views(r@) == listed_names(lines_of(text@)),
{
    let ls = lines(text);
    let mut out: Vec<String> = Vec::new();
    let mut i: usize = 0;
    let ghost all = lines_of(text@);
    let ghost f = |l: Seq<char>| listed_name(l);
    assert(views(out@) =~= somes(all.map_values(f).take(0)));
    while i < ls.len()
        invariant
            i <= ls.len(),
            views(ls@) == all,
            f == (|l: Seq<char>| listed_name(l)),
            views(out@) == somes(all.map_values(f).take(i as int)),
        decreases ls.len() - i,
    {
        let ghost before = out@;
        proof {
            let next = all.map_values(f).take(i + 1);
            assert(ls@.len() == all.len());
            assert(next.drop_last() =~= all.map_values(f).take(i as int));
            assert(all[i as int] == ls@[i as int]@);
            assert(next.last() == listed_name(ls@[i as int]@));
        }
        if let Some(rest) = find_after(trim(ls[i].as_str()), "Name:") {
            let words = split_whitespace(rest);
            assert(words@.len() == words_of(rest@).len());
            if words.len() > 0 {
                assert(words@[0]@ == words_of(rest@)[0]);
                out.push(words[0].clone());
                assert(views(out@) =~= views(before).push(words@[0]@));
            }
        }
        i = i + 1;
    }
    assert(ls@.len() == all.len());
    assert(all.map_values(f).take(ls@.len() as int) =~= all.map_values(f));
    out
}

/// The outputs that `wf-recorder -L` lists: names alone.
pub fn parse_wf_recorder_list_inventory(text: &str) -> (r: Vec<OutputInfo>)
    ensures
        output_views(r@) == listed_names(lines_of(text@)).map_values(
            |n: Seq<char>| OutputView::named(n),
        ),
{
    let names = parse_wf_recorder_list_names(text);
    let mut out: Vec<OutputInfo> = Vec::new();
    let mut i: usize = 0;
    while i < names.len()
        invariant
            i <= names.len(),
            out.len() == i,
            forall|k: int| 0 <= k < i ==> (#[trigger] out@[k])@ == OutputView::named(names@[k]@),
        decreases names.len() - i,
    {
        out.push(OutputInfo::names_only(names[i].as_str()));
        i = i + 1;
    }
    proof {
        let want = listed_names(lines_of(text@));
        assert(views(names@).len() == names.len());
        assert forall|k: int| 0 <= k < out.len() implies output_views(out@)[k]
            == OutputView::named(want[k]) by {
            assert(views(names@)[k] == names@[k]@);
        }
        assert(output_views(out@) =~= want.map_values(|n: Seq<char>| OutputView::named(n)));
    }
    out
}

/// The first output name that `wf-recorder -L` lists.
pub fn parse_first_wf_recorder_list_name(text: &str) -> (r: Option<String>)
    ensures
        opt_view(r) == (if listed_names(lines_of(text@)).len() > 0 {
            Some(listed_names(lines_of(text@))[0])
        } else {
            None
        }),
{
    let names = parse_wf_recorder_list_names(text);
    assert(views(names@).len() == names.len());
    if names.len() > 0 {
        assert(views(names@)[0] == names@[0]@);
        Some(names[0].clone())
    } else {
        None
    }
}

/// The inventory from what `wf-recorder -L` printed. What it wrote to stderr
/// counts only if it wrote nothing else and succeeded.
pub fn inventory_from_wf_recorder(stdout: &str, stderr: &str, success: bool) -> (r: Vec<OutputInfo>)
    ensures
        output_views(r@) == (if trim_of(stdout@).len() > 0 {
            listed_names(lines_of(stdout@)).map_values(|n: Seq<char>| OutputView::named(n))
        } else if success {
            listed_names(lines_of(stderr@)).map_values(|n: Seq<char>| OutputView::named(n))
        } else {
            Seq::empty()
        }),
{
    if !trim(stdout).is_empty() {
        parse_wf_recorder_list_inventory(stdout)
    } else if success {
        parse_wf_recorder_list_inventory(stderr)
    } else {
        let none: Vec<OutputInfo> = Vec::new();
        assert(output_views(none@) =~= Seq::empty());
        none
    }
}

/// A listing of names alone never has a layout.
pub proof fn listed_outputs_have_no_layout(name: Seq<char>)
    ensures
        !OutputView::named(name).has_layout(),
        OutputView::named(name).line() == name,
{
}

} // verus!
