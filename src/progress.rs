use vstd::prelude::*;
use crate::filename::{is_white_space, white_space};

verus! {

/// A complete download, in hundredths of a percent (ten-thousandths of
/// completion). Readings above 100% are reported as this.
pub const FULL_PROGRESS: u64 = 10_000;

/// The character classes that the progress grammar repeats.
#[derive(Clone, Copy, PartialEq, Eq, Debug)]
pub enum CharClass {
    Space,
    DigitOrDot,
    DigitOrColon,
}

pub open spec fn is_digit(c: char) -> bool {
    '0' <= c && c <= '9'
}

pub open spec fn in_class(c: char, k: CharClass) -> bool {
    match k {
        CharClass::Space => is_white_space(c),
        CharClass::DigitOrDot => is_digit(c) || c == '.',
        CharClass::DigitOrColon => is_digit(c) || c == ':',
    }
}

/// The end of the longest run of class `k` that starts at `i`.
pub open spec fn span(s: Seq<char>, i: int, k: CharClass) -> int
    decreases s.len() - i,
{
    if 0 <= i < s.len() && in_class(s[i], k) {
        span(s, i + 1, k)
    } else {
        i
    }
}

/// Whether `lit` stands in `s` at `i`.
pub open spec fn has_at(s: Seq<char>, i: int, lit: Seq<char>) -> bool {
    0 <= i && i + lit.len() <= s.len() && s.subrange(i, i + lit.len()) == lit
}

/// `[download]`, white space, then digits and dots closed by `%`: the bounds
/// of the digits when the marker matches at `i`.
pub open spec fn percent_at(s: Seq<char>, i: int) -> Option<(int, int)> {
    let a = i + 10;
    let b = span(s, a, CharClass::Space);
    let c = span(s, b, CharClass::DigitOrDot);
    if has_at(s, i, "[download]"@) && b > a && c > b && c < s.len() && s[c] == '%' {
        Some((b, c))
    } else {
        None
    }
}

/// `ETA`, white space, then digits and colons.
pub open spec fn eta_at(s: Seq<char>, i: int) -> Option<(int, int)> {
    let a = i + 3;
    let b = span(s, a, CharClass::Space);
    let c = span(s, b, CharClass::DigitOrColon);
    if has_at(s, i, "ETA"@) && b > a && c > b {
        Some((b, c))
    } else {
        None
    }
}

pub open spec fn is_unit_prefix(c: char) -> bool {
    c == 'K' || c == 'M' || c == 'G' || c == 'T'
}

/// `at`, white space, then a rate such as `1.2MiB/s`.
pub open spec fn speed_at(s: Seq<char>, i: int) -> Option<(int, int)> {
    let a = i + 2;
    let b = span(s, a, CharClass::Space);
    let c = span(s, b, CharClass::DigitOrDot);
    let d = if c < s.len() && is_unit_prefix(s[c]) { c + 1 } else { c };
    if has_at(s, i, "at"@) && b > a && c > b && has_at(s, d, "iB/s"@) {
        Some((b, d + 4))
    } else {
        None
    }
}

/// Which pattern a search looks for.
#[derive(Clone, Copy, PartialEq, Eq, Debug)]
pub enum Field {
    Percent,
    Eta,
    Speed,
}

pub open spec fn field_at(s: Seq<char>, i: int, f: Field) -> Option<(int, int)> {
    match f {
        Field::Percent => percent_at(s, i),
        Field::Eta => eta_at(s, i),
        Field::Speed => speed_at(s, i),
    }
}

/// The leftmost match of field `f` at or after `i`.
pub open spec fn first_match(s: Seq<char>, i: int, f: Field) -> Option<(int, int)>
    decreases s.len() + 1 - i,
{
    if i < 0 || i > s.len() {
        None
    } else {
        match field_at(s, i, f) {
            Some(r) => Some(r),
            None => first_match(s, i + 1, f),
        }
    }
}

/// The text of the leftmost match of field `f` in `s`.
pub open spec fn captured(s: Seq<char>, f: Field) -> Option<Seq<char>> {
    match first_match(s, 0, f) {
        Some((b, e)) => Some(s.subrange(b, e)),
        None => None,
    }
}

pub open spec fn count_dots(t: Seq<char>) -> nat
    decreases t.len(),
{
    if t.len() == 0 {
        0
    } else {
        count_dots(t.drop_last()) + if t.last() == '.' { 1nat } else { 0nat }
    }
}

/// Digits and dots that read as a number: at most one dot, some digit.
pub open spec fn is_number(t: Seq<char>) -> bool {
    count_dots(t) <= 1 && exists|k: int| 0 <= k < t.len() && is_digit(#[trigger] t[k])
}

pub open spec fn digit_value(c: char) -> int {
    c as int - '0' as int
}

/// The value of the digits in `t`, dots skipped.
pub open spec fn digits_value(t: Seq<char>) -> int
    decreases t.len(),
{
    if t.len() == 0 {
        0
    } else if t.last() == '.' {
        digits_value(t.drop_last())
    } else {
        digits_value(t.drop_last()) * 10 + digit_value(t.last())
    }
}

/// The index of the first dot of `t`, or its length.
pub open spec fn dot_index(t: Seq<char>) -> int
    decreases t.len(),
{
    if t.len() == 0 {
        0
    } else if t[0] == '.' {
        0
    } else {
        1 + dot_index(t.drop_first())
    }
}

/// The decimal digit at `i` of `t`, or 0 where there is none.
pub open spec fn digit_or_zero(t: Seq<char>, i: int) -> int {
    if 0 <= i < t.len() && is_digit(t[i]) { digit_value(t[i]) } else { 0 }
}

/// A percentage written in `t`, in hundredths of a percent (that is,
/// ten-thousandths of completion); digits past the second decimal are
/// dropped.
pub open spec fn percent_hundredths(t: Seq<char>) -> int {
    let d = dot_index(t);
    let whole = digits_value(t.subrange(0, d));
    whole * 100 + digit_or_zero(t, d + 1) * 10 + digit_or_zero(t, d + 2)
}

/// A reading capped at a complete download.
pub open spec fn saturate(v: int) -> int {
    if v > FULL_PROGRESS { FULL_PROGRESS as int } else { v }
}

/// What one line of worker output says of progress.
pub struct ProgressLine {
    /// Completion in ten-thousandths (the percentage in hundredths), at
    /// most `FULL_PROGRESS`.
    pub progress: u64,
    pub eta: Option<String>,
    pub speed: Option<String>,
}

pub open spec fn opt_view(o: Option<String>) -> Option<Seq<char>> {
    match o {
        Some(s) => Some(s@),
        None => None,
    }
}

/// When a line carries a progress signal, and what it says. A reading above
/// 100% is reported as 100%.
pub open spec fn parses_to(s: Seq<char>, r: Option<ProgressLine>) -> bool {
    match captured(s, Field::Percent) {
        Some(t) => if is_number(t) {
            r is Some && r->Some_0.progress == saturate(percent_hundredths(t)) && opt_view(
                r->Some_0.eta,
            ) == captured(s, Field::Eta) && opt_view(r->Some_0.speed) == captured(s, Field::Speed)
        } else {
            r is None
        },
        None => r is None,
    }
}

pub(crate) fn chars_of(s: &str) -> (r: Vec<char>)
    ensures
        r@ == s@,
{
    let n = s.unicode_len();
    let mut r: Vec<char> = Vec::new();
    let mut k: usize = 0;
    while k < n
        invariant
            n == s@.len(),
            k <= n,
            r@ == s@.subrange(0, k as int),
        decreases n - k,
    {
        r.push(s.get_char(k));
        assert(r@ =~= s@.subrange(0, k + 1));
        k = k + 1;
    }
    assert(s@.subrange(0, n as int) =~= s@);
    r
}

fn class_member(c: char, k: CharClass) -> (r: bool)
    ensures
        r == in_class(c, k),
{
    match k {
        CharClass::Space => white_space(c),
        CharClass::DigitOrDot => ('0' <= c && c <= '9') || c == '.',
        CharClass::DigitOrColon => ('0' <= c && c <= '9') || c == ':',
    }
}

fn span_exec(s: &Vec<char>, i: usize, k: CharClass) -> (r: usize)
    ensures
        r as int == span(s@, i as int, k),
{
    let mut j = i;
    while j < s.len() && class_member(s[j], k)
        invariant
            i <= j,
            span(s@, i as int, k) == span(s@, j as int, k),
        decreases s.len() - j,
    {
        j = j + 1;
    }
    j
}

pub(crate) fn literal_at(s: &Vec<char>, i: usize, lit: &str) -> (r: bool)
    ensures
        r == has_at(s@, i as int, lit@),
{
    let m = lit.unicode_len();
    if i > s.len() || m > s.len() - i {
        return false;
    }
    let mut k: usize = 0;
    while k < m
        invariant
            m == lit@.len(),
            i + m <= s.len(),
            k <= m,
            forall|j: int| 0 <= j < k ==> s@[i + j] == lit@[j],
        decreases m - k,
    {
        if s[i + k] != lit.get_char(k) {
            assert(s@.subrange(i as int, i + m)[k as int] != lit@[k as int]);
            return false;
        }
        k = k + 1;
    }
    assert(s@.subrange(i as int, i + m) =~= lit@);
    true
}

fn field_exec(s: &Vec<char>, i: usize, f: Field) -> (r: Option<(usize, usize)>)
    requires
        i <= s@.len(),
    ensures
        r is None <==> field_at(s@, i as int, f) is None,
        r matches Some((x, y)) ==> field_at(s@, i as int, f) == Some((x as int, y as int)),
{
    proof {
        reveal_strlit("[download]");
        reveal_strlit("ETA");
        reveal_strlit("at");
        reveal_strlit("iB/s");
    }
    let n = s.len();
    match f {
        Field::Percent => {
            if !literal_at(s, i, "[download]") {
                return None;
            }
            let a = i + 10;
            let b = span_exec(s, a, CharClass::Space);
            let c = span_exec(s, b, CharClass::DigitOrDot);
            if b > a && c > b && c < n && s[c] == '%' {
                Some((b, c))
            } else {
                None
            }
        },
        Field::Eta => {
            if !literal_at(s, i, "ETA") {
                return None;
            }
            let a = i + 3;
            let b = span_exec(s, a, CharClass::Space);
            let c = span_exec(s, b, CharClass::DigitOrColon);
            if b > a && c > b {
                Some((b, c))
            } else {
                None
            }
        },
        Field::Speed => {
            if !literal_at(s, i, "at") {
                return None;
            }
            let a = i + 2;
            let b = span_exec(s, a, CharClass::Space);
            let c = span_exec(s, b, CharClass::DigitOrDot);
            let d = if c < n && (s[c] == 'K' || s[c] == 'M' || s[c] == 'G' || s[c] == 'T') {
                c + 1
            } else {
                c
            };
            if b > a && c > b && literal_at(s, d, "iB/s") {
                Some((b, d + 4))
            } else {
                None
            }
        },
    }
}

proof fn lemma_span_bounds(s: Seq<char>, i: int, k: CharClass)
    requires
        0 <= i,
    ensures
        i <= span(s, i, k),
        i <= s.len() ==> span(s, i, k) <= s.len(),
    decreases s.len() - i,
{
    if 0 <= i < s.len() && in_class(s[i], k) {
        lemma_span_bounds(s, i + 1, k);
    }
}

proof fn lemma_field_bounds(s: Seq<char>, i: int, f: Field)
    requires
        0 <= i <= s.len(),
    ensures
        field_at(s, i, f) is Some ==> 0 <= field_at(s, i, f)->Some_0.0 <= field_at(s, i, f)->Some_0.1
            <= s.len(),
{
    reveal_strlit("[download]");
    reveal_strlit("ETA");
    reveal_strlit("at");
    reveal_strlit("iB/s");
    lemma_span_bounds(s, i + 10, CharClass::Space);
    lemma_span_bounds(s, span(s, i + 10, CharClass::Space), CharClass::DigitOrDot);
    lemma_span_bounds(s, i + 3, CharClass::Space);
    lemma_span_bounds(s, span(s, i + 3, CharClass::Space), CharClass::DigitOrColon);
    lemma_span_bounds(s, i + 2, CharClass::Space);
    lemma_span_bounds(s, span(s, i + 2, CharClass::Space), CharClass::DigitOrDot);
}

proof fn lemma_first_match_bounds(s: Seq<char>, i: int, f: Field)
    requires
        0 <= i,
    ensures
        first_match(s, i, f) is Some ==> 0 <= first_match(s, i, f)->Some_0.0 <= first_match(
            s,
            i,
            f,
        )->Some_0.1 <= s.len(),
    decreases s.len() + 1 - i,
{
    if i <= s.len() {
        lemma_field_bounds(s, i, f);
        lemma_first_match_bounds(s, i + 1, f);
    }
}

/// The bounds of the leftmost match of `f` in `s`.
fn find_first(s: &Vec<char>, f: Field) -> (r: Option<(usize, usize)>)
    ensures
        r is None <==> first_match(s@, 0, f) is None,
        r matches Some((x, y)) ==> first_match(s@, 0, f) == Some((x as int, y as int)) && x <= y
            <= s@.len(),
{
    proof {
        lemma_first_match_bounds(s@, 0, f);
    }
    let n = s.len();
    let mut i: usize = 0;
    loop
        invariant
            i <= n == s@.len(),
            first_match(s@, 0, f) == first_match(s@, i as int, f),
        decreases n - i,
    {
        let r = field_exec(s, i, f);
        if r.is_some() || i == n {
            proof {
                if i == n && r is None {
                    assert(first_match(s@, i + 1, f) is None);
                }
                if r is Some {
                    let (x, y) = r->Some_0;
                    assert(field_at(s@, i as int, f) == Some((x as int, y as int)));
                    assert(first_match(s@, i as int, f) == field_at(s@, i as int, f));
                    assert(first_match(s@, 0, f) == Some((x as int, y as int)));
                    lemma_field_bounds(s@, i as int, f);
                    assert(x <= y <= s@.len());
                }
            }
            return r;
        }
        i = i + 1;
    }
}

proof fn lemma_saturate_step(v: int, d: int)
    requires
        v >= 0,
        0 <= d <= 9,
    ensures
        saturate(10 * saturate(v) + d) == saturate(10 * v + d),
{
}

proof fn lemma_saturate_scale(v: int, f: int)
    requires
        v >= 0,
        0 <= f <= 99,
    ensures
        saturate(100 * saturate(v) + f) == saturate(100 * v + f),
{
}

proof fn lemma_digits_nonneg(t: Seq<char>)
    requires
        forall|k: int| 0 <= k < t.len() ==> is_digit(#[trigger] t[k]) || t[k] == '.',
    ensures
        digits_value(t) >= 0,
    decreases t.len(),
{
    if t.len() > 0 {
        lemma_digits_nonneg(t.drop_last());
    }
}

/// Reads the captured digits `t` as a checked number in hundredths of a
/// percent.
fn read_percent(t: &Vec<char>) -> (r: Option<u64>)
    requires
        forall|k: int| 0 <= k < t@.len() ==> is_digit(#[trigger] t@[k]) || t@[k] == '.',
    ensures
        is_number(t@) ==> r is Some && r->Some_0 as int == saturate(percent_hundredths(t@)),
        !is_number(t@) ==> r is None,
{
    let n = t.len();
    let mut whole: u64 = 0;
    let mut k: usize = 0;
    let mut seen_digit = false;
    assert(t@.subrange(0, n as int) =~= t@);
    // Whole part.
    while k < n && t[k] != '.'
        invariant
            k <= n == t@.len(),
            forall|j: int| 0 <= j < t@.len() ==> is_digit(#[trigger] t@[j]) || t@[j] == '.',
            forall|j: int| 0 <= j < k ==> t@[j] != '.',
            dot_index(t@) == k + dot_index(t@.subrange(k as int, n as int)),
            whole == saturate(digits_value(t@.subrange(0, k as int))),
            seen_digit == (k > 0),
        decreases n - k,
    {
        let d = (t[k] as u32 - '0' as u32) as u64;
        proof {
            let p = t@.subrange(0, k as int);
            assert(t@.subrange(0, k + 1).drop_last() =~= p);
            lemma_digits_nonneg(p);
            lemma_saturate_step(digits_value(p), d as int);
            assert(t@.subrange(k as int, n as int).drop_first() =~= t@.subrange(k + 1, n as int));
        }
        whole = if whole >= FULL_PROGRESS {
            FULL_PROGRESS
        } else {
            let w = whole * 10 + d;
            if w > FULL_PROGRESS { FULL_PROGRESS } else { w }
        };
        seen_digit = true;
        k = k + 1;
    }
    proof {
        if k < n {
            assert(t@.subrange(k as int, n as int)[0] == '.');
        }
        assert(dot_index(t@) == k);
    }
    let ghost wp = t@.subrange(0, k as int);
    proof {
        lemma_digits_nonneg(wp);
    }
    proof {
        lemma_no_dots(t@, k as int);
        if k > 0 {
            assert(is_digit(t@[0]));
        }
    }
    let mut first: u64 = 0;
    let mut second: u64 = 0;
    let mut dots: usize = 0;
    let mut j = k;
    // Fraction part, after the dot if there is one.
    while j < n
        invariant
            k <= j <= n == t@.len(),
            forall|x: int| 0 <= x < t@.len() ==> is_digit(#[trigger] t@[x]) || t@[x] == '.',
            forall|x: int| 0 <= x < k ==> t@[x] != '.',
            dots as nat == count_dots(t@.subrange(0, j as int)),
            dots <= j,
            seen_digit == exists|x: int| 0 <= x < j && is_digit(#[trigger] t@[x]),
            first == if k + 1 < j && is_digit(t@[k + 1]) { digit_value(t@[k + 1]) } else { 0 },
            second == if k + 2 < j && is_digit(t@[k + 2]) { digit_value(t@[k + 2]) } else { 0 },
        decreases n - j,
    {
        assert(t@.subrange(0, j + 1).drop_last() =~= t@.subrange(0, j as int));
        if t[j] == '.' {
            dots = dots + 1;
        } else {
            seen_digit = true;
            if j == k + 1 {
                first = (t[j] as u32 - '0' as u32) as u64;
            } else if j - k == 2 {
                second = (t[j] as u32 - '0' as u32) as u64;
            }
        }
        j = j + 1;
    }
    proof {
        assert(t@.subrange(0, n as int) =~= t@);
        lemma_saturate_scale(digits_value(wp), first * 10 + second);
    }
    if dots > 1 || !seen_digit {
        return None;
    }
    let total = whole * 100 + first * 10 + second;
    Some(if total > FULL_PROGRESS { FULL_PROGRESS } else { total })
}

proof fn lemma_no_dots(t: Seq<char>, x: int)
    requires
        0 <= x <= t.len(),
        forall|y: int| 0 <= y < x ==> t[y] != '.',
    ensures
        count_dots(t.subrange(0, x)) == 0,
    decreases x,
{
    if x > 0 {
        assert(t.subrange(0, x).drop_last() =~= t.subrange(0, x - 1));
        lemma_no_dots(t, x - 1);
    }
}

/// Reads the progress signal of one line of worker output: the percentage
/// after a `[download]` marker, and the ETA and speed where they are given.
pub fn parse_progress_line(line: &str) -> (r: Option<ProgressLine>)
    ensures
        parses_to(line@, r),
{
    let s = chars_of(line);
    let p = find_first(&s, Field::Percent);
    let (b, e) = match p {
        Some(be) => be,
        None => return None,
    };
    let mut t: Vec<char> = Vec::new();
    let mut k = b;
    while k < e
        invariant
            b <= k <= e <= s@.len(),
            t@ == s@.subrange(b as int, k as int),
        decreases e - k,
    {
        t.push(s[k]);
        assert(t@ =~= s@.subrange(b as int, k + 1));
        k = k + 1;
    }
    proof {
        lemma_percent_digits(s@, b as int, e as int);
        assert forall|j: int| 0 <= j < t@.len() implies is_digit(#[trigger] t@[j]) || t@[j]
            == '.' by {
            assert(t@[j] == s@.subrange(b as int, e as int)[j]);
        }
    }
    let progress = match read_percent(&t) {
        Some(v) => v,
        None => return None,
    };
    let eta = match find_first(&s, Field::Eta) {
        Some((x, y)) => Some(String::from_str(line.substring_char(x, y))),
        None => None,
    };
    let speed = match find_first(&s, Field::Speed) {
        Some((x, y)) => Some(String::from_str(line.substring_char(x, y))),
        None => None,
    };
    Some(ProgressLine { progress, eta, speed })
}

proof fn lemma_span_class(s: Seq<char>, i: int, k: CharClass)
    requires
        0 <= i,
    ensures
        forall|j: int| i <= j < span(s, i, k) ==> in_class(#[trigger] s[j], k),
    decreases s.len() - i,
{
    if 0 <= i < s.len() && in_class(s[i], k) {
        lemma_span_class(s, i + 1, k);
    }
}

proof fn lemma_first_percent_digits(s: Seq<char>, i: int)
    requires
        0 <= i,
    ensures
        first_match(s, i, Field::Percent) is Some ==> forall|j: int|
            first_match(s, i, Field::Percent)->Some_0.0 <= j < first_match(
                s,
                i,
                Field::Percent,
            )->Some_0.1 ==> is_digit(#[trigger] s[j]) || s[j] == '.',
    decreases s.len() + 1 - i,
{
    if i <= s.len() {
        let a = i + 10;
        let b = span(s, a, CharClass::Space);
        lemma_span_bounds(s, a, CharClass::Space);
        lemma_span_class(s, b, CharClass::DigitOrDot);
        lemma_first_percent_digits(s, i + 1);
    }
}

proof fn lemma_percent_digits(s: Seq<char>, b: int, e: int)
    requires
        first_match(s, 0, Field::Percent) == Some((b, e)),
    ensures
        forall|j: int| 0 <= j < e - b ==> is_digit(#[trigger] s.subrange(b, e)[j]) || s.subrange(
            b,
            e,
        )[j] == '.',
{
    lemma_first_percent_digits(s, 0);
    lemma_first_match_bounds(s, 0, Field::Percent);
    assert forall|j: int| 0 <= j < e - b implies is_digit(#[trigger] s.subrange(b, e)[j])
        || s.subrange(b, e)[j] == '.' by {
        assert(s.subrange(b, e)[j] == s[b + j]);
    }
}

} // verus!
