use vstd::prelude::*;

verus! {

/// The longest file name stem, in characters, that sanitizing keeps.
pub const MAX_NAME_CHARS: usize = 200;

/// Characters that cannot stand in a file name on common filesystems.
pub open spec fn is_forbidden(c: char) -> bool {
    c == '/' || c == '\\' || c == ':' || c == '*' || c == '?' || c == '"' || c == '<' || c == '>'
        || c == '|' || c == '\0'
}

/// Unicode's White_Space property, the set that `str::trim` removes.
pub open spec fn is_white_space(c: char) -> bool {
    ('\u{9}' <= c && c <= '\u{d}') || c == ' ' || c == '\u{85}' || c == '\u{a0}' || c
        == '\u{1680}' || ('\u{2000}' <= c && c <= '\u{200a}') || c == '\u{2028}' || c == '\u{2029}'
        || c == '\u{202f}' || c == '\u{205f}' || c == '\u{3000}'
}

/// Whether `c` is white space in Unicode's sense.
pub fn white_space(c: char) -> (r: bool)
    ensures
        r == is_white_space(c),
{
    ('\u{9}' <= c && c <= '\u{d}') || c == ' ' || c == '\u{85}' || c == '\u{a0}' || c == '\u{1680}'
        || ('\u{2000}' <= c && c <= '\u{200a}') || c == '\u{2028}' || c == '\u{2029}' || c
        == '\u{202f}' || c == '\u{205f}' || c == '\u{3000}'
}

fn forbidden(c: char) -> (r: bool)
    ensures
        r == is_forbidden(c),
{
    c == '/' || c == '\\' || c == ':' || c == '*' || c == '?' || c == '"' || c == '<' || c == '>'
        || c == '|' || c == '\0'
}

/// Each forbidden character replaced by an underscore.
pub open spec fn replace_forbidden(s: Seq<char>) -> Seq<char> {
    s.map_values(|c: char| if is_forbidden(c) { '_' } else { c })
}

/// `s` without its leading white space.
pub open spec fn trim_start(s: Seq<char>) -> Seq<char>
    decreases s.len(),
{
    if s.len() > 0 && is_white_space(s[0]) {
        trim_start(s.drop_first())
    } else {
        s
    }
}

/// `s` without its trailing white space.
pub open spec fn trim_end(s: Seq<char>) -> Seq<char>
    decreases s.len(),
{
    if s.len() > 0 && is_white_space(s.last()) {
        trim_end(s.drop_last())
    } else {
        s
    }
}

/// `s` without white space at either end.
pub open spec fn trim(s: Seq<char>) -> Seq<char> {
    trim_end(trim_start(s))
}

/// The trimmed, underscore-substituted title before truncation.
pub open spec fn cleaned(s: Seq<char>) -> Seq<char> {
    trim(replace_forbidden(s))
}

/// The file name stem derived from a title: forbidden characters become `_`,
/// surrounding white space goes, at most `MAX_NAME_CHARS` characters stay,
/// and an empty result becomes `unknown_title`.
pub open spec fn sanitized(s: Seq<char>) -> Seq<char> {
    let t = cleaned(s);
    let u = if t.len() > MAX_NAME_CHARS { t.subrange(0, MAX_NAME_CHARS as int) } else { t };
    if u.len() == 0 {
        "unknown_title"@
    } else {
        u
    }
}

proof fn lemma_trim_start_suffix(s: Seq<char>)
    ensures
        exists|k: int| 0 <= k <= s.len() && trim_start(s) == s.subrange(k, s.len() as int),
        trim_start(s).len() == 0 || !is_white_space(trim_start(s)[0]),
    decreases s.len(),
{
    if s.len() > 0 && is_white_space(s[0]) {
        lemma_trim_start_suffix(s.drop_first());
        let k = choose|k: int|
            0 <= k <= s.drop_first().len() && trim_start(s.drop_first()) == s.drop_first().subrange(
                k,
                s.drop_first().len() as int,
            );
        assert(trim_start(s) == s.subrange(k + 1, s.len() as int));
    } else {
        assert(trim_start(s) == s.subrange(0, s.len() as int));
    }
}

proof fn lemma_trim_end_prefix(s: Seq<char>)
    ensures
        exists|k: int| 0 <= k <= s.len() && trim_end(s) == s.subrange(0, k),
        trim_end(s).len() == 0 || !is_white_space(trim_end(s).last()),
    decreases s.len(),
{
    if s.len() > 0 && is_white_space(s.last()) {
        lemma_trim_end_prefix(s.drop_last());
        let k = choose|k: int|
            0 <= k <= s.drop_last().len() && trim_end(s.drop_last()) == s.drop_last().subrange(
                0,
                k,
            );
        assert(trim_end(s) == s.subrange(0, k));
    } else {
        assert(trim_end(s) == s.subrange(0, s.len() as int));
    }
}

/// What trimming leaves: a slice of the input with no white space at its ends.
proof fn lemma_trim_shape(s: Seq<char>)
    ensures
        exists|i: int, j: int| 0 <= i <= j <= s.len() && trim(s) == s.subrange(i, j),
        trim(s).len() > 0 ==> !is_white_space(trim(s)[0]) && !is_white_space(trim(s).last()),
{
    lemma_trim_start_suffix(s);
    let ts = trim_start(s);
    lemma_trim_end_prefix(ts);
    let i = choose|i: int| 0 <= i <= s.len() && ts == s.subrange(i, s.len() as int);
    let j = choose|j: int| 0 <= j <= ts.len() && trim_end(ts) == ts.subrange(0, j);
    assert(trim(s) == s.subrange(i, i + j));
    if trim(s).len() > 0 {
        assert(trim(s)[0] == ts[0]);
    }
}

proof fn lemma_trim_identity(s: Seq<char>)
    requires
        s.len() > 0 ==> !is_white_space(s[0]) && !is_white_space(s.last()),
    ensures
        trim(s) == s,
{
}

proof fn lemma_replace_identity(s: Seq<char>)
    requires
        forall|k: int| 0 <= k < s.len() ==> !is_forbidden(#[trigger] s[k]),
    ensures
        replace_forbidden(s) == s,
{
    assert(replace_forbidden(s) =~= s);
}

/// After replacement and trimming no forbidden character is left, and the
/// ends are not white space.
proof fn lemma_cleaned_shape(s: Seq<char>)
    ensures
        forall|k: int| 0 <= k < cleaned(s).len() ==> !is_forbidden(#[trigger] cleaned(s)[k]),
        cleaned(s).len() > 0 ==> !is_white_space(cleaned(s)[0]) && !is_white_space(
            cleaned(s).last(),
        ),
{
    let r = replace_forbidden(s);
    lemma_trim_shape(r);
    let (i, j) = choose|i: int, j: int| 0 <= i <= j <= r.len() && trim(r) == r.subrange(i, j);
    assert forall|k: int| 0 <= k < cleaned(s).len() implies !is_forbidden(
        #[trigger] cleaned(s)[k],
    ) by {
        assert(cleaned(s)[k] == r[i + k]);
    }
}

/// Sanitizing a sanitized title changes nothing, except where truncation
/// leaves white space at the cut, which a second pass trims.
pub proof fn lemma_sanitize_idempotent(s: Seq<char>)
    requires
        !(cleaned(s).len() > MAX_NAME_CHARS && is_white_space(
            cleaned(s)[MAX_NAME_CHARS as int - 1],
        )),
    ensures
        sanitized(sanitized(s)) == sanitized(s),
{
    reveal_strlit("unknown_title");
    let t = cleaned(s);
    let u = sanitized(s);
    lemma_cleaned_shape(s);
    assert(forall|k: int| 0 <= k < u.len() ==> !is_forbidden(#[trigger] u[k])) by {
        if t.len() > 0 {
            assert forall|k: int| 0 <= k < u.len() implies !is_forbidden(#[trigger] u[k]) by {
                assert(u[k] == t[k]);
            }
        }
    }
    lemma_replace_identity(u);
    if t.len() > 0 {
        assert(u[0] == t[0]);
        if t.len() > MAX_NAME_CHARS {
            assert(u.last() == t[MAX_NAME_CHARS as int - 1]);
        }
    }
    lemma_trim_identity(u);
    assert(cleaned(u) == u);
}

/// A title with nothing left after replacement and trimming, such as an empty
/// or all-blank one, becomes `unknown_title`.
pub proof fn lemma_sanitize_blank(s: Seq<char>)
    requires
        cleaned(s).len() == 0,
    ensures
        sanitized(s) == "unknown_title"@,
{
}

/// A title made only of forbidden characters becomes one underscore for each,
/// up to the length limit: substitution keeps them, it does not drop them.
pub proof fn lemma_sanitize_all_forbidden(s: Seq<char>)
    requires
        s.len() > 0,
        forall|k: int| 0 <= k < s.len() ==> is_forbidden(#[trigger] s[k]),
    ensures
        sanitized(s) == Seq::new(
            if s.len() > MAX_NAME_CHARS { MAX_NAME_CHARS as nat } else { s.len() },
            |k: int| '_',
        ),
{
    let r = replace_forbidden(s);
    assert(r =~= Seq::new(s.len(), |k: int| '_'));
    lemma_trim_identity(r);
    let n = if s.len() > MAX_NAME_CHARS { MAX_NAME_CHARS as nat } else { s.len() };
    assert(sanitized(s) =~= Seq::new(n, |k: int| '_'));
}

/// A title that needs no substitution or trimming and is longer than the
/// limit keeps exactly its first `MAX_NAME_CHARS` characters.
pub proof fn lemma_sanitize_truncates(s: Seq<char>)
    requires
        s.len() > MAX_NAME_CHARS,
        forall|k: int| 0 <= k < s.len() ==> !is_forbidden(#[trigger] s[k]),
        !is_white_space(s[0]),
        !is_white_space(s.last()),
    ensures
        sanitized(s) == s.subrange(0, MAX_NAME_CHARS as int),
        sanitized(s).len() == MAX_NAME_CHARS,
{
    lemma_replace_identity(s);
    lemma_trim_identity(s);
}

/// Derives a file name stem from a media title (see `sanitized`).
pub fn sanitize_filename(filename: &str) -> (r: String)
    ensures
        r@ == sanitized(filename@),
{
    let n = filename.unicode_len();
    let mut replaced = String::new();
    let mut k: usize = 0;
    while k < n
        invariant
            n == filename@.len(),
            k <= n,
            replaced@ == replace_forbidden(filename@.subrange(0, k as int)),
        decreases n - k,
    {
        let c = filename.get_char(k);
        proof {
            reveal_strlit("_");
        }
        if forbidden(c) {
            replaced.append("_");
        } else {
            let piece = filename.substring_char(k, k + 1);
            assert(piece@ =~= seq![c]);
            replaced.append(piece);
        }
        assert(replace_forbidden(filename@.subrange(0, k + 1)) =~= replace_forbidden(
            filename@.subrange(0, k as int),
        ).push(if is_forbidden(c) { '_' } else { c }));
        k = k + 1;
    }
    assert(filename@.subrange(0, n as int) =~= filename@);
    let text = replaced.as_str();
    let ghost r = replace_forbidden(filename@);
    assert(r.subrange(0, n as int) =~= r);
    // Leading white space.
    let mut lo: usize = 0;
    while lo < n && white_space(text.get_char(lo))
        invariant
            text@ == r,
            r.len() == n,
            lo <= n,
            trim_start(r) == trim_start(r.subrange(lo as int, n as int)),
        decreases n - lo,
    {
        assert(r.subrange(lo as int, n as int).drop_first() =~= r.subrange(lo + 1, n as int));
        lo = lo + 1;
    }
    assert(trim_start(r) == r.subrange(lo as int, n as int));
    // Trailing white space.
    let mut hi: usize = n;
    while hi > lo && white_space(text.get_char(hi - 1))
        invariant
            text@ == r,
            r.len() == n,
            lo <= hi <= n,
            trim(r) == trim_end(r.subrange(lo as int, hi as int)),
        decreases hi - lo,
    {
        assert(r.subrange(lo as int, hi as int).drop_last() =~= r.subrange(lo as int, hi - 1));
        hi = hi - 1;
    }
    assert(trim(r) == r.subrange(lo as int, hi as int));
    let end = if hi - lo > MAX_NAME_CHARS {
        lo + MAX_NAME_CHARS
    } else {
        hi
    };
    assert(r.subrange(lo as int, hi as int).subrange(0, end - lo) =~= r.subrange(
        lo as int,
        end as int,
    ));
    if end == lo {
        String::from_str("unknown_title")
    } else {
        String::from_str(text.substring_char(lo, end))
    }
}

} // verus!
