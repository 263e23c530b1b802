//! Text helpers shared by the pages: Unicode white-space trimming, ASCII
//! case-insensitive comparison and suffix handling, each over the `char`
//! sequence that a `str` views as.

use vstd::prelude::*;

verus! {

/// The view of an optional string.
pub open spec fn opt_view(o: Option<String>) -> Option<Seq<char>> {
    match o {
        Some(s) => Some(s@),
        None => None,
    }
}

/// The `White_Space` property of the Unicode character database, which is
/// what `char::is_whitespace` answers.
pub open spec fn is_white_space_spec(c: char) -> bool {
    let v = c as u32;
    ||| 0x09 <= v <= 0x0d
    ||| v == 0x20
    ||| v == 0x85
    ||| v == 0xa0
    ||| v == 0x1680
    ||| 0x2000 <= v <= 0x200a
    ||| v == 0x2028
    ||| v == 0x2029
    ||| v == 0x202f
    ||| v == 0x205f
    ||| v == 0x3000
}

/// `s` without its leading white space.
pub open spec fn trim_start_spec(s: Seq<char>) -> Seq<char>
    decreases s.len(),
{
    if s.len() > 0 && is_white_space_spec(s[0]) {
        trim_start_spec(s.drop_first())
    } else {
        s
    }
}

/// `s` without its trailing white space.
pub open spec fn trim_end_spec(s: Seq<char>) -> Seq<char>
    decreases s.len(),
{
    if s.len() > 0 && is_white_space_spec(s.last()) {
        trim_end_spec(s.drop_last())
    } else {
        s
    }
}

/// `s` without white space at either end, as `str::trim` gives it.
pub open spec fn trim_spec(s: Seq<char>) -> Seq<char> {
    trim_end_spec(trim_start_spec(s))
}

/// Whether `c` is Unicode white space.
pub fn is_white_space(c: char) -> (r: bool)
    ensures
        r == is_white_space_spec(c),
{
    let v = c as u32;
    (0x09 <= v && v <= 0x0d) || v == 0x20 || v == 0x85 || v == 0xa0 || v == 0x1680 || (0x2000
        <= v && v <= 0x200a) || v == 0x2028 || v == 0x2029 || v == 0x202f || v == 0x205f || v
        == 0x3000
}

/// `s` with the white space at both ends removed.
pub fn trim(s: &str) -> (r: &str)
    ensures
        r@ == trim_spec(s@),
{
    let n = s.unicode_len();
    let mut i: usize = 0;
    assert(s@.subrange(0, n as int) =~= s@);
    while i < n && is_white_space(s.get_char(i))
        invariant
            n == s@.len(),
            i <= n,
            trim_start_spec(s@) == trim_start_spec(s@.subrange(i as int, n as int)),
        decreases n - i,
    {
        assert(s@.subrange(i as int, n as int).drop_first() =~= s@.subrange(
            i + 1,
            n as int,
        ));
        i = i + 1;
    }
    assert(trim_start_spec(s@) == s@.subrange(i as int, n as int));
    let mut j: usize = n;
    while j > i && is_white_space(s.get_char(j - 1))
        invariant
            n == s@.len(),
            i <= j <= n,
            trim_start_spec(s@) == s@.subrange(i as int, n as int),
            trim_spec(s@) == trim_end_spec(s@.subrange(i as int, j as int)),
        decreases j - i,
    {
        assert(s@.subrange(i as int, j as int).drop_last() =~= s@.subrange(
            i as int,
            j - 1,
        ));
        j = j - 1;
    }
    s.substring_char(i, j)
}

/// The code point of `c` with an ASCII capital folded to its lower case letter.
pub open spec fn ascii_fold(c: char) -> u32 {
    let v = c as u32;
    if 0x41 <= v <= 0x5a {
        (v + 0x20) as u32
    } else {
        v
    }
}

/// Whether `a` and `b` match when ASCII letters are compared without regard
/// to case, as `str::eq_ignore_ascii_case` decides.
pub open spec fn eq_ignore_ascii_case_spec(a: Seq<char>, b: Seq<char>) -> bool {
    &&& a.len() == b.len()
    &&& forall|i: int| 0 <= i < a.len() ==> #[trigger] ascii_fold(a[i]) == ascii_fold(b[i])
}

fn fold_char(c: char) -> (r: u32)
    ensures
        r == ascii_fold(c),
{
    let v = c as u32;
    if 0x41 <= v && v <= 0x5a {
        v + 0x20
    } else {
        v
    }
}

/// Whether `a` and `b` are equal up to the case of ASCII letters.
pub fn eq_ignore_ascii_case(a: &str, b: &str) -> (r: bool)
    ensures
        r == eq_ignore_ascii_case_spec(a@, b@),
{
    let n = a.unicode_len();
    let m = b.unicode_len();
    if n != m {
        return false;
    }
    let mut i: usize = 0;
    while i < n
        invariant
            n == a@.len(),
            n == b@.len(),
            i <= n,
            forall|k: int| 0 <= k < i ==> #[trigger] ascii_fold(a@[k]) == ascii_fold(b@[k]),
        decreases n - i,
    {
        if fold_char(a.get_char(i)) != fold_char(b.get_char(i)) {
            return false;
        }
        i = i + 1;
    }
    true
}

/// `s` with every trailing copy of `suffix` removed, as
/// `str::trim_end_matches` does with a non-empty string pattern.
pub open spec fn trim_end_matches_spec(s: Seq<char>, suffix: Seq<char>) -> Seq<char>
    decreases s.len(),
{
    if suffix.len() > 0 && suffix.len() <= s.len() && s.subrange(
        s.len() - suffix.len(),
        s.len() as int,
    ) == suffix {
        trim_end_matches_spec(s.subrange(0, s.len() - suffix.len()), suffix)
    } else {
        s
    }
}

/// Whether the characters of `s` from `start` on spell out `suffix`.
fn matches_at(s: &str, start: usize, suffix: &str) -> (r: bool)
    requires
        start + suffix@.len() == s@.len(),
        s@.len() <= usize::MAX,
    ensures
        r == (s@.subrange(start as int, s@.len() as int) == suffix@),
{
    let k = suffix.unicode_len();
    let mut i: usize = 0;
    while i < k
        invariant
            k == suffix@.len(),
            start + k == s@.len(),
            s@.len() <= usize::MAX,
            i <= k,
            forall|j: int| 0 <= j < i ==> s@[start + j] == suffix@[j],
        decreases k - i,
    {
        if s.get_char(start + i) != suffix.get_char(i) {
            assert(s@.subrange(start as int, s@.len() as int)[i as int] != suffix@[i as int]);
            return false;
        }
        i = i + 1;
    }
    assert(s@.subrange(start as int, s@.len() as int) =~= suffix@);
    true
}

/// `s` with every trailing copy of `suffix` removed.
pub fn trim_end_matches<'a>(s: &'a str, suffix: &str) -> (r: &'a str)
    ensures
        r@ == trim_end_matches_spec(s@, suffix@),
{
    let k = suffix.unicode_len();
    if k == 0 {
        return s;
    }
    let mut rest: &'a str = s;
    let mut n = s.unicode_len();
    assert(s@.subrange(0, n as int) =~= s@);
    while k <= n && matches_at(rest, n - k, suffix)
        invariant
            k == suffix@.len(),
            k > 0,
            n == rest@.len(),
            n <= s@.len(),
            rest@ == s@.subrange(0, n as int),
            trim_end_matches_spec(s@, suffix@) == trim_end_matches_spec(rest@, suffix@),
        decreases n,
    {
        let shorter = rest.substring_char(0, n - k);
        assert(shorter@ =~= s@.subrange(0, n - k));
        rest = shorter;
        n = n - k;
    }
    rest
}

proof fn lemma_trim_start_shape(s: Seq<char>)
    ensures
        trim_start_spec(s).len() > 0 ==> !is_white_space_spec(trim_start_spec(s)[0]),
        trim_start_spec(s).len() <= s.len(),
        trim_start_spec(s) == s.subrange(s.len() - trim_start_spec(s).len(), s.len() as int),
        forall|i: int|
            0 <= i < s.len() - trim_start_spec(s).len() ==> is_white_space_spec(#[trigger] s[i]),
    decreases s.len(),
{
    if s.len() > 0 && is_white_space_spec(s[0]) {
        lemma_trim_start_shape(s.drop_first());
        assert forall|i: int|
            0 <= i < s.len() - trim_start_spec(s).len() implies is_white_space_spec(
            #[trigger] s[i],
        ) by {
            if i > 0 {
                assert(s[i] == s.drop_first()[i - 1]);
            }
        }
        assert(s.drop_first().subrange(
            s.drop_first().len() - trim_start_spec(s).len(),
            s.drop_first().len() as int,
        ) =~= s.subrange(s.len() - trim_start_spec(s).len(), s.len() as int));
    } else {
        assert(s.subrange(0, s.len() as int) =~= s);
    }
}

proof fn lemma_trim_end_shape(s: Seq<char>)
    ensures
        trim_end_spec(s).len() > 0 ==> !is_white_space_spec(trim_end_spec(s).last()),
        trim_end_spec(s).len() <= s.len(),
        trim_end_spec(s) == s.take(trim_end_spec(s).len() as int),
        forall|i: int| trim_end_spec(s).len() <= i < s.len() ==> is_white_space_spec(#[trigger] s[i]),
    decreases s.len(),
{
    if s.len() > 0 && is_white_space_spec(s.last()) {
        lemma_trim_end_shape(s.drop_last());
        assert forall|i: int| trim_end_spec(s).len() <= i < s.len() implies is_white_space_spec(
            #[trigger] s[i],
        ) by {
            if i < s.len() - 1 {
                assert(s[i] == s.drop_last()[i]);
            }
        }
        assert(s.drop_last().take(trim_end_spec(s).len() as int) =~= s.take(
            trim_end_spec(s).len() as int,
        ));
    } else {
        assert(s.take(s.len() as int) =~= s);
    }
}

/// What trimming keeps: a stretch of the text, with only white space before
/// and after it, that neither begins nor ends with white space; so nothing is
/// left exactly when the text is all white space, and text that neither
/// begins nor ends with white space is kept whole.
pub proof fn lemma_trim_keeps_the_stretch_between_white_space(s: Seq<char>)
    ensures
        exists|a: int, b: int|
            0 <= a <= b <= s.len() && trim_spec(s) == s.subrange(a, b) && (forall|i: int|
                0 <= i < a ==> is_white_space_spec(#[trigger] s[i])) && (forall|i: int|
                b <= i < s.len() ==> is_white_space_spec(#[trigger] s[i])),
        trim_spec(s).len() > 0 ==> !is_white_space_spec(trim_spec(s)[0])
            && !is_white_space_spec(trim_spec(s).last()),
        (trim_spec(s).len() == 0) == (forall|i: int|
            0 <= i < s.len() ==> is_white_space_spec(#[trigger] s[i])),
        s.len() > 0 && !is_white_space_spec(s[0]) && !is_white_space_spec(s.last())
            ==> trim_spec(s) == s,
{
    let a = trim_start_spec(s);
    let t = trim_end_spec(a);
    lemma_trim_start_shape(s);
    lemma_trim_end_shape(a);
    lemma_trim_idempotent(s);
    let lo = s.len() - a.len();
    let hi = lo + t.len();
    assert(t =~= s.subrange(lo, hi));
    assert forall|i: int| hi <= i < s.len() implies is_white_space_spec(#[trigger] s[i]) by {
        assert(s[i] == a[i - lo]);
    }
    assert(0 <= lo <= hi <= s.len() && trim_spec(s) == s.subrange(lo, hi));
    if t.len() == 0 {
        assert forall|i: int| 0 <= i < s.len() implies is_white_space_spec(#[trigger] s[i]) by {
            if i >= lo {
                assert(s[i] == a[i - lo]);
            }
        }
    } else {
        assert(s[lo] == t[0]);
    }
    if s.len() > 0 && !is_white_space_spec(s[0]) && !is_white_space_spec(s.last()) {
        assert(lo == 0);
        assert(a =~= s);
        if t.len() < a.len() {
            assert(is_white_space_spec(s[s.len() - 1]));
        }
        assert(t =~= s);
    }
}

/// Trimming is done in one go: trimmed text has no white space left at
/// either end, so trimming it again gives it back unchanged.
pub proof fn lemma_trim_idempotent(s: Seq<char>)
    ensures
        trim_spec(trim_spec(s)) == trim_spec(s),
        trim_spec(s).len() > 0 ==> !is_white_space_spec(trim_spec(s)[0])
            && !is_white_space_spec(trim_spec(s).last()),
{
    let a = trim_start_spec(s);
    let t = trim_end_spec(a);
    lemma_trim_start_shape(s);
    lemma_trim_end_shape(a);
    if t.len() > 0 {
        assert(t[0] == a[0]);
        assert(trim_start_spec(t) == t);
        lemma_trim_end_shape(t);
        assert(trim_end_spec(t) == t);
    } else {
        assert(trim_start_spec(t) == t);
        assert(trim_end_spec(t) == t);
    }
}

/// ASCII case-insensitive matching is an equivalence: every text matches
/// itself, and a match holds both ways round.
pub proof fn lemma_eq_ignore_ascii_case_equivalence(a: Seq<char>, b: Seq<char>, c: Seq<char>)
    ensures
        eq_ignore_ascii_case_spec(a, a),
        eq_ignore_ascii_case_spec(a, b) == eq_ignore_ascii_case_spec(b, a),
        eq_ignore_ascii_case_spec(a, b) && eq_ignore_ascii_case_spec(b, c)
            ==> eq_ignore_ascii_case_spec(a, c),
{
    if eq_ignore_ascii_case_spec(a, b) && eq_ignore_ascii_case_spec(b, c) {
        assert forall|i: int| 0 <= i < a.len() implies #[trigger] ascii_fold(a[i]) == ascii_fold(
            c[i],
        ) by {
            assert(ascii_fold(a[i]) == ascii_fold(b[i]));
            assert(ascii_fold(b[i]) == ascii_fold(c[i]));
        }
    }
}

proof fn lemma_trim_end_matches_shape(s: Seq<char>, suffix: Seq<char>)
    requires
        suffix.len() > 0,
    ensures
        ({
            let r = trim_end_matches_spec(s, suffix);
            &&& !(suffix.len() <= r.len() && r.subrange(r.len() - suffix.len(), r.len() as int)
                == suffix)
            &&& r.len() <= s.len()
            &&& r == s.take(r.len() as int)
        }),
    decreases s.len(),
{
    if suffix.len() <= s.len() && s.subrange(s.len() - suffix.len(), s.len() as int) == suffix {
        let shorter = s.subrange(0, s.len() - suffix.len());
        lemma_trim_end_matches_shape(shorter, suffix);
        let r = trim_end_matches_spec(s, suffix);
        assert(shorter.take(r.len() as int) =~= s.take(r.len() as int));
    } else {
        assert(s.take(s.len() as int) =~= s);
    }
}

/// Removing the trailing copies of a suffix leaves none behind: doing it
/// again changes nothing, and so does first putting one copy back.
pub proof fn lemma_trim_end_matches_stable(s: Seq<char>, suffix: Seq<char>)
    requires
        suffix.len() > 0,
    ensures
        trim_end_matches_spec(trim_end_matches_spec(s, suffix), suffix) == trim_end_matches_spec(
            s,
            suffix,
        ),
        trim_end_matches_spec(trim_end_matches_spec(s, suffix) + suffix, suffix)
            == trim_end_matches_spec(s, suffix),
{
    let r = trim_end_matches_spec(s, suffix);
    lemma_trim_end_matches_shape(s, suffix);
    let t = r + suffix;
    assert(t.subrange(t.len() - suffix.len(), t.len() as int) =~= suffix);
    assert(t.subrange(0, t.len() - suffix.len()) =~= r);
    assert(trim_end_matches_spec(r, suffix) == r);
    assert(trim_end_matches_spec(t, suffix) == trim_end_matches_spec(r, suffix));
}

} // verus!
