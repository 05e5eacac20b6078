//! Text helpers over `str` and `String`, each specified on the `Seq<char>`
//! view of its arguments.
//!
//! Searching, splitting, replacing and trimming are written here and proved
//! against short spec functions; the two Unicode character classes the
//! library needs (white space and alphanumeric) come from `char` through
//! trusted wrappers.

use vstd::prelude::*;

verus! {

// ───────────────────────────── character classes ─────────────────────────────

/// The Unicode `White_Space` property (`char::is_whitespace`): the controls
/// from tab to carriage return, space, next line, no-break space, the Ogham
/// space mark, the spaces from en quad to hair space, the line and paragraph
/// separators, the narrow no-break space, the medium mathematical space and
/// the ideographic space.
pub open spec fn char_is_whitespace(c: char) -> bool {
    ||| ('\t' <= c && c <= '\r')
    ||| c == ' '
    ||| c == '\u{85}'
    ||| c == '\u{A0}'
    ||| c == '\u{1680}'
    ||| ('\u{2000}' <= c && c <= '\u{200A}')
    ||| c == '\u{2028}'
    ||| c == '\u{2029}'
    ||| c == '\u{202F}'
    ||| c == '\u{205F}'
    ||| c == '\u{3000}'
}

/// The Unicode `Alphabetic` or `Numeric` property, as `char::is_alphanumeric` decides it.
pub uninterp spec fn char_is_alphanumeric(c: char) -> bool;

/// Whether `c` is white space (the meaning of `char::is_whitespace`).
pub(crate) fn is_whitespace(c: char) -> (b: bool)
    ensures
        b == char_is_whitespace(c),
{
    ('\t' <= c && c <= '\r') || c == ' ' || c == '\u{85}' || c == '\u{A0}' || c == '\u{1680}' || (
    '\u{2000}' <= c && c <= '\u{200A}') || c == '\u{2028}' || c == '\u{2029}' || c == '\u{202F}'
        || c == '\u{205F}' || c == '\u{3000}'
}

/// Calls `char::is_alphanumeric`. Trusted: the result is named
/// `char_is_alphanumeric(c)`; for ASCII characters it holds exactly of the
/// digits and the Latin letters. Other characters are left to the Unicode
/// tables and not stated.
#[verifier::external_body]
pub(crate) fn is_alphanumeric(c: char) -> (b: bool)
    ensures
        b == char_is_alphanumeric(c),
        (c as int) < 128 ==> (b <==> (('0' <= c && c <= '9') || ('a' <= c && c <= 'z') || (
        'A' <= c && c <= 'Z'))),
{
    c.is_alphanumeric()
}

// ───────────────────────────── searching ─────────────────────────────

/// `pat` occurs in `s` at position `i`.
pub open spec fn occurs_at(s: Seq<char>, pat: Seq<char>, i: int) -> bool {
    0 <= i && i + pat.len() <= s.len() && s.subrange(i, i + pat.len()) == pat
}

/// `pat` occurs somewhere in `s` (the meaning of `str::contains` with a string pattern).
pub open spec fn contains_seq(s: Seq<char>, pat: Seq<char>) -> bool {
    exists|i: int| occurs_at(s, pat, i)
}

/// `pat` is a prefix of `s`.
pub open spec fn starts_with_seq(s: Seq<char>, pat: Seq<char>) -> bool {
    occurs_at(s, pat, 0)
}

/// The first position at or after `i` where `pat` occurs in `s`.
pub open spec fn find_from(s: Seq<char>, pat: Seq<char>, i: int) -> Option<int>
    decreases s.len() + 1 - i,
{
    if i < 0 || i + pat.len() > s.len() {
        None
    } else if occurs_at(s, pat, i) {
        Some(i)
    } else {
        find_from(s, pat, i + 1)
    }
}

/// The last position of the character `c` in `s`.
pub open spec fn last_index_of(s: Seq<char>, c: char) -> Option<int>
    decreases s.len(),
{
    if s.len() == 0 {
        None
    } else if s.last() == c {
        Some(s.len() - 1)
    } else {
        last_index_of(s.drop_last(), c)
    }
}

/// The number of occurrences of the character `c` in `s`.
pub open spec fn count_of(s: Seq<char>, c: char) -> nat
    decreases s.len(),
{
    if s.len() == 0 {
        0
    } else {
        count_of(s.drop_last(), c) + (if s.last() == c {
            1nat
        } else {
            0nat
        })
    }
}

pub proof fn lemma_last_index_of(s: Seq<char>, c: char)
    ensures
        last_index_of(s, c) matches Some(j) ==> 0 <= j < s.len() && s[j] == c && forall|k: int|
            j < k < s.len() ==> s[k] != c,
        last_index_of(s, c) is None ==> forall|k: int| 0 <= k < s.len() ==> s[k] != c,
    decreases s.len(),
{
    if s.len() > 0 && s.last() != c {
        let t = s.drop_last();
        lemma_last_index_of(t, c);
        assert forall|k: int| 0 <= k < t.len() implies t[k] == s[k] by {}
    }
}

pub proof fn lemma_find_from(s: Seq<char>, pat: Seq<char>, i: int)
    requires
        0 <= i,
    ensures
        find_from(s, pat, i) matches Some(j) ==> i <= j && occurs_at(s, pat, j) && forall|k: int|
            i <= k < j ==> !occurs_at(s, pat, k),
        find_from(s, pat, i) is None ==> forall|k: int| i <= k ==> !occurs_at(s, pat, k),
    decreases s.len() + 1 - i,
{
    if i + pat.len() > s.len() {
    } else if occurs_at(s, pat, i) {
    } else {
        lemma_find_from(s, pat, i + 1);
    }
}

/// Whether `pat` occurs in `s` at character position `i`.
pub fn occurs_at_exec(s: &str, pat: &str, i: usize) -> (b: bool)
    ensures
        b == occurs_at(s@, pat@, i as int),
{
    let sn = s.unicode_len();
    let n = pat.unicode_len();
    if i > sn || n > sn - i {
        return false;
    }
    let mut k: usize = 0;
    while k < n
        invariant
            n == pat@.len(),
            sn == s@.len(),
            i + n <= s@.len(),
            k <= n,
            forall|j: int| 0 <= j < k ==> s@[i + j] == pat@[j],
        decreases n - k,
    {
        if s.get_char(i + k) != pat.get_char(k) {
            assert(s@.subrange(i as int, i + n)[k as int] != pat@[k as int]);
            return false;
        }
        k = k + 1;
    }
    assert(s@.subrange(i as int, i + n) =~= pat@);
    true
}

/// The first position at or after `start` where `pat` occurs in `s`.
pub fn find_from_exec(s: &str, pat: &str, start: usize) -> (r: Option<usize>)
    ensures
        r matches Some(j) ==> Some(j as int) == find_from(s@, pat@, start as int),
        r is None ==> find_from(s@, pat@, start as int) is None,
{
    let n = s.unicode_len();
    let m = pat.unicode_len();
    if m > n || start > n - m {
        return None;
    }
    let mut i: usize = start;
    while i <= n - m
        invariant
            n == s@.len(),
            m == pat@.len(),
            m <= n,
            start <= i <= n - m + 1,
            find_from(s@, pat@, start as int) == find_from(s@, pat@, i as int),
        decreases n - i,
    {
        if occurs_at_exec(s, pat, i) {
            return Some(i);
        }
        if i == n - m {
            assert(find_from(s@, pat@, i + 1) is None);
            return None;
        }
        i = i + 1;
    }
    None
}

/// `str::contains` with a string pattern.
pub fn contains_str(s: &str, pat: &str) -> (b: bool)
    ensures
        b == contains_seq(s@, pat@),
{
    proof {
        lemma_find_from(s@, pat@, 0);
    }
    match find_from_exec(s, pat, 0) {
        Some(_) => true,
        None => false,
    }
}

/// `str::starts_with` with a string pattern.
pub fn starts_with_str(s: &str, pat: &str) -> (b: bool)
    ensures
        b == starts_with_seq(s@, pat@),
{
    occurs_at_exec(s, pat, 0)
}

/// Text equality of two string slices.
pub fn eq_str(a: &str, b: &str) -> (r: bool)
    ensures
        r == (a@ == b@),
{
    if a.unicode_len() != b.unicode_len() {
        return false;
    }
    let r = occurs_at_exec(a, b, 0);
    assert(a@.subrange(0, b@.len() as int) =~= a@);
    r
}

/// `str::rfind` with a character pattern, counting characters.
pub fn rfind_char(s: &str, c: char) -> (r: Option<usize>)
    ensures
        r matches Some(j) ==> j < s@.len(),
        r matches Some(j) ==> last_index_of(s@, c) == Some(j as int),
        r is None ==> last_index_of(s@, c) is None,
{
    let n = s.unicode_len();
    let mut i: usize = n;
    assert(s@.subrange(0, n as int) =~= s@);
    while i > 0
        invariant
            n == s@.len(),
            i <= n,
            last_index_of(s@, c) == last_index_of(s@.subrange(0, i as int), c),
        decreases i,
    {
        let ghost t = s@.subrange(0, i as int);
        proof {
            lemma_last_index_of(t, c);
        }
        if s.get_char(i - 1) == c {
            return Some(i - 1);
        }
        assert(t.drop_last() =~= s@.subrange(0, i - 1));
        i = i - 1;
    }
    None
}

/// The number of occurrences of `c` in `s` (`s.matches(c).count()`).
pub fn count_char(s: &str, c: char) -> (r: usize)
    ensures
        r == count_of(s@, c),
{
    let n = s.unicode_len();
    let mut i: usize = 0;
    let mut cnt: usize = 0;
    while i < n
        invariant
            n == s@.len(),
            i <= n,
            cnt <= i,
            cnt == count_of(s@.subrange(0, i as int), c),
        decreases n - i,
    {
        assert(s@.subrange(0, i + 1).drop_last() =~= s@.subrange(0, i as int));
        if s.get_char(i) == c {
            cnt = cnt + 1;
        }
        i = i + 1;
    }
    assert(s@.subrange(0, n as int) =~= s@);
    cnt
}

// ───────────────────────────── building ─────────────────────────────

/// The characters of `s` from `from` up to `to`, as a new string.
pub fn substring(s: &str, from: usize, to: usize) -> (r: String)
    requires
        from <= to <= s@.len(),
    ensures
        r@ == s@.subrange(from as int, to as int),
{
    s.substring_char(from, to).to_owned()
}

/// `a` followed by `b`.
pub fn concat(a: &str, b: &str) -> (r: String)
    ensures
        r@ == a@ + b@,
{
    let mut r = a.to_owned();
    r.append(b);
    r
}

/// `a`, then `b`, then `c`.
pub fn concat3(a: &str, b: &str, c: &str) -> (r: String)
    ensures
        r@ == a@ + b@ + c@,
{
    let mut r = a.to_owned();
    r.append(b);
    r.append(c);
    r
}

/// The pieces joined with `sep` between consecutive ones (`[T]::join`).
pub open spec fn join_seq(parts: Seq<Seq<char>>, sep: Seq<char>) -> Seq<char>
    decreases parts.len(),
{
    if parts.len() == 0 {
        seq![]
    } else if parts.len() == 1 {
        parts[0]
    } else {
        join_seq(parts.drop_last(), sep) + sep + parts.last()
    }
}

/// The strings joined with `sep` between consecutive ones.
pub fn join_strings(parts: &Vec<String>, sep: &str) -> (r: String)
    ensures
        r@ == join_seq(views(parts@), sep@),
{
    let mut out = String::new();
    let mut i: usize = 0;
    while i < parts.len()
        invariant
            i <= parts@.len(),
            out@ == join_seq(views(parts@).subrange(0, i as int), sep@),
        decreases parts@.len() - i,
    {
        assert(views(parts@).subrange(0, i + 1).drop_last() =~= views(parts@).subrange(0, i as int));
        if i > 0 {
            out.append(sep);
        }
        out.append(parts[i].as_str());
        i = i + 1;
    }
    assert(views(parts@).subrange(0, parts@.len() as int) =~= views(parts@));
    out
}

// ───────────────────────────── splitting ─────────────────────────────

/// The pieces of `s` from position `start` on, cut at the non-overlapping
/// occurrences of `pat` found from left to right (`str::split`).
pub open spec fn split_from(s: Seq<char>, pat: Seq<char>, start: int) -> Seq<Seq<char>>
    decreases s.len() - start,
{
    if pat.len() == 0 || start < 0 || start > s.len() {
        seq![s.subrange(start, s.len() as int)]
    } else {
        match find_from(s, pat, start) {
            None => seq![s.subrange(start, s.len() as int)],
            Some(i) => {
                proof {
                    lemma_find_from(s, pat, start);
                }
                seq![s.subrange(start, i)] + split_from(s, pat, i + pat.len())
            },
        }
    }
}

/// `str::split` with a non-empty string pattern.
pub open spec fn split_seq(s: Seq<char>, pat: Seq<char>) -> Seq<Seq<char>> {
    split_from(s, pat, 0)
}

// ───────────────────────────── facts about splitting ─────────────────────────────

/// The first occurrence at or after `start` is `i` when `pat` occurs at `i`
/// and nowhere in between.
pub proof fn lemma_find_is(s: Seq<char>, pat: Seq<char>, start: int, i: int)
    requires
        0 <= start <= i,
        occurs_at(s, pat, i),
        forall|k: int| start <= k < i ==> !occurs_at(s, pat, k),
    ensures
        find_from(s, pat, start) == Some(i),
{
    lemma_find_from(s, pat, start);
}

/// A pattern cannot occur where its first character is absent.
pub proof fn lemma_no_occurrence(s: Seq<char>, pat: Seq<char>, lo: int, hi: int)
    requires
        pat.len() > 0,
        forall|k: int| lo <= k < hi && 0 <= k < s.len() ==> s[k] != pat[0],
    ensures
        forall|k: int| lo <= k < hi ==> !occurs_at(s, pat, k),
{
    assert forall|k: int| lo <= k < hi implies !occurs_at(s, pat, k) by {
        if occurs_at(s, pat, k) {
            assert(s.subrange(k, k + pat.len())[0] == s[k]);
        }
    }
}

/// Splitting a text that does not hold the pattern gives the text whole.
pub proof fn lemma_split_whole(s: Seq<char>, pat: Seq<char>)
    requires
        pat.len() > 0,
        forall|k: int| 0 <= k ==> !occurs_at(s, pat, k),
    ensures
        split_seq(s, pat) == seq![s],
{
    lemma_find_none(s, pat, 0);
    assert(s.subrange(0, s.len() as int) =~= s);
}

/// Splitting `x + pat + y`, where the pattern occurs only between `x` and
/// `y`, gives `x` and `y`.
pub proof fn lemma_split_once(x: Seq<char>, pat: Seq<char>, y: Seq<char>)
    requires
        pat.len() > 0,
        forall|k: int| 0 <= k < x.len() ==> !occurs_at(x + pat + y, pat, k),
        forall|k: int| x.len() + pat.len() <= k ==> !occurs_at(x + pat + y, pat, k),
    ensures
        split_seq(x + pat + y, pat) == seq![x, y],
        contains_seq(x + pat + y, pat),
{
    let s = x + pat + y;
    let n: int = (x.len() + pat.len()) as int;
    assert(s.subrange(x.len() as int, n) =~= pat);
    assert(occurs_at(s, pat, x.len() as int));
    lemma_find_is(s, pat, 0, x.len() as int);
    lemma_find_none(s, pat, n);
    assert(s.subrange(0, x.len() as int) =~= x);
    assert(s.subrange(n, s.len() as int) =~= y);
    assert(split_from(s, pat, n) == seq![y]);
    assert(split_from(s, pat, 0) == seq![x] + split_from(s, pat, n));
    assert(seq![x] + seq![y] =~= seq![x, y]);
}

/// An occurrence past a prefix is an occurrence in what follows it.
pub proof fn lemma_occurs_shift(p: Seq<char>, y: Seq<char>, pat: Seq<char>, k: int)
    requires
        0 <= k,
    ensures
        occurs_at(p + y, pat, p.len() + k) == occurs_at(y, pat, k),
{
    if k + pat.len() <= y.len() {
        assert((p + y).subrange(p.len() + k, p.len() + k + pat.len()) =~= y.subrange(k, k + pat.len()));
    }
}

/// `x` holds no `c`.
pub open spec fn lacks(x: Seq<char>, c: char) -> bool {
    forall|i: int| 0 <= i < x.len() ==> x[i] != c
}

/// A double colon never occurs in `x + ":" + y` when `x` and `y` hold no colon.
pub proof fn lemma_no_double_colon(x: Seq<char>, y: Seq<char>)
    requires
        lacks(x, ':'),
        lacks(y, ':'),
    ensures
        forall|k: int| !occurs_at(x + seq![':'] + y, seq![':', ':'], k),
{
    let s = x + seq![':'] + y;
    assert forall|k: int| !occurs_at(s, seq![':', ':'], k) by {
        if occurs_at(s, seq![':', ':'], k) {
            assert(s.subrange(k, k + 2)[0] == s[k]);
            assert(s.subrange(k, k + 2)[1] == s[k + 1]);
            if k < x.len() {
                assert(s[k] == x[k]);
            } else if k == x.len() {
                if y.len() > 0 {
                    assert(s[k + 1] == y[0]);
                }
            } else {
                assert(s[k] == y[k - x.len() - 1]);
            }
        }
    }
}

/// There is no occurrence at or after `start` when `pat` occurs nowhere there.
pub proof fn lemma_find_none(s: Seq<char>, pat: Seq<char>, start: int)
    requires
        0 <= start,
        forall|k: int| start <= k ==> !occurs_at(s, pat, k),
    ensures
        find_from(s, pat, start) is None,
{
    lemma_find_from(s, pat, start);
}

/// Splitting the tail `y` of `p + y` from a position inside `y` is splitting `y`.
pub proof fn lemma_split_shift(p: Seq<char>, y: Seq<char>, pat: Seq<char>, k: int)
    requires
        pat.len() > 0,
        0 <= k <= y.len(),
    ensures
        split_from(p + y, pat, p.len() + k) == split_from(y, pat, k),
    decreases y.len() - k,
{
    let s = p + y;
    let n = p.len() as int;
    assert forall|m: int| #[trigger] occurs_at(s, pat, m) && m >= n implies occurs_at(y, pat, m - n) by {
        assert(s.subrange(m, m + pat.len()) =~= y.subrange(m - n, m - n + pat.len()));
    }
    assert forall|j: int| #[trigger] occurs_at(y, pat, j) implies occurs_at(s, pat, n + j) by {
        assert(s.subrange(n + j, n + j + pat.len()) =~= y.subrange(j, j + pat.len()));
    }
    lemma_find_from(y, pat, k);
    match find_from(y, pat, k) {
        Some(i) => {
            assert(occurs_at(s, pat, n + i));
            assert forall|m: int| n + k <= m < n + i implies !occurs_at(s, pat, m) by {
                if occurs_at(s, pat, m) {
                    assert(occurs_at(y, pat, m - n));
                }
            }
            lemma_find_is(s, pat, n + k, n + i);
            lemma_split_shift(p, y, pat, i + pat.len());
            assert(s.subrange(n + k, n + i) =~= y.subrange(k, i));
        },
        None => {
            assert forall|m: int| n + k <= m implies !occurs_at(s, pat, m) by {
                if occurs_at(s, pat, m) {
                    assert(occurs_at(y, pat, m - n));
                }
            }
            lemma_find_none(s, pat, n + k);
            assert(s.subrange(n + k, s.len() as int) =~= y.subrange(k, y.len() as int));
        },
    }
}

/// Splitting at a character `c` cuts `x + [c] + y` into the pieces of `x`
/// followed by the pieces of `y`.
pub proof fn lemma_split_concat(x: Seq<char>, c: char, y: Seq<char>, start: int)
    requires
        0 <= start <= x.len(),
    ensures
        split_from(x + seq![c] + y, seq![c], start) == split_from(x, seq![c], start) + split_from(
            y,
            seq![c],
            0,
        ),
    decreases x.len() - start,
{
    let pat = seq![c];
    let s = x + pat + y;
    let n = x.len() as int;
    assert forall|m: int| 0 <= m < n implies (#[trigger] occurs_at(s, pat, m) <==> occurs_at(
        x,
        pat,
        m,
    )) by {
        if occurs_at(s, pat, m) {
            assert(s.subrange(m, m + 1)[0] == s[m]);
            assert(x.subrange(m, m + 1) =~= pat);
        }
        if occurs_at(x, pat, m) {
            assert(x.subrange(m, m + 1)[0] == x[m]);
            assert(s.subrange(m, m + 1) =~= pat);
        }
    }
    lemma_find_from(x, pat, start);
    match find_from(x, pat, start) {
        Some(i) => {
            assert(occurs_at(s, pat, i));
            lemma_find_is(s, pat, start, i);
            lemma_split_concat(x, c, y, i + 1);
            assert(s.subrange(start, i) =~= x.subrange(start, i));
            assert(split_from(s, pat, start) =~= seq![x.subrange(start, i)] + (split_from(
                x,
                pat,
                i + 1,
            ) + split_from(y, pat, 0)));
        },
        None => {
            assert(s.subrange(n, n + 1) =~= pat);
            assert forall|k: int| start <= k < n implies !occurs_at(s, pat, k) by {}
            lemma_find_is(s, pat, start, n);
            assert(s =~= (x + pat) + y);
            lemma_split_shift(x + pat, y, pat, 0);
            assert(s.subrange(start, n) =~= x.subrange(start, n));
        },
    }
}

/// No piece of a split at `c` holds `c`.
pub proof fn lemma_split_pieces_free(s: Seq<char>, c: char, start: int)
    requires
        0 <= start <= s.len(),
    ensures
        forall|i: int, k: int|
            0 <= i < split_from(s, seq![c], start).len() && 0 <= k < split_from(
                s,
                seq![c],
                start,
            )[i].len() ==> #[trigger] split_from(s, seq![c], start)[i][k] != c,
    decreases s.len() - start,
{
    let pat = seq![c];
    lemma_find_from(s, pat, start);
    let parts = split_from(s, pat, start);
    match find_from(s, pat, start) {
        Some(i) => {
            lemma_split_pieces_free(s, c, i + 1);
            let head = s.subrange(start, i);
            let rest = split_from(s, pat, i + 1);
            assert(parts == seq![head] + rest);
            assert forall|j: int, k: int| 0 <= j < parts.len() && 0 <= k < parts[j].len() implies #[trigger] parts[j][k] != c by {
                if j == 0 {
                    if head[k] == c {
                        assert(head[k] == s[start + k]);
                        assert(s.subrange(start + k, start + k + 1) =~= pat);
                        assert(occurs_at(s, pat, start + k));
                    }
                } else {
                    assert(parts[j] == rest[j - 1]);
                }
            }
        },
        None => {
            let head = s.subrange(start, s.len() as int);
            assert(parts == seq![head]);
            assert forall|j: int, k: int| 0 <= j < parts.len() && 0 <= k < parts[j].len() implies #[trigger] parts[j][k] != c by {
                if head[k] == c {
                    assert(head[k] == s[start + k]);
                    assert(s.subrange(start + k, start + k + 1) =~= pat);
                    assert(occurs_at(s, pat, start + k));
                }
            }
        },
    }
}

/// Joining with `sep` a piece in front of at least one other.
pub proof fn lemma_join_front(a: Seq<char>, rest: Seq<Seq<char>>, sep: Seq<char>)
    requires
        rest.len() > 0,
    ensures
        join_seq(seq![a] + rest, sep) == a + sep + join_seq(rest, sep),
    decreases rest.len(),
{
    let all = seq![a] + rest;
    assert(all.len() == rest.len() + 1);
    assert(all.last() == rest.last());
    if rest.len() == 1 {
        assert(all.drop_last() =~= seq![a]);
        assert(join_seq(all.drop_last(), sep) == a);
        assert(join_seq(rest, sep) == rest[0]);
    } else {
        lemma_join_front(a, rest.drop_last(), sep);
        assert(all.drop_last() =~= seq![a] + rest.drop_last());
        assert(join_seq(all, sep) == join_seq(all.drop_last(), sep) + sep + all.last());
        assert(join_seq(rest, sep) == join_seq(rest.drop_last(), sep) + sep + rest.last());
        assert(join_seq(all, sep) =~= a + sep + join_seq(rest, sep));
    }
}

/// A split always has at least one piece.
pub proof fn lemma_split_from_len(s: Seq<char>, pat: Seq<char>, start: int)
    requires
        pat.len() > 0,
    ensures
        split_from(s, pat, start).len() >= 1,
    decreases s.len() - start,
{
    if start >= 0 && start <= s.len() {
        lemma_find_from(s, pat, start);
        match find_from(s, pat, start) {
            Some(i) => {
                lemma_split_from_len(s, pat, i + pat.len());
            },
            None => {},
        }
    }
}

/// Joining the pieces of a split with the pattern gives back the text split.
pub proof fn lemma_join_split(s: Seq<char>, pat: Seq<char>, start: int)
    requires
        pat.len() > 0,
        0 <= start <= s.len(),
    ensures
        join_seq(split_from(s, pat, start), pat) == s.subrange(start, s.len() as int),
    decreases s.len() - start,
{
    lemma_find_from(s, pat, start);
    match find_from(s, pat, start) {
        Some(i) => {
            lemma_join_split(s, pat, i + pat.len());
            let rest = split_from(s, pat, i + pat.len());
            lemma_split_from_len(s, pat, i + pat.len());
            lemma_join_front(s.subrange(start, i), rest, pat);
            assert(s.subrange(i, i + pat.len()) == pat);
            assert(s.subrange(start, s.len() as int) =~= s.subrange(start, i) + pat + s.subrange(
                i + pat.len(),
                s.len() as int,
            ));
        },
        None => {},
    }
}

/// The views of a vector of strings.
pub open spec fn views(v: Seq<String>) -> Seq<Seq<char>> {
    v.map_values(|x: String| x@)
}

/// `str::split` with a non-empty string pattern, collected into owned strings.
pub fn split_str(s: &str, pat: &str) -> (r: Vec<String>)
    requires
        pat@.len() > 0,
    ensures
        views(r@) == split_seq(s@, pat@),
        r@.len() >= 1,
{
    let n = s.unicode_len();
    let m = pat.unicode_len();
    let mut out: Vec<String> = Vec::new();
    let mut start: usize = 0;
    loop
        invariant
            n == s@.len(),
            m == pat@.len(),
            m > 0,
            start <= n,
            split_seq(s@, pat@) == views(out@) + split_from(s@, pat@, start as int),
        decreases n - start,
    {
        proof {
            lemma_find_from(s@, pat@, start as int);
        }
        match find_from_exec(s, pat, start) {
            None => {
                let piece = substring(s, start, n);
                let ghost before = out@;
                out.push(piece);
                assert(views(out@) =~= views(before) + seq![s@.subrange(start as int, n as int)]);
                return out;
            },
            Some(i) => {
                let piece = substring(s, start, i);
                let ghost before = out@;
                out.push(piece);
                assert(views(out@) =~= views(before) + seq![s@.subrange(start as int, i as int)]);
                start = i + m;
            },
        }
    }
}

// ───────────────────────────── replacing ─────────────────────────────

/// `s` from `start` on with every non-overlapping occurrence of `pat`, found from
/// left to right, replaced by `to` (`str::replace`).
pub open spec fn replace_from(s: Seq<char>, pat: Seq<char>, to: Seq<char>, start: int) -> Seq<char>
    decreases s.len() - start,
{
    if pat.len() == 0 || start < 0 || start > s.len() {
        s.subrange(start, s.len() as int)
    } else {
        match find_from(s, pat, start) {
            None => s.subrange(start, s.len() as int),
            Some(i) => {
                proof {
                    lemma_find_from(s, pat, start);
                }
                s.subrange(start, i) + to + replace_from(s, pat, to, i + pat.len())
            },
        }
    }
}

/// `str::replace` with a non-empty pattern.
pub open spec fn replace_seq(s: Seq<char>, pat: Seq<char>, to: Seq<char>) -> Seq<char> {
    replace_from(s, pat, to, 0)
}

/// `str::replace` with a non-empty string pattern.
pub fn replace_str(s: &str, pat: &str, to: &str) -> (r: String)
    requires
        pat@.len() > 0,
    ensures
        r@ == replace_seq(s@, pat@, to@),
{
    let n = s.unicode_len();
    let m = pat.unicode_len();
    let mut out = String::new();
    let mut start: usize = 0;
    loop
        invariant
            n == s@.len(),
            m == pat@.len(),
            m > 0,
            start <= n,
            replace_seq(s@, pat@, to@) == out@ + replace_from(s@, pat@, to@, start as int),
        decreases n - start,
    {
        proof {
            lemma_find_from(s@, pat@, start as int);
        }
        match find_from_exec(s, pat, start) {
            None => {
                let piece = s.substring_char(start, n);
                out.append(piece);
                return out;
            },
            Some(i) => {
                let piece = s.substring_char(start, i);
                out.append(piece);
                out.append(to);
                start = i + m;
            },
        }
    }
}

/// A string with no occurrence of the pattern is left as it is by `replace_seq`.
pub proof fn lemma_replace_absent(s: Seq<char>, pat: Seq<char>, to: Seq<char>)
    requires
        !contains_seq(s, pat),
    ensures
        replace_seq(s, pat, to) == s,
{
    lemma_find_from(s, pat, 0);
    if pat.len() > 0 {
        if find_from(s, pat, 0) is Some {
            let j = find_from(s, pat, 0)->0;
            assert(occurs_at(s, pat, j));
        }
    }
    assert(s.subrange(0, s.len() as int) =~= s);
}

// ───────────────────────────── trimming ─────────────────────────────

/// The first position at or after `i` that does not hold white space.
pub open spec fn lead(s: Seq<char>, i: int) -> int
    decreases s.len() - i,
{
    if i < 0 || i >= s.len() || !char_is_whitespace(s[i]) {
        i
    } else {
        lead(s, i + 1)
    }
}

/// Moving back from `j` (down to `lo`), the end of the last character that is not white space.
pub open spec fn trail(s: Seq<char>, j: int, lo: int) -> int
    decreases j - lo,
{
    if j <= lo || j > s.len() || !char_is_whitespace(s[j - 1]) {
        j
    } else {
        trail(s, j - 1, lo)
    }
}

/// The start of the trimmed text.
pub open spec fn trim_start_index(s: Seq<char>) -> int {
    lead(s, 0)
}

/// The end of the trimmed text.
pub open spec fn trim_end_index(s: Seq<char>) -> int {
    trail(s, s.len() as int, lead(s, 0))
}

/// `str::trim`: `s` without its leading and trailing white space.
pub open spec fn trim_seq(s: Seq<char>) -> Seq<char> {
    s.subrange(trim_start_index(s), trim_end_index(s))
}

/// `s.trim().is_empty()`.
pub open spec fn is_blank_seq(s: Seq<char>) -> bool {
    trim_seq(s).len() == 0
}

pub proof fn lemma_lead_bounds(s: Seq<char>, i: int)
    requires
        0 <= i <= s.len(),
    ensures
        i <= lead(s, i) <= s.len(),
    decreases s.len() - i,
{
    if i < s.len() && char_is_whitespace(s[i]) {
        lemma_lead_bounds(s, i + 1);
    }
}

pub proof fn lemma_trail_bounds(s: Seq<char>, j: int, lo: int)
    requires
        0 <= lo <= j <= s.len(),
    ensures
        lo <= trail(s, j, lo) <= j,
    decreases j - lo,
{
    if j > lo && char_is_whitespace(s[j - 1]) {
        lemma_trail_bounds(s, j - 1, lo);
    }
}

/// `str::trim`, as a new string.
pub fn trim(s: &str) -> (r: String)
    ensures
        r@ == trim_seq(s@),
{
    let n = s.unicode_len();
    let mut i: usize = 0;
    while i < n && is_whitespace(s.get_char(i))
        invariant
            n == s@.len(),
            i <= n,
            lead(s@, 0) == lead(s@, i as int),
        decreases n - i,
    {
        i = i + 1;
    }
    let mut j: usize = n;
    while j > i && is_whitespace(s.get_char(j - 1))
        invariant
            n == s@.len(),
            i <= j <= n,
            lead(s@, 0) == i,
            trail(s@, n as int, i as int) == trail(s@, j as int, i as int),
        decreases j,
    {
        j = j - 1;
    }
    substring(s, i, j)
}

/// `s.trim().is_empty()`: `s` holds nothing but white space.
pub fn is_blank(s: &str) -> (b: bool)
    ensures
        b == is_blank_seq(s@),
{
    let t = trim(s);
    proof {
        lemma_lead_bounds(s@, 0);
        lemma_trail_bounds(s@, s@.len() as int, lead(s@, 0));
    }
    t.as_str().unicode_len() == 0
}

/// Past position `i`, the end of the run of characters that are not white space.
pub open spec fn word_end(s: Seq<char>, i: int) -> int
    decreases s.len() - i,
{
    if i < 0 || i >= s.len() || char_is_whitespace(s[i]) {
        i
    } else {
        word_end(s, i + 1)
    }
}

/// `s.split_whitespace().next().unwrap_or(s)`: the first word of `s`, or `s`
/// itself when it holds no word.
pub open spec fn first_word_or_self(s: Seq<char>) -> Seq<char> {
    if is_blank_seq(s) {
        s
    } else {
        s.subrange(lead(s, 0), word_end(s, lead(s, 0)))
    }
}

/// `s.split_whitespace().next().unwrap_or(s)`.
pub fn first_word(s: &str) -> (r: String)
    ensures
        r@ == first_word_or_self(s@),
{
    if is_blank(s) {
        return s.to_owned();
    }
    let n = s.unicode_len();
    let mut i: usize = 0;
    while i < n && is_whitespace(s.get_char(i))
        invariant
            n == s@.len(),
            i <= n,
            lead(s@, 0) == lead(s@, i as int),
        decreases n - i,
    {
        i = i + 1;
    }
    let mut j: usize = i;
    while j < n && !is_whitespace(s.get_char(j))
        invariant
            n == s@.len(),
            i <= j <= n,
            word_end(s@, i as int) == word_end(s@, j as int),
        decreases n - j,
    {
        j = j + 1;
    }
    substring(s, i, j)
}

/// Moving back from `j`, the start of the run of characters that are not white space.
pub open spec fn word_start(s: Seq<char>, j: int) -> int
    decreases j,
{
    if j <= 0 || j > s.len() || char_is_whitespace(s[j - 1]) {
        j
    } else {
        word_start(s, j - 1)
    }
}

/// `s.split_whitespace().last()`: the last word of `s`, if it has one.
pub open spec fn last_word_of(s: Seq<char>) -> Option<Seq<char>> {
    if is_blank_seq(s) {
        None
    } else {
        let e = trail(s, s.len() as int, 0);
        Some(s.subrange(word_start(s, e), e))
    }
}

/// `s.split_whitespace().last()`.
pub fn last_word(s: &str) -> (r: Option<String>)
    ensures
        match r {
            Some(w) => last_word_of(s@) == Some(w@),
            None => last_word_of(s@) is None,
        },
{
    if is_blank(s) {
        return None;
    }
    let n = s.unicode_len();
    let mut e: usize = n;
    while e > 0 && is_whitespace(s.get_char(e - 1))
        invariant
            n == s@.len(),
            e <= n,
            trail(s@, n as int, 0) == trail(s@, e as int, 0),
        decreases e,
    {
        e = e - 1;
    }
    let mut b: usize = e;
    while b > 0 && !is_whitespace(s.get_char(b - 1))
        invariant
            n == s@.len(),
            b <= e <= n,
            word_start(s@, e as int) == word_start(s@, b as int),
        decreases b,
    {
        b = b - 1;
    }
    Some(substring(s, b, e))
}

/// Strips `pat` from the front of `s` as many times as it occurs there,
/// starting at position `i` (`str::trim_start_matches`).
pub open spec fn strip_repeated(s: Seq<char>, pat: Seq<char>, i: int) -> int
    decreases s.len() - i,
{
    if pat.len() == 0 || i < 0 || !occurs_at(s, pat, i) {
        i
    } else {
        strip_repeated(s, pat, i + pat.len())
    }
}

/// `str::trim_start_matches` with a string pattern.
pub open spec fn trim_start_matches_seq(s: Seq<char>, pat: Seq<char>) -> Seq<char> {
    s.subrange(strip_repeated(s, pat, 0), s.len() as int)
}

pub proof fn lemma_strip_repeated_bounds(s: Seq<char>, pat: Seq<char>, i: int)
    requires
        0 <= i <= s.len(),
    ensures
        i <= strip_repeated(s, pat, i) <= s.len(),
    decreases s.len() - i,
{
    if pat.len() > 0 && occurs_at(s, pat, i) {
        lemma_strip_repeated_bounds(s, pat, i + pat.len());
    }
}

/// `str::trim_start_matches` with a string pattern, as a new string.
pub fn trim_start_matches(s: &str, pat: &str) -> (r: String)
    ensures
        r@ == trim_start_matches_seq(s@, pat@),
{
    let n = s.unicode_len();
    let m = pat.unicode_len();
    let mut i: usize = 0;
    if m > 0 {
        while occurs_at_exec(s, pat, i)
            invariant
                n == s@.len(),
                m == pat@.len(),
                m > 0,
                i <= n,
                strip_repeated(s@, pat@, 0) == strip_repeated(s@, pat@, i as int),
            decreases n - i,
        {
            i = i + m;
        }
    }
    substring(s, i, n)
}

} // verus!
