//! Character-sequence utilities the service classifier is built on:
//! substring search (case-sensitive and ASCII-case-insensitive), first-line
//! extraction, header-line lookup and whitespace trimming, each verified
//! against a direct mathematical statement.

use vstd::prelude::*;

verus! {

/// ASCII-lowercased code point of `c`; characters outside `A..=Z` are kept.
pub open spec fn lower_u(c: char) -> u32 {
    if 'A' as u32 <= c as u32 && c as u32 <= 'Z' as u32 {
        (c as u32 + 32) as u32
    } else {
        c as u32
    }
}

/// The sequence of ASCII-lowercased code points of `s`.
pub open spec fn lower_seq(s: Seq<char>) -> Seq<u32> {
    s.map_values(|c: char| lower_u(c))
}

/// Whitespace as `char::is_whitespace` has it: the characters with the
/// Unicode `White_Space` property.
pub open spec fn spec_is_ws(c: char) -> bool {
    c == ' ' || c == '\t' || c == '\n' || c == '\r' || c == '\u{b}' || c == '\u{c}' || c
        == '\u{85}' || c == '\u{a0}' || c == '\u{1680}' || ('\u{2000}' as u32 <= c as u32 && c
        as u32 <= '\u{200a}' as u32) || c == '\u{2028}' || c == '\u{2029}' || c == '\u{202f}' || c
        == '\u{205f}' || c == '\u{3000}'
}

/// `pat` occurs in `s` starting at index `i`.
pub open spec fn contains_at<T>(s: Seq<T>, pat: Seq<T>, i: int) -> bool {
    0 <= i && i + pat.len() <= s.len() && s.subrange(i, i + pat.len() as int) == pat
}

/// `pat` occurs somewhere in `s`.
pub open spec fn seq_contains<T>(s: Seq<T>, pat: Seq<T>) -> bool {
    exists|i: int| contains_at(s, pat, i)
}

/// Index of the first `'\n'` in `s`, or `s.len()` if there is none.
pub open spec fn nl_index(s: Seq<char>) -> int
    decreases s.len(),
{
    if s.len() == 0 {
        0
    } else if s[0] == '\n' {
        0
    } else {
        1 + nl_index(s.drop_first())
    }
}

/// What `nl_index` computes: the position of the first newline.
pub proof fn lemma_nl_index(s: Seq<char>)
    ensures
        0 <= nl_index(s) <= s.len(),
        nl_index(s) < s.len() ==> s[nl_index(s)] == '\n',
        forall|j: int| 0 <= j < nl_index(s) ==> s[j] != '\n',
    decreases s.len(),
{
    if s.len() > 0 && s[0] != '\n' {
        lemma_nl_index(s.drop_first());
        assert forall|j: int| 0 <= j < nl_index(s) implies s[j] != '\n' by {
            if j > 0 {
                assert(s.drop_first()[j - 1] != '\n');
            }
        }
    }
}

pub fn lower_of(c: char) -> (r: u32)
    ensures
        r == lower_u(c),
{
    let u = c as u32;
    if 'A' as u32 <= u && u <= 'Z' as u32 {
        u + 32
    } else {
        u
    }
}

pub fn is_ws(c: char) -> (r: bool)
    ensures
        r == spec_is_ws(c),
{
    c == ' ' || c == '\t' || c == '\n' || c == '\r' || c == '\u{b}' || c == '\u{c}' || c
        == '\u{85}' || c == '\u{a0}' || c == '\u{1680}' || ('\u{2000}' as u32 <= c as u32 && c
        as u32 <= '\u{200a}' as u32) || c == '\u{2028}' || c == '\u{2029}' || c == '\u{202f}' || c
        == '\u{205f}' || c == '\u{3000}'
}

/// The characters of `s`, as an indexable vector.
pub fn chars_vec(s: &str) -> (v: Vec<char>)
    ensures
        v@ == s@,
{
    let n = s.unicode_len();
    let mut v: Vec<char> = Vec::new();
    let mut i: usize = 0;
    while i < n
        invariant
            n == s@.len(),
            i <= n,
            v@ == s@.subrange(0, i as int),
        decreases n - i,
    {
        v.push(s.get_char(i));
        i += 1;
        proof {
            assert(v@ =~= s@.subrange(0, i as int));
        }
    }
    proof {
        assert(v@ =~= s@);
    }
    v
}

/// Substring search: whether `pat` occurs in `hay`.
pub fn contains_chars(hay: &Vec<char>, pat: &str) -> (r: bool)
    ensures
        r == seq_contains(hay@, pat@),
{
    let n = hay.len();
    let m = pat.unicode_len();
    if m == 0 {
        proof {
            assert(hay@.subrange(0, 0) =~= pat@);
            assert(contains_at(hay@, pat@, 0));
        }
        return true;
    }
    if m > n {
        proof {
            assert(forall|i: int| !contains_at(hay@, pat@, i));
        }
        return false;
    }
    let mut i: usize = 0;
    loop
        invariant
            m == pat@.len(),
            n == hay@.len(),
            1 <= m <= n,
            i <= n - m + 1,
            forall|k: int| 0 <= k < i ==> !contains_at(hay@, pat@, k),
        decreases n - m + 1 - i,
    {
        if i > n - m {
            proof {
                assert forall|k: int| !contains_at(hay@, pat@, k) by {
                    if 0 <= k <= n - m {
                        assert(!contains_at(hay@, pat@, k));
                    }
                }
            }
            return false;
        }
        let mut j: usize = 0;
        let mut matched = true;
        while j < m
            invariant
                m == pat@.len(),
                n == hay@.len(),
                i + m <= n,
                j <= m,
                matched ==> forall|t: int| 0 <= t < j ==> hay@[i + t] == pat@[t],
                !matched ==> !contains_at(hay@, pat@, i as int),
            decreases m - j,
        {
            if hay[i + j] != pat.get_char(j) {
                proof {
                    assert(hay@.subrange(i as int, i + m as int)[j as int] != pat@[j as int]);
                }
                matched = false;
                j = m;
            } else {
                j += 1;
            }
        }
        if matched {
            proof {
                assert(hay@.subrange(i as int, i + m as int) =~= pat@);
                assert(contains_at(hay@, pat@, i as int));
            }
            return true;
        }
        i += 1;
    }
}

/// Case-insensitive substring search: whether `pat` occurs in `hay` up to
/// ASCII case.
pub fn contains_chars_ci(hay: &Vec<char>, pat: &str) -> (r: bool)
    ensures
        r == seq_contains(lower_seq(hay@), lower_seq(pat@)),
{
    let n = hay.len();
    let m = pat.unicode_len();
    proof {
        assert(lower_seq(hay@).len() == n);
        assert(lower_seq(pat@).len() == m);
    }
    if m == 0 {
        proof {
            assert(lower_seq(hay@).subrange(0, 0) =~= lower_seq(pat@));
            assert(contains_at(lower_seq(hay@), lower_seq(pat@), 0));
        }
        return true;
    }
    if m > n {
        proof {
            assert(forall|i: int| !contains_at(lower_seq(hay@), lower_seq(pat@), i));
        }
        return false;
    }
    let mut i: usize = 0;
    loop
        invariant
            m == pat@.len(),
            n == hay@.len(),
            1 <= m <= n,
            i <= n - m + 1,
            forall|k: int| 0 <= k < i ==> !contains_at(lower_seq(hay@), lower_seq(pat@), k),
        decreases n - m + 1 - i,
    {
        if i > n - m {
            proof {
                assert forall|k: int| !contains_at(lower_seq(hay@), lower_seq(pat@), k) by {
                    if 0 <= k <= n - m {
                        assert(!contains_at(lower_seq(hay@), lower_seq(pat@), k));
                    }
                }
            }
            return false;
        }
        let mut j: usize = 0;
        let mut matched = true;
        while j < m
            invariant
                m == pat@.len(),
                n == hay@.len(),
                i + m <= n,
                j <= m,
                matched ==> forall|t: int| 0 <= t < j ==> lower_seq(hay@)[i + t] == lower_seq(
                    pat@,
                )[t],
                !matched ==> !contains_at(lower_seq(hay@), lower_seq(pat@), i as int),
            decreases m - j,
        {
            if lower_of(hay[i + j]) != lower_of(pat.get_char(j)) {
                proof {
                    assert(lower_seq(hay@).subrange(i as int, i + m as int)[j as int] != lower_seq(
                        pat@,
                    )[j as int]);
                }
                matched = false;
                j = m;
            } else {
                j += 1;
            }
        }
        if matched {
            proof {
                assert(lower_seq(hay@).subrange(i as int, i + m as int) =~= lower_seq(pat@));
                assert(contains_at(lower_seq(hay@), lower_seq(pat@), i as int));
            }
            return true;
        }
        i += 1;
    }
}

/// Index of the first `'\n'` in `hay` at or after `from`, or `hay.len()`.
pub fn find_nl_from(hay: &Vec<char>, from: usize) -> (r: usize)
    requires
        from <= hay@.len(),
    ensures
        from <= r <= hay@.len(),
        r < hay@.len() ==> hay@[r as int] == '\n',
        forall|j: int| from <= j < r ==> hay@[j] != '\n',
{
    let n = hay.len();
    let mut i: usize = from;
    while i < n
        invariant
            n == hay@.len(),
            from <= i <= n,
            forall|j: int| from <= j < i ==> hay@[j] != '\n',
        decreases n - i,
    {
        if hay[i] == '\n' {
            return i;
        }
        i += 1;
    }
    i
}

/// The first line of `s`, as `str::lines` yields it: the characters before
/// the first `'\n'`, with a `'\r'` directly before that `'\n'` removed.
/// Without a newline the whole of `s` is the line; of the empty text the
/// line is empty.
pub open spec fn spec_first_line(s: Seq<char>) -> Seq<char> {
    let i = nl_index(s);
    if i < s.len() {
        if i > 0 && s[i - 1] == '\r' {
            s.subrange(0, i - 1)
        } else {
            s.subrange(0, i)
        }
    } else {
        s
    }
}

/// The line begins with `server:`, compared without regard to ASCII case.
pub open spec fn spec_starts_with_server(line: Seq<char>) -> bool {
    line.len() >= 7 && lower_seq(line.subrange(0, 7)) == lower_seq("server:"@)
}

/// The first line of `s`, in `str::lines` order, that begins with
/// `server:` up to ASCII case; lines before a `'\n'` lose a `'\r'` just
/// before it, a final line without `'\n'` is taken as it stands.
pub open spec fn spec_server_line(s: Seq<char>) -> Option<Seq<char>>
    decreases s.len(),
    via spec_server_line_dec
{
    if s.len() == 0 {
        None
    } else {
        let i = nl_index(s);
        if i < s.len() {
            let line = if i > 0 && s[i - 1] == '\r' {
                s.subrange(0, i - 1)
            } else {
                s.subrange(0, i)
            };
            if spec_starts_with_server(line) {
                Some(line)
            } else {
                spec_server_line(s.subrange(i + 1, s.len() as int))
            }
        } else {
            if spec_starts_with_server(s) {
                Some(s)
            } else {
                None
            }
        }
    }
}

#[via_fn]
proof fn spec_server_line_dec(s: Seq<char>) {
    lemma_nl_index(s);
}

/// `s` without leading whitespace.
pub open spec fn spec_trim_start(s: Seq<char>) -> Seq<char>
    decreases s.len(),
{
    if s.len() > 0 && spec_is_ws(s[0]) {
        spec_trim_start(s.drop_first())
    } else {
        s
    }
}

/// `s` without trailing whitespace.
pub open spec fn spec_trim_end(s: Seq<char>) -> Seq<char>
    decreases s.len(),
{
    if s.len() > 0 && spec_is_ws(s[s.len() - 1]) {
        spec_trim_end(s.drop_last())
    } else {
        s
    }
}

/// `s` without leading and trailing whitespace.
pub open spec fn spec_trim(s: Seq<char>) -> Seq<char> {
    spec_trim_end(spec_trim_start(s))
}

/// `nl_index` of a suffix, computed from a first-newline position.
pub proof fn lemma_nl_index_of(s: Seq<char>, r: int)
    requires
        0 <= r <= s.len(),
        r < s.len() ==> s[r] == '\n',
        forall|j: int| 0 <= j < r ==> s[j] != '\n',
    ensures
        nl_index(s) == r,
    decreases s.len(),
{
    if s.len() > 0 && s[0] != '\n' {
        assert forall|j: int| 0 <= j < r - 1 implies s.drop_first()[j] != '\n' by {
            assert(s[j + 1] != '\n');
        }
        lemma_nl_index_of(s.drop_first(), r - 1);
    }
}

/// End of the first line of `hay`: the returned `e` satisfies
/// `hay@.subrange(0, e) == spec_first_line(hay@)`.
pub fn first_line_end(hay: &Vec<char>) -> (e: usize)
    ensures
        e <= hay@.len(),
        spec_first_line(hay@) == hay@.subrange(0, e as int),
{
    let n = hay.len();
    let r = find_nl_from(hay, 0);
    proof {
        lemma_nl_index_of(hay@, r as int);
    }
    if r < n {
        if r > 0 && hay[r - 1] == '\r' {
            r - 1
        } else {
            r
        }
    } else {
        proof {
            assert(hay@.subrange(0, n as int) =~= hay@);
        }
        n
    }
}

/// The stretch `[a, b)` of `hay` begins with `server:` up to ASCII case.
fn is_server_line(hay: &Vec<char>, a: usize, b: usize) -> (r: bool)
    requires
        a <= b <= hay@.len(),
    ensures
        r == spec_starts_with_server(hay@.subrange(a as int, b as int)),
{
    let ghost line = hay@.subrange(a as int, b as int);
    let pat = "server:";
    proof {
        reveal_strlit("server:");
    }
    if b - a < 7 {
        return false;
    }
    proof {
        assert(line.subrange(0, 7) =~= hay@.subrange(a as int, a + 7));
    }
    let mut j: usize = 0;
    while j < 7
        invariant
            a + 7 <= b <= hay@.len(),
            j <= 7,
            pat@ == "server:"@,
            pat@.len() == 7,
            line == hay@.subrange(a as int, b as int),
            forall|t: int| 0 <= t < j ==> lower_u(hay@[a + t]) == lower_u(pat@[t]),
        decreases 7 - j,
    {
        if lower_of(hay[a + j]) != lower_of(pat.get_char(j)) {
            proof {
                assert(lower_seq(line.subrange(0, 7))[j as int] != lower_seq("server:"@)[j as int]);
            }
            return false;
        }
        j += 1;
    }
    proof {
        assert(lower_seq(line.subrange(0, 7)) =~= lower_seq("server:"@));
    }
    true
}

/// The first `server:` header line of `hay`, as a range `[r.0, r.1)`, or
/// `None` when `spec_server_line` finds none.  A found line is at least
/// seven characters long: it begins with the `server:` prefix.
pub fn find_server_line(hay: &Vec<char>) -> (r: Option<(usize, usize)>)
    ensures
        match r {
            Some(ab) => ab.0 + 7 <= ab.1 <= hay@.len() && spec_server_line(hay@) == Some(
                hay@.subrange(ab.0 as int, ab.1 as int),
            ) && spec_starts_with_server(hay@.subrange(ab.0 as int, ab.1 as int)),
            None => spec_server_line(hay@) is None,
        },
{
    let n = hay.len();
    let mut pos: usize = 0;
    proof {
        assert(hay@.subrange(0, n as int) =~= hay@);
    }
    loop
        invariant
            pos <= n,
            n == hay@.len(),
            spec_server_line(hay@) == spec_server_line(hay@.subrange(pos as int, n as int)),
        decreases n - pos,
    {
        let ghost suf = hay@.subrange(pos as int, n as int);
        if pos == n {
            proof {
                assert(suf.len() == 0);
            }
            return None;
        }
        let e = find_nl_from(hay, pos);
        proof {
            assert forall|j: int| 0 <= j < e - pos implies suf[j] != '\n' by {
                assert(hay@[pos + j] != '\n');
            }
            lemma_nl_index_of(suf, e - pos as int);
        }
        if e < n {
            let line_end = if e > pos && hay[e - 1] == '\r' {
                e - 1
            } else {
                e
            };
            proof {
                let i = e - pos as int;
                let line = if i > 0 && suf[i - 1] == '\r' {
                    suf.subrange(0, i - 1)
                } else {
                    suf.subrange(0, i)
                };
                assert(line =~= hay@.subrange(pos as int, line_end as int));
            }
            if is_server_line(hay, pos, line_end) {
                return Some((pos, line_end));
            }
            proof {
                assert(suf.subrange(e - pos as int + 1, suf.len() as int) =~= hay@.subrange(
                    e + 1,
                    n as int,
                ));
            }
            pos = e + 1;
        } else {
            if is_server_line(hay, pos, n) {
                return Some((pos, n));
            }
            return None;
        }
    }
}

/// The stretch `[a, b)` of `hay` with whitespace trimmed from both
/// ends, as a range `[r.0, r.1)`.
pub fn trim_range(hay: &Vec<char>, a: usize, b: usize) -> (r: (usize, usize))
    requires
        a <= b <= hay@.len(),
    ensures
        a <= r.0 <= r.1 <= b,
        spec_trim(hay@.subrange(a as int, b as int)) == hay@.subrange(r.0 as int, r.1 as int),
{
    let mut a2: usize = a;
    while a2 < b && is_ws(hay[a2])
        invariant
            a <= a2 <= b <= hay@.len(),
            spec_trim_start(hay@.subrange(a as int, b as int)) == spec_trim_start(
                hay@.subrange(a2 as int, b as int),
            ),
        decreases b - a2,
    {
        proof {
            let cur = hay@.subrange(a2 as int, b as int);
            assert(cur.drop_first() =~= hay@.subrange(a2 + 1, b as int));
        }
        a2 += 1;
    }
    proof {
        let cur = hay@.subrange(a2 as int, b as int);
        if a2 == b {
            assert(spec_trim_start(cur) == cur);
        } else {
            assert(!spec_is_ws(cur[0]));
            assert(spec_trim_start(cur) == cur);
        }
    }
    let mut b2: usize = b;
    while b2 > a2 && is_ws(hay[b2 - 1])
        invariant
            a2 <= b2 <= b <= hay@.len(),
            spec_trim_end(hay@.subrange(a2 as int, b as int)) == spec_trim_end(
                hay@.subrange(a2 as int, b2 as int),
            ),
        decreases b2,
    {
        proof {
            let cur = hay@.subrange(a2 as int, b2 as int);
            assert(cur.drop_last() =~= hay@.subrange(a2 as int, b2 - 1));
        }
        b2 -= 1;
    }
    proof {
        let cur = hay@.subrange(a2 as int, b2 as int);
        if b2 == a2 {
            assert(spec_trim_end(cur) == cur);
        } else {
            assert(!spec_is_ws(cur[cur.len() - 1]));
            assert(spec_trim_end(cur) == cur);
        }
    }
    (a2, b2)
}

} // verus!
