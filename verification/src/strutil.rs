//! String utilities shared by the parsers and the state machine: substring
//! search, line splitting, trimming, lexicographic ordering, and decimal
//! rendering of counters, each verified against a sequence-level
//! specification.

use vstd::prelude::*;

verus! {

/// The needle occurs in the haystack starting at position `i`.
pub open spec fn match_at(hay: Seq<char>, needle: Seq<char>, i: int) -> bool {
    0 <= i && i + needle.len() <= hay.len() && hay.subrange(i, i + needle.len()) == needle
}

/// The needle occurs somewhere in the haystack.
pub open spec fn contains_seq(hay: Seq<char>, needle: Seq<char>) -> bool {
    exists|i: int| match_at(hay, needle, i)
}

fn match_at_exec(hay: &str, needle: &str, i: usize) -> (r: bool)
    requires
        i + needle@.len() <= hay@.len(),
        i + needle@.len() <= usize::MAX,
    ensures
        r == match_at(hay@, needle@, i as int),
{
    let m = needle.unicode_len();
    let mut j: usize = 0;
    while j < m
        invariant
            0 <= j <= m,
            m == needle@.len(),
            i + m <= hay@.len(),
            i + m <= usize::MAX,
            forall|k: int| 0 <= k < j ==> hay@[i + k] == needle@[k],
        decreases m - j,
    {
        if hay.get_char(i + j) != needle.get_char(j) {
            assert(hay@.subrange(i as int, i + m) != needle@) by {
                assert(hay@.subrange(i as int, i + m)[j as int] == hay@[i + j]);
            }
            return false;
        }
        j += 1;
    }
    assert(hay@.subrange(i as int, i + m) =~= needle@);
    true
}

/// Substring test: whether `needle` occurs contiguously in `hay`.
pub fn contains_str(hay: &str, needle: &str) -> (r: bool)
    ensures
        r == contains_seq(hay@, needle@),
{
    let n = hay.unicode_len();
    let m = needle.unicode_len();
    if m > n {
        assert(forall|i: int| !match_at(hay@, needle@, i));
        return false;
    }
    if m == 0 {
        assert(match_at(hay@, needle@, 0)) by {
            assert(hay@.subrange(0, 0) =~= needle@);
        }
        return true;
    }
    let mut i: usize = 0;
    while i <= n - m
        invariant
            n == hay@.len(),
            m == needle@.len(),
            0 < m <= n,
            i <= n - m + 1,
            forall|j: int| 0 <= j < i ==> !match_at(hay@, needle@, j),
        decreases n - i,
    {
        if match_at_exec(hay, needle, i) {
            return true;
        }
        i += 1;
    }
    assert(forall|j: int| !match_at(hay@, needle@, j));
    false
}

/// Index of the first character of `s` satisfying `pred`, or `s.len()` if
/// there is none.
pub open spec fn seq_find(s: Seq<char>, pred: spec_fn(char) -> bool) -> int
    decreases s.len(),
{
    if s.len() == 0 {
        0
    } else if pred(s[0]) {
        0
    } else {
        1 + seq_find(s.drop_first(), pred)
    }
}

/// `seq_find` returns exactly the position of the first satisfying character.
pub proof fn lemma_seq_find_at(s: Seq<char>, pred: spec_fn(char) -> bool, i: int)
    requires
        0 <= i <= s.len(),
        forall|j: int| 0 <= j < i ==> !pred(s[j]),
        i == s.len() || pred(s[i]),
    ensures
        seq_find(s, pred) == i,
    decreases i,
{
    if s.len() != 0 && i != 0 {
        lemma_seq_find_at(s.drop_first(), pred, i - 1);
    }
}

/// Whitespace as the parsers separate by it: the characters bearing the
/// Unicode white-space property.
pub open spec fn is_wsp(c: char) -> bool {
    c == ' ' || c == '\t' || c == '\n' || c == '\u{b}' || c == '\u{c}' || c == '\r' || c
        == '\u{85}' || c == '\u{a0}' || c == '\u{1680}' || (('\u{2000}' as int) <= (c as int) <= (
    '\u{200a}' as int)) || c == '\u{2028}' || c == '\u{2029}' || c == '\u{202f}' || c
        == '\u{205f}' || c == '\u{3000}'
}

fn is_wsp_char(c: char) -> (r: bool)
    ensures
        r == is_wsp(c),
{
    c == ' ' || c == '\t' || c == '\n' || c == '\u{b}' || c == '\u{c}' || c == '\r' || c
        == '\u{85}' || c == '\u{a0}' || c == '\u{1680}' || ('\u{2000}' <= c && c <= '\u{200a}')
        || c == '\u{2028}' || c == '\u{2029}' || c == '\u{202f}' || c == '\u{205f}' || c
        == '\u{3000}'
}

pub open spec fn newline_pred() -> spec_fn(char) -> bool {
    |c: char| c == '\n'
}

/// A line's text with one carriage return stripped from its end, as a
/// newline-terminated line loses its `\r\n` ending.
pub open spec fn strip_cr(l: Seq<char>) -> Seq<char> {
    if l.len() > 0 && l[l.len() - 1] == '\r' {
        l.subrange(0, l.len() - 1)
    } else {
        l
    }
}

/// The lines of `s`: pieces separated by `'\n'`, each newline-terminated
/// piece losing a final `'\r'`, with no empty piece after a final newline.
pub open spec fn spec_lines(s: Seq<char>) -> Seq<Seq<char>>
    decreases s.len(),
{
    if s.len() == 0 {
        Seq::empty()
    } else {
        let i = seq_find(s, newline_pred());
        if 0 <= i < s.len() {
            seq![strip_cr(s.subrange(0, i))] + spec_lines(s.subrange(i + 1, s.len() as int))
        } else {
            seq![s]
        }
    }
}

/// Split `s` into its lines, as `spec_lines` describes.
pub fn split_lines(s: &str) -> (r: Vec<String>)
    ensures
        r.deep_view() == spec_lines(s@),
{
    let n = s.unicode_len();
    let mut r: Vec<String> = Vec::new();
    let mut start: usize = 0;
    let mut i: usize = 0;
    proof {
        assert(s@.subrange(0, n as int) =~= s@);
        assert(r.deep_view() + spec_lines(s@) =~~= spec_lines(s@));
    }
    while i < n
        invariant
            start <= i <= n,
            n == s@.len(),
            forall|j: int| start <= j < i ==> s@[j] != '\n',
            spec_lines(s@) == r.deep_view() + spec_lines(s@.subrange(start as int, n as int)),
        decreases n - i,
    {
        if s.get_char(i) == '\n' {
            let ghost rest = s@.subrange(start as int, n as int);
            let ghost r0 = r.deep_view();
            proof {
                assert(forall|j: int| 0 <= j < i - start ==> rest[j] != '\n');
                assert(rest[i - start] == '\n');
                lemma_seq_find_at(rest, newline_pred(), i - start);
            }
            let line_end: usize = if i > start && s.get_char(i - 1) == '\r' {
                i - 1
            } else {
                i
            };
            let line = s.substring_char(start, line_end).to_owned();
            r.push(line);
            proof {
                assert(line@ =~= strip_cr(rest.subrange(0, i - start)));
                assert(rest.subrange(i - start + 1, rest.len() as int) =~= s@.subrange(
                    i + 1,
                    n as int,
                ));
                assert(r.deep_view() =~= r0 + seq![line@]);
                assert(spec_lines(s@) =~~= r.deep_view() + spec_lines(
                    s@.subrange(i + 1, n as int),
                ));
            }
            start = i + 1;
        }
        i += 1;
    }
    let ghost rest = s@.subrange(start as int, n as int);
    if start < n {
        let ghost r0 = r.deep_view();
        proof {
            lemma_seq_find_at(rest, newline_pred(), rest.len() as int);
        }
        let line = s.substring_char(start, n).to_owned();
        r.push(line);
        proof {
            assert(line@ =~= rest);
            assert(spec_lines(rest) == seq![rest]);
            assert(r.deep_view() =~= r0 + seq![line@]);
            assert(spec_lines(s@) =~~= r.deep_view());
        }
    } else {
        proof {
            assert(rest =~= Seq::<char>::empty());
            assert(spec_lines(rest) == Seq::<Seq<char>>::empty());
            assert(spec_lines(s@) =~~= r.deep_view());
        }
    }
    r
}

/// Index just after the last character of `s` satisfying `pred`, or 0 if
/// there is none.
pub open spec fn seq_find_last_end(s: Seq<char>, pred: spec_fn(char) -> bool) -> int
    decreases s.len(),
{
    if s.len() == 0 {
        0
    } else if pred(s.last()) {
        s.len() as int
    } else {
        seq_find_last_end(s.drop_last(), pred)
    }
}

proof fn lemma_seq_find_last_end_at(s: Seq<char>, pred: spec_fn(char) -> bool, b: int)
    requires
        0 <= b <= s.len(),
        forall|j: int| b <= j < s.len() ==> !pred(s[j]),
        b == 0 || pred(s[b - 1]),
    ensures
        seq_find_last_end(s, pred) == b,
    decreases s.len(),
{
    if s.len() != 0 && b != s.len() {
        lemma_seq_find_last_end_at(s.drop_last(), pred, b);
    }
}

pub open spec fn not_wsp_pred() -> spec_fn(char) -> bool {
    |c: char| !is_wsp(c)
}

pub open spec fn wsp_pred() -> spec_fn(char) -> bool {
    |c: char| is_wsp(c)
}

/// `s` without its leading and trailing whitespace.
pub open spec fn spec_trim(s: Seq<char>) -> Seq<char> {
    let a = seq_find(s, not_wsp_pred());
    let b = seq_find_last_end(s, not_wsp_pred());
    if 0 <= a < b <= s.len() {
        s.subrange(a, b)
    } else {
        Seq::empty()
    }
}

/// Remove leading and trailing whitespace.
pub fn trim_str(s: &str) -> (r: String)
    ensures
        r@ == spec_trim(s@),
{
    let n = s.unicode_len();
    let mut a: usize = 0;
    while a < n && is_wsp_char(s.get_char(a))
        invariant
            a <= n,
            n == s@.len(),
            forall|j: int| 0 <= j < a ==> is_wsp(s@[j]),
        decreases n - a,
    {
        a += 1;
    }
    proof {
        lemma_seq_find_at(s@, not_wsp_pred(), a as int);
    }
    if a == n {
        proof {
            lemma_seq_find_last_end_at(s@, not_wsp_pred(), 0);
        }
        return String::new();
    }
    let mut b: usize = n;
    while b > a && is_wsp_char(s.get_char(b - 1))
        invariant
            a <= b <= n,
            a < n,
            n == s@.len(),
            !is_wsp(s@[a as int]),
            forall|j: int| b <= j < n ==> is_wsp(s@[j]),
        decreases b,
    {
        b -= 1;
    }
    proof {
        assert(b > a);
        lemma_seq_find_last_end_at(s@, not_wsp_pred(), b as int);
    }
    let t = s.substring_char(a, b);
    t.to_owned()
}

/// The longest prefix of `s` free of whitespace.
pub open spec fn spec_first_token(s: Seq<char>) -> Seq<char> {
    s.subrange(0, seq_find(s, wsp_pred()))
}

/// The first whitespace-delimited token of `s` (all of `s` if it holds no
/// whitespace).
pub fn first_token(s: &str) -> (r: String)
    ensures
        r@ == spec_first_token(s@),
{
    let n = s.unicode_len();
    let mut i: usize = 0;
    while i < n && !is_wsp_char(s.get_char(i))
        invariant
            i <= n,
            n == s@.len(),
            forall|j: int| 0 <= j < i ==> !is_wsp(s@[j]),
        decreases n - i,
    {
        i += 1;
    }
    proof {
        lemma_seq_find_at(s@, wsp_pred(), i as int);
    }
    s.substring_char(0, i).to_owned()
}

/// Strict lexicographic order on character sequences by code point, the
/// order in which the available-package list is kept.
pub open spec fn lex_lt(a: Seq<char>, b: Seq<char>) -> bool
    decreases a.len(),
{
    if b.len() == 0 {
        false
    } else if a.len() == 0 {
        true
    } else if a[0] != b[0] {
        (a[0] as int) < (b[0] as int)
    } else {
        lex_lt(a.drop_first(), b.drop_first())
    }
}

pub proof fn lemma_lex_total(a: Seq<char>, b: Seq<char>)
    ensures
        a == b || lex_lt(a, b) || lex_lt(b, a),
    decreases a.len(),
{
    if a.len() > 0 && b.len() > 0 && a[0] == b[0] {
        lemma_lex_total(a.drop_first(), b.drop_first());
        if a.drop_first() == b.drop_first() {
            assert forall|i: int| 0 <= i < a.len() implies a[i] == b[i] by {
                if i > 0 {
                    assert(a[i] == a.drop_first()[i - 1]);
                    assert(b[i] == b.drop_first()[i - 1]);
                }
            }
            assert(a =~= b);
        }
    }
}

pub proof fn lemma_lex_trans(a: Seq<char>, b: Seq<char>, c: Seq<char>)
    requires
        lex_lt(a, b),
        lex_lt(b, c),
    ensures
        lex_lt(a, c),
    decreases a.len(),
{
    if a.len() > 0 && b.len() > 0 && c.len() > 0 && a[0] == b[0] && b[0] == c[0] {
        lemma_lex_trans(a.drop_first(), b.drop_first(), c.drop_first());
    }
}

/// Equal prefixes decide `lex_lt` at the first difference.
proof fn lemma_lex_from_prefix(a: Seq<char>, b: Seq<char>, i: int)
    requires
        0 <= i <= a.len(),
        i <= b.len(),
        forall|j: int| 0 <= j < i ==> a[j] == b[j],
    ensures
        i == a.len() && i == b.len() ==> !lex_lt(a, b),
        i == a.len() && i < b.len() ==> lex_lt(a, b),
        i < a.len() && i == b.len() ==> !lex_lt(a, b),
        i < a.len() && i < b.len() && a[i] != b[i] ==> lex_lt(a, b) == ((a[i] as int) < (
        b[i] as int)),
    decreases i,
{
    if i > 0 {
        lemma_lex_from_prefix(a.drop_first(), b.drop_first(), i - 1);
    }
}

/// Lexicographic comparison of two strings by code point.
pub fn str_lt(a: &str, b: &str) -> (r: bool)
    ensures
        r == lex_lt(a@, b@),
{
    let n = a.unicode_len();
    let m = b.unicode_len();
    let mut i: usize = 0;
    loop
        invariant
            i <= n,
            i <= m,
            n == a@.len(),
            m == b@.len(),
            forall|j: int| 0 <= j < i ==> a@[j] == b@[j],
        decreases n - i,
    {
        if i == n || i == m {
            proof {
                lemma_lex_from_prefix(a@, b@, i as int);
            }
            return i == n && i < m;
        }
        let ca = a.get_char(i);
        let cb = b.get_char(i);
        if ca != cb {
            proof {
                lemma_lex_from_prefix(a@, b@, i as int);
            }
            return ca < cb;
        }
        i += 1;
    }
}

/// All elements strictly increasing, hence also free of duplicates.
pub open spec fn strictly_sorted(s: Seq<Seq<char>>) -> bool {
    forall|i: int, j: int| 0 <= i < j < s.len() ==> lex_lt(s[i], s[j])
}

/// Some element of `s` reads `x`.
pub open spec fn contains_string(s: Seq<Seq<char>>, x: Seq<char>) -> bool {
    exists|i: int| 0 <= i < s.len() && s[i] == x
}

/// Sort the strings by code point and drop duplicates: the result is strictly
/// increasing and holds exactly the strings of the input.
pub fn sort_dedup(v: &Vec<String>) -> (r: Vec<String>)
    ensures
        strictly_sorted(r.deep_view()),
        forall|x: Seq<char>|
            contains_string(r.deep_view(), x) == contains_string(v.deep_view(), x),
{
    let mut r: Vec<String> = Vec::new();
    let mut i: usize = 0;
    while i < v.len()
        invariant
            i <= v.len(),
            strictly_sorted(r.deep_view()),
            forall|x: Seq<char>|
                contains_string(r.deep_view(), x) == contains_string(
                    v.deep_view().take(i as int),
                    x,
                ),
        decreases v.len() - i,
    {
        let x = v[i].clone();
        let ghost prev = r.deep_view();
        let mut p: usize = 0;
        while p < r.len() && str_lt(r[p].as_str(), x.as_str())
            invariant
                p <= r.len(),
                x@ == v.deep_view()[i as int],
                r.deep_view() == prev,
                forall|k: int| 0 <= k < p ==> lex_lt(r.deep_view()[k], x@),
            decreases r.len() - p,
        {
            p += 1;
        }
        let is_dup = p < r.len() && r[p] == x;
        if !is_dup {
            proof {
                prev.insert_ensures(p as int, x@);
                if p < prev.len() {
                    lemma_lex_total(prev[p as int], x@);
                    assert(lex_lt(x@, prev[p as int]));
                }
                assert forall|k: int, l: int|
                    0 <= k < l < prev.insert(p as int, x@).len() implies lex_lt(
                    prev.insert(p as int, x@)[k],
                    prev.insert(p as int, x@)[l],
                ) by {
                    if l == p {
                        assert(lex_lt(prev[k], x@));
                    } else if k == p {
                        if l - 1 > p {
                            lemma_lex_trans(x@, prev[p as int], prev[l - 1]);
                        }
                        assert(lex_lt(x@, prev[l - 1]));
                    } else if k < p && l > p {
                        assert(lex_lt(prev[k], prev[l - 1]));
                    } else if l < p {
                        assert(lex_lt(prev[k], prev[l]));
                    } else {
                        assert(lex_lt(prev[k - 1], prev[l - 1]));
                    }
                }
            }
            r.insert(p, x);
            proof {
                assert(r.deep_view() =~~= prev.insert(p as int, x@));
            }
        }
        proof {
            let cur = r.deep_view();
            let ghost xv = v.deep_view()[i as int];
            if is_dup {
                assert(contains_string(cur, xv)) by {
                    assert(cur[p as int] == xv);
                }
            } else {
                assert(contains_string(cur, xv)) by {
                    assert(cur[p as int] == xv);
                }
            }
            assert forall|y: Seq<char>|
                contains_string(cur, y) == contains_string(
                    v.deep_view().take(i + 1),
                    y,
                ) by {
                let taken = v.deep_view().take(i + 1);
                if contains_string(cur, y) {
                    let w = choose|k: int| 0 <= k < cur.len() && cur[k] == y;
                    if y == xv {
                        assert(taken[i as int] == y);
                    } else {
                        assert(contains_string(prev, y)) by {
                            if !is_dup {
                                if w < p {
                                    assert(prev[w] == y);
                                } else {
                                    assert(prev[w - 1] == y);
                                }
                            }
                        }
                        let u = choose|k: int|
                            0 <= k < v.deep_view().take(i as int).len()
                                && v.deep_view().take(i as int)[k] == y;
                        assert(taken[u] == y);
                    }
                }
                if contains_string(taken, y) {
                    let u = choose|k: int| 0 <= k < taken.len() && taken[k] == y;
                    if u == i {
                        assert(y == xv);
                    } else {
                        assert(v.deep_view().take(i as int)[u] == y);
                        assert(contains_string(prev, y));
                        let w = choose|k: int| 0 <= k < prev.len() && prev[k] == y;
                        if !is_dup {
                            let ins = prev.insert(p as int, x@);
                            if w < p {
                                assert(ins[w] == y);
                            } else {
                                assert(ins[w + 1] == y);
                            }
                        }
                    }
                }
            }
        }
        i += 1;
    }
    proof {
        assert(v.deep_view().take(i as int) =~~= v.deep_view());
    }
    r
}

/// The digit character for `d` in 0..10.
pub open spec fn dec_digit(d: int) -> char {
    if d == 0 {
        '0'
    } else if d == 1 {
        '1'
    } else if d == 2 {
        '2'
    } else if d == 3 {
        '3'
    } else if d == 4 {
        '4'
    } else if d == 5 {
        '5'
    } else if d == 6 {
        '6'
    } else if d == 7 {
        '7'
    } else if d == 8 {
        '8'
    } else {
        '9'
    }
}

/// The decimal numeral of a non-negative `n`, most significant digit first.
pub open spec fn spec_dec(n: int) -> Seq<char>
    decreases n,
{
    if n < 10 {
        seq![dec_digit(n)]
    } else {
        spec_dec(n / 10) + seq![dec_digit(n % 10)]
    }
}

fn digit_str(d: usize) -> (r: &'static str)
    requires
        d < 10,
    ensures
        r@ == seq![dec_digit(d as int)],
{
    proof {
        reveal_strlit("0");
        reveal_strlit("1");
        reveal_strlit("2");
        reveal_strlit("3");
        reveal_strlit("4");
        reveal_strlit("5");
        reveal_strlit("6");
        reveal_strlit("7");
        reveal_strlit("8");
        reveal_strlit("9");
    }
    let r = if d == 0 {
        "0"
    } else if d == 1 {
        "1"
    } else if d == 2 {
        "2"
    } else if d == 3 {
        "3"
    } else if d == 4 {
        "4"
    } else if d == 5 {
        "5"
    } else if d == 6 {
        "6"
    } else if d == 7 {
        "7"
    } else if d == 8 {
        "8"
    } else {
        "9"
    };
    proof {
        assert(r@ =~= seq![dec_digit(d as int)]);
    }
    r
}

/// Render `n` in decimal.
pub fn usize_to_string(n: usize) -> (r: String)
    ensures
        r@ == spec_dec(n as int),
    decreases n,
{
    if n < 10 {
        digit_str(n).to_owned()
    } else {
        let mut s = usize_to_string(n / 10);
        s.append(digit_str(n % 10));
        proof {
            assert(s@ =~= spec_dec(n as int));
        }
        s
    }
}

/// The strings of `v` joined by single spaces.
pub open spec fn spec_join_space(v: Seq<Seq<char>>) -> Seq<char>
    decreases v.len(),
{
    if v.len() == 0 {
        Seq::empty()
    } else if v.len() == 1 {
        v[0]
    } else {
        spec_join_space(v.drop_last()) + seq![' '] + v.last()
    }
}

/// Join the strings of `v` with single spaces.
pub fn join_space(v: &Vec<String>) -> (r: String)
    ensures
        r@ == spec_join_space(v.deep_view()),
{
    let mut r = String::new();
    let mut i: usize = 0;
    proof {
        assert(v.deep_view().take(0) =~= Seq::<Seq<char>>::empty());
    }
    while i < v.len()
        invariant
            i <= v.len(),
            r@ == spec_join_space(v.deep_view().take(i as int)),
        decreases v.len() - i,
    {
        if i > 0 {
            r.append(" ");
            proof {
                reveal_strlit(" ");
            }
        }
        r.append(v[i].as_str());
        proof {
            let dv = v.deep_view();
            assert(dv.take(i + 1).drop_last() =~= dv.take(i as int));
            assert(dv.take(i + 1).last() == dv[i as int]);
            if i > 0 {
                assert(r@ =~= spec_join_space(dv.take(i + 1)));
            } else {
                assert(r@ =~= spec_join_space(dv.take(1)));
            }
        }
        i += 1;
    }
    proof {
        assert(v.deep_view().take(v.deep_view().len() as int) =~= v.deep_view());
    }
    r
}

} // verus!
