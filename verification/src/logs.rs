//! Cleaning of log lines: the colour codes that a worker writes for a
//! terminal are taken out before a line is published.

use crate::text::chars_of;
use vstd::prelude::*;

verus! {

/// How many lines the log channel keeps for late subscribers.
pub const LOG_HISTORY: usize = 5000;

/// The escape character that opens a control sequence.
pub open spec fn is_escape(c: char) -> bool {
    c == '\u{1b}'
}

/// A parameter character of a control sequence: a digit or a semicolon.
pub open spec fn is_param(c: char) -> bool {
    ('0' <= c && c <= '9') || c == ';'
}

/// A character that ends a colour sequence: `m` or `K`.
pub open spec fn is_final(c: char) -> bool {
    c == 'm' || c == 'K'
}

/// A colour sequence: the escape character, `[`, any number of parameter
/// characters and one final character.
pub open spec fn is_sequence(t: Seq<char>) -> bool {
    &&& t.len() >= 3
    &&& is_escape(t[0])
    &&& t[1] == '['
    &&& forall|k: int| 2 <= k < t.len() - 1 ==> is_param(#[trigger] t[k])
    &&& is_final(t[t.len() - 1])
}

/// The number of parameter characters in a row from `from` on.
pub open spec fn params_len(s: Seq<char>, from: int) -> nat
    decreases s.len() - from,
{
    if 0 <= from < s.len() && is_param(s[from]) {
        1 + params_len(s, from + 1)
    } else {
        0
    }
}

/// The length of the colour sequence that starts at `at`, 0 where none does.
pub open spec fn sequence_len(s: Seq<char>, at: int) -> nat {
    if 0 <= at && at + 2 < s.len() && is_escape(s[at]) && s[at + 1] == '[' {
        let n = params_len(s, at + 2);
        if at + 2 + n < s.len() && is_final(s[at + 2 + n]) {
            n + 3
        } else {
            0
        }
    } else {
        0
    }
}

/// Whether the character at `i` belongs to a colour sequence of `s`.
pub open spec fn in_sequence(s: Seq<char>, i: int) -> bool {
    exists|p: int| 0 <= p <= i && i < p + #[trigger] sequence_len(s, p)
}

/// The characters among the first `n` of `s` that belong to no colour
/// sequence, in their order.
pub open spec fn kept(s: Seq<char>, n: int) -> Seq<char>
    decreases n,
{
    if n <= 0 {
        Seq::empty()
    } else if in_sequence(s, n - 1) {
        kept(s, n - 1)
    } else {
        kept(s, n - 1).push(s[n - 1])
    }
}

/// A line without its colour sequences: every character that belongs to one
/// is left out, every other character stays, in its place among the others.
pub open spec fn stripped(s: Seq<char>) -> Seq<char> {
    kept(s, s.len() as int)
}

/// `params_len` counts a run of parameter characters that ends before the
/// first other character.
pub proof fn lemma_params_len(s: Seq<char>, from: int)
    requires
        0 <= from <= s.len(),
    ensures
        from + params_len(s, from) <= s.len(),
        forall|k: int| from <= k < from + params_len(s, from) ==> is_param(#[trigger] s[k]),
        from + params_len(s, from) < s.len() ==> !is_param(s[from + params_len(s, from)]),
    decreases s.len() - from,
{
    if from < s.len() && is_param(s[from]) {
        lemma_params_len(s, from + 1);
    }
}

/// A colour sequence starts at `at` and is `n` characters long exactly when
/// `sequence_len` says so: at one position at most one sequence starts.
pub proof fn lemma_sequence_len(s: Seq<char>, at: int, n: int)
    requires
        0 <= at,
        0 < n,
        at + n <= s.len(),
    ensures
        is_sequence(s.subrange(at, at + n)) <==> sequence_len(s, at) == n,
{
    let t = s.subrange(at, at + n);
    lemma_params_len(s, if at + 2 <= s.len() {
        at + 2
    } else {
        0
    });
    let run = params_len(s, at + 2);
    if is_sequence(t) {
        assert(t[0] == s[at] && t[1] == s[at + 1]);
        assert(t[n - 1] == s[at + n - 1]);
        assert forall|k: int| at + 2 <= k < at + n - 1 implies is_param(s[k]) by {
            assert(t[k - at] == s[k]);
        }
        if at + 2 + run < at + n - 1 {
            assert(is_param(s[at + 2 + run]));
        }
        if at + 2 + run > at + n - 1 {
            assert(is_param(s[at + n - 1]));
        }
    }
    if sequence_len(s, at) == n {
        assert forall|k: int| 2 <= k < t.len() - 1 implies is_param(#[trigger] t[k]) by {
            assert(t[k] == s[at + k]);
        }
    }
}

/// No colour sequence starts inside another.
pub proof fn lemma_sequences_apart(s: Seq<char>, at: int, p: int)
    requires
        at < p < at + sequence_len(s, at),
    ensures
        sequence_len(s, p) == 0,
{
    lemma_params_len(s, at + 2);
}

/// The length of the colour sequence that starts at `at`, 0 where none does.
fn sequence_at(chars: &Vec<char>, at: usize) -> (n: usize)
    requires
        at < chars@.len(),
    ensures
        n == sequence_len(chars@, at as int),
        at + n <= chars@.len(),
{
    let len = chars.len();
    if len - at < 3 {
        return 0;
    }
    if chars[at] != '\u{1b}' || chars[at + 1] != '[' {
        return 0;
    }
    let mut end: usize = at + 2;
    while end < len && (('0' <= chars[end] && chars[end] <= '9') || chars[end] == ';')
        invariant
            at + 2 <= end <= len,
            len == chars@.len(),
            params_len(chars@, at + 2) == (end - (at + 2)) + params_len(chars@, end as int),
        decreases len - end,
    {
        end = end + 1;
    }
    if end < len && (chars[end] == 'm' || chars[end] == 'K') {
        end + 1 - at
    } else {
        0
    }
}

/// Takes the colour sequences out of a line.
pub fn strip_ansi(line: &str) -> (clean: String)
    ensures
        clean@ == stripped(line@),
{
    let chars = chars_of(line);
    let mut clean = String::new();
    let mut i: usize = 0;
    while i < chars.len()
        invariant
            i <= chars@.len(),
            chars@ == line@,
            clean@ == kept(chars@, i as int),
            forall|p: int| 0 <= p < i ==> p + sequence_len(chars@, p) <= i,
        decreases chars@.len() - i,
    {
        let n = sequence_at(&chars, i);
        if n > 0 {
            proof {
                lemma_skip_sequence(chars@, i as int, (i + n) as int);
                assert forall|p: int| 0 <= p < i + n implies p + sequence_len(chars@, p) <= i
                    + n by {
                    if i < p {
                        lemma_sequences_apart(chars@, i as int, p);
                    }
                }
            }
            i = i + n;
        } else {
            proof {
                assert(!in_sequence(chars@, i as int)) by {
                    if in_sequence(chars@, i as int) {
                        let p = choose|p: int|
                            0 <= p <= i && i < p + #[trigger] sequence_len(chars@, p);
                        assert(p + sequence_len(chars@, p) <= i || p == i);
                    }
                }
            }
            clean.push(chars[i]);
            i = i + 1;
        }
    }
    clean
}

/// Where a colour sequence starts at `at`, none of its characters is kept.
proof fn lemma_skip_sequence(s: Seq<char>, at: int, upto: int)
    requires
        0 <= at <= upto <= at + sequence_len(s, at),
    ensures
        kept(s, upto) == kept(s, at),
    decreases upto - at,
{
    if at < upto {
        lemma_skip_sequence(s, at, upto - 1);
        assert(in_sequence(s, upto - 1)) by {
            assert(0 <= at <= upto - 1 && upto - 1 < at + sequence_len(s, at));
        }
    }
}

/// The run of parameter characters at a position depends only on what
/// follows the position.
proof fn lemma_params_len_skip(s: Seq<char>, k: int, from: int)
    requires
        0 <= k <= s.len(),
        0 <= from,
    ensures
        params_len(s.skip(k), from) == params_len(s, from + k),
    decreases s.len() - k - from,
{
    if from < s.len() - k && is_param(s[from + k]) {
        lemma_params_len_skip(s, k, from + 1);
    }
}

/// Whether a colour sequence starts at a position, and how long it is,
/// depends only on what follows the position.
proof fn lemma_sequence_len_skip(s: Seq<char>, k: int, p: int)
    requires
        0 <= k <= s.len(),
        0 <= p,
    ensures
        sequence_len(s.skip(k), p) == sequence_len(s, p + k),
{
    lemma_params_len_skip(s, k, p + 2);
}

/// A line can be cleaned in two parts wherever no colour sequence reaches
/// across the cut.
proof fn lemma_kept_split(s: Seq<char>, k: int, n: int)
    requires
        0 <= k <= n <= s.len(),
        forall|p: int| 0 <= p < k ==> p + sequence_len(s, p) <= k,
    ensures
        kept(s, n) == kept(s, k) + kept(s.skip(k), n - k),
    decreases n - k,
{
    let rest = s.skip(k);
    if k < n {
        lemma_kept_split(s, k, n - 1);
        let i = n - 1;
        if in_sequence(s, i) {
            let p = choose|p: int| 0 <= p <= i && i < p + #[trigger] sequence_len(s, p);
            assert(p >= k);
            lemma_sequence_len_skip(s, k, p - k);
            assert(0 <= p - k <= i - k && i - k < (p - k) + sequence_len(rest, p - k));
        }
        if in_sequence(rest, i - k) {
            let p = choose|p: int| 0 <= p <= i - k && i - k < p + #[trigger] sequence_len(rest, p);
            lemma_sequence_len_skip(s, k, p);
            assert(0 <= p + k <= i && i < (p + k) + sequence_len(s, p + k));
        }
        assert(kept(s, n) =~= kept(s, k) + kept(rest, n - k));
    } else {
        assert(kept(s, n) =~= kept(s, k) + kept(rest, 0));
    }
}

/// Before an escape character, or before the end, a line has the colour
/// sequences that it has on its own.
proof fn lemma_sequence_len_prefix(a: Seq<char>, rest: Seq<char>, p: int)
    requires
        0 <= p < a.len(),
        rest.len() > 0 ==> is_escape(rest[0]),
    ensures
        sequence_len(a + rest, p) == sequence_len(a, p),
        p + sequence_len(a, p) <= a.len(),
{
    let s = a + rest;
    if p + 2 <= a.len() {
        lemma_params_run_prefix(a, rest, p + 2);
        lemma_params_len(a, p + 2);
    }
    if p + 1 < a.len() {
        assert(s[p + 1] == a[p + 1]);
    }
    assert(s[p] == a[p]);
    if rest.len() > 0 {
        assert(s[a.len() as int] == rest[0]);
    }
    let n = params_len(a, p + 2);
    if p + 2 + n < a.len() {
        assert(s[p + 2 + n] == a[p + 2 + n]);
    }
}

proof fn lemma_params_run_prefix(a: Seq<char>, rest: Seq<char>, from: int)
    requires
        0 <= from <= a.len(),
        rest.len() > 0 ==> is_escape(rest[0]),
    ensures
        params_len(a + rest, from) == params_len(a, from),
    decreases a.len() - from,
{
    let s = a + rest;
    if from < a.len() {
        assert(s[from] == a[from]);
        if is_param(a[from]) {
            lemma_params_run_prefix(a, rest, from + 1);
        }
    } else if rest.len() > 0 {
        assert(s[from] == rest[0]);
    }
}

proof fn lemma_kept_prefix(a: Seq<char>, rest: Seq<char>, n: int)
    requires
        0 <= n <= a.len(),
        rest.len() > 0 ==> is_escape(rest[0]),
    ensures
        kept(a + rest, n) == kept(a, n),
    decreases n,
{
    let s = a + rest;
    if n > 0 {
        lemma_kept_prefix(a, rest, n - 1);
        let i = n - 1;
        assert(s[i] == a[i]);
        if in_sequence(s, i) {
            let p = choose|p: int| 0 <= p <= i && i < p + #[trigger] sequence_len(s, p);
            lemma_sequence_len_prefix(a, rest, p);
            assert(0 <= p <= i && i < p + sequence_len(a, p));
        }
        if in_sequence(a, i) {
            let p = choose|p: int| 0 <= p <= i && i < p + #[trigger] sequence_len(a, p);
            lemma_sequence_len_prefix(a, rest, p);
            assert(0 <= p <= i && i < p + sequence_len(s, p));
        }
    }
}

/// Taking out: a colour sequence between two texts vanishes, and what stands
/// before and after it is cleaned as it would be on its own.
pub proof fn lemma_stripped_around_sequence(a: Seq<char>, q: Seq<char>, b: Seq<char>)
    requires
        is_sequence(q),
    ensures
        stripped(a + q + b) == stripped(a) + stripped(b),
{
    let tail = q + b;
    let s = a + tail;
    assert(a + q + b =~= s);
    assert(tail[0] == q[0]);
    // no sequence of `s` reaches from `a` into `tail`
    assert forall|p: int| 0 <= p < a.len() implies p + sequence_len(s, p) <= a.len() by {
        lemma_sequence_len_prefix(a, tail, p);
    }
    lemma_kept_split(s, a.len() as int, s.len() as int);
    lemma_kept_prefix(a, tail, a.len() as int);
    assert(s.skip(a.len() as int) =~= tail);
    // `tail` begins with the sequence `q`
    assert(tail.subrange(0, q.len() as int) =~= q);
    lemma_sequence_len(tail, 0, q.len() as int);
    assert forall|p: int| 0 <= p < q.len() implies p + sequence_len(tail, p) <= q.len() by {
        if p > 0 {
            lemma_sequences_apart(tail, 0, p);
        }
    }
    lemma_kept_split(tail, q.len() as int, tail.len() as int);
    lemma_skip_sequence(tail, 0, q.len() as int);
    assert(tail.skip(q.len() as int) =~= b);
    assert(kept(tail, 0) =~= Seq::<char>::empty());
    assert(stripped(tail) =~= stripped(b));
}

/// A line in which no colour sequence starts is published as it is.
pub proof fn lemma_plain_line_unchanged(s: Seq<char>)
    requires
        forall|p: int| 0 <= p < s.len() ==> sequence_len(s, p) == 0,
    ensures
        stripped(s) == s,
{
    lemma_kept_plain(s, s.len() as int);
    assert(s.take(s.len() as int) =~= s);
}

proof fn lemma_kept_plain(s: Seq<char>, n: int)
    requires
        0 <= n <= s.len(),
        forall|p: int| 0 <= p < s.len() ==> sequence_len(s, p) == 0,
    ensures
        kept(s, n) == s.take(n),
    decreases n,
{
    if n > 0 {
        lemma_kept_plain(s, n - 1);
        assert(s.take(n) =~= s.take(n - 1).push(s[n - 1]));
    } else {
        assert(s.take(n) =~= Seq::<char>::empty());
    }
}

/// Where every escape character of a line opens a colour sequence, the
/// published line holds no escape character and so no colour sequence.
pub proof fn lemma_clean_line(s: Seq<char>)
    requires
        forall|p: int| 0 <= p < s.len() && is_escape(s[p]) ==> sequence_len(s, p) > 0,
    ensures
        forall|q: int| 0 <= q < stripped(s).len() ==> !is_escape(#[trigger] stripped(s)[q]),
        forall|q: int| #[trigger] sequence_len(stripped(s), q) == 0,
{
    lemma_kept_without_escape(s, s.len() as int);
}

proof fn lemma_kept_without_escape(s: Seq<char>, n: int)
    requires
        0 <= n <= s.len(),
        forall|p: int| 0 <= p < s.len() && is_escape(s[p]) ==> sequence_len(s, p) > 0,
    ensures
        forall|q: int| 0 <= q < kept(s, n).len() ==> !is_escape(#[trigger] kept(s, n)[q]),
    decreases n,
{
    if n > 0 {
        lemma_kept_without_escape(s, n - 1);
        if is_escape(s[n - 1]) {
            assert(0 <= n - 1 <= n - 1 && n - 1 < (n - 1) + sequence_len(s, n - 1));
            assert(in_sequence(s, n - 1));
        }
        let before = kept(s, n - 1);
        assert forall|q: int| 0 <= q < kept(s, n).len() implies !is_escape(
            #[trigger] kept(s, n)[q],
        ) by {
            if q < before.len() {
                assert(kept(s, n)[q] == before[q]);
            }
        }
    }
}

} // verus!
