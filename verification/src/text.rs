//! Character-level text handling: whitespace, trimming, splitting into
//! fields and lines, and the number formats that the daemon reads.
use vstd::prelude::*;

verus! {

/// Copies the characters of `s` into a vector, in order.
pub fn chars_of(s: &str) -> (v: Vec<char>)
    ensures
        v@ == s@,
{
    let mut v: Vec<char> = Vec::new();
    for c in it: s.chars()
        invariant
            v@ == it.seq().take(it.index() as int),
            it.seq() == s@,
    {
        v.push(c);
    }
    v
}

// ── Whitespace and trimming ─────────────────────────────────────────────────

/// The Unicode `White_Space` characters, which `str::trim` removes.
pub open spec fn is_space(c: char) -> bool {
    let u = c as u32;
    ||| u == 0x09 || u == 0x0A || u == 0x0B || u == 0x0C || u == 0x0D || u == 0x20
    ||| u == 0x85 || u == 0xA0 || u == 0x1680
    ||| (0x2000 <= u && u <= 0x200A)
    ||| u == 0x2028 || u == 0x2029 || u == 0x202F || u == 0x205F || u == 0x3000
}

/// `s` without its leading whitespace.
pub open spec fn trim_start(s: Seq<char>) -> Seq<char>
    decreases s.len(),
{
    if s.len() > 0 && is_space(s[0]) {
        trim_start(s.drop_first())
    } else {
        s
    }
}

/// `s` without its trailing whitespace.
pub open spec fn trim_end(s: Seq<char>) -> Seq<char>
    decreases s.len(),
{
    if s.len() > 0 && is_space(s.last()) {
        trim_end(s.drop_last())
    } else {
        s
    }
}

/// `s` without leading and trailing whitespace, as `str::trim` gives it.
pub open spec fn trim(s: Seq<char>) -> Seq<char> {
    trim_end(trim_start(s))
}

/// Whether `c` is whitespace.
pub fn is_space_char(c: char) -> (b: bool)
    ensures
        b == is_space(c),
{
    let u = c as u32;
    u == 0x09 || u == 0x0A || u == 0x0B || u == 0x0C || u == 0x0D || u == 0x20 || u == 0x85
        || u == 0xA0 || u == 0x1680 || (0x2000 <= u && u <= 0x200A) || u == 0x2028 || u
        == 0x2029 || u == 0x202F || u == 0x205F || u == 0x3000
}

proof fn lemma_trim_start_skip(s: Seq<char>, k: int)
    requires
        0 <= k <= s.len(),
        forall|i: int| 0 <= i < k ==> is_space(#[trigger] s[i]),
        k == s.len() || !is_space(s[k]),
    ensures
        trim_start(s) == s.skip(k),
    decreases k,
{
    if k == 0 {
        assert(s.skip(0) =~= s);
    } else {
        let t = s.drop_first();
        assert forall|i: int| 0 <= i < k - 1 implies is_space(#[trigger] t[i]) by {
            assert(t[i] == s[i + 1]);
        }
        if k - 1 < t.len() {
            assert(t[k - 1] == s[k]);
        }
        lemma_trim_start_skip(t, k - 1);
        assert(t.skip(k - 1) =~= s.skip(k));
    }
}

proof fn lemma_trim_end_take(s: Seq<char>, m: int)
    requires
        0 <= m <= s.len(),
        forall|i: int| m <= i < s.len() ==> is_space(#[trigger] s[i]),
        m == 0 || !is_space(s[m - 1]),
    ensures
        trim_end(s) == s.take(m),
    decreases s.len() - m,
{
    if m == s.len() {
        assert(s.take(m) =~= s);
        if s.len() > 0 {
            assert(s.last() == s[m - 1]);
        }
    } else {
        let t = s.drop_last();
        assert(is_space(s[s.len() - 1]));
        assert forall|i: int| m <= i < t.len() implies is_space(#[trigger] t[i]) by {
            assert(t[i] == s[i]);
        }
        if m > 0 {
            assert(t[m - 1] == s[m - 1]);
        }
        lemma_trim_end_take(t, m);
        assert(t.take(m) =~= s.take(m));
    }
}

/// The bounds of `v[lo..hi]` with its leading and trailing whitespace removed.
pub fn trim_span(v: &Vec<char>, lo: usize, hi: usize) -> (r: (usize, usize))
    requires
        lo <= hi <= v.len(),
    ensures
        lo <= r.0 <= r.1 <= hi,
        v@.subrange(r.0 as int, r.1 as int) == trim(v@.subrange(lo as int, hi as int)),
{
    let mut a = lo;
    while a < hi && is_space_char(v[a])
        invariant
            lo <= a <= hi <= v.len(),
            forall|i: int| lo <= i < a ==> is_space(#[trigger] v@[i]),
        decreases hi - a,
    {
        a = a + 1;
    }
    let mut b = hi;
    while b > a && is_space_char(v[b - 1])
        invariant
            lo <= a <= b <= hi <= v.len(),
            forall|i: int| b <= i < hi ==> is_space(#[trigger] v@[i]),
        decreases b - a,
    {
        b = b - 1;
    }
    proof {
        let s = v@.subrange(lo as int, hi as int);
        let k = a - lo;
        assert forall|i: int| 0 <= i < k implies is_space(#[trigger] s[i]) by {
            assert(s[i] == v@[lo + i]);
        }
        if k < s.len() {
            assert(s[k] == v@[a as int]);
        }
        lemma_trim_start_skip(s, k);
        let t = v@.subrange(a as int, hi as int);
        assert(s.skip(k) =~= t);
        let m = b - a;
        assert forall|i: int| m <= i < t.len() implies is_space(#[trigger] t[i]) by {
            assert(t[i] == v@[a + i]);
        }
        if m > 0 {
            assert(t[m - 1] == v@[b - 1]);
        }
        lemma_trim_end_take(t, m);
        assert(t.take(m) =~= v@.subrange(a as int, b as int));
    }
    (a, b)
}

/// Whether every character of `s` is whitespace.
pub open spec fn all_space(s: Seq<char>) -> bool {
    forall|i: int| 0 <= i < s.len() ==> is_space(#[trigger] s[i])
}

proof fn lemma_trim_start_after_space(pre: Seq<char>, x: Seq<char>)
    requires
        all_space(pre),
    ensures
        trim_start(pre + x) == trim_start(x),
    decreases pre.len(),
{
    if pre.len() > 0 {
        assert((pre + x)[0] == pre[0]);
        assert((pre + x).drop_first() =~= pre.drop_first() + x);
        assert(all_space(pre.drop_first())) by {
            assert forall|i: int| 0 <= i < pre.drop_first().len() implies is_space(
                #[trigger] pre.drop_first()[i],
            ) by {
                assert(pre.drop_first()[i] == pre[i + 1]);
            }
        }
        lemma_trim_start_after_space(pre.drop_first(), x);
    } else {
        assert(pre + x =~= x);
    }
}

proof fn lemma_trim_end_before_space(x: Seq<char>, post: Seq<char>)
    requires
        all_space(post),
    ensures
        trim_end(x + post) == trim_end(x),
    decreases post.len(),
{
    if post.len() > 0 {
        assert((x + post).last() == post.last());
        assert((x + post).drop_last() =~= x + post.drop_last());
        assert(all_space(post.drop_last())) by {
            assert forall|i: int| 0 <= i < post.drop_last().len() implies is_space(
                #[trigger] post.drop_last()[i],
            ) by {
                assert(post.drop_last()[i] == post[i]);
            }
        }
        lemma_trim_end_before_space(x, post.drop_last());
    } else {
        assert(x + post =~= x);
    }
}

proof fn lemma_trim_with_trailing_space(p: Seq<char>, post: Seq<char>)
    requires
        all_space(post),
    ensures
        trim_end(trim_start(p + post)) == trim_end(trim_start(p)),
    decreases p.len(),
{
    if p.len() == 0 {
        assert(p + post =~= post);
        lemma_trim_start_after_space(post, Seq::<char>::empty());
        assert(post + Seq::<char>::empty() =~= post);
    } else if is_space(p[0]) {
        assert((p + post)[0] == p[0]);
        assert((p + post).drop_first() =~= p.drop_first() + post);
        lemma_trim_with_trailing_space(p.drop_first(), post);
    } else {
        assert((p + post)[0] == p[0]);
        lemma_trim_end_before_space(p, post);
    }
}

/// Whitespace around a piece never changes what it trims to.
pub proof fn law_trim_ignores_padding(pre: Seq<char>, p: Seq<char>, post: Seq<char>)
    requires
        all_space(pre),
        all_space(post),
    ensures
        trim(pre + p + post) == trim(p),
{
    assert(pre + p + post =~= pre + (p + post));
    lemma_trim_start_after_space(pre, p + post);
    lemma_trim_with_trailing_space(p, post);
}

// ── Splitting ───────────────────────────────────────────────────────────────

/// The pieces of `s` between occurrences of `sep`, as `str::split(sep)` yields
/// them: one piece more than there are separators, empty pieces included.
pub open spec fn split_on(s: Seq<char>, sep: char) -> Seq<Seq<char>>
    decreases s.len(),
{
    if s.len() == 0 {
        seq![Seq::empty()]
    } else {
        let prev = split_on(s.drop_last(), sep);
        if s.last() == sep {
            prev.push(Seq::empty())
        } else {
            prev.update(prev.len() - 1, prev.last().push(s.last()))
        }
    }
}

/// Splitting always yields at least one piece.
pub proof fn lemma_split_nonempty(s: Seq<char>, sep: char)
    ensures
        split_on(s, sep).len() >= 1,
    decreases s.len(),
{
    if s.len() > 0 {
        lemma_split_nonempty(s.drop_last(), sep);
    }
}

/// How many times `c` occurs in `s`.
pub open spec fn count_char(s: Seq<char>, c: char) -> nat
    decreases s.len(),
{
    if s.len() == 0 {
        0
    } else {
        count_char(s.drop_last(), c) + if s.last() == c {
            1nat
        } else {
            0nat
        }
    }
}

/// Splitting yields one piece more than there are separators.
pub proof fn law_split_piece_count(s: Seq<char>, sep: char)
    ensures
        split_on(s, sep).len() == count_char(s, sep) + 1,
    decreases s.len(),
{
    if s.len() > 0 {
        law_split_piece_count(s.drop_last(), sep);
    }
}

/// Splitting text joined by a separator gives the pieces of each side, in
/// order.
pub proof fn law_split_joined(a: Seq<char>, b: Seq<char>, sep: char)
    ensures
        split_on(a + seq![sep] + b, sep) == split_on(a, sep) + split_on(b, sep),
    decreases b.len(),
{
    let c = a + seq![sep] + b;
    if b.len() == 0 {
        assert(c.drop_last() =~= a);
        assert(split_on(b, sep) == seq![Seq::<char>::empty()]);
        assert(split_on(c, sep) =~= split_on(a, sep) + split_on(b, sep));
    } else {
        let b1 = b.drop_last();
        assert(c.drop_last() =~= a + seq![sep] + b1);
        assert(c.last() == b.last());
        law_split_joined(a, b1, sep);
        lemma_split_nonempty(b1, sep);
        let x = split_on(a, sep);
        let y = split_on(b1, sep);
        if b.last() == sep {
            assert(split_on(c, sep) =~= x + y.push(Seq::empty()));
        } else {
            assert((x + y).last() == y.last());
            assert(split_on(c, sep) =~= x + y.update(y.len() - 1, y.last().push(b.last())));
        }
    }
}

/// The texts that a list of bounds picks out of `v`.
pub open spec fn span_texts(v: Seq<char>, spans: Seq<(usize, usize)>) -> Seq<Seq<char>> {
    Seq::new(spans.len(), |j: int| v.subrange(spans[j].0 as int, spans[j].1 as int))
}

/// Whether every bound pair lies, in order, inside `lo..hi`.
pub open spec fn spans_within(spans: Seq<(usize, usize)>, lo: int, hi: int) -> bool {
    forall|j: int|
        0 <= j < spans.len() ==> lo <= (#[trigger] spans[j]).0 <= spans[j].1 <= hi
}

/// The bounds of the pieces of `v[lo..hi]` between occurrences of `sep`.
pub fn split_spans(v: &Vec<char>, lo: usize, hi: usize, sep: char) -> (r: Vec<(usize, usize)>)
    requires
        lo <= hi <= v.len(),
    ensures
        spans_within(r@, lo as int, hi as int),
        span_texts(v@, r@) == split_on(v@.subrange(lo as int, hi as int), sep),
{
    let mut spans: Vec<(usize, usize)> = Vec::new();
    let mut start = lo;
    let mut i = lo;
    proof {
        assert(v@.subrange(lo as int, i as int) =~= Seq::<char>::empty());
        assert(split_on(Seq::<char>::empty(), sep) == seq![Seq::<char>::empty()]);
        assert(span_texts(v@, spans@.push((start, i))) =~= seq![Seq::<char>::empty()]);
    }
    while i < hi
        invariant
            lo <= start <= i <= hi <= v.len(),
            spans_within(spans@, lo as int, start as int),
            span_texts(v@, spans@.push((start, i))) == split_on(
                v@.subrange(lo as int, i as int),
                sep,
            ),
        decreases hi - i,
    {
        let ghost prev_spans = spans@;
        let ghost old_start = start;
        let ghost prev = split_on(v@.subrange(lo as int, i as int), sep);
        proof {
            let s = v@.subrange(lo as int, i as int + 1);
            assert(s.drop_last() =~= v@.subrange(lo as int, i as int));
            assert(s.last() == v@[i as int]);
        }
        if v[i] == sep {
            spans.push((start, i));
            start = i + 1;
            proof {
                let next = spans@.push((start, (i + 1) as usize));
                assert(next =~= prev_spans.push((old_start, i)).push((start, (i + 1) as usize)));
                let old_texts = span_texts(v@, prev_spans.push((old_start, i)));
                assert forall|j: int| 0 <= j < next.len() implies #[trigger] span_texts(v@, next)[j]
                    == prev.push(Seq::empty())[j] by {
                    if j < next.len() - 1 {
                        assert(next[j] == prev_spans.push((old_start, i))[j]);
                        assert(old_texts[j] == prev[j]);
                    } else {
                        assert(v@.subrange(start as int, start as int) =~= Seq::<char>::empty());
                    }
                }
                assert(span_texts(v@, next) =~= prev.push(Seq::empty()));
            }
        } else {
            proof {
                assert(v@.subrange(start as int, i + 1) =~= v@.subrange(
                    start as int,
                    i as int,
                ).push(v@[i as int]));
                assert(span_texts(v@, spans@.push((start, (i + 1) as usize))) =~= prev.update(
                    prev.len() - 1,
                    prev.last().push(v@[i as int]),
                ));
            }
        }
        i = i + 1;
    }
    spans.push((start, hi));
    spans
}

// ── Lines ───────────────────────────────────────────────────────────────────

/// `p` without one trailing carriage return.
pub open spec fn strip_cr(p: Seq<char>) -> Seq<char> {
    if p.len() > 0 && p.last() == '\r' {
        p.drop_last()
    } else {
        p
    }
}

/// The lines of `s`, as `str::lines` yields them: split at `\n`, a `\r`
/// right before a `\n` dropped, and no empty line after a final `\n`.
pub open spec fn lines(s: Seq<char>) -> Seq<Seq<char>> {
    let pieces = split_on(s, '\n');
    let ended = pieces.take(pieces.len() - 1).map_values(|p: Seq<char>| strip_cr(p));
    if pieces.last().len() == 0 {
        ended
    } else {
        ended.push(pieces.last())
    }
}

/// Whether `p` holds nothing but whitespace.
pub open spec fn is_blank(p: Seq<char>) -> bool {
    trim(p).len() == 0
}

/// The first of `ls` that is not blank.
pub open spec fn first_nonblank(ls: Seq<Seq<char>>) -> Option<Seq<char>>
    decreases ls.len(),
{
    if ls.len() == 0 {
        None
    } else if !is_blank(ls[0]) {
        Some(ls[0])
    } else {
        first_nonblank(ls.drop_first())
    }
}

proof fn lemma_first_nonblank_at(ls: Seq<Seq<char>>, j: int)
    requires
        0 <= j <= ls.len(),
        forall|k: int| 0 <= k < j ==> is_blank(#[trigger] ls[k]),
    ensures
        j < ls.len() && !is_blank(ls[j]) ==> first_nonblank(ls) == Some(ls[j]),
        j == ls.len() ==> first_nonblank(ls) is None,
    decreases j,
{
    if j > 0 {
        let t = ls.drop_first();
        assert forall|k: int| 0 <= k < j - 1 implies is_blank(#[trigger] t[k]) by {
            assert(t[k] == ls[k + 1]);
        }
        assert(is_blank(ls[0]));
        lemma_first_nonblank_at(t, j - 1);
        if j < ls.len() {
            assert(t[j - 1] == ls[j]);
        }
    }
}

/// The bounds of the first line of `v` that is not blank, if there is one.
pub fn first_nonblank_line(v: &Vec<char>) -> (r: Option<(usize, usize)>)
    ensures
        match r {
            Some(sp) => sp.0 <= sp.1 <= v.len() && first_nonblank(lines(v@)) == Some(
                v@.subrange(sp.0 as int, sp.1 as int),
            ),
            None => first_nonblank(lines(v@)) is None,
        },
{
    let spans = split_spans(v, 0, v.len(), '\n');
    let ghost pieces = split_on(v@.subrange(0, v.len() as int), '\n');
    let ghost ls = lines(v@);
    proof {
        assert(v@.subrange(0, v.len() as int) =~= v@);
        lemma_split_nonempty(v@, '\n');
    }
    let n = spans.len() - 1;
    let mut j: usize = 0;
    while j < n
        invariant
            0 <= j <= n,
            n + 1 == spans.len(),
            pieces == split_on(v@, '\n'),
            ls == lines(v@),
            spans_within(spans@, 0, v.len() as int),
            span_texts(v@, spans@) == pieces,
            forall|k: int| 0 <= k < j ==> is_blank(#[trigger] ls[k]),
        decreases n - j,
    {
        let (a, b0) = spans[j];
        let mut b = b0;
        if b > a && v[b - 1] == '\r' {
            b = b - 1;
        }
        proof {
            assert(pieces[j as int] == v@.subrange(a as int, b0 as int));
            assert(ls[j as int] == strip_cr(pieces[j as int]));
            if b0 > a && v@[b0 - 1] == '\r' {
                assert(pieces[j as int].last() == v@[b0 - 1]);
                assert(pieces[j as int].drop_last() =~= v@.subrange(a as int, b as int));
            } else {
                if pieces[j as int].len() > 0 {
                    assert(pieces[j as int].last() == v@[b0 - 1]);
                }
            }
            assert(ls[j as int] == v@.subrange(a as int, b as int));
        }
        let (x, y) = trim_span(v, a, b);
        if x < y {
            proof {
                assert(v@.subrange(x as int, y as int).len() > 0);
                lemma_first_nonblank_at(ls, j as int);
            }
            return Some((a, b));
        }
        proof {
            assert(v@.subrange(x as int, y as int).len() == 0);
        }
        j = j + 1;
    }
    let (a, b) = spans[n];
    proof {
        assert(pieces.last() == pieces[n as int]);
        assert(pieces[n as int] == v@.subrange(a as int, b as int));
    }
    if a < b {
        let (x, y) = trim_span(v, a, b);
        if x < y {
            proof {
                assert(ls.len() == n + 1);
                assert(ls[n as int] == pieces.last());
                assert(v@.subrange(x as int, y as int).len() > 0);
                lemma_first_nonblank_at(ls, n as int);
            }
            return Some((a, b));
        }
        proof {
            assert(ls.len() == n + 1);
            assert(ls[n as int] == pieces.last());
            assert(v@.subrange(x as int, y as int).len() == 0);
            lemma_first_nonblank_at(ls, n + 1);
        }
        None
    } else {
        proof {
            assert(ls.len() == n);
            lemma_first_nonblank_at(ls, n as int);
        }
        None
    }
}

} // verus!
