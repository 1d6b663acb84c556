use vstd::prelude::*;

verus! {

/// Unicode `White_Space` characters: the set that `char::is_whitespace`,
/// `str::trim` and `str::split_whitespace` work with.
pub open spec fn is_ws(c: char) -> bool {
    ||| ('\u{9}' <= c && c <= '\u{d}')
    ||| c == ' '
    ||| c == '\u{85}'
    ||| c == '\u{a0}'
    ||| c == '\u{1680}'
    ||| ('\u{2000}' <= c && c <= '\u{200a}')
    ||| c == '\u{2028}'
    ||| c == '\u{2029}'
    ||| c == '\u{202f}'
    ||| c == '\u{205f}'
    ||| c == '\u{3000}'
}

/// Whether `c` is a Unicode whitespace character.
pub fn is_whitespace(c: char) -> (b: bool)
    ensures
        b == is_ws(c),
{
    ('\u{9}' <= c && c <= '\u{d}') || c == ' ' || c == '\u{85}' || c == '\u{a0}' || c == '\u{1680}'
        || ('\u{2000}' <= c && c <= '\u{200a}') || c == '\u{2028}' || c == '\u{2029}' || c
        == '\u{202f}' || c == '\u{205f}' || c == '\u{3000}'
}

/// `s` without its leading whitespace.
pub open spec fn trim_start(s: Seq<char>) -> Seq<char>
    decreases s.len(),
{
    if s.len() > 0 && is_ws(s[0]) {
        trim_start(s.drop_first())
    } else {
        s
    }
}

/// `s` without its trailing whitespace.
pub open spec fn trim_end(s: Seq<char>) -> Seq<char>
    decreases s.len(),
{
    if s.len() > 0 && is_ws(s.last()) {
        trim_end(s.drop_last())
    } else {
        s
    }
}

/// `s` without leading and trailing whitespace.
pub open spec fn trim(s: Seq<char>) -> Seq<char> {
    trim_end(trim_start(s))
}

/// The pieces of `s` between occurrences of `d` (as `str::split` with a char
/// pattern gives them): there is always one more piece than occurrences of `d`.
pub open spec fn split_on(s: Seq<char>, d: char) -> Seq<Seq<char>>
    decreases s.len(),
{
    if s.len() == 0 {
        seq![Seq::<char>::empty()]
    } else {
        let p = split_on(s.drop_last(), d);
        if s.last() == d {
            p.push(Seq::<char>::empty())
        } else {
            p.update(p.len() - 1, p.last().push(s.last()))
        }
    }
}

/// Index of the first occurrence of `d` in `s`, if any.
pub open spec fn find_first(s: Seq<char>, d: char) -> Option<nat>
    decreases s.len(),
{
    if s.len() == 0 {
        None
    } else if s[0] == d {
        Some(0)
    } else {
        match find_first(s.drop_first(), d) {
            Some(k) => Some(k + 1),
            None => None,
        }
    }
}

/// `s` split at the first occurrence of `d` (as `str::split_once`).
pub open spec fn split_once(s: Seq<char>, d: char) -> Option<(Seq<char>, Seq<char>)> {
    match find_first(s, d) {
        Some(k) => Some((s.take(k as int), s.skip(k as int + 1))),
        None => None,
    }
}

/// Concatenation of `parts` with `sep` between consecutive parts.
pub open spec fn join(parts: Seq<Seq<char>>, sep: Seq<char>) -> Seq<char>
    decreases parts.len(),
{
    if parts.len() == 0 {
        Seq::<char>::empty()
    } else if parts.len() == 1 {
        parts[0]
    } else {
        join(parts.drop_last(), sep) + sep + parts.last()
    }
}

/// The pieces of `s` between whitespace characters, empty ones included.
pub open spec fn split_on_ws(s: Seq<char>) -> Seq<Seq<char>>
    decreases s.len(),
{
    if s.len() == 0 {
        seq![Seq::<char>::empty()]
    } else {
        let p = split_on_ws(s.drop_last());
        if is_ws(s.last()) {
            p.push(Seq::<char>::empty())
        } else {
            p.update(p.len() - 1, p.last().push(s.last()))
        }
    }
}

/// `ps` without its empty pieces.
pub open spec fn non_empty(ps: Seq<Seq<char>>) -> Seq<Seq<char>>
    decreases ps.len(),
{
    if ps.len() == 0 {
        ps
    } else if ps.last().len() == 0 {
        non_empty(ps.drop_last())
    } else {
        non_empty(ps.drop_last()).push(ps.last())
    }
}

/// The whitespace-separated words of `s` (as `str::split_whitespace`).
pub open spec fn words(s: Seq<char>) -> Seq<Seq<char>> {
    non_empty(split_on_ws(s))
}

/// A line with one trailing carriage return removed.
pub open spec fn strip_cr(l: Seq<char>) -> Seq<char> {
    if l.len() > 0 && l.last() == '\r' {
        l.drop_last()
    } else {
        l
    }
}

/// Each line with one trailing carriage return removed.
pub open spec fn strip_all_cr(ls: Seq<Seq<char>>) -> Seq<Seq<char>> {
    ls.map_values(|l: Seq<char>| strip_cr(l))
}

/// The lines of `s` (as `str::lines`): split at `\n`, a `\r` just before a
/// `\n` removed, and no empty last line after a final `\n`.
pub open spec fn text_lines(s: Seq<char>) -> Seq<Seq<char>> {
    let ps = split_on(s, '\n');
    let ended = strip_all_cr(ps.drop_last());
    if ps.last().len() == 0 {
        ended
    } else {
        ended.push(ps.last())
    }
}

pub proof fn lemma_split_on_ws_len(s: Seq<char>)
    ensures
        split_on_ws(s).len() >= 1,
    decreases s.len(),
{
    if s.len() > 0 {
        lemma_split_on_ws_len(s.drop_last());
    }
}

/// Every piece of `split_on_ws(s)` is free of whitespace.
pub proof fn lemma_split_on_ws_clean(s: Seq<char>)
    ensures
        forall|k: int, j: int|
            0 <= k < split_on_ws(s).len() && 0 <= j < split_on_ws(s)[k].len() ==> !is_ws(
                #[trigger] split_on_ws(s)[k][j],
            ),
    decreases s.len(),
{
    if s.len() > 0 {
        lemma_split_on_ws_clean(s.drop_last());
        lemma_split_on_ws_len(s.drop_last());
    }
}

/// A piece sequence whose pieces are non-empty and free of whitespace.
pub open spec fn clean_words(ps: Seq<Seq<char>>) -> bool {
    forall|k: int| 0 <= k < ps.len() ==> {
        &&& (#[trigger] ps[k]).len() > 0
        &&& forall|j: int| 0 <= j < ps[k].len() ==> !is_ws(#[trigger] ps[k][j])
    }
}

proof fn lemma_non_empty_clean(ps: Seq<Seq<char>>)
    requires
        forall|k: int, j: int| 0 <= k < ps.len() && 0 <= j < ps[k].len() ==> !is_ws(#[trigger] ps[k][j]),
    ensures
        clean_words(non_empty(ps)),
    decreases ps.len(),
{
    if ps.len() > 0 {
        lemma_non_empty_clean(ps.drop_last());
        let q = non_empty(ps.drop_last());
        if ps.last().len() > 0 {
            assert forall|k: int| 0 <= k < q.push(ps.last()).len() implies {
                &&& (#[trigger] q.push(ps.last())[k]).len() > 0
                &&& forall|j: int| 0 <= j < q.push(ps.last())[k].len() ==> !is_ws(#[trigger] q.push(ps.last())[k][j])
            } by {
                if k == q.len() {
                    assert forall|j: int| 0 <= j < ps.last().len() implies !is_ws(#[trigger] ps.last()[j]) by {
                        assert(ps.last()[j] == ps[ps.len() - 1][j]);
                    }
                }
            }
        }
    }
}

/// The words of any text are non-empty and free of whitespace.
pub proof fn lemma_words_clean(s: Seq<char>)
    ensures
        clean_words(words(s)),
{
    lemma_split_on_ws_clean(s);
    lemma_non_empty_clean(split_on_ws(s));
}

/// `r` has no whitespace at either end and no two whitespace characters in a row.
pub open spec fn single_spaced(r: Seq<char>) -> bool {
    &&& r.len() > 0 ==> !is_ws(r[0]) && !is_ws(r.last())
    &&& forall|i: int| 0 <= i < r.len() - 1 ==> !(is_ws(#[trigger] r[i]) && is_ws(r[i + 1]))
}

/// Clean words joined by single spaces are single-spaced.
pub proof fn lemma_join_single_spaced(ps: Seq<Seq<char>>)
    requires
        clean_words(ps),
    ensures
        single_spaced(join(ps, " "@)),
        ps.len() > 0 ==> join(ps, " "@).len() > 0,
    decreases ps.len(),
{
    reveal_strlit(" ");
    if ps.len() == 1 {
        let w = ps[0];
        assert(join(ps, " "@) == w);
        assert(w.len() > 0);
        assert(!is_ws(w[0]));
        assert(!is_ws(w[w.len() - 1]));
        assert forall|i: int| 0 <= i < w.len() - 1 implies !(is_ws(#[trigger] w[i]) && is_ws(w[i + 1])) by {
            assert(!is_ws(ps[0][i]));
        }
    } else if ps.len() > 1 {
        let init = ps.drop_last();
        assert(clean_words(init)) by {
            assert forall|k: int| 0 <= k < init.len() implies {
                &&& (#[trigger] init[k]).len() > 0
                &&& forall|j: int| 0 <= j < init[k].len() ==> !is_ws(#[trigger] init[k][j])
            } by {
                assert(init[k] == ps[k]);
            }
        }
        lemma_join_single_spaced(init);
        let a = join(init, " "@);
        let w = ps.last();
        assert(w == ps[ps.len() - 1]);
        let r = a + " "@ + w;
        assert(join(ps, " "@) == r);
        assert(w.len() > 0);
        assert(r[0] == a[0]);
        assert(r.last() == w[w.len() - 1]);
        assert(!is_ws(w[w.len() - 1]));
        assert forall|i: int| 0 <= i < r.len() - 1 implies !(is_ws(#[trigger] r[i]) && is_ws(r[i + 1])) by {
            if i < a.len() - 1 {
                assert(r[i] == a[i] && r[i + 1] == a[i + 1]);
            } else if i == a.len() - 1 {
                assert(r[i] == a.last());
            } else if i == a.len() {
                assert(r[i + 1] == w[0]);
            } else {
                assert(r[i] == w[i - a.len() - 1]);
                assert(!is_ws(w[i - a.len() - 1]));
            }
        }
    }
}

/// Every character of `s` has property `p`.
pub open spec fn all_chars(s: Seq<char>, p: spec_fn(char) -> bool) -> bool {
    forall|i: int| 0 <= i < s.len() ==> p(#[trigger] s[i])
}

pub proof fn lemma_all_chars_concat(a: Seq<char>, b: Seq<char>, p: spec_fn(char) -> bool)
    requires
        all_chars(a, p),
        all_chars(b, p),
    ensures
        all_chars(a + b, p),
{
    assert forall|i: int| 0 <= i < (a + b).len() implies p(#[trigger] (a + b)[i]) by {
        if i < a.len() {
            assert((a + b)[i] == a[i]);
        } else {
            assert((a + b)[i] == b[i - a.len()]);
        }
    }
}

proof fn lemma_split_on_ws_chars(s: Seq<char>, p: spec_fn(char) -> bool)
    requires
        all_chars(s, p),
    ensures
        forall|k: int| 0 <= k < split_on_ws(s).len() ==> all_chars(#[trigger] split_on_ws(s)[k], p),
    decreases s.len(),
{
    if s.len() > 0 {
        let init = s.drop_last();
        assert(all_chars(init, p)) by {
            assert forall|i: int| 0 <= i < init.len() implies p(#[trigger] init[i]) by {
                assert(init[i] == s[i]);
            }
        }
        lemma_split_on_ws_chars(init, p);
        lemma_split_on_ws_len(init);
        let q = split_on_ws(init);
        if !is_ws(s.last()) {
            assert(p(s[s.len() - 1]));
            lemma_all_chars_concat(q.last(), seq![s.last()], p);
            assert(q.last().push(s.last()) =~= q.last() + seq![s.last()]);
            assert(all_chars(q[q.len() - 1], p));
        }
    }
}

proof fn lemma_non_empty_chars(ps: Seq<Seq<char>>, p: spec_fn(char) -> bool)
    requires
        forall|k: int| 0 <= k < ps.len() ==> all_chars(#[trigger] ps[k], p),
    ensures
        forall|k: int| 0 <= k < non_empty(ps).len() ==> all_chars(#[trigger] non_empty(ps)[k], p),
    decreases ps.len(),
{
    if ps.len() > 0 {
        let init = ps.drop_last();
        assert forall|k: int| 0 <= k < init.len() implies all_chars(#[trigger] init[k], p) by {
            assert(init[k] == ps[k]);
        }
        lemma_non_empty_chars(init, p);
        assert(all_chars(ps[ps.len() - 1], p));
        let q = non_empty(init);
        if ps.last().len() > 0 {
            assert forall|k: int| 0 <= k < q.push(ps.last()).len() implies all_chars(
                #[trigger] q.push(ps.last())[k],
                p,
            ) by {
                if k < q.len() {
                    assert(q.push(ps.last())[k] == q[k]);
                }
            }
        }
    }
}

proof fn lemma_join_chars(ps: Seq<Seq<char>>, sep: Seq<char>, p: spec_fn(char) -> bool)
    requires
        forall|k: int| 0 <= k < ps.len() ==> all_chars(#[trigger] ps[k], p),
        all_chars(sep, p),
    ensures
        all_chars(join(ps, sep), p),
    decreases ps.len(),
{
    if ps.len() == 1 {
        assert(all_chars(ps[0], p));
    } else if ps.len() > 1 {
        let init = ps.drop_last();
        assert forall|k: int| 0 <= k < init.len() implies all_chars(#[trigger] init[k], p) by {
            assert(init[k] == ps[k]);
        }
        lemma_join_chars(init, sep, p);
        assert(all_chars(ps[ps.len() - 1], p));
        lemma_all_chars_concat(join(init, sep), sep, p);
        lemma_all_chars_concat(join(init, sep) + sep, ps.last(), p);
    }
}

/// When every character of `s` and of `sep` has property `p`, so does every
/// character of the words of `s` joined by `sep`.
pub proof fn lemma_join_words_chars(s: Seq<char>, sep: Seq<char>, p: spec_fn(char) -> bool)
    requires
        all_chars(s, p),
        all_chars(sep, p),
    ensures
        all_chars(join(words(s), sep), p),
{
    lemma_split_on_ws_chars(s, p);
    lemma_non_empty_chars(split_on_ws(s), p);
    lemma_join_chars(words(s), sep, p);
}

proof fn lemma_split_on_ws_space_concat(x: Seq<char>, y: Seq<char>)
    ensures
        split_on_ws(x + seq![' '] + y) == split_on_ws(x) + split_on_ws(y),
    decreases y.len(),
{
    lemma_split_on_ws_len(x);
    if y.len() == 0 {
        assert((x + seq![' '] + y).drop_last() =~= x);
        assert(split_on_ws(x).push(Seq::<char>::empty()) =~= split_on_ws(x) + split_on_ws(y));
    } else {
        let s = x + seq![' '] + y;
        assert(s.drop_last() =~= x + seq![' '] + y.drop_last());
        lemma_split_on_ws_space_concat(x, y.drop_last());
        lemma_split_on_ws_len(y.drop_last());
        let a = split_on_ws(x);
        let b = split_on_ws(y.drop_last());
        assert(s.last() == y.last());
        if is_ws(y.last()) {
            assert((a + b).push(Seq::<char>::empty()) =~= a + b.push(Seq::<char>::empty()));
        } else {
            assert((a + b).update((a + b).len() - 1, (a + b).last().push(y.last())) =~= a + b.update(
                b.len() - 1,
                b.last().push(y.last()),
            ));
        }
    }
}

proof fn lemma_non_empty_concat(a: Seq<Seq<char>>, b: Seq<Seq<char>>)
    ensures
        non_empty(a + b) == non_empty(a) + non_empty(b),
    decreases b.len(),
{
    if b.len() == 0 {
        assert(a + b =~= a);
        assert(non_empty(a) + non_empty(b) =~= non_empty(a));
    } else {
        lemma_non_empty_concat(a, b.drop_last());
        assert((a + b).drop_last() =~= a + b.drop_last());
        assert((a + b).last() == b.last());
        if b.last().len() > 0 {
            assert((non_empty(a) + non_empty(b.drop_last())).push(b.last()) =~= non_empty(a) + non_empty(
                b.drop_last(),
            ).push(b.last()));
        }
    }
}

/// The words of two texts joined by a space are the words of the first
/// followed by the words of the second.
pub proof fn lemma_words_space_concat(x: Seq<char>, y: Seq<char>)
    ensures
        words(x + seq![' '] + y) == words(x) + words(y),
{
    lemma_split_on_ws_space_concat(x, y);
    lemma_non_empty_concat(split_on_ws(x), split_on_ws(y));
}

/// Joining two non-empty part lists one after the other puts one separator
/// between them.
pub proof fn lemma_join_concat(p: Seq<Seq<char>>, q: Seq<Seq<char>>, sep: Seq<char>)
    requires
        p.len() > 0,
        q.len() > 0,
    ensures
        join(p + q, sep) == join(p, sep) + sep + join(q, sep),
    decreases q.len(),
{
    if q.len() == 1 {
        assert((p + q).drop_last() =~= p);
        assert((p + q).last() == q[0]);
    } else {
        lemma_join_concat(p, q.drop_last(), sep);
        assert((p + q).drop_last() =~= p + q.drop_last());
        assert((p + q).last() == q.last());
        assert(join(p, sep) + sep + join(q.drop_last(), sep) + sep + q.last() =~= join(p, sep) + sep + (
        join(q.drop_last(), sep) + sep + q.last()));
    }
}

/// The characters of `s`, in order.
pub fn chars_of(s: &str) -> (v: Vec<char>)
    ensures
        v@ == s@,
{
    let mut v: Vec<char> = Vec::new();
    for c in it: s.chars()
        invariant
            v@ == it.seq().take(it.index() as int),
            it.seq() == s@,
    {
        v.push(c);
    }
    v
}

/// Appends the characters of `s` to `out`.
pub fn push_str(out: &mut Vec<char>, s: &str)
    ensures
        final(out)@ == old(out)@ + s@,
{
    let ghost start = out@;
    for c in it: s.chars()
        invariant
            out@ == start + it.seq().take(it.index() as int),
            it.seq() == s@,
    {
        out.push(c);
    }
}

/// `a` followed by `b`.
pub fn concat_str(a: &str, b: &str) -> (r: String)
    ensures
        r@ == a@ + b@,
{
    let mut out: Vec<char> = Vec::new();
    push_str(&mut out, a);
    push_str(&mut out, b);
    string_of(&out)
}

/// Appends `s[from..to]` to `out`.
pub fn push_range(out: &mut Vec<char>, s: &Vec<char>, from: usize, to: usize)
    requires
        from <= to <= s.len(),
    ensures
        final(out)@ == old(out)@ + s@.subrange(from as int, to as int),
{
    let ghost start = out@;
    let mut i: usize = from;
    while i < to
        invariant
            from <= i <= to <= s.len(),
            out@ == start + s@.subrange(from as int, i as int),
        decreases to - i,
    {
        out.push(s[i]);
        assert(s@.subrange(from as int, i + 1) =~= s@.subrange(from as int, i as int).push(s@[i as int]));
        i += 1;
    }
}

/// Appends all of `s` to `out`.
pub fn push_all(out: &mut Vec<char>, s: &Vec<char>)
    ensures
        final(out)@ == old(out)@ + s@,
{
    push_range(out, s, 0, s.len());
    assert(s@.subrange(0, s@.len() as int) =~= s@);
}

/// The views of a sequence of character vectors.
pub open spec fn views(ps: Seq<Vec<char>>) -> Seq<Seq<char>> {
    ps.map_values(|p: Vec<char>| p@)
}

/// The bounds of `s[from..to]` without its leading and trailing whitespace.
pub fn trim_range(s: &Vec<char>, from: usize, to: usize) -> (r: (usize, usize))
    requires
        from <= to <= s.len(),
    ensures
        from <= r.0 <= r.1 <= to,
        s@.subrange(r.0 as int, r.1 as int) == trim(s@.subrange(from as int, to as int)),
{
    let mut i: usize = from;
    while i < to && is_whitespace(s[i])
        invariant
            from <= i <= to <= s.len(),
            trim_start(s@.subrange(from as int, to as int)) == trim_start(
                s@.subrange(i as int, to as int),
            ),
        decreases to - i,
    {
        assert(s@.subrange(i as int, to as int).drop_first() =~= s@.subrange(i + 1, to as int));
        i += 1;
    }
    let mut j: usize = to;
    while j > i && is_whitespace(s[j - 1])
        invariant
            from <= i <= j <= to <= s.len(),
            trim_end(s@.subrange(i as int, to as int)) == trim_end(
                s@.subrange(i as int, j as int),
            ),
        decreases j - i,
    {
        assert(s@.subrange(i as int, j as int).drop_last() =~= s@.subrange(i as int, j - 1));
        j -= 1;
    }
    (i, j)
}

/// `s` without leading and trailing whitespace (as `str::trim`).
pub fn trimmed(s: &Vec<char>) -> (r: Vec<char>)
    ensures
        r@ == trim(s@),
{
    let bounds: (usize, usize) = trim_range(s, 0, s.len());
    let a: usize = bounds.0;
    let b: usize = bounds.1;
    assert(s@.subrange(0, s@.len() as int) =~= s@);
    let mut r: Vec<char> = Vec::new();
    push_range(&mut r, s, a, b);
    assert(r@ =~= s@.subrange(a as int, b as int));
    r
}

/// The pieces of `s` between occurrences of `d` (as `str::split`).
pub fn split_chars(s: &Vec<char>, d: char) -> (r: Vec<Vec<char>>)
    ensures
        views(r@) == split_on(s@, d),
{
    let mut pieces: Vec<Vec<char>> = Vec::new();
    let mut cur: Vec<char> = Vec::new();
    let mut i: usize = 0;
    assert(s@.take(0) =~= Seq::<char>::empty());
    assert(views(pieces@).push(cur@) =~= split_on(s@.take(0), d));
    while i < s.len()
        invariant
            i <= s.len(),
            views(pieces@).push(cur@) == split_on(s@.take(i as int), d),
        decreases s.len() - i,
    {
        let c = s[i];
        let ghost p = split_on(s@.take(i as int), d);
        assert(s@.take(i + 1).drop_last() =~= s@.take(i as int));
        if c == d {
            let done = cur;
            pieces.push(done);
            cur = Vec::new();
            assert(views(pieces@).push(cur@) =~= p.push(Seq::<char>::empty()));
        } else {
            cur.push(c);
            assert(views(pieces@).push(cur@) =~= p.update(p.len() - 1, p.last().push(c)));
        }
        i += 1;
    }
    let last = cur;
    pieces.push(last);
    assert(s@.take(s@.len() as int) =~= s@);
    assert(views(pieces@) =~= split_on(s@, d));
    pieces
}

/// The lines of `s` (as `str::lines`).
pub fn lines_of(s: &Vec<char>) -> (r: Vec<Vec<char>>)
    ensures
        views(r@) == text_lines(s@),
{
    let mut out: Vec<Vec<char>> = Vec::new();
    let mut cur: Vec<char> = Vec::new();
    let mut i: usize = 0;
    assert(s@.take(0) =~= Seq::<char>::empty());
    assert(views(out@) =~= strip_all_cr(split_on(s@.take(0), '\n').drop_last()));
    while i < s.len()
        invariant
            i <= s.len(),
            views(out@) == strip_all_cr(split_on(s@.take(i as int), '\n').drop_last()),
            cur@ == split_on(s@.take(i as int), '\n').last(),
            split_on(s@.take(i as int), '\n').len() >= 1,
        decreases s.len() - i,
    {
        let c = s[i];
        let ghost p = split_on(s@.take(i as int), '\n');
        assert(s@.take(i + 1).drop_last() =~= s@.take(i as int));
        if c == '\n' {
            if cur.len() > 0 && cur[cur.len() - 1] == '\r' {
                cur.pop();
            }
            assert(cur@ == strip_cr(p.last()));
            assert(p =~= p.drop_last().push(p.last()));
            let ghost before = views(out@);
            let done = cur;
            out.push(done);
            cur = Vec::new();
            assert(views(out@) =~= before.push(strip_cr(p.last())));
            assert(strip_all_cr(p) =~= strip_all_cr(p.drop_last()).push(strip_cr(p.last())));
            assert(p.push(Seq::<char>::empty()).drop_last() =~= p);
        } else {
            cur.push(c);
            let ghost q = p.update(p.len() - 1, p.last().push(c));
            assert(q.drop_last() =~= p.drop_last());
        }
        i += 1;
    }
    assert(s@.take(s@.len() as int) =~= s@);
    if cur.len() > 0 {
        let last = cur;
        out.push(last);
    }
    assert(views(out@) =~= text_lines(s@));
    out
}

proof fn lemma_find_first_at(s: Seq<char>, d: char, k: int)
    requires
        0 <= k < s.len(),
        s[k] == d,
        forall|j: int| 0 <= j < k ==> s[j] != d,
    ensures
        find_first(s, d) == Some(k as nat),
    decreases k,
{
    if k > 0 {
        lemma_find_first_at(s.drop_first(), d, k - 1);
    }
}

proof fn lemma_find_first_none(s: Seq<char>, d: char)
    requires
        forall|j: int| 0 <= j < s.len() ==> s[j] != d,
    ensures
        find_first(s, d) is None,
    decreases s.len(),
{
    if s.len() > 0 {
        lemma_find_first_none(s.drop_first(), d);
    }
}

/// Index of the first occurrence of `d` in `s`.
pub fn find_char(s: &Vec<char>, d: char) -> (r: Option<usize>)
    ensures
        match r {
            Some(k) => find_first(s@, d) == Some(k as nat) && k < s.len(),
            None => find_first(s@, d) is None,
        },
{
    let mut i: usize = 0;
    while i < s.len()
        invariant
            i <= s.len(),
            forall|j: int| 0 <= j < i ==> s@[j] != d,
        decreases s.len() - i,
    {
        if s[i] == d {
            proof {
                lemma_find_first_at(s@, d, i as int);
            }
            return Some(i);
        }
        i += 1;
    }
    proof {
        lemma_find_first_none(s@, d);
    }
    None
}

/// `s` split at the first occurrence of `d` (as `str::split_once`).
pub fn split_once_chars(s: &Vec<char>, d: char) -> (r: Option<(Vec<char>, Vec<char>)>)
    ensures
        match r {
            Some((a, b)) => split_once(s@, d) == Some((a@, b@)),
            None => split_once(s@, d) is None,
        },
{
    match find_char(s, d) {
        Some(k) => {
            let mut a: Vec<char> = Vec::new();
            push_range(&mut a, s, 0, k);
            let mut b: Vec<char> = Vec::new();
            push_range(&mut b, s, k + 1, s.len());
            assert(a@ =~= s@.take(k as int));
            assert(b@ =~= s@.skip(k + 1));
            Some((a, b))
        },
        None => None,
    }
}

/// `parts` joined with `sep` (as `[String]::join`).
pub fn join_chars(parts: &Vec<Vec<char>>, sep: &str) -> (r: Vec<char>)
    ensures
        r@ == join(views(parts@), sep@),
{
    let mut out: Vec<char> = Vec::new();
    let mut i: usize = 0;
    assert(views(parts@).take(0) =~= Seq::<Seq<char>>::empty());
    while i < parts.len()
        invariant
            i <= parts.len(),
            out@ == join(views(parts@).take(i as int), sep@),
        decreases parts.len() - i,
    {
        let ghost t = views(parts@).take(i + 1);
        assert(t.drop_last() =~= views(parts@).take(i as int));
        if i > 0 {
            push_str(&mut out, sep);
        }
        push_all(&mut out, &parts[i]);
        i += 1;
    }
    assert(views(parts@).take(parts@.len() as int) =~= views(parts@));
    out
}

/// The whitespace-separated words of `s` (as `str::split_whitespace`).
pub fn words_of(s: &Vec<char>) -> (r: Vec<Vec<char>>)
    ensures
        views(r@) == words(s@),
{
    let mut out: Vec<Vec<char>> = Vec::new();
    let mut cur: Vec<char> = Vec::new();
    let mut i: usize = 0;
    assert(s@.take(0) =~= Seq::<char>::empty());
    assert(views(out@) =~= non_empty(split_on_ws(s@.take(0)).drop_last()));
    while i < s.len()
        invariant
            i <= s.len(),
            views(out@) == non_empty(split_on_ws(s@.take(i as int)).drop_last()),
            cur@ == split_on_ws(s@.take(i as int)).last(),
            split_on_ws(s@.take(i as int)).len() >= 1,
        decreases s.len() - i,
    {
        let c = s[i];
        let ghost p = split_on_ws(s@.take(i as int));
        assert(s@.take(i + 1).drop_last() =~= s@.take(i as int));
        assert(p =~= p.drop_last().push(p.last()));
        if is_whitespace(c) {
            if cur.len() > 0 {
                let done = cur;
                out.push(done);
                assert(views(out@) =~= non_empty(p.drop_last()).push(p.last()));
            }
            cur = Vec::new();
            assert(p.push(Seq::<char>::empty()).drop_last() =~= p);
        } else {
            cur.push(c);
            let ghost q = p.update(p.len() - 1, p.last().push(c));
            assert(q.drop_last() =~= p.drop_last());
        }
        i += 1;
    }
    assert(s@.take(s@.len() as int) =~= s@);
    let ghost p = split_on_ws(s@);
    assert(p =~= p.drop_last().push(p.last()));
    if cur.len() > 0 {
        let last = cur;
        out.push(last);
        assert(views(out@) =~= non_empty(p.drop_last()).push(p.last()));
    }
    out
}

/// `a` comes strictly before `b` in lexicographic order by code point (the
/// order of their UTF-8 bytes).
pub open spec fn seq_lt(a: Seq<char>, b: Seq<char>) -> bool
    decreases a.len(),
{
    if a.len() == 0 {
        b.len() > 0
    } else if b.len() == 0 {
        false
    } else if a[0] != b[0] {
        a[0] < b[0]
    } else {
        seq_lt(a.drop_first(), b.drop_first())
    }
}

pub proof fn lemma_seq_lt_asymmetric(a: Seq<char>, b: Seq<char>)
    ensures
        seq_lt(a, b) ==> !seq_lt(b, a),
    decreases a.len(),
{
    if a.len() > 0 && b.len() > 0 && a[0] == b[0] {
        lemma_seq_lt_asymmetric(a.drop_first(), b.drop_first());
    }
}

pub proof fn lemma_seq_lt_total(a: Seq<char>, b: Seq<char>)
    ensures
        seq_lt(a, b) || seq_lt(b, a) || a == b,
    decreases a.len(),
{
    if a.len() > 0 && b.len() > 0 && a[0] == b[0] {
        lemma_seq_lt_total(a.drop_first(), b.drop_first());
        if a.drop_first() == b.drop_first() {
            assert(a =~= seq![a[0]] + a.drop_first());
            assert(b =~= seq![b[0]] + b.drop_first());
        }
    } else if a.len() == 0 && b.len() == 0 {
        assert(a =~= b);
    }
}

pub proof fn lemma_seq_lt_transitive(a: Seq<char>, b: Seq<char>, c: Seq<char>)
    requires
        seq_lt(a, b),
        seq_lt(b, c),
    ensures
        seq_lt(a, c),
    decreases a.len(),
{
    if a.len() > 0 && b.len() > 0 && c.len() > 0 && a[0] == b[0] && b[0] == c[0] {
        lemma_seq_lt_transitive(a.drop_first(), b.drop_first(), c.drop_first());
    }
}

/// Code-point lexicographic order: two texts that agree on their first `k`
/// characters and differ at position `k` are ordered by the code points there.
pub proof fn law_seq_lt_first_difference(a: Seq<char>, b: Seq<char>, k: int)
    requires
        0 <= k < a.len(),
        k < b.len(),
        a.take(k) == b.take(k),
        (a[k] as int) < (b[k] as int),
    ensures
        seq_lt(a, b),
        !seq_lt(b, a),
    decreases k,
{
    if k == 0 {
        assert(a[0] < b[0]);
    } else {
        assert(a[0] == a.take(k)[0]);
        assert(b[0] == b.take(k)[0]);
        assert(a.drop_first().take(k - 1) =~= a.take(k).drop_first());
        assert(b.drop_first().take(k - 1) =~= b.take(k).drop_first());
        law_seq_lt_first_difference(a.drop_first(), b.drop_first(), k - 1);
    }
}

/// A proper prefix comes before the longer text.
pub proof fn law_seq_lt_prefix(a: Seq<char>, b: Seq<char>)
    requires
        a.len() < b.len(),
        b.take(a.len() as int) == a,
    ensures
        seq_lt(a, b),
        !seq_lt(b, a),
    decreases a.len(),
{
    if a.len() > 0 {
        assert(a[0] == b.take(a.len() as int)[0]);
        assert(b.drop_first().take(a.len() - 1) =~= a.drop_first());
        law_seq_lt_prefix(a.drop_first(), b.drop_first());
    }
}

/// No text comes before itself.
pub proof fn law_seq_lt_irreflexive(a: Seq<char>)
    ensures
        !seq_lt(a, a),
    decreases a.len(),
{
    if a.len() > 0 {
        law_seq_lt_irreflexive(a.drop_first());
    }
}

/// Whether `a` comes strictly before `b` in lexicographic order.
pub fn chars_lt(a: &Vec<char>, b: &Vec<char>) -> (r: bool)
    ensures
        r == seq_lt(a@, b@),
{
    let mut i: usize = 0;
    assert(a@.skip(0) =~= a@);
    assert(b@.skip(0) =~= b@);
    while i < a.len() && i < b.len() && a[i] == b[i]
        invariant
            i <= a.len(),
            i <= b.len(),
            seq_lt(a@, b@) == seq_lt(a@.skip(i as int), b@.skip(i as int)),
        decreases a.len() - i,
    {
        assert(a@.skip(i as int).drop_first() =~= a@.skip(i + 1));
        assert(b@.skip(i as int).drop_first() =~= b@.skip(i + 1));
        i += 1;
    }
    if i == a.len() {
        i < b.len()
    } else if i == b.len() {
        false
    } else {
        a[i] < b[i]
    }
}

/// Builds a `String` from a sequence of characters, with std's
/// `FromIterator<&char>` for `String`: the string holds exactly those characters.
#[verifier::external_body]
pub fn string_of(v: &[char]) -> (s: String)
    ensures
        s@ == v@,
{
    v.iter().collect()
}

} // verus!
