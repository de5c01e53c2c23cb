//! Text primitives over sequences of characters: search, replacement,
//! trimming, splitting, joining and decimal formatting, each with the
//! meaning of its std counterpart on `str`.
use vstd::prelude::*;

verus! {

broadcast use vstd::string::axiom_spec_iter;

/// `p` occurs in `s` starting at index `i`.
pub open spec fn matches_at(s: Seq<char>, p: Seq<char>, i: int) -> bool {
    0 <= i && i + p.len() <= s.len() && s.subrange(i, i + p.len()) == p
}

/// The first index at or after `start` where `p` occurs (`str::find` on `s[start..]`).
pub open spec fn find_from(s: Seq<char>, p: Seq<char>, start: int) -> Option<int>
    decreases s.len() - start,
{
    if start < 0 || start + p.len() > s.len() {
        None
    } else if matches_at(s, p, start) {
        Some(start)
    } else if start >= s.len() {
        None
    } else {
        find_from(s, p, start + 1)
    }
}

/// `s` with every occurrence of `f` replaced by `t`, scanning left to right
/// over non-overlapping occurrences (`str::replace` for a nonempty `f`).
pub open spec fn replace_all(s: Seq<char>, f: Seq<char>, t: Seq<char>) -> Seq<char>
    decreases s.len(),
{
    if f.len() == 0 || s.len() < f.len() {
        s
    } else if s.take(f.len() as int) == f {
        t + replace_all(s.skip(f.len() as int), f, t)
    } else {
        seq![s[0]] + replace_all(s.skip(1), f, t)
    }
}

/// Unicode `White_Space` (`char::is_whitespace`).
pub open spec fn is_ws(c: char) -> bool {
    ||| c == ' ' || c == '\t' || c == '\n' || c == '\x0B' || c == '\x0C' || c == '\r'
    ||| c == '\u{85}' || c == '\u{A0}' || c == '\u{1680}'
    ||| ('\u{2000}' <= c && c <= '\u{200A}')
    ||| c == '\u{2028}' || c == '\u{2029}' || c == '\u{202F}' || c == '\u{205F}' || c == '\u{3000}'
}

/// Whether a character is whitespace, as `char::is_whitespace`.
pub fn is_whitespace(c: char) -> (r: bool)
    ensures
        r == is_ws(c),
{
    c == ' ' || c == '\t' || c == '\n' || c == '\x0B' || c == '\x0C' || c == '\r'
        || c == '\u{85}' || c == '\u{A0}' || c == '\u{1680}'
        || ('\u{2000}' <= c && c <= '\u{200A}')
        || c == '\u{2028}' || c == '\u{2029}' || c == '\u{202F}' || c == '\u{205F}' || c == '\u{3000}'
}

/// `s` without leading whitespace (`str::trim_start`).
pub open spec fn trim_start(s: Seq<char>) -> Seq<char>
    decreases s.len(),
{
    if s.len() > 0 && is_ws(s[0]) {
        trim_start(s.skip(1))
    } else {
        s
    }
}

/// `s` without trailing whitespace (`str::trim_end`).
pub open spec fn trim_end(s: Seq<char>) -> Seq<char>
    decreases s.len(),
{
    if s.len() > 0 && is_ws(s.last()) {
        trim_end(s.drop_last())
    } else {
        s
    }
}

/// `s` without leading and trailing whitespace (`str::trim`).
pub open spec fn trim(s: Seq<char>) -> Seq<char> {
    trim_end(trim_start(s))
}

/// The pieces of `s` between occurrences of `c` (`str::split` on a char):
/// always at least one piece.
pub open spec fn split_on(s: Seq<char>, c: char) -> Seq<Seq<char>>
    decreases s.len(),
{
    if s.len() == 0 {
        seq![Seq::<char>::empty()]
    } else {
        let p = split_on(s.drop_last(), c);
        if s.last() == c {
            p.push(Seq::<char>::empty())
        } else {
            p.update(p.len() - 1, p.last().push(s.last()))
        }
    }
}

/// The maximal runs of non-whitespace characters of `s`, in order
/// (`str::split_whitespace`).
pub open spec fn ws_tokens(s: Seq<char>) -> Seq<Seq<char>>
    decreases s.len(),
{
    if s.len() == 0 {
        Seq::empty()
    } else {
        let t = ws_tokens(s.drop_last());
        if is_ws(s.last()) {
            t
        } else if s.len() >= 2 && !is_ws(s[s.len() - 2]) {
            t.update(t.len() - 1, t.last().push(s.last()))
        } else {
            t.push(seq![s.last()])
        }
    }
}

/// The pieces joined with `sep` between them (`[String]::join`).
pub open spec fn join(parts: Seq<Seq<char>>, sep: Seq<char>) -> Seq<char>
    decreases parts.len(),
{
    if parts.len() == 0 {
        Seq::empty()
    } else if parts.len() == 1 {
        parts[0]
    } else {
        join(parts.drop_last(), sep) + sep + parts.last()
    }
}

/// How many times `c` occurs in `s`.
pub open spec fn count_char(s: Seq<char>, c: char) -> nat
    decreases s.len(),
{
    if s.len() == 0 {
        0
    } else {
        count_char(s.drop_last(), c) + if s.last() == c { 1nat } else { 0nat }
    }
}

/// The decimal digit character of `d` (for `d` below 10).
pub open spec fn digit_char(d: nat) -> char {
    if d == 0 { '0' } else if d == 1 { '1' } else if d == 2 { '2' } else if d == 3 { '3' }
    else if d == 4 { '4' } else if d == 5 { '5' } else if d == 6 { '6' } else if d == 7 { '7' }
    else if d == 8 { '8' } else { '9' }
}

/// The decimal representation of `n`, without leading zeros
/// (`Display` of an unsigned integer).
pub open spec fn decimal(n: nat) -> Seq<char>
    decreases n,
{
    if n < 10 {
        seq![digit_char(n)]
    } else {
        decimal(n / 10).push(digit_char(n % 10))
    }
}

/// What a found occurrence is: at or after `start`, a full match, and the
/// first one from `start`.
pub proof fn lemma_find_from(s: Seq<char>, p: Seq<char>, start: int)
    ensures
        find_from(s, p, start) matches Some(i) ==> start <= i && i + p.len() <= s.len() && matches_at(s, p, i)
            && forall|j: int| start <= j < i ==> !matches_at(s, p, j),
        start >= 0 && find_from(s, p, start) is None ==> forall|j: int| start <= j ==> !matches_at(s, p, j),
    decreases s.len() - start,
{
    if start < 0 || start + p.len() > s.len() {
    } else if matches_at(s, p, start) {
    } else if start >= s.len() {
    } else {
        lemma_find_from(s, p, start + 1);
    }
}

/// `trim_end(s)` is a prefix of `s`.
pub proof fn lemma_trim_end_prefix(s: Seq<char>)
    ensures
        trim_end(s).len() <= s.len(),
        trim_end(s) == s.take(trim_end(s).len() as int),
    decreases s.len(),
{
    if s.len() > 0 && is_ws(s.last()) {
        lemma_trim_end_prefix(s.drop_last());
        assert(s.drop_last().take(trim_end(s).len() as int) =~= s.take(trim_end(s).len() as int));
    } else {
        assert(s.take(s.len() as int) =~= s);
    }
}

/// Counting distributes over concatenation.
pub proof fn lemma_count_char_concat(a: Seq<char>, b: Seq<char>, c: char)
    ensures
        count_char(a + b, c) == count_char(a, c) + count_char(b, c),
    decreases b.len(),
{
    if b.len() == 0 {
        assert(a + b =~= a);
    } else {
        assert((a + b).drop_last() =~= a + b.drop_last());
        lemma_count_char_concat(a, b.drop_last(), c);
    }
}

/// Appends the characters of `s` to `v`.
pub fn push_all(v: &mut Vec<char>, s: &[char])
    ensures
        final(v)@ == old(v)@ + s@,
{
    let mut i: usize = 0;
    while i < s.len()
        invariant
            0 <= i <= s@.len(),
            v@ == old(v)@ + s@.take(i as int),
        decreases s@.len() - i,
    {
        v.push(s[i]);
        assert(s@.take(i + 1) =~= s@.take(i as int).push(s@[i as int]));
        i = i + 1;
    }
    assert(s@.take(s@.len() as int) =~= s@);
}

/// The characters `a..b` of `s`.
pub fn slice_of(s: &[char], a: usize, b: usize) -> (r: Vec<char>)
    requires
        a <= b <= s@.len(),
    ensures
        r@ == s@.subrange(a as int, b as int),
{
    let mut v: Vec<char> = Vec::new();
    let mut i: usize = a;
    while i < b
        invariant
            a <= i <= b <= s@.len(),
            v@ == s@.subrange(a as int, i as int),
        decreases b - i,
    {
        v.push(s[i]);
        assert(s@.subrange(a as int, i + 1) =~= s@.subrange(a as int, i as int).push(s@[i as int]));
        i = i + 1;
    }
    v
}

/// The concatenation of two character sequences.
pub fn concat(a: &[char], b: &[char]) -> (r: Vec<char>)
    ensures
        r@ == a@ + b@,
{
    let mut v: Vec<char> = Vec::new();
    push_all(&mut v, a);
    push_all(&mut v, b);
    assert(v@ =~= a@ + b@);
    v
}

/// The concatenation of three character sequences.
pub fn cat3(a: &[char], b: &[char], c: &[char]) -> (r: Vec<char>)
    ensures
        r@ == a@ + b@ + c@,
{
    let mut v = concat(a, b);
    push_all(&mut v, c);
    v
}

/// The concatenation of four character sequences.
pub fn cat4(a: &[char], b: &[char], c: &[char], d: &[char]) -> (r: Vec<char>)
    ensures
        r@ == a@ + b@ + c@ + d@,
{
    let mut v = cat3(a, b, c);
    push_all(&mut v, d);
    v
}

/// The concatenation of five character sequences.
pub fn cat5(a: &[char], b: &[char], c: &[char], d: &[char], e: &[char]) -> (r: Vec<char>)
    ensures
        r@ == a@ + b@ + c@ + d@ + e@,
{
    let mut v = cat4(a, b, c, d);
    push_all(&mut v, e);
    v
}

/// Whether `p` occurs in `s` at index `i`.
pub fn matches_at_exec(s: &[char], p: &[char], i: usize) -> (r: bool)
    ensures
        r == matches_at(s@, p@, i as int),
{
    if i > s.len() || p.len() > s.len() - i {
        return false;
    }
    let mut k: usize = 0;
    let n: usize = s.len();
    while k < p.len()
        invariant
            n == s@.len(),
            i + p@.len() <= n,
            i <= s@.len(),
            0 <= k <= p@.len(),
            forall|j: int| 0 <= j < k ==> s@[i + j] == p@[j],
        decreases p@.len() - k,
    {
        let j: usize = i + k;
        if s[j] != p[k] {
            assert(s@.subrange(i as int, i + p@.len())[k as int] != p@[k as int]);
            return false;
        }
        k = k + 1;
    }
    assert(s@.subrange(i as int, i + p@.len()) =~= p@);
    true
}

/// The first index at or after `start` where `p` occurs in `s`.
pub fn find(s: &[char], p: &[char], start: usize) -> (r: Option<usize>)
    ensures
        match r {
            Some(i) => find_from(s@, p@, start as int) == Some(i as int),
            None => find_from(s@, p@, start as int) is None,
        },
{
    let mut i: usize = start;
    loop
        invariant
            start <= i,
            find_from(s@, p@, i as int) == find_from(s@, p@, start as int),
        decreases s@.len() + 1 - i,
    {
        if i > s.len() || p.len() > s.len() - i {
            return None;
        }
        if matches_at_exec(s, p, i) {
            return Some(i);
        }
        if i >= s.len() {
            return None;
        }
        i = i + 1;
    }
}

/// Whether `p` occurs anywhere in `s` (`str::contains`).
pub fn contains(s: &[char], p: &[char]) -> (r: bool)
    ensures
        r == (find_from(s@, p@, 0) is Some),
{
    find(s, p, 0).is_some()
}

/// Whether `s` starts with `p`.
pub fn starts_with(s: &[char], p: &[char]) -> (r: bool)
    ensures
        r == matches_at(s@, p@, 0),
{
    matches_at_exec(s, p, 0)
}

/// Whether `s` ends with `p`.
pub fn ends_with(s: &[char], p: &[char]) -> (r: bool)
    ensures
        r == (p@.len() <= s@.len() && matches_at(s@, p@, s@.len() - p@.len())),
{
    if p.len() > s.len() {
        return false;
    }
    matches_at_exec(s, p, s.len() - p.len())
}

/// Whether two character sequences are equal.
pub fn same_chars(a: &[char], b: &[char]) -> (r: bool)
    ensures
        r == (a@ == b@),
{
    if a.len() != b.len() {
        return false;
    }
    let r = matches_at_exec(a, b, 0);
    assert(a@.subrange(0, b@.len() as int) =~= a@);
    r
}

/// `s` with every occurrence of `f` replaced by `t`.
pub fn replace(s: &[char], f: &[char], t: &[char]) -> (r: Vec<char>)
    ensures
        r@ == replace_all(s@, f@, t@),
{
    let mut out: Vec<char> = Vec::new();
    if f.len() == 0 {
        push_all(&mut out, s);
        assert(out@ =~= s@);
        return out;
    }
    let mut i: usize = 0;
    assert(s@.skip(0) =~= s@);
    assert(out@ =~= Seq::<char>::empty());
    loop
        invariant
            f@.len() > 0,
            0 <= i <= s@.len(),
            out@ + replace_all(s@.skip(i as int), f@, t@) == replace_all(s@, f@, t@),
        decreases s@.len() - i,
    {
        let ghost rest = s@.skip(i as int);
        if s.len() - i < f.len() {
            let tail = slice_of(s, i, s.len());
            push_all(&mut out, tail.as_slice());
            assert(tail@ =~= rest);
            return out;
        }
        if matches_at_exec(s, f, i) {
            assert(rest.take(f@.len() as int) =~= s@.subrange(i as int, i + f@.len()));
            assert(rest.skip(f@.len() as int) =~= s@.skip(i + f@.len()));
            push_all(&mut out, t);
            assert(out@ + replace_all(s@.skip(i + f@.len()), f@, t@) == replace_all(s@, f@, t@)) by {
                assert(replace_all(rest, f@, t@) == t@ + replace_all(rest.skip(f@.len() as int), f@, t@));
                assert((out@ + replace_all(s@.skip(i + f@.len()), f@, t@)) =~= (out@.subrange(0, out@.len() - t@.len()) + replace_all(rest, f@, t@)));
            }
            i = i + f.len();
        } else {
            assert(rest.take(f@.len() as int) =~= s@.subrange(i as int, i + f@.len()));
            assert(rest.skip(1) =~= s@.skip(i + 1));
            let ghost before = out@;
            out.push(s[i]);
            assert(replace_all(rest, f@, t@) == seq![s@[i as int]] + replace_all(rest.skip(1), f@, t@));
            assert((out@ + replace_all(s@.skip(i + 1), f@, t@)) =~= (before + replace_all(rest, f@, t@)));
            i = i + 1;
        }
    }
}

/// Replaces, in place, every occurrence of `f` in `s` by `t`.
pub fn replace_in(s: &mut Vec<char>, f: &[char], t: &[char])
    ensures
        final(s)@ == replace_all(old(s)@, f@, t@),
{
    let r = replace(s.as_slice(), f, t);
    *s = r;
}

proof fn lemma_trim_start_skip(s: Seq<char>, i: int)
    requires
        0 <= i <= s.len(),
        forall|k: int| 0 <= k < i ==> is_ws(#[trigger] s[k]),
    ensures
        trim_start(s) == trim_start(s.skip(i)),
    decreases i,
{
    if i > 0 {
        assert(s.skip(1).skip(i - 1) =~= s.skip(i));
        lemma_trim_start_skip(s.skip(1), i - 1);
    } else {
        assert(s.skip(0) =~= s);
    }
}

proof fn lemma_trim_end_take(s: Seq<char>, i: int)
    requires
        0 <= i <= s.len(),
        forall|k: int| i <= k < s.len() ==> is_ws(#[trigger] s[k]),
    ensures
        trim_end(s) == trim_end(s.take(i)),
    decreases s.len() - i,
{
    if i < s.len() {
        assert(s.drop_last().take(i) =~= s.take(i));
        lemma_trim_end_take(s.drop_last(), i);
    } else {
        assert(s.take(i) =~= s);
    }
}

/// `s` without leading whitespace.
pub fn trim_start_of(s: &[char]) -> (r: Vec<char>)
    ensures
        r@ == trim_start(s@),
{
    let mut i: usize = 0;
    while i < s.len() && is_whitespace(s[i])
        invariant
            0 <= i <= s@.len(),
            forall|k: int| 0 <= k < i ==> is_ws(#[trigger] s@[k]),
        decreases s@.len() - i,
    {
        i = i + 1;
    }
    proof {
        lemma_trim_start_skip(s@, i as int);
    }
    slice_of(s, i, s.len())
}

/// `s` without trailing whitespace.
pub fn trim_end_of(s: &[char]) -> (r: Vec<char>)
    ensures
        r@ == trim_end(s@),
{
    let mut j: usize = s.len();
    while j > 0 && is_whitespace(s[j - 1])
        invariant
            0 <= j <= s@.len(),
            forall|k: int| j <= k < s@.len() ==> is_ws(#[trigger] s@[k]),
        decreases j,
    {
        j = j - 1;
    }
    proof {
        lemma_trim_end_take(s@, j as int);
        assert(s@.take(j as int) =~= s@.subrange(0, j as int));
    }
    slice_of(s, 0, j)
}

/// `s` without leading and trailing whitespace.
pub fn trim_of(s: &[char]) -> (r: Vec<char>)
    ensures
        r@ == trim(s@),
{
    let a = trim_start_of(s);
    trim_end_of(a.as_slice())
}

/// The views of a vector of character vectors.
pub open spec fn views(v: Seq<Vec<char>>) -> Seq<Seq<char>> {
    Seq::new(v.len(), |i: int| v[i]@)
}

proof fn lemma_split_nonempty(s: Seq<char>, c: char)
    ensures
        split_on(s, c).len() >= 1,
    decreases s.len(),
{
    if s.len() > 0 {
        lemma_split_nonempty(s.drop_last(), c);
    }
}

/// The pieces of `s` between occurrences of `c`.
pub fn split_on_char(s: &[char], c: char) -> (r: Vec<Vec<char>>)
    ensures
        views(r@) == split_on(s@, c),
{
    let mut parts: Vec<Vec<char>> = Vec::new();
    let mut cur: Vec<char> = Vec::new();
    let mut i: usize = 0;
    assert(s@.take(0) =~= Seq::<char>::empty());
    while i < s.len()
        invariant
            0 <= i <= s@.len(),
            views(parts@).push(cur@) =~= split_on(s@.take(i as int), c),
        decreases s@.len() - i,
    {
        let ghost prev = s@.take(i as int);
        assert(s@.take(i + 1).drop_last() =~= prev);
        assert(s@.take(i + 1).last() == s@[i as int]);
        proof {
            lemma_split_nonempty(prev, c);
        }
        if s[i] == c {
            let done = cur;
            parts.push(done);
            cur = Vec::new();
            assert(views(parts@).push(cur@) =~= split_on(s@.take(i + 1), c));
        } else {
            cur.push(s[i]);
            assert(views(parts@).push(cur@) =~= split_on(s@.take(i + 1), c));
        }
        i = i + 1;
    }
    parts.push(cur);
    assert(s@.take(s@.len() as int) =~= s@);
    assert(views(parts@) =~= split_on(s@, c));
    parts
}

proof fn lemma_ws_tokens_nonempty(s: Seq<char>)
    requires
        s.len() > 0,
        !is_ws(s.last()),
    ensures
        ws_tokens(s).len() >= 1,
    decreases s.len(),
{
    if s.len() >= 2 && !is_ws(s[s.len() - 2]) {
        lemma_ws_tokens_nonempty(s.drop_last());
    }
}

/// The maximal runs of non-whitespace characters of `s`, in order.
pub fn split_whitespace_of(s: &[char]) -> (r: Vec<Vec<char>>)
    ensures
        views(r@) == ws_tokens(s@),
{
    let mut tokens: Vec<Vec<char>> = Vec::new();
    let mut cur: Vec<char> = Vec::new();
    let mut in_token = false;
    let mut i: usize = 0;
    assert(s@.take(0) =~= Seq::<char>::empty());
    while i < s.len()
        invariant
            0 <= i <= s@.len(),
            in_token == (i > 0 && !is_ws(s@[i - 1])),
            in_token ==> views(tokens@).push(cur@) =~= ws_tokens(s@.take(i as int)),
            !in_token ==> views(tokens@) =~= ws_tokens(s@.take(i as int)),
            !in_token ==> cur@.len() == 0,
        decreases s@.len() - i,
    {
        let ghost prev = s@.take(i as int);
        assert(s@.take(i + 1).drop_last() =~= prev);
        assert(s@.take(i + 1).last() == s@[i as int]);
        if i >= 1 {
            assert(s@.take(i + 1)[i - 1] == s@[i - 1]);
        }
        if is_whitespace(s[i]) {
            if in_token {
                let done = cur;
                tokens.push(done);
                cur = Vec::new();
            }
            in_token = false;
        } else {
            let ghost old_cur = cur@;
            cur.push(s[i]);
            if !in_token {
                assert(cur@ =~= seq![s@[i as int]]);
            }
            in_token = true;
        }
        assert(in_token ==> views(tokens@).push(cur@) =~= ws_tokens(s@.take(i + 1)));
        assert(!in_token ==> views(tokens@) =~= ws_tokens(s@.take(i + 1)));
        i = i + 1;
    }
    if in_token {
        tokens.push(cur);
    }
    assert(s@.take(s@.len() as int) =~= s@);
    assert(views(tokens@) =~= ws_tokens(s@));
    tokens
}

/// The pieces joined with `sep` between them.
pub fn join_with(parts: &[Vec<char>], sep: &[char]) -> (r: Vec<char>)
    ensures
        r@ == join(views(parts@), sep@),
{
    let mut out: Vec<char> = Vec::new();
    let mut i: usize = 0;
    while i < parts.len()
        invariant
            0 <= i <= parts@.len(),
            out@ == join(views(parts@).take(i as int), sep@),
        decreases parts@.len() - i,
    {
        let ghost vs = views(parts@);
        assert(vs.take(i + 1).drop_last() =~= vs.take(i as int));
        assert(vs.take(i + 1).last() == parts@[i as int]@);
        if i > 0 {
            push_all(&mut out, sep);
        } else {
            assert(vs.take(1) =~= seq![parts@[0]@]);
        }
        push_all(&mut out, parts[i].as_slice());
        i = i + 1;
    }
    assert(views(parts@).take(parts@.len() as int) =~= views(parts@));
    out
}

/// How many times `c` occurs in `s`.
pub fn count_of(s: &[char], c: char) -> (r: usize)
    ensures
        r == count_char(s@, c),
{
    let mut n: usize = 0;
    let mut i: usize = 0;
    while i < s.len()
        invariant
            0 <= i <= s@.len(),
            n == count_char(s@.take(i as int), c),
            n <= i,
        decreases s@.len() - i,
    {
        assert(s@.take(i + 1).drop_last() =~= s@.take(i as int));
        if s[i] == c {
            n = n + 1;
        }
        i = i + 1;
    }
    assert(s@.take(s@.len() as int) =~= s@);
    n
}

/// The decimal digit character of `d`.
pub fn digit(d: usize) -> (r: char)
    requires
        d < 10,
    ensures
        r == digit_char(d as nat),
{
    if d == 0 { '0' } else if d == 1 { '1' } else if d == 2 { '2' } else if d == 3 { '3' }
    else if d == 4 { '4' } else if d == 5 { '5' } else if d == 6 { '6' } else if d == 7 { '7' }
    else if d == 8 { '8' } else { '9' }
}

/// The decimal representation of `n`.
pub fn decimal_of(n: usize) -> (r: Vec<char>)
    ensures
        r@ == decimal(n as nat),
    decreases n,
{
    if n < 10 {
        let mut v: Vec<char> = Vec::new();
        v.push(digit(n));
        assert(v@ =~= seq![digit_char(n as nat)]);
        v
    } else {
        let mut v = decimal_of(n / 10);
        v.push(digit(n % 10));
        v
    }
}

/// The characters of a string slice, in order.
pub fn chars_of(s: &str) -> (r: Vec<char>)
    ensures
        r@ == s@,
{
    let mut v: Vec<char> = Vec::new();
    for c in it: s.chars()
        invariant
            it.seq() == s@,
            v@ == it.seq().take(it.index() as int),
    {
        v.push(c);
        assert(v@ =~= it.seq().take(it.index() + 1));
    }
    assert(v@ =~= s@);
    v
}

/// Calls `String::from_iter` on the characters of `v`: the string made of
/// exactly these characters, in order.
#[verifier::external_body]
pub(crate) fn string_of(v: &[char]) -> (r: String)
    ensures
        r@ == v@,
{
    String::from_iter(v)
}

} // verus!
