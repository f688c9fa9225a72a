//! Character-level text model: the spec functions that describe how lines of
//! tool output are searched, split and trimmed, and their executable versions.
use vstd::prelude::*;

verus! {

/// Unicode `White_Space`, the set that `char::is_whitespace` and therefore
/// `str::trim` and `str::split_whitespace` use.
pub open spec fn is_ws(c: char) -> bool {
    ||| ('\t' <= c && c <= '\r')
    ||| c == ' '
    ||| c == '\u{85}'
    ||| c == '\u{A0}'
    ||| c == '\u{1680}'
    ||| ('\u{2000}' <= c && c <= '\u{200A}')
    ||| c == '\u{2028}'
    ||| c == '\u{2029}'
    ||| c == '\u{202F}'
    ||| c == '\u{205F}'
    ||| c == '\u{3000}'
}

pub fn is_whitespace(c: char) -> (r: bool)
    ensures
        r == is_ws(c),
{
    ('\t' <= c && c <= '\r') || c == ' ' || c == '\u{85}' || c == '\u{A0}' || c == '\u{1680}'
        || ('\u{2000}' <= c && c <= '\u{200A}') || c == '\u{2028}' || c == '\u{2029}'
        || c == '\u{202F}' || c == '\u{205F}' || c == '\u{3000}'
}

/// The characters of a string slice, in order.
pub fn chars_of(s: &str) -> (res: Vec<char>)
    ensures
        res@ == s@,
{
    let mut res: Vec<char> = Vec::new();
    for c in it: s.chars()
        invariant
            it.seq() == s@,
            res@ == it.seq().take(it.index() as int),
    {
        res.push(c);
    }
    res
}

/// `p` occurs in `s` starting at position `i`.
pub open spec fn match_at(s: Seq<char>, p: Seq<char>, i: int) -> bool {
    0 <= i && i + p.len() <= s.len() && s.subrange(i, i + p.len()) == p
}

/// `s` contains `p`.
pub open spec fn contains(s: Seq<char>, p: Seq<char>) -> bool {
    exists|i: int| match_at(s, p, i)
}

/// The first position at or after `i` where `p` occurs in `s`.
pub open spec fn find_from(s: Seq<char>, p: Seq<char>, i: int) -> Option<int>
    decreases s.len() + 1 - i,
{
    if i < 0 || i + p.len() > s.len() {
        None
    } else if match_at(s, p, i) {
        Some(i)
    } else {
        find_from(s, p, i + 1)
    }
}

/// The first position where `p` occurs in `s` (what `str::find` returns,
/// counted in characters).
pub open spec fn find(s: Seq<char>, p: Seq<char>) -> Option<int> {
    find_from(s, p, 0)
}

pub proof fn lemma_find_from(s: Seq<char>, p: Seq<char>, i: int)
    requires
        0 <= i,
    ensures
        find_from(s, p, i) matches Some(k) ==> {
            &&& i <= k
            &&& match_at(s, p, k)
            &&& forall|j: int| i <= j < k ==> !match_at(s, p, j)
        },
        find_from(s, p, i) is None ==> forall|j: int| i <= j ==> !match_at(s, p, j),
    decreases s.len() + 1 - i,
{
    if i + p.len() <= s.len() && !match_at(s, p, i) {
        lemma_find_from(s, p, i + 1);
    }
}

/// `find` gives the first occurrence, and gives one exactly when `p` occurs.
pub proof fn lemma_find(s: Seq<char>, p: Seq<char>)
    ensures
        find(s, p) is Some <==> contains(s, p),
        find(s, p) matches Some(k) ==> match_at(s, p, k) && forall|j: int|
            0 <= j < k ==> !match_at(s, p, j),
{
    lemma_find_from(s, p, 0);
}

fn matches_at(s: &Vec<char>, p: &Vec<char>, i: usize) -> (r: bool)
    requires
        i + p@.len() <= s@.len(),
    ensures
        r == match_at(s@, p@, i as int),
{
    let mut j: usize = 0;
    while j < p.len()
        invariant
            i + p@.len() <= s@.len(),
            s@.len() == s.len(),
            j <= p@.len(),
            forall|k: int| 0 <= k < j ==> s@[i + k] == p@[k],
        decreases p@.len() - j,
    {
        if s[i + j] != p[j] {
            assert(s@.subrange(i as int, i + p@.len())[j as int] != p@[j as int]);
            return false;
        }
        j = j + 1;
    }
    assert(s@.subrange(i as int, i + p@.len()) =~= p@);
    true
}

/// Position of the first occurrence of `p` in `s`.
pub fn find_chars(s: &Vec<char>, p: &Vec<char>) -> (r: Option<usize>)
    ensures
        match r {
            Some(i) => find(s@, p@) == Some(i as int),
            None => find(s@, p@) is None,
        },
{
    let mut i: usize = 0;
    while p.len() <= s.len() && i <= s.len() - p.len()
        invariant
            i <= s@.len(),
            find(s@, p@) == find_from(s@, p@, i as int),
        decreases s@.len() - i,
    {
        if matches_at(s, p, i) {
            return Some(i);
        }
        assert(p@.len() > 0) by {
            if p@.len() == 0 {
                assert(s@.subrange(i as int, i as int) =~= p@);
            }
        }
        i = i + 1;
    }
    None
}


/// `s` begins with `p`.
pub open spec fn starts_with(s: Seq<char>, p: Seq<char>) -> bool {
    p.len() <= s.len() && s.take(p.len() as int) == p
}

/// What `split(p).next()` gives: the text before the first `p`, or all of `s`.
pub open spec fn before_first(s: Seq<char>, p: Seq<char>) -> Seq<char> {
    match find(s, p) {
        Some(i) => s.take(i),
        None => s,
    }
}

/// The text after the first `p`, if `p` occurs.
pub open spec fn after_first(s: Seq<char>, p: Seq<char>) -> Option<Seq<char>> {
    match find(s, p) {
        Some(i) => Some(s.skip(i + p.len())),
        None => None,
    }
}

/// What `split(p).nth(1)` gives: the text between the first and the second
/// `p` (or the end of `s`), if `p` occurs.
pub open spec fn second_piece(s: Seq<char>, p: Seq<char>) -> Option<Seq<char>> {
    match after_first(s, p) {
        Some(rest) => Some(before_first(rest, p)),
        None => None,
    }
}

/// `s` without its leading whitespace.
pub open spec fn trim_start(s: Seq<char>) -> Seq<char>
    decreases s.len(),
{
    if s.len() > 0 && is_ws(s[0]) {
        trim_start(s.drop_first())
    } else {
        s
    }
}

/// `s` without its trailing whitespace.
pub open spec fn trim_end(s: Seq<char>) -> Seq<char>
    decreases s.len(),
{
    if s.len() > 0 && is_ws(s.last()) {
        trim_end(s.drop_last())
    } else {
        s
    }
}

/// `s` without leading and trailing whitespace (`str::trim`).
pub open spec fn trim(s: Seq<char>) -> Seq<char> {
    trim_end(trim_start(s))
}

proof fn lemma_trim_start_at(s: Seq<char>, a: int)
    requires
        0 <= a <= s.len(),
        forall|k: int| 0 <= k < a ==> is_ws(s[k]),
        a == s.len() || !is_ws(s[a]),
    ensures
        trim_start(s) == s.skip(a),
    decreases a,
{
    if a == 0 {
        assert(s.skip(0) =~= s);
    } else {
        let t = s.drop_first();
        assert forall|k: int| 0 <= k < a - 1 implies is_ws(t[k]) by {
            assert(t[k] == s[k + 1]);
        }
        if a - 1 < t.len() {
            assert(t[a - 1] == s[a]);
        }
        lemma_trim_start_at(t, a - 1);
        assert(t.skip(a - 1) =~= s.skip(a));
    }
}

proof fn lemma_trim_end_at(s: Seq<char>, b: int)
    requires
        0 <= b <= s.len(),
        forall|k: int| b <= k < s.len() ==> is_ws(s[k]),
        b == 0 || !is_ws(s[b - 1]),
    ensures
        trim_end(s) == s.take(b),
    decreases s.len() - b,
{
    if b == s.len() {
        assert(s.take(b) =~= s);
    } else {
        let t = s.drop_last();
        assert forall|k: int| b <= k < t.len() implies is_ws(t[k]) by {
            assert(t[k] == s[k]);
        }
        if b > 0 {
            assert(t[b - 1] == s[b - 1]);
        }
        lemma_trim_end_at(t, b);
        assert(t.take(b) =~= s.take(b));
    }
}

/// Bounds `(a, b)` with `trim(s) == s[a..b]`.
pub fn trim_bounds(s: &Vec<char>) -> (r: (usize, usize))
    ensures
        r.0 <= r.1 <= s@.len(),
        trim(s@) == s@.subrange(r.0 as int, r.1 as int),
        trim_start(s@) == s@.skip(r.0 as int),
{
    let mut a: usize = 0;
    while a < s.len() && is_whitespace(s[a])
        invariant
            a <= s@.len(),
            forall|k: int| 0 <= k < a ==> is_ws(s@[k]),
        decreases s@.len() - a,
    {
        a = a + 1;
    }
    proof {
        lemma_trim_start_at(s@, a as int);
    }
    let mut b: usize = s.len();
    while b > a && is_whitespace(s[b - 1])
        invariant
            a <= b <= s@.len(),
            forall|k: int| b <= k < s@.len() ==> is_ws(s@[k]),
        decreases b,
    {
        b = b - 1;
    }
    proof {
        let t = s@.skip(a as int);
        assert forall|k: int| b - a <= k < t.len() implies is_ws(t[k]) by {
            assert(t[k] == s@[k + a]);
        }
        if b > a {
            assert(t[b - a - 1] == s@[b - 1]);
        }
        lemma_trim_end_at(t, b - a);
        assert(t.take(b - a) =~= s@.subrange(a as int, b as int));
    }
    (a, b)
}

/// The text of `s` between character positions `a` and `b`.
pub fn slice_of(s: &str, a: usize, b: usize) -> (r: String)
    requires
        a <= b <= s@.len(),
    ensures
        r@ == s@.subrange(a as int, b as int),
{
    String::from_str(s.substring_char(a, b))
}


/// The views of a sequence of strings.
pub open spec fn views(v: Seq<String>) -> Seq<Seq<char>> {
    v.map_values(|x: String| x@)
}

/// The pieces of `s` between the occurrences of `c` (`str::split` with a
/// character pattern): one more piece than there are occurrences.
pub open spec fn split_char(s: Seq<char>, c: char) -> Seq<Seq<char>>
    decreases s.len(),
{
    if s.len() == 0 {
        seq![Seq::<char>::empty()]
    } else {
        let prev = split_char(s.drop_last(), c);
        if s.last() == c {
            prev.push(Seq::<char>::empty())
        } else {
            prev.update(prev.len() - 1, prev.last().push(s.last()))
        }
    }
}

pub proof fn lemma_split_char_len(s: Seq<char>, c: char)
    ensures
        split_char(s, c).len() >= 1,
    decreases s.len(),
{
    if s.len() > 0 {
        lemma_split_char_len(s.drop_last(), c);
    }
}

/// A line without the `'\r'` that ended it.
pub open spec fn strip_cr(l: Seq<char>) -> Seq<char> {
    if l.len() > 0 && l.last() == '\r' {
        l.drop_last()
    } else {
        l
    }
}

/// The lines of `s` as `str::lines` gives them: split at `'\n'`, a final
/// line ending is optional, and a `'\r'` just before a `'\n'` is dropped.
pub open spec fn lines(s: Seq<char>) -> Seq<Seq<char>> {
    if s.len() == 0 {
        Seq::empty()
    } else {
        let parts = split_char(s, '\n');
        let ended = parts.drop_last().map_values(|l: Seq<char>| strip_cr(l));
        if s.last() == '\n' {
            ended
        } else {
            ended.push(parts.last())
        }
    }
}

/// The pieces of `s` between the occurrences of `c`.
pub fn split_at_char(s: &str, c: char) -> (r: Vec<String>)
    ensures
        views(r@) == split_char(s@, c),
{
    let cs = chars_of(s);
    let mut pieces: Vec<String> = Vec::new();
    let mut start: usize = 0;
    let mut j: usize = 0;
    assert(s@.take(0).len() == 0);
    assert(s@.subrange(0, 0) =~= Seq::<char>::empty());
    assert(views(pieces@) =~= Seq::<Seq<char>>::empty());
    assert(split_char(s@.take(0), c) == seq![Seq::<char>::empty()]);
    assert(views(pieces@).push(s@.subrange(0, 0)) =~= split_char(s@.take(0), c));
    while j < cs.len()
        invariant
            cs@ == s@,
            start <= j <= cs@.len(),
            views(pieces@).push(s@.subrange(start as int, j as int)) == split_char(
                s@.take(j as int),
                c,
            ),
        decreases cs@.len() - j,
    {
        let ghost prev = s@.take(j as int);
        let ghost before = views(pieces@);
        assert(s@.take(j + 1).drop_last() =~= prev);
        assert(s@.take(j + 1).last() == s@[j as int]);
        assert(split_char(s@.take(j + 1), c) == {
            let p = split_char(s@.take(j + 1).drop_last(), c);
            if s@.take(j + 1).last() == c {
                p.push(Seq::<char>::empty())
            } else {
                p.update(p.len() - 1, p.last().push(s@.take(j + 1).last()))
            }
        });
        if cs[j] == c {
            let piece = slice_of(s, start, j);
            pieces.push(piece);
            assert(views(pieces@) =~= before.push(s@.subrange(start as int, j as int)));
            assert(s@.subrange(j + 1, j + 1) =~= Seq::<char>::empty());
            assert(views(pieces@).push(s@.subrange(j + 1, j + 1)) =~= split_char(
                s@.take(j + 1),
                c,
            ));
            start = j + 1;
        } else {
            assert(s@.subrange(start as int, j + 1) =~= s@.subrange(start as int, j as int).push(
                s@[j as int],
            ));
            assert(views(pieces@).push(s@.subrange(start as int, j + 1)) =~= split_char(
                s@.take(j + 1),
                c,
            ));
        }
        j = j + 1;
    }
    let ghost before = views(pieces@);
    let last = slice_of(s, start, cs.len());
    pieces.push(last);
    assert(views(pieces@) =~= before.push(s@.subrange(start as int, cs@.len() as int)));
    assert(s@.take(cs@.len() as int) =~= s@);
    assert(views(pieces@) =~= split_char(s@, c));
    pieces
}


fn strip_cr_of(l: &str) -> (r: String)
    ensures
        r@ == strip_cr(l@),
{
    let cs = chars_of(l);
    let n = cs.len();
    if n > 0 && cs[n - 1] == '\r' {
        assert(l@.subrange(0, n - 1) =~= l@.drop_last());
        slice_of(l, 0, n - 1)
    } else {
        assert(l@.subrange(0, n as int) =~= l@);
        slice_of(l, 0, n)
    }
}

/// The lines of `s` (`str::lines`).
pub fn split_lines(s: &str) -> (r: Vec<String>)
    ensures
        views(r@) == lines(s@),
{
    let cs = chars_of(s);
    let mut out: Vec<String> = Vec::new();
    if cs.len() == 0 {
        assert(views(out@) =~= lines(s@));
        return out;
    }
    let parts = split_at_char(s, '\n');
    proof {
        lemma_split_char_len(s@, '\n');
    }
    let n = parts.len() - 1;
    let ghost all = split_char(s@, '\n');
    let mut i: usize = 0;
    while i < n
        invariant
            n + 1 == parts@.len(),
            views(parts@) == all,
            all == split_char(s@, '\n'),
            i <= n,
            views(out@) == all.drop_last().take(i as int).map_values(|l: Seq<char>| strip_cr(l)),
        decreases n - i,
    {
        let ghost before = views(out@);
        let line = strip_cr_of(parts[i].as_str());
        let ghost lv = line@;
        out.push(line);
        assert(parts@[i as int]@ == views(parts@)[i as int]);
        assert(lv == strip_cr(all.drop_last()[i as int]));
        assert(views(out@) =~= before.push(lv));
        assert(views(out@) =~= all.drop_last().take(i + 1).map_values(|l: Seq<char>| strip_cr(l)));
        i = i + 1;
    }
    assert(all.drop_last().take(n as int) =~= all.drop_last());
    if cs[cs.len() - 1] != '\n' {
        let ghost before = views(out@);
        let last = parts[n].clone();
        let ghost lv = last@;
        out.push(last);
        assert(lv == all.last());
        assert(views(out@) =~= before.push(lv));
    }
    out
}

/// `s` contains `p` (`str::contains`).
pub fn contains_text(s: &str, p: &str) -> (r: bool)
    ensures
        r == contains(s@, p@),
{
    let cs = chars_of(s);
    let ps = chars_of(p);
    proof {
        lemma_find(s@, p@);
    }
    find_chars(&cs, &ps).is_some()
}

/// `s` without leading and trailing whitespace (`str::trim`).
pub fn trimmed(s: &str) -> (r: String)
    ensures
        r@ == trim(s@),
{
    let cs = chars_of(s);
    let (a, b) = trim_bounds(&cs);
    slice_of(s, a, b)
}

/// The text before the first `p` (`split(p).next()`).
pub fn before_first_of(s: &str, p: &str) -> (r: String)
    ensures
        r@ == before_first(s@, p@),
{
    let cs = chars_of(s);
    let ps = chars_of(p);
    proof {
        lemma_find(s@, p@);
    }
    match find_chars(&cs, &ps) {
        Some(i) => {
            assert(s@.subrange(0, i as int) =~= s@.take(i as int));
            slice_of(s, 0, i)
        },
        None => {
            assert(s@.subrange(0, cs@.len() as int) =~= s@);
            slice_of(s, 0, cs.len())
        },
    }
}

/// The text after the first `p`, if `p` occurs.
pub fn after_first_of(s: &str, p: &str) -> (r: Option<String>)
    ensures
        match r {
            Some(t) => after_first(s@, p@) == Some(t@),
            None => after_first(s@, p@) is None,
        },
{
    let cs = chars_of(s);
    let ps = chars_of(p);
    proof {
        lemma_find(s@, p@);
    }
    match find_chars(&cs, &ps) {
        Some(i) => {
            assert(match_at(s@, p@, i as int));
            assert(i + ps@.len() <= cs@.len() && cs@.len() == cs.len() && ps@.len() == ps.len());
            let k = i + ps.len();
            assert(s@.subrange(k as int, cs@.len() as int) =~= s@.skip(k as int));
            Some(slice_of(s, k, cs.len()))
        },
        None => None,
    }
}

/// The text between the first and second `p` (`split(p).nth(1)`).
pub fn second_piece_of(s: &str, p: &str) -> (r: Option<String>)
    ensures
        match r {
            Some(t) => second_piece(s@, p@) == Some(t@),
            None => second_piece(s@, p@) is None,
        },
{
    match after_first_of(s, p) {
        Some(rest) => Some(before_first_of(rest.as_str(), p)),
        None => None,
    }
}

/// `s` begins with `p` (`str::starts_with`).
pub fn begins_with(s: &str, p: &str) -> (r: bool)
    ensures
        r == starts_with(s@, p@),
{
    let cs = chars_of(s);
    let ps = chars_of(p);
    if ps.len() > cs.len() {
        return false;
    }
    let m = matches_at(&cs, &ps, 0);
    assert(s@.subrange(0, ps@.len() as int) =~= s@.take(ps@.len() as int));
    m
}


/// `s` contains the character `c`.
pub fn has_char(s: &str, c: char) -> (r: bool)
    ensures
        r == s@.contains(c),
{
    let cs = chars_of(s);
    let mut i: usize = 0;
    while i < cs.len()
        invariant
            cs@ == s@,
            i <= cs@.len(),
            forall|k: int| 0 <= k < i ==> cs@[k] != c,
        decreases cs@.len() - i,
    {
        if cs[i] == c {
            assert(s@[i as int] == c);
            return true;
        }
        i = i + 1;
    }
    false
}

/// `s` is non-empty and its first character is `c`.
pub fn first_char_is(s: &str, c: char) -> (r: bool)
    ensures
        r == (s@.len() > 0 && s@[0] == c),
{
    let cs = chars_of(s);
    cs.len() > 0 && cs[0] == c
}


/// The whitespace-separated words of `s` (`str::split_whitespace`).
pub open spec fn words(s: Seq<char>) -> Seq<Seq<char>>
    decreases s.len(),
{
    if s.len() == 0 {
        Seq::empty()
    } else {
        let w = words(s.drop_last());
        if is_ws(s.last()) {
            w
        } else if s.len() >= 2 && !is_ws(s[s.len() - 2]) {
            w.update(w.len() - 1, w.last().push(s.last()))
        } else {
            w.push(seq![s.last()])
        }
    }
}

pub proof fn lemma_words_nonempty_tail(s: Seq<char>)
    ensures
        s.len() > 0 && !is_ws(s.last()) ==> words(s).len() > 0,
        s.len() >= 2 && !is_ws(s[s.len() - 2]) ==> words(s.drop_last()).len() > 0,
    decreases s.len(),
{
    if s.len() >= 2 {
        let t = s.drop_last();
        lemma_words_nonempty_tail(t);
        assert(t.last() == s[s.len() - 2]);
    }
}

/// The whitespace-separated words of `s`.
pub fn words_of(s: &str) -> (r: Vec<String>)
    ensures
        views(r@) == words(s@),
{
    let cs = chars_of(s);
    let mut out: Vec<String> = Vec::new();
    let mut start: usize = 0;
    let mut in_word = false;
    let mut j: usize = 0;
    assert(words(s@.take(0)) =~= Seq::<Seq<char>>::empty());
    assert(views(out@) =~= Seq::<Seq<char>>::empty());
    while j < cs.len()
        invariant
            cs@ == s@,
            start <= j <= cs@.len(),
            in_word ==> start < j && !is_ws(s@[j - 1]),
            !in_word ==> (j == 0 || is_ws(s@[j - 1])),
            in_word ==> forall|k: int| start <= k < j ==> !is_ws(#[trigger] s@[k]),
            in_word ==> (start == 0 || is_ws(s@[start - 1])),
            in_word ==> views(out@).push(s@.subrange(start as int, j as int)) == words(
                s@.take(j as int),
            ),
            !in_word ==> views(out@) == words(s@.take(j as int)),
        decreases cs@.len() - j,
    {
        let ghost t = s@.take(j + 1);
        assert(t.drop_last() =~= s@.take(j as int));
        assert(t.last() == s@[j as int]);
        if j >= 1 {
            assert(t[t.len() - 2] == s@[j - 1]);
        }
        if is_whitespace(cs[j]) {
            if in_word {
                let ghost before = views(out@);
                let w = slice_of(s, start, j);
                out.push(w);
                assert(views(out@) =~= before.push(s@.subrange(start as int, j as int)));
            }
            in_word = false;
        } else {
            if !in_word {
                start = j;
                assert(s@.subrange(j as int, j + 1) =~= seq![s@[j as int]]);
            } else {
                proof {
                    lemma_words_nonempty_tail(t);
                }
                assert(s@.subrange(start as int, j + 1) =~= s@.subrange(start as int, j as int).push(
                    s@[j as int],
                ));
            }
            in_word = true;
        }
        j = j + 1;
    }
    assert(s@.take(cs@.len() as int) =~= s@);
    if in_word {
        let ghost before = views(out@);
        let w = slice_of(s, start, cs.len());
        out.push(w);
        assert(views(out@) =~= before.push(s@.subrange(start as int, cs@.len() as int)));
    }
    out
}


/// `a` and `b` hold the same text.
pub fn same_text(a: &str, b: &str) -> (r: bool)
    ensures
        r == (a@ == b@),
{
    let ac = chars_of(a);
    let bc = chars_of(b);
    if ac.len() != bc.len() {
        return false;
    }
    let m = matches_at(&ac, &bc, 0);
    assert(a@.subrange(0, bc@.len() as int) =~= a@);
    m
}

/// The text of `a` followed by that of `b`.
pub fn concat_text(a: &str, b: &str) -> (r: String)
    ensures
        r@ == a@ + b@,
{
    let mut r = String::from_str(a);
    r.append(b);
    r
}


/// `items` joined with `sep` between each two (`join`).
pub open spec fn join_with(items: Seq<Seq<char>>, sep: Seq<char>) -> Seq<char>
    decreases items.len(),
{
    if items.len() == 0 {
        Seq::empty()
    } else if items.len() == 1 {
        items[0]
    } else {
        join_with(items.drop_last(), sep) + sep + items.last()
    }
}

/// `items` joined with `sep` between each two.
pub fn join_texts(items: &[String], sep: &str) -> (r: String)
    ensures
        r@ == join_with(views(items@), sep@),
{
    let mut out = String::new();
    let mut i: usize = 0;
    assert(views(items@).take(0) =~= Seq::<Seq<char>>::empty());
    while i < items.len()
        invariant
            i <= items@.len(),
            out@ == join_with(views(items@).take(i as int), sep@),
        decreases items@.len() - i,
    {
        let ghost pre = views(items@).take(i + 1);
        assert(pre.drop_last() =~= views(items@).take(i as int));
        assert(pre.last() == items@[i as int]@);
        if i > 0 {
            out.append(sep);
        } else {
            assert(out@ =~= Seq::<char>::empty());
            assert(pre =~= seq![items@[i as int]@]);
        }
        out.append(items[i].as_str());
        assert(out@ =~= join_with(pre, sep@));
        i = i + 1;
    }
    assert(views(items@).take(items@.len() as int) =~= views(items@));
    out
}

/// If no match of `p` starts in `[i, k)`, searching from `i` is searching from `k`.
pub proof fn lemma_find_from_skip(s: Seq<char>, p: Seq<char>, i: int, k: int)
    requires
        0 <= i <= k,
        k + p.len() <= s.len(),
        forall|j: int| i <= j < k ==> !match_at(s, p, j),
    ensures
        find_from(s, p, i) == find_from(s, p, k),
    decreases k - i,
{
    if i < k {
        lemma_find_from_skip(s, p, i + 1, k);
    }
}

} // verus!
