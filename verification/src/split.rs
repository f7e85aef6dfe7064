//! Splitting and searching text: `split_whitespace`, `split`, `lines`,
//! `find`, `rfind`, `split_once` and `join`.
use vstd::prelude::*;

use crate::text::{append, chars_of, is_whitespace, is_ws, slice_chars, views};

verus! {

/// `str::split_whitespace`: the maximal runs of non-whitespace characters.
/// Stated one character at a time: a whitespace character adds nothing, a
/// non-whitespace character extends the last word when it follows another
/// non-whitespace character, and starts a new word otherwise.
pub open spec fn words(s: Seq<char>) -> Seq<Seq<char>>
    decreases s.len(),
{
    if s.len() == 0 {
        seq![]
    } else {
        let w = words(s.drop_last());
        let c = s.last();
        if is_ws(c) {
            w
        } else if s.len() >= 2 && !is_ws(s[s.len() - 2]) {
            w.update(w.len() - 1, w.last().push(c))
        } else {
            w.push(seq![c])
        }
    }
}

/// `str::split(sep)` for a single character separator: there is always one
/// more piece than there are separators.
pub open spec fn split_on(s: Seq<char>, sep: char) -> Seq<Seq<char>>
    decreases s.len(),
{
    if s.len() == 0 {
        seq![seq![]]
    } else {
        let p = split_on(s.drop_last(), sep);
        if s.last() == sep {
            p.push(seq![])
        } else {
            p.update(p.len() - 1, p.last().push(s.last()))
        }
    }
}

/// Removes one trailing carriage return.
pub open spec fn strip_cr(l: Seq<char>) -> Seq<char> {
    if l.len() > 0 && l.last() == '\r' {
        l.drop_last()
    } else {
        l
    }
}

/// `str::lines`: pieces between `\n`, each line ending being `\n` or `\r\n`;
/// a final empty piece (text ending in a line ending, or empty text) is not
/// a line.
pub open spec fn lines(s: Seq<char>) -> Seq<Seq<char>> {
    let p = split_on(s, '\n');
    let body = p.drop_last().map_values(|l: Seq<char>| strip_cr(l));
    if p.last().len() == 0 {
        body
    } else {
        body.push(p.last())
    }
}

/// Index of the first occurrence of `c` in `s` (`str::find` with a char).
pub open spec fn find_char(s: Seq<char>, c: char) -> Option<int>
    decreases s.len(),
{
    if s.len() == 0 {
        None
    } else if s[0] == c {
        Some(0)
    } else {
        match find_char(s.drop_first(), c) {
            Some(i) => Some(i + 1),
            None => None,
        }
    }
}

/// Index of the last occurrence of `c` in `s` (`str::rfind` with a char).
pub open spec fn rfind_char(s: Seq<char>, c: char) -> Option<int>
    decreases s.len(),
{
    if s.len() == 0 {
        None
    } else if s.last() == c {
        Some(s.len() - 1)
    } else {
        rfind_char(s.drop_last(), c)
    }
}

/// `str::split_once(c)`.
pub open spec fn split_once(s: Seq<char>, c: char) -> Option<(Seq<char>, Seq<char>)> {
    match find_char(s, c) {
        Some(i) => Some((s.take(i), s.skip(i + 1))),
        None => None,
    }
}

/// `str::rsplit_once(c)`.
pub open spec fn rsplit_once(s: Seq<char>, c: char) -> Option<(Seq<char>, Seq<char>)> {
    match rfind_char(s, c) {
        Some(i) => Some((s.take(i), s.skip(i + 1))),
        None => None,
    }
}

pub open spec fn matches_at(s: Seq<char>, p: Seq<char>, i: int) -> bool {
    0 <= i && i + p.len() <= s.len() && s.subrange(i, i + p.len()) == p
}

/// First position at or after `i` where `p` occurs.
pub open spec fn find_sub_from(s: Seq<char>, p: Seq<char>, i: int) -> Option<int>
    decreases s.len() + 1 - i,
{
    if i < 0 || i + p.len() > s.len() {
        None
    } else if matches_at(s, p, i) {
        Some(i)
    } else {
        find_sub_from(s, p, i + 1)
    }
}

/// `str::find` with a string pattern.
pub open spec fn find_sub(s: Seq<char>, p: Seq<char>) -> Option<int> {
    find_sub_from(s, p, 0)
}

/// `str::contains` with a string pattern.
pub open spec fn contains(s: Seq<char>, p: Seq<char>) -> bool {
    find_sub(s, p) is Some
}

/// `str::split_once` with a string pattern.
pub open spec fn split_once_sub(s: Seq<char>, p: Seq<char>) -> Option<(Seq<char>, Seq<char>)> {
    match find_sub(s, p) {
        Some(i) => Some((s.take(i), s.skip(i + p.len()))),
        None => None,
    }
}

/// The pieces of `parts` joined with `sep` between consecutive pieces.
pub open spec fn join(parts: Seq<Seq<char>>, sep: Seq<char>) -> Seq<char>
    decreases parts.len(),
{
    if parts.len() == 0 {
        seq![]
    } else if parts.len() == 1 {
        parts[0]
    } else {
        join(parts.drop_last(), sep) + sep + parts.last()
    }
}

/// The pieces of `split_on(s, sep)` at its two ends: there is at least one
/// piece, a single piece is all of `s`, the first piece is a prefix of `s`
/// and the last piece a suffix.
pub proof fn lemma_split_on_ends(s: Seq<char>, sep: char)
    ensures
        split_on(s, sep).len() >= 1,
        split_on(s, sep).len() == 1 ==> split_on(s, sep)[0] == s,
        split_on(s, sep)[0].len() <= s.len(),
        split_on(s, sep)[0] =~= s.take(split_on(s, sep)[0].len() as int),
        split_on(s, sep).last().len() <= s.len(),
        split_on(s, sep).last() =~= s.skip(s.len() - split_on(s, sep).last().len()),
    decreases s.len(),
{
    if s.len() > 0 {
        let t = s.drop_last();
        lemma_split_on_ends(t, sep);
        let p = split_on(t, sep);
        let c = s.last();
        if c == sep {
            assert(split_on(s, sep) == p.push(seq![]));
            assert(s.take(p[0].len() as int) =~= t.take(p[0].len() as int));
        } else {
            let q = p.update(p.len() - 1, p.last().push(c));
            assert(split_on(s, sep) == q);
            if p.len() == 1 {
                assert(q[0] =~= s);
            } else {
                assert(q[0] == p[0]);
                assert(s.take(p[0].len() as int) =~= t.take(p[0].len() as int));
            }
            assert(q.last() =~= s.skip(s.len() - q.last().len()));
        }
    }
}

/// `str::split_whitespace`.
pub fn words_of(s: &Vec<char>) -> (r: Vec<Vec<char>>)
    ensures
        views(r@) == words(s@),
{
    let mut out: Vec<Vec<char>> = Vec::new();
    let mut cur: Vec<char> = Vec::new();
    let n = s.len();
    for i in 0..n
        invariant
            n == s@.len(),
            words(s@.take(i as int)) == (if cur@.len() > 0 {
                views(out@).push(cur@)
            } else {
                views(out@)
            }),
            cur@.len() > 0 <==> (i > 0 && !is_ws(s@[i - 1])),
    {
        let c = s[i];
        assert(s@.take(i + 1).drop_last() =~= s@.take(i as int));
        let ghost od = views(out@);
        if is_whitespace(c) {
            if cur.len() > 0 {
                let ghost cv = cur@;
                out.push(cur);
                assert(views(out@) =~= od.push(cv));
                cur = Vec::new();
            }
        } else {
            if cur.len() > 0 {
                let ghost cv = cur@;
                cur.push(c);
                assert(od.push(cv).update(od.len() as int, cv.push(c)) =~= od.push(cur@));
            } else {
                cur.push(c);
                assert(cur@ =~= seq![c]);
            }
        }
    }
    assert(s@.take(n as int) =~= s@);
    if cur.len() > 0 {
        let ghost od = views(out@);
        let ghost cv = cur@;
        out.push(cur);
        assert(views(out@) =~= od.push(cv));
    }
    out
}

/// `str::split(sep)`.
pub fn split_chars(s: &Vec<char>, sep: char) -> (r: Vec<Vec<char>>)
    ensures
        views(r@) == split_on(s@, sep),
        r@.len() >= 1,
{
    let mut out: Vec<Vec<char>> = Vec::new();
    let mut cur: Vec<char> = Vec::new();
    let n = s.len();
    assert(s@.take(0) =~= Seq::<char>::empty());
    assert(views(out@).push(cur@) =~= seq![seq![]]);
    for i in 0..n
        invariant
            n == s@.len(),
            split_on(s@.take(i as int), sep) == views(out@).push(cur@),
    {
        let c = s[i];
        assert(s@.take(i + 1).drop_last() =~= s@.take(i as int));
        let ghost od = views(out@);
        let ghost cv = cur@;
        if c == sep {
            out.push(cur);
            assert(views(out@) =~= od.push(cv));
            cur = Vec::new();
            assert(views(out@).push(cur@) =~= od.push(cv).push(seq![]));
        } else {
            cur.push(c);
            assert(od.push(cv).update(od.len() as int, cv.push(c)) =~= od.push(cur@));
        }
    }
    assert(s@.take(n as int) =~= s@);
    let ghost od = views(out@);
    let ghost cv = cur@;
    out.push(cur);
    assert(views(out@) =~= od.push(cv));
    out
}

/// `str::lines`.
pub fn lines_of(s: &Vec<char>) -> (r: Vec<Vec<char>>)
    ensures
        views(r@) == lines(s@),
{
    let pieces = split_chars(s, '\n');
    let ghost p = split_on(s@, '\n');
    let n = pieces.len();
    let mut out: Vec<Vec<char>> = Vec::new();
    let mut i: usize = 0;
    while i + 1 < n
        invariant
            n == pieces@.len() >= 1,
            views(pieces@) == p,
            i + 1 <= n,
            views(out@) =~= p.take(i as int).map_values(|l: Seq<char>| strip_cr(l)),
        decreases n - i,
    {
        let piece = &pieces[i];
        let ghost od = views(out@);
        assert(piece@ == p[i as int]);
        let len = piece.len();
        let item: Vec<char>;
        if len > 0 && piece[len - 1] == '\r' {
            item = slice_chars(piece, 0, len - 1);
            assert(item@ =~= strip_cr(p[i as int]));
        } else {
            item = piece.clone();
        }
        let ghost iv = item@;
        out.push(item);
        assert(views(out@) =~= od.push(iv));
        assert(p.take(i + 1) =~= p.take(i as int).push(p[i as int]));
        assert(views(out@) =~= p.take(i + 1).map_values(|l: Seq<char>| strip_cr(l)));
        i = i + 1;
    }
    assert(p.take(i as int) =~= p.drop_last());
    let last = &pieces[n - 1];
    assert(last@ == p.last());
    if last.len() > 0 {
        let ghost od = views(out@);
        let lc = last.clone();
        out.push(lc);
        assert(views(out@) =~= od.push(last@));
    }
    out
}

/// `str::find` with a character.
pub fn find_char_in(s: &Vec<char>, c: char) -> (r: Option<usize>)
    ensures
        match r {
            Some(i) => find_char(s@, c) == Some(i as int),
            None => find_char(s@, c) is None,
        },
{
    let n = s.len();
    let mut i: usize = 0;
    assert(s@.skip(0) =~= s@);
    while i < n
        invariant
            n == s@.len(),
            i <= n,
            find_char(s@, c) == (match find_char(s@.skip(i as int), c) {
                Some(k) => Some(k + i),
                None => None,
            }),
        decreases n - i,
    {
        if s[i] == c {
            return Some(i);
        }
        assert(s@.skip(i as int).drop_first() =~= s@.skip(i + 1));
        i = i + 1;
    }
    assert(s@.skip(i as int).len() == 0);
    None
}

/// `str::rfind` with a character.
pub fn rfind_char_in(s: &Vec<char>, c: char) -> (r: Option<usize>)
    ensures
        match r {
            Some(i) => rfind_char(s@, c) == Some(i as int),
            None => rfind_char(s@, c) is None,
        },
{
    let n = s.len();
    let mut j: usize = n;
    assert(s@.take(n as int) =~= s@);
    while j > 0
        invariant
            n == s@.len(),
            j <= n,
            rfind_char(s@, c) == rfind_char(s@.take(j as int), c),
        decreases j,
    {
        if s[j - 1] == c {
            return Some(j - 1);
        }
        assert(s@.take(j as int).drop_last() =~= s@.take(j - 1));
        j = j - 1;
    }
    None
}

pub proof fn lemma_find_char_bound(s: Seq<char>, c: char)
    ensures
        find_char(s, c) matches Some(i) ==> 0 <= i < s.len() && s[i] == c,
    decreases s.len(),
{
    if s.len() > 0 && s[0] != c {
        lemma_find_char_bound(s.drop_first(), c);
    }
}

pub proof fn lemma_rfind_char_bound(s: Seq<char>, c: char)
    ensures
        rfind_char(s, c) matches Some(i) ==> 0 <= i < s.len() && s[i] == c,
    decreases s.len(),
{
    if s.len() > 0 && s.last() != c {
        lemma_rfind_char_bound(s.drop_last(), c);
    }
}

/// Appending text `y` without separators to `x` extends the last piece of
/// `split_on(x, sep)` by `y`, and keeps the other pieces.
pub proof fn lemma_split_on_append_plain(x: Seq<char>, y: Seq<char>, sep: char)
    requires
        forall|k: int| 0 <= k < y.len() ==> y[k] != sep,
    ensures
        split_on(x + y, sep).len() == split_on(x, sep).len(),
        split_on(x + y, sep).last() == split_on(x, sep).last() + y,
        split_on(x + y, sep).drop_last() == split_on(x, sep).drop_last(),
    decreases y.len(),
{
    lemma_split_on_ends(x, sep);
    if y.len() == 0 {
        assert(x + y =~= x);
    } else {
        let z = y.drop_last();
        lemma_split_on_append_plain(x, z, sep);
        assert((x + y).drop_last() =~= x + z);
        assert((x + y).last() == y.last());
        assert(split_on(x, sep).last() + z + seq![y.last()] =~= split_on(x, sep).last() + y);
        let p = split_on(x + z, sep);
        lemma_split_on_ends(x + z, sep);
        let q = p.update(p.len() - 1, p.last().push(y.last()));
        assert(split_on(x + y, sep) == q);
        assert(q.drop_last() =~= p.drop_last());
    }
}

/// Joining pieces that hold no separator with that separator, then
/// splitting on it, gives the pieces back.
pub proof fn lemma_split_on_join(parts: Seq<Seq<char>>, sep: char)
    requires
        parts.len() >= 1,
        forall|i: int, k: int| 0 <= i < parts.len() && 0 <= k < parts[i].len() ==> #[trigger] parts[i][k] != sep,
    ensures
        split_on(join(parts, seq![sep]), sep) == parts,
    decreases parts.len(),
{
    let last = parts.last();
    assert(forall|k: int| 0 <= k < last.len() ==> last[k] != sep) by {
        assert forall|k: int| 0 <= k < last.len() implies last[k] != sep by {
            assert(parts[parts.len() - 1][k] != sep);
        }
    }
    if parts.len() == 1 {
        let e = Seq::<char>::empty();
        lemma_split_on_append_plain(e, last, sep);
        assert(e + last =~= last);
        assert(split_on(e, sep) == seq![e]);
        assert(join(parts, seq![sep]) == parts[0]);
        assert(split_on(last, sep) =~= parts);
    } else {
        let init = parts.drop_last();
        assert forall|i: int, k: int| 0 <= i < init.len() && 0 <= k < init[i].len() implies #[trigger] init[i][k] != sep by {
            assert(init[i] == parts[i]);
            assert(parts[i][k] != sep);
        }
        lemma_split_on_join(init, sep);
        let j = join(init, seq![sep]);
        let x = j + seq![sep];
        assert(join(parts, seq![sep]) == x + last);
        assert(x.drop_last() =~= j);
        assert(split_on(x, sep) == split_on(j, sep).push(seq![]));
        lemma_split_on_append_plain(x, last, sep);
        assert(Seq::<char>::empty() + last =~= last);
        let r = split_on(x + last, sep);
        assert(split_on(x, sep).drop_last() =~= split_on(j, sep));
        assert(r.drop_last() == init);
        assert(r.last() == last);
        assert(r.len() == parts.len());
        assert forall|i: int| 0 <= i < r.len() implies r[i] == parts[i] by {
            if i < r.len() - 1 {
                assert(r[i] == r.drop_last()[i]);
                assert(init[i] == parts[i]);
            }
        }
        assert(r =~= parts);
    }
}

/// Writing lines that hold no line break, each followed by `\n`, and reading
/// the text back line by line gives the same lines, as long as none ends in
/// a carriage return (which a line ending `\r\n` would take).
pub proof fn lemma_lines_of_joined(ls: Seq<Seq<char>>)
    requires
        ls.len() >= 1,
        forall|i: int, k: int| 0 <= i < ls.len() && 0 <= k < ls[i].len() ==> #[trigger] ls[i][k] != '\n',
        forall|i: int| 0 <= i < ls.len() && (#[trigger] ls[i]).len() > 0 ==> ls[i].last() != '\r',
    ensures
        lines(join(ls, seq!['\n']) + seq!['\n']) == ls,
{
    let j = join(ls, seq!['\n']);
    let t = j + seq!['\n'];
    lemma_split_on_join(ls, '\n');
    assert(t.drop_last() =~= j);
    assert(split_on(t, '\n') == ls.push(seq![]));
    assert(ls.push(seq![]).drop_last() =~= ls);
    assert forall|i: int| 0 <= i < ls.len() implies strip_cr(ls[i]) == ls[i] by {
        if ls[i].len() > 0 {
            assert(ls[i].last() != '\r');
        }
    }
    assert(ls.map_values(|l: Seq<char>| strip_cr(l)) =~= ls);
}

/// The last `c` of `x + c + y`, where `y` holds no `c`, is the one between
/// them.
pub proof fn lemma_rfind_char_before_plain(x: Seq<char>, c: char, y: Seq<char>)
    requires
        forall|k: int| 0 <= k < y.len() ==> y[k] != c,
    ensures
        rfind_char(x + seq![c] + y, c) == Some(x.len() as int),
    decreases y.len(),
{
    let s = x + seq![c] + y;
    if y.len() == 0 {
        assert(s.last() == c);
        assert(s.len() - 1 == x.len());
    } else {
        let z = y.drop_last();
        assert(s.last() == y.last());
        assert(y[y.len() - 1] != c);
        assert(s.drop_last() =~= x + seq![c] + z);
        lemma_rfind_char_before_plain(x, c, z);
    }
}

/// A pattern that occurs at `k` is found searching from any `i <= k`.
pub proof fn lemma_find_sub_reaches(s: Seq<char>, p: Seq<char>, i: int, k: int)
    requires
        0 <= i <= k,
        matches_at(s, p, k),
    ensures
        find_sub_from(s, p, i) is Some,
    decreases k - i,
{
    if !matches_at(s, p, i) {
        lemma_find_sub_reaches(s, p, i + 1, k);
    }
}

pub proof fn lemma_find_sub_bound(s: Seq<char>, p: Seq<char>, i: int)
    ensures
        find_sub_from(s, p, i) matches Some(k) ==> i <= k && matches_at(s, p, k),
    decreases s.len() + 1 - i,
{
    if !(i < 0 || i + p.len() > s.len()) && !matches_at(s, p, i) {
        lemma_find_sub_bound(s, p, i + 1);
    }
}

/// `str::split_once` with a character.
pub fn split_once_char(s: &Vec<char>, c: char) -> (r: Option<(Vec<char>, Vec<char>)>)
    ensures
        match r {
            Some((a, b)) => split_once(s@, c) == Some((a@, b@)),
            None => split_once(s@, c) is None,
        },
{
    let n = s.len();
    match find_char_in(s, c) {
        Some(i) => {
            proof {
                lemma_find_char_bound(s@, c);
            }
            let a = slice_chars(s, 0, i);
            let b = slice_chars(s, i + 1, n);
            assert(a@ =~= s@.take(i as int));
            assert(b@ =~= s@.skip(i + 1));
            Some((a, b))
        },
        None => None,
    }
}

/// `str::rsplit_once` with a character.
pub fn rsplit_once_char(s: &Vec<char>, c: char) -> (r: Option<(Vec<char>, Vec<char>)>)
    ensures
        match r {
            Some((a, b)) => rsplit_once(s@, c) == Some((a@, b@)),
            None => rsplit_once(s@, c) is None,
        },
{
    let n = s.len();
    match rfind_char_in(s, c) {
        Some(i) => {
            proof {
                lemma_rfind_char_bound(s@, c);
            }
            let a = slice_chars(s, 0, i);
            let b = slice_chars(s, i + 1, n);
            assert(a@ =~= s@.take(i as int));
            assert(b@ =~= s@.skip(i + 1));
            Some((a, b))
        },
        None => None,
    }
}

/// Whether `p` occurs in `s` at position `i`.
pub fn matches_at_pos(s: &Vec<char>, p: &Vec<char>, i: usize) -> (r: bool)
    requires
        i <= s@.len(),
    ensures
        r == matches_at(s@, p@, i as int),
{
    let sl = s.len();
    let pl = p.len();
    if pl > sl - i {
        return false;
    }
    for k in 0..pl
        invariant
            sl == s@.len(),
            pl == p@.len(),
            i + pl <= sl,
            forall|m: int| 0 <= m < k ==> s@[i + m] == p@[m],
    {
        let idx: usize = i + k;
        if s[idx] != p[k] {
            assert(s@.subrange(i as int, i + pl)[k as int] != p@[k as int]);
            return false;
        }
    }
    assert(s@.subrange(i as int, i + pl) =~= p@);
    true
}

/// `str::find` with a string pattern.
pub fn find_sub_in(s: &Vec<char>, p: &Vec<char>) -> (r: Option<usize>)
    ensures
        match r {
            Some(i) => find_sub(s@, p@) == Some(i as int),
            None => find_sub(s@, p@) is None,
        },
{
    let n = s.len();
    let pl = p.len();
    let mut i: usize = 0;
    while i < n
        invariant
            n == s@.len(),
            pl == p@.len(),
            i <= n,
            find_sub(s@, p@) == find_sub_from(s@, p@, i as int),
        decreases n - i,
    {
        if pl > n - i {
            return None;
        }
        if matches_at_pos(s, p, i) {
            return Some(i);
        }
        i = i + 1;
    }
    if pl == 0 {
        assert(s@.subrange(n as int, n as int) =~= p@);
        Some(n)
    } else {
        None
    }
}

/// `str::contains` with a string pattern.
pub fn contains_str(s: &Vec<char>, p: &str) -> (r: bool)
    ensures
        r == contains(s@, p@),
{
    let pv = chars_of(p);
    find_sub_in(s, &pv).is_some()
}

/// `str::split_once` with a string pattern.
pub fn split_once_str(s: &Vec<char>, p: &Vec<char>) -> (r: Option<(Vec<char>, Vec<char>)>)
    ensures
        match r {
            Some((a, b)) => split_once_sub(s@, p@) == Some((a@, b@)),
            None => split_once_sub(s@, p@) is None,
        },
{
    let n = s.len();
    let pl = p.len();
    match find_sub_in(s, p) {
        Some(i) => {
            proof {
                lemma_find_sub_bound(s@, p@, 0);
            }
            let a = slice_chars(s, 0, i);
            let b = slice_chars(s, i + pl, n);
            assert(a@ =~= s@.take(i as int));
            assert(b@ =~= s@.skip(i + p@.len()));
            Some((a, b))
        },
        None => None,
    }
}

/// The pieces joined with `sep`.
pub fn join_chars(parts: &Vec<Vec<char>>, sep: &Vec<char>) -> (r: Vec<char>)
    ensures
        r@ == join(views(parts@), sep@),
{
    let mut out: Vec<char> = Vec::new();
    let n = parts.len();
    let ghost pd = views(parts@);
    for i in 0..n
        invariant
            n == parts@.len(),
            pd == views(parts@),
            out@ == join(pd.take(i as int), sep@),
    {
        assert(pd.take(i + 1).drop_last() =~= pd.take(i as int));
        assert(pd.take(i + 1).last() == parts@[i as int]@);
        if i > 0 {
            append(&mut out, sep);
        }
        append(&mut out, &parts[i]);
        if i == 0 {
            assert(out@ =~= pd.take(1)[0]);
        }
    }
    assert(pd.take(n as int) =~= pd);
    out
}

} // verus!
