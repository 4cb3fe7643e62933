use vstd::prelude::*;

verus! {

/// Whether `pat` occurs in `t` at position `pos`.
pub open spec fn matches_at(t: Seq<char>, pos: int, pat: Seq<char>) -> bool {
    &&& 0 <= pos
    &&& pos + pat.len() <= t.len()
    &&& t.subrange(pos, pos + pat.len()) == pat
}

/// Whether `pat` occurs anywhere in `t`.
pub open spec fn contains_seq(t: Seq<char>, pat: Seq<char>) -> bool {
    exists|i: int| 0 <= i <= t.len() - pat.len() && #[trigger] matches_at(t, i, pat)
}

/// The characters `a..b` of a vector.
pub fn subvec(v: &Vec<char>, a: usize, b: usize) -> (r: Vec<char>)
    requires
        a <= b <= v@.len(),
    ensures
        r@ == v@.subrange(a as int, b as int),
{
    let mut r: Vec<char> = Vec::new();
    let mut i = a;
    while i < b
        invariant
            a <= i <= b,
            b <= v@.len(),
            r@ == v@.subrange(a as int, i as int),
        decreases b - i,
    {
        r.push(v[i]);
        assert(r@ =~= v@.subrange(a as int, i + 1));
        i = i + 1;
    }
    r
}

/// Appends the characters `a..b` of `src` to `dst`.
pub fn push_range(dst: &mut Vec<char>, src: &Vec<char>, a: usize, b: usize)
    requires
        a <= b <= src@.len(),
    ensures
        final(dst)@ == old(dst)@ + src@.subrange(a as int, b as int),
{
    let mut i = a;
    while i < b
        invariant
            a <= i <= b,
            b <= src@.len(),
            dst@ == old(dst)@ + src@.subrange(a as int, i as int),
        decreases b - i,
    {
        dst.push(src[i]);
        assert(dst@ =~= old(dst)@ + src@.subrange(a as int, i + 1));
        i = i + 1;
    }
}

/// Appends all the characters of `src` to `dst`.
pub fn push_all(dst: &mut Vec<char>, src: &Vec<char>)
    ensures
        final(dst)@ == old(dst)@ + src@,
{
    push_range(dst, src, 0, src.len());
    assert(src@.subrange(0, src@.len() as int) =~= src@);
}

/// Whether `pat` occurs in `t` at position `pos`.
pub fn chars_match_at(t: &Vec<char>, pos: usize, pat: &Vec<char>) -> (r: bool)
    ensures
        r == matches_at(t@, pos as int, pat@),
{
    if pos > t.len() || pat.len() > t.len() - pos {
        return false;
    }
    let tl = t.len();
    let mut i: usize = 0;
    while i < pat.len()
        invariant
            tl == t@.len(),
            i <= pat@.len(),
            pos + pat@.len() <= t@.len(),
            forall|j: int| 0 <= j < i ==> t@[pos + j] == pat@[j],
        decreases pat@.len() - i,
    {
        assert(pos + i < t@.len());
        if t[pos + i] != pat[i] {
            assert(t@.subrange(pos as int, pos + pat@.len())[i as int] != pat@[i as int]);
            return false;
        }
        i = i + 1;
    }
    assert(t@.subrange(pos as int, pos + pat@.len()) =~= pat@);
    true
}

/// Whether `pat` occurs anywhere in `t`.
pub fn chars_contain(t: &Vec<char>, pat: &Vec<char>) -> (r: bool)
    ensures
        r == contains_seq(t@, pat@),
{
    if pat.len() > t.len() {
        return false;
    }
    if pat.len() == 0 {
        assert(t@.subrange(0, 0) =~= pat@);
        assert(matches_at(t@, 0, pat@));
        return true;
    }
    let last = t.len() - pat.len();
    let mut i: usize = 0;
    while i <= last
        invariant
            last == t@.len() - pat@.len(),
            last < t@.len(),
            t@.len() == t.len(),
            forall|j: int| 0 <= j < i ==> !matches_at(t@, j, pat@),
        decreases last + 1 - i,
    {
        if chars_match_at(t, i, pat) {
            return true;
        }
        i = i + 1;
    }
    assert forall|j: int| 0 <= j <= t@.len() - pat@.len() implies !#[trigger] matches_at(t@, j, pat@) by {
    }
    false
}

/// Whether a character occurs in `t`.
pub fn chars_contain_char(t: &Vec<char>, c: char) -> (r: bool)
    ensures
        r == t@.contains(c),
{
    let mut i: usize = 0;
    while i < t.len()
        invariant
            i <= t@.len(),
            forall|j: int| 0 <= j < i ==> t@[j] != c,
        decreases t@.len() - i,
    {
        if t[i] == c {
            assert(t@[i as int] == c);
            return true;
        }
        i = i + 1;
    }
    false
}

/// The lines joined with `sep` between each two of them.
pub open spec fn join_with(lines: Seq<Seq<char>>, sep: Seq<char>) -> Seq<char>
    decreases lines.len(),
{
    if lines.len() == 0 {
        Seq::empty()
    } else if lines.len() == 1 {
        lines[0]
    } else {
        join_with(lines.drop_last(), sep) + sep + lines.last()
    }
}

pub open spec fn line_views(v: Seq<Vec<char>>) -> Seq<Seq<char>> {
    Seq::new(v.len(), |i: int| v[i]@)
}

/// The lines joined with `sep` between each two of them.
pub fn join_lines(lines: &Vec<Vec<char>>, sep: &Vec<char>) -> (r: Vec<char>)
    ensures
        r@ == join_with(line_views(lines@), sep@),
{
    let mut r: Vec<char> = Vec::new();
    let mut i: usize = 0;
    while i < lines.len()
        invariant
            i <= lines@.len(),
            r@ == join_with(line_views(lines@.take(i as int)), sep@),
        decreases lines@.len() - i,
    {
        let ghost before = line_views(lines@.take(i as int));
        assert(line_views(lines@.take(i + 1)).drop_last() =~= before);
        if i > 0 {
            push_all(&mut r, sep);
        }
        push_all(&mut r, &lines[i]);
        proof {
            let now = line_views(lines@.take(i + 1));
            assert(now.last() == lines@[i as int]@);
            if i == 0 {
                assert(r@ =~= now[0]);
            }
        }
        i = i + 1;
    }
    assert(lines@.take(lines@.len() as int) =~= lines@);
    r
}


/// The offset of the first occurrence of `pat` in `s`, if any.
pub open spec fn first_occurrence(s: Seq<char>, pat: Seq<char>) -> Option<int>
    decreases s.len(),
{
    if s.len() < pat.len() {
        None
    } else if matches_at(s, 0, pat) {
        Some(0)
    } else if s.len() == 0 {
        None
    } else {
        match first_occurrence(s.drop_first(), pat) {
            Some(k) => Some(k + 1),
            None => None,
        }
    }
}

proof fn lemma_matches_shift(s: Seq<char>, j: int, pat: Seq<char>)
    requires
        s.len() > 0,
        0 <= j,
    ensures
        matches_at(s.drop_first(), j, pat) == matches_at(s, j + 1, pat),
{
    if j + pat.len() <= s.drop_first().len() {
        assert(s.drop_first().subrange(j, j + pat.len()) =~= s.subrange(j + 1, j + 1 + pat.len()));
    }
}

/// What characterizes the first occurrence of a pattern.
pub proof fn lemma_first_occurrence(s: Seq<char>, pat: Seq<char>)
    ensures
        first_occurrence(s, pat) matches Some(k) ==> {
            &&& 0 <= k <= s.len() - pat.len()
            &&& matches_at(s, k, pat)
            &&& forall|j: int| 0 <= j < k ==> !matches_at(s, j, pat)
        },
        first_occurrence(s, pat) is None ==> forall|j: int| 0 <= j ==> !matches_at(s, j, pat),
    decreases s.len(),
{
    if s.len() >= pat.len() && !matches_at(s, 0, pat) && s.len() > 0 {
        lemma_first_occurrence(s.drop_first(), pat);
        assert forall|j: int| 0 <= j implies matches_at(s.drop_first(), j, pat) == matches_at(s, j + 1, pat) by {
            lemma_matches_shift(s, j, pat);
        }
        assert forall|j: int| 0 <= j && matches_at(s, j, pat) implies j == 0 || matches_at(s.drop_first(), j - 1, pat) by {
            if j > 0 {
                lemma_matches_shift(s, j - 1, pat);
            }
        }
    }
}

/// The first occurrence of `pat` in the characters of `t` from `start` on,
/// counted from `start`.
pub fn find_from(t: &Vec<char>, start: usize, pat: &Vec<char>) -> (r: Option<usize>)
    requires
        start <= t@.len(),
    ensures
        r matches Some(k) ==> first_occurrence(t@.subrange(start as int, t@.len() as int), pat@) == Some(k as int),
        r is None ==> first_occurrence(t@.subrange(start as int, t@.len() as int), pat@) is None,
{
    let ghost sub = t@.subrange(start as int, t@.len() as int);
    proof {
        lemma_first_occurrence(sub, pat@);
    }
    let n = t.len();
    if pat.len() > n - start {
        assert forall|j: int| 0 <= j implies !matches_at(sub, j, pat@) by {}
        return None;
    }
    if pat.len() == 0 {
        assert(sub.subrange(0, 0) =~= pat@);
        return Some(0);
    }
    let last = n - pat.len();
    let mut i = start;
    while i <= last
        invariant
            start <= i,
            last == n - pat@.len(),
            n == t@.len(),
            start <= last + 1,
            last < n,
            pat@.len() > 0,
            i <= last + 1,
            sub == t@.subrange(start as int, n as int),
            forall|j: int| 0 <= j < i - start ==> !matches_at(sub, j, pat@),
        decreases last + 1 - i,
    {
        if chars_match_at(t, i, pat) {
            proof {
                assert(sub.subrange(i - start, i - start + pat@.len()) =~= t@.subrange(i as int, i + pat@.len()));
                assert(matches_at(sub, i - start, pat@));
                lemma_first_occurrence(sub, pat@);
                if let Some(k2) = first_occurrence(sub, pat@) {
                    if k2 > i - start {
                        assert(!matches_at(sub, i - start, pat@));
                    }
                    if k2 < i - start {
                        assert(!matches_at(sub, k2, pat@));
                    }
                }
            }
            return Some(i - start);
        }
        proof {
            if i - start + pat@.len() <= sub.len() {
                assert(sub.subrange(i - start, i - start + pat@.len()) =~= t@.subrange(i as int, i + pat@.len()));
            }
        }
        i = i + 1;
    }
    assert forall|j: int| 0 <= j implies !matches_at(sub, j, pat@) by {
        if j >= i - start {
            assert(j + pat@.len() > sub.len());
        }
    }
    None
}

/// `s` split at each occurrence of a non-empty `pat`, as `str::split` splits it.
pub open spec fn split_str(s: Seq<char>, pat: Seq<char>) -> Seq<Seq<char>>
    decreases s.len(),
{
    if pat.len() == 0 {
        seq![s]
    } else {
        match first_occurrence(s, pat) {
            Some(k) => {
                proof {
                    lemma_first_occurrence(s, pat);
                }
                seq![s.subrange(0, k)] + split_str(s.subrange(k + pat.len(), s.len() as int), pat)
            },
            None => seq![s],
        }
    }
}

/// `s` with each occurrence of a non-empty `from`, from left to right, replaced
/// by `to`, as `str::replace` replaces.
pub open spec fn replace_str(s: Seq<char>, from: Seq<char>, to: Seq<char>) -> Seq<char>
    decreases s.len(),
{
    if from.len() == 0 {
        s
    } else {
        match first_occurrence(s, from) {
            Some(k) => {
                proof {
                    lemma_first_occurrence(s, from);
                }
                s.subrange(0, k) + to + replace_str(s.subrange(k + from.len(), s.len() as int), from, to)
            },
            None => s,
        }
    }
}

/// Splits at each occurrence of a non-empty pattern.
pub fn split_chars(t: &Vec<char>, pat: &Vec<char>) -> (r: Vec<Vec<char>>)
    requires
        pat@.len() > 0,
    ensures
        line_views(r@) == split_str(t@, pat@),
{
    let n = t.len();
    let mut out: Vec<Vec<char>> = Vec::new();
    let mut pos: usize = 0;
    assert(t@.subrange(0, n as int) =~= t@);
    assert(line_views(out@) =~= Seq::<Seq<char>>::empty());
    loop
        invariant
            pos <= n,
            n == t@.len(),
            pat@.len() > 0,
            split_str(t@, pat@) == line_views(out@) + split_str(t@.subrange(pos as int, n as int), pat@),
        decreases n - pos,
    {
        let ghost rest = t@.subrange(pos as int, n as int);
        let ghost prev = out@;
        proof {
            lemma_first_occurrence(rest, pat@);
        }
        match find_from(t, pos, pat) {
            Some(k) => {
                let piece = subvec(t, pos, pos + k);
                out.push(piece);
                proof {
                    assert(line_views(out@) =~= line_views(prev).push(piece@));
                    assert(rest.subrange(0, k as int) =~= piece@);
                    assert(rest.subrange(k + pat@.len(), rest.len() as int) =~= t@.subrange(pos + k + pat@.len(), n as int));
                    assert(line_views(prev) + split_str(rest, pat@) =~= line_views(out@) + split_str(t@.subrange(pos + k + pat@.len(), n as int), pat@));
                }
                pos = pos + k + pat.len();
            },
            None => {
                let piece = subvec(t, pos, n);
                out.push(piece);
                proof {
                    assert(line_views(out@) =~= line_views(prev).push(piece@));
                    assert(line_views(prev) + split_str(rest, pat@) =~= line_views(out@));
                }
                return out;
            },
        }
    }
}

/// Replaces each occurrence of a non-empty pattern, from left to right.
pub fn replace_chars(t: &Vec<char>, from: &Vec<char>, to: &Vec<char>) -> (r: Vec<char>)
    requires
        from@.len() > 0,
    ensures
        r@ == replace_str(t@, from@, to@),
{
    let n = t.len();
    let mut out: Vec<char> = Vec::new();
    let mut pos: usize = 0;
    assert(t@.subrange(0, n as int) =~= t@);
    loop
        invariant
            pos <= n,
            n == t@.len(),
            from@.len() > 0,
            replace_str(t@, from@, to@) == out@ + replace_str(t@.subrange(pos as int, n as int), from@, to@),
        decreases n - pos,
    {
        let ghost rest = t@.subrange(pos as int, n as int);
        let ghost prev = out@;
        proof {
            lemma_first_occurrence(rest, from@);
        }
        match find_from(t, pos, from) {
            Some(k) => {
                push_range(&mut out, t, pos, pos + k);
                push_all(&mut out, to);
                proof {
                    assert(rest.subrange(0, k as int) =~= t@.subrange(pos as int, pos + k));
                    assert(rest.subrange(k + from@.len(), rest.len() as int) =~= t@.subrange(pos + k + from@.len(), n as int));
                    assert(prev + replace_str(rest, from@, to@) =~= out@ + replace_str(t@.subrange(pos + k + from@.len(), n as int), from@, to@));
                }
                pos = pos + k + from.len();
            },
            None => {
                push_range(&mut out, t, pos, n);
                return out;
            },
        }
    }
}

} // verus!

verus! {

/// The order of texts by their characters' code points, the first difference
/// deciding and a prefix coming first: the order of Rust's `str` (whose bytes,
/// in UTF-8, compare as the code points do).
pub open spec fn text_lt(a: Seq<char>, b: Seq<char>) -> bool
    decreases a.len(),
{
    if a.len() == 0 {
        b.len() > 0
    } else if b.len() == 0 {
        false
    } else if a[0] != b[0] {
        (a[0] as int) < (b[0] as int)
    } else {
        text_lt(a.drop_first(), b.drop_first())
    }
}

pub proof fn lemma_text_lt_irreflexive(a: Seq<char>)
    ensures
        !text_lt(a, a),
    decreases a.len(),
{
    if a.len() > 0 {
        lemma_text_lt_irreflexive(a.drop_first());
    }
}

pub proof fn lemma_text_lt_transitive(a: Seq<char>, b: Seq<char>, c: Seq<char>)
    requires
        text_lt(a, b),
        text_lt(b, c),
    ensures
        text_lt(a, c),
    decreases a.len(),
{
    if a.len() > 0 && b.len() > 0 && c.len() > 0 && a[0] == b[0] && b[0] == c[0] {
        lemma_text_lt_transitive(a.drop_first(), b.drop_first(), c.drop_first());
    }
}

pub proof fn lemma_text_lt_total(a: Seq<char>, b: Seq<char>)
    requires
        a != b,
    ensures
        text_lt(a, b) || text_lt(b, a),
    decreases a.len(),
{
    if a.len() > 0 && b.len() > 0 && a[0] == b[0] {
        if a.drop_first() == b.drop_first() {
            assert(a =~= seq![a[0]] + a.drop_first());
            assert(b =~= seq![b[0]] + b.drop_first());
        }
        lemma_text_lt_total(a.drop_first(), b.drop_first());
    } else if a.len() == 0 && b.len() == 0 {
        assert(a =~= b);
    }
}

/// Whether `a` comes before `b` in the order of texts (see `text_lt`).
pub fn chars_lt(a: &Vec<char>, b: &Vec<char>) -> (r: bool)
    ensures
        r == text_lt(a@, b@),
{
    let mut i: usize = 0;
    assert(a@.skip(0) =~= a@);
    assert(b@.skip(0) =~= b@);
    while i < a.len() && i < b.len() && a[i] == b[i]
        invariant
            i <= a@.len(),
            i <= b@.len(),
            text_lt(a@, b@) == text_lt(a@.skip(i as int), b@.skip(i as int)),
        decreases a@.len() - i,
    {
        assert(a@.skip(i as int).drop_first() =~= a@.skip(i + 1));
        assert(b@.skip(i as int).drop_first() =~= b@.skip(i + 1));
        i = i + 1;
    }
    let ghost sa = a@.skip(i as int);
    let ghost sb = b@.skip(i as int);
    if i == a.len() {
        assert(sa.len() == 0);
        i < b.len()
    } else if i == b.len() {
        assert(sa.len() > 0 && sb.len() == 0);
        false
    } else {
        assert(sa[0] == a@[i as int] && sb[0] == b@[i as int] && sa[0] != sb[0]);
        let x = a[i];
        let y = b[i];
        x < y
    }
}

} // verus!
