//! Character-level text handling: the whitespace class, trimming, splitting
//! into lines and cells, case-insensitive comparison and integer parsing.
//! Each operation is stated over the `Seq<char>` view of its input.
use vstd::prelude::*;

verus! {

/// Whether `c` carries the Unicode `White_Space` property, which is the
/// definition `char::is_whitespace` follows.
pub open spec fn is_white_space(c: char) -> bool {
    let u = c as u32;
    ||| 0x09 <= u <= 0x0d
    ||| u == 0x20
    ||| u == 0x85
    ||| u == 0xa0
    ||| u == 0x1680
    ||| 0x2000 <= u <= 0x200a
    ||| u == 0x2028
    ||| u == 0x2029
    ||| u == 0x202f
    ||| u == 0x205f
    ||| u == 0x3000
}

/// Executable test of [`is_white_space`].
pub fn is_whitespace(c: char) -> (b: bool)
    ensures
        b == is_white_space(c),
{
    let u = c as u32;
    (0x09 <= u && u <= 0x0d) || u == 0x20 || u == 0x85 || u == 0xa0 || u == 0x1680 || (0x2000
        <= u && u <= 0x200a) || u == 0x2028 || u == 0x2029 || u == 0x202f || u == 0x205f || u
        == 0x3000
}

/// The characters of `s`, in order.
pub fn chars_of(s: &str) -> (v: Vec<char>)
    ensures
        v@ == s@,
{
    let mut v: Vec<char> = Vec::new();
    for c in it: s.chars()
        invariant
            v@ == it.seq().take(it.index()),
    {
        v.push(c);
    }
    v
}


/// `s` without its leading white space.
pub open spec fn trim_start(s: Seq<char>) -> Seq<char>
    decreases s.len(),
{
    if s.len() > 0 && is_white_space(s[0]) {
        trim_start(s.drop_first())
    } else {
        s
    }
}

/// `s` without its trailing white space.
pub open spec fn trim_end(s: Seq<char>) -> Seq<char>
    decreases s.len(),
{
    if s.len() > 0 && is_white_space(s.last()) {
        trim_end(s.drop_last())
    } else {
        s
    }
}

/// `s` without leading and trailing white space, as `str::trim` gives it.
pub open spec fn trim(s: Seq<char>) -> Seq<char> {
    trim_end(trim_start(s))
}

/// What `trim_start` leaves is empty or starts with a non-white-space character.
pub proof fn lemma_trim_start_first(s: Seq<char>)
    ensures
        trim_start(s).len() == 0 || !is_white_space(trim_start(s)[0]),
    decreases s.len(),
{
    if s.len() > 0 && is_white_space(s[0]) {
        lemma_trim_start_first(s.drop_first());
    }
}

/// What `trim_end` leaves is a prefix of its argument that is empty or ends
/// with a non-white-space character.
pub proof fn lemma_trim_end_prefix(s: Seq<char>)
    ensures
        trim_end(s).len() <= s.len(),
        trim_end(s) == s.take(trim_end(s).len() as int),
        trim_end(s).len() == 0 || !is_white_space(trim_end(s).last()),
    decreases s.len(),
{
    if s.len() > 0 && is_white_space(s.last()) {
        lemma_trim_end_prefix(s.drop_last());
        assert(s.drop_last().take(trim_end(s).len() as int) =~= s.take(trim_end(s).len() as int));
    } else {
        assert(s.take(s.len() as int) =~= s);
    }
}

/// Trimming twice is trimming once.
pub proof fn lemma_trim_idempotent(s: Seq<char>)
    ensures
        trim(trim(s)) == trim(s),
{
    let x = trim_start(s);
    let y = trim_end(x);
    lemma_trim_start_first(s);
    lemma_trim_end_prefix(x);
    if y.len() > 0 {
        assert(y[0] == x[0]);
    }
    assert(trim_start(y) == y);
    assert(trim_end(y) == y);
}

/// A string that neither starts nor ends with white space is its own trim.
pub proof fn lemma_trim_noop(s: Seq<char>)
    requires
        s.len() == 0 || (!is_white_space(s[0]) && !is_white_space(s.last())),
    ensures
        trim(s) == s,
{
}

/// A string holding a character outside the white-space class trims to
/// something non-empty.
pub proof fn lemma_trim_nonempty(s: Seq<char>, i: int)
    requires
        0 <= i < s.len(),
        !is_white_space(s[i]),
    ensures
        trim(s).len() > 0,
{
    lemma_trim_start_nonempty(s, i);
    lemma_trim_start_first(s);
    lemma_trim_end_keeps_first(trim_start(s));
}

proof fn lemma_trim_start_nonempty(s: Seq<char>, i: int)
    requires
        0 <= i < s.len(),
        !is_white_space(s[i]),
    ensures
        trim_start(s).len() > 0,
    decreases s.len(),
{
    if is_white_space(s[0]) {
        lemma_trim_start_nonempty(s.drop_first(), i - 1);
    }
}

proof fn lemma_trim_end_keeps_first(s: Seq<char>)
    requires
        s.len() > 0,
        !is_white_space(s[0]),
    ensures
        trim_end(s).len() > 0,
    decreases s.len(),
{
    if is_white_space(s.last()) && s.len() > 1 {
        lemma_trim_end_keeps_first(s.drop_last());
    }
}

/// A string without `sep` is a single piece.
pub proof fn lemma_split_on_absent(s: Seq<char>, sep: char)
    requires
        !s.contains(sep),
    ensures
        split_on(s, sep) == seq![s],
    decreases s.len(),
{
    if s.len() > 0 {
        assert(!s.drop_last().contains(sep)) by {
            if s.drop_last().contains(sep) {
                let j = choose|j: int| 0 <= j < s.drop_last().len() && s.drop_last()[j] == sep;
                assert(s[j] == sep);
            }
        }
        lemma_split_on_absent(s.drop_last(), sep);
        assert(s.last() != sep) by {
            if s.last() == sep {
                assert(s[s.len() - 1] == sep);
            }
        }
        assert(s.drop_last().push(s.last()) =~= s);
        assert(split_on(s, sep) =~= seq![s]);
    } else {
        assert(s =~= Seq::<char>::empty());
    }
}

/// The first `c` of `a + [c] + b`, when `a` holds no `c`, is at `a.len()`.
pub proof fn lemma_find_char_after(a: Seq<char>, c: char, b: Seq<char>)
    requires
        !a.contains(c),
    ensures
        find_char(a + seq![c] + b, c) == a.len(),
{
    let s = a + seq![c] + b;
    lemma_find_char(s, c);
    let f = find_char(s, c);
    assert(s[a.len() as int] == c);
    if 0 <= f < a.len() {
        assert(s[f] == a[f]);
    }
}

/// The views of a sequence of string slices.
pub open spec fn views(v: Seq<&str>) -> Seq<Seq<char>> {
    v.map_values(|x: &str| x@)
}

/// The bounds `(a, b)` inside `lo..hi` such that `v[a..b]` is `v[lo..hi]` trimmed.
pub fn trim_range(v: &Vec<char>, lo: usize, hi: usize) -> (r: (usize, usize))
    requires
        lo <= hi <= v.len(),
    ensures
        lo <= r.0 <= r.1 <= hi,
        v@.subrange(r.0 as int, r.1 as int) == trim(v@.subrange(lo as int, hi as int)),
{
    let mut i: usize = lo;
    while i < hi && is_whitespace(v[i])
        invariant
            lo <= i <= hi <= v.len(),
            trim_start(v@.subrange(lo as int, hi as int)) == trim_start(
                v@.subrange(i as int, hi as int),
            ),
        decreases hi - i,
    {
        assert(v@.subrange(i as int, hi as int).drop_first() =~= v@.subrange(
            i + 1,
            hi as int,
        ));
        i = i + 1;
    }
    let mut j: usize = hi;
    while j > i && is_whitespace(v[j - 1])
        invariant
            lo <= i <= j <= hi <= v.len(),
            trim_start(v@.subrange(lo as int, hi as int)) == v@.subrange(i as int, hi as int),
            trim_end(v@.subrange(i as int, hi as int)) == trim_end(v@.subrange(i as int, j as int)),
        decreases j - i,
    {
        assert(v@.subrange(i as int, j as int).drop_last() =~= v@.subrange(i as int, j - 1));
        j = j - 1;
    }
    (i, j)
}

/// `s` without leading and trailing white space (`str::trim`).
pub fn trim_str(s: &str) -> (r: &str)
    ensures
        r@ == trim(s@),
{
    let v = chars_of(s);
    let (a, b) = trim_range(&v, 0, v.len());
    proof {
        assert(v@.subrange(0, v@.len() as int) =~= v@);
    }
    s.substring_char(a, b)
}


/// The pieces of `s` between occurrences of `sep`, as `str::split` with a
/// `char` pattern yields them: one more piece than there are separators.
pub open spec fn split_on(s: Seq<char>, sep: char) -> Seq<Seq<char>>
    decreases s.len(),
{
    if s.len() == 0 {
        seq![Seq::empty()]
    } else {
        let init = split_on(s.drop_last(), sep);
        if s.last() == sep {
            init.push(Seq::empty())
        } else {
            init.update(init.len() - 1, init.last().push(s.last()))
        }
    }
}

/// Splitting `a`, `sep`, `b`, for an `a` without `sep`, gives `a` and then
/// the pieces of `b`.
pub proof fn lemma_split_on_join(a: Seq<char>, sep: char, b: Seq<char>)
    requires
        !a.contains(sep),
    ensures
        split_on(a + seq![sep] + b, sep) == seq![a] + split_on(b, sep),
    decreases b.len(),
{
    let s = a + seq![sep] + b;
    if b.len() == 0 {
        assert(s =~= a.push(sep));
        assert(s.drop_last() =~= a);
        lemma_split_on_absent(a, sep);
        assert(split_on(s, sep) =~= seq![a] + split_on(b, sep));
    } else {
        lemma_split_on_join(a, sep, b.drop_last());
        assert(s.drop_last() =~= a + seq![sep] + b.drop_last());
        assert(s.last() == b.last());
        lemma_split_on_nonempty(b.drop_last(), sep);
        let x = split_on(b.drop_last(), sep);
        if b.last() == sep {
            assert(split_on(s, sep) =~= (seq![a] + x).push(Seq::<char>::empty()));
        } else {
            assert(split_on(s, sep) =~= (seq![a] + x).update(x.len() as int, x.last().push(b.last())));
        }
        assert(split_on(s, sep) =~= seq![a] + split_on(b, sep));
    }
}

/// The pieces `cells` written one after another with `sep` between them.
pub open spec fn join_on(cells: Seq<Seq<char>>, sep: char) -> Seq<char>
    decreases cells.len(),
{
    if cells.len() == 0 {
        Seq::empty()
    } else if cells.len() == 1 {
        cells[0]
    } else {
        cells[0] + seq![sep] + join_on(cells.drop_first(), sep)
    }
}

/// Splitting pieces joined with a separator that none of them holds gives
/// the pieces back.
pub proof fn lemma_split_join_on(cells: Seq<Seq<char>>, sep: char)
    requires
        cells.len() >= 1,
        forall|k: int| 0 <= k < cells.len() ==> !(#[trigger] cells[k]).contains(sep),
    ensures
        split_on(join_on(cells, sep), sep) == cells,
    decreases cells.len(),
{
    if cells.len() == 1 {
        lemma_split_on_absent(cells[0], sep);
        assert(seq![cells[0]] =~= cells);
    } else {
        let rest = cells.drop_first();
        assert forall|k: int| 0 <= k < rest.len() implies !(#[trigger] rest[k]).contains(sep) by {
            assert(rest[k] == cells[k + 1]);
        }
        lemma_split_join_on(rest, sep);
        lemma_split_on_join(cells[0], sep, join_on(rest, sep));
        assert(seq![cells[0]] + rest =~= cells);
    }
}

/// Pieces joined with a separator other than `c`, none of them holding `c`,
/// hold no `c`.
pub proof fn lemma_join_on_lacks(cells: Seq<Seq<char>>, sep: char, c: char)
    requires
        sep != c,
        forall|k: int| 0 <= k < cells.len() ==> !(#[trigger] cells[k]).contains(c),
    ensures
        !join_on(cells, sep).contains(c),
    decreases cells.len(),
{
    if cells.len() == 1 {
        assert(!cells[0].contains(c));
    } else if cells.len() > 1 {
        let rest = cells.drop_first();
        assert forall|k: int| 0 <= k < rest.len() implies !(#[trigger] rest[k]).contains(c) by {
            assert(rest[k] == cells[k + 1]);
        }
        lemma_join_on_lacks(rest, sep, c);
        let a = cells[0];
        let b = join_on(rest, sep);
        let j = join_on(cells, sep);
        assert(!a.contains(c));
        if j.contains(c) {
            let i = choose|i: int| 0 <= i < j.len() && j[i] == c;
            if i < a.len() {
                assert(j[i] == a[i]);
            } else if i > a.len() {
                assert(j[i] == b[i - a.len() - 1]);
            }
        }
    }
}

/// The first character of pieces joined with `sep` is that of the first
/// piece, or `sep` when the first piece is empty; the last is that of the
/// last piece, or `sep` when it is empty.
pub proof fn lemma_join_on_edges(cells: Seq<Seq<char>>, sep: char)
    requires
        cells.len() >= 2,
    ensures
        join_on(cells, sep).len() > 0,
        join_on(cells, sep)[0] == if cells[0].len() > 0 {
            cells[0][0]
        } else {
            sep
        },
        join_on(cells, sep).last() == if cells.last().len() > 0 {
            cells.last().last()
        } else {
            sep
        },
    decreases cells.len(),
{
    let rest = cells.drop_first();
    let b = join_on(rest, sep);
    let j = join_on(cells, sep);
    assert(j == cells[0] + seq![sep] + b);
    if cells[0].len() > 0 {
        assert(j[0] == cells[0][0]);
    } else {
        assert(j[0] == sep);
    }
    if rest.len() >= 2 {
        lemma_join_on_edges(rest, sep);
        assert(j.last() == b.last());
    } else {
        assert(b == rest[0]);
        if b.len() > 0 {
            assert(j.last() == b.last());
        } else {
            assert(j.last() == sep);
        }
    }
    assert(rest.last() == cells.last());
}

/// `split_on` never yields an empty list of pieces.
pub proof fn lemma_split_on_nonempty(s: Seq<char>, sep: char)
    ensures
        split_on(s, sep).len() >= 1,
    decreases s.len(),
{
    if s.len() > 0 {
        lemma_split_on_nonempty(s.drop_last(), sep);
    }
}

/// Whether `r` lists, in order, ranges of `v` whose contents are `pieces`.
pub open spec fn ranges_spell(v: Seq<char>, r: Seq<(usize, usize)>, pieces: Seq<Seq<char>>) -> bool {
    &&& r.len() == pieces.len()
    &&& forall|k: int|
        0 <= k < r.len() ==> #[trigger] r[k].0 <= r[k].1 <= v.len() && v.subrange(
            r[k].0 as int,
            r[k].1 as int,
        ) == pieces[k]
}

/// The ranges of the pieces of `v[lo..hi]` between occurrences of `sep`.
pub fn split_ranges(v: &Vec<char>, lo: usize, hi: usize, sep: char) -> (r: Vec<(usize, usize)>)
    requires
        lo <= hi <= v.len(),
    ensures
        ranges_spell(v@, r@, split_on(v@.subrange(lo as int, hi as int), sep)),
        forall|k: int| 0 <= k < r@.len() ==> lo <= #[trigger] r@[k].0 && r@[k].1 <= hi,
{
    let mut r: Vec<(usize, usize)> = Vec::new();
    let mut start: usize = lo;
    let mut i: usize = lo;
    while i < hi
        invariant
            lo <= start <= i <= hi <= v.len(),
            ranges_spell(v@, r@, split_on(v@.subrange(lo as int, i as int), sep).drop_last()),
            split_on(v@.subrange(lo as int, i as int), sep).len() == r.len() + 1,
            split_on(v@.subrange(lo as int, i as int), sep).last() == v@.subrange(
                start as int,
                i as int,
            ),
            forall|k: int| 0 <= k < r@.len() ==> lo <= #[trigger] r@[k].0 && r@[k].1 <= hi,
        decreases hi - i,
    {
        let ghost prev = split_on(v@.subrange(lo as int, i as int), sep);
        let ghost cur = v@.subrange(lo as int, i + 1);
        assert(cur.drop_last() =~= v@.subrange(lo as int, i as int));
        assert(cur.last() == v@[i as int]);
        if v[i] == sep {
            assert(split_on(cur, sep) == prev.push(Seq::<char>::empty()));
            assert(split_on(cur, sep).drop_last() =~= prev);
            assert(prev =~= prev.drop_last().push(v@.subrange(start as int, i as int)));
            let ghost old_r = r@;
            r.push((start, i));
            assert(r@ == old_r.push((start, i)));
            assert forall|k: int| 0 <= k < r@.len() implies lo <= #[trigger] r@[k].0 && r@[k].1
                <= hi by {
                if k < old_r.len() {
                    assert(r@[k] == old_r[k]);
                }
            }
            start = i + 1;
            assert(v@.subrange(start as int, i + 1) =~= Seq::<char>::empty());
        } else {
            assert(split_on(cur, sep) == prev.update(
                prev.len() - 1,
                prev.last().push(v@[i as int]),
            ));
            assert(split_on(cur, sep).drop_last() =~= prev.drop_last());
            assert(v@.subrange(start as int, i + 1) =~= v@.subrange(start as int, i as int).push(
                v@[i as int],
            ));
        }
        i = i + 1;
    }
    let ghost all = split_on(v@.subrange(lo as int, hi as int), sep);
    r.push((start, hi));
    assert(all =~= all.drop_last().push(all.last()));
    r
}

/// The pieces of `s` between occurrences of `sep` (`str::split`).
pub fn split_char(s: &str, sep: char) -> (r: Vec<&str>)
    ensures
        views(r@) == split_on(s@, sep),
{
    let v = chars_of(s);
    let ranges = split_ranges(&v, 0, v.len(), sep);
    proof {
        assert(v@.subrange(0, v@.len() as int) =~= v@);
    }
    let mut out: Vec<&str> = Vec::new();
    let mut k: usize = 0;
    while k < ranges.len()
        invariant
            v@ == s@,
            ranges_spell(v@, ranges@, split_on(s@, sep)),
            k <= ranges.len(),
            views(out@) =~= split_on(s@, sep).take(k as int),
        decreases ranges.len() - k,
    {
        let (a, b) = ranges[k];
        let piece = s.substring_char(a, b);
        let ghost before = out@;
        out.push(piece);
        proof {
            assert(out@ =~= before.push(piece));
            assert(views(out@) =~= views(before).push(piece@));
        }
        k = k + 1;
    }
    out
}


/// `s` without one trailing carriage return, if it has one.
pub open spec fn strip_cr(s: Seq<char>) -> Seq<char> {
    if s.len() > 0 && s.last() == '\r' {
        s.drop_last()
    } else {
        s
    }
}

/// The lines of `s`, as `str::lines` yields them: split at `\n` or `\r\n`,
/// terminators removed, and no empty line after a final terminator.
pub open spec fn lines(s: Seq<char>) -> Seq<Seq<char>> {
    let pieces = split_on(s, '\n');
    let n = pieces.len() - 1;
    let ended = pieces.take(n).map_values(|p: Seq<char>| strip_cr(p));
    if pieces[n].len() == 0 {
        ended
    } else {
        ended.push(pieces[n])
    }
}

/// The lines of `s` (`str::lines`).
pub fn lines_of(s: &str) -> (r: Vec<&str>)
    ensures
        views(r@) == lines(s@),
{
    let v = chars_of(s);
    let ranges = split_ranges(&v, 0, v.len(), '\n');
    proof {
        assert(v@.subrange(0, v@.len() as int) =~= v@);
        lemma_split_on_nonempty(s@, '\n');
    }
    let ghost pieces = split_on(s@, '\n');
    let last = ranges.len() - 1;
    let mut out: Vec<&str> = Vec::new();
    let mut k: usize = 0;
    while k < last
        invariant
            v@ == s@,
            ranges_spell(v@, ranges@, pieces),
            pieces == split_on(s@, '\n'),
            last == ranges.len() - 1,
            k <= last,
            views(out@) =~= pieces.take(k as int).map_values(|p: Seq<char>| strip_cr(p)),
        decreases last - k,
    {
        let (a, mut b) = ranges[k];
        if b > a && v[b - 1] == '\r' {
            b = b - 1;
            assert(v@.subrange(a as int, b as int) =~= pieces[k as int].drop_last());
        }
        let line = s.substring_char(a, b);
        let ghost before = out@;
        out.push(line);
        proof {
            assert(out@ =~= before.push(line));
            assert(views(out@) =~= views(before).push(line@));
            assert(pieces.take(k + 1) =~= pieces.take(k as int).push(pieces[k as int]));
        }
        k = k + 1;
    }
    let (a, b) = ranges[last];
    if a < b {
        let line = s.substring_char(a, b);
        let ghost before = out@;
        out.push(line);
        proof {
            assert(out@ =~= before.push(line));
            assert(views(out@) =~= views(before).push(line@));
        }
    }
    out
}

/// `c` with ASCII upper-case letters mapped to lower case, as a code point.
pub open spec fn ascii_lower(c: char) -> u32 {
    if 'A' <= c <= 'Z' {
        (c as u32 + 32) as u32
    } else {
        c as u32
    }
}

/// Equality up to ASCII case (`str::eq_ignore_ascii_case`).
pub open spec fn eq_ignore_ascii_case(a: Seq<char>, b: Seq<char>) -> bool {
    &&& a.len() == b.len()
    &&& forall|i: int| 0 <= i < a.len() ==> #[trigger] ascii_lower(a[i]) == ascii_lower(b[i])
}

/// Executable [`ascii_lower`].
pub fn to_ascii_lower(c: char) -> (r: u32)
    ensures
        r == ascii_lower(c),
{
    if 'A' <= c && c <= 'Z' {
        c as u32 + 32
    } else {
        c as u32
    }
}

/// Whether `a` and `b` are equal up to ASCII case.
pub fn str_eq_ignore_ascii_case(a: &str, b: &str) -> (r: bool)
    ensures
        r == eq_ignore_ascii_case(a@, b@),
{
    let va = chars_of(a);
    let vb = chars_of(b);
    if va.len() != vb.len() {
        return false;
    }
    let mut i: usize = 0;
    while i < va.len()
        invariant
            va@ == a@,
            vb@ == b@,
            va.len() == vb.len(),
            i <= va.len(),
            forall|j: int| 0 <= j < i ==> #[trigger] ascii_lower(va@[j]) == ascii_lower(vb@[j]),
        decreases va.len() - i,
    {
        if to_ascii_lower(va[i]) != to_ascii_lower(vb[i]) {
            return false;
        }
        i = i + 1;
    }
    true
}

/// Exact equality of two string slices.
pub fn str_eq(a: &str, b: &str) -> (r: bool)
    ensures
        r == (a@ == b@),
{
    let va = chars_of(a);
    let vb = chars_of(b);
    if va.len() != vb.len() {
        return false;
    }
    let mut i: usize = 0;
    while i < va.len()
        invariant
            va@ == a@,
            vb@ == b@,
            va.len() == vb.len(),
            i <= va.len(),
            forall|j: int| 0 <= j < i ==> va@[j] == vb@[j],
        decreases va.len() - i,
    {
        if va[i] != vb[i] {
            return false;
        }
        i = i + 1;
    }
    assert(va@ =~= vb@);
    true
}

/// Whether `p` is a prefix of `s`.
pub open spec fn has_prefix(s: Seq<char>, p: Seq<char>) -> bool {
    p.len() <= s.len() && s.take(p.len() as int) == p
}

/// `s` with the prefix `p` removed, if `s` starts with `p` (`str::strip_prefix`).
pub fn strip_prefix<'a>(s: &'a str, p: &str) -> (r: Option<&'a str>)
    ensures
        r matches Some(rest) ==> has_prefix(s@, p@) && rest@ == s@.skip(p@.len() as int),
        r is None <==> !has_prefix(s@, p@),
{
    let vs = chars_of(s);
    let vp = chars_of(p);
    if vp.len() > vs.len() {
        return None;
    }
    let mut i: usize = 0;
    while i < vp.len()
        invariant
            vs@ == s@,
            vp@ == p@,
            vp.len() <= vs.len(),
            i <= vp.len(),
            forall|j: int| 0 <= j < i ==> vs@[j] == vp@[j],
        decreases vp.len() - i,
    {
        if vs[i] != vp[i] {
            assert(s@.take(p@.len() as int)[i as int] != p@[i as int]);
            return None;
        }
        i = i + 1;
    }
    assert(s@.take(p@.len() as int) =~= p@);
    Some(s.substring_char(vp.len(), vs.len()))
}


/// Whether `c` is an ASCII decimal digit.
pub open spec fn is_digit(c: char) -> bool {
    '0' <= c <= '9'
}

/// Whether every character of `s` is an ASCII decimal digit.
pub open spec fn all_digits(s: Seq<char>) -> bool {
    forall|i: int| 0 <= i < s.len() ==> #[trigger] is_digit(s[i])
}

/// The number that the decimal digits `s` spell (most significant first).
pub open spec fn digits_value(s: Seq<char>) -> nat
    decreases s.len(),
{
    if s.len() == 0 {
        0
    } else {
        digits_value(s.drop_last()) * 10 + (s.last() as nat - '0' as nat) as nat
    }
}

/// `s` without one leading `+` sign, if it has one.
pub open spec fn unsigned_digits(s: Seq<char>) -> Seq<char> {
    if s.len() > 0 && s[0] == '+' {
        s.drop_first()
    } else {
        s
    }
}

/// What `str::parse::<u32>` gives for `s`: an optional `+` followed by at
/// least one decimal digit, whose value fits in 32 bits.
pub open spec fn parse_u32(s: Seq<char>) -> Option<u32> {
    let d = unsigned_digits(s);
    if d.len() > 0 && all_digits(d) && digits_value(d) <= u32::MAX {
        Some(digits_value(d) as u32)
    } else {
        None
    }
}

/// A run of digits is worth at least as much as any prefix of it.
pub proof fn lemma_digits_value_prefix(s: Seq<char>, k: int)
    requires
        all_digits(s),
        0 <= k <= s.len(),
    ensures
        digits_value(s.take(k)) <= digits_value(s),
    decreases s.len(),
{
    if k < s.len() {
        assert(all_digits(s.drop_last())) by {
            assert forall|i: int| 0 <= i < s.drop_last().len() implies #[trigger] is_digit(
                s.drop_last()[i],
            ) by {
                assert(is_digit(s[i]));
            }
        }
        lemma_digits_value_prefix(s.drop_last(), k);
        assert(s.drop_last().take(k) =~= s.take(k));
    } else {
        assert(s.take(k) =~= s);
    }
}

/// Parse a decimal `u32` (`str::parse::<u32>`).
pub fn parse_u32_str(s: &str) -> (r: Option<u32>)
    ensures
        r == parse_u32(s@),
{
    let v = chars_of(s);
    let start: usize = if v.len() > 0 && v[0] == '+' {
        1
    } else {
        0
    };
    let ghost d = unsigned_digits(s@);
    proof {
        assert(d =~= v@.subrange(start as int, v@.len() as int));
    }
    if start == v.len() {
        return None;
    }
    let mut acc: u64 = 0;
    let mut i: usize = start;
    while i < v.len()
        invariant
            v@ == s@,
            start <= i <= v.len(),
            d == v@.subrange(start as int, v@.len() as int),
            d == unsigned_digits(s@),
            acc == digits_value(d.take(i - start)),
            acc <= u32::MAX,
            all_digits(d.take(i - start)),
        decreases v.len() - i,
    {
        let c = v[i];
        if !('0' <= c && c <= '9') {
            assert(!is_digit(d[i - start]));
            return None;
        }
        let ghost pre = d.take(i - start);
        let ghost next = d.take(i - start + 1);
        assert(next.drop_last() =~= pre);
        assert(next.last() == c);
        acc = acc * 10 + (c as u32 - 48) as u64;
        assert(acc == digits_value(next));
        assert(all_digits(next)) by {
            assert forall|j: int| 0 <= j < next.len() implies #[trigger] is_digit(next[j]) by {
                if j < pre.len() {
                    assert(is_digit(pre[j]));
                }
            }
        }
        if acc > 0xffff_ffff {
            proof {
                if all_digits(d) {
                    lemma_digits_value_prefix(d, (i - start + 1) as int);
                }
            }
            return None;
        }
        i = i + 1;
    }
    assert(d.take(v.len() - start) =~= d);
    Some(acc as u32)
}

/// The index of the first `c` in `s`, or -1 when there is none.
pub open spec fn find_char(s: Seq<char>, c: char) -> int
    decreases s.len(),
{
    if s.len() == 0 {
        -1
    } else if s[0] == c {
        0
    } else {
        let r = find_char(s.drop_first(), c);
        if r < 0 {
            -1
        } else {
            r + 1
        }
    }
}

/// `find_char` finds the first occurrence, and reports none only when there is none.
pub proof fn lemma_find_char(s: Seq<char>, c: char)
    ensures
        -1 <= find_char(s, c) < s.len(),
        find_char(s, c) >= 0 ==> s[find_char(s, c)] == c,
        forall|k: int| 0 <= k < s.len() && (k < find_char(s, c) || find_char(s, c) < 0) ==> s[k]
            != c,
    decreases s.len(),
{
    if s.len() > 0 && s[0] != c {
        lemma_find_char(s.drop_first(), c);
        assert forall|k: int|
            0 <= k < s.len() && (k < find_char(s, c) || find_char(s, c) < 0) implies s[k] != c by {
            if k > 0 {
                assert(s[k] == s.drop_first()[k - 1]);
            }
        }
    }
}

/// The part of `s` before its first `c`, or all of `s` when it holds none
/// (what `s.split(c).next()` gives).
pub open spec fn before_char(s: Seq<char>, c: char) -> Seq<char> {
    let i = find_char(s, c);
    if i < 0 {
        s
    } else {
        s.take(i)
    }
}

/// The index of the first `c` in `v`, if any.
pub fn find_in(v: &Vec<char>, c: char) -> (r: Option<usize>)
    ensures
        match r {
            Some(i) => i < v.len() && i as int == find_char(v@, c),
            None => find_char(v@, c) == -1,
        },
{
    proof {
        lemma_find_char(v@, c);
    }
    let mut i: usize = 0;
    while i < v.len()
        invariant
            i <= v.len(),
            forall|k: int| 0 <= k < i ==> v@[k] != c,
        decreases v.len() - i,
    {
        if v[i] == c {
            proof {
                lemma_find_char(v@, c);
                let f = find_char(v@, c);
                if f < 0 || f > i {
                    assert(v@[i as int] != c);
                } else if f < i {
                    assert(v@[f] != c);
                }
            }
            return Some(i);
        }
        i = i + 1;
    }
    None
}

/// Split `s` at its first `c` into the parts before and after it (`str::split_once`).
pub fn split_once<'a>(s: &'a str, c: char) -> (r: Option<(&'a str, &'a str)>)
    ensures
        match r {
            Some((a, b)) => find_char(s@, c) >= 0 && a@ == s@.take(find_char(s@, c)) && b@
                == s@.skip(find_char(s@, c) + 1),
            None => find_char(s@, c) < 0,
        },
{
    let v = chars_of(s);
    match find_in(&v, c) {
        Some(i) => Some((s.substring_char(0, i), s.substring_char(i + 1, v.len()))),
        None => None,
    }
}

/// The part of `s` before its first `c`, or `s` itself when it holds none.
pub fn prefix_before<'a>(s: &'a str, c: char) -> (r: &'a str)
    ensures
        r@ == before_char(s@, c),
{
    let v = chars_of(s);
    match find_in(&v, c) {
        Some(i) => s.substring_char(0, i),
        None => s,
    }
}

} // verus!
