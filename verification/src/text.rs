use vstd::prelude::*;

verus! {

/// Unicode `White_Space` characters, the set that `char::is_whitespace` accepts.
pub open spec fn is_ws(c: char) -> bool {
    let u = c as u32;
    ||| u == 0x09 || u == 0x0A || u == 0x0B || u == 0x0C || u == 0x0D || u == 0x20
    ||| u == 0x85 || u == 0xA0 || u == 0x1680
    ||| (0x2000 <= u && u <= 0x200A)
    ||| u == 0x2028 || u == 0x2029 || u == 0x202F || u == 0x205F || u == 0x3000
}

pub fn is_whitespace(c: char) -> (b: bool)
    ensures
        b == is_ws(c),
{
    let u = c as u32;
    u == 0x09 || u == 0x0A || u == 0x0B || u == 0x0C || u == 0x0D || u == 0x20 || u == 0x85
        || u == 0xA0 || u == 0x1680 || (0x2000 <= u && u <= 0x200A) || u == 0x2028 || u == 0x2029
        || u == 0x202F || u == 0x205F || u == 0x3000
}

/// `s` without its trailing whitespace.
pub open spec fn trim_end(s: Seq<char>) -> Seq<char>
    decreases s.len(),
{
    if s.len() > 0 && is_ws(s.last()) {
        trim_end(s.drop_last())
    } else {
        s
    }
}

} // verus!

verus! {

/// `s` without its leading whitespace.
pub open spec fn trim_start(s: Seq<char>) -> Seq<char>
    decreases s.len(),
{
    if s.len() > 0 && is_ws(s[0]) {
        trim_start(s.drop_first())
    } else {
        s
    }
}

/// `s` without leading and trailing whitespace.
pub open spec fn trim(s: Seq<char>) -> Seq<char> {
    trim_end(trim_start(s))
}

/// `p` occurs in `s` at position `i`.
pub open spec fn matches_at(s: Seq<char>, p: Seq<char>, i: int) -> bool {
    0 <= i && i + p.len() <= s.len() && s.subrange(i, i + p.len()) == p
}

/// `p` occurs somewhere in `s` (the empty pattern occurs everywhere).
pub open spec fn contains_sub(s: Seq<char>, p: Seq<char>) -> bool {
    exists|i: int| matches_at(s, p, i)
}

pub open spec fn starts_with(s: Seq<char>, p: Seq<char>) -> bool {
    p.len() <= s.len() && s.take(p.len() as int) == p
}

pub open spec fn ends_with(s: Seq<char>, p: Seq<char>) -> bool {
    p.len() <= s.len() && s.skip(s.len() - p.len()) == p
}

/// The characters of a string, in order.
pub fn to_chars(s: &str) -> (v: Vec<char>)
    ensures
        v@ == s@,
{
    let n = s.unicode_len();
    let mut v: Vec<char> = Vec::new();
    let mut i: usize = 0;
    while i < n
        invariant
            n == s@.len(),
            i <= n,
            v@ == s@.take(i as int),
        decreases n - i,
    {
        let c = s.get_char(i);
        v.push(c);
        i = i + 1;
        assert(v@ =~= s@.take(i as int));
    }
    assert(s@.take(n as int) =~= s@);
    v
}

/// Appends one character to a `String` (`String::push`).
#[verifier::external_body]
pub(crate) fn push_char(s: &mut String, c: char)
    ensures
        final(s)@ == old(s)@.push(c),
{
    s.push(c);
}

/// The string made of the characters of `v`.
pub fn from_chars(v: &Vec<char>) -> (s: String)
    ensures
        s@ == v@,
{
    let mut s = String::new();
    let mut i: usize = 0;
    while i < v.len()
        invariant
            i <= v.len(),
            s@ == v@.take(i as int),
        decreases v.len() - i,
    {
        push_char(&mut s, v[i]);
        i = i + 1;
        assert(s@ =~= v@.take(i as int));
    }
    assert(v@.take(v.len() as int) =~= v@);
    s
}

/// Appends all of `w` to `v`.
pub fn extend(v: &mut Vec<char>, w: &Vec<char>)
    ensures
        final(v)@ == old(v)@ + w@,
{
    let ghost v0 = v@;
    let mut i: usize = 0;
    while i < w.len()
        invariant
            i <= w.len(),
            v@ == v0 + w@.take(i as int),
        decreases w.len() - i,
    {
        v.push(w[i]);
        i = i + 1;
        assert(v@ =~= v0 + w@.take(i as int));
    }
    assert(w@.take(w.len() as int) =~= w@);
}

/// Appends the characters of `w` to `v`.
pub fn extend_str(v: &mut Vec<char>, w: &str)
    ensures
        final(v)@ == old(v)@ + w@,
{
    let wc = to_chars(w);
    extend(v, &wc);
}

/// Whether two character sequences are equal.
pub fn chars_eq(a: &Vec<char>, b: &Vec<char>) -> (r: bool)
    ensures
        r == (a@ == b@),
{
    if a.len() != b.len() {
        return false;
    }
    let mut i: usize = 0;
    while i < a.len()
        invariant
            a.len() == b.len(),
            i <= a.len(),
            forall|j: int| 0 <= j < i ==> a@[j] == b@[j],
        decreases a.len() - i,
    {
        if a[i] != b[i] {
            return false;
        }
        i = i + 1;
    }
    assert(a@ =~= b@);
    true
}

/// Whether `p` occurs in `s` at position `i`.
pub fn matches_at_exec(s: &Vec<char>, p: &Vec<char>, i: usize) -> (r: bool)
    ensures
        r == matches_at(s@, p@, i as int),
{
    if i > s.len() || p.len() > s.len() - i {
        return false;
    }
    let mut j: usize = 0;
    while j < p.len()
        invariant
            i + p.len() <= s.len(),
            j <= p.len(),
            forall|k: int| 0 <= k < j ==> s@[i + k] == p@[k],
        decreases p.len() - j,
    {
        if s[i + j] != p[j] {
            assert(s@.subrange(i as int, i + p.len())[j as int] != p@[j as int]);
            return false;
        }
        j = j + 1;
    }
    assert(s@.subrange(i as int, i + p.len()) =~= p@);
    true
}

/// The first position at or after `from` where `p` occurs in `s`, if any.
pub fn find_from(s: &Vec<char>, p: &Vec<char>, from: usize) -> (r: Option<usize>)
    ensures
        match r {
            Some(i) => from <= i && matches_at(s@, p@, i as int) && forall|j: int|
                from <= j < i ==> !matches_at(s@, p@, j),
            None => forall|j: int| from <= j ==> !matches_at(s@, p@, j),
        },
{
    if from > s.len() {
        return None;
    }
    let mut i: usize = from;
    while i < s.len()
        invariant
            from <= i <= s.len(),
            forall|j: int| from <= j < i ==> !matches_at(s@, p@, j),
        decreases s.len() - i,
    {
        if matches_at_exec(s, p, i) {
            return Some(i);
        }
        i = i + 1;
    }
    if matches_at_exec(s, p, i) {
        return Some(i);
    }
    None
}

/// Whether `p` occurs in `s`.
pub fn contains_chars(s: &Vec<char>, p: &Vec<char>) -> (r: bool)
    ensures
        r == contains_sub(s@, p@),
{
    match find_from(s, p, 0) {
        Some(i) => true,
        None => false,
    }
}

pub fn starts_with_chars(s: &Vec<char>, p: &Vec<char>) -> (r: bool)
    ensures
        r == starts_with(s@, p@),
{
    let r = matches_at_exec(s, p, 0);
    proof {
        if p@.len() <= s@.len() {
            assert(s@.take(p@.len() as int) =~= s@.subrange(0, p@.len() as int));
        }
    }
    r
}

pub fn ends_with_chars(s: &Vec<char>, p: &Vec<char>) -> (r: bool)
    ensures
        r == ends_with(s@, p@),
{
    if p.len() > s.len() {
        return false;
    }
    let i = s.len() - p.len();
    let r = matches_at_exec(s, p, i);
    assert(s@.skip(i as int) =~= s@.subrange(i as int, i + p@.len()));
    r
}

/// `s` without its trailing whitespace.
pub fn trim_end_chars(s: &Vec<char>) -> (r: Vec<char>)
    ensures
        r@ == trim_end(s@),
{
    let mut k: usize = s.len();
    assert(s@.take(s.len() as int) =~= s@);
    while k > 0 && is_whitespace(s[k - 1])
        invariant
            k <= s.len(),
            trim_end(s@.take(k as int)) == trim_end(s@),
        decreases k,
    {
        assert(s@.take(k as int).drop_last() =~= s@.take(k - 1));
        k = k - 1;
    }
    assert(s@.take(s.len() as int) =~= s@);
    let mut r: Vec<char> = Vec::new();
    let mut i: usize = 0;
    while i < k
        invariant
            k <= s.len(),
            i <= k,
            r@ == s@.take(i as int),
        decreases k - i,
    {
        r.push(s[i]);
        i = i + 1;
        assert(r@ =~= s@.take(i as int));
    }
    assert(trim_end(s@.take(k as int)) == s@.take(k as int));
    r
}

/// `s` without its leading whitespace.
pub fn trim_start_chars(s: &Vec<char>) -> (r: Vec<char>)
    ensures
        r@ == trim_start(s@),
{
    let mut k: usize = 0;
    assert(s@.skip(0) =~= s@);
    while k < s.len() && is_whitespace(s[k])
        invariant
            k <= s.len(),
            trim_start(s@.skip(k as int)) == trim_start(s@),
        decreases s.len() - k,
    {
        assert(s@.skip(k as int).drop_first() =~= s@.skip(k + 1));
        k = k + 1;
    }
    assert(s@.skip(0) =~= s@);
    let mut r: Vec<char> = Vec::new();
    let mut i: usize = k;
    while i < s.len()
        invariant
            k <= i <= s.len(),
            r@ == s@.subrange(k as int, i as int),
        decreases s.len() - i,
    {
        r.push(s[i]);
        i = i + 1;
        assert(r@ =~= s@.subrange(k as int, i as int));
    }
    assert(r@ =~= s@.skip(k as int));
    r
}

/// `s` without leading and trailing whitespace.
pub fn trim_chars(s: &Vec<char>) -> (r: Vec<char>)
    ensures
        r@ == trim(s@),
{
    let t = trim_start_chars(s);
    trim_end_chars(&t)
}

} // verus!

verus! {

/// The views of a sequence of character vectors.
pub open spec fn views(v: Seq<Vec<char>>) -> Seq<Seq<char>> {
    v.map_values(|x: Vec<char>| x@)
}

/// The pieces of `s` between its `'\n'` characters (always at least one piece).
pub open spec fn split_nl(s: Seq<char>) -> Seq<Seq<char>>
    decreases s.len(),
{
    if s.len() == 0 {
        seq![Seq::empty()]
    } else {
        let p = split_nl(s.drop_last());
        if s.last() == '\n' {
            p.push(Seq::empty())
        } else {
            p.update(p.len() - 1, p.last().push(s.last()))
        }
    }
}

pub proof fn lemma_split_nl_len(s: Seq<char>)
    ensures
        split_nl(s).len() >= 1,
    decreases s.len(),
{
    if s.len() > 0 {
        lemma_split_nl_len(s.drop_last());
    }
}

/// A line without the `'\r'` of a `"\r\n"` line ending.
pub open spec fn strip_cr(l: Seq<char>) -> Seq<char> {
    if l.len() > 0 && l.last() == '\r' {
        l.drop_last()
    } else {
        l
    }
}

/// The lines of `s` as `str::lines` yields them: split at `'\n'`, a `'\r'` before a
/// `'\n'` dropped, and no empty line after a final `'\n'`.
pub open spec fn lines_of(s: Seq<char>) -> Seq<Seq<char>> {
    let p = split_nl(s);
    let body = p.drop_last().map_values(|l: Seq<char>| strip_cr(l));
    if p.last().len() > 0 {
        body.push(p.last())
    } else {
        body
    }
}

/// The elements of `ls` with `sep` between each two of them.
pub open spec fn join(ls: Seq<Seq<char>>, sep: Seq<char>) -> Seq<char>
    decreases ls.len(),
{
    if ls.len() == 0 {
        Seq::empty()
    } else if ls.len() == 1 {
        ls[0]
    } else {
        join(ls.drop_last(), sep) + sep + ls.last()
    }
}

/// `s` with every occurrence of the non-empty pattern `p`, taken left to right
/// without overlap, replaced by `r` (as `str::replace` does).
pub open spec fn replace_all(s: Seq<char>, p: Seq<char>, r: Seq<char>) -> Seq<char>
    decreases s.len(),
{
    if s.len() == 0 {
        Seq::empty()
    } else if p.len() > 0 && starts_with(s, p) {
        r + replace_all(s.skip(p.len() as int), p, r)
    } else {
        seq![s[0]] + replace_all(s.drop_first(), p, r)
    }
}

/// The lines of `s` (see `lines_of`).
pub fn split_lines(s: &Vec<char>) -> (r: Vec<Vec<char>>)
    ensures
        views(r@) == lines_of(s@),
{
    let mut done: Vec<Vec<char>> = Vec::new();
    let mut cur: Vec<char> = Vec::new();
    let mut i: usize = 0;
    proof {
        assert(s@.take(0) =~= Seq::<char>::empty());
        assert(views(done@) =~= split_nl(s@.take(0)).drop_last().map_values(
            |l: Seq<char>| strip_cr(l),
        ));
    }
    while i < s.len()
        invariant
            i <= s.len(),
            split_nl(s@.take(i as int)).len() >= 1,
            views(done@) == split_nl(s@.take(i as int)).drop_last().map_values(
                |l: Seq<char>| strip_cr(l),
            ),
            cur@ == split_nl(s@.take(i as int)).last(),
        decreases s.len() - i,
    {
        let ghost prev = s@.take(i as int);
        let c = s[i];
        proof {
            assert(s@.take(i + 1).drop_last() =~= prev);
            assert(s@.take(i + 1).last() == c);
        }
        if c == '\n' {
            let ghost old_cur = cur@;
            let mut line = cur;
            if line.len() > 0 && line[line.len() - 1] == '\r' {
                line.pop();
                assert(line@ =~= old_cur.drop_last());
            }
            assert(line@ == strip_cr(old_cur));
            let ghost old_done = views(done@);
            done.push(line);
            assert(views(done@) =~= old_done.push(strip_cr(old_cur)));
            cur = Vec::new();
            proof {
                let p = split_nl(prev);
                let q = split_nl(s@.take(i + 1));
                assert(q == p.push(Seq::empty()));
                assert(q.drop_last() =~= p);
                assert(views(done@) =~= q.drop_last().map_values(|l: Seq<char>| strip_cr(l)));
                assert(cur@ =~= q.last());
            }
        } else {
            cur.push(c);
            proof {
                let p = split_nl(prev);
                let q = split_nl(s@.take(i + 1));
                assert(q == p.update(p.len() - 1, p.last().push(c)));
                assert(q.drop_last() =~= p.drop_last());
                assert(cur@ =~= q.last());
            }
        }
        i = i + 1;
    }
    proof {
        assert(s@.take(s.len() as int) =~= s@);
    }
    if cur.len() > 0 {
        done.push(cur);
        proof {
            assert(views(done@) =~= lines_of(s@));
        }
    } else {
        proof {
            assert(views(done@) =~= lines_of(s@));
        }
    }
    done
}

/// The elements of `ls` joined by `sep`.
pub fn join_chars(ls: &Vec<Vec<char>>, sep: &Vec<char>) -> (r: Vec<char>)
    ensures
        r@ == join(views(ls@), sep@),
{
    let mut r: Vec<char> = Vec::new();
    let mut i: usize = 0;
    while i < ls.len()
        invariant
            i <= ls.len(),
            r@ == join(views(ls@).take(i as int), sep@),
        decreases ls.len() - i,
    {
        let ghost pre = views(ls@).take(i as int);
        proof {
            assert(views(ls@).take(i + 1).drop_last() =~= pre);
        }
        if i > 0 {
            extend(&mut r, sep);
        }
        extend(&mut r, &ls[i]);
        i = i + 1;
        proof {
            let t = views(ls@).take(i as int);
            if i == 1 {
                assert(t.len() == 1);
                assert(r@ =~= t[0]);
            } else {
                assert(t.last() == ls@[i - 1]@);
                assert(r@ =~= join(t.drop_last(), sep@) + sep@ + t.last());
            }
        }
    }
    proof {
        assert(views(ls@).take(ls.len() as int) =~= views(ls@));
    }
    r
}

/// `s` with each occurrence of `p` replaced by `r` (see `replace_all`).
pub fn replace_chars(s: &Vec<char>, p: &Vec<char>, r: &Vec<char>) -> (out: Vec<char>)
    requires
        p@.len() > 0,
    ensures
        out@ == replace_all(s@, p@, r@),
{
    let mut out: Vec<char> = Vec::new();
    let mut i: usize = 0;
    proof {
        assert(s@.skip(0) =~= s@);
    }
    while i < s.len()
        invariant
            p@.len() > 0,
            i <= s.len(),
            out@ + replace_all(s@.skip(i as int), p@, r@) == replace_all(s@, p@, r@),
        decreases s.len() - i,
    {
        let ghost rest = s@.skip(i as int);
        if matches_at_exec(s, p, i) {
            proof {
                assert(rest.take(p@.len() as int) =~= s@.subrange(i as int, i + p@.len()));
                assert(rest.skip(p@.len() as int) =~= s@.skip(i + p@.len()));
                assert(out@ + r@ + replace_all(s@.skip(i + p@.len()), p@, r@) =~= out@
                    + replace_all(rest, p@, r@));
            }
            extend(&mut out, r);
            i = i + p.len();
        } else {
            proof {
                if p@.len() <= rest.len() {
                    assert(rest.take(p@.len() as int) =~= s@.subrange(
                        i as int,
                        i + p@.len(),
                    ));
                }
                assert(rest.drop_first() =~= s@.skip(i + 1));
                assert(out@.push(s@[i as int]) + replace_all(s@.skip(i + 1), p@, r@) =~= out@
                    + replace_all(rest, p@, r@));
            }
            out.push(s[i]);
            i = i + 1;
        }
    }
    proof {
        assert(s@.skip(i as int) =~= Seq::<char>::empty());
        assert(out@ + Seq::<char>::empty() =~= out@);
    }
    out
}

/// `s` with each occurrence of `p` replaced by `r`.
pub fn replace_str(s: &str, p: &str, r: &str) -> (out: String)
    requires
        p@.len() > 0,
    ensures
        out@ == replace_all(s@, p@, r@),
{
    let sc = to_chars(s);
    let pc = to_chars(p);
    let rc = to_chars(r);
    let oc = replace_chars(&sc, &pc, &rc);
    from_chars(&oc)
}

} // verus!

verus! {

/// `c` with an ASCII capital made small (`to_ascii_lowercase`).
pub open spec fn ascii_lower(c: char) -> char {
    if 'A' <= c <= 'Z' {
        ((c as u32) + 32) as char
    } else {
        c
    }
}

/// `s` with each ASCII capital made small.
pub open spec fn ascii_lower_seq(s: Seq<char>) -> Seq<char> {
    s.map_values(|c: char| ascii_lower(c))
}

/// Every character of `s` is ASCII.
pub open spec fn is_ascii_text(s: Seq<char>) -> bool {
    forall|i: int| 0 <= i < s.len() ==> (#[trigger] s[i] as u32) < 128
}

/// What `str::to_lowercase` gives for a string (Unicode lowercase mapping).
pub uninterp spec fn lowercase(s: Seq<char>) -> Seq<char>;

/// `str::to_lowercase`: the string with every character mapped to its Unicode
/// lowercase form. Its result is named `lowercase`. As std documents, the lowercase
/// of an ASCII character is its ASCII lowercase, so an ASCII text has its capitals
/// made small and its other characters kept.
#[verifier::external_body]
pub(crate) fn to_lowercase(s: &str) -> (r: String)
    ensures
        r@ == lowercase(s@),
        is_ascii_text(s@) ==> r@ == ascii_lower_seq(s@),
{
    s.to_lowercase()
}

/// The string views of a sequence of `String`s.
pub open spec fn strs(v: Seq<String>) -> Seq<Seq<char>> {
    v.map_values(|x: String| x@)
}

} // verus!

verus! {

pub proof fn lemma_views_push(v: Seq<Vec<char>>, x: Vec<char>)
    ensures
        views(v.push(x)) == views(v).push(x@),
{
    assert(views(v.push(x)) =~= views(v).push(x@));
}

pub proof fn lemma_contains_push(s: Seq<Seq<char>>, x: Seq<char>, y: Seq<char>)
    ensures
        s.push(x).contains(y) <==> (s.contains(y) || y == x),
{
    if s.push(x).contains(y) {
        let i = choose|i: int| 0 <= i < s.push(x).len() && s.push(x)[i] == y;
        if i < s.len() {
            assert(s[i] == y);
        }
    }
    if s.contains(y) {
        let i = choose|i: int| 0 <= i < s.len() && s[i] == y;
        assert(s.push(x)[i] == y);
    }
    if y == x {
        assert(s.push(x)[s.len() as int] == y);
    }
}

/// Appends the characters of `s` as a new element of `out`.
pub fn push_str_chars(out: &mut Vec<Vec<char>>, s: &str)
    ensures
        views(final(out)@) == views(old(out)@).push(s@),
{
    let c = to_chars(s);
    let ghost o = old(out)@;
    out.push(c);
    proof {
        lemma_views_push(o, c);
    }
}

} // verus!

verus! {

/// A copy of `v`.
pub fn copy_chars(v: &Vec<char>) -> (r: Vec<char>)
    ensures
        r@ == v@,
{
    let mut r: Vec<char> = Vec::new();
    extend(&mut r, v);
    assert(r@ =~= v@);
    r
}

} // verus!

verus! {

/// Splitting at a `'\n'` between two texts splits each of them.
pub proof fn lemma_split_nl_concat(a: Seq<char>, b: Seq<char>)
    ensures
        split_nl(a + seq!['\n'] + b) == split_nl(a) + split_nl(b),
    decreases b.len(),
{
    lemma_split_nl_len(a);
    lemma_split_nl_len(b);
    if b.len() == 0 {
        assert((a + seq!['\n'] + b).drop_last() =~= a);
        assert(split_nl(a + seq!['\n'] + b) =~= split_nl(a) + split_nl(b));
    } else {
        let s = a + seq!['\n'] + b;
        assert(s.drop_last() =~= a + seq!['\n'] + b.drop_last());
        assert(s.last() == b.last());
        lemma_split_nl_concat(a, b.drop_last());
        lemma_split_nl_len(b.drop_last());
        assert(split_nl(s) =~= split_nl(a) + split_nl(b));
    }
}

/// A text without `'\n'` is a single piece.
pub proof fn lemma_split_nl_single(x: Seq<char>)
    requires
        !x.contains('\n'),
    ensures
        split_nl(x) == seq![x],
    decreases x.len(),
{
    if x.len() > 0 {
        assert(!x.drop_last().contains('\n')) by {
            if x.drop_last().contains('\n') {
                let i = choose|i: int| 0 <= i < x.drop_last().len() && x.drop_last()[i] == '\n';
                assert(x[i] == '\n');
            }
        }
        lemma_split_nl_single(x.drop_last());
        assert(x[x.len() - 1] != '\n');
        assert(x.drop_last().push(x.last()) =~= x);
        assert(split_nl(x) =~= seq![x]);
    } else {
        assert(x =~= Seq::<char>::empty());
    }
}

/// Joining lines without `'\n'` by `'\n'` and splitting again gives the lines back.
pub proof fn lemma_split_nl_join(ls: Seq<Seq<char>>)
    requires
        ls.len() >= 1,
        forall|i: int| 0 <= i < ls.len() ==> !(#[trigger] ls[i]).contains('\n'),
    ensures
        split_nl(join(ls, seq!['\n'])) == ls,
    decreases ls.len(),
{
    if ls.len() == 1 {
        lemma_split_nl_single(ls[0]);
        assert(ls =~= seq![ls[0]]);
    } else {
        let init = ls.drop_last();
        assert forall|i: int| 0 <= i < init.len() implies !(#[trigger] init[i]).contains('\n') by {
            assert(init[i] == ls[i]);
        }
        lemma_split_nl_join(init);
        lemma_split_nl_concat(join(init, seq!['\n']), ls.last());
        lemma_split_nl_single(ls.last());
        assert(ls =~= init + seq![ls.last()]);
    }
}

/// The last piece of a text is a suffix of it.
pub proof fn lemma_split_nl_last_suffix(s: Seq<char>)
    ensures
        split_nl(s).len() >= 1,
        ends_with(s, split_nl(s).last()),
    decreases s.len(),
{
    lemma_split_nl_len(s);
    if s.len() > 0 {
        lemma_split_nl_last_suffix(s.drop_last());
        let p = split_nl(s.drop_last());
        if s.last() == '\n' {
            assert(split_nl(s).last() =~= Seq::<char>::empty());
            assert(s.skip(s.len() as int) =~= Seq::<char>::empty());
        } else {
            let q = p.last();
            assert(split_nl(s).last() == q.push(s.last()));
            assert(s.drop_last().skip(s.drop_last().len() - q.len()) == q);
            assert(s.skip(s.len() - (q.len() + 1)) =~= q.push(s.last()));
            assert(ends_with(s, split_nl(s).last()));
        }
    } else {
        assert(split_nl(s).last() =~= Seq::<char>::empty());
        assert(s.skip(0) =~= s);
        assert(s =~= Seq::<char>::empty());
    }
}

/// Each piece of a text occurs in it.
pub proof fn lemma_split_nl_piece_occurs(s: Seq<char>, j: int)
    requires
        0 <= j < split_nl(s).len(),
    ensures
        exists|i: int| matches_at(s, split_nl(s)[j], i),
    decreases s.len(),
{
    lemma_split_nl_len(s);
    lemma_split_nl_last_suffix(s);
    let p = split_nl(s);
    if j == p.len() - 1 {
        let q = p.last();
        assert(matches_at(s, q, s.len() - q.len())) by {
            assert(s.subrange(s.len() - q.len(), s.len() as int) =~= s.skip(s.len() - q.len()));
        }
    } else {
        let s1 = s.drop_last();
        lemma_split_nl_len(s1);
        assert(s.len() > 0);
        let p1 = split_nl(s1);
        assert(p[j] == p1[j]);
        lemma_split_nl_piece_occurs(s1, j);
        let i = choose|i: int| matches_at(s1, p1[j], i);
        assert(s.subrange(i, i + p1[j].len()) =~= s1.subrange(i, i + p1[j].len()));
        assert(matches_at(s, p[j], i));
    }
}

/// Removing trailing whitespace keeps a prefix.
pub proof fn lemma_trim_end_prefix(s: Seq<char>)
    ensures
        trim_end(s).len() <= s.len(),
        s.take(trim_end(s).len() as int) == trim_end(s),
    decreases s.len(),
{
    if s.len() > 0 && is_ws(s.last()) {
        lemma_trim_end_prefix(s.drop_last());
        assert(s.take(trim_end(s).len() as int) =~= s.drop_last().take(
            trim_end(s.drop_last()).len() as int,
        ));
    } else {
        assert(s.take(s.len() as int) =~= s);
    }
}

/// A non-empty joined text starts with its first element.
pub proof fn lemma_join_starts(ls: Seq<Seq<char>>, sep: Seq<char>)
    requires
        ls.len() >= 1,
    ensures
        starts_with(join(ls, sep), ls[0]),
    decreases ls.len(),
{
    if ls.len() == 1 {
        assert(join(ls, sep).take(ls[0].len() as int) =~= ls[0]);
    } else {
        lemma_join_starts(ls.drop_last(), sep);
        let j0 = join(ls.drop_last(), sep);
        assert(join(ls, sep).take(ls[0].len() as int) =~= j0.take(ls[0].len() as int));
    }
}

} // verus!

verus! {

/// The position of the first occurrence of `p` in `s`, if any.
#[verifier::opaque]
pub open spec fn first_match(s: Seq<char>, p: Seq<char>) -> Option<int> {
    if contains_sub(s, p) {
        Some(choose|i: int| matches_at(s, p, i) && forall|j: int| 0 <= j < i ==> !matches_at(s, p, j))
    } else {
        None
    }
}

/// The parts of `s` before and after the first occurrence of `p` (`str::split_once`).
pub open spec fn split_once(s: Seq<char>, p: Seq<char>) -> Option<(Seq<char>, Seq<char>)> {
    match first_match(s, p) {
        Some(i) => Some((s.take(i), s.skip(i + p.len()))),
        None => None,
    }
}

/// The first occurrence found by a left-to-right search is `first_match`.
pub proof fn lemma_first_match(s: Seq<char>, p: Seq<char>, i: int)
    requires
        matches_at(s, p, i),
        forall|j: int| 0 <= j < i ==> !matches_at(s, p, j),
    ensures
        first_match(s, p) == Some(i),
{
    reveal(first_match);
    assert(contains_sub(s, p));
    let k = choose|k: int| matches_at(s, p, k) && forall|j: int| 0 <= j < k ==> !matches_at(s, p, j);
    if k < i {
        assert(!matches_at(s, p, k));
    }
    if i < k {
        assert(!matches_at(s, p, i));
    }
}

pub proof fn lemma_no_match(s: Seq<char>, p: Seq<char>)
    requires
        forall|j: int| 0 <= j ==> !matches_at(s, p, j),
    ensures
        first_match(s, p) is None,
{
    reveal(first_match);
    if contains_sub(s, p) {
        let k = choose|k: int| matches_at(s, p, k);
        assert(matches_at(s, p, k));
    }
}

/// A copy of `s[a..b]`.
pub fn slice_chars(s: &Vec<char>, a: usize, b: usize) -> (r: Vec<char>)
    requires
        a <= b <= s.len(),
    ensures
        r@ == s@.subrange(a as int, b as int),
{
    let mut r: Vec<char> = Vec::new();
    let mut i: usize = a;
    while i < b
        invariant
            a <= i <= b <= s.len(),
            r@ == s@.subrange(a as int, i as int),
        decreases b - i,
    {
        r.push(s[i]);
        i = i + 1;
        assert(r@ =~= s@.subrange(a as int, i as int));
    }
    r
}

/// `str::split_once` (see `split_once`).
pub fn split_once_chars(s: &Vec<char>, p: &Vec<char>) -> (r: Option<(Vec<char>, Vec<char>)>)
    ensures
        match (r, split_once(s@, p@)) {
            (Some((a, b)), Some((x, y))) => a@ == x && b@ == y,
            (None, None) => true,
            _ => false,
        },
{
    match find_from(s, p, 0) {
        Some(i) => {
            proof {
                lemma_first_match(s@, p@, i as int);
            }
            assert(i + p@.len() <= s@.len());
            assert(i + p.len() <= s.len());
            let j: usize = i + p.len();
            let before = slice_chars(s, 0, i);
            let after = slice_chars(s, j, s.len());
            assert(before@ =~= s@.take(i as int));
            assert(after@ =~= s@.skip(i + p@.len()));
            Some((before, after))
        },
        None => {
            proof {
                lemma_no_match(s@, p@);
            }
            None
        },
    }
}

/// The part of `s` after the first occurrence of `p`.
pub open spec fn after_first(s: Seq<char>, p: Seq<char>) -> Option<Seq<char>> {
    match split_once(s, p) {
        Some((_, b)) => Some(b),
        None => None,
    }
}

/// The part of `s` before the first occurrence of `p`.
pub open spec fn before_first(s: Seq<char>, p: Seq<char>) -> Option<Seq<char>> {
    match split_once(s, p) {
        Some((a, _)) => Some(a),
        None => None,
    }
}

/// `s` split at every occurrence of the non-empty `p`, left to right (`str::split`).
#[verifier::opaque]
pub open spec fn split_all(s: Seq<char>, p: Seq<char>) -> Seq<Seq<char>>
    decreases s.len(),
{
    match split_once(s, p) {
        Some((a, b)) => if p.len() > 0 && b.len() < s.len() {
            seq![a] + split_all(b, p)
        } else {
            seq![s]
        },
        None => seq![s],
    }
}

} // verus!

verus! {

pub proof fn lemma_split_all_step(s: Seq<char>, p: Seq<char>)
    requires
        p.len() > 0,
    ensures
        match split_once(s, p) {
            Some((a, b)) => b.len() < s.len() && split_all(s, p) == seq![a] + split_all(b, p),
            None => split_all(s, p) == seq![s],
        },
{
    reveal(split_all);
    lemma_first_match_facts(s, p);
}

/// A first match is a match.
pub proof fn lemma_first_match_facts(s: Seq<char>, p: Seq<char>)
    ensures
        first_match(s, p) matches Some(i) ==> matches_at(s, p, i) && forall|j: int|
            0 <= j < i ==> !matches_at(s, p, j),
{
    reveal(first_match);
    if contains_sub(s, p) {
        let k = choose|k: int| matches_at(s, p, k);
        lemma_min_match(s, p, k);
    }
}

proof fn lemma_min_match(s: Seq<char>, p: Seq<char>, k: int)
    requires
        matches_at(s, p, k),
    ensures
        exists|i: int| matches_at(s, p, i) && forall|j: int| 0 <= j < i ==> !matches_at(s, p, j),
    decreases k,
{
    if exists|j: int| 0 <= j < k && matches_at(s, p, j) {
        let j = choose|j: int| 0 <= j < k && matches_at(s, p, j);
        lemma_min_match(s, p, j);
    } else {
        assert(matches_at(s, p, k) && forall|j: int| 0 <= j < k ==> !matches_at(s, p, j));
    }
}

/// `str::split` at the non-empty pattern `p` (see `split_all`).
pub fn split_all_chars(s: &Vec<char>, p: &Vec<char>) -> (r: Vec<Vec<char>>)
    requires
        p@.len() > 0,
    ensures
        views(r@) == split_all(s@, p@),
{
    let mut pieces: Vec<Vec<char>> = Vec::new();
    let mut rest = copy_chars(s);
    proof {
        assert(views(pieces@) + split_all(rest@, p@) =~= split_all(s@, p@));
    }
    loop
        invariant
            p@.len() > 0,
            views(pieces@) + split_all(rest@, p@) == split_all(s@, p@),
        decreases rest@.len(),
    {
        proof {
            lemma_split_all_step(rest@, p@);
        }
        match split_once_chars(&rest, p) {
            Some((a, b)) => {
                proof {
                    lemma_views_push(pieces@, a);
                    assert(views(pieces@.push(a)) + split_all(b@, p@) =~= views(pieces@) + split_all(
                        rest@,
                        p@,
                    ));
                }
                pieces.push(a);
                rest = b;
            },
            None => {
                proof {
                    lemma_views_push(pieces@, rest);
                    assert(views(pieces@.push(rest)) =~= views(pieces@) + split_all(rest@, p@));
                }
                pieces.push(rest);
                return pieces;
            },
        }
    }
}

} // verus!

verus! {

proof fn lemma_join_update_last(p: Seq<Seq<char>>, c: char)
    requires
        p.len() >= 1,
    ensures
        join(p.update(p.len() - 1, p.last().push(c)), seq!['\n']) == join(p, seq!['\n']).push(c),
{
    let q = p.update(p.len() - 1, p.last().push(c));
    if p.len() == 1 {
        assert(q[0] == p[0].push(c));
    } else {
        assert(q.drop_last() =~= p.drop_last());
        assert(q.last() == p.last().push(c));
        assert(join(q, seq!['\n']) =~= join(p, seq!['\n']).push(c));
    }
}

/// Splitting a text at `'\n'` and joining the pieces by `'\n'` gives the text back.
pub proof fn lemma_join_split_nl(t: Seq<char>)
    ensures
        join(split_nl(t), seq!['\n']) == t,
    decreases t.len(),
{
    if t.len() == 0 {
        assert(split_nl(t) =~= seq![Seq::<char>::empty()]);
    } else {
        let s = t.drop_last();
        lemma_join_split_nl(s);
        lemma_split_nl_len(s);
        let p = split_nl(s);
        if t.last() == '\n' {
            assert(split_nl(t).drop_last() =~= p);
            assert(t =~= join(p, seq!['\n']) + seq!['\n'] + Seq::<char>::empty());
        } else {
            lemma_join_update_last(p, t.last());
            assert(t =~= s.push(t.last()));
        }
    }
}

/// Whether `s` holds a character that is not whitespace.
pub open spec fn has_non_ws(s: Seq<char>) -> bool {
    exists|i: int| 0 <= i < s.len() && !is_ws(#[trigger] s[i])
}

proof fn lemma_trim_start_append(t: Seq<char>, x: Seq<char>)
    requires
        has_non_ws(t),
    ensures
        trim_start(t + x) == trim_start(t) + x,
    decreases t.len(),
{
    if is_ws(t[0]) {
        let k = choose|i: int| 0 <= i < t.len() && !is_ws(#[trigger] t[i]);
        assert(k > 0);
        assert(!is_ws(t.drop_first()[k - 1]));
        lemma_trim_start_append(t.drop_first(), x);
        assert((t + x).drop_first() =~= t.drop_first() + x);
    } else {
        assert((t + x)[0] == t[0]);
    }
}

proof fn lemma_trim_start_all_ws(t: Seq<char>)
    requires
        !has_non_ws(t),
    ensures
        trim_start(t).len() == 0,
    decreases t.len(),
{
    if t.len() > 0 {
        assert(is_ws(t[0]));
        assert forall|i: int| 0 <= i < t.drop_first().len() implies is_ws(#[trigger] t.drop_first()[i]) by {
            assert(t.drop_first()[i] == t[i + 1]);
        }
        lemma_trim_start_all_ws(t.drop_first());
    }
}

proof fn lemma_trim_end_ws_suffix(t: Seq<char>, x: Seq<char>)
    requires
        forall|i: int| 0 <= i < x.len() ==> is_ws(#[trigger] x[i]),
    ensures
        trim_end(t + x) == trim_end(t),
    decreases x.len(),
{
    if x.len() > 0 {
        assert((t + x).drop_last() =~= t + x.drop_last());
        assert(is_ws(x[x.len() - 1]));
        lemma_trim_end_ws_suffix(t, x.drop_last());
    } else {
        assert(t + x =~= t);
    }
}

proof fn lemma_trim_end_keeps_non_ws_end(t: Seq<char>)
    requires
        t.len() > 0,
        !is_ws(t.last()),
    ensures
        trim_end(t) == t,
{
}

proof fn lemma_trim_start_suffix(s: Seq<char>)
    ensures
        s.len() >= trim_start(s).len(),
        trim_start(s) == s.skip(s.len() - trim_start(s).len()),
    decreases s.len(),
{
    if s.len() > 0 && is_ws(s[0]) {
        lemma_trim_start_suffix(s.drop_first());
        assert(s.drop_first().skip(s.drop_first().len() - trim_start(s.drop_first()).len()) =~= s.skip(
            s.len() - trim_start(s).len(),
        ));
    } else {
        assert(s.skip(0) =~= s);
    }
}

proof fn lemma_trim_end_all_ws(t: Seq<char>)
    requires
        trim_end(t).len() == 0,
    ensures
        !has_non_ws(t),
    decreases t.len(),
{
    if t.len() > 0 {
        assert(is_ws(t.last()));
        lemma_trim_end_all_ws(t.drop_last());
        assert forall|i: int| 0 <= i < t.len() implies is_ws(#[trigger] t[i]) by {
            if i < t.len() - 1 {
                assert(t[i] == t.drop_last()[i]);
                if !is_ws(t[i]) {
                    assert(has_non_ws(t.drop_last()));
                }
            }
        }
    }
}

proof fn lemma_trim_start_of_trim_end(c: Seq<char>)
    ensures
        trim_start(trim_end(c)) == trim_end(trim_start(c)),
    decreases c.len(),
{
    if c.len() > 0 && is_ws(c[0]) {
        // both sides drop the leading whitespace
        lemma_trim_start_of_trim_end(c.drop_first());
        let t = trim_end(c);
        if t.len() == 0 {
            lemma_trim_end_all_ws(c);
            lemma_trim_start_all_ws(c);
            assert(trim_start(c).len() == 0);
        } else {
            lemma_trim_end_prefix(c);
            assert(t[0] == c[0]);
            assert(trim_end(c.drop_first()) =~= t.drop_first()) by {
                lemma_trim_end_drop_first(c);
            }
        }
    } else if c.len() > 0 {
        // no leading whitespace: trimming the start changes nothing on either side
        let t = trim_end(c);
        lemma_trim_end_prefix(c);
        if t.len() > 0 {
            assert(t[0] == c[0]);
        } else {
            lemma_trim_end_all_ws(c);
            assert(!is_ws(c[0]));
            assert(has_non_ws(c));
        }
    }
}

proof fn lemma_trim_end_drop_first(c: Seq<char>)
    requires
        c.len() > 0,
        trim_end(c).len() > 0,
    ensures
        trim_end(c.drop_first()) == trim_end(c).drop_first(),
    decreases c.len(),
{
    if is_ws(c.last()) {
        let d = c.drop_last();
        assert(trim_end(c) == trim_end(d));
        if d.len() == 0 {
            assert(trim_end(d).len() == 0);
        }
        assert(c.drop_first().drop_last() =~= d.drop_first());
        assert(c.drop_first().last() == c.last());
        lemma_trim_end_drop_first(d);
    } else {
        assert(trim_end(c) == c);
        if c.drop_first().len() > 0 {
            assert(c.drop_first().last() == c.last());
        }
    }
}

proof fn lemma_trim_start_twice(s: Seq<char>)
    ensures
        trim_start(trim_start(s)) == trim_start(s),
    decreases s.len(),
{
    if s.len() > 0 && is_ws(s[0]) {
        lemma_trim_start_twice(s.drop_first());
    }
}

proof fn lemma_trim_end_twice(s: Seq<char>)
    ensures
        trim_end(trim_end(s)) == trim_end(s),
    decreases s.len(),
{
    if s.len() > 0 && is_ws(s.last()) {
        lemma_trim_end_twice(s.drop_last());
    }
}

/// Trimming twice is trimming once.
pub proof fn lemma_trim_twice(s: Seq<char>)
    ensures
        trim(trim(s)) == trim(s),
{
    let a = trim_start(s);
    lemma_trim_start_of_trim_end(a);
    lemma_trim_start_twice(s);
    lemma_trim_end_twice(a);
}

/// A text that starts with a character other than whitespace trims to a text that
/// starts with that character.
pub proof fn lemma_trim_first(s: Seq<char>)
    requires
        s.len() > 0,
        !is_ws(s[0]),
    ensures
        trim(s).len() > 0,
        trim(s)[0] == s[0],
{
    assert(trim_start(s) == s);
    lemma_trim_end_prefix(s);
    if trim_end(s).len() == 0 {
        lemma_trim_end_all_ws(s);
        assert(has_non_ws(s));
    }
    assert(trim_end(s)[0] == s.take(trim_end(s).len() as int)[0]);
}

/// A final `'\n'` does not change what a text trims to.
pub proof fn lemma_trim_newline(c: Seq<char>)
    ensures
        trim(c + seq!['\n']) == trim(c),
{
    let nl = seq!['\n'];
    assert(is_ws('\n'));
    if has_non_ws(c) {
        lemma_trim_start_append(c, nl);
        lemma_trim_end_ws_suffix(trim_start(c), nl);
    } else {
        assert(!has_non_ws(c + nl)) by {
            if has_non_ws(c + nl) {
                let k = choose|i: int| 0 <= i < (c + nl).len() && !is_ws(#[trigger] (c + nl)[i]);
                if k < c.len() {
                    assert((c + nl)[k] == c[k]);
                }
            }
        }
        lemma_trim_start_all_ws(c + nl);
        lemma_trim_start_all_ws(c);
    }
}

/// Trimming a text that no longer ends in whitespace, with a final `'\n'` added, is
/// trimming the given text.
pub proof fn lemma_trim_trim_end_newline(c: Seq<char>)
    ensures
        trim(trim_end(c) + seq!['\n']) == trim(c),
{
    let t = trim_end(c);
    let nl = seq!['\n'];
    assert(is_ws('\n'));
    lemma_trim_start_of_trim_end(c);
    if t.len() == 0 {
        lemma_trim_end_all_ws(c);
        lemma_trim_start_all_ws(c);
        assert(t + nl =~= nl);
        assert(trim_start(nl).len() == 0) by {
            assert(trim_start(nl) == trim_start(nl.drop_first()));
            assert(nl.drop_first() =~= Seq::<char>::empty());
        }
        assert(trim(c) =~= Seq::<char>::empty());
    } else {
        lemma_trim_end_prefix(c);
        lemma_trim_end_last(c);
        assert(!is_ws(t.last()));
        assert(has_non_ws(t));
        lemma_trim_start_append(t, nl);
        let u = trim_start(t);
        lemma_trim_start_suffix(t);
        assert(u.len() > 0) by {
            if u.len() == 0 {
                lemma_trim_start_all_ws_converse(t);
            }
        }
        assert(u.last() == t.last());
        assert forall|i: int| 0 <= i < nl.len() implies is_ws(#[trigger] nl[i]) by {}
        lemma_trim_end_ws_suffix(u, nl);
        lemma_trim_end_keeps_non_ws_end(u);
    }
}

pub proof fn lemma_trim_end_last(s: Seq<char>)
    requires
        trim_end(s).len() > 0,
    ensures
        !is_ws(trim_end(s).last()),
    decreases s.len(),
{
    if s.len() > 0 && is_ws(s.last()) {
        lemma_trim_end_last(s.drop_last());
    }
}

proof fn lemma_trim_start_all_ws_converse(t: Seq<char>)
    requires
        trim_start(t).len() == 0,
    ensures
        !has_non_ws(t),
    decreases t.len(),
{
    if t.len() > 0 {
        assert(is_ws(t[0]));
        lemma_trim_start_all_ws_converse(t.drop_first());
        assert forall|i: int| 0 <= i < t.len() implies is_ws(#[trigger] t[i]) by {
            if i > 0 {
                assert(t[i] == t.drop_first()[i - 1]);
                if !is_ws(t[i]) {
                    assert(has_non_ws(t.drop_first()));
                }
            }
        }
    }
}

} // verus!
