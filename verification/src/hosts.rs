use vstd::prelude::*;
use crate::text::{
    chars_eq, ends_with, ends_with_chars, extend, from_chars, join, lowercase, starts_with,
    starts_with_chars, to_chars, to_lowercase, trim, trim_chars, views, lemma_views_push,
    lemma_contains_push, push_str_chars, strs, contains_sub, contains_chars, join_chars, copy_chars, split_lines, lines_of, trim_end_chars, extend_str, trim_end, matches_at, split_nl, strip_cr, lemma_split_nl_concat,
    lemma_split_nl_join, lemma_split_nl_len, lemma_split_nl_piece_occurs, lemma_trim_end_prefix,
    lemma_join_starts, lemma_join_split_nl, lemma_split_nl_last_suffix, lemma_trim_end_last,
    lemma_trim_trim_end_newline, lemma_trim_twice,
};

verus! {

/// `std::io::Error`, carried inside `HostsError`.
#[verifier::external_type_specification]
#[verifier::external_body]
pub struct ExIoError(std::io::Error);

/// Failure to read or write the hosts file.
#[derive(Debug)]
pub enum HostsError {
    Io(std::io::Error),
}

pub type HostsResult<T> = Result<T, HostsError>;

// ---------------------------------------------------------------------------
// Ordering of domain names (the order of `String`: code point by code point)
// ---------------------------------------------------------------------------

/// `a` comes strictly before `b` in lexicographic code point order.
pub open spec fn lex_lt(a: Seq<char>, b: Seq<char>) -> bool
    decreases a.len(),
{
    if a.len() == 0 {
        b.len() > 0
    } else if b.len() == 0 {
        false
    } else if (a[0] as int) < (b[0] as int) {
        true
    } else if a[0] == b[0] {
        lex_lt(a.drop_first(), b.drop_first())
    } else {
        false
    }
}

pub proof fn lemma_lex_irreflexive(a: Seq<char>)
    ensures
        !lex_lt(a, a),
    decreases a.len(),
{
    if a.len() > 0 {
        lemma_lex_irreflexive(a.drop_first());
    }
}

pub proof fn lemma_lex_transitive(a: Seq<char>, b: Seq<char>, c: Seq<char>)
    requires
        lex_lt(a, b),
        lex_lt(b, c),
    ensures
        lex_lt(a, c),
    decreases a.len(),
{
    if a.len() > 0 && b.len() > 0 && c.len() > 0 {
        if a[0] == b[0] && b[0] == c[0] {
            lemma_lex_transitive(a.drop_first(), b.drop_first(), c.drop_first());
        }
    }
}

pub proof fn lemma_lex_total(a: Seq<char>, b: Seq<char>)
    requires
        a != b,
    ensures
        lex_lt(a, b) || lex_lt(b, a),
    decreases a.len(),
{
    if a.len() > 0 && b.len() > 0 && a[0] == b[0] {
        if a.drop_first() == b.drop_first() {
            assert(a =~= seq![a[0]] + a.drop_first());
            assert(b =~= seq![b[0]] + b.drop_first());
        }
        lemma_lex_total(a.drop_first(), b.drop_first());
    } else if a.len() == 0 && b.len() == 0 {
        assert(a =~= b);
    } else if a.len() > 0 && b.len() > 0 {
        assert((a[0] as int) != (b[0] as int));
    }
}

/// Each element of `s` comes strictly before the next (so no element occurs twice).
pub open spec fn sorted_strict(s: Seq<Seq<char>>) -> bool {
    forall|i: int, j: int| 0 <= i < j < s.len() ==> lex_lt(#[trigger] s[i], #[trigger] s[j])
}

/// Two strictly sorted sequences with the same elements are equal.
pub proof fn lemma_sorted_unique(a: Seq<Seq<char>>, b: Seq<Seq<char>>)
    requires
        sorted_strict(a),
        sorted_strict(b),
        forall|x: Seq<char>| a.contains(x) <==> b.contains(x),
    ensures
        a == b,
    decreases a.len(),
{
    if a.len() == 0 {
        if b.len() > 0 {
            assert(b.contains(b[0]));
        }
        assert(a =~= b);
    } else {
        assert(a.contains(a[0]));
        assert(b.contains(b[0]));
        let ja = choose|j: int| 0 <= j < b.len() && b[j] == a[0];
        let jb = choose|j: int| 0 <= j < a.len() && a[j] == b[0];
        if a[0] != b[0] {
            lemma_lex_total(a[0], b[0]);
            if lex_lt(a[0], b[0]) {
                assert(ja != 0);
                assert(lex_lt(b[0], b[ja]));
                lemma_lex_transitive(a[0], b[0], a[0]);
                lemma_lex_irreflexive(a[0]);
            } else {
                assert(jb != 0);
                assert(lex_lt(a[0], a[jb]));
                lemma_lex_transitive(b[0], a[0], b[0]);
                lemma_lex_irreflexive(b[0]);
            }
        }
        let a1 = a.drop_first();
        let b1 = b.drop_first();
        assert forall|x: Seq<char>| a1.contains(x) <==> b1.contains(x) by {
            if a1.contains(x) {
                let i = choose|i: int| 0 <= i < a1.len() && a1[i] == x;
                assert(a[i + 1] == x);
                assert(lex_lt(a[0], a[i + 1]));
                assert(b.contains(x));
                let k = choose|k: int| 0 <= k < b.len() && b[k] == x;
                if k == 0 {
                    lemma_lex_irreflexive(x);
                }
                assert(b1[k - 1] == x);
            }
            if b1.contains(x) {
                let i = choose|i: int| 0 <= i < b1.len() && b1[i] == x;
                assert(b[i + 1] == x);
                assert(lex_lt(b[0], b[i + 1]));
                assert(a.contains(x));
                let k = choose|k: int| 0 <= k < a.len() && a[k] == x;
                if k == 0 {
                    lemma_lex_irreflexive(x);
                }
                assert(a1[k - 1] == x);
            }
        }
        assert(sorted_strict(a1)) by {
            assert forall|i: int, j: int| 0 <= i < j < a1.len() implies lex_lt(
                #[trigger] a1[i],
                #[trigger] a1[j],
            ) by {
                assert(a1[i] == a[i + 1] && a1[j] == a[j + 1]);
            }
        }
        assert(sorted_strict(b1)) by {
            assert forall|i: int, j: int| 0 <= i < j < b1.len() implies lex_lt(
                #[trigger] b1[i],
                #[trigger] b1[j],
            ) by {
                assert(b1[i] == b[i + 1] && b1[j] == b[j + 1]);
            }
        }
        lemma_sorted_unique(a1, b1);
        assert(a =~= seq![a[0]] + a1);
        assert(b =~= seq![b[0]] + b1);
    }
}

/// Whether `a` comes strictly before `b`.
fn lex_less(a: &Vec<char>, b: &Vec<char>) -> (r: bool)
    ensures
        r == lex_lt(a@, b@),
{
    let mut i: usize = 0;
    proof {
        assert(a@.skip(0) =~= a@);
        assert(b@.skip(0) =~= b@);
    }
    while i < a.len() && i < b.len() && a[i] == b[i]
        invariant
            i <= a.len(),
            i <= b.len(),
            lex_lt(a@.skip(i as int), b@.skip(i as int)) == lex_lt(a@, b@),
        decreases a.len() - i,
    {
        proof {
            assert(a@.skip(i as int).drop_first() =~= a@.skip(i + 1));
            assert(b@.skip(i as int).drop_first() =~= b@.skip(i + 1));
        }
        i = i + 1;
    }
    if i == a.len() {
        i < b.len()
    } else if i == b.len() {
        false
    } else {
        a[i] < b[i]
    }
}

/// Inserts `x` into the strictly sorted `v`, unless it is there already.
fn insert_sorted(v: &mut Vec<Vec<char>>, x: Vec<char>)
    requires
        sorted_strict(views(old(v)@)),
    ensures
        sorted_strict(views(final(v)@)),
        forall|y: Seq<char>| views(final(v)@).contains(y) <==> (views(old(v)@).contains(y) || y == x@),
{
    let ghost old_v = views(v@);
    let mut k: usize = 0;
    while k < v.len() && lex_less(&v[k], &x)
        invariant
            k <= v.len(),
            views(v@) == old_v,
            forall|j: int| 0 <= j < k ==> lex_lt(#[trigger] old_v[j], x@),
        decreases v.len() - k,
    {
        k = k + 1;
    }
    if k < v.len() && chars_eq(&v[k], &x) {
        assert(old_v[k as int] == x@);
        assert forall|y: Seq<char>| views(v@).contains(y) <==> (old_v.contains(y) || y == x@) by {
            if y == x@ {
                assert(old_v[k as int] == y);
            }
        }
        return;
    }
    proof {
        assert forall|j: int| k <= j < old_v.len() implies lex_lt(x@, #[trigger] old_v[j]) by {
            assert(!lex_lt(old_v[k as int], x@));
            assert(old_v[k as int] != x@);
            lemma_lex_total(old_v[k as int], x@);
            if j > k {
                lemma_lex_transitive(x@, old_v[k as int], old_v[j]);
            }
        }
    }
    let ghost xv = x@;
    v.insert(k, x);
    proof {
        let nv = views(v@);
        assert(nv =~= old_v.insert(k as int, xv));
        assert forall|i: int, j: int| 0 <= i < j < nv.len() implies lex_lt(
            #[trigger] nv[i],
            #[trigger] nv[j],
        ) by {
            if j < k {
                assert(nv[i] == old_v[i] && nv[j] == old_v[j]);
            } else if j == k {
                assert(nv[i] == old_v[i]);
            } else if i < k {
                assert(nv[i] == old_v[i] && nv[j] == old_v[j - 1]);
                assert(lex_lt(old_v[i], xv));
                assert(lex_lt(xv, old_v[j - 1]));
                lemma_lex_transitive(old_v[i], xv, old_v[j - 1]);
            } else if i == k {
                assert(nv[j] == old_v[j - 1]);
            } else {
                assert(nv[i] == old_v[i - 1] && nv[j] == old_v[j - 1]);
            }
        }
        assert forall|y: Seq<char>| nv.contains(y) <==> (old_v.contains(y) || y == xv) by {
            if nv.contains(y) {
                let i = choose|i: int| 0 <= i < nv.len() && nv[i] == y;
                if i < k {
                    assert(old_v[i] == y);
                } else if i > k {
                    assert(old_v[i - 1] == y);
                }
            }
            if old_v.contains(y) {
                let i = choose|i: int| 0 <= i < old_v.len() && old_v[i] == y;
                if i < k {
                    assert(nv[i] == y);
                } else {
                    assert(nv[i + 1] == y);
                }
            }
            if y == xv {
                assert(nv[k as int] == y);
            }
        }
    }
}

} // verus!

verus! {

// ---------------------------------------------------------------------------
// Domain aliases
// ---------------------------------------------------------------------------

/// A domain as the block list uses it: trimmed, then lowercased.
pub open spec fn normalize_domain(d: Seq<char>) -> Seq<char> {
    lowercase(trim(d))
}

/// YouTube's own domains and their subdomains.
pub open spec fn is_youtube(d: Seq<char>) -> bool {
    ||| d == "youtube.com"@
    ||| d == "youtu.be"@
    ||| d == "youtube-nocookie.com"@
    ||| ends_with(d, ".youtube.com"@)
    ||| ends_with(d, ".youtu.be"@)
    ||| ends_with(d, ".youtube-nocookie.com"@)
}

/// Every domain through which YouTube is reached.
pub open spec fn youtube_aliases() -> Set<Seq<char>> {
    set![
        "youtube.com"@,
        "www.youtube.com"@,
        "m.youtube.com"@,
        "music.youtube.com"@,
        "studio.youtube.com"@,
        "kids.youtube.com"@,
        "youtu.be"@,
        "youtube-nocookie.com"@,
        "www.youtube-nocookie.com"@,
    ]
}

/// How many times `c` occurs in `s`.
pub open spec fn count_char(s: Seq<char>, c: char) -> nat
    decreases s.len(),
{
    if s.len() == 0 {
        0
    } else {
        count_char(s.drop_last(), c) + if s.last() == c {
            1nat
        } else {
            0nat
        }
    }
}

/// The names blocked for one configured domain: the normalized domain; its `www.`
/// twin, that is the name without `www.` when it starts with it, or the name with
/// `www.` in front when it has exactly one dot (a subdomain such as `m.tiktok.com`
/// gets none); and all of YouTube's domains when it is one of them. An empty domain
/// blocks nothing.
pub open spec fn domain_alias_set(d: Seq<char>) -> Set<Seq<char>> {
    let n = normalize_domain(d);
    if n.len() == 0 {
        Set::empty()
    } else {
        let www = if n.contains('.') {
            if starts_with(n, "www."@) {
                set![n.skip("www."@.len() as int)]
            } else if count_char(n, '.') == 1 {
                set!["www."@ + n]
            } else {
                Set::empty()
            }
        } else {
            Set::empty()
        };
        let yt = if is_youtube(n) {
            youtube_aliases()
        } else {
            Set::empty()
        };
        set![n].union(www).union(yt)
    }
}

/// The names blocked for a whole list of domains.
pub open spec fn alias_union(ds: Seq<Seq<char>>) -> Set<Seq<char>>
    decreases ds.len(),
{
    if ds.len() == 0 {
        Set::empty()
    } else {
        alias_union(ds.drop_last()).union(domain_alias_set(ds.last()))
    }
}

/// The blocked names in order: the strictly sorted sequence of `alias_union(ds)`.
pub open spec fn expanded_domains(ds: Seq<Seq<char>>) -> Seq<Seq<char>> {
    choose|s: Seq<Seq<char>>|
        sorted_strict(s) && forall|x: Seq<char>| s.contains(x) <==> alias_union(ds).contains(x)
}

/// The hosts entries for the names `ds`: for each name, one line per redirect address.
pub open spec fn entry_lines(ds: Seq<Seq<char>>, ips: Seq<Seq<char>>) -> Seq<Seq<char>>
    decreases ds.len(),
{
    if ds.len() == 0 {
        Seq::empty()
    } else {
        entry_lines(ds.drop_last(), ips) + ips.map_values(|ip: Seq<char>| ip + seq![' '] + ds.last())
    }
}

/// The lines of the managed section: the marker, the entries, the marker again.
pub open spec fn block_lines(marker: Seq<char>, domains: Seq<Seq<char>>, ips: Seq<Seq<char>>) -> Seq<Seq<char>> {
    seq![marker] + entry_lines(expanded_domains(domains), ips) + seq![marker]
}

/// The managed section as text.
pub open spec fn block_section(marker: Seq<char>, domains: Seq<Seq<char>>, ips: Seq<Seq<char>>) -> Seq<char> {
    join(block_lines(marker, domains, ips), seq!['\n'])
}

/// Whether `domain` is one of YouTube's domains.
pub fn is_youtube_domain(domain: &Vec<char>) -> (r: bool)
    ensures
        r == is_youtube(domain@),
{
    let a = to_chars("youtube.com");
    let b = to_chars("youtu.be");
    let c = to_chars("youtube-nocookie.com");
    let d = to_chars(".youtube.com");
    let e = to_chars(".youtu.be");
    let f = to_chars(".youtube-nocookie.com");
    chars_eq(domain, &a) || chars_eq(domain, &b) || chars_eq(domain, &c) || ends_with_chars(
        domain,
        &d,
    ) || ends_with_chars(domain, &e) || ends_with_chars(domain, &f)
}

fn count_char_exec(v: &Vec<char>, c: char) -> (r: usize)
    ensures
        r == count_char(v@, c),
{
    let mut n: usize = 0;
    let mut i: usize = 0;
    while i < v.len()
        invariant
            i <= v.len(),
            n == count_char(v@.take(i as int), c),
            n <= i,
        decreases v.len() - i,
    {
        assert(v@.take(i + 1).drop_last() =~= v@.take(i as int));
        if v[i] == c {
            n = n + 1;
        }
        i = i + 1;
    }
    assert(v@.take(v.len() as int) =~= v@);
    n
}

fn contains_char(v: &Vec<char>, c: char) -> (r: bool)
    ensures
        r == v@.contains(c),
{
    let mut i: usize = 0;
    while i < v.len()
        invariant
            i <= v.len(),
            forall|j: int| 0 <= j < i ==> v@[j] != c,
        decreases v.len() - i,
    {
        if v[i] == c {
            return true;
        }
        i = i + 1;
    }
    false
}

/// The names blocked for `domain` (see `domain_alias_set`), possibly with repeats.
pub fn domain_aliases(domain: &str) -> (r: Vec<Vec<char>>)
    ensures
        forall|y: Seq<char>| views(r@).contains(y) <==> domain_alias_set(domain@).contains(y),
{
    let raw = to_chars(domain);
    let trimmed = trim_chars(&raw);
    let trimmed_s = from_chars(&trimmed);
    let lowered = to_lowercase(trimmed_s.as_str());
    let n = to_chars(lowered.as_str());
    let ghost nv = n@;
    assert(nv == normalize_domain(domain@));
    let mut out: Vec<Vec<char>> = Vec::new();
    if n.len() == 0 {
        assert forall|y: Seq<char>| views(out@).contains(y) <==> domain_alias_set(
            domain@,
        ).contains(y) by {
            if views(out@).contains(y) {
                let i = choose|i: int| 0 <= i < views(out@).len() && views(out@)[i] == y;
            }
        }
        return out;
    }
    let ghost mut expected: Set<Seq<char>> = set![nv];
    let ghost o0 = out@;
    let first = to_chars(lowered.as_str());
    out.push(first);
    proof {
        lemma_views_push(o0, first);
        assert forall|y: Seq<char>| views(out@).contains(y) <==> expected.contains(y) by {
            lemma_contains_push(views(o0), nv, y);
        }
    }
    let www = to_chars("www.");
    if contains_char(&n, '.') && (starts_with_chars(&n, &www) || count_char_exec(&n, '.') == 1) {
        let mut alias: Vec<char> = Vec::new();
        if starts_with_chars(&n, &www) {
            let mut i: usize = www.len();
            while i < n.len()
                invariant
                    www@.len() <= i <= n@.len(),
                    alias@ == n@.subrange(www@.len() as int, i as int),
                decreases n.len() - i,
            {
                alias.push(n[i]);
                i = i + 1;
                assert(alias@ =~= n@.subrange(www@.len() as int, i as int));
            }
            assert(alias@ =~= nv.skip("www."@.len() as int));
        } else {
            alias = www;
            extend(&mut alias, &n);
        }
        let ghost o1 = out@;
        let ghost av = alias@;
        out.push(alias);
        proof {
            lemma_views_push(o1, alias);
            assert forall|y: Seq<char>| views(out@).contains(y) <==> expected.union(
                set![av],
            ).contains(y) by {
                lemma_contains_push(views(o1), av, y);
            }
            expected = expected.union(set![av]);
        }
    } else {
        assert(expected.union(Set::empty()) =~= expected);
    }
    if is_youtube_domain(&n) {
        let ghost before = expected;
        let ghost pre = views(out@);
        push_str_chars(&mut out, "youtube.com");
        push_str_chars(&mut out, "www.youtube.com");
        push_str_chars(&mut out, "m.youtube.com");
        push_str_chars(&mut out, "music.youtube.com");
        push_str_chars(&mut out, "studio.youtube.com");
        push_str_chars(&mut out, "kids.youtube.com");
        push_str_chars(&mut out, "youtu.be");
        push_str_chars(&mut out, "youtube-nocookie.com");
        push_str_chars(&mut out, "www.youtube-nocookie.com");
        proof {
            let vo = views(out@);
            let k = vo.len() - 9;
            assert(k == pre.len());
            assert(vo.take(k) =~= pre);
            assert forall|y: Seq<char>| vo.contains(y) <==> before.union(youtube_aliases()).contains(
                y,
            ) by {
                if vo.contains(y) {
                    let i = choose|i: int| 0 <= i < vo.len() && vo[i] == y;
                    if i < k {
                        assert(vo.take(k).contains(y)) by {
                            assert(vo.take(k)[i] == y);
                        }
                    }
                }
                if before.contains(y) {
                    assert(vo.take(k).contains(y));
                    let i = choose|i: int| 0 <= i < k && vo.take(k)[i] == y;
                    assert(vo[i] == y);
                }
                if youtube_aliases().contains(y) {
                    if y == "youtube.com"@ { assert(vo[k] == y); }
                    if y == "www.youtube.com"@ { assert(vo[k + 1] == y); }
                    if y == "m.youtube.com"@ { assert(vo[k + 2] == y); }
                    if y == "music.youtube.com"@ { assert(vo[k + 3] == y); }
                    if y == "studio.youtube.com"@ { assert(vo[k + 4] == y); }
                    if y == "kids.youtube.com"@ { assert(vo[k + 5] == y); }
                    if y == "youtu.be"@ { assert(vo[k + 6] == y); }
                    if y == "youtube-nocookie.com"@ { assert(vo[k + 7] == y); }
                    if y == "www.youtube-nocookie.com"@ { assert(vo[k + 8] == y); }
                }
            }
            expected = before.union(youtube_aliases());
        }
    } else {
        assert(expected.union(Set::empty()) =~= expected);
    }
    assert(expected =~= domain_alias_set(domain@));
    out
}

} // verus!

verus! {

/// The blocked names for `domains`, sorted and without repeats.
fn expand_domains(domains: &[String]) -> (r: Vec<Vec<char>>)
    ensures
        views(r@) == expanded_domains(strs(domains@)),
{
    let ghost ds = strs(domains@);
    let mut out: Vec<Vec<char>> = Vec::new();
    let mut i: usize = 0;
    proof {
        assert(ds.take(0) =~= Seq::<Seq<char>>::empty());
    }
    while i < domains.len()
        invariant
            ds == strs(domains@),
            i <= domains.len(),
            sorted_strict(views(out@)),
            forall|y: Seq<char>| views(out@).contains(y) <==> alias_union(ds.take(i as int)).contains(y),
        decreases domains.len() - i,
    {
        let aliases = domain_aliases(domains[i].as_str());
        let ghost before = views(out@);
        let mut k: usize = 0;
        while k < aliases.len()
            invariant
                k <= aliases.len(),
                sorted_strict(views(out@)),
                forall|y: Seq<char>| #[trigger] views(out@).contains(y) <==> (before.contains(y)
                    || views(aliases@).take(k as int).contains(y)),
            decreases aliases.len() - k,
        {
            let a = copy_chars(&aliases[k]);
            let ghost prev = views(out@);
            let ghost k0: int = k as int;
            let ghost av = a@;
            insert_sorted(&mut out, a);
            proof {
                assert(av == views(aliases@)[k as int]);
                assert forall|y: Seq<char>| #[trigger] views(out@).contains(y) <==> (before.contains(y)
                    || views(aliases@).take(k + 1).contains(y)) by {
                    assert(views(out@).contains(y) <==> (prev.contains(y) || y == av));
                    assert(views(aliases@).take(k + 1) =~= views(aliases@).take(k as int).push(av));
                    lemma_contains_push(views(aliases@).take(k as int), av, y);
                }
            }
            k = k + 1;
        }
        proof {
            assert(views(aliases@).take(aliases.len() as int) =~= views(aliases@));
            assert(ds.take(i + 1).drop_last() =~= ds.take(i as int));
            assert(ds.take(i + 1).last() == domains@[i as int]@);
            assert(alias_union(ds.take(i + 1)) == alias_union(ds.take(i as int)).union(
                domain_alias_set(domains@[i as int]@),
            ));
        }
        i = i + 1;
    }
    proof {
        assert(ds.take(domains.len() as int) =~= ds);
        let s = views(out@);
        assert(sorted_strict(s) && forall|x: Seq<char>| s.contains(x) <==> alias_union(ds).contains(x));
        let c = expanded_domains(ds);
        assert(sorted_strict(c) && forall|x: Seq<char>| c.contains(x) <==> alias_union(ds).contains(x));
        lemma_sorted_unique(s, c);
    }
    out
}

/// Whether the hosts file content holds the marker anywhere.
pub fn is_blocked(content: &str, marker: &str) -> (r: bool)
    ensures
        r == contains_sub(content@, marker@),
{
    let c = to_chars(content);
    let m = to_chars(marker);
    contains_chars(&c, &m)
}

/// The managed section for `domains`: the marker line, one `"<ip> <name>"` line per
/// redirect address for each blocked name in order, and the marker line again.
pub fn build_block_section(marker: &str, domains: &[String], redirect_ips: &[String]) -> (r: String)
    ensures
        r@ == block_section(marker@, strs(domains@), strs(redirect_ips@)),
{
    let r = build_block_lines(marker, domains, redirect_ips);
    let sep = to_chars("\n");
    proof {
        reveal_strlit("\n");
        assert(sep@ =~= seq!['\n']);
    }
    let joined = join_chars(&r, &sep);
    from_chars(&joined)
}

fn build_block_lines(marker: &str, domains: &[String], redirect_ips: &[String]) -> (r: Vec<Vec<char>>)
    ensures
        views(r@) == block_lines(marker@, strs(domains@), strs(redirect_ips@)),
{
    let names = expand_domains(domains);
    let ghost ips = strs(redirect_ips@);
    let ghost ns = views(names@);
    let mut lines: Vec<Vec<char>> = Vec::new();
    let m = to_chars(marker);
    lines.push(m);
    proof {
        assert(views(lines@) =~= seq![marker@]);
        assert(ns.take(0) =~= Seq::<Seq<char>>::empty());
        assert(views(lines@) =~= seq![marker@] + entry_lines(ns.take(0), ips));
    }
    let mut i: usize = 0;
    while i < names.len()
        invariant
            ns == views(names@),
            ips == strs(redirect_ips@),
            i <= names.len(),
            views(lines@) == seq![marker@] + entry_lines(ns.take(i as int), ips),
        decreases names.len() - i,
    {
        let ghost before = views(lines@);
        let mut j: usize = 0;
        proof {
            assert(ips.take(0).map_values(|ip: Seq<char>| ip + seq![' '] + ns[i as int])
                =~= Seq::<Seq<char>>::empty());
            assert(before =~= before + ips.take(0).map_values(
                |ip: Seq<char>| ip + seq![' '] + ns[i as int],
            ));
        }
        while j < redirect_ips.len()
            invariant
                ns == views(names@),
                ips == strs(redirect_ips@),
                i < names.len(),
                j <= redirect_ips.len(),
                views(lines@) == before + ips.take(j as int).map_values(
                    |ip: Seq<char>| ip + seq![' '] + ns[i as int],
                ),
            decreases redirect_ips.len() - j,
        {
            let mut line = to_chars(redirect_ips[j].as_str());
            line.push(' ');
            extend(&mut line, &names[i]);
            let ghost o = lines@;
            let ghost lv = line@;
            lines.push(line);
            proof {
                lemma_views_push(o, line);
                assert(lv == ips[j as int] + seq![' '] + ns[i as int]);
                assert(ips.take(j + 1).map_values(|ip: Seq<char>| ip + seq![' '] + ns[i as int])
                    =~= ips.take(j as int).map_values(
                    |ip: Seq<char>| ip + seq![' '] + ns[i as int],
                ).push(lv));
            }
            j = j + 1;
        }
        proof {
            assert(ips.take(redirect_ips.len() as int) =~= ips);
            assert(ns.take(i + 1).drop_last() =~= ns.take(i as int));
            assert(ns.take(i + 1).last() == ns[i as int]);
        }
        i = i + 1;
    }
    let m2 = to_chars(marker);
    let ghost o = lines@;
    lines.push(m2);
    proof {
        lemma_views_push(o, m2);
        assert(ns.take(names.len() as int) =~= ns);
        assert(views(lines@) =~= block_lines(marker@, strs(domains@), ips));
    }
    lines
}

} // verus!

verus! {

/// The index of the first line at or after `i` equal to `m`, or `ls.len()` if none.
pub open spec fn next_marker(ls: Seq<Seq<char>>, m: Seq<char>, i: int) -> int
    decreases ls.len() - i,
{
    if i < 0 || i >= ls.len() {
        ls.len() as int
    } else if ls[i] == m {
        i
    } else {
        next_marker(ls, m, i + 1)
    }
}

/// The managed section present in `content`: the lines from the first marker line
/// through the next marker line, joined by `'\n'`; none without two marker lines.
pub open spec fn existing_block(content: Seq<char>, m: Seq<char>) -> Option<Seq<char>> {
    let ls = lines_of(content);
    let a = next_marker(ls, m, 0);
    let b = next_marker(ls, m, a + 1);
    if b < ls.len() {
        Some(join(ls.subrange(a, b + 1), seq!['\n']))
    } else {
        None
    }
}

/// The lines that remain when every marker line is dropped together with the lines
/// between a marker line and the next one; the flag tells whether the last line
/// seen leaves a section open.
pub open spec fn kept_lines(ls: Seq<Seq<char>>, m: Seq<char>) -> (Seq<Seq<char>>, bool)
    decreases ls.len(),
{
    if ls.len() == 0 {
        (Seq::empty(), false)
    } else {
        let (k, inside) = kept_lines(ls.drop_last(), m);
        let l = ls.last();
        if l == m {
            (k, !inside)
        } else if inside {
            (k, inside)
        } else {
            (k.push(l), inside)
        }
    }
}

/// The hosts content with every managed section removed: the kept lines joined by
/// `'\n'`, trimmed, with one final `'\n'`.
pub open spec fn removed_block(content: Seq<char>, m: Seq<char>) -> Seq<char> {
    trim(join(kept_lines(lines_of(content), m).0, seq!['\n'])) + seq!['\n']
}

/// The hosts content with a section appended: the content without trailing
/// whitespace, an empty line, the section, and a final `'\n'`.
pub open spec fn added_block(content: Seq<char>, block: Seq<char>) -> Seq<char> {
    trim_end(content) + seq!['\n', '\n'] + block + seq!['\n']
}

pub proof fn lemma_next_marker(ls: Seq<Seq<char>>, m: Seq<char>, i: int)
    requires
        0 <= i <= ls.len(),
    ensures
        i <= next_marker(ls, m, i) <= ls.len(),
        next_marker(ls, m, i) < ls.len() ==> ls[next_marker(ls, m, i)] == m,
        forall|j: int| i <= j < next_marker(ls, m, i) ==> ls[j] != m,
    decreases ls.len() - i,
{
    if i < ls.len() && ls[i] != m {
        lemma_next_marker(ls, m, i + 1);
    }
}

fn find_marker(lines: &Vec<Vec<char>>, m: &Vec<char>, from: usize) -> (r: usize)
    ensures
        r as int == next_marker(views(lines@), m@, from as int),
{
    let ghost ls = views(lines@);
    if from >= lines.len() {
        return lines.len();
    }
    let mut k: usize = from;
    while k < lines.len()
        invariant
            ls == views(lines@),
            from <= k <= lines.len(),
            next_marker(ls, m@, k as int) == next_marker(ls, m@, from as int),
        decreases lines.len() - k,
    {
        if chars_eq(&lines[k], m) {
            return k;
        }
        k = k + 1;
    }
    k
}

fn copy_lines(lines: &Vec<Vec<char>>, a: usize, b: usize) -> (r: Vec<Vec<char>>)
    requires
        a <= b <= lines.len(),
    ensures
        views(r@) == views(lines@).subrange(a as int, b as int),
{
    let mut r: Vec<Vec<char>> = Vec::new();
    let mut i: usize = a;
    while i < b
        invariant
            a <= i <= b <= lines.len(),
            views(r@) == views(lines@).subrange(a as int, i as int),
        decreases b - i,
    {
        let c = copy_chars(&lines[i]);
        let ghost o = r@;
        r.push(c);
        proof {
            lemma_views_push(o, c);
            assert(views(r@) =~= views(lines@).subrange(a as int, i + 1));
        }
        i = i + 1;
    }
    r
}

fn newline() -> (r: Vec<char>)
    ensures
        r@ == seq!['\n'],
{
    let r = to_chars("\n");
    proof {
        reveal_strlit("\n");
        assert(r@ =~= seq!['\n']);
    }
    r
}

/// The managed section currently in `content`, if any (see `existing_block`).
pub fn get_existing_block_section(content: &str, marker: &str) -> (r: HostsResult<Option<String>>)
    ensures
        match r {
            Ok(Some(s)) => existing_block(content@, marker@) == Some(s@),
            Ok(None) => existing_block(content@, marker@) is None,
            Err(_) => false,
        },
{
    let c = to_chars(content);
    let m = to_chars(marker);
    let lines = split_lines(&c);
    let a = find_marker(&lines, &m, 0);
    if a >= lines.len() {
        proof {
            let ls = lines_of(content@);
            assert(next_marker(ls, marker@, a + 1) == ls.len());
        }
        return Ok(None);
    }
    let b = find_marker(&lines, &m, a + 1);
    proof {
        lemma_next_marker(views(lines@), m@, a + 1);
    }
    if b >= lines.len() {
        return Ok(None);
    }
    let section = copy_lines(&lines, a, b + 1);
    let sep = newline();
    let joined = join_chars(&section, &sep);
    Ok(Some(from_chars(&joined)))
}

/// Whether `content` holds exactly the section that `build_block_section` makes.
pub fn has_expected_block(content: &str, marker: &str, domains: &[String], redirect_ips: &[String]) -> (r:
    HostsResult<bool>)
    ensures
        r matches Ok(b) && b == (existing_block(content@, marker@) == Some(
            block_section(marker@, strs(domains@), strs(redirect_ips@)),
        )),
{
    let existing = get_existing_block_section(content, marker);
    let expected = build_block_section(marker, domains, redirect_ips);
    match existing {
        Ok(Some(b)) => {
            let bc = to_chars(b.as_str());
            let ec = to_chars(expected.as_str());
            Ok(chars_eq(&bc, &ec))
        },
        _ => Ok(false),
    }
}

/// `content` with `block_section` appended (see `added_block`).
pub fn add_block(content: &str, block_section: &str) -> (r: String)
    ensures
        r@ == added_block(content@, block_section@),
{
    let c = to_chars(content);
    let mut out = trim_end_chars(&c);
    out.push('\n');
    out.push('\n');
    extend_str(&mut out, block_section);
    out.push('\n');
    assert(out@ =~= added_block(content@, block_section@));
    from_chars(&out)
}

/// `content` with every managed section removed (see `removed_block`).
pub fn remove_block(content: &str, marker: &str) -> (r: HostsResult<String>)
    ensures
        r matches Ok(s) && s@ == removed_block(content@, marker@),
{
    let c = to_chars(content);
    let m = to_chars(marker);
    let lines = split_lines(&c);
    let ghost ls = views(lines@);
    let mut kept: Vec<Vec<char>> = Vec::new();
    let mut inside = false;
    let mut i: usize = 0;
    proof {
        assert(ls.take(0) =~= Seq::<Seq<char>>::empty());
    }
    while i < lines.len()
        invariant
            ls == views(lines@),
            i <= lines.len(),
            (views(kept@), inside) == kept_lines(ls.take(i as int), m@),
        decreases lines.len() - i,
    {
        proof {
            assert(ls.take(i + 1).drop_last() =~= ls.take(i as int));
            assert(ls.take(i + 1).last() == ls[i as int]);
        }
        if chars_eq(&lines[i], &m) {
            inside = !inside;
        } else if !inside {
            let l = copy_chars(&lines[i]);
            let ghost o = kept@;
            kept.push(l);
            proof {
                lemma_views_push(o, l);
            }
        }
        i = i + 1;
    }
    proof {
        assert(ls.take(lines.len() as int) =~= ls);
    }
    let sep = newline();
    let joined = join_chars(&kept, &sep);
    let mut out = trim_chars(&joined);
    out.push('\n');
    Ok(from_chars(&out))
}

} // verus!

verus! {

/// The entries for the names `ns`, in closed form: `ns.len() * ips.len()` lines,
/// the one at `i * ips.len() + j` redirecting name `i` to address `j`.
proof fn lemma_entry_lines_at(ns: Seq<Seq<char>>, ips: Seq<Seq<char>>)
    ensures
        entry_lines(ns, ips).len() == ns.len() * ips.len(),
        forall|i: int, j: int|
            0 <= i < ns.len() && 0 <= j < ips.len() ==> #[trigger] entry_lines(ns, ips)[i * ips.len() + j]
                == ips[j] + seq![' '] + ns[i],
    decreases ns.len(),
{
    let k = ips.len();
    if ns.len() > 0 {
        let n = ns.len();
        let p = ns.drop_last();
        lemma_entry_lines_at(p, ips);
        let e = entry_lines(ns, ips);
        let tail = ips.map_values(|ip: Seq<char>| ip + seq![' '] + ns.last());
        assert(e == entry_lines(p, ips) + tail);
        assert((n - 1) * k + k == n * k) by (nonlinear_arith);
        assert forall|i: int, j: int| 0 <= i < n && 0 <= j < k implies #[trigger] e[i * k + j] == ips[j]
            + seq![' '] + ns[i] by {
            if i < n - 1 {
                assert(i * k + j < (n - 1) * k) by (nonlinear_arith)
                    requires 0 <= i < n - 1, 0 <= j < k;
                assert(0 <= i * k) by (nonlinear_arith)
                    requires 0 <= i, 0 <= k;
                assert(e[i * k + j] == entry_lines(p, ips)[i * k + j]);
                assert(p[i] == ns[i]);
            } else {
                assert(i * k == (n - 1) * k);
                assert(e[i * k + j] == tail[j]);
            }
        }
    }
}

/// The managed section holds every redirect of every blocked name: it is the
/// marker, then for each name of the expanded list, in order, one line per
/// redirect address, `address + ' ' + name`, then the marker again; so it has
/// exactly `names.len() * ips.len()` entry lines between the two markers.
pub proof fn law_block_lines_redirect_every_name(marker: Seq<char>, domains: Seq<Seq<char>>, ips: Seq<Seq<char>>)
    ensures
        block_lines(marker, domains, ips).len() == expanded_domains(domains).len() * ips.len() + 2,
        block_lines(marker, domains, ips)[0] == marker,
        block_lines(marker, domains, ips).last() == marker,
        forall|i: int, j: int|
            0 <= i < expanded_domains(domains).len() && 0 <= j < ips.len() ==> #[trigger] block_lines(
                marker,
                domains,
                ips,
            )[1 + i * ips.len() + j] == ips[j] + seq![' '] + expanded_domains(domains)[i],
        forall|i: int, j: int|
            0 <= i < expanded_domains(domains).len() && 0 <= j < ips.len() ==> block_lines(marker, domains, ips).contains(
                ips[j] + seq![' '] + #[trigger] expanded_domains(domains)[i],
            ) && ips.contains(#[trigger] ips[j]),
{
    let ns = expanded_domains(domains);
    let k = ips.len();
    lemma_entry_lines_at(ns, ips);
    let b = block_lines(marker, domains, ips);
    let e = entry_lines(ns, ips);
    assert(b == seq![marker] + e + seq![marker]);
    assert forall|i: int, j: int| 0 <= i < ns.len() && 0 <= j < k implies #[trigger] b[1 + i * k + j] == ips[j]
        + seq![' '] + ns[i] by {
        assert(0 <= i * k + j < ns.len() * k) by (nonlinear_arith)
            requires 0 <= i < ns.len(), 0 <= j < k;
        assert(e[i * k + j] == ips[j] + seq![' '] + ns[i]);
    }
    assert forall|i: int, j: int| 0 <= i < ns.len() && 0 <= j < k implies b.contains(
        ips[j] + seq![' '] + #[trigger] ns[i],
    ) && ips.contains(#[trigger] ips[j]) by {
        assert(0 <= i * k + j < ns.len() * k) by (nonlinear_arith)
            requires 0 <= i < ns.len(), 0 <= j < k;
        assert(b[1 + i * k + j] == ips[j] + seq![' '] + ns[i]);
    }
}

} // verus!

verus! {

/// A text that `str::lines` keeps as one line: no `'\n'` and no final `'\r'`.
pub open spec fn single_line(l: Seq<char>) -> bool {
    !l.contains('\n') && strip_cr(l) == l
}

proof fn lemma_next_marker_at(ls: Seq<Seq<char>>, m: Seq<char>, i: int, k: int)
    requires
        0 <= i <= k < ls.len(),
        ls[k] == m,
        forall|j: int| i <= j < k ==> ls[j] != m,
    ensures
        next_marker(ls, m, i) == k,
    decreases k - i,
{
    if i < k {
        lemma_next_marker_at(ls, m, i + 1, k);
    }
}

/// Blocking keeps the marker in the file: after the managed section is appended to
/// any content, the content holds the marker.
pub proof fn law_added_block_is_blocked(
    content: Seq<char>,
    marker: Seq<char>,
    domains: Seq<Seq<char>>,
    ips: Seq<Seq<char>>,
)
    ensures
        contains_sub(added_block(content, block_section(marker, domains, ips)), marker),
{
    let bl = block_lines(marker, domains, ips);
    let b = block_section(marker, domains, ips);
    lemma_join_starts(bl, seq!['\n']);
    let t = trim_end(content);
    let added = added_block(content, b);
    let i: int = t.len() as int + 2;
    assert(added.subrange(i, i + marker.len()) =~= b.take(marker.len() as int));
    assert(matches_at(added, marker, i));
}

/// No line of `content`, once its trailing whitespace is dropped, is the marker. (The
/// trailing whitespace matters: appending a section drops it, so a last line of
/// the marker followed by spaces becomes a marker line.)
pub open spec fn no_marker_line(content: Seq<char>, m: Seq<char>) -> bool {
    forall|i: int|
        0 <= i < lines_of(trim_end(content)).len() ==> #[trigger] lines_of(trim_end(content))[i] != m
}

/// The pieces of a file with no marker line, its end trimmed, are no marker either,
/// with a final `'\r'` dropped or not.
proof fn lemma_trimmed_pieces(content: Seq<char>, m: Seq<char>)
    requires
        m.len() > 0,
        no_marker_line(content, m),
    ensures
        forall|j: int|
            0 <= j < split_nl(trim_end(content)).len() ==> strip_cr(#[trigger] split_nl(trim_end(content))[j])
                != m,
        split_nl(trim_end(content)).len() >= 1,
        strip_cr(split_nl(trim_end(content)).last()) == split_nl(trim_end(content)).last(),
{
    let t = trim_end(content);
    let p = split_nl(t);
    lemma_split_nl_len(t);
    let n = p.len() as int;
    let ls = lines_of(t);
    let body = p.drop_last().map_values(|l: Seq<char>| strip_cr(l));
    assert(strip_cr(p[n - 1]) == p[n - 1]) by {
        lemma_split_nl_last_suffix(t);
        let q = p[n - 1];
        if q.len() > 0 {
            lemma_trim_end_last(content);
            assert(t.skip(t.len() - q.len()) == q);
            assert(q.last() == t.last()) by {
                assert(t.skip(t.len() - q.len())[q.len() - 1] == t[t.len() - 1]);
            }
            assert(crate::text::is_ws('\r'));
        }
    }
    assert forall|j: int| 0 <= j < n implies strip_cr(#[trigger] p[j]) != m by {
        if j < n - 1 {
            assert(ls[j] == body[j]);
            assert(ls[j] != m);
        } else if p[j].len() > 0 {
            assert(ls[j] == p[j]);
            assert(ls[j] != m);
        } else {
            assert(strip_cr(p[j]) =~= Seq::<char>::empty());
        }
    }
}

/// A file that holds no marker at all, not even inside a line, has no marker line,
/// and the marker is not empty (the empty text occurs in any file).
pub proof fn lemma_no_marker_no_line(content: Seq<char>, m: Seq<char>)
    requires
        !contains_sub(content, m),
    ensures
        m.len() > 0,
        no_marker_line(content, m),
{
    assert(m.len() > 0) by {
        if m.len() == 0 {
            assert(content.subrange(0, 0) =~= m);
            assert(matches_at(content, m, 0));
        }
    }
    let t = trim_end(content);
    let p = split_nl(t);
    lemma_split_nl_len(t);
    lemma_trim_end_prefix(content);
    let ls = lines_of(t);
    let body = p.drop_last().map_values(|l: Seq<char>| strip_cr(l));
    assert forall|i: int| 0 <= i < ls.len() implies #[trigger] ls[i] != m by {
        let j = i;
        lemma_split_nl_piece_occurs(t, j);
        let k = choose|k: int| matches_at(t, p[j], k);
        let l = ls[i];
        if i < p.len() - 1 {
            assert(l == body[i]);
            assert(l == strip_cr(p[j]));
        } else {
            assert(l == p[j]);
        }
        assert(l.len() <= p[j].len());
        assert(t.subrange(k, k + l.len()) =~= p[j].take(l.len() as int));
        assert(p[j].take(l.len() as int) =~= l);
        assert(content.subrange(k, k + l.len()) =~= t.subrange(k, k + l.len()));
        if l == m {
            assert(matches_at(content, m, k));
        }
    }
}

/// How many lines of `a + b` are `m`: those of `a` and those of `b`.
proof fn lemma_count_concat(a: Seq<Seq<char>>, b: Seq<Seq<char>>, m: Seq<char>)
    ensures
        count_lines(a + b, m) == count_lines(a, m) + count_lines(b, m),
    decreases b.len(),
{
    if b.len() == 0 {
        assert(a + b =~= a);
    } else {
        assert((a + b).drop_last() =~= a + b.drop_last());
        lemma_count_concat(a, b.drop_last(), m);
    }
}

proof fn lemma_count_none(a: Seq<Seq<char>>, m: Seq<char>)
    requires
        forall|i: int| 0 <= i < a.len() ==> #[trigger] a[i] != m,
    ensures
        count_lines(a, m) == 0,
    decreases a.len(),
{
    if a.len() > 0 {
        lemma_count_none(a.drop_last(), m);
    }
}

/// Appending a managed section to a file with no marker line makes `existing_block`
/// find exactly that section, and leaves exactly two marker lines, for any section
/// whose first and last lines are the (non-empty) marker, whose other lines are not,
/// and whose lines are single lines.
pub proof fn law_added_section_is_found(content: Seq<char>, marker: Seq<char>, bl: Seq<Seq<char>>)
    requires
        marker.len() > 0,
        no_marker_line(content, marker),
        bl.len() >= 2,
        bl[0] == marker,
        bl[bl.len() - 1] == marker,
        forall|i: int| 0 <= i < bl.len() ==> single_line(#[trigger] bl[i]),
        forall|i: int| 0 < i < bl.len() - 1 ==> #[trigger] bl[i] != marker,
    ensures
        existing_block(added_block(content, join(bl, seq!['\n'])), marker) == Some(join(bl, seq!['\n'])),
        count_lines(lines_of(added_block(content, join(bl, seq!['\n']))), marker) == 2,
{
    let b = join(bl, seq!['\n']);
    let t = trim_end(content);
    let added = added_block(content, b);
    let e: Seq<char> = Seq::empty();
    lemma_trimmed_pieces(content, marker);
    // pieces of the appended content
    let x1 = t + seq!['\n'] + e;
    let x2 = x1 + seq!['\n'] + b;
    assert(added =~= x2 + seq!['\n'] + e);
    lemma_split_nl_concat(x2, e);
    lemma_split_nl_concat(x1, b);
    lemma_split_nl_concat(t, e);
    assert forall|i: int| 0 <= i < bl.len() implies !(#[trigger] bl[i]).contains('\n') by {
        assert(single_line(bl[i]));
    }
    lemma_split_nl_join(bl);
    lemma_split_nl_len(t);
    let p = split_nl(t);
    let n: int = p.len() as int;
    let all = split_nl(added);
    assert(split_nl(e) =~= seq![e]);
    assert(all =~= p + seq![e] + bl + seq![e]);
    let ls = lines_of(added);
    assert(all.last() == e);
    assert(ls =~= all.drop_last().map_values(|l: Seq<char>| strip_cr(l)));
    assert forall|j: int| 0 <= j < n implies #[trigger] ls[j] != marker by {
        assert(ls[j] == strip_cr(p[j]));
    }
    assert(ls[n] == strip_cr(e));
    assert(ls[n] =~= e);
    assert(bl.len() >= 2);
    assert forall|j: int| 0 <= j < bl.len() implies #[trigger] ls[n + 1 + j] == bl[j] by {
        assert(single_line(bl[j]));
        assert(ls[n + 1 + j] == strip_cr(all[n + 1 + j]));
    }
    assert(ls[n + 1] == marker);
    lemma_next_marker_at(ls, marker, 0, n + 1);
    let last: int = n + bl.len();
    assert(ls[last] == bl[bl.len() - 1]);
    assert forall|j: int| n + 2 <= j < last implies ls[j] != marker by {
        assert(ls[n + 1 + (j - n - 1)] == bl[j - n - 1]);
    }
    lemma_next_marker_at(ls, marker, n + 2, last);
    assert(ls.subrange(n + 1, last + 1) =~= bl);
    // two marker lines: the section's first and last
    let head = ls.take(n + 1);
    assert(ls =~= head + bl);
    assert forall|j: int| 0 <= j < head.len() implies #[trigger] head[j] != marker by {
        assert(head[j] == ls[j]);
    }
    lemma_count_none(head, marker);
    let mids = bl.subrange(1, bl.len() - 1);
    assert(bl =~= seq![marker] + mids + seq![marker]);
    assert forall|j: int| 0 <= j < mids.len() implies #[trigger] mids[j] != marker by {
        assert(mids[j] == bl[j + 1]);
    }
    lemma_count_none(mids, marker);
    let one = seq![marker];
    assert(one.drop_last() =~= Seq::<Seq<char>>::empty());
    assert(count_lines(Seq::<Seq<char>>::empty(), marker) == 0);
    assert(one.last() == marker);
    assert(count_lines(one, marker) == 1);
    let a = one + mids;
    lemma_count_concat(one, mids, marker);
    lemma_count_concat(a, one, marker);
    assert(bl =~= a + one);
    assert(count_lines(bl, marker) == 2);
    lemma_count_concat(head, bl, marker);
    assert(count_lines(ls, marker) == 2);
}


/// The central property of blocking: when a hosts file has no marker line, appending
/// the managed section makes `existing_block` find exactly that section, so the
/// check `has_expected_block` succeeds, and the file has exactly two marker lines.
/// It holds whenever the marker is not empty, each line of the section is a single
/// line and no entry line equals the marker.
pub proof fn law_added_block_is_expected(
    content: Seq<char>,
    marker: Seq<char>,
    domains: Seq<Seq<char>>,
    ips: Seq<Seq<char>>,
)
    requires
        marker.len() > 0,
        no_marker_line(content, marker),
        forall|i: int|
            0 <= i < block_lines(marker, domains, ips).len() ==> single_line(
                #[trigger] block_lines(marker, domains, ips)[i],
            ),
        forall|i: int|
            0 < i < block_lines(marker, domains, ips).len() - 1 ==> #[trigger] block_lines(
                marker,
                domains,
                ips,
            )[i] != marker,
    ensures
        existing_block(added_block(content, block_section(marker, domains, ips)), marker) == Some(
            block_section(marker, domains, ips),
        ),
        count_lines(lines_of(added_block(content, block_section(marker, domains, ips))), marker) == 2,
{
    let bl = block_lines(marker, domains, ips);
    assert(bl[0] == marker);
    assert(bl[bl.len() - 1] == marker);
    law_added_section_is_found(content, marker, bl);
}

} // verus!

verus! {

/// How many lines of `ls` equal `m`.
pub open spec fn count_lines(ls: Seq<Seq<char>>, m: Seq<char>) -> nat
    decreases ls.len(),
{
    if ls.len() == 0 {
        0
    } else {
        count_lines(ls.drop_last(), m) + if ls.last() == m {
            1nat
        } else {
            0nat
        }
    }
}

/// How many marker lines `content` holds (each managed section has two).
pub fn count_markers(content: &str, marker: &str) -> (r: usize)
    ensures
        r as nat == count_lines(lines_of(content@), marker@),
{
    let c = to_chars(content);
    let m = to_chars(marker);
    let lines = split_lines(&c);
    let ghost ls = views(lines@);
    let mut n: usize = 0;
    let mut i: usize = 0;
    proof {
        assert(ls.take(0) =~= Seq::<Seq<char>>::empty());
    }
    while i < lines.len()
        invariant
            i <= lines.len(),
            ls == views(lines@),
            n as nat == count_lines(ls.take(i as int), m@),
            n <= i,
        decreases lines.len() - i,
    {
        proof {
            assert(ls.take(i + 1).drop_last() =~= ls.take(i as int));
            assert(ls.take(i + 1).last() == lines@[i as int]@);
        }
        if chars_eq(&lines[i], &m) {
            n = n + 1;
        }
        i = i + 1;
    }
    proof {
        assert(ls.take(lines.len() as int) =~= ls);
    }
    n
}

} // verus!

verus! {

proof fn lemma_kept_none(ls: Seq<Seq<char>>, m: Seq<char>)
    requires
        forall|i: int| 0 <= i < ls.len() ==> #[trigger] ls[i] != m,
    ensures
        kept_lines(ls, m).0 == ls,
        !kept_lines(ls, m).1,
    decreases ls.len(),
{
    if ls.len() > 0 {
        let d = ls.drop_last();
        assert forall|i: int| 0 <= i < d.len() implies #[trigger] d[i] != m by {
            assert(d[i] == ls[i]);
        }
        lemma_kept_none(d, m);
        assert(ls.last() != m);
        assert(d.push(ls.last()) =~= ls);
    }
}

proof fn lemma_kept_inside(xs: Seq<Seq<char>>, mids: Seq<Seq<char>>, m: Seq<char>)
    requires
        kept_lines(xs, m).1,
        forall|i: int| 0 <= i < mids.len() ==> #[trigger] mids[i] != m,
    ensures
        kept_lines(xs + mids, m) == kept_lines(xs, m),
    decreases mids.len(),
{
    if mids.len() > 0 {
        let d = mids.drop_last();
        assert forall|i: int| 0 <= i < d.len() implies #[trigger] d[i] != m by {
            assert(d[i] == mids[i]);
        }
        lemma_kept_inside(xs, d, m);
        assert((xs + mids).drop_last() =~= xs + d);
        assert((xs + mids).last() == mids.last());
        assert(mids.last() != m);
    } else {
        assert(xs + mids =~= xs);
    }
}

/// Pieces of a text with no `"\r\n"` that are followed by a `'\n'` do not end in `'\r'`.
proof fn lemma_pieces_without_cr(t: Seq<char>)
    requires
        !contains_sub(t, seq!['\r', '\n']),
    ensures
        forall|j: int| 0 <= j < split_nl(t).len() - 1 ==> strip_cr(#[trigger] split_nl(t)[j]) == split_nl(t)[j],
    decreases t.len(),
{
    lemma_split_nl_len(t);
    if t.len() > 0 {
        let s = t.drop_last();
        assert(!contains_sub(s, seq!['\r', '\n'])) by {
            if contains_sub(s, seq!['\r', '\n']) {
                let i = choose|i: int| matches_at(s, seq!['\r', '\n'], i);
                assert(t.subrange(i, i + 2) =~= s.subrange(i, i + 2));
                assert(matches_at(t, seq!['\r', '\n'], i));
            }
        }
        lemma_pieces_without_cr(s);
        lemma_split_nl_len(s);
        let p = split_nl(s);
        if t.last() == '\n' {
            lemma_split_nl_last_suffix(s);
            let q = p.last();
            if q.len() > 0 && q.last() == '\r' {
                assert(s.skip(s.len() - q.len()) == q);
                assert(s.last() == q.last()) by {
                    assert(s.skip(s.len() - q.len())[q.len() - 1] == s[s.len() - 1]);
                }
                assert(t.subrange(t.len() - 2, t.len() as int) =~= seq!['\r', '\n']);
                assert(matches_at(t, seq!['\r', '\n'], t.len() - 2));
            }
            assert forall|j: int| 0 <= j < split_nl(t).len() - 1 implies strip_cr(#[trigger] split_nl(t)[j])
                == split_nl(t)[j] by {
                assert(split_nl(t)[j] == p[j]);
            }
        } else {
            assert forall|j: int| 0 <= j < split_nl(t).len() - 1 implies strip_cr(#[trigger] split_nl(t)[j])
                == split_nl(t)[j] by {
                assert(split_nl(t)[j] == p[j]);
            }
        }
    }
}

/// Removing the sections undoes appending one, for any section whose first and last
/// lines are the (non-empty) marker, whose other lines are not, and whose lines are
/// single lines: the file comes back trimmed, with one final `'\n'`. It holds when
/// the file has no marker line and no `"\r\n"` line ending.
pub proof fn law_unblock_undoes_section(content: Seq<char>, marker: Seq<char>, bl: Seq<Seq<char>>)
    requires
        marker.len() > 0,
        no_marker_line(content, marker),
        !contains_sub(content, seq!['\r', '\n']),
        bl.len() >= 2,
        bl[0] == marker,
        bl[bl.len() - 1] == marker,
        forall|i: int| 0 <= i < bl.len() ==> single_line(#[trigger] bl[i]),
        forall|i: int| 0 < i < bl.len() - 1 ==> #[trigger] bl[i] != marker,
    ensures
        removed_block(added_block(content, join(bl, seq!['\n'])), marker) == trim(content) + seq!['\n'],
{
    let b = join(bl, seq!['\n']);
    let t = trim_end(content);
    let added = added_block(content, b);
    let e: Seq<char> = Seq::empty();
    lemma_trimmed_pieces(content, marker);
    let x1 = t + seq!['\n'] + e;
    let x2 = x1 + seq!['\n'] + b;
    assert(added =~= x2 + seq!['\n'] + e);
    lemma_split_nl_concat(x2, e);
    lemma_split_nl_concat(x1, b);
    lemma_split_nl_concat(t, e);
    assert forall|i: int| 0 <= i < bl.len() implies !(#[trigger] bl[i]).contains('\n') by {
        assert(single_line(bl[i]));
    }
    lemma_split_nl_join(bl);
    lemma_split_nl_len(t);
    let p = split_nl(t);
    let n: int = p.len() as int;
    let all = split_nl(added);
    assert(split_nl(e) =~= seq![e]);
    assert(all =~= p + seq![e] + bl + seq![e]);
    let ls = lines_of(added);
    assert(all.last() == e);
    assert(ls =~= all.drop_last().map_values(|l: Seq<char>| strip_cr(l)));
    // the pieces of the trimmed file keep their text
    lemma_trim_end_prefix(content);
    assert(!contains_sub(t, seq!['\r', '\n'])) by {
        if contains_sub(t, seq!['\r', '\n']) {
            let i = choose|i: int| matches_at(t, seq!['\r', '\n'], i);
            assert(content.subrange(i, i + 2) =~= t.subrange(i, i + 2));
            assert(matches_at(content, seq!['\r', '\n'], i));
        }
    }
    lemma_pieces_without_cr(t);
    assert(strip_cr(p[n - 1]) == p[n - 1]) by {
        lemma_split_nl_last_suffix(t);
        let q = p[n - 1];
        if q.len() > 0 {
            lemma_trim_end_last(content);
            assert(t.skip(t.len() - q.len()) == q);
            assert(q.last() == t.last()) by {
                assert(t.skip(t.len() - q.len())[q.len() - 1] == t[t.len() - 1]);
            }
            assert(crate::text::is_ws('\r'));
        }
    }
    assert forall|j: int| 0 <= j < n implies #[trigger] ls[j] == p[j] by {
        assert(ls[j] == strip_cr(p[j]));
    }
    // no line of the file is the marker
    assert forall|j: int| 0 <= j < n implies #[trigger] p[j] != marker by {
        assert(ls[j] == p[j]);
        assert(strip_cr(p[j]) != marker);
    }
    assert(ls[n] =~= e);
    assert forall|j: int| 0 <= j < bl.len() implies #[trigger] ls[n + 1 + j] == bl[j] by {
        assert(single_line(bl[j]));
        assert(ls[n + 1 + j] == strip_cr(all[n + 1 + j]));
    }
    assert(bl.len() >= 2);
    let mids = bl.subrange(1, bl.len() - 1);
    let head = p.push(e);
    assert(ls =~= (head.push(marker) + mids).push(marker)) by {
        assert(bl[0] == marker);
        assert(bl[bl.len() - 1] == marker);
    }
    // the kept lines are the file's lines and the empty line before the section
    lemma_kept_none(p, marker);
    assert(head.drop_last() =~= p);
    assert(kept_lines(head, marker).0 == head && !kept_lines(head, marker).1);
    assert(head.push(marker).drop_last() =~= head);
    assert(kept_lines(head.push(marker), marker).1);
    assert forall|i: int| 0 <= i < mids.len() implies #[trigger] mids[i] != marker by {
        assert(mids[i] == bl[i + 1]);
    }
    lemma_kept_inside(head.push(marker), mids, marker);
    let whole = (head.push(marker) + mids).push(marker);
    assert(whole.drop_last() =~= head.push(marker) + mids);
    assert(kept_lines(ls, marker).0 == head);
    // joining them and trimming gives the trimmed file
    lemma_join_split_nl(t);
    assert(head.drop_last() =~= p);
    assert(join(head, seq!['\n']) =~= t + seq!['\n'] + e);
    assert(t + seq!['\n'] + e =~= trim_end(content) + seq!['\n']);
    lemma_trim_trim_end_newline(content);
}

/// Unblocking undoes blocking: when a hosts file without a marker line gets the managed
/// section appended, removing the sections again gives the file back, trimmed, with
/// one final `'\n'`. It holds when, as for blocking, each line of the section is a
/// single line and no entry line equals the marker, and when the file has no
/// `"\r\n"` line ending (the removal writes `"\n"` line endings).
pub proof fn law_unblock_undoes_block(
    content: Seq<char>,
    marker: Seq<char>,
    domains: Seq<Seq<char>>,
    ips: Seq<Seq<char>>,
)
    requires
        marker.len() > 0,
        no_marker_line(content, marker),
        !contains_sub(content, seq!['\r', '\n']),
        forall|i: int|
            0 <= i < block_lines(marker, domains, ips).len() ==> single_line(
                #[trigger] block_lines(marker, domains, ips)[i],
            ),
        forall|i: int|
            0 < i < block_lines(marker, domains, ips).len() - 1 ==> #[trigger] block_lines(
                marker,
                domains,
                ips,
            )[i] != marker,
    ensures
        removed_block(added_block(content, block_section(marker, domains, ips)), marker) == trim(content)
            + seq!['\n'],
{
    let bl = block_lines(marker, domains, ips);
    assert(bl[0] == marker);
    assert(bl[bl.len() - 1] == marker);
    law_unblock_undoes_section(content, marker, bl);
}

/// Unblocking twice is unblocking once: removing the sections from a file whose
/// sections were just removed changes nothing. It holds when the first removal left
/// no line that is the marker (trimming a kept line could make one) and no `'\r'`.
pub proof fn law_unblock_twice_is_once(content: Seq<char>, m: Seq<char>)
    requires
        !removed_block(content, m).contains('\r'),
        forall|i: int|
            0 <= i < lines_of(removed_block(content, m)).len() ==> #[trigger] lines_of(
                removed_block(content, m),
            )[i] != m,
    ensures
        removed_block(removed_block(content, m), m) == removed_block(content, m),
{
    let r = removed_block(content, m);
    let t = trim(join(kept_lines(lines_of(content), m).0, seq!['\n']));
    let e: Seq<char> = Seq::empty();
    assert(r =~= t + seq!['\n'] + e);
    lemma_split_nl_concat(t, e);
    assert(split_nl(e) =~= seq![e]);
    let p = split_nl(t);
    lemma_split_nl_len(t);
    assert(split_nl(r) =~= p.push(e));
    assert forall|j: int| 0 <= j < p.len() implies strip_cr(#[trigger] p[j]) == p[j] by {
        if p[j].len() > 0 && p[j].last() == '\r' {
            lemma_split_nl_piece_occurs(t, j);
            let i = choose|i: int| matches_at(t, p[j], i);
            assert(t[i + p[j].len() - 1] == p[j][p[j].len() - 1]);
            assert(r[i + p[j].len() - 1] == t[i + p[j].len() - 1]);
        }
    }
    let ls = lines_of(r);
    assert(split_nl(r).drop_last() =~= p);
    assert(ls =~= p) by {
        assert(split_nl(r).last() == e);
    }
    lemma_kept_none(ls, m);
    lemma_join_split_nl(t);
    lemma_trim_twice(join(kept_lines(lines_of(content), m).0, seq!['\n']));
}

/// Unblocking leaves no marker line: no line kept by the removal is the marker.
pub proof fn law_unblock_keeps_no_marker_line(ls: Seq<Seq<char>>, m: Seq<char>)
    ensures
        forall|i: int| 0 <= i < kept_lines(ls, m).0.len() ==> #[trigger] kept_lines(ls, m).0[i] != m,
    decreases ls.len(),
{
    if ls.len() > 0 {
        law_unblock_keeps_no_marker_line(ls.drop_last(), m);
        let (k, inside) = kept_lines(ls.drop_last(), m);
        let l = ls.last();
        if !(l == m) && !inside {
            assert forall|i: int| 0 <= i < k.push(l).len() implies #[trigger] k.push(l)[i] != m by {
                if i < k.len() {
                    assert(k.push(l)[i] == k[i]);
                }
            }
        }
    }
}

} // verus!
