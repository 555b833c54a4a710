use vstd::prelude::*;
use crate::num::{parse_unsigned, parse_unsigned_spec};
use crate::text::{
    after_first, before_first, chars_eq, contains_chars, contains_sub, copy_chars, extend, extend_str,
    from_chars, join, join_chars, lemma_views_push, lines_of, replace_all, replace_chars, split_all,
    split_all_chars, split_lines, split_once, split_once_chars, starts_with, starts_with_chars, strs, matches_at,
    to_chars, trim, trim_chars, views,
};

verus! {

/// The launchd job of the daemon; `__PARAMO_BINARY__` stands for the binary's path.
pub const PLIST_TEMPLATE: &'static str = "<?xml version=\"1.0\" encoding=\"UTF-8\"?>\n<!DOCTYPE plist PUBLIC \"-//Apple//DTD PLIST 1.0//EN\" \"http://www.apple.com/DTDs/PropertyList-1.0.dtd\">\n<plist version=\"1.0\">\n<dict>\n    <key>Label</key>\n    <string>com.paramo.blocker</string>\n    <key>ProgramArguments</key>\n    <array>\n        <string>__PARAMO_BINARY__</string>\n        <string>run</string>\n    </array>\n    <key>RunAtLoad</key>\n    <true/>\n    <key>KeepAlive</key>\n    <true/>\n    <key>StandardOutPath</key>\n    <string>/var/log/paramo.log</string>\n    <key>StandardErrorPath</key>\n    <string>/var/log/paramo.log</string>\n</dict>\n</plist>\n";

pub const BINARY_PLACEHOLDER: &'static str = "__PARAMO_BINARY__";

/// What launchd reports of a service.
#[derive(Debug, Clone)]
pub struct ServiceStatus {
    pub loaded: bool,
    pub disabled: Option<bool>,
    pub pid: Option<String>,
    pub last_exit_status: Option<String>,
    pub program: Option<String>,
}

/// The fields read from `launchctl print`.
#[derive(Debug, Clone)]
pub struct ParsedLaunchctlPrint {
    pub pid: Option<String>,
    pub last_exit_status: Option<String>,
    pub program: Option<String>,
}

/// `v` with the XML special characters escaped (`&` first).
pub open spec fn escaped_xml(v: Seq<char>) -> Seq<char> {
    replace_all(
        replace_all(
            replace_all(replace_all(replace_all(v, "&"@, "&amp;"@), "<"@, "&lt;"@), ">"@, "&gt;"@),
            "\""@,
            "&quot;"@,
        ),
        "'"@,
        "&apos;"@,
    )
}

/// `v` with the XML entities turned back into characters (`&amp;` last).
pub open spec fn unescaped_xml(v: Seq<char>) -> Seq<char> {
    replace_all(
        replace_all(
            replace_all(replace_all(replace_all(v, "&lt;"@, "<"@), "&gt;"@, ">"@), "&quot;"@, "\""@),
            "&apos;"@,
            "'"@,
        ),
        "&amp;"@,
        "&"@,
    )
}

fn rep(s: &Vec<char>, p: &str, r: &str) -> (out: Vec<char>)
    requires
        p@.len() > 0,
    ensures
        out@ == replace_all(s@, p@, r@),
{
    let pc = to_chars(p);
    let rc = to_chars(r);
    replace_chars(s, &pc, &rc)
}

/// The `j`-th character after position `i` of `w` is in `w` and differs from `p`'s
/// `j`-th.
spec fn differs_at(w: Seq<char>, p: Seq<char>, i: int, j: int) -> bool {
    0 <= j && i + j < w.len() && j < p.len() && w[i + j] != p[j]
}

/// `p` cannot start at position `i` of `w`, whatever follows `w`.
spec fn blocked_at(w: Seq<char>, p: Seq<char>, i: int) -> bool {
    exists|j: int| #[trigger] differs_at(w, p, i, j)
}

/// A piece in which `p` cannot start, whatever follows it, is kept as it is.
proof fn lemma_replace_keeps(w: Seq<char>, t: Seq<char>, p: Seq<char>, r: Seq<char>)
    requires
        p.len() > 0,
        forall|i: int| 0 <= i < w.len() ==> #[trigger] blocked_at(w, p, i),
    ensures
        replace_all(w + t, p, r) == w + replace_all(t, p, r),
    decreases w.len(),
{
    if w.len() > 0 {
        let s = w + t;
        assert(!starts_with(s, p)) by {
            assert(blocked_at(w, p, 0));
            let j = choose|j: int| #[trigger] differs_at(w, p, 0, j);
            if starts_with(s, p) {
                assert(s.take(p.len() as int)[j] == p[j]);
                assert(s[j] == w[j]);
            }
        }
        assert(s.drop_first() =~= w.drop_first() + t);
        let w1 = w.drop_first();
        assert forall|i: int| 0 <= i < w1.len() implies #[trigger] blocked_at(w1, p, i) by {
            assert(blocked_at(w, p, i + 1));
            let j = choose|j: int| #[trigger] differs_at(w, p, i + 1, j);
            assert(w1[i + j] == w[i + 1 + j]);
            assert(differs_at(w1, p, i, j));
        }
        lemma_replace_keeps(w1, t, p, r);
        assert(seq![w[0]] + (w1 + replace_all(t, p, r)) =~= w + replace_all(t, p, r));
    } else {
        assert(w + t =~= t);
        assert(w + replace_all(t, p, r) =~= replace_all(t, p, r));
    }
}

/// A piece that is `p` itself is replaced by `r`.
proof fn lemma_replace_match(t: Seq<char>, p: Seq<char>, r: Seq<char>)
    requires
        p.len() > 0,
    ensures
        replace_all(p + t, p, r) == r + replace_all(t, p, r),
{
    assert((p + t).take(p.len() as int) =~= p);
    assert((p + t).skip(p.len() as int) =~= t);
}

/// The text standing for `c` after `k` of the ten replacements of escaping (the first
/// five) and then unescaping (the last five) have been made.
spec fn piece(c: char, k: int) -> Seq<char> {
    if c == '&' && 1 <= k < 10 {
        seq!['&', 'a', 'm', 'p', ';']
    } else if c == '<' && 2 <= k < 6 {
        seq!['&', 'l', 't', ';']
    } else if c == '>' && 3 <= k < 7 {
        seq!['&', 'g', 't', ';']
    } else if c == '"' && 4 <= k < 8 {
        seq!['&', 'q', 'u', 'o', 't', ';']
    } else if c == '\'' && 5 <= k < 9 {
        seq!['&', 'a', 'p', 'o', 's', ';']
    } else {
        seq![c]
    }
}

/// The pattern of the `k`-th replacement.
spec fn stage_pattern(k: int) -> Seq<char> {
    if k == 0 {
        seq!['&']
    } else if k == 1 {
        seq!['<']
    } else if k == 2 {
        seq!['>']
    } else if k == 3 {
        seq!['"']
    } else if k == 4 {
        seq!['\'']
    } else if k == 5 {
        seq!['&', 'l', 't', ';']
    } else if k == 6 {
        seq!['&', 'g', 't', ';']
    } else if k == 7 {
        seq!['&', 'q', 'u', 'o', 't', ';']
    } else if k == 8 {
        seq!['&', 'a', 'p', 'o', 's', ';']
    } else {
        seq!['&', 'a', 'm', 'p', ';']
    }
}

/// The replacement of the `k`-th replacement.
spec fn stage_replacement(k: int) -> Seq<char> {
    if k == 0 {
        seq!['&', 'a', 'm', 'p', ';']
    } else if k == 1 {
        seq!['&', 'l', 't', ';']
    } else if k == 2 {
        seq!['&', 'g', 't', ';']
    } else if k == 3 {
        seq!['&', 'q', 'u', 'o', 't', ';']
    } else if k == 4 {
        seq!['&', 'a', 'p', 'o', 's', ';']
    } else if k == 5 {
        seq!['<']
    } else if k == 6 {
        seq!['>']
    } else if k == 7 {
        seq!['"']
    } else if k == 8 {
        seq!['\'']
    } else {
        seq!['&']
    }
}

/// Whether `c`'s piece after `k` replacements is the `k`-th pattern.
spec fn piece_matches(c: char, k: int) -> bool {
    ||| (c == '&' && k == 0)
    ||| (c == '<' && k == 1)
    ||| (c == '>' && k == 2)
    ||| (c == '"' && k == 3)
    ||| (c == '\'' && k == 4)
    ||| (c == '<' && k == 5)
    ||| (c == '>' && k == 6)
    ||| (c == '"' && k == 7)
    ||| (c == '\'' && k == 8)
    ||| (c == '&' && k == 9)
}

proof fn lemma_piece_step(c: char, t: Seq<char>, k: int)
    requires
        0 <= k < 10,
    ensures
        replace_all(piece(c, k) + t, stage_pattern(k), stage_replacement(k)) == piece(c, k + 1)
            + replace_all(t, stage_pattern(k), stage_replacement(k)),
{
    let p = stage_pattern(k);
    let r = stage_replacement(k);
    let w = piece(c, k);
    if piece_matches(c, k) {
        assert(w =~= p);
        assert(piece(c, k + 1) =~= r);
        lemma_replace_match(t, p, r);
    } else {
        assert(piece(c, k + 1) =~= w);
        assert(p.len() > 0);
        assert forall|i: int| 0 <= i < w.len() implies #[trigger] blocked_at(w, p, i) by {
            if k == 0 {
                assert(p =~= seq!['&']);
            } else if k == 1 {
                assert(p =~= seq!['<']);
            } else if k == 2 {
                assert(p =~= seq!['>']);
            } else if k == 3 {
                assert(p =~= seq!['"']);
            } else if k == 4 {
                assert(p =~= seq!['\'']);
            } else if k == 5 {
                assert(p =~= seq!['&', 'l', 't', ';']);
            } else if k == 6 {
                assert(p =~= seq!['&', 'g', 't', ';']);
            } else if k == 7 {
                assert(p =~= seq!['&', 'q', 'u', 'o', 't', ';']);
            } else if k == 8 {
                assert(p =~= seq!['&', 'a', 'p', 'o', 's', ';']);
            } else if k == 9 {
                assert(p =~= seq!['&', 'a', 'm', 'p', ';']);
            }
            if c == '&' && 1 <= k < 10 {
                assert(w =~= seq!['&', 'a', 'm', 'p', ';']);
            } else if c == '<' && 2 <= k < 6 {
                assert(w =~= seq!['&', 'l', 't', ';']);
            } else if c == '>' && 3 <= k < 7 {
                assert(w =~= seq!['&', 'g', 't', ';']);
            } else if c == '"' && 4 <= k < 8 {
                assert(w =~= seq!['&', 'q', 'u', 'o', 't', ';']);
            } else if c == '\'' && 5 <= k < 9 {
                assert(w =~= seq!['&', 'a', 'p', 'o', 's', ';']);
            } else {
                assert(w =~= seq![c]);
                assert(w[i] == c);
            }
            assert(differs_at(w, p, i, 0) || differs_at(w, p, i, 1) || differs_at(w, p, i, 2));
        }
        lemma_replace_keeps(w, t, p, r);
    }
}

/// The text standing for `v` after `k` replacements: each character's piece.
spec fn pieces(v: Seq<char>, k: int) -> Seq<char>
    decreases v.len(),
{
    if v.len() == 0 {
        Seq::empty()
    } else {
        piece(v[0], k) + pieces(v.drop_first(), k)
    }
}

/// The `k`-th replacement turns the pieces after `k` replacements into those after
/// `k + 1`.
proof fn lemma_stage(v: Seq<char>, k: int)
    requires
        0 <= k < 10,
    ensures
        replace_all(pieces(v, k), stage_pattern(k), stage_replacement(k)) == pieces(v, k + 1),
    decreases v.len(),
{
    if v.len() == 0 {
        assert(replace_all(Seq::<char>::empty(), stage_pattern(k), stage_replacement(k)) =~= Seq::<char>::empty());
    } else {
        lemma_stage(v.drop_first(), k);
        lemma_piece_step(v[0], pieces(v.drop_first(), k), k);
    }
}

/// Before any replacement, and after all ten, each character stands for itself.
proof fn lemma_pieces_identity(v: Seq<char>, k: int)
    requires
        k == 0 || k == 10,
    ensures
        pieces(v, k) == v,
    decreases v.len(),
{
    if v.len() > 0 {
        lemma_pieces_identity(v.drop_first(), k);
        assert(seq![v[0]] + v.drop_first() =~= v);
    }
}

/// Escaping gives each character's piece after the five escaping replacements.
proof fn lemma_escaped_pieces(v: Seq<char>)
    ensures
        escaped_xml(v) == pieces(v, 5),
{
    reveal_strlit("&");
    reveal_strlit("<");
    reveal_strlit(">");
    reveal_strlit("\"");
    reveal_strlit("'");
    reveal_strlit("&amp;");
    reveal_strlit("&lt;");
    reveal_strlit("&gt;");
    reveal_strlit("&quot;");
    reveal_strlit("&apos;");
    lemma_pieces_identity(v, 0);
    lemma_stage(v, 0);
    assert(stage_pattern(0) =~= "&"@);
    assert(stage_replacement(0) =~= "&amp;"@);
    lemma_stage(v, 1);
    assert(stage_pattern(1) =~= "<"@);
    assert(stage_replacement(1) =~= "&lt;"@);
    lemma_stage(v, 2);
    assert(stage_pattern(2) =~= ">"@);
    assert(stage_replacement(2) =~= "&gt;"@);
    lemma_stage(v, 3);
    assert(stage_pattern(3) =~= "\""@);
    assert(stage_replacement(3) =~= "&quot;"@);
    lemma_stage(v, 4);
    assert(stage_pattern(4) =~= "'"@);
    assert(stage_replacement(4) =~= "&apos;"@);
}

/// Unescaping undoes escaping: the path written into the plist is read back as it was,
/// whatever XML special characters it holds.
pub proof fn law_unescape_undoes_escape(v: Seq<char>)
    ensures
        unescaped_xml(escaped_xml(v)) == v,
{
    reveal_strlit("&");
    reveal_strlit("<");
    reveal_strlit(">");
    reveal_strlit("\"");
    reveal_strlit("'");
    reveal_strlit("&amp;");
    reveal_strlit("&lt;");
    reveal_strlit("&gt;");
    reveal_strlit("&quot;");
    reveal_strlit("&apos;");
    lemma_escaped_pieces(v);
    lemma_stage(v, 5);
    assert(stage_pattern(5) =~= "&lt;"@);
    assert(stage_replacement(5) =~= "<"@);
    lemma_stage(v, 6);
    assert(stage_pattern(6) =~= "&gt;"@);
    assert(stage_replacement(6) =~= ">"@);
    lemma_stage(v, 7);
    assert(stage_pattern(7) =~= "&quot;"@);
    assert(stage_replacement(7) =~= "\""@);
    lemma_stage(v, 8);
    assert(stage_pattern(8) =~= "&apos;"@);
    assert(stage_replacement(8) =~= "'"@);
    lemma_stage(v, 9);
    assert(stage_pattern(9) =~= "&amp;"@);
    assert(stage_replacement(9) =~= "&"@);
    lemma_pieces_identity(v, 10);
}

/// `value` with XML special characters escaped (see `escaped_xml`).
pub fn escape_xml(value: &str) -> (r: String)
    ensures
        r@ == escaped_xml(value@),
{
    proof {
        reveal_strlit("&");
        reveal_strlit("<");
        reveal_strlit(">");
        reveal_strlit("\"");
        reveal_strlit("'");
    }
    let v = to_chars(value);
    let a = rep(&v, "&", "&amp;");
    let b = rep(&a, "<", "&lt;");
    let c = rep(&b, ">", "&gt;");
    let d = rep(&c, "\"", "&quot;");
    let e = rep(&d, "'", "&apos;");
    from_chars(&e)
}

fn unescape_chars(v: &Vec<char>) -> (r: Vec<char>)
    ensures
        r@ == unescaped_xml(v@),
{
    proof {
        reveal_strlit("&lt;");
        reveal_strlit("&gt;");
        reveal_strlit("&quot;");
        reveal_strlit("&apos;");
        reveal_strlit("&amp;");
    }
    let a = rep(v, "&lt;", "<");
    let b = rep(&a, "&gt;", ">");
    let c = rep(&b, "&quot;", "\"");
    let d = rep(&c, "&apos;", "'");
    rep(&d, "&amp;", "&")
}

/// `value` with XML entities decoded (see `unescaped_xml`).
pub fn unescape_xml(value: &str) -> (r: String)
    ensures
        r@ == unescaped_xml(value@),
{
    let v = to_chars(value);
    let r = unescape_chars(&v);
    from_chars(&r)
}

/// The launchd job for the binary at `binary_path`: the template with the
/// placeholder replaced by the escaped path.
pub fn render_plist(binary_path: &str) -> (r: String)
    ensures
        r@ == replace_all(PLIST_TEMPLATE@, BINARY_PLACEHOLDER@, escaped_xml(binary_path@)),
{
    proof {
        reveal_strlit("__PARAMO_BINARY__");
    }
    let escaped = escape_xml(binary_path);
    let t = to_chars(PLIST_TEMPLATE);
    let e = to_chars(escaped.as_str());
    let p = to_chars(BINARY_PLACEHOLDER);
    let r = replace_chars(&t, &p, &e);
    from_chars(&r)
}

/// The text of the `<string>` that follows `<key>{key}</key>`, decoded.
pub open spec fn plist_value_spec(content: Seq<char>, key: Seq<char>) -> Option<Seq<char>> {
    match after_first(content, "<key>"@ + key + "</key>"@) {
        Some(a) => match after_first(a, "<string>"@) {
            Some(b) => match before_first(b, "</string>"@) {
                Some(v) => Some(unescaped_xml(v)),
                None => None,
            },
            None => None,
        },
        None => None,
    }
}

/// The number in the `<integer>` that follows `<key>{key}</key>`.
pub open spec fn plist_integer_spec(content: Seq<char>, key: Seq<char>) -> Option<nat> {
    match after_first(content, "<key>"@ + key + "</key>"@) {
        Some(a) => match after_first(a, "<integer>"@) {
            Some(b) => match before_first(b, "</integer>"@) {
                Some(v) => parse_unsigned_spec(trim(v), 0xffff_ffff),
                None => None,
            },
            None => None,
        },
        None => None,
    }
}

/// The decoded texts of the segments that hold a `</string>`, in order.
pub open spec fn string_values(segments: Seq<Seq<char>>) -> Seq<Seq<char>>
    decreases segments.len(),
{
    if segments.len() == 0 {
        Seq::empty()
    } else {
        string_values(segments.drop_last()) + match before_first(segments.last(), "</string>"@) {
            Some(v) => seq![unescaped_xml(v)],
            None => Seq::empty(),
        }
    }
}

/// The `<string>` values of the `<array>` that follows `<key>ProgramArguments</key>`.
pub open spec fn program_arguments_spec(content: Seq<char>) -> Seq<Seq<char>> {
    match after_first(content, "<key>ProgramArguments</key>"@) {
        Some(a) => match after_first(a, "<array>"@) {
            Some(b) => match before_first(b, "</array>"@) {
                Some(arr) => string_values(split_all(arr, "<string>"@).drop_first()),
                None => Seq::empty(),
            },
            None => Seq::empty(),
        },
        None => Seq::empty(),
    }
}

fn after(s: &Vec<char>, p: &str) -> (r: Option<Vec<char>>)
    ensures
        match (r, after_first(s@, p@)) {
            (Some(x), Some(y)) => x@ == y,
            (None, None) => true,
            _ => false,
        },
{
    let pc = to_chars(p);
    match split_once_chars(s, &pc) {
        Some((_, b)) => Some(b),
        None => None,
    }
}

fn before(s: &Vec<char>, p: &str) -> (r: Option<Vec<char>>)
    ensures
        match (r, before_first(s@, p@)) {
            (Some(x), Some(y)) => x@ == y,
            (None, None) => true,
            _ => false,
        },
{
    let pc = to_chars(p);
    match split_once_chars(s, &pc) {
        Some((a, _)) => Some(a),
        None => None,
    }
}

fn key_tag(key: &str) -> (r: Vec<char>)
    ensures
        r@ == "<key>"@ + key@ + "</key>"@,
{
    let mut t = to_chars("<key>");
    extend_str(&mut t, key);
    extend_str(&mut t, "</key>");
    t
}

/// The string value of `key` in a plist (see `plist_value_spec`).
pub fn plist_value(content: &str, key: &str) -> (r: Option<String>)
    ensures
        match (r, plist_value_spec(content@, key@)) {
            (Some(x), Some(y)) => x@ == y,
            (None, None) => true,
            _ => false,
        },
{
    let c = to_chars(content);
    let tag = key_tag(key);
    let after_key = match split_once_chars(&c, &tag) {
        Some((_, b)) => b,
        None => return None,
    };
    let after_string = match after(&after_key, "<string>") {
        Some(b) => b,
        None => return None,
    };
    let value = match before(&after_string, "</string>") {
        Some(v) => v,
        None => return None,
    };
    let u = unescape_chars(&value);
    Some(from_chars(&u))
}

/// The integer value of `key` in a plist (see `plist_integer_spec`).
pub fn plist_integer(content: &str, key: &str) -> (r: Option<u32>)
    ensures
        match (r, plist_integer_spec(content@, key@)) {
            (Some(x), Some(y)) => x as nat == y,
            (None, None) => true,
            _ => false,
        },
{
    let c = to_chars(content);
    let tag = key_tag(key);
    let after_key = match split_once_chars(&c, &tag) {
        Some((_, b)) => b,
        None => return None,
    };
    let after_integer = match after(&after_key, "<integer>") {
        Some(b) => b,
        None => return None,
    };
    let value = match before(&after_integer, "</integer>") {
        Some(v) => v,
        None => return None,
    };
    let t = trim_chars(&value);
    let ts = from_chars(&t);
    parse_unsigned(ts.as_str(), 0xffff_ffff)
}

/// The program and arguments of a launchd job (see `program_arguments_spec`).
pub fn plist_program_arguments(content: &str) -> (r: Vec<String>)
    ensures
        strs(r@) == program_arguments_spec(content@),
{
    let c = to_chars(content);
    let tag = to_chars("<key>ProgramArguments</key>");
    let after_key = match split_once_chars(&c, &tag) {
        Some((_, b)) => b,
        None => {
            return Vec::new();
        },
    };
    let after_array = match after(&after_key, "<array>") {
        Some(b) => b,
        None => {
            return Vec::new();
        },
    };
    let array = match before(&after_array, "</array>") {
        Some(a) => a,
        None => {
            return Vec::new();
        },
    };
    let sep = to_chars("<string>");
    proof {
        reveal_strlit("<string>");
    }
    let segments = split_all_chars(&array, &sep);
    proof {
        crate::text::lemma_split_all_step(array@, sep@);
        assert(views(segments@).len() >= 1);
        assert(segments@.len() >= 1);
    }
    let ghost segs = views(segments@).drop_first();
    let mut out: Vec<String> = Vec::new();
    let mut i: usize = 1;
    proof {
        assert(segs.take(0) =~= Seq::<Seq<char>>::empty());
        assert(strs(out@) =~= string_values(segs.take(0)));
    }
    while i < segments.len()
        invariant
            1 <= i <= segments.len(),
            segs == views(segments@).drop_first(),
            strs(out@) == string_values(segs.take(i - 1)),
        decreases segments.len() - i,
    {
        proof {
            assert(segs.take(i as int).drop_last() =~= segs.take(i - 1));
            assert(segs.take(i as int).last() == segments@[i as int]@);
        }
        match before(&segments[i], "</string>") {
            Some(v) => {
                let u = unescape_chars(&v);
                let s = from_chars(&u);
                let ghost o = out@;
                out.push(s);
                proof {
                    assert(strs(out@) =~= strs(o).push(s@));
                    assert(strs(out@) =~= string_values(segs.take(i as int)));
                }
            },
            None => {
                proof {
                    assert(strs(out@) =~= string_values(segs.take(i as int)));
                }
            },
        }
        i = i + 1;
    }
    proof {
        assert(segs.take(segments.len() - 1) =~= segs);
    }
    out
}

} // verus!

verus! {

/// The views of a slice of string slices.
pub open spec fn str_views(a: Seq<&str>) -> Seq<Seq<char>> {
    a.map_values(|x: &str| x@)
}

/// The value after the first `"<key> = "` prefix of `line` among `keys`, in order,
/// trimmed.
pub open spec fn assignment_value(line: Seq<char>, keys: Seq<Seq<char>>) -> Option<Seq<char>>
    decreases keys.len(),
{
    if keys.len() == 0 {
        None
    } else if starts_with(line, keys[0] + " = "@) {
        Some(trim(line.skip((keys[0] + " = "@).len() as int)))
    } else {
        assignment_value(line, keys.drop_first())
    }
}

/// The value assigned to one of `keys` on a `launchctl print` line.
pub fn extract_assignment(line: &str, keys: &[&str]) -> (r: Option<String>)
    ensures
        match (r, assignment_value(line@, str_views(keys@))) {
            (Some(x), Some(y)) => x@ == y,
            (None, None) => true,
            _ => false,
        },
{
    let l = to_chars(line);
    let ghost ks = str_views(keys@);
    let mut i: usize = 0;
    assert(ks.skip(0) =~= ks);
    while i < keys.len()
        invariant
            i <= keys.len(),
            ks == str_views(keys@),
            assignment_value(line@, ks.skip(i as int)) == assignment_value(line@, ks),
            l@ == line@,
        decreases keys.len() - i,
    {
        let mut needle = to_chars(keys[i]);
        extend_str(&mut needle, " = ");
        proof {
            assert(ks.skip(i as int)[0] == keys@[i as int]@);
            assert(ks.skip(i as int).drop_first() =~= ks.skip(i + 1));
        }
        if starts_with_chars(&l, &needle) {
            let rest = crate::text::slice_chars(&l, needle.len(), l.len());
            assert(rest@ =~= l@.skip(needle@.len() as int));
            let t = trim_chars(&rest);
            return Some(from_chars(&t));
        }
        i = i + 1;
    }
    proof {
        assert(ks.skip(keys.len() as int) =~= Seq::<Seq<char>>::empty());
    }
    None
}

pub open spec fn pid_keys() -> Seq<Seq<char>> {
    seq!["pid"@, "PID"@]
}

pub open spec fn exit_keys() -> Seq<Seq<char>> {
    seq!["last exit code"@, "last exit status"@, "LastExitStatus"@]
}

pub open spec fn program_keys() -> Seq<Seq<char>> {
    seq!["program"@, "Program"@, "path"@, "Path"@]
}

/// The first value of each field over the trimmed lines `ls`: the pid, the last exit
/// status, and the program (only an absolute path counts).
pub open spec fn print_fields(ls: Seq<Seq<char>>) -> (Option<Seq<char>>, Option<Seq<char>>, Option<Seq<char>>)
    decreases ls.len(),
{
    if ls.len() == 0 {
        (None, None, None)
    } else {
        let (p, e, g) = print_fields(ls.drop_last());
        let l = trim(ls.last());
        (
            if p is Some {
                p
            } else {
                assignment_value(l, pid_keys())
            },
            if e is Some {
                e
            } else {
                assignment_value(l, exit_keys())
            },
            if g is Some {
                g
            } else {
                match assignment_value(l, program_keys()) {
                    Some(v) => if v.len() > 0 && v[0] == '/' {
                        Some(v)
                    } else {
                        None
                    },
                    None => None,
                }
            },
        )
    }
}

pub open spec fn opt_view(o: Option<String>) -> Option<Seq<char>> {
    match o {
        Some(s) => Some(s@),
        None => None,
    }
}

/// The fields of a `launchctl print` output (see `print_fields`).
pub fn parse_launchctl_print(output: &str) -> (r: ParsedLaunchctlPrint)
    ensures
        (opt_view(r.pid), opt_view(r.last_exit_status), opt_view(r.program)) == print_fields(
            lines_of(output@),
        ),
{
    let c = to_chars(output);
    let lines = split_lines(&c);
    let ghost ls = views(lines@);
    let mut pid: Option<String> = None;
    let mut exit: Option<String> = None;
    let mut program: Option<String> = None;
    let pk = ["pid", "PID"];
    let ek = ["last exit code", "last exit status", "LastExitStatus"];
    let gk = ["program", "Program", "path", "Path"];
    assert(str_views(pk@) =~= pid_keys());
    assert(str_views(ek@) =~= exit_keys());
    assert(str_views(gk@) =~= program_keys());
    let mut i: usize = 0;
    proof {
        assert(ls.take(0) =~= Seq::<Seq<char>>::empty());
    }
    while i < lines.len()
        invariant
            i <= lines.len(),
            ls == views(lines@),
            str_views(pk@) == pid_keys(),
            str_views(ek@) == exit_keys(),
            str_views(gk@) == program_keys(),
            (opt_view(pid), opt_view(exit), opt_view(program)) == print_fields(ls.take(i as int)),
        decreases lines.len() - i,
    {
        proof {
            assert(ls.take(i + 1).drop_last() =~= ls.take(i as int));
            assert(ls.take(i + 1).last() == lines@[i as int]@);
        }
        let t = trim_chars(&lines[i]);
        let line = from_chars(&t);
        if pid.is_none() {
            pid = extract_assignment(line.as_str(), &pk);
        }
        if exit.is_none() {
            exit = extract_assignment(line.as_str(), &ek);
        }
        if program.is_none() {
            program = match extract_assignment(line.as_str(), &gk) {
                Some(v) => {
                    let vc = to_chars(v.as_str());
                    if vc.len() > 0 && vc[0] == '/' {
                        Some(v)
                    } else {
                        None
                    }
                },
                None => None,
            };
        }
        i = i + 1;
    }
    proof {
        assert(ls.take(lines.len() as int) =~= ls);
    }
    ParsedLaunchctlPrint { pid, last_exit_status: exit, program }
}

/// Whether `launchctl` said that the service does not exist.
pub open spec fn missing_service_spec(text: Seq<char>) -> bool {
    contains_sub(text, "Could not find service"@) || contains_sub(text, "service not found"@)
        || contains_sub(text, "No such process"@)
}

pub fn is_missing_service_message(text: &str) -> (r: bool)
    ensures
        r == missing_service_spec(text@),
{
    let t = to_chars(text);
    let a = to_chars("Could not find service");
    let b = to_chars("service not found");
    let c = to_chars("No such process");
    contains_chars(&t, &a) || contains_chars(&t, &b) || contains_chars(&t, &c)
}

/// The first line of `ls` that holds `needle`.
pub open spec fn first_line_with(ls: Seq<Seq<char>>, needle: Seq<char>) -> Option<Seq<char>>
    decreases ls.len(),
{
    if ls.len() == 0 {
        None
    } else if contains_sub(ls[0], needle) {
        Some(ls[0])
    } else {
        first_line_with(ls.drop_first(), needle)
    }
}

/// Whether `launchctl print-disabled` lists `label` as disabled (`Some(true)`),
/// enabled (`Some(false)`), or neither.
pub open spec fn disabled_state(stdout: Seq<char>, label: Seq<char>) -> Option<bool> {
    let needle = "\""@ + label + "\" => "@;
    match first_line_with(lines_of(stdout), needle) {
        Some(line) => match after_first(line, needle) {
            Some(v) => {
                let st = trim(v);
                if st == "disabled"@ || st == "true"@ {
                    Some(true)
                } else if st == "enabled"@ || st == "false"@ {
                    Some(false)
                } else {
                    None
                }
            },
            None => None,
        },
        None => None,
    }
}

fn is_str(a: &Vec<char>, b: &str) -> (r: bool)
    ensures
        r == (a@ == b@),
{
    let bc = to_chars(b);
    chars_eq(a, &bc)
}

/// The state of `label` in the output of `launchctl print-disabled system`.
pub fn parse_disabled(stdout: &str, label: &str) -> (r: Option<bool>)
    ensures
        r == disabled_state(stdout@, label@),
{
    let c = to_chars(stdout);
    let lines = split_lines(&c);
    let mut needle = to_chars("\"");
    extend_str(&mut needle, label);
    extend_str(&mut needle, "\" => ");
    let ghost ls = views(lines@);
    let mut i: usize = 0;
    proof {
        assert(ls.skip(0) =~= ls);
    }
    while i < lines.len()
        invariant
            i <= lines.len(),
            ls == views(lines@),
            ls == lines_of(stdout@),
            needle@ == "\""@ + label@ + "\" => "@,
            first_line_with(ls.skip(i as int), needle@) == first_line_with(ls, needle@),
        decreases lines.len() - i,
    {
        proof {
            assert(ls.skip(i as int)[0] == lines@[i as int]@);
            assert(ls.skip(i as int).drop_first() =~= ls.skip(i + 1));
        }
        if contains_chars(&lines[i], &needle) {
            return match split_once_chars(&lines[i], &needle) {
                Some((_, v)) => {
                    let st = trim_chars(&v);
                    if is_str(&st, "disabled") || is_str(&st, "true") {
                        Some(true)
                    } else if is_str(&st, "enabled") || is_str(&st, "false") {
                        Some(false)
                    } else {
                        None
                    }
                },
                None => None,
            };
        }
        i = i + 1;
    }
    proof {
        assert(ls.skip(lines.len() as int) =~= Seq::<Seq<char>>::empty());
    }
    None
}

/// What `query_service` reports from `launchctl print`: loaded with the parsed
/// fields when the command succeeded; not loaded when it said the service does not
/// exist; none (a failure) otherwise.
pub fn service_status_from_print(disabled: Option<bool>, success: bool, stdout: &str, combined: &str) -> (r:
    Option<ServiceStatus>)
    ensures
        success ==> (r matches Some(st) && st.loaded && st.disabled == disabled && (opt_view(st.pid), opt_view(
            st.last_exit_status,
        ), opt_view(st.program)) == print_fields(lines_of(stdout@))),
        !success && missing_service_spec(combined@) ==> (r matches Some(st) && !st.loaded && st.disabled
            == disabled && st.pid is None && st.last_exit_status is None && st.program is None),
        !success && !missing_service_spec(combined@) ==> r is None,
{
    if success {
        let parsed = parse_launchctl_print(stdout);
        return Some(ServiceStatus {
            loaded: true,
            disabled,
            pid: parsed.pid,
            last_exit_status: parsed.last_exit_status,
            program: parsed.program,
        });
    }
    if is_missing_service_message(combined) {
        return Some(ServiceStatus { loaded: false, disabled, pid: None, last_exit_status: None, program: None });
    }
    None
}

/// A command line as text: the program and its arguments joined by spaces.
pub fn format_command(program: &str, args: &[&str]) -> (r: String)
    ensures
        r@ == join(seq![program@] + str_views(args@), " "@),
{
    let mut parts: Vec<Vec<char>> = Vec::new();
    parts.push(to_chars(program));
    let mut i: usize = 0;
    proof {
        assert(views(parts@) =~= seq![program@] + str_views(args@).take(0));
    }
    while i < args.len()
        invariant
            i <= args.len(),
            views(parts@) == seq![program@] + str_views(args@).take(i as int),
        decreases args.len() - i,
    {
        let a = to_chars(args[i]);
        let ghost o = parts@;
        parts.push(a);
        proof {
            lemma_views_push(o, a);
            assert(views(parts@) =~= seq![program@] + str_views(args@).take(i + 1));
        }
        i = i + 1;
    }
    proof {
        assert(str_views(args@).take(args.len() as int) =~= str_views(args@));
    }
    let sep = to_chars(" ");
    let j = join_chars(&parts, &sep);
    from_chars(&j)
}

/// The output of a command that printed `stdout` and `stderr` (both already
/// trimmed): either one alone, or both on separate lines.
pub open spec fn combined_spec(stdout: Seq<char>, stderr: Seq<char>) -> Seq<char> {
    if stdout.len() == 0 && stderr.len() == 0 {
        Seq::empty()
    } else if stderr.len() == 0 {
        stdout
    } else if stdout.len() == 0 {
        stderr
    } else {
        stdout + seq!['\n'] + stderr
    }
}

pub fn combined_output(stdout: &str, stderr: &str) -> (r: String)
    ensures
        r@ == combined_spec(stdout@, stderr@),
{
    let mut out = to_chars(stdout);
    let e = to_chars(stderr);
    if out.len() > 0 && e.len() > 0 {
        out.push('\n');
    }
    extend(&mut out, &e);
    assert(out@ =~= combined_spec(stdout@, stderr@));
    from_chars(&out)
}

/// The message for a failed command: the command and its exit status, then its
/// non-empty outputs, joined by `" | "`.
pub open spec fn failure_message_spec(command: Seq<char>, status: Seq<char>, stdout: Seq<char>, stderr: Seq<char>) -> Seq<char> {
    let first = "`"@ + command + "` exited with status "@ + status;
    let with_out = if stdout.len() > 0 {
        seq![first, "stdout: "@ + stdout]
    } else {
        seq![first]
    };
    let all = if stderr.len() > 0 {
        with_out.push("stderr: "@ + stderr)
    } else {
        with_out
    };
    join(all, " | "@)
}

pub fn command_failure_message(program: &str, args: &[&str], status: &str, stdout: &str, stderr: &str) -> (r:
    String)
    ensures
        r@ == failure_message_spec(
            join(seq![program@] + str_views(args@), " "@),
            status@,
            stdout@,
            stderr@,
        ),
{
    let cmd = format_command(program, args);
    let mut first = to_chars("`");
    extend_str(&mut first, cmd.as_str());
    extend_str(&mut first, "` exited with status ");
    extend_str(&mut first, status);
    let mut lines: Vec<Vec<char>> = Vec::new();
    lines.push(first);
    let so = to_chars(stdout);
    if so.len() > 0 {
        let mut l = to_chars("stdout: ");
        extend(&mut l, &so);
        lines.push(l);
    }
    let se = to_chars(stderr);
    if se.len() > 0 {
        let mut l = to_chars("stderr: ");
        extend(&mut l, &se);
        lines.push(l);
    }
    let ghost cmdv = join(seq![program@] + str_views(args@), " "@);
    let ghost first_v = "`"@ + cmdv + "` exited with status "@ + status@;
    let ghost with_out = if stdout@.len() > 0 {
        seq![first_v, "stdout: "@ + stdout@]
    } else {
        seq![first_v]
    };
    assert(views(lines@) =~= (if stderr@.len() > 0 {
        with_out.push("stderr: "@ + stderr@)
    } else {
        with_out
    }));
    let sep = to_chars(" | ");
    let j = join_chars(&lines, &sep);
    from_chars(&j)
}

} // verus!

verus! {

/// One run of `launchctl` as the library reads it: whether it succeeded, its exit
/// status as text, and its outputs (decoded and trimmed).
#[derive(Debug, Clone)]
pub struct CommandResult {
    pub success: bool,
    pub status: String,
    pub stdout: String,
    pub stderr: String,
}

/// `system/<label>`.
pub open spec fn system_target(label: Seq<char>) -> Seq<char> {
    "system/"@ + label
}

fn system_target_text(label: &str) -> (r: String)
    ensures
        r@ == system_target(label@),
{
    let mut v = to_chars("system/");
    extend_str(&mut v, label);
    from_chars(&v)
}

/// The state of `label` from a run of `launchctl print-disabled system`: its failure
/// message when the run failed, else the state it lists (see `disabled_state`).
pub fn service_disabled(label: &str, run: &CommandResult) -> (r: Result<Option<bool>, String>)
    ensures
        !run.success ==> (r matches Err(e) && e@ == failure_message_spec(
            join(seq!["launchctl"@, "print-disabled"@, "system"@], " "@),
            run.status@,
            run.stdout@,
            run.stderr@,
        )),
        run.success ==> r == Ok::<Option<bool>, String>(disabled_state(run.stdout@, label@)),
{
    if !run.success {
        let args = ["print-disabled", "system"];
        let m = command_failure_message("launchctl", &args, run.status.as_str(), run.stdout.as_str(), run.stderr.as_str());
        assert(seq!["launchctl"@] + str_views(args@) =~= seq!["launchctl"@, "print-disabled"@, "system"@]);
        return Err(m);
    }
    Ok(parse_disabled(run.stdout.as_str(), label))
}

/// The service's status from a run of `launchctl print system/<label>` (see
/// `service_status_from_print`); the run's failure message when it neither succeeded
/// nor said the service does not exist.
pub fn query_service(label: &str, disabled: Option<bool>, run: &CommandResult) -> (r: Result<ServiceStatus, String>)
    ensures
        run.success ==> (r matches Ok(st) && st.loaded && st.disabled == disabled && (opt_view(st.pid), opt_view(
            st.last_exit_status,
        ), opt_view(st.program)) == print_fields(lines_of(run.stdout@))),
        !run.success && missing_service_spec(combined_spec(run.stdout@, run.stderr@)) ==> (r matches Ok(st)
            && !st.loaded && st.disabled == disabled && st.pid is None && st.last_exit_status is None
            && st.program is None),
        !run.success && !missing_service_spec(combined_spec(run.stdout@, run.stderr@)) ==> (r matches Err(e)
            && e@ == failure_message_spec(
            join(seq!["launchctl"@, "print"@, system_target(label@)], " "@),
            run.status@,
            run.stdout@,
            run.stderr@,
        )),
{
    let combined = combined_output(run.stdout.as_str(), run.stderr.as_str());
    match service_status_from_print(disabled, run.success, run.stdout.as_str(), combined.as_str()) {
        Some(st) => Ok(st),
        None => {
            let target = system_target_text(label);
            let args = ["print", target.as_str()];
            let m = command_failure_message("launchctl", &args, run.status.as_str(), run.stdout.as_str(), run.stderr.as_str());
            assert(seq!["launchctl"@] + str_views(args@) =~= seq!["launchctl"@, "print"@, system_target(label@)]);
            Err(m)
        },
    }
}

/// The `launchctl` arguments that load the plist at `target` into the system domain.
pub fn bootstrap_target(target: &str) -> (r: Vec<String>)
    ensures
        strs(r@) == seq!["bootstrap"@, "system"@, target@],
{
    let mut v: Vec<String> = Vec::new();
    v.push(String::from_str("bootstrap"));
    v.push(String::from_str("system"));
    v.push(String::from_str(target));
    assert(strs(v@) =~= seq!["bootstrap"@, "system"@, target@]);
    v
}

/// The `launchctl` arguments that restart the service `label`.
pub fn kickstart_service(label: &str) -> (r: Vec<String>)
    ensures
        strs(r@) == seq!["kickstart"@, "-k"@, system_target(label@)],
{
    let mut v: Vec<String> = Vec::new();
    v.push(String::from_str("kickstart"));
    v.push(String::from_str("-k"));
    v.push(system_target_text(label));
    assert(strs(v@) =~= seq!["kickstart"@, "-k"@, system_target(label@)]);
    v
}

/// Where unloading a service stands: nothing done yet; its status read (loaded or
/// not); `launchctl bootout` run; the status read again after a failed bootout.
#[derive(Debug, Clone)]
pub enum BootoutPhase {
    Begin,
    Checked { loaded: bool },
    Ran { run: CommandResult },
    Rechecked { failed: CommandResult, loaded: bool },
}

/// What to do next when unloading a service.
#[derive(Debug)]
pub enum BootoutAction {
    QueryStatus,
    RunBootout { args: Vec<String> },
    Finish { result: Result<bool, String> },
}

/// The next step of unloading `label`: read its status; nothing to do when it is not
/// loaded (`false`); otherwise run `launchctl bootout system/<label>`; a successful
/// run unloads it (`true`); after a failed run the status is read again, and the
/// service counts as unloaded when it is gone, else the run's failure is reported.
pub fn bootout_service(label: &str, phase: &BootoutPhase) -> (r: BootoutAction)
    ensures
        match phase {
            BootoutPhase::Begin => r is QueryStatus,
            BootoutPhase::Checked { loaded } => if *loaded {
                r matches BootoutAction::RunBootout { args } && strs(args@) == seq![
                    "bootout"@,
                    system_target(label@),
                ]
            } else {
                r matches BootoutAction::Finish { result } && result == Ok::<bool, String>(false)
            },
            BootoutPhase::Ran { run } => if run.success {
                r matches BootoutAction::Finish { result } && result == Ok::<bool, String>(true)
            } else {
                r is QueryStatus
            },
            BootoutPhase::Rechecked { failed, loaded } => if !*loaded {
                r matches BootoutAction::Finish { result } && result == Ok::<bool, String>(true)
            } else {
                r matches BootoutAction::Finish { result } && result matches Err(e) && e@
                    == failure_message_spec(
                    join(seq!["launchctl"@, "bootout"@, system_target(label@)], " "@),
                    failed.status@,
                    failed.stdout@,
                    failed.stderr@,
                )
            },
        },
{
    match phase {
        BootoutPhase::Begin => BootoutAction::QueryStatus,
        BootoutPhase::Checked { loaded } => {
            if *loaded {
                let mut args: Vec<String> = Vec::new();
                args.push(String::from_str("bootout"));
                args.push(system_target_text(label));
                assert(strs(args@) =~= seq!["bootout"@, system_target(label@)]);
                BootoutAction::RunBootout { args }
            } else {
                BootoutAction::Finish { result: Ok(false) }
            }
        },
        BootoutPhase::Ran { run } => {
            if run.success {
                BootoutAction::Finish { result: Ok(true) }
            } else {
                BootoutAction::QueryStatus
            }
        },
        BootoutPhase::Rechecked { failed, loaded } => {
            if !*loaded {
                BootoutAction::Finish { result: Ok(true) }
            } else {
                let target = system_target_text(label);
                let args = ["bootout", target.as_str()];
                let m = command_failure_message(
                    "launchctl",
                    &args,
                    failed.status.as_str(),
                    failed.stdout.as_str(),
                    failed.stderr.as_str(),
                );
                assert(seq!["launchctl"@] + str_views(args@) =~= seq!["launchctl"@, "bootout"@, system_target(label@)]);
                BootoutAction::Finish { result: Err(m) }
            }
        },
    }
}

} // verus!

verus! {

/// The template before the placeholder.
spec fn plist_head() -> Seq<char> {
    "<?xml version=\"1.0\" encoding=\"UTF-8\"?>\n<!DOCTYPE plist PUBLIC \"-//Apple//DTD PLIST 1.0//EN\" \"http://www.apple.com/DTDs/PropertyList-1.0.dtd\">\n<plist version=\"1.0\">\n<dict>\n    <key>Label</key>\n    <string>com.paramo.blocker</string>\n    <key>ProgramArguments</key>\n    <array>\n        <string>"@
}

/// The template after the placeholder.
spec fn plist_tail() -> Seq<char> {
    "</string>\n        <string>run</string>\n    </array>\n    <key>RunAtLoad</key>\n    <true/>\n    <key>KeepAlive</key>\n    <true/>\n    <key>StandardOutPath</key>\n    <string>/var/log/paramo.log</string>\n    <key>StandardErrorPath</key>\n    <string>/var/log/paramo.log</string>\n</dict>\n</plist>\n"@
}

/// No character of `w` is `c`.
spec fn lacks(w: Seq<char>, c: char) -> bool {
    forall|i: int| 0 <= i < w.len() ==> #[trigger] w[i] != c
}

proof fn lemma_template_parts()
    ensures
        PLIST_TEMPLATE@ == plist_head() + BINARY_PLACEHOLDER@ + plist_tail(),
        lacks(plist_head(), '_'),
        lacks(plist_tail(), '_'),
{
    reveal_strlit("<?xml version=\"1.0\" encoding=\"UTF-8\"?>\n<!DOCTYPE plist PUBLIC \"-//Apple//DTD PLIST 1.0//EN\" \"http://www.apple.com/DTDs/PropertyList-1.0.dtd\">\n<plist version=\"1.0\">\n<dict>\n    <key>Label</key>\n    <string>com.paramo.blocker</string>\n    <key>ProgramArguments</key>\n    <array>\n        <string>__PARAMO_BINARY__</string>\n        <string>run</string>\n    </array>\n    <key>RunAtLoad</key>\n    <true/>\n    <key>KeepAlive</key>\n    <true/>\n    <key>StandardOutPath</key>\n    <string>/var/log/paramo.log</string>\n    <key>StandardErrorPath</key>\n    <string>/var/log/paramo.log</string>\n</dict>\n</plist>\n");
    reveal_strlit("__PARAMO_BINARY__");
    reveal_strlit("<?xml version=\"1.0\" encoding=\"UTF-8\"?>\n<!DOCTYPE plist PUBLIC \"-//Apple//DTD PLIST 1.0//EN\" \"http://www.apple.com/DTDs/PropertyList-1.0.dtd\">\n<plist version=\"1.0\">\n<dict>\n    <key>Label</key>\n    <string>com.paramo.blocker</string>\n    <key>ProgramArguments</key>\n    <array>\n        <string>");
    reveal_strlit("</string>\n        <string>run</string>\n    </array>\n    <key>RunAtLoad</key>\n    <true/>\n    <key>KeepAlive</key>\n    <true/>\n    <key>StandardOutPath</key>\n    <string>/var/log/paramo.log</string>\n    <key>StandardErrorPath</key>\n    <string>/var/log/paramo.log</string>\n</dict>\n</plist>\n");
    assert(PLIST_TEMPLATE@ =~= plist_head() + BINARY_PLACEHOLDER@ + plist_tail());
}

/// A piece without `p`'s first character is kept by a replacement of `p`.
proof fn lemma_replace_keeps_lacking(w: Seq<char>, t: Seq<char>, p: Seq<char>, r: Seq<char>)
    requires
        p.len() > 0,
        lacks(w, p[0]),
    ensures
        replace_all(w + t, p, r) == w + replace_all(t, p, r),
{
    assert forall|i: int| 0 <= i < w.len() implies #[trigger] blocked_at(w, p, i) by {
        assert(differs_at(w, p, i, 0));
    }
    lemma_replace_keeps(w, t, p, r);
}

/// The plist for a path is the template's head, the escaped path, and its tail.
proof fn lemma_render_shape(path: Seq<char>)
    ensures
        replace_all(PLIST_TEMPLATE@, BINARY_PLACEHOLDER@, escaped_xml(path)) == plist_head() + escaped_xml(
            path,
        ) + plist_tail(),
{
    lemma_template_parts();
    reveal_strlit("__PARAMO_BINARY__");
    let ph = BINARY_PLACEHOLDER@;
    let e = escaped_xml(path);
    let h = plist_head();
    let t = plist_tail();
    assert(ph[0] == '_');
    assert(h + ph + t =~= h + (ph + t));
    lemma_replace_keeps_lacking(h, ph + t, ph, e);
    lemma_replace_match(t, ph, e);
    let empty = Seq::<char>::empty();
    assert(t + empty =~= t);
    lemma_replace_keeps_lacking(t, empty, ph, e);
    assert(replace_all(empty, ph, e) =~= empty);
    assert(h + (e + t) =~= h + e + t);
}

proof fn lemma_lacks_concat(a: Seq<char>, b: Seq<char>, c: char)
    requires
        lacks(a, c),
        lacks(b, c),
    ensures
        lacks(a + b, c),
{
    assert forall|i: int| 0 <= i < (a + b).len() implies #[trigger] (a + b)[i] != c by {
        if i < a.len() {
            assert((a + b)[i] == a[i]);
        } else {
            assert((a + b)[i] == b[i - a.len()]);
        }
    }
}

proof fn lemma_pieces_lack_lt(v: Seq<char>)
    ensures
        lacks(pieces(v, 5), '<'),
    decreases v.len(),
{
    if v.len() > 0 {
        lemma_pieces_lack_lt(v.drop_first());
        let c = v[0];
        assert(lacks(piece(c, 5), '<')) by {
            if c == '&' {
                assert(piece(c, 5) =~= seq!['&', 'a', 'm', 'p', ';']);
            } else if c == '<' {
                assert(piece(c, 5) =~= seq!['&', 'l', 't', ';']);
            } else if c == '>' {
                assert(piece(c, 5) =~= seq!['&', 'g', 't', ';']);
            } else if c == '"' {
                assert(piece(c, 5) =~= seq!['&', 'q', 'u', 'o', 't', ';']);
            } else if c == '\'' {
                assert(piece(c, 5) =~= seq!['&', 'a', 'p', 'o', 's', ';']);
            } else {
                assert(piece(c, 5) =~= seq![c]);
            }
        }
        lemma_lacks_concat(piece(c, 5), pieces(v.drop_first(), 5), '<');
    }
}

/// An escaped text holds no `<`.
proof fn lemma_escaped_lacks_lt(v: Seq<char>)
    ensures
        lacks(escaped_xml(v), '<'),
{
    lemma_escaped_pieces(v);
    lemma_pieces_lack_lt(v);
}


spec fn pl_h1() -> Seq<char> {
    "<?xml version=\"1.0\" encoding=\"UTF-8\"?>\n<!DOCTYPE plist PUBLIC \"-//Apple//DTD PLIST 1.0//EN\" \"http://www.apple.com/DTDs/PropertyList-1.0.dtd\">\n<plist version=\"1.0\">\n<dict>\n    <key>Label</key>\n    <string>com.paramo.blocker</string>\n    "@
}

spec fn pl_key() -> Seq<char> {
    "<key>ProgramArguments</key>"@
}

spec fn pl_gap() -> Seq<char> {
    "\n    "@
}

spec fn pl_array() -> Seq<char> {
    "<array>"@
}

spec fn pl_s0() -> Seq<char> {
    "\n        "@
}

spec fn pl_string() -> Seq<char> {
    "<string>"@
}

spec fn pl_cs() -> Seq<char> {
    "</string>"@
}

spec fn pl_ta1() -> Seq<char> {
    "</string>\n        "@
}

spec fn pl_ta3() -> Seq<char> {
    "run</string>\n    "@
}

spec fn pl_close() -> Seq<char> {
    "</array>"@
}

spec fn pl_tb2() -> Seq<char> {
    "\n    <key>RunAtLoad</key>\n    <true/>\n    <key>KeepAlive</key>\n    <true/>\n    <key>StandardOutPath</key>\n    <string>/var/log/paramo.log</string>\n    <key>StandardErrorPath</key>\n    <string>/var/log/paramo.log</string>\n</dict>\n</plist>\n"@
}

spec fn pl_run() -> Seq<char> {
    "run"@
}

spec fn pl_nl4() -> Seq<char> {
    "\n    "@
}

spec fn pl_nl8() -> Seq<char> {
    "\n        "@
}

/// No `p` starts at position `j` of `w`, whatever stands around `w`.
proof fn lemma_no_match_in(x: Seq<char>, w: Seq<char>, t: Seq<char>, p: Seq<char>, j: int)
    requires
        0 <= j < w.len(),
        blocked_at(w, p, j),
    ensures
        !matches_at(x + w + t, p, x.len() + j),
{
    let k = choose|k: int| #[trigger] differs_at(w, p, j, k);
    let s = x + w + t;
    if matches_at(s, p, x.len() + j) {
        assert(s.subrange(x.len() + j, x.len() + j + p.len())[k] == p[k]);
        assert(s[x.len() + j + k] == w[j + k]);
    }
}

/// No `p` starts inside a piece that lacks `p`'s first character.
proof fn lemma_no_match_lacking(x: Seq<char>, w: Seq<char>, t: Seq<char>, p: Seq<char>, j: int)
    requires
        0 <= j < w.len(),
        p.len() > 0,
        lacks(w, p[0]),
    ensures
        !matches_at(x + w + t, p, x.len() + j),
{
    assert(differs_at(w, p, j, 0));
    lemma_no_match_in(x, w, t, p, j);
}

/// `p` occurs right after `x`.
proof fn lemma_match_after(x: Seq<char>, p: Seq<char>, t: Seq<char>)
    ensures
        matches_at(x + p + t, p, x.len() as int),
{
    assert((x + p + t).subrange(x.len() as int, (x.len() + p.len()) as int) =~= p);
}

/// Splitting at the first `p`, which follows `x`, when no `p` starts earlier.
proof fn lemma_split_after(x: Seq<char>, p: Seq<char>, t: Seq<char>)
    requires
        forall|j: int| 0 <= j < x.len() ==> !matches_at(x + p + t, p, j),
    ensures
        split_once(x + p + t, p) == Some((x, t)),
{
    let s = x + p + t;
    lemma_match_after(x, p, t);
    crate::text::lemma_first_match(s, p, x.len() as int);
    assert(s.take(x.len() as int) =~= x);
    assert(s.skip((x.len() + p.len()) as int) =~= t);
}

/// The literal pieces of the template, and where the patterns the reader looks for
/// cannot start in them.
proof fn lemma_plist_literals()
    ensures
        plist_head() == pl_h1() + pl_key() + pl_gap() + pl_array() + pl_s0() + pl_string(),
        plist_tail() == pl_ta1() + pl_string() + pl_ta3() + pl_close() + pl_tb2(),
        pl_ta1() == pl_cs() + pl_nl8(),
        pl_ta3() == pl_run() + pl_cs() + pl_nl4(),
        forall|j: int| 0 <= j < pl_h1().len() ==> #[trigger] blocked_at(pl_h1(), pl_key(), j),
        lacks(pl_gap(), '<'),
        lacks(pl_s0(), '<'),
        lacks(pl_run(), '<'),
        lacks(pl_run(), '&'),
        forall|j: int| 0 <= j < pl_ta1().len() ==> #[trigger] blocked_at(pl_ta1(), pl_string(), j),
        forall|j: int| 0 <= j < pl_ta3().len() ==> #[trigger] blocked_at(pl_ta3(), pl_string(), j),
        forall|j: int| 0 <= j < pl_ta1().len() ==> #[trigger] blocked_at(pl_ta1(), pl_close(), j),
        forall|j: int| 0 <= j < pl_ta3().len() ==> #[trigger] blocked_at(pl_ta3(), pl_close(), j),
        forall|j: int| 0 <= j < pl_string().len() ==> #[trigger] blocked_at(pl_string(), pl_close(), j),
        pl_key()[0] == '<' && pl_array()[0] == '<' && pl_string()[0] == '<' && pl_close()[0] == '<'
            && pl_cs()[0] == '<',
{
    reveal_strlit("</string>\n        ");
    reveal_strlit("run");
    reveal_strlit("\n        ");
    reveal_strlit("<array>");
    reveal_strlit("</string>");
    reveal_strlit("run</string>\n    ");
    reveal_strlit("</array>");
    reveal_strlit("\n    <key>RunAtLoad</key>\n    <true/>\n    <key>KeepAlive</key>\n    <true/>\n    <key>StandardOutPath</key>\n    <string>/var/log/paramo.log</string>\n    <key>StandardErrorPath</key>\n    <string>/var/log/paramo.log</string>\n</dict>\n</plist>\n");
    reveal_strlit("<string>");
    reveal_strlit("<key>ProgramArguments</key>");
    reveal_strlit("<?xml version=\"1.0\" encoding=\"UTF-8\"?>\n<!DOCTYPE plist PUBLIC \"-//Apple//DTD PLIST 1.0//EN\" \"http://www.apple.com/DTDs/PropertyList-1.0.dtd\">\n<plist version=\"1.0\">\n<dict>\n    <key>Label</key>\n    <string>com.paramo.blocker</string>\n    ");
    reveal_strlit("\n    ");
    reveal_strlit("<?xml version=\"1.0\" encoding=\"UTF-8\"?>\n<!DOCTYPE plist PUBLIC \"-//Apple//DTD PLIST 1.0//EN\" \"http://www.apple.com/DTDs/PropertyList-1.0.dtd\">\n<plist version=\"1.0\">\n<dict>\n    <key>Label</key>\n    <string>com.paramo.blocker</string>\n    <key>ProgramArguments</key>\n    <array>\n        <string>");
    reveal_strlit("</string>\n        <string>run</string>\n    </array>\n    <key>RunAtLoad</key>\n    <true/>\n    <key>KeepAlive</key>\n    <true/>\n    <key>StandardOutPath</key>\n    <string>/var/log/paramo.log</string>\n    <key>StandardErrorPath</key>\n    <string>/var/log/paramo.log</string>\n</dict>\n</plist>\n");
    assert(plist_head() =~= pl_h1() + pl_key() + pl_gap() + pl_array() + pl_s0() + pl_string());
    assert(plist_tail() =~= pl_ta1() + pl_string() + pl_ta3() + pl_close() + pl_tb2());
    assert(pl_ta1() =~= pl_cs() + pl_nl8());
    assert(pl_ta3() =~= pl_run() + pl_cs() + pl_nl4());
    assert forall|j: int| 0 <= j < pl_h1().len() implies #[trigger] blocked_at(pl_h1(), pl_key(), j) by {
        assert(differs_at(pl_h1(), pl_key(), j, 0) || differs_at(pl_h1(), pl_key(), j, 1) || differs_at(
            pl_h1(),
            pl_key(),
            j,
            5,
        ));
    }
    assert forall|j: int| 0 <= j < pl_ta1().len() implies #[trigger] blocked_at(pl_ta1(), pl_string(), j) by {
        assert(differs_at(pl_ta1(), pl_string(), j, 0) || differs_at(pl_ta1(), pl_string(), j, 1));
    }
    assert forall|j: int| 0 <= j < pl_ta3().len() implies #[trigger] blocked_at(pl_ta3(), pl_string(), j) by {
        assert(differs_at(pl_ta3(), pl_string(), j, 0) || differs_at(pl_ta3(), pl_string(), j, 1));
    }
    assert forall|j: int| 0 <= j < pl_ta1().len() implies #[trigger] blocked_at(pl_ta1(), pl_close(), j) by {
        assert(differs_at(pl_ta1(), pl_close(), j, 0) || differs_at(pl_ta1(), pl_close(), j, 2));
    }
    assert forall|j: int| 0 <= j < pl_ta3().len() implies #[trigger] blocked_at(pl_ta3(), pl_close(), j) by {
        assert(differs_at(pl_ta3(), pl_close(), j, 0) || differs_at(pl_ta3(), pl_close(), j, 2));
    }
    assert forall|j: int| 0 <= j < pl_string().len() implies #[trigger] blocked_at(pl_string(), pl_close(), j) by {
        assert(differs_at(pl_string(), pl_close(), j, 0) || differs_at(pl_string(), pl_close(), j, 1));
    }
}

/// The plist written for a binary reads back as that binary and `run`: whatever XML
/// special characters the path holds, `plist_program_arguments` gives the path back.
pub proof fn law_plist_arguments_read_back(path: Seq<char>)
    ensures
        program_arguments_spec(replace_all(PLIST_TEMPLATE@, BINARY_PLACEHOLDER@, escaped_xml(path))) == seq![
            path,
            "run"@,
        ],
{
    let e = escaped_xml(path);
    lemma_render_shape(path);
    lemma_plist_literals();
    lemma_escaped_lacks_lt(path);
    reveal_strlit("<key>ProgramArguments</key>");
    reveal_strlit("<array>");
    reveal_strlit("</array>");
    reveal_strlit("<string>");
    reveal_strlit("</string>");
    reveal_strlit("run");
    assert(pl_key() == "<key>ProgramArguments</key>"@);
    assert(pl_array() == "<array>"@);
    assert(pl_close() == "</array>"@);
    assert(pl_string() == "<string>"@);
    assert(pl_cs() == "</string>"@);
    assert(pl_run() == "run"@);
    let content = plist_head() + e + plist_tail();
    // the key
    let r1 = pl_gap() + pl_array() + pl_s0() + pl_string() + e + plist_tail();
    assert(content =~= pl_h1() + pl_key() + r1);
    assert forall|j: int| 0 <= j < pl_h1().len() implies !matches_at(pl_h1() + pl_key() + r1, pl_key(), j) by {
        lemma_no_match_in(Seq::empty(), pl_h1(), pl_key() + r1, pl_key(), j);
        assert(Seq::<char>::empty() + pl_h1() + (pl_key() + r1) =~= pl_h1() + pl_key() + r1);
    }
    lemma_split_after(pl_h1(), pl_key(), r1);
    // the array
    let r2 = pl_s0() + pl_string() + e + plist_tail();
    assert(r1 =~= pl_gap() + pl_array() + r2);
    assert forall|j: int| 0 <= j < pl_gap().len() implies !matches_at(pl_gap() + pl_array() + r2, pl_array(), j) by {
        lemma_no_match_lacking(Seq::empty(), pl_gap(), pl_array() + r2, pl_array(), j);
        assert(Seq::<char>::empty() + pl_gap() + (pl_array() + r2) =~= pl_gap() + pl_array() + r2);
    }
    lemma_split_after(pl_gap(), pl_array(), r2);
    // the end of the array
    let x1 = pl_s0() + pl_string();
    let arr = x1 + e + pl_ta1() + pl_string() + pl_ta3();
    let r3 = pl_tb2();
    assert(r2 =~= arr + pl_close() + r3);
    assert forall|j: int| 0 <= j < arr.len() implies !matches_at(arr + pl_close() + r3, pl_close(), j) by {
        let s3 = arr + pl_close() + r3;
        if j < pl_s0().len() {
            lemma_no_match_lacking(Seq::empty(), pl_s0(), s3.skip(pl_s0().len() as int), pl_close(), j);
            assert(Seq::<char>::empty() + pl_s0() + s3.skip(pl_s0().len() as int) =~= s3);
        } else if j < x1.len() {
            let k = j - pl_s0().len();
            lemma_no_match_in(pl_s0(), pl_string(), s3.skip(x1.len() as int), pl_close(), k);
            assert(pl_s0() + pl_string() + s3.skip(x1.len() as int) =~= s3);
        } else if j < x1.len() + e.len() {
            let k = j - x1.len();
            lemma_no_match_lacking(x1, e, s3.skip((x1.len() + e.len()) as int), pl_close(), k);
            assert(x1 + e + s3.skip((x1.len() + e.len()) as int) =~= s3);
        } else if j < x1.len() + e.len() + pl_ta1().len() {
            let k = j - x1.len() - e.len();
            let x = x1 + e;
            lemma_no_match_in(x, pl_ta1(), s3.skip((x.len() + pl_ta1().len()) as int), pl_close(), k);
            assert(x + pl_ta1() + s3.skip((x.len() + pl_ta1().len()) as int) =~= s3);
        } else if j < x1.len() + e.len() + pl_ta1().len() + pl_string().len() {
            let x = x1 + e + pl_ta1();
            let k = j - x.len();
            lemma_no_match_in(x, pl_string(), s3.skip((x.len() + pl_string().len()) as int), pl_close(), k);
            assert(x + pl_string() + s3.skip((x.len() + pl_string().len()) as int) =~= s3);
        } else {
            let x = x1 + e + pl_ta1() + pl_string();
            let k = j - x.len();
            lemma_no_match_in(x, pl_ta3(), s3.skip((x.len() + pl_ta3().len()) as int), pl_close(), k);
            assert(x + pl_ta3() + s3.skip((x.len() + pl_ta3().len()) as int) =~= s3);
        }
    }
    lemma_split_after(arr, pl_close(), r3);
    assert(program_arguments_spec(content) == string_values(split_all(arr, pl_string()).drop_first()));
    // the strings of the array
    let b1 = e + pl_ta1() + pl_string() + pl_ta3();
    assert(arr =~= pl_s0() + pl_string() + b1);
    assert forall|j: int| 0 <= j < pl_s0().len() implies !matches_at(pl_s0() + pl_string() + b1, pl_string(), j) by {
        lemma_no_match_lacking(Seq::empty(), pl_s0(), pl_string() + b1, pl_string(), j);
        assert(Seq::<char>::empty() + pl_s0() + (pl_string() + b1) =~= pl_s0() + pl_string() + b1);
    }
    lemma_split_after(pl_s0(), pl_string(), b1);
    let a2 = e + pl_ta1();
    assert(b1 =~= a2 + pl_string() + pl_ta3());
    assert forall|j: int| 0 <= j < a2.len() implies !matches_at(a2 + pl_string() + pl_ta3(), pl_string(), j) by {
        let s4 = a2 + pl_string() + pl_ta3();
        if j < e.len() {
            lemma_no_match_lacking(Seq::empty(), e, s4.skip(e.len() as int), pl_string(), j);
            assert(Seq::<char>::empty() + e + s4.skip(e.len() as int) =~= s4);
        } else {
            lemma_no_match_in(e, pl_ta1(), pl_string() + pl_ta3(), pl_string(), j - e.len());
            assert(e + pl_ta1() + (pl_string() + pl_ta3()) =~= s4);
        }
    }
    lemma_split_after(a2, pl_string(), pl_ta3());
    lemma_ta3_split();
    lemma_split_all_step(a2, pl_string(), pl_ta3());
    lemma_split_all_step(pl_s0(), pl_string(), b1);
    assert(split_all(b1, pl_string()) == seq![a2] + split_all(pl_ta3(), pl_string()));
    assert(split_all(arr, pl_string()) == seq![pl_s0()] + split_all(b1, pl_string()));
    let segs = seq![a2, pl_ta3()];
    assert(split_all(arr, pl_string()).drop_first() =~= segs);
    // the values
    assert(a2 =~= e + pl_cs() + pl_nl8());
    assert forall|j: int| 0 <= j < e.len() implies !matches_at(e + pl_cs() + pl_nl8(), pl_cs(), j) by {
        lemma_no_match_lacking(Seq::empty(), e, pl_cs() + pl_nl8(), pl_cs(), j);
        assert(Seq::<char>::empty() + e + (pl_cs() + pl_nl8()) =~= e + pl_cs() + pl_nl8());
    }
    lemma_split_after(e, pl_cs(), pl_nl8());
    assert forall|j: int| 0 <= j < pl_run().len() implies !matches_at(pl_run() + pl_cs() + pl_nl4(), pl_cs(), j) by {
        lemma_no_match_lacking(Seq::empty(), pl_run(), pl_cs() + pl_nl4(), pl_cs(), j);
        assert(Seq::<char>::empty() + pl_run() + (pl_cs() + pl_nl4()) =~= pl_run() + pl_cs() + pl_nl4());
    }
    lemma_split_after(pl_run(), pl_cs(), pl_nl4());
    law_unescape_undoes_escape(path);
    lemma_unescape_plain(pl_run());
    assert(segs.drop_last() =~= seq![a2]);
    assert(seq![a2].drop_last() =~= Seq::<Seq<char>>::empty());
    assert(string_values(Seq::<Seq<char>>::empty()) == Seq::<Seq<char>>::empty());
    assert(before_first(a2, pl_cs()) == Some(e));
    assert(seq![a2].last() == a2);
    assert(string_values(seq![a2]) =~= seq![path]);
    assert(before_first(pl_ta3(), pl_cs()) == Some(pl_run()));
    assert(string_values(segs) =~= seq![path, "run"@]);
}

/// Splitting at every `p` when the first one follows `x`.
proof fn lemma_split_all_step(x: Seq<char>, p: Seq<char>, t: Seq<char>)
    requires
        p.len() > 0,
        split_once(x + p + t, p) == Some((x, t)),
    ensures
        split_all(x + p + t, p) == seq![x] + split_all(t, p),
{
    reveal(split_all);
}

/// The last piece of the array holds no `<string>`.
proof fn lemma_ta3_split()
    ensures
        split_all(pl_ta3(), pl_string()) == seq![pl_ta3()],
{
    lemma_plist_literals();
    assert(!crate::text::contains_sub(pl_ta3(), pl_string())) by {
        if crate::text::contains_sub(pl_ta3(), pl_string()) {
            let j = choose|j: int| matches_at(pl_ta3(), pl_string(), j);
            reveal_strlit("<string>");
            assert(pl_string().len() == 8);
            assert(j < pl_ta3().len());
            lemma_no_match_in(Seq::empty(), pl_ta3(), Seq::empty(), pl_string(), j);
            assert(Seq::<char>::empty() + pl_ta3() + Seq::<char>::empty() =~= pl_ta3());
        }
    }
    reveal(crate::text::first_match);
    assert(split_once(pl_ta3(), pl_string()) is None);
    reveal(split_all);
}

/// A text without `&` is unchanged by unescaping.
proof fn lemma_unescape_plain(w: Seq<char>)
    requires
        lacks(w, '&'),
    ensures
        unescaped_xml(w) == w,
{
    reveal_strlit("&lt;");
    reveal_strlit("&gt;");
    reveal_strlit("&quot;");
    reveal_strlit("&apos;");
    reveal_strlit("&amp;");
    let empty = Seq::<char>::empty();
    assert(w + empty =~= w);
    assert(replace_all(empty, "&lt;"@, "<"@) =~= empty);
    assert(replace_all(empty, "&gt;"@, ">"@) =~= empty);
    assert(replace_all(empty, "&quot;"@, "\""@) =~= empty);
    assert(replace_all(empty, "&apos;"@, "'"@) =~= empty);
    assert(replace_all(empty, "&amp;"@, "&"@) =~= empty);
    lemma_replace_keeps_lacking(w, empty, "&lt;"@, "<"@);
    lemma_replace_keeps_lacking(w, empty, "&gt;"@, ">"@);
    lemma_replace_keeps_lacking(w, empty, "&quot;"@, "\""@);
    lemma_replace_keeps_lacking(w, empty, "&apos;"@, "'"@);
    lemma_replace_keeps_lacking(w, empty, "&amp;"@, "&"@);
}

} // verus!
