use vstd::prelude::*;
use vstd::utf8::{valid_utf8, decode_utf8};
use crate::launchd::opt_view;
use crate::clock::{format_local, formatted_local, local_time_at, local_time_of, parse_rfc3339, rfc3339_instant, valid_day};
use crate::num::{decimal, decimal_chars};
use crate::scheduler::LocalTime;
use crate::text::{ascii_lower, ascii_lower_seq, extend, extend_str, from_chars, split_once, split_once_chars, to_chars, trim, trim_chars};

verus! {

/// The text that the bytes `b` encode, if they are valid UTF-8.
pub open spec fn utf8_text(b: Seq<u8>) -> Option<Seq<char>> {
    if valid_utf8(b) {
        Some(decode_utf8(b))
    } else {
        None
    }
}

/// `String::from_utf8`: the text of the bytes when they are valid UTF-8, else nothing.
#[verifier::external_body]
fn decode_bytes(bytes: &[u8]) -> (r: Option<String>)
    ensures
        opt_view(r) == utf8_text(bytes@),
{
    match String::from_utf8(bytes.to_vec()) {
        Ok(s) => Some(s),
        Err(_) => None,
    }
}

/// The big-endian 16-bit number at `i` in `b`.
pub open spec fn be16(b: Seq<u8>, i: int) -> int {
    b[i] as int * 256 + b[i + 1] as int
}

/// The server name in the TLS extensions of `b` that begin at `pos`: each extension
/// is a type and a length (two bytes each) and its data; the server name extension
/// (type 0) holds a list length, a name type and the name's length before the name.
/// Nothing when the data ends before the name does.
pub open spec fn sni_in_extensions(b: Seq<u8>, pos: int) -> Option<Seq<u8>>
    decreases b.len() - pos,
{
    if pos < 0 || pos + 4 > b.len() {
        None
    } else if be16(b, pos) == 0 {
        let p = pos + 4;
        if p + 5 > b.len() {
            None
        } else {
            let n = be16(b, p + 3);
            let start = p + 5;
            if start + n > b.len() {
                None
            } else {
                Some(b.subrange(start, start + n))
            }
        }
    } else {
        let next = pos + 4 + be16(b, pos + 2);
        if next + 4 > b.len() {
            None
        } else {
            sni_in_extensions(b, next)
        }
    }
}

/// The server name bytes of a TLS ClientHello record: a handshake record (first byte
/// 0x16) holding a ClientHello (byte 5 is 1); after the 43 fixed bytes come the
/// session id, the cipher suites and the compression methods, each behind its
/// length, then the length of the extensions and the extensions.
pub open spec fn sni_name(b: Seq<u8>) -> Option<Seq<u8>> {
    if b.len() < 44 || b[0] != 0x16 || b[5] != 0x01 {
        None
    } else {
        let p1 = 44 + b[43];
        if p1 + 2 > b.len() {
            None
        } else {
            let p2 = p1 + 2 + be16(b, p1);
            if p2 >= b.len() {
                None
            } else {
                let p3 = p2 + 1 + b[p2];
                if p3 + 2 > b.len() {
                    None
                } else {
                    sni_in_extensions(b, p3 + 2)
                }
            }
        }
    }
}

/// The host name a TLS ClientHello asks for (its SNI extension), when the name is
/// there in full and is valid UTF-8.
pub open spec fn sni_text(b: Seq<u8>) -> Option<Seq<char>> {
    match sni_name(b) {
        Some(n) => utf8_text(n),
        None => None,
    }
}

/// The big-endian 16-bit number at `i` in `buf`.
fn read_be16(buf: &[u8], i: usize) -> (r: usize)
    requires
        i + 2 <= buf@.len(),
    ensures
        r == be16(buf@, i as int),
        r <= 65535,
{
    buf[i] as usize * 256 + buf[i + 1] as usize
}

/// The host name in the SNI extension of a TLS ClientHello (see `sni_text`).
pub fn extract_sni(buf: &[u8]) -> (r: Option<String>)
    ensures
        opt_view(r) == sni_text(buf@),
{
    let len = buf.len();
    if len < 44 {
        return None;
    }
    if buf[0] != 0x16 || buf[5] != 0x01 {
        return None;
    }
    let mut pos: usize = 44 + buf[43] as usize;
    if pos > len || len - pos < 2 {
        return None;
    }
    let cs_len = read_be16(buf, pos);
    if cs_len > len - pos - 2 {
        return None;
    }
    pos = pos + 2 + cs_len;
    if pos >= len {
        return None;
    }
    let cm_len = buf[pos] as usize;
    if cm_len + 1 > len - pos || len - pos - 1 - cm_len < 2 {
        return None;
    }
    pos = pos + 1 + cm_len + 2;
    assert(sni_name(buf@) == sni_in_extensions(buf@, pos as int));
    while pos <= len && len - pos >= 4
        invariant
            len == buf@.len(),
            pos <= len + 4,
            sni_name(buf@) == sni_in_extensions(buf@, pos as int),
        decreases len - pos,
    {
        let ext_type = read_be16(buf, pos);
        let ext_len = read_be16(buf, pos + 2);
        let p = pos + 4;
        if ext_type == 0 {
            if len - p < 5 {
                return None;
            }
            let n = read_be16(buf, p + 3);
            let start = p + 5;
            if n > len - start {
                return None;
            }
            let name = slice_bytes(buf, start, start + n);
            return decode_bytes(name.as_slice());
        }
        if ext_len > len - p || len - p - ext_len < 4 {
            return None;
        }
        pos = p + ext_len;
    }
    None
}

/// The bytes of `buf` from `a` to `b`.
fn slice_bytes(buf: &[u8], a: usize, b: usize) -> (r: Vec<u8>)
    requires
        a <= b <= buf@.len(),
    ensures
        r@ == buf@.subrange(a as int, b as int),
{
    let mut r: Vec<u8> = Vec::new();
    let mut i = a;
    while i < b
        invariant
            a <= i <= b <= buf@.len(),
            r@ == buf@.subrange(a as int, i as int),
        decreases b - i,
    {
        r.push(buf[i]);
        i = i + 1;
    }
    r
}

} // verus!

verus! {

/// The number of bytes `c` takes in UTF-8.
pub open spec fn char_len(c: char) -> int {
    let u = c as u32;
    if u < 0x80 {
        1
    } else if u < 0x800 {
        2
    } else if u < 0x10000 {
        3
    } else {
        4
    }
}

/// The number of bytes `l` takes in UTF-8.
pub open spec fn byte_len(l: Seq<char>) -> int
    decreases l.len(),
{
    if l.len() == 0 {
        0
    } else {
        char_len(l[0]) + byte_len(l.drop_first())
    }
}

/// Whether the first `n` bytes of `l` in UTF-8 end between two characters.
pub open spec fn boundary_at(l: Seq<char>, n: int) -> bool
    decreases l.len(),
{
    if n == 0 {
        true
    } else if n < 0 || l.len() == 0 {
        false
    } else {
        boundary_at(l.drop_first(), n - char_len(l[0]))
    }
}

/// Whether `l` starts with `Host:` in any ASCII case.
pub open spec fn is_host_header(l: Seq<char>) -> bool {
    l.len() >= 5 && ascii_lower_seq(l.take(5)) == seq!['h', 'o', 's', 't', ':']
}

/// `s` up to its first `':'`.
pub open spec fn before_colon(s: Seq<char>) -> Seq<char>
    decreases s.len(),
{
    if s.len() == 0 || s[0] == ':' {
        Seq::empty()
    } else {
        seq![s[0]] + before_colon(s.drop_first())
    }
}

/// The host named by a `Host:` line: the rest of the line trimmed and in small
/// letters, without a port, trimmed again.
pub open spec fn host_value(l: Seq<char>) -> Seq<char> {
    crate::text::trim(before_colon(ascii_lower_seq(crate::text::trim(l.skip(5)))))
}

/// The first non-empty host of a `Host:` line among `ls`. `None` stands for a line
/// of five bytes or more whose fifth byte ends inside a character: the header test
/// cuts every such line there, which is no place to cut a string.
pub open spec fn host_scan(ls: Seq<Seq<char>>) -> Option<Option<Seq<char>>>
    decreases ls.len(),
{
    if ls.len() == 0 {
        Some(None)
    } else {
        let l = ls[0];
        if byte_len(l) >= 5 && !boundary_at(l, 5) {
            None
        } else if is_host_header(l) && host_value(l).len() > 0 {
            Some(Some(host_value(l)))
        } else {
            host_scan(ls.drop_first())
        }
    }
}

/// The scan of the lines of an HTTP request (see `host_scan`); a request that is not
/// UTF-8 names no host.
pub open spec fn http_host_scan(b: Seq<u8>) -> Option<Option<Seq<char>>> {
    match utf8_text(b) {
        Some(t) => host_scan(crate::text::lines_of(t)),
        None => Some(None),
    }
}

proof fn lemma_byte_len_nonneg(l: Seq<char>)
    ensures
        byte_len(l) >= 0,
    decreases l.len(),
{
    if l.len() > 0 {
        lemma_byte_len_nonneg(l.drop_first());
    }
}

/// Whether the characters of `l` from `i` on take at least `n` bytes.
fn bytes_at_least(l: &Vec<char>, i: usize, n: i64) -> (r: bool)
    requires
        i <= l@.len(),
        n <= 5,
    ensures
        r == (byte_len(l@.skip(i as int)) >= n),
    decreases l@.len() - i,
{
    proof {
        lemma_byte_len_nonneg(l@.skip(i as int));
    }
    if n <= 0 {
        return true;
    }
    if i == l.len() {
        assert(l@.skip(i as int).len() == 0);
        return false;
    }
    assert(l@.skip(i as int).drop_first() =~= l@.skip(i + 1));
    let c = l[i];
    let w: i64 = if (c as u32) < 0x80 {
        1
    } else if (c as u32) < 0x800 {
        2
    } else if (c as u32) < 0x10000 {
        3
    } else {
        4
    };
    bytes_at_least(l, i + 1, n - w)
}

/// Whether the first `n` bytes of the characters of `l` from `i` on end between two
/// characters.
fn boundary_from(l: &Vec<char>, i: usize, n: i64) -> (r: bool)
    requires
        i <= l@.len(),
        n <= 5,
    ensures
        r == boundary_at(l@.skip(i as int), n as int),
    decreases l@.len() - i,
{
    if n == 0 {
        return true;
    }
    if n < 0 || i == l.len() {
        return false;
    }
    assert(l@.skip(i as int).drop_first() =~= l@.skip(i + 1));
    let c = l[i];
    let w: i64 = if (c as u32) < 0x80 {
        1
    } else if (c as u32) < 0x800 {
        2
    } else if (c as u32) < 0x10000 {
        3
    } else {
        4
    };
    boundary_from(l, i + 1, n - w)
}

fn lower_ascii_char(c: char) -> (r: char)
    ensures
        r == ascii_lower(c),
{
    if 'A' <= c && c <= 'Z' {
        let b: u8 = c as u8;
        assert(b as u32 == c as u32);
        (b + 32) as char
    } else {
        c
    }
}

fn header_is_host(l: &Vec<char>) -> (r: bool)
    ensures
        r == is_host_header(l@),
{
    if l.len() < 5 {
        return false;
    }
    let r = lower_ascii_char(l[0]) == 'h' && lower_ascii_char(l[1]) == 'o' && lower_ascii_char(l[2])
        == 's' && lower_ascii_char(l[3]) == 't' && lower_ascii_char(l[4]) == ':';
    assert(r == (ascii_lower_seq(l@.take(5)) =~= seq!['h', 'o', 's', 't', ':']));
    r
}

fn host_of_line(l: &Vec<char>) -> (r: Vec<char>)
    requires
        l@.len() >= 5,
    ensures
        r@ == host_value(l@),
{
    let rest = crate::text::slice_chars(l, 5, l.len());
    assert(rest@ =~= l@.skip(5));
    let t = crate::text::trim_chars(&rest);
    let mut low: Vec<char> = Vec::new();
    let mut i: usize = 0;
    while i < t.len()
        invariant
            i <= t@.len(),
            low@ == ascii_lower_seq(t@.take(i as int)),
        decreases t@.len() - i,
    {
        low.push(lower_ascii_char(t[i]));
        i = i + 1;
        assert(low@ =~= ascii_lower_seq(t@.take(i as int)));
    }
    assert(t@.take(t@.len() as int) =~= t@);
    let ghost lw = low@;
    let mut j: usize = 0;
    while j < low.len() && low[j] != ':'
        invariant
            j <= low@.len(),
            lw == low@,
            forall|k: int| 0 <= k < j ==> low@[k] != ':',
        decreases low@.len() - j,
    {
        j = j + 1;
    }
    let head = crate::text::slice_chars(&low, 0, j);
    proof {
        lemma_before_colon(lw, j as int);
    }
    crate::text::trim_chars(&head)
}

proof fn lemma_before_colon(s: Seq<char>, j: int)
    requires
        0 <= j <= s.len(),
        forall|k: int| 0 <= k < j ==> s[k] != ':',
        j == s.len() || s[j] == ':',
    ensures
        before_colon(s) == s.subrange(0, j),
    decreases s.len(),
{
    if s.len() > 0 && j > 0 {
        let t = s.drop_first();
        assert forall|k: int| 0 <= k < j - 1 implies t[k] != ':' by {
            assert(t[k] == s[k + 1]);
        }
        if j < s.len() {
            assert(t[j - 1] == s[j]);
        }
        lemma_before_colon(t, j - 1);
        assert(seq![s[0]] + t.subrange(0, j - 1) =~= s.subrange(0, j));
    } else {
        assert(s.subrange(0, j) =~= Seq::<char>::empty());
    }
}

/// Whether the host of an HTTP request can be read (see `http_host_scan`): no line
/// met before the host is cut inside a character.
pub fn http_host_readable(buf: &[u8]) -> (r: bool)
    ensures
        r == (http_host_scan(buf@) is Some),
{
    let text = match decode_bytes(buf) {
        Some(t) => t,
        None => return true,
    };
    let chars = crate::text::to_chars(text.as_str());
    let lines = crate::text::split_lines(&chars);
    let ghost ls = crate::text::views(lines@);
    assert(utf8_text(buf@) == Some(text@));
    assert(chars@ == text@);
    assert(ls.skip(0) =~= ls);
    let mut i: usize = 0;
    while i < lines.len()
        invariant
            i <= lines@.len(),
            ls == crate::text::views(lines@),
            http_host_scan(buf@) == host_scan(ls.skip(i as int)),
        decreases lines@.len() - i,
    {
        let line = &lines[i];
        assert(ls.skip(i as int)[0] == line@);
        assert(ls.skip(i as int).drop_first() =~= ls.skip(i + 1));
        let long = bytes_at_least(line, 0, 5);
        let cut = boundary_from(line, 0, 5);
        assert(line@.skip(0) =~= line@);
        if long && !cut {
            return false;
        }
        if header_is_host(line) {
            let h = host_of_line(line);
            if h.len() > 0 {
                return true;
            }
        }
        i = i + 1;
    }
    assert(ls.skip(i as int).len() == 0);
    true
}

/// The host an HTTP request names in its first `Host:` line with a non-empty value
/// (see `http_host_scan`).
pub fn extract_http_host(buf: &[u8]) -> (r: Option<String>)
    requires
        http_host_scan(buf@) is Some,
    ensures
        Some(opt_view(r)) == http_host_scan(buf@),
{
    let text = match decode_bytes(buf) {
        Some(t) => t,
        None => return None,
    };
    let chars = crate::text::to_chars(text.as_str());
    let lines = crate::text::split_lines(&chars);
    let ghost ls = crate::text::views(lines@);
    assert(utf8_text(buf@) == Some(text@));
    assert(chars@ == text@);
    assert(ls.skip(0) =~= ls);
    let mut i: usize = 0;
    while i < lines.len()
        invariant
            i <= lines@.len(),
            ls == crate::text::views(lines@),
            http_host_scan(buf@) == host_scan(ls.skip(i as int)),
            http_host_scan(buf@) is Some,
        decreases lines@.len() - i,
    {
        let line = &lines[i];
        assert(ls.skip(i as int)[0] == line@);
        assert(ls.skip(i as int).drop_first() =~= ls.skip(i + 1));
        let long = bytes_at_least(line, 0, 5);
        let cut = boundary_from(line, 0, 5);
        assert(line@.skip(0) =~= line@);
        assert(!(long && !cut));
        if header_is_host(line) {
            let h = host_of_line(line);
            if h.len() > 0 {
                return Some(crate::text::from_chars(&h));
            }
        }
        i = i + 1;
    }
    assert(ls.skip(i as int).len() == 0);
    None
}

} // verus!

verus! {

/// How long (in milliseconds) a domain and protocol stay quiet after an attempt is
/// logged: browsers retry a refused connection several times at once.
pub const DEBOUNCE_MS: u64 = 5000;

/// When each domain and protocol (`domain|proto`) was last logged, in milliseconds of
/// a monotonic clock. Each key occurs once.
#[derive(Debug, Clone)]
pub struct Debounce {
    pub seen: Vec<(String, u64)>,
}

/// The debounce key of a domain and protocol.
pub open spec fn debounce_key(domain: Seq<char>, proto: Seq<char>) -> Seq<char> {
    domain + seq!['|'] + proto
}

impl Debounce {
    pub open spec fn keys(self) -> Seq<Seq<char>> {
        self.seen@.map_values(|e: (String, u64)| e.0@)
    }

    /// Each key occurs once.
    pub open spec fn wf(self) -> bool {
        forall|i: int, j: int| 0 <= i < j < self.seen@.len() ==> self.seen@[i].0@ != self.seen@[j].0@
    }

    /// When each key was last logged.
    pub open spec fn view(self) -> Map<Seq<char>, int> {
        Map::new(
            |k: Seq<char>| exists|i: int| 0 <= i < self.seen@.len() && #[trigger] self.seen@[i].0@ == k,
            |k: Seq<char>|
                self.seen@[choose|i: int| 0 <= i < self.seen@.len() && #[trigger] self.seen@[i].0@ == k].1 as int,
        )
    }

    pub fn new() -> (r: Debounce)
        ensures
            r.wf(),
            r.view() == Map::<Seq<char>, int>::empty(),
    {
        let r = Debounce { seen: Vec::new() };
        assert(r.view() =~= Map::<Seq<char>, int>::empty());
        r
    }
}

/// Whether an attempt at `now` is logged: unless the same key was logged less than
/// `DEBOUNCE_MS` before.
pub open spec fn debounce_allows(seen: Map<Seq<char>, int>, key: Seq<char>, now: int) -> bool {
    !(seen.contains_key(key) && (if now >= seen[key] {
        now - seen[key]
    } else {
        0
    }) < DEBOUNCE_MS)
}

/// Each site and protocol is logged at most once per window: after an attempt is
/// logged at `t`, a later one is refused until `DEBOUNCE_MS` have passed, and logged
/// from then on.
pub proof fn law_debounce_window(seen: Map<Seq<char>, int>, key: Seq<char>, t: int, u: int)
    requires
        t <= u,
    ensures
        debounce_allows(seen.insert(key, t), key, u) <==> u >= t + DEBOUNCE_MS,
{
}

/// Decides whether an attempt on `domain` over `proto` at `now` (milliseconds) is
/// logged, and remembers the time when it is.
pub fn debounce_allow(state: &mut Debounce, domain: &str, proto: &str, now: u64) -> (r: bool)
    requires
        old(state).wf(),
    ensures
        final(state).wf(),
        r == debounce_allows(old(state).view(), debounce_key(domain@, proto@), now as int),
        final(state).view() == (if r {
            old(state).view().insert(debounce_key(domain@, proto@), now as int)
        } else {
            old(state).view()
        }),
{
    let mut kc = to_chars(domain);
    kc.push('|');
    extend_str(&mut kc, proto);
    let key = from_chars(&kc);
    let ghost k = debounce_key(domain@, proto@);
    assert(key@ =~= k);
    let ghost m0 = state.view();
    let mut i: usize = 0;
    while i < state.seen.len()
        invariant
            i <= state.seen@.len(),
            state.wf(),
            m0 == state.view(),
            m0 == old(state).view(),
            state.seen@ == old(state).seen@,
            key@ == k,
            k == debounce_key(domain@, proto@),
            forall|j: int| 0 <= j < i ==> state.seen@[j].0@ != k,
        decreases state.seen@.len() - i,
    {
        if state.seen[i].0 == key {
            let last = state.seen[i].1;
            assert(m0.contains_key(k));
            assert(m0[k] == last) by {
                let c = choose|c: int| 0 <= c < state.seen@.len() && #[trigger] state.seen@[c].0@ == k;
                assert(c == i);
            }
            let elapsed: u64 = if now >= last {
                now - last
            } else {
                0
            };
            if elapsed < DEBOUNCE_MS {
                return false;
            }
            let ghost before = state.seen@;
            state.seen.set(i, (key, now));
            proof {
                assert forall|a: int, b: int| 0 <= a < b < state.seen@.len() implies state.seen@[a].0@
                    != state.seen@[b].0@ by {
                    assert(before[a].0@ != before[b].0@);
                }
                assert(state.view() =~= m0.insert(k, now as int)) by {
                    assert forall|q: Seq<char>| #[trigger] state.view().contains_key(q) == m0.insert(k, now as int).contains_key(q) by {
                        if m0.contains_key(q) {
                            let c = choose|c: int| 0 <= c < before.len() && #[trigger] before[c].0@ == q;
                            assert(state.seen@[c].0@ == q);
                        }
                        if state.view().contains_key(q) {
                            let c = choose|c: int| 0 <= c < state.seen@.len() && #[trigger] state.seen@[c].0@ == q;
                            assert(before[c].0@ == q);
                        }
                    }
                    assert forall|q: Seq<char>| #[trigger] state.view().contains_key(q) implies state.view()[q] == m0.insert(k, now as int)[q] by {
                        let c = choose|c: int| 0 <= c < state.seen@.len() && #[trigger] state.seen@[c].0@ == q;
                        if q != k {
                            let c0 = choose|c0: int| 0 <= c0 < before.len() && #[trigger] before[c0].0@ == q;
                            assert(c0 == c);
                        } else {
                            assert(c == i);
                        }
                    }
                }
            }
            return true;
        }
        i = i + 1;
    }
    assert(!m0.contains_key(k));
    let ghost before = state.seen@;
    state.seen.push((key, now));
    proof {
        assert forall|a: int, b: int| 0 <= a < b < state.seen@.len() implies state.seen@[a].0@
            != state.seen@[b].0@ by {
            if b < before.len() {
                assert(before[a].0@ != before[b].0@);
            }
        }
        assert(state.view() =~= m0.insert(k, now as int)) by {
            assert forall|q: Seq<char>| #[trigger] state.view().contains_key(q) == m0.insert(k, now as int).contains_key(q) by {
                if m0.contains_key(q) {
                    let c = choose|c: int| 0 <= c < before.len() && #[trigger] before[c].0@ == q;
                    assert(state.seen@[c].0@ == q);
                }
                if q == k {
                    assert(state.seen@[before.len() as int].0@ == q);
                }
                if state.view().contains_key(q) && q != k {
                    let c = choose|c: int| 0 <= c < state.seen@.len() && #[trigger] state.seen@[c].0@ == q;
                    assert(before[c].0@ == q);
                }
            }
            assert forall|q: Seq<char>| #[trigger] state.view().contains_key(q) implies state.view()[q] == m0.insert(k, now as int)[q] by {
                let c = choose|c: int| 0 <= c < state.seen@.len() && #[trigger] state.seen@[c].0@ == q;
                if q != k {
                    let c0 = choose|c0: int| 0 <= c0 < before.len() && #[trigger] before[c0].0@ == q;
                    assert(state.seen@[c0].0@ == q);
                    assert(c0 == c);
                } else {
                    assert(state.seen@[before.len() as int].0@ == q);
                    assert(c == before.len());
                }
            }
        }
    }
    true
}

} // verus!

verus! {

/// One logged attempt: when (local time), on which domain, over which protocol.
#[derive(Debug, Clone)]
pub struct WitnessEntry {
    pub timestamp: LocalTime,
    pub domain: String,
    pub proto: String,
}

/// The three fields of a log line `timestamp|domain|proto` (the protocol trimmed; it
/// keeps any further `|`).
pub open spec fn witness_fields(line: Seq<char>) -> Option<(Seq<char>, Seq<char>, Seq<char>)> {
    match split_once(line, seq!['|']) {
        Some((ts, rest)) => match split_once(rest, seq!['|']) {
            Some((d, p)) => Some((ts, d, trim(p))),
            None => None,
        },
        None => None,
    }
}

/// Reads one line of the attempts log. Lines without three fields or with a timestamp
/// that is no RFC 3339 time give nothing; any other line gives its domain and protocol,
/// and the local time of the instant the timestamp names.
pub fn parse_witness_line(line: &str) -> (r: Option<WitnessEntry>)
    ensures
        match witness_fields(line@) {
            Some((ts, d, p)) => match rfc3339_instant(ts) {
                Some(secs) => r matches Some(e) && e.domain@ == d && e.proto@ == p && local_time_of(
                    e.timestamp,
                    secs,
                ),
                None => r is None,
            },
            None => r is None,
        },
{
    let chars = to_chars(line);
    let mut bar: Vec<char> = Vec::new();
    bar.push('|');
    assert(bar@ =~= seq!['|']);
    let (ts, rest) = match split_once_chars(&chars, &bar) {
        Some(parts) => parts,
        None => return None,
    };
    let (domain, proto) = match split_once_chars(&rest, &bar) {
        Some(parts) => parts,
        None => return None,
    };
    let ts_text = from_chars(&ts);
    let secs = match parse_rfc3339(ts_text.as_str()) {
        Some(s) => s,
        None => return None,
    };
    let timestamp = local_time_at(secs);
    let p = trim_chars(&proto);
    Some(WitnessEntry { timestamp, domain: from_chars(&domain), proto: from_chars(&p) })
}

/// The log line for an attempt: `timestamp|domain|proto`.
pub fn witness_line(timestamp: &str, domain: &str, proto: &str) -> (r: String)
    ensures
        r@ == timestamp@ + seq!['|'] + domain@ + seq!['|'] + proto@,
{
    let mut out = to_chars(timestamp);
    out.push('|');
    extend_str(&mut out, domain);
    out.push('|');
    extend_str(&mut out, proto);
    from_chars(&out)
}

} // verus!

verus! {

/// The entries of `es` on `day`, in their order.
pub open spec fn entries_on(es: Seq<WitnessEntry>, day: int) -> Seq<WitnessEntry>
    decreases es.len(),
{
    if es.len() == 0 {
        es
    } else {
        let rest = entries_on(es.drop_last(), day);
        if es.last().timestamp.day == day {
            rest.push(es.last())
        } else {
            rest
        }
    }
}

/// `s` padded with spaces on the right to `w` characters (`{:<w}`).
pub open spec fn pad_right(s: Seq<char>, w: nat) -> Seq<char> {
    if s.len() >= w {
        s
    } else {
        s + Seq::new((w - s.len()) as nat, |i: int| ' ')
    }
}

/// The report line of one attempt: its time, its domain padded to 30, its protocol.
pub open spec fn entry_line(e: WitnessEntry) -> Seq<char> {
    "  "@ + formatted_local(
        e.timestamp.day as int,
        e.timestamp.hour as int,
        e.timestamp.minute as int,
        e.timestamp.second as int,
        "%H:%M"@,
    ) + "  "@ + pad_right(e.domain@, 30) + "  "@ + e.proto@ + "\n"@
}

pub open spec fn entry_lines(es: Seq<WitnessEntry>) -> Seq<char>
    decreases es.len(),
{
    if es.len() == 0 {
        Seq::empty()
    } else {
        entry_lines(es.drop_last()) + entry_line(es.last())
    }
}

/// The position of `d` among the domains of `t`, or `t.len()` when absent.
pub open spec fn key_index(t: Seq<(Seq<char>, nat)>, d: Seq<char>) -> nat
    decreases t.len(),
{
    if t.len() == 0 {
        0
    } else if t[0].0 == d {
        0
    } else {
        1 + key_index(t.drop_first(), d)
    }
}

/// `t` with one more attempt on `d`.
pub open spec fn bump(t: Seq<(Seq<char>, nat)>, d: Seq<char>) -> Seq<(Seq<char>, nat)> {
    let j = key_index(t, d) as int;
    if j < t.len() {
        t.update(j, (d, t[j].1 + 1))
    } else {
        t.push((d, 1))
    }
}

/// The attempts per domain, domains in the order they first appear.
pub open spec fn tally(es: Seq<WitnessEntry>) -> Seq<(Seq<char>, nat)>
    decreases es.len(),
{
    if es.len() == 0 {
        Seq::empty()
    } else {
        bump(tally(es.drop_last()), es.last().domain@)
    }
}

/// A domain with the most attempts: the last such in `t`'s order.
pub open spec fn top_of(t: Seq<(Seq<char>, nat)>) -> Option<(Seq<char>, nat)>
    decreases t.len(),
{
    if t.len() == 0 {
        None
    } else {
        match top_of(t.drop_last()) {
            Some(b) => if t.last().1 >= b.1 {
                Some(t.last())
            } else {
                Some(b)
            },
            None => Some(t.last()),
        }
    }
}

/// The day's report of attempts: a header with the date, one line per attempt, then
/// the total, the number of distinct domains and the most tried domain; a short note
/// when there were none.
pub open spec fn report_text(es: Seq<WitnessEntry>, date: Seq<char>) -> Seq<char> {
    if es.len() == 0 {
        "\n  El Testigo · "@ + date + "\n\n  Sin intentos registrados hoy. ¡Sigue así!\n\n"@
    } else {
        let t = tally(es);
        let top = match top_of(t) {
            Some(b) => "  Más intentado:    "@ + b.0 + " ("@ + decimal(b.1) + "x)\n"@,
            None => Seq::empty(),
        };
        "\n  El Testigo · "@ + date + "\n\n"@ + entry_lines(es)
            + "\n  ──────────────────────────────────────\n"@ + "  Total hoy:        "@ + decimal(
            es.len(),
        ) + " intentos\n"@ + "  Dominios únicos:  "@ + decimal(t.len()) + "\n"@ + top + "\n"@
    }
}

fn copy_entry(e: &WitnessEntry) -> (r: WitnessEntry)
    ensures
        r == *e,
{
    WitnessEntry { timestamp: e.timestamp, domain: e.domain.clone(), proto: e.proto.clone() }
}

/// The entries of `entries` on `day`, in their order.
pub fn entries_on_day(entries: &Vec<WitnessEntry>, day: i32) -> (r: Vec<WitnessEntry>)
    ensures
        r@ == entries_on(entries@, day as int),
{
    let mut r: Vec<WitnessEntry> = Vec::new();
    let mut i: usize = 0;
    while i < entries.len()
        invariant
            i <= entries@.len(),
            r@ == entries_on(entries@.take(i as int), day as int),
        decreases entries@.len() - i,
    {
        assert(entries@.take(i + 1).drop_last() =~= entries@.take(i as int));
        if entries[i].timestamp.day == day {
            r.push(copy_entry(&entries[i]));
        }
        i = i + 1;
    }
    assert(entries@.take(entries@.len() as int) =~= entries@);
    r
}

proof fn lemma_key_index(t: Seq<(Seq<char>, nat)>, d: Seq<char>, j: int)
    requires
        0 <= j <= t.len(),
        forall|k: int| 0 <= k < j ==> t[k].0 != d,
        j == t.len() || t[j].0 == d,
    ensures
        key_index(t, d) == j,
    decreases t.len(),
{
    if t.len() > 0 && j > 0 {
        let u = t.drop_first();
        assert forall|k: int| 0 <= k < j - 1 implies u[k].0 != d by {
            assert(u[k] == t[k + 1]);
        }
        if j < t.len() {
            assert(u[j - 1] == t[j]);
        }
        lemma_key_index(u, d, j - 1);
    }
}

pub open spec fn tally_view(v: Seq<(String, u64)>) -> Seq<(Seq<char>, nat)> {
    v.map_values(|e: (String, u64)| (e.0@, e.1 as nat))
}

/// The attempts per domain (see `tally`).
fn tally_entries(es: &Vec<WitnessEntry>) -> (r: Vec<(String, u64)>)
    requires
        es@.len() <= u64::MAX,
    ensures
        tally_view(r@) == tally(es@),
        forall|k: int| 0 <= k < r@.len() ==> #[trigger] r@[k].1 <= es@.len(),
{
    let mut t: Vec<(String, u64)> = Vec::new();
    let mut i: usize = 0;
    while i < es.len()
        invariant
            i <= es@.len() <= u64::MAX,
            tally_view(t@) == tally(es@.take(i as int)),
            forall|k: int| 0 <= k < t@.len() ==> #[trigger] t@[k].1 <= i,
        decreases es@.len() - i,
    {
        assert(es@.take(i + 1).drop_last() =~= es@.take(i as int));
        let ghost tv = tally_view(t@);
        let d = &es[i].domain;
        let mut j: usize = 0;
        while j < t.len() && t[j].0 != *d
            invariant
                j <= t@.len(),
                tv == tally_view(t@),
                forall|k: int| 0 <= k < j ==> t@[k].0@ != d@,
            decreases t@.len() - j,
        {
            j = j + 1;
        }
        proof {
            assert forall|k: int| 0 <= k < j implies tv[k].0 != d@ by {
                assert(tv[k].0 == t@[k].0@);
            }
            lemma_key_index(tv, d@, j as int);
        }
        if j < t.len() {
            let c = t[j].1;
            t.set(j, (d.clone(), c + 1));
            assert(tally_view(t@) =~= tv.update(j as int, (d@, tv[j as int].1 + 1)));
        } else {
            t.push((d.clone(), 1));
            assert(tally_view(t@) =~= tv.push((d@, 1)));
        }
        i = i + 1;
    }
    assert(es@.take(es@.len() as int) =~= es@);
    t
}

/// The domain with the most attempts in `t` (see `top_of`).
fn top_entry(t: &Vec<(String, u64)>) -> (r: Option<usize>)
    ensures
        match top_of(tally_view(t@)) {
            Some(b) => r matches Some(k) && k < t@.len() && tally_view(t@)[k as int] == b,
            None => r is None,
        },
{
    let ghost tv = tally_view(t@);
    let mut best: Option<usize> = None;
    let mut i: usize = 0;
    while i < t.len()
        invariant
            i <= t@.len(),
            tv == tally_view(t@),
            match top_of(tv.take(i as int)) {
                Some(b) => best matches Some(k) && k < i && tv[k as int] == b,
                None => best is None,
            },
        decreases t@.len() - i,
    {
        assert(tv.take(i + 1).drop_last() =~= tv.take(i as int));
        match best {
            Some(k) => {
                if t[i].1 >= t[k].1 {
                    best = Some(i);
                }
            },
            None => {
                best = Some(i);
            },
        }
        i = i + 1;
    }
    assert(tv.take(t@.len() as int) =~= tv);
    best
}

fn pad_chars(v: &mut Vec<char>, s: &String, w: usize)
    ensures
        final(v)@ == old(v)@ + pad_right(s@, w as nat),
{
    let c = to_chars(s.as_str());
    extend(v, &c);
    let mut n: usize = c.len();
    let ghost base = old(v)@ + s@;
    while n < w
        invariant
            c.len() <= n <= w || (n == c.len() && c.len() > w),
            v@ == base + Seq::new((n - c.len()) as nat, |i: int| ' '),
        decreases w - n,
    {
        v.push(' ');
        n = n + 1;
        assert(v@ =~= base + Seq::new((n - c.len()) as nat, |i: int| ' '));
    }
    assert(c@ == s@);
    if c.len() >= w {
        assert(v@ =~= old(v)@ + s@);
    } else {
        assert(v@ =~= old(v)@ + pad_right(s@, w as nat));
    }
}

/// The report of the attempts of `now`'s day among `entries` (see `report_text`), the
/// date written `%d/%m/%Y`.
pub fn format_today_report(entries: &Vec<WitnessEntry>, now: LocalTime) -> (r: String)
    requires
        now.wf(),
        valid_day(now.day as int),
        forall|k: int| 0 <= k < entries@.len() ==> (#[trigger] entries@[k]).timestamp.wf() && valid_day(
            entries@[k].timestamp.day as int,
        ),
    ensures
        r@ == report_text(
            entries_on(entries@, now.day as int),
            formatted_local(now.day as int, now.hour as int, now.minute as int, now.second as int, "%d/%m/%Y"@),
        ),
{
    let today = entries_on_day(entries, now.day);
    let date = format_local(now, "%d/%m/%Y");
    let dc = to_chars(date.as_str());
    let mut out: Vec<char> = Vec::new();
    extend_str(&mut out, "\n  El Testigo · ");
    extend(&mut out, &dc);
    if today.len() == 0 {
        extend_str(&mut out, "\n\n  Sin intentos registrados hoy. ¡Sigue así!\n\n");
        return from_chars(&out);
    }
    proof {
        lemma_entries_on_subset(entries@, now.day as int);
    }
    extend_str(&mut out, "\n\n");
    let ghost head = out@;
    let mut i: usize = 0;
    while i < today.len()
        invariant
            i <= today@.len(),
            out@ == head + entry_lines(today@.take(i as int)),
            forall|k: int| 0 <= k < today@.len() ==> (#[trigger] today@[k]).timestamp.wf() && valid_day(
                today@[k].timestamp.day as int,
            ),
        decreases today@.len() - i,
    {
        assert(today@.take(i + 1).drop_last() =~= today@.take(i as int));
        let e = &today[i];
        extend_str(&mut out, "  ");
        let hm = format_local(e.timestamp, "%H:%M");
        extend_str(&mut out, hm.as_str());
        extend_str(&mut out, "  ");
        pad_chars(&mut out, &e.domain, 30);
        extend_str(&mut out, "  ");
        extend_str(&mut out, e.proto.as_str());
        extend_str(&mut out, "\n");
        assert(out@ =~= head + entry_lines(today@.take(i as int)) + entry_line(today@[i as int]));
        i = i + 1;
    }
    assert(today@.take(today@.len() as int) =~= today@);
    let t = tally_entries(&today);
    extend_str(&mut out, "\n  ──────────────────────────────────────\n");
    extend_str(&mut out, "  Total hoy:        ");
    let total = decimal_chars(today.len() as u64);
    extend(&mut out, &total);
    extend_str(&mut out, " intentos\n");
    extend_str(&mut out, "  Dominios únicos:  ");
    let distinct = decimal_chars(t.len() as u64);
    extend(&mut out, &distinct);
    extend_str(&mut out, "\n");
    let ghost before_top = out@;
    match top_entry(&t) {
        Some(k) => {
            extend_str(&mut out, "  Más intentado:    ");
            extend_str(&mut out, t[k].0.as_str());
            extend_str(&mut out, " (");
            let c = decimal_chars(t[k].1);
            extend(&mut out, &c);
            extend_str(&mut out, "x)\n");
        },
        None => {},
    }
    extend_str(&mut out, "\n");
    assert(tally_view(t@).len() == t@.len());
    assert(out@ =~= report_text(today@, date@));
    from_chars(&out)
}

proof fn lemma_entries_on_subset(es: Seq<WitnessEntry>, day: int)
    ensures
        forall|k: int| 0 <= k < entries_on(es, day).len() ==> exists|m: int| 0 <= m < es.len() && es[m] == #[trigger] entries_on(es, day)[k],
    decreases es.len(),
{
    if es.len() > 0 {
        lemma_entries_on_subset(es.drop_last(), day);
        let rest = entries_on(es.drop_last(), day);
        assert forall|k: int| 0 <= k < entries_on(es, day).len() implies exists|m: int| 0 <= m < es.len() && es[m] == #[trigger] entries_on(es, day)[k] by {
            if k < rest.len() {
                assert(entries_on(es, day)[k] == rest[k]);
                let m = choose|m: int| 0 <= m < es.drop_last().len() && es.drop_last()[m] == #[trigger] rest[k];
                assert(es[m] == es.drop_last()[m]);
            } else {
                assert(es[es.len() - 1] == entries_on(es, day)[k]);
            }
        }
    }
}

} // verus!
