//! Viewers of a UDP listener: the distinct remote addresses in a socket
//! table (`ss -uan`) connected to the listener's port.
use vstd::prelude::*;
use crate::numbers::{decimal, decimal_string, parsed_i32, parse_i32};
use crate::text::{
    ends_with, first_index, has_sub, starts_with, text_concat, text_contains, text_ends_with,
    text_eq, text_find, text_starts_with,
};

verus! {

/// ASCII white space.
pub open spec fn is_space(c: char) -> bool {
    c == ' ' || c == '\t' || c == '\n' || c == '\r' || c == '\x0C'
}

/// The runs of non-space characters of `s`, after the run `cur` already
/// begun.
pub open spec fn fields_from(s: Seq<char>, cur: Seq<char>) -> Seq<Seq<char>>
    decreases s.len(),
{
    if s.len() == 0 {
        if cur.len() > 0 {
            seq![cur]
        } else {
            Seq::empty()
        }
    } else if is_space(s[0]) {
        (if cur.len() > 0 {
            seq![cur]
        } else {
            Seq::empty()
        }) + fields_from(s.drop_first(), Seq::empty())
    } else {
        fields_from(s.drop_first(), cur.push(s[0]))
    }
}

/// The white-space separated fields of `s`.
pub open spec fn fields(s: Seq<char>) -> Seq<Seq<char>> {
    fields_from(s, Seq::empty())
}

/// The pieces of `s` between occurrences of `sep`, after the piece `cur`
/// already begun.
pub open spec fn pieces_from(s: Seq<char>, sep: char, cur: Seq<char>) -> Seq<Seq<char>>
    decreases s.len(),
{
    if s.len() == 0 {
        seq![cur]
    } else if s[0] == sep {
        seq![cur] + pieces_from(s.drop_first(), sep, Seq::empty())
    } else {
        pieces_from(s.drop_first(), sep, cur.push(s[0]))
    }
}

/// `s` split at every `sep`.
pub open spec fn pieces(s: Seq<char>, sep: char) -> Seq<Seq<char>> {
    pieces_from(s, sep, Seq::empty())
}

/// Position of the last `c` in `s`, or -1.
pub open spec fn last_index_of(s: Seq<char>, c: char) -> int
    decreases s.len(),
{
    if s.len() == 0 {
        -1
    } else if s.last() == c {
        s.len() - 1
    } else {
        last_index_of(s.drop_last(), c)
    }
}

/// A decimal `u16`, as `str::parse` reads one.
pub open spec fn parsed_u16(s: Seq<char>) -> Option<int> {
    if s.len() > 0 && s[0] == '-' {
        None
    } else {
        match parsed_i32(s) {
            Some(v) => if 0 <= v <= 65535 {
                Some(v)
            } else {
                None
            },
            None => None,
        }
    }
}

/// The URL makes the relay listen rather than push.
pub open spec fn is_listener(url: Seq<char>) -> bool {
    has_sub(url, "@"@) || has_sub(url, "://:"@) || has_sub(url, "0.0.0.0"@) || has_sub(url, "listen=1"@)
}

/// The port a UDP listener URL binds: the text after its last `:`.
pub open spec fn listen_port(url: Seq<char>) -> Option<int> {
    let tail = url.subrange(last_index_of(url, ':') + 1, url.len() as int);
    if starts_with(url, "udp://"@) && is_listener(url) {
        parsed_u16(tail)
    } else {
        None
    }
}

/// The address of the remote peer that a socket-table row shows connected
/// to `port`, if it shows one.
pub open spec fn peer_of(row: Seq<char>, port: int) -> Option<Seq<char>> {
    let parts = fields(row);
    if parts.len() >= 5 {
        let local = parts[3];
        let remote = parts[4];
        if ends_with(local, ":"@ + decimal(port as nat)) && remote != "*:*"@ && !starts_with(
            remote,
            "0.0.0.0"@,
        ) && !starts_with(remote, "[::]"@) && remote != "0.0.0.0:*"@ {
            Some(
                match first_index(remote, ":"@) {
                    Some(k) => remote.subrange(0, k),
                    None => remote,
                },
            )
        } else {
            None
        }
    } else {
        None
    }
}

/// The distinct peers of the rows after the header line.
pub open spec fn peers(table: Seq<char>, port: int) -> Set<Seq<char>> {
    let rows = pieces(table, '\n');
    Set::new(|ip: Seq<char>| exists|i: int| 1 <= i < rows.len() && peer_of(rows[i], port) == Some(ip))
}

pub open spec fn views(v: Seq<String>) -> Seq<Seq<char>> {
    v.map_values(|s: String| s@)
}

fn is_space_exec(c: char) -> (r: bool)
    ensures
        r == is_space(c),
{
    c == ' ' || c == '\t' || c == '\n' || c == '\r' || c == '\x0C'
}

fn push_char(cur: String, s: &str, i: usize) -> (r: String)
    requires
        i < s@.len() <= usize::MAX,
    ensures
        r@ == cur@.push(s@[i as int]),
{
    let ghost before = cur@;
    let c = s.substring_char(i, i + 1);
    let mut cur = cur;
    cur.append(c);
    assert(c@ =~= seq![s@[i as int]]);
    assert(cur@ =~= before.push(s@[i as int]));
    cur
}

proof fn lemma_assoc<T>(a: Seq<T>, b: Seq<T>, c: Seq<T>)
    ensures
        (a + b) + c == a + (b + c),
{
    assert((a + b) + c =~= a + (b + c));
}

/// The white-space separated fields of `s`.
pub fn fields_of(s: &str) -> (r: Vec<String>)
    ensures
        views(r@) == fields(s@),
{
    let n = s.unicode_len();
    let mut out: Vec<String> = Vec::new();
    let mut cur = String::new();
    let mut i: usize = 0;
    proof {
        assert(s@.subrange(0, n as int) =~= s@);
        assert(views(out@) =~= Seq::<Seq<char>>::empty());
        assert(cur@ =~= Seq::<char>::empty());
        assert(Seq::<Seq<char>>::empty() + fields(s@) =~= fields(s@));
    }
    while i < n
        invariant
            n == s@.len(),
            0 <= i <= n,
            views(out@) + fields_from(s@.subrange(i as int, n as int), cur@) == fields(s@),
        decreases n - i,
    {
        let c = s.get_char(i);
        let ghost rest = s@.subrange(i as int, n as int);
        let ghost before = views(out@);
        proof {
            assert(rest[0] == c);
            assert(rest.drop_first() =~= s@.subrange(i + 1, n as int));
        }
        if is_space_exec(c) {
            if !cur.as_str().is_empty() {
                let ghost w = cur@;
                out.push(cur);
                proof {
                    assert(views(out@) =~= before + seq![w]);
                    lemma_assoc(before, seq![w], fields_from(s@.subrange(i + 1, n as int), Seq::empty()));
                }
            } else {
                proof {
                    assert(Seq::<Seq<char>>::empty() + fields_from(s@.subrange(i + 1, n as int), Seq::empty())
                        =~= fields_from(s@.subrange(i + 1, n as int), Seq::empty()));
                }
            }
            cur = String::new();
            proof {
                assert(cur@ =~= Seq::<char>::empty());
            }
        } else {
            cur = push_char(cur, s, i);
        }
        i = i + 1;
    }
    proof {
        assert(s@.subrange(n as int, n as int).len() == 0);
    }
    if !cur.as_str().is_empty() {
        let ghost before = views(out@);
        let ghost w = cur@;
        out.push(cur);
        assert(views(out@) =~= before + seq![w]);
    } else {
        assert(views(out@) + Seq::<Seq<char>>::empty() =~= views(out@));
    }
    out
}

/// `s` split at every `sep`.
pub fn pieces_of(s: &str, sep: char) -> (r: Vec<String>)
    ensures
        views(r@) == pieces(s@, sep),
{
    let n = s.unicode_len();
    let mut out: Vec<String> = Vec::new();
    let mut cur = String::new();
    let mut i: usize = 0;
    proof {
        assert(s@.subrange(0, n as int) =~= s@);
        assert(views(out@) =~= Seq::<Seq<char>>::empty());
        assert(cur@ =~= Seq::<char>::empty());
        assert(Seq::<Seq<char>>::empty() + pieces(s@, sep) =~= pieces(s@, sep));
    }
    while i < n
        invariant
            n == s@.len(),
            0 <= i <= n,
            views(out@) + pieces_from(s@.subrange(i as int, n as int), sep, cur@) == pieces(s@, sep),
        decreases n - i,
    {
        let c = s.get_char(i);
        let ghost rest = s@.subrange(i as int, n as int);
        let ghost before = views(out@);
        proof {
            assert(rest[0] == c);
            assert(rest.drop_first() =~= s@.subrange(i + 1, n as int));
        }
        if c == sep {
            let ghost w = cur@;
            out.push(cur);
            proof {
                assert(views(out@) =~= before + seq![w]);
                lemma_assoc(before, seq![w], pieces_from(s@.subrange(i + 1, n as int), sep, Seq::empty()));
            }
            cur = String::new();
            proof {
                assert(cur@ =~= Seq::<char>::empty());
            }
        } else {
            cur = push_char(cur, s, i);
        }
        i = i + 1;
    }
    proof {
        assert(s@.subrange(n as int, n as int).len() == 0);
    }
    let ghost before = views(out@);
    let ghost w = cur@;
    out.push(cur);
    assert(views(out@) =~= before + seq![w]);
    out
}

proof fn lemma_last_index_bounds(s: Seq<char>, c: char)
    ensures
        -1 <= last_index_of(s, c) < s.len(),
        last_index_of(s, c) >= 0 ==> s[last_index_of(s, c)] == c,
    decreases s.len(),
{
    if s.len() > 0 && s.last() != c {
        lemma_last_index_bounds(s.drop_last(), c);
    }
}

fn last_index_exec(s: &str, c: char) -> (r: usize)
    ensures
        r as int == last_index_of(s@, c) + 1,
{
    let n = s.unicode_len();
    let mut i: usize = n;
    proof {
        assert(s@.subrange(0, n as int) =~= s@);
    }
    while i > 0
        invariant
            n == s@.len(),
            0 <= i <= n,
            last_index_of(s@.subrange(0, i as int), c) == last_index_of(s@, c),
        decreases i,
    {
        let ghost pre = s@.subrange(0, i as int);
        if s.get_char(i - 1) == c {
            assert(pre.last() == c);
            return i;
        }
        assert(pre.drop_last() =~= s@.subrange(0, i - 1));
        i = i - 1;
    }
    i
}

/// Reads a decimal `u16` as `str::parse::<u16>` does.
pub fn parse_u16(s: &str) -> (r: Option<u16>)
    ensures
        r matches Some(v) ==> parsed_u16(s@) == Some(v as int),
        r is None ==> parsed_u16(s@) is None,
{
    if s.unicode_len() > 0 && s.get_char(0) == '-' {
        return None;
    }
    match parse_i32(s) {
        Some(v) => if 0 <= v && v <= 65535 {
            Some(v as u16)
        } else {
            None
        },
        None => None,
    }
}

/// The port a UDP listener URL binds; `None` for a URL that pushes or has
/// no readable port.
pub fn listen_port_of(url: &str) -> (r: Option<u16>)
    ensures
        r matches Some(p) ==> listen_port(url@) == Some(p as int),
        r is None ==> listen_port(url@) is None,
{
    if !text_starts_with(url, "udp://") {
        return None;
    }
    if !(text_contains(url, "@") || text_contains(url, "://:") || text_contains(url, "0.0.0.0")
        || text_contains(url, "listen=1")) {
        return None;
    }
    let k = last_index_exec(url, ':');
    proof {
        lemma_last_index_bounds(url@, ':');
    }
    let tail = url.substring_char(k, url.unicode_len());
    parse_u16(tail)
}

fn peer_of_exec(row: &str, suffix: &str, port: u16) -> (r: Option<String>)
    requires
        suffix@ == ":"@ + decimal(port as nat),
    ensures
        r matches Some(ip) ==> peer_of(row@, port as int) == Some(ip@),
        r is None ==> peer_of(row@, port as int) is None,
{
    let parts = fields_of(row);
    if parts.len() < 5 {
        return None;
    }
    let local = parts[3].as_str();
    let remote = parts[4].as_str();
    proof {
        assert(views(parts@)[3] == parts@[3]@);
        assert(views(parts@)[4] == parts@[4]@);
    }
    if text_ends_with(local, suffix) && !text_eq(remote, "*:*") && !text_starts_with(remote, "0.0.0.0")
        && !text_starts_with(remote, "[::]") && !text_eq(remote, "0.0.0.0:*") {
        match text_find(remote, ":") {
            Some(k) => Some(String::from_str(remote.substring_char(0, k))),
            None => Some(String::from_str(remote)),
        }
    } else {
        None
    }
}

fn contains_text(v: &Vec<String>, s: &String) -> (r: bool)
    ensures
        r == views(v@).contains(s@),
{
    let mut i: usize = 0;
    while i < v.len()
        invariant
            0 <= i <= v.len(),
            forall|k: int| 0 <= k < i ==> v@[k]@ != s@,
        decreases v.len() - i,
    {
        if v[i] == *s {
            assert(views(v@)[i as int] == s@);
            return true;
        }
        i = i + 1;
    }
    assert forall|k: int| 0 <= k < views(v@).len() implies views(v@)[k] != s@ by {
        assert(views(v@)[k] == v@[k]@);
    }
    false
}

/// The peers seen in rows `1..i` of `rows`.
pub open spec fn seen_in(rows: Seq<Seq<char>>, port: int, i: int, x: Seq<char>) -> bool {
    exists|k: int| 1 <= k < i && peer_of(rows[k], port) == Some(x)
}

proof fn lemma_seen_step(rows: Seq<Seq<char>>, port: int, i: int, x: Seq<char>)
    requires
        1 <= i < rows.len(),
    ensures
        seen_in(rows, port, i + 1, x) <==> (seen_in(rows, port, i, x) || peer_of(rows[i], port) == Some(x)),
{
    if seen_in(rows, port, i + 1, x) {
        let k = choose|k: int| 1 <= k < i + 1 && peer_of(rows[k], port) == Some(x);
        if k < i {
            assert(seen_in(rows, port, i, x));
        }
    }
    if seen_in(rows, port, i, x) {
        let k = choose|k: int| 1 <= k < i && peer_of(rows[k], port) == Some(x);
        assert(1 <= k < i + 1 && peer_of(rows[k], port) == Some(x));
    }
    if peer_of(rows[i], port) == Some(x) {
        assert(1 <= i < i + 1 && peer_of(rows[i], port) == Some(x));
    }
}

/// How many distinct peers the socket table `table` (with a header line)
/// shows connected to local port `port`.
pub fn udp_peer_count(table: &str, port: u16) -> (r: usize)
    ensures
        r == peers(table@, port as int).len(),
{
    let rows = pieces_of(table, '\n');
    let suffix = text_concat(":", decimal_string(port as u64).as_str());
    proof {
        reveal_strlit(":");
        assert(suffix@ =~= ":"@ + decimal(port as nat));
    }
    let ghost rv = views(rows@);
    let mut seen: Vec<String> = Vec::new();
    let mut i: usize = 1;
    proof {
        assert forall|x: Seq<char>| views(seen@).contains(x) <==> seen_in(rv, port as int, 1, x) by {
            assert(views(seen@).len() == 0);
        }
    }
    while i < rows.len()
        invariant
            rv == views(rows@),
            rv == pieces(table@, '\n'),
            suffix@ == ":"@ + decimal(port as nat),
            1 <= i,
            i <= rows.len() || rows.len() == 0,
            rows.len() == 0 ==> i == 1,
            views(seen@).no_duplicates(),
            forall|x: Seq<char>| views(seen@).contains(x) <==> seen_in(rv, port as int, i as int, x),
        decreases rows.len() - i,
    {
        proof {
            assert(rv[i as int] == rows@[i as int]@);
            assert forall|x: Seq<char>| true implies (seen_in(rv, port as int, i + 1, x) <==> (seen_in(
                rv,
                port as int,
                i as int,
                x,
            ) || peer_of(rv[i as int], port as int) == Some(x))) by {
                lemma_seen_step(rv, port as int, i as int, x);
            }
        }
        let ghost before = views(seen@);
        match peer_of_exec(rows[i].as_str(), suffix.as_str(), port) {
            Some(ip) => {
                let ghost ipv = ip@;
                if !contains_text(&seen, &ip) {
                    seen.push(ip);
                    proof {
                        assert(views(seen@) =~= before.push(ipv));
                        assert forall|x: Seq<char>| views(seen@).contains(x) <==> seen_in(
                            rv,
                            port as int,
                            i + 1,
                            x,
                        ) by {
                            if views(seen@).contains(x) {
                                let j = choose|j: int| 0 <= j < views(seen@).len() && views(seen@)[j] == x;
                                if j < before.len() {
                                    assert(before[j] == x);
                                    assert(before.contains(x));
                                }
                            }
                            if before.contains(x) {
                                let j = choose|j: int| 0 <= j < before.len() && before[j] == x;
                                assert(views(seen@)[j] == x);
                            }
                            if x == ipv {
                                assert(views(seen@)[before.len() as int] == x);
                            }
                        }
                        assert forall|a: int, b: int|
                            0 <= a < views(seen@).len() && 0 <= b < views(seen@).len() && a != b
                                implies views(seen@)[a] != views(seen@)[b] by {
                            if b == before.len() {
                                assert(before[a] == views(seen@)[a]);
                            } else if a == before.len() {
                                assert(before[b] == views(seen@)[b]);
                            }
                        }
                    }
                }
            },
            None => {},
        }
        i = i + 1;
    }
    proof {
        let p = peers(table@, port as int);
        assert forall|x: Seq<char>| views(seen@).to_set().contains(x) <==> p.contains(x) by {
            assert(views(seen@).to_set().contains(x) == views(seen@).contains(x));
            assert(p.contains(x) == seen_in(rv, port as int, rv.len() as int, x));
            if rows.len() > 0 {
                assert(i == rows.len());
                assert(rv.len() == rows.len());
            } else {
                assert(rv.len() == 0);
                assert(!seen_in(rv, port as int, 0, x));
                assert(!seen_in(rv, port as int, i as int, x));
            }
        }
        assert(views(seen@).to_set() =~= p);
        views(seen@).unique_seq_to_set();
    }
    seen.len()
}

} // verus!
