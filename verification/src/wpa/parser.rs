//! Parsing of the "group started" event that wpa_supplicant reports once a
//! Wi-Fi Direct group is formed: the group interface, this device's role, and
//! the group owner's IPv4 address where the event carries it.
use vstd::prelude::*;

use crate::text::{
    all_digits, is_digit, chars_equal_str, chars_of, chars_range, count_char, count_chars, digits_value,
    find_char, first_index, has_prefix, lemma_first_index, parse_usize, parse_usize_chars,
    split_words, starts_with, string_from_chars, unsigned_digits, views, words,
};

verus! {

/// This device's role in a Wi-Fi Direct group.
#[derive(Debug, Clone, Copy, PartialEq, Eq, Structural)]
pub enum P2pRole {
    GroupOwner,
    Client,
}

/// The end of the dot-separated field that starts at `i`: the first `.` at or
/// after `i`, or the end of `s`.
pub open spec fn field_end(s: Seq<char>, i: int) -> int
    decreases s.len() - i,
{
    if i < 0 || i >= s.len() || s[i] == '.' {
        if i < 0 { 0 } else if i >= s.len() { s.len() as int } else { i }
    } else {
        field_end(s, i + 1)
    }
}

/// The `.`-separated fields of `s` from position `i` on.
pub open spec fn dot_fields_from(s: Seq<char>, i: int) -> Seq<Seq<char>>
    decreases s.len() - i,
{
    if i < 0 || i > s.len() {
        Seq::empty()
    } else {
        let j = field_end(s, i);
        if j < i || j > s.len() {
            Seq::empty()
        } else if j == s.len() {
            seq![s.subrange(i, j)]
        } else {
            seq![s.subrange(i, j)] + dot_fields_from(s, j + 1)
        }
    }
}

proof fn lemma_field_end(s: Seq<char>, i: int)
    requires
        0 <= i <= s.len(),
    ensures
        i <= field_end(s, i) <= s.len(),
        forall|k: int| i <= k < field_end(s, i) ==> #[trigger] s[k] != '.',
        field_end(s, i) < s.len() ==> s[field_end(s, i)] == '.',
    decreases s.len() - i,
{
    if i < s.len() && s[i] != '.' {
        lemma_field_end(s, i + 1);
    }
}

/// The `.`-separated fields of `s`.
fn split_dots(s: &[char]) -> (r: Vec<Vec<char>>)
    ensures
        views(r@) == dot_fields_from(s@, 0),
{
    let mut r: Vec<Vec<char>> = Vec::new();
    let mut i: usize = 0;
    let n = s.len();
    loop
        invariant
            n == s@.len(),
            0 <= i <= s@.len(),
            views(r@) + dot_fields_from(s@, i as int) == dot_fields_from(s@, 0),
        decreases s@.len() - i,
    {
        proof {
            lemma_field_end(s@, i as int);
        }
        match find_char(s, i, '.') {
            Some(j) => {
                assert(field_end(s@, i as int) == j) by {
                    if field_end(s@, i as int) < j {
                        assert(s@[field_end(s@, i as int)] == '.');
                    }
                    if field_end(s@, i as int) > j {
                        assert(s@[j as int] != '.');
                    }
                }
                let field = chars_range(s, i, j);
                proof {
                    assert(views(r@.push(field)) =~= views(r@) + seq![field@]);
                }
                r.push(field);
                i = j + 1;
            },
            None => {
                assert(field_end(s@, i as int) == s@.len()) by {
                    if field_end(s@, i as int) < s@.len() {
                        assert(s@[field_end(s@, i as int)] == '.');
                    }
                }
                let field = chars_range(s, i, s.len());
                proof {
                    assert(views(r@.push(field)) =~= views(r@) + seq![field@]);
                }
                r.push(field);
                return r;
            },
        }
    }
}

/// The value of a decimal octet as `Ipv4Addr`'s parser reads it: one to three
/// ASCII digits, no leading zero unless the octet is `0`, at most 255.
pub open spec fn octet_value(f: Seq<char>) -> Option<u8> {
    if 1 <= f.len() <= 3 && all_digits(f) && !(f.len() > 1 && f[0] == '0') && digits_value(f) <= 255 {
        Some(digits_value(f) as u8)
    } else {
        None
    }
}

/// The octets of the IPv4 address that `s` spells in dotted decimal notation, as
/// `str::parse::<Ipv4Addr>` reads it: exactly four `.`-separated octets.
pub open spec fn ipv4_parse(s: Seq<char>) -> Option<Seq<u8>> {
    let f = dot_fields_from(s, 0);
    if f.len() == 4 && octet_value(f[0]) is Some && octet_value(f[1]) is Some && octet_value(f[2]) is Some
        && octet_value(f[3]) is Some {
        Some(
            seq![
                octet_value(f[0])->0,
                octet_value(f[1])->0,
                octet_value(f[2])->0,
                octet_value(f[3])->0,
            ],
        )
    } else {
        None
    }
}

/// The value of the decimal octet `f`.
fn octet_of(f: &[char]) -> (r: Option<u8>)
    ensures
        r == octet_value(f@),
{
    if f.len() < 1 || f.len() > 3 {
        return None;
    }
    if f[0] == '+' {
        assert(!is_digit(f@[0]));
        return None;
    }
    assert(unsigned_digits(f@) == f@);
    match parse_usize_chars(f) {
        None => {
            assert(!all_digits(f@) || digits_value(f@) > usize::MAX);
            None
        },
        Some(v) => {
            proof {
                crate::text::lemma_digits_value_nonneg(f@);
            }
            assert(all_digits(f@) && v == digits_value(f@));
            if f.len() > 1 && f[0] == '0' {
                None
            } else if v > 255 {
                None
            } else {
                Some(v as u8)
            }
        },
    }
}

/// The octets of the IPv4 address that `s` spells in dotted decimal notation.
pub fn parse_ipv4(s: &[char]) -> (r: Option<[u8; 4]>)
    ensures
        r matches Some(a) ==> ipv4_parse(s@) == Some(a@),
        r is None ==> ipv4_parse(s@) is None,
{
    let f = split_dots(s);
    if f.len() != 4 {
        return None;
    }
    assert(f@[0]@ == views(f@)[0] && f@[1]@ == views(f@)[1] && f@[2]@ == views(f@)[2] && f@[3]@
        == views(f@)[3]);
    let a = match octet_of(&f[0]) {
        Some(v) => v,
        None => return None,
    };
    let b = match octet_of(&f[1]) {
        Some(v) => v,
        None => return None,
    };
    let c = match octet_of(&f[2]) {
        Some(v) => v,
        None => return None,
    };
    let d = match octet_of(&f[3]) {
        Some(v) => v,
        None => return None,
    };
    let r = [a, b, c, d];
    assert(r@ =~= ipv4_parse(s@)->0);
    Some(r)
}

/// The views of an optional address.
pub open spec fn opt_octets(o: Option<[u8; 4]>) -> Option<Seq<u8>> {
    match o {
        Some(a) => Some(a@),
        None => None,
    }
}

/// The event text after its optional `<priority>` prefix; `None` where a prefix
/// is opened and never closed.
pub open spec fn group_event_body(e: Seq<char>) -> Option<Seq<char>> {
    if e.len() > 0 && e[0] == '<' {
        match first_index(e.drop_first(), '>') {
            Some(k) => Some(e.drop_first().subrange(k + 1, e.len() - 1)),
            None => None,
        }
    } else {
        Some(e)
    }
}

/// The group owner's address among the remaining `fields`: the first field
/// outside a quoted value that starts with `go_ip_addr=` and spells an IPv4
/// address after it. A field with an odd number of `"` opens or closes a quoted
/// value.
pub open spec fn scan_go_ip(fields: Seq<Seq<char>>, quoted: bool, go_ip: Option<Seq<u8>>) -> Option<Seq<u8>>
    decreases fields.len(),
{
    if fields.len() == 0 {
        go_ip
    } else {
        let f = fields[0];
        let next_ip = if !quoted && go_ip is None {
            if has_prefix(f, "go_ip_addr="@) {
                ipv4_parse(f.subrange("go_ip_addr="@.len() as int, f.len() as int))
            } else {
                None
            }
        } else {
            go_ip
        };
        let next_quoted = if count_char(f, '"') % 2 != 0 { !quoted } else { quoted };
        scan_go_ip(fields.drop_first(), next_quoted, next_ip)
    }
}

/// What parsing a "group started" event gives: the group interface, the role
/// and the group owner's address, or `None` where the event is not a well-formed
/// "group started" event.
pub open spec fn group_started(e: Seq<char>) -> Option<(Seq<char>, P2pRole, Option<Seq<u8>>)> {
    match group_event_body(e) {
        None => None,
        Some(b) => {
            let w = words(b);
            if w.len() < 3 || w[0] != "P2P-GROUP-STARTED"@ {
                None
            } else if w[2] == "GO"@ {
                Some((w[1], P2pRole::GroupOwner, scan_go_ip(w.subrange(3, w.len() as int), false, None)))
            } else if w[2] == "client"@ {
                Some((w[1], P2pRole::Client, scan_go_ip(w.subrange(3, w.len() as int), false, None)))
            } else {
                None
            }
        },
    }
}

/// A formed Wi-Fi Direct group, as its "group started" event describes it.
pub struct P2pGroupStarted {
    pub interface: String,
    pub role: P2pRole,
    pub go_ip: Option<[u8; 4]>,
}

impl View for P2pGroupStarted {
    type V = (Seq<char>, P2pRole, Option<Seq<u8>>);

    open spec fn view(&self) -> (Seq<char>, P2pRole, Option<Seq<u8>>) {
        (self.interface@, self.role, opt_octets(self.go_ip))
    }
}

/// The characters of `e` after its optional `<priority>` prefix.
fn event_body_chars(e: &[char]) -> (r: Option<Vec<char>>)
    ensures
        r matches Some(b) ==> group_event_body(e@) == Some(b@),
        r is None ==> group_event_body(e@) is None,
{
    if e.len() > 0 && e[0] == '<' {
        match find_char(e, 1, '>') {
            Some(k) => {
                proof {
                    let t = e@.drop_first();
                    assert forall|m: int| 0 <= m < k - 1 implies t[m] != '>' by {
                        assert(t[m] == e@[m + 1]);
                    }
                    lemma_first_index(t, '>', k - 1);
                }
                let body = chars_range(e, k + 1, e.len());
                assert(body@ =~= e@.drop_first().subrange(k as int, e@.len() - 1));
                Some(body)
            },
            None => {
                proof {
                    let t = e@.drop_first();
                    if exists|m: int| 0 <= m < t.len() && t[m] == '>' {
                        let m = choose|m: int| 0 <= m < t.len() && t[m] == '>';
                        assert(e@[m + 1] == '>');
                    }
                }
                None
            },
        }
    } else {
        Some(chars_range(e, 0, e.len()))
    }
}

proof fn lemma_scan_step(w: Seq<Seq<char>>, i: int, quoted: bool, go_ip: Option<Seq<u8>>)
    requires
        0 <= i < w.len(),
    ensures
        scan_go_ip(w.subrange(i, w.len() as int), quoted, go_ip) == ({
            let f = w[i];
            let next_ip = if !quoted && go_ip is None {
                if has_prefix(f, "go_ip_addr="@) {
                    ipv4_parse(f.subrange("go_ip_addr="@.len() as int, f.len() as int))
                } else {
                    None
                }
            } else {
                go_ip
            };
            let next_quoted = if count_char(f, '"') % 2 != 0 { !quoted } else { quoted };
            scan_go_ip(w.subrange(i + 1, w.len() as int), next_quoted, next_ip)
        }),
{
    assert(w.subrange(i, w.len() as int).drop_first() =~= w.subrange(i + 1, w.len() as int));
}

/// Parses the "group started" event `event`: `None` where it is not one.
pub fn parse_group_started(event: &str) -> (r: Option<P2pGroupStarted>)
    ensures
        r matches Some(g) ==> group_started(event@) == Some(g@),
        r is None ==> group_started(event@) is None,
{
    let e = chars_of(event);
    let body = match event_body_chars(&e) {
        Some(b) => b,
        None => return None,
    };
    let w = split_words(&body);
    let ghost ws = views(w@);
    assert(forall|k: int| 0 <= k < w@.len() ==> #[trigger] w@[k]@ == ws[k]);
    if w.len() < 3 || !chars_equal_str(&w[0], "P2P-GROUP-STARTED") {
        return None;
    }
    let role = if chars_equal_str(&w[2], "GO") {
        P2pRole::GroupOwner
    } else if chars_equal_str(&w[2], "client") {
        P2pRole::Client
    } else {
        return None;
    };
    let interface = string_from_chars(&w[1]);
    let prefix = chars_of("go_ip_addr=");
    let mut quoted = false;
    let mut go_ip: Option<[u8; 4]> = None;
    let mut i: usize = 3;
    while i < w.len()
        invariant
            3 <= i <= w@.len(),
            ws == views(w@),
            prefix@ == "go_ip_addr="@,
            forall|k: int| 0 <= k < w@.len() ==> #[trigger] w@[k]@ == ws[k],
            scan_go_ip(ws.subrange(3, ws.len() as int), false, None) == scan_go_ip(
                ws.subrange(i as int, ws.len() as int),
                quoted,
                opt_octets(go_ip),
            ),
        decreases w@.len() - i,
    {
        proof {
            lemma_scan_step(ws, i as int, quoted, opt_octets(go_ip));
        }
        let field = &w[i];
        if !quoted && go_ip.is_none() {
            if starts_with(field, "go_ip_addr=") {
                let address = chars_range(field, prefix.len(), field.len());
                go_ip = parse_ipv4(&address);
            }
        }
        if count_chars(field, '"') % 2 != 0 {
            quoted = !quoted;
        }
        i = i + 1;
    }
    Some(P2pGroupStarted { interface, role, go_ip })
}

} // verus!
