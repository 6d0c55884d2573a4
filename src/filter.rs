//! Host filtering: whether a cookie's domain belongs to one of the hosts the
//! caller asked for, and the base domain of a host name.
use vstd::prelude::*;
use vstd::string::*;
use crate::text::{ends_with, str_ends_with, str_eq};

verus! {

/// Index of the last `.` in `h[0..end]`, or -1 where there is none.
pub open spec fn last_dot_before(h: Seq<char>, end: int) -> int
    decreases end,
{
    if end <= 0 {
        -1
    } else if h[end - 1] == '.' {
        end - 1
    } else {
        last_dot_before(h, end - 1)
    }
}

pub open spec fn is_ascii_digit(c: char) -> bool {
    '0' <= c && c <= '9'
}

/// The decimal value of a run of ASCII digits.
pub open spec fn digits_value(p: Seq<char>) -> int
    decreases p.len(),
{
    if p.len() == 0 {
        0
    } else {
        digits_value(p.drop_last()) * 10 + (p.last() as u32 - '0' as u32)
    }
}

/// One part of a dotted-quad IPv4 address: one to three digits, no leading
/// zero, at most 255.
pub open spec fn is_octet(p: Seq<char>) -> bool {
    &&& 1 <= p.len() <= 3
    &&& forall|i: int| 0 <= i < p.len() ==> is_ascii_digit(#[trigger] p[i])
    &&& (p.len() == 1 || p[0] != '0')
    &&& digits_value(p) <= 255
}

/// Whether `h` is an IPv4 address in dotted-quad notation.
pub open spec fn is_ipv4(h: Seq<char>) -> bool {
    let k = last_dot_before(h, h.len() as int);
    let j = last_dot_before(h, k);
    let i = last_dot_before(h, j);
    &&& i >= 0
    &&& last_dot_before(h, i) == -1
    &&& is_octet(h.subrange(0, i))
    &&& is_octet(h.subrange(i + 1, j))
    &&& is_octet(h.subrange(j + 1, k))
    &&& is_octet(h.subrange(k + 1, h.len() as int))
}

/// Whether a host is a domain name: neither a bracketed IPv6 literal nor an
/// IPv4 address.
pub open spec fn is_domain(h: Seq<char>) -> bool {
    !(h.len() > 0 && h[0] == '[') && !is_ipv4(h)
}

/// The base domain of a host: its last two dot-separated labels, where the
/// host is a domain name with at least one dot.
pub open spec fn base_domain_of(h: Seq<char>) -> Option<Seq<char>> {
    let last = last_dot_before(h, h.len() as int);
    if !is_domain(h) || last < 0 {
        None
    } else {
        Some(h.subrange(last_dot_before(h, last) + 1, h.len() as int))
    }
}

pub open spec fn opt_string_view(s: Option<String>) -> Option<Seq<char>> {
    match s {
        Some(s) => Some(s@),
        None => None,
    }
}

/// Types from which a base domain can be read.
pub trait BaseDomain {
    spec fn base_domain_view(&self) -> Option<Seq<char>>;

    /// Returns the base domain of the host, if it is a domain name.
    fn base_domain(&self) -> (r: Option<String>)
        ensures
            opt_string_view(r) == self.base_domain_view(),
    ;
}

impl BaseDomain for str {
    open spec fn base_domain_view(&self) -> Option<Seq<char>> {
        base_domain_of(self@)
    }

    fn base_domain(&self) -> (r: Option<String>) {
        if !is_domain_host(self) {
            return None;
        }
        let n = self.unicode_len();
        match find_last_dot(self, n) {
            None => None,
            Some(last) => {
                let start = match find_last_dot(self, last) {
                    Some(d) => d + 1,
                    None => 0,
                };
                Some(self.substring_char(start, n).to_owned())
            },
        }
    }
}

/// A cookie domain without its leading `.`, if it has one.
pub open spec fn strip_leading_dot(d: Seq<char>) -> Seq<char> {
    if d.len() > 0 && d[0] == '.' {
        d.subrange(1, d.len() as int)
    } else {
        d
    }
}

/// What a cookie domain is compared against for a requested host: its base
/// domain, or the host itself where it has none.
pub open spec fn match_target(host: Seq<char>) -> Seq<char> {
    match base_domain_of(host) {
        Some(b) => b,
        None => host,
    }
}

/// Whether the (dot-stripped) cookie domain `d` belongs to `host`.
pub open spec fn host_matches(host: Seq<char>, d: Seq<char>) -> bool {
    d == host || ends_with(match_target(host), d)
}

pub open spec fn host_views(hosts: Seq<String>) -> Seq<Seq<char>> {
    hosts.map_values(|h: String| h@)
}

/// Whether a cookie with domain `domain` is kept for the requested `hosts`:
/// an empty domain never is; otherwise any domain is kept when no host was
/// requested, and else one that matches some requested host.
pub open spec fn filter_hosts_spec(domain: Seq<char>, hosts: Seq<Seq<char>>) -> bool {
    let d = strip_leading_dot(domain);
    d.len() > 0 && (hosts.len() == 0 || exists|i: int|
        0 <= i < hosts.len() && #[trigger] host_matches(hosts[i], d))
}

/// A cookie whose domain is empty, or only a dot, is never kept, whatever
/// hosts were requested.
pub proof fn lemma_empty_domain_never_matches(hosts: Seq<Seq<char>>)
    ensures
        !filter_hosts_spec(Seq::<char>::empty(), hosts),
        !filter_hosts_spec(seq!['.'], hosts),
{
    assert(seq!['.'].subrange(1, 1) =~= Seq::<char>::empty());
}

/// Decide whether a cookie whose domain column is `domain` belongs to one of
/// the requested `hosts` (host names of the requested URLs).
pub fn filter_hosts(domain: &str, hosts: &[String]) -> (r: bool)
    ensures
        r == filter_hosts_spec(domain@, host_views(hosts@)),
{
    let n = domain.unicode_len();
    let d = if n > 0 && domain.get_char(0) == '.' {
        domain.substring_char(1, n)
    } else {
        domain
    };
    if d.unicode_len() == 0 {
        return false;
    }
    if hosts.len() == 0 {
        return true;
    }
    let ghost hv = host_views(hosts@);
    let mut i: usize = 0;
    while i < hosts.len()
        invariant
            i <= hosts@.len(),
            hv == host_views(hosts@),
            d@ == strip_leading_dot(domain@),
            d@.len() > 0,
            forall|k: int| 0 <= k < i ==> !#[trigger] host_matches(hv[k], d@),
        decreases hosts.len() - i,
    {
        let host = hosts[i].as_str();
        assert(hv[i as int] == host@);
        if host_matches_exec(host, d) {
            assert(host_matches(hv[i as int], d@));
            assert(hv.len() == hosts@.len());
            return true;
        }
        i = i + 1;
    }
    false
}

fn host_matches_exec(host: &str, d: &str) -> (r: bool)
    ensures
        r == host_matches(host@, d@),
{
    if str_eq(d, host) {
        return true;
    }
    match host.base_domain() {
        Some(b) => str_ends_with(b.as_str(), d),
        None => str_ends_with(host, d),
    }
}

/// Index of the last `.` in the first `end` characters of `h`.
fn find_last_dot(h: &str, end: usize) -> (r: Option<usize>)
    requires
        end <= h@.len(),
    ensures
        match r {
            Some(i) => i < end && h@[i as int] == '.' && i as int == last_dot_before(h@, end as int),
            None => last_dot_before(h@, end as int) == -1,
        },
{
    let mut i = end;
    while i > 0
        invariant
            i <= end <= h@.len(),
            last_dot_before(h@, i as int) == last_dot_before(h@, end as int),
        decreases i,
    {
        if h.get_char(i - 1) == '.' {
            return Some(i - 1);
        }
        i = i - 1;
    }
    None
}

/// Whether `h[from..to]` is an IPv4 octet.
fn is_octet_at(h: &str, from: usize, to: usize) -> (r: bool)
    requires
        from <= to <= h@.len(),
    ensures
        r == is_octet(h@.subrange(from as int, to as int)),
{
    let ghost p = h@.subrange(from as int, to as int);
    if to - from < 1 || to - from > 3 {
        return false;
    }
    let mut value: u32 = 0;
    let mut i = from;
    while i < to
        invariant
            from <= i <= to <= h@.len(),
            to - from <= 3,
            p == h@.subrange(from as int, to as int),
            forall|k: int| 0 <= k < i - from ==> is_ascii_digit(#[trigger] p[k]),
            value as int == digits_value(p.subrange(0, i - from)),
            value < 1000,
            i - from == 0 ==> value == 0,
            i - from == 1 ==> value < 10,
            i - from == 2 ==> value < 100,
        decreases to - i,
    {
        let c = h.get_char(i);
        if c < '0' || c > '9' {
            assert(!is_ascii_digit(p[i - from]));
            return false;
        }
        assert(p.subrange(0, i - from + 1).drop_last() =~= p.subrange(0, i - from));
        value = value * 10 + (c as u32 - '0' as u32);
        i = i + 1;
    }
    assert(p.subrange(0, to - from) =~= p);
    if to - from > 1 && h.get_char(from) == '0' {
        return false;
    }
    value <= 255
}

/// Whether `h` is an IPv4 address in dotted-quad notation.
fn is_ipv4_host(h: &str) -> (r: bool)
    ensures
        r == is_ipv4(h@),
{
    let n = h.unicode_len();
    let k = match find_last_dot(h, n) {
        Some(k) => k,
        None => return false,
    };
    let j = match find_last_dot(h, k) {
        Some(j) => j,
        None => return false,
    };
    let i = match find_last_dot(h, j) {
        Some(i) => i,
        None => return false,
    };
    if find_last_dot(h, i).is_some() {
        return false;
    }
    is_octet_at(h, 0, i) && is_octet_at(h, i + 1, j) && is_octet_at(h, j + 1, k)
        && is_octet_at(h, k + 1, n)
}

/// Whether `h` is a domain name rather than an IP literal.
fn is_domain_host(h: &str) -> (r: bool)
    ensures
        r == is_domain(h@),
{
    if h.unicode_len() > 0 && h.get_char(0) == '[' {
        return false;
    }
    !is_ipv4_host(h)
}

} // verus!
