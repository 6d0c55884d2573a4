//! The Netscape `cookies.txt` format that curl and wget read: a header line,
//! then one tab-separated line per cookie.
use crate::cookie::Cookie;
use vstd::prelude::*;
use vstd::string::*;

verus! {

pub open spec fn bool_text(b: bool) -> Seq<char> {
    if b {
        "TRUE"@
    } else {
        "FALSE"@
    }
}

pub open spec fn digit_char(d: nat) -> char {
    if d == 0 {
        '0'
    } else if d == 1 {
        '1'
    } else if d == 2 {
        '2'
    } else if d == 3 {
        '3'
    } else if d == 4 {
        '4'
    } else if d == 5 {
        '5'
    } else if d == 6 {
        '6'
    } else if d == 7 {
        '7'
    } else if d == 8 {
        '8'
    } else {
        '9'
    }
}

/// The decimal digits of `n`, most significant first.
pub open spec fn digits_of(n: nat) -> Seq<char>
    decreases n,
{
    if n < 10 {
        seq![digit_char(n)]
    } else {
        digits_of(n / 10).push(digit_char(n % 10))
    }
}

/// `n` written in decimal, with a `-` before a negative number.
pub open spec fn decimal_of(n: int) -> Seq<char> {
    if n < 0 {
        seq!['-'] + digits_of((-n) as nat)
    } else {
        digits_of(n as nat)
    }
}

/// Whole seconds since the UNIX epoch of an instant given in nanoseconds,
/// rounded down.
pub open spec fn seconds_of_nanos(nanos: int) -> int {
    nanos / 1_000_000_000
}

/// The `cookies.txt` line of a cookie: domain, whether it covers subdomains,
/// path, secure flag, expiry in UNIX seconds, name and value. The domain is
/// written as stored, so a domain-wide cookie keeps its leading `.` and gets
/// the flag `TRUE`; curl and wget read both forms.
pub open spec fn netscape_line(c: Cookie) -> Seq<char> {
    c.domain@ + "\t"@ + bool_text(c.domain@.len() > 0 && c.domain@[0] == '.') + "\t"@ + c.path@
        + "\t"@ + bool_text(c.secure) + "\t"@ + decimal_of(seconds_of_nanos(c.expires_nanos as int))
        + "\t"@ + c.name@ + "\t"@ + c.value@ + "\n"@
}

pub open spec fn netscape_lines(cs: Seq<Cookie>) -> Seq<char>
    decreases cs.len(),
{
    if cs.len() == 0 {
        Seq::<char>::empty()
    } else {
        netscape_lines(cs.drop_last()) + netscape_line(cs.last())
    }
}

pub open spec fn netscape_header() -> Seq<char> {
    "# Netscape HTTP Cookie File\n"@
}

fn digit_str(d: u128) -> (r: &'static str)
    requires
        d < 10,
    ensures
        r@ == seq![digit_char(d as nat)],
{
    proof {
        reveal_strlit("0");
        reveal_strlit("1");
        reveal_strlit("2");
        reveal_strlit("3");
        reveal_strlit("4");
        reveal_strlit("5");
        reveal_strlit("6");
        reveal_strlit("7");
        reveal_strlit("8");
        reveal_strlit("9");
    }
    let r = if d == 0 {
        "0"
    } else if d == 1 {
        "1"
    } else if d == 2 {
        "2"
    } else if d == 3 {
        "3"
    } else if d == 4 {
        "4"
    } else if d == 5 {
        "5"
    } else if d == 6 {
        "6"
    } else if d == 7 {
        "7"
    } else if d == 8 {
        "8"
    } else {
        "9"
    };
    assert(r@ =~= seq![digit_char(d as nat)]);
    r
}

fn append_digits(s: &mut String, n: u128)
    ensures
        final(s)@ == old(s)@ + digits_of(n as nat),
    decreases n,
{
    if n >= 10 {
        append_digits(s, n / 10);
    }
    s.append(digit_str(n % 10));
    assert(old(s)@ + digits_of(n as nat) =~= if n >= 10 {
        old(s)@ + digits_of((n / 10) as nat) + seq![digit_char((n % 10) as nat)]
    } else {
        old(s)@ + seq![digit_char((n % 10) as nat)]
    });
}

fn append_decimal(s: &mut String, n: i128)
    ensures
        final(s)@ == old(s)@ + decimal_of(n as int),
{
    if n < 0 {
        s.append("-");
        proof {
            reveal_strlit("-");
        }
        let magnitude: u128 = if n == i128::MIN {
            170141183460469231731687303715884105728u128
        } else {
            (-n) as u128
        };
        append_digits(s, magnitude);
        assert(old(s)@ + decimal_of(n as int) =~= old(s)@ + "-"@ + digits_of(magnitude as nat));
    } else {
        append_digits(s, n as u128);
    }
}

/// Whole UNIX seconds of an instant in nanoseconds, rounded down.
pub fn seconds_of(nanos: i128) -> (r: i128)
    ensures
        r == seconds_of_nanos(nanos as int),
{
    let d: i128 = 1_000_000_000;
    if nanos >= 0 {
        ((nanos as u128) / (d as u128)) as i128
    } else {
        let m: u128 = if nanos == i128::MIN {
            170141183460469231731687303715884105728u128
        } else {
            (-nanos) as u128
        };
        let q: u128 = m / (d as u128);
        let r: u128 = m % (d as u128);
        assert(m == q * 1_000_000_000 + r);
        let res: i128 = if r == 0 {
            -(q as i128)
        } else {
            -(q as i128) - 1
        };
        assert(nanos as int == -(m as int));
        assert(res as int == seconds_of_nanos(nanos as int)) by (nonlinear_arith)
            requires
                nanos as int == -(m as int),
                m as int == q as int * 1_000_000_000 + r as int,
                0 <= r < 1_000_000_000,
                r == 0 ==> res as int == -(q as int),
                r != 0 ==> res as int == -(q as int) - 1,
        {
            if r == 0 {
                assert(nanos as int == (-(q as int)) * 1_000_000_000);
            } else {
                assert(nanos as int == (-(q as int) - 1) * 1_000_000_000 + (1_000_000_000 - r as int));
            }
        }
        res
    }
}

/// The `cookies.txt` line of `c`.
pub fn netscape_line_of(c: &Cookie, out: &mut String)
    ensures
        final(out)@ == old(out)@ + netscape_line(*c),
{
    proof {
        reveal_strlit("\t");
        reveal_strlit("\n");
    }
    let domain = c.domain.as_str();
    let covers_subdomains = domain.unicode_len() > 0 && domain.get_char(0) == '.';
    out.append(domain);
    out.append("\t");
    out.append(if covers_subdomains { "TRUE" } else { "FALSE" });
    out.append("\t");
    out.append(c.path.as_str());
    out.append("\t");
    out.append(if c.secure { "TRUE" } else { "FALSE" });
    out.append("\t");
    append_decimal(out, seconds_of(c.expires_nanos));
    out.append("\t");
    out.append(c.name.as_str());
    out.append("\t");
    out.append(c.value.as_str());
    out.append("\n");
    assert(final(out)@ =~= old(out)@ + netscape_line(*c));
}

/// The `cookies.txt` text of `cookies`, in order.
pub fn netscape(cookies: &Vec<Cookie>) -> (r: String)
    ensures
        r@ == netscape_header() + netscape_lines(cookies@),
{
    let mut out = "# Netscape HTTP Cookie File\n".to_owned();
    let mut i: usize = 0;
    while i < cookies.len()
        invariant
            i <= cookies@.len(),
            out@ == netscape_header() + netscape_lines(cookies@.subrange(0, i as int)),
        decreases cookies.len() - i,
    {
        let ghost before = out@;
        netscape_line_of(&cookies[i], &mut out);
        assert(cookies@.subrange(0, i + 1).drop_last() =~= cookies@.subrange(0, i as int));
        assert(out@ =~= netscape_header() + netscape_lines(cookies@.subrange(0, i + 1)));
        i = i + 1;
    }
    assert(cookies@.subrange(0, cookies@.len() as int) =~= cookies@);
    out
}

} // verus!
