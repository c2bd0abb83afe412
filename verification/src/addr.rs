use vstd::prelude::*;

use vstd::string::StrSliceExecFns;

verus! {

/// An ASCII decimal digit.
pub open spec fn is_digit(c: char) -> bool {
    48 <= c as u32 && c as u32 <= 57
}

/// The numeric value of a digit.
pub open spec fn digit_val(c: char) -> int {
    c as u32 - 48
}

/// Every character is a digit.
pub open spec fn all_digits(s: Seq<char>) -> bool {
    forall|i: int| 0 <= i < s.len() ==> is_digit(#[trigger] s[i])
}

/// The number the digit string denotes.
pub open spec fn digits_val(s: Seq<char>) -> int
    decreases s.len(),
{
    if s.len() == 0 {
        0
    } else {
        digits_val(s.drop_last()) * 10 + digit_val(s.last())
    }
}

/// A decimal number as an address may spell it: at least one digit, and no
/// leading zero unless the number is exactly "0".
pub open spec fn is_decimal(s: Seq<char>) -> bool {
    &&& s.len() >= 1
    &&& all_digits(s)
    &&& (s.len() == 1 || s[0] != '0')
}

/// One octet of a dotted-quad address.
pub open spec fn is_octet(s: Seq<char>) -> bool {
    &&& is_decimal(s)
    &&& s.len() <= 3
    &&& digits_val(s) <= 255
}

/// A port number.
pub open spec fn is_port(s: Seq<char>) -> bool {
    &&& is_decimal(s)
    &&& s.len() <= 5
    &&& digits_val(s) <= 65535
}

/// The string is a dotted-quad address whose three dots sit at `i`, `j`
/// and `k`.
pub open spec fn ipv4_split_at(s: Seq<char>, i: int, j: int, k: int) -> bool {
    &&& 0 <= i < j < k < s.len()
    &&& s[i] == '.'
    &&& s[j] == '.'
    &&& s[k] == '.'
    &&& is_octet(s.subrange(0, i))
    &&& is_octet(s.subrange(i + 1, j))
    &&& is_octet(s.subrange(j + 1, k))
    &&& is_octet(s.subrange(k + 1, s.len() as int))
}

/// The string is a dotted-quad IPv4 address.
pub open spec fn is_ipv4(s: Seq<char>) -> bool {
    exists|i: int, j: int, k: int| ipv4_split_at(s, i, j, k)
}

/// An ASCII hexadecimal digit.
pub open spec fn is_hex(c: char) -> bool {
    ||| (48 <= c as u32 && c as u32 <= 57)
    ||| (97 <= c as u32 && c as u32 <= 102)
    ||| (65 <= c as u32 && c as u32 <= 70)
}

/// One group of an IPv6 address: one to four hexadecimal digits.
pub open spec fn is_hex_group(s: Seq<char>) -> bool {
    &&& 1 <= s.len() <= 4
    &&& forall|i: int| 0 <= i < s.len() ==> is_hex(#[trigger] s[i])
}

/// The string is exactly `k` hexadecimal groups separated by single colons.
pub open spec fn is_hex_groups(s: Seq<char>, k: int) -> bool
    decreases k,
{
    if k <= 0 {
        false
    } else if k == 1 {
        is_hex_group(s)
    } else {
        exists|i: int|
            {
                &&& 0 < i < s.len()
                &&& s[i] == ':'
                &&& is_hex_group(s.subrange(0, i))
                &&& is_hex_groups(s.subrange(i + 1, s.len() as int), k - 1)
            }
    }
}

/// The string is an IPv6 address in group notation: eight groups in full,
/// or fewer with exactly one `::` standing for the elided zero groups.
/// Embedded dotted-quad tails and zone suffixes are not part of this
/// grammar.
pub open spec fn is_ipv6(s: Seq<char>) -> bool {
    ||| is_hex_groups(s, 8)
    ||| (s.len() == 2 && s[0] == ':' && s[1] == ':')
    ||| (s.len() > 2 && s[0] == ':' && s[1] == ':' && (exists|b: int|
        1 <= b <= 7 && #[trigger] is_hex_groups(s.subrange(2, s.len() as int), b)))
    ||| (s.len() > 2 && s[s.len() - 1] == ':' && s[s.len() - 2] == ':' && (exists|a: int|
        1 <= a <= 7 && #[trigger] is_hex_groups(s.subrange(0, s.len() - 2), a)))
    ||| (exists|i: int, a: int, b: int|
        {
            &&& 0 < i
            &&& i + 2 < s.len()
            &&& s[i] == ':'
            &&& s[i + 1] == ':'
            &&& 1 <= a
            &&& 1 <= b
            &&& a + b <= 7
            &&& #[trigger] is_hex_groups(s.subrange(0, i), a)
            &&& #[trigger] is_hex_groups(s.subrange(i + 2, s.len() as int), b)
        })
}

/// The string is a bracketed IPv6 address, as a socket address spells it.
pub open spec fn is_bracketed_ipv6(s: Seq<char>) -> bool {
    &&& s.len() >= 4
    &&& s[0] == '['
    &&& s[s.len() - 1] == ']'
    &&& is_ipv6(s.subrange(1, s.len() - 1))
}

/// The host half of a socket address: a dotted-quad IPv4 address or a
/// bracketed IPv6 address.
pub open spec fn is_host(s: Seq<char>) -> bool {
    is_ipv4(s) || is_bracketed_ipv6(s)
}

/// Every character of a hexadecimal group string is a hex digit or a colon.
pub proof fn lemma_hex_groups_chars(s: Seq<char>, k: int, p: int)
    requires
        is_hex_groups(s, k),
        0 <= p < s.len(),
    ensures
        is_hex(s[p]) || s[p] == ':',
    decreases k,
{
    if k == 1 {
    } else {
        let i = choose|i: int|
            {
                &&& 0 < i < s.len()
                &&& s[i] == ':'
                &&& is_hex_group(s.subrange(0, i))
                &&& is_hex_groups(s.subrange(i + 1, s.len() as int), k - 1)
            };
        if p < i {
            assert(s.subrange(0, i)[p] == s[p]);
        } else if p > i {
            lemma_hex_groups_chars(s.subrange(i + 1, s.len() as int), k - 1, p - i - 1);
            assert(s.subrange(i + 1, s.len() as int)[p - i - 1] == s[p]);
        }
    }
}

/// A hexadecimal group string is long enough for its groups, and starts
/// and ends with a hex digit.
pub proof fn lemma_hex_groups_shape(s: Seq<char>, k: int)
    requires
        is_hex_groups(s, k),
    ensures
        s.len() >= 2 * k - 1,
        k >= 1,
        is_hex(s[0]),
        is_hex(s[s.len() - 1]),
    decreases k,
{
    if k >= 2 {
        let i = choose|i: int|
            {
                &&& 0 < i < s.len()
                &&& s[i] == ':'
                &&& is_hex_group(s.subrange(0, i))
                &&& is_hex_groups(s.subrange(i + 1, s.len() as int), k - 1)
            };
        let tail = s.subrange(i + 1, s.len() as int);
        lemma_hex_groups_shape(tail, k - 1);
        assert(s.subrange(0, i)[0] == s[0]);
        assert(tail[tail.len() - 1] == s[s.len() - 1]);
    }
}

/// A hexadecimal group string never holds two adjacent colons.
pub proof fn lemma_hex_groups_no_gap(s: Seq<char>, k: int, p: int)
    requires
        is_hex_groups(s, k),
        0 <= p,
        p + 1 < s.len(),
    ensures
        !(s[p] == ':' && s[p + 1] == ':'),
    decreases k,
{
    if k == 1 {
        assert(is_hex(s[p]));
    } else {
        let i = choose|i: int|
            {
                &&& 0 < i < s.len()
                &&& s[i] == ':'
                &&& is_hex_group(s.subrange(0, i))
                &&& is_hex_groups(s.subrange(i + 1, s.len() as int), k - 1)
            };
        let tail = s.subrange(i + 1, s.len() as int);
        if p < i {
            assert(s.subrange(0, i)[p] == s[p]);
            assert(is_hex(s[p]));
        } else if p == i {
            lemma_hex_groups_shape(tail, k - 1);
            assert(tail[0] == s[i + 1]);
        } else {
            lemma_hex_groups_no_gap(tail, k - 1, p - i - 1);
            assert(tail[p - i - 1] == s[p]);
            assert(tail[p - i] == s[p + 1]);
        }
    }
}

/// A string is one definite number of hexadecimal groups.
pub proof fn lemma_hex_groups_unique(s: Seq<char>, k1: int, k2: int)
    requires
        is_hex_groups(s, k1),
        is_hex_groups(s, k2),
    ensures
        k1 == k2,
    decreases k1,
{
    if k1 == 1 && k2 >= 2 {
        let i = choose|i: int|
            {
                &&& 0 < i < s.len()
                &&& s[i] == ':'
                &&& is_hex_group(s.subrange(0, i))
                &&& is_hex_groups(s.subrange(i + 1, s.len() as int), k2 - 1)
            };
        assert(is_hex(s[i]));
        assert(false);
    } else if k1 >= 2 && k2 == 1 {
        let i = choose|i: int|
            {
                &&& 0 < i < s.len()
                &&& s[i] == ':'
                &&& is_hex_group(s.subrange(0, i))
                &&& is_hex_groups(s.subrange(i + 1, s.len() as int), k1 - 1)
            };
        assert(is_hex(s[i]));
        assert(false);
    } else if k1 >= 2 && k2 >= 2 {
        let i1 = choose|i: int|
            {
                &&& 0 < i < s.len()
                &&& s[i] == ':'
                &&& is_hex_group(s.subrange(0, i))
                &&& is_hex_groups(s.subrange(i + 1, s.len() as int), k1 - 1)
            };
        let i2 = choose|i: int|
            {
                &&& 0 < i < s.len()
                &&& s[i] == ':'
                &&& is_hex_group(s.subrange(0, i))
                &&& is_hex_groups(s.subrange(i + 1, s.len() as int), k2 - 1)
            };
        if i1 < i2 {
            assert(s.subrange(0, i2)[i1] == s[i1]);
            assert(is_hex(s[i1]));
            assert(false);
        }
        if i2 < i1 {
            assert(s.subrange(0, i1)[i2] == s[i2]);
            assert(is_hex(s[i2]));
            assert(false);
        }
        lemma_hex_groups_unique(s.subrange(i1 + 1, s.len() as int), k1 - 1, k2 - 1);
    }
}

/// Every character of an IPv6 group text is a hex digit or a colon.
pub proof fn lemma_ipv6_chars(s: Seq<char>, p: int)
    requires
        is_ipv6(s),
        0 <= p < s.len(),
    ensures
        is_hex(s[p]) || s[p] == ':',
{
    if is_hex_groups(s, 8) {
        lemma_hex_groups_chars(s, 8, p);
    } else if s.len() == 2 && s[0] == ':' && s[1] == ':' {
    } else if s.len() > 2 && s[0] == ':' && s[1] == ':' && (exists|b: int|
        1 <= b <= 7 && #[trigger] is_hex_groups(s.subrange(2, s.len() as int), b)) {
        if p >= 2 {
            let b = choose|b: int|
                1 <= b <= 7 && #[trigger] is_hex_groups(s.subrange(2, s.len() as int), b);
            lemma_hex_groups_chars(s.subrange(2, s.len() as int), b, p - 2);
            assert(s.subrange(2, s.len() as int)[p - 2] == s[p]);
        }
    } else if s.len() > 2 && s[s.len() - 1] == ':' && s[s.len() - 2] == ':' && (exists|a: int|
        1 <= a <= 7 && #[trigger] is_hex_groups(s.subrange(0, s.len() - 2), a)) {
        if p < s.len() - 2 {
            let a = choose|a: int|
                1 <= a <= 7 && #[trigger] is_hex_groups(s.subrange(0, s.len() - 2), a);
            lemma_hex_groups_chars(s.subrange(0, s.len() - 2), a, p);
            assert(s.subrange(0, s.len() - 2)[p] == s[p]);
        }
    } else {
        let (i, a, b) = choose|i: int, a: int, b: int|
            {
                &&& 0 < i
                &&& i + 2 < s.len()
                &&& s[i] == ':'
                &&& s[i + 1] == ':'
                &&& 1 <= a
                &&& 1 <= b
                &&& a + b <= 7
                &&& #[trigger] is_hex_groups(s.subrange(0, i), a)
                &&& #[trigger] is_hex_groups(s.subrange(i + 2, s.len() as int), b)
            };
        if p < i {
            lemma_hex_groups_chars(s.subrange(0, i), a, p);
            assert(s.subrange(0, i)[p] == s[p]);
        } else if p >= i + 2 {
            lemma_hex_groups_chars(s.subrange(i + 2, s.len() as int), b, p - i - 2);
            assert(s.subrange(i + 2, s.len() as int)[p - i - 2] == s[p]);
        }
    }
}

/// An IPv6 group text is at least two characters long.
pub proof fn lemma_ipv6_min_len(s: Seq<char>)
    requires
        is_ipv6(s),
    ensures
        s.len() >= 2,
{
    if is_hex_groups(s, 8) {
        lemma_hex_groups_shape(s, 8);
    }
}

/// The string is `ip:port` with the colon at `c`.
pub open spec fn addr_split_at(s: Seq<char>, c: int) -> bool {
    &&& 0 <= c < s.len()
    &&& s[c] == ':'
    &&& is_host(s.subrange(0, c))
    &&& is_port(s.subrange(c + 1, s.len() as int))
}

/// The host text a successful parse yields: a bracketed host loses its
/// brackets, a dotted-quad host is returned as written.
pub open spec fn host_text(s: Seq<char>, c: int) -> Seq<char> {
    if s.len() > 0 && s[0] == '[' {
        s.subrange(1, c - 1)
    } else {
        s.subrange(0, c)
    }
}

/// The string is an IPv4 socket address.
pub open spec fn is_socket_addr(s: Seq<char>) -> bool {
    exists|c: int| addr_split_at(s, c)
}

/// Ten to the `n`.
pub open spec fn pow10(n: nat) -> int
    decreases n,
{
    if n == 0 {
        1
    } else {
        10 * pow10((n - 1) as nat)
    }
}

/// Inside a dotted-quad address every character is a digit or a dot; in
/// particular the three split dots are the only dots.
pub proof fn lemma_ipv4_chars(s: Seq<char>, i: int, j: int, k: int, p: int)
    requires
        ipv4_split_at(s, i, j, k),
        0 <= p < s.len(),
    ensures
        is_digit(s[p]) || s[p] == '.',
        s[p] == '.' ==> p == i || p == j || p == k,
{
    if p != i && p != j && p != k {
        if p < i {
            assert(s.subrange(0, i)[p] == s[p]);
            assert(is_digit(s.subrange(0, i)[p]));
        } else if p < j {
            assert(s.subrange(i + 1, j)[p - i - 1] == s[p]);
            assert(is_digit(s.subrange(i + 1, j)[p - i - 1]));
        } else if p < k {
            assert(s.subrange(j + 1, k)[p - j - 1] == s[p]);
            assert(is_digit(s.subrange(j + 1, k)[p - j - 1]));
        } else {
            assert(s.subrange(k + 1, s.len() as int)[p - k - 1] == s[p]);
            assert(is_digit(s.subrange(k + 1, s.len() as int)[p - k - 1]));
        }
        assert(is_digit(s[p]));
        assert(s[p] != '.');
    }
}

/// An `ip:port` split is unique: the colon splitting it can sit at only one
/// position, because neither the address nor the port holds a colon.
pub proof fn lemma_addr_split_unique(s: Seq<char>, c1: int, c2: int)
    requires
        addr_split_at(s, c1),
        addr_split_at(s, c2),
    ensures
        c1 == c2,
{
    if c1 < c2 {
        // Position c2 would lie inside the split-at-c1 port, all digits.
        let port = s.subrange(c1 + 1, s.len() as int);
        assert(port[c2 - c1 - 1] == s[c2]);
        assert(is_digit(port[c2 - c1 - 1]));
    }
    if c2 < c1 {
        let port = s.subrange(c2 + 1, s.len() as int);
        assert(port[c1 - c2 - 1] == s[c1]);
        assert(is_digit(port[c1 - c2 - 1]));
    }
}

/// A split candidate on a string that opens with a bracket is pinned to the
/// position right after the first closing bracket, and the text between the
/// brackets is an IPv6 group text.
proof fn lemma_bracket_candidate(s: Seq<char>, c: int, e: int)
    requires
        addr_split_at(s, c),
        s.len() > 0,
        s[0] == '[',
        0 <= e < s.len(),
        s[e] == ']',
        forall|q: int| 0 <= q < e ==> s[q] != ']',
    ensures
        c == e + 1,
        is_ipv6(s.subrange(1, e)),
{
    let host = s.subrange(0, c);
    if is_ipv4(host) {
        let (i, j, k) = choose|i: int, j: int, k: int| ipv4_split_at(host, i, j, k);
        lemma_ipv4_chars(host, i, j, k, 0);
        assert(host[0] == s[0]);
        assert(false);
    }
    assert(is_bracketed_ipv6(host));
    assert(host[host.len() - 1] == s[c - 1]);
    assert(e <= c - 1);
    let inner = host.subrange(1, host.len() - 1);
    if e < c - 1 {
        assert(s[0] != ']');
        assert(e >= 1);
        assert(inner[e - 1] == s[e]);
        lemma_ipv6_chars(inner, e - 1);
        assert(false);
    }
    assert(inner =~= s.subrange(1, e));
}

/// Parses `host:port`, the host a dotted-quad IPv4 address or a bracketed
/// IPv6 address; success yields the host (brackets stripped) and port as
/// separate strings.  Failure treats the entire string as a filesystem path
/// and returns it whole, with an empty port.
pub fn parse_server_info(addr: &str) -> (r: (String, String))
    ensures
        is_socket_addr(addr@) ==> {
            let c = choose|c: int| addr_split_at(addr@, c);
            &&& r.0@ == host_text(addr@, c)
            &&& r.1@ == addr@.subrange(c + 1, addr@.len() as int)
        },
        !is_socket_addr(addr@) ==> r.0@ == addr@ && r.1@.len() == 0,
{
    let ghost s: Seq<char> = addr@;
    let n: usize = addr.unicode_len();
    if n > 0 && addr.get_char(0) == '[' {
        return parse_bracketed(addr, n);
    }
    // Find the first colon.
    let mut fc: usize = 0;
    let mut colon_found: bool = false;
    let mut p: usize = 0;
    while p < n
        invariant_except_break
            !colon_found,
            p <= n,
        invariant
            n == s.len(),
            s == addr@,
            forall|q: int| 0 <= q < p ==> s[q] != ':',
        ensures
            colon_found ==> fc < n && s[fc as int] == ':' && (forall|q: int|
                0 <= q < fc ==> s[q] != ':'),
            !colon_found ==> p == n && (forall|q: int| 0 <= q < p ==> s[q] != ':'),
        decreases n - p,
    {
        if addr.get_char(p) == ':' {
            fc = p;
            colon_found = true;
            break ;
        }
        p = p + 1;
    }
    if !colon_found {
        proof {
            assert forall|c: int| !addr_split_at(s, c) by {
                if 0 <= c < s.len() {
                    assert(s[c] != ':');
                }
            }
        }
        return (addr.to_owned(), String::new());
    }
    let host_ok = check_ipv4(addr, fc);
    let port_ok = check_decimal_value(addr, fc + 1, n, 5, 65535);
    if host_ok && port_ok {
        proof {
            assert(addr_split_at(s, fc as int));
            lemma_addr_split_unique(s, fc as int, choose|c: int| addr_split_at(s, c));
        }
        let host = addr.substring_char(0, fc).to_owned();
        let port = addr.substring_char(fc + 1, n).to_owned();
        (host, port)
    } else {
        proof {
            assert forall|c: int| !addr_split_at(s, c) by {
                if addr_split_at(s, c) {
                    if c < fc {
                        // The colon at fc would sit inside the split's port.
                        let port = s.subrange(c + 1, s.len() as int);
                        assert(port[fc - c - 1] == s[fc as int]);
                        assert(is_digit(port[fc - c - 1]));
                        assert(false);
                    } else if c > fc {
                        // The colon at fc would sit inside the split's host;
                        // a bracketed host is ruled out by the first
                        // character.
                        let host = s.subrange(0, c);
                        if is_ipv4(host) {
                            let (i, j, k) = choose|i: int, j: int, k: int|
                                ipv4_split_at(host, i, j, k);
                            lemma_ipv4_chars(host, i, j, k, fc as int);
                            assert(host[fc as int] == s[fc as int]);
                            assert(false);
                        } else {
                            assert(is_bracketed_ipv6(host));
                            assert(host[0] == s[0]);
                            assert(false);
                        }
                    } else {
                        assert(is_host(s.subrange(0, fc as int)) && is_port(
                            s.subrange(fc as int + 1, s.len() as int),
                        ));
                        let host = s.subrange(0, fc as int);
                        if is_bracketed_ipv6(host) {
                            assert(host[0] == s[0]);
                            assert(false);
                        }
                        assert(false);
                    }
                }
            }
        }
        (addr.to_owned(), String::new())
    }
}

/// The bracketed half of address parsing: `[groups]:port`.
fn parse_bracketed(addr: &str, n: usize) -> (r: (String, String))
    requires
        n == addr@.len(),
        n > 0,
        addr@[0] == '[',
    ensures
        is_socket_addr(addr@) ==> {
            let c = choose|c: int| addr_split_at(addr@, c);
            &&& r.0@ == host_text(addr@, c)
            &&& r.1@ == addr@.subrange(c + 1, addr@.len() as int)
        },
        !is_socket_addr(addr@) ==> r.0@ == addr@ && r.1@.len() == 0,
{
    let ghost s: Seq<char> = addr@;
    // Find the first closing bracket.
    let mut e: usize = 0;
    let mut rb_found: bool = false;
    let mut p: usize = 0;
    while p < n
        invariant_except_break
            !rb_found,
            p <= n,
        invariant
            n == s.len(),
            s == addr@,
            forall|q: int| 0 <= q < p ==> s[q] != ']',
        ensures
            rb_found ==> e < n && s[e as int] == ']' && (forall|q: int|
                0 <= q < e ==> s[q] != ']'),
            !rb_found ==> p == n && (forall|q: int| 0 <= q < p ==> s[q] != ']'),
        decreases n - p,
    {
        if addr.get_char(p) == ']' {
            e = p;
            rb_found = true;
            break ;
        }
        p = p + 1;
    }
    if !rb_found {
        proof {
            assert forall|c: int| !addr_split_at(s, c) by {
                if addr_split_at(s, c) {
                    let host = s.subrange(0, c);
                    if is_ipv4(host) {
                        let (i, j, k) = choose|i: int, j: int, k: int|
                            ipv4_split_at(host, i, j, k);
                        lemma_ipv4_chars(host, i, j, k, 0);
                        assert(host[0] == s[0]);
                        assert(false);
                    } else {
                        assert(is_bracketed_ipv6(host));
                        assert(host[host.len() - 1] == s[c - 1]);
                        assert(false);
                    }
                }
            }
        }
        return (addr.to_owned(), String::new());
    }
    if e + 1 >= n || addr.get_char(e + 1) != ':' {
        proof {
            assert forall|c: int| !addr_split_at(s, c) by {
                if addr_split_at(s, c) {
                    lemma_bracket_candidate(s, c, e as int);
                    assert(s[c] == ':');
                    assert(false);
                }
            }
        }
        return (addr.to_owned(), String::new());
    }
    let host_ok = check_ipv6_inner(addr, 1, e);
    let port_ok = check_decimal_value(addr, e + 2, n, 5, 65535);
    if host_ok && port_ok {
        proof {
            let host = s.subrange(0, e as int + 1);
            assert(host.subrange(1, host.len() - 1) =~= s.subrange(1, e as int));
            lemma_ipv6_min_len(s.subrange(1, e as int));
            assert(host[0] == s[0]);
            assert(host[host.len() - 1] == s[e as int]);
            assert(is_bracketed_ipv6(host));
            assert(s.subrange(e as int + 2, s.len() as int) =~= s.subrange(
                e as int + 1 + 1,
                s.len() as int,
            ));
            assert(addr_split_at(s, e as int + 1));
            lemma_addr_split_unique(s, e as int + 1, choose|c: int| addr_split_at(s, c));
        }
        let host = addr.substring_char(1, e).to_owned();
        let port = addr.substring_char(e + 2, n).to_owned();
        (host, port)
    } else {
        proof {
            assert forall|c: int| !addr_split_at(s, c) by {
                if addr_split_at(s, c) {
                    lemma_bracket_candidate(s, c, e as int);
                    assert(is_ipv6(s.subrange(1, e as int)));
                    assert(is_port(s.subrange(e as int + 2, s.len() as int)));
                    assert(false);
                }
            }
        }
        (addr.to_owned(), String::new())
    }
}

/// Ten to the power never shrinks and never drops below one.
pub proof fn lemma_pow10_le(a: nat, b: nat)
    requires
        a <= b,
    ensures
        1 <= pow10(a) <= pow10(b),
    decreases b,
{
    if b == 0 {
    } else if a == b {
        lemma_pow10_le((a - 1) as nat, (b - 1) as nat);
    } else {
        lemma_pow10_le(a, (b - 1) as nat);
    }
}

/// Checks that the characters from `from` to `to` spell a decimal number of
/// at most `max_len` digits whose value is at most `max_val`.
fn check_decimal_value(s: &str, from: usize, to: usize, max_len: usize, max_val: u32) -> (r: bool)
    requires
        from <= to <= s@.len(),
        max_len <= 5,
    ensures
        r == ({
            let seg = s@.subrange(from as int, to as int);
            is_decimal(seg) && seg.len() <= max_len && digits_val(seg) <= max_val
        }),
{
    let ghost seg: Seq<char> = s@.subrange(from as int, to as int);
    let len: usize = to - from;
    if len == 0 || len > max_len {
        return false;
    }
    // Reject a leading zero on a multi-digit number.
    let first = s.get_char(from);
    if len > 1 && first == '0' {
        proof {
            assert(seg[0] == '0');
        }
        return false;
    }
    proof {
        assert(pow10(0) == 1);
        assert(pow10(1) == 10);
        assert(pow10(2) == 100);
        assert(pow10(3) == 1000);
        assert(pow10(4) == 10000);
        assert(pow10(5) == 100000);
    }
    let mut val: u32 = 0;
    let mut m: usize = 0;
    while m < len
        invariant
            len == seg.len(),
            1 <= len <= 5,
            from + len == to,
            to <= s@.len(),
            seg == s@.subrange(from as int, to as int),
            m <= len,
            all_digits(seg.subrange(0, m as int)),
            val == digits_val(seg.subrange(0, m as int)),
            val < pow10(m as nat),
            pow10(5) == 100000,
        decreases len - m,
    {
        let c = s.get_char(from + m);
        let code: u32 = c as u32;
        proof {
            assert(seg[m as int] == s@[from + m]);
        }
        if code < 48 || code > 57 {
            proof {
                assert(!is_digit(seg[m as int]));
            }
            return false;
        }
        proof {
            let pre = seg.subrange(0, m as int);
            let post = seg.subrange(0, m as int + 1);
            assert(post.drop_last() =~= pre);
            assert(post.last() == seg[m as int]);
            lemma_pow10_le(m as nat + 1, 5);
            assert(pow10(m as nat + 1) == 10 * pow10(m as nat));
        }
        val = val * 10 + (code - 48);
        m = m + 1;
    }
    proof {
        assert(seg.subrange(0, len as int) =~= seg);
    }
    if val > max_val {
        return false;
    }
    true
}

/// Checks that the characters before `limit` spell a dotted-quad IPv4
/// address.
fn check_ipv4(s: &str, limit: usize) -> (r: bool)
    requires
        limit <= s@.len(),
    ensures
        r == is_ipv4(s@.subrange(0, limit as int)),
{
    let ghost host: Seq<char> = s@.subrange(0, limit as int);
    // Record up to three dot positions and reject a fourth.
    let mut d1: usize = 0;
    let mut d2: usize = 0;
    let mut d3: usize = 0;
    let mut dots: usize = 0;
    let mut p: usize = 0;
    let mut too_many: bool = false;
    while p < limit
        invariant_except_break
            !too_many,
        invariant
            p <= limit,
            limit <= s@.len(),
            host == s@.subrange(0, limit as int),
            dots <= 3,
            dots >= 1 ==> d1 < p && host[d1 as int] == '.',
            dots >= 2 ==> d2 < p && host[d2 as int] == '.' && d1 < d2,
            dots >= 3 ==> d3 < p && host[d3 as int] == '.' && d2 < d3,
            forall|q: int|
                0 <= q < p && #[trigger] host[q] == '.' ==> (dots >= 1 && q == d1) || (dots >= 2
                    && q == d2) || (dots >= 3 && q == d3),
        ensures
            too_many ==> exists|q4: int|
                0 <= q4 < limit && dots == 3 && d1 < d2 < d3 < q4 && host[d1 as int] == '.'
                    && host[d2 as int] == '.' && host[d3 as int] == '.' && host[q4] == '.',
            !too_many ==> p == limit && (forall|q: int|
                0 <= q < limit && #[trigger] host[q] == '.' ==> (dots >= 1 && q == d1) || (dots
                    >= 2 && q == d2) || (dots >= 3 && q == d3)),
        decreases limit - p,
    {
        proof {
            assert(host[p as int] == s@[p as int]);
        }
        if s.get_char(p) == '.' {
            if dots == 0 {
                d1 = p;
                dots = 1;
            } else if dots == 1 {
                d2 = p;
                dots = 2;
            } else if dots == 2 {
                d3 = p;
                dots = 3;
            } else {
                too_many = true;
                break ;
            }
        }
        p = p + 1;
    }
    if too_many {
        proof {
            assert forall|i: int, j: int, k: int| !ipv4_split_at(host, i, j, k) by {
                if ipv4_split_at(host, i, j, k) {
                    let q4 = choose|q4: int|
                        0 <= q4 < limit && d1 < d2 < d3 < q4 && host[d1 as int] == '.'
                            && host[d2 as int] == '.' && host[d3 as int] == '.' && host[q4]
                            == '.';
                    lemma_ipv4_chars(host, i, j, k, d1 as int);
                    lemma_ipv4_chars(host, i, j, k, d2 as int);
                    lemma_ipv4_chars(host, i, j, k, d3 as int);
                    lemma_ipv4_chars(host, i, j, k, q4);
                    assert(false);
                }
            }
        }
        return false;
    }
    if dots != 3 {
        proof {
            assert forall|i: int, j: int, k: int| !ipv4_split_at(host, i, j, k) by {
                if ipv4_split_at(host, i, j, k) {
                    lemma_ipv4_chars(host, i, j, k, i);
                    lemma_ipv4_chars(host, i, j, k, j);
                    lemma_ipv4_chars(host, i, j, k, k);
                    assert(false);
                }
            }
        }
        return false;
    }
    let o1 = check_decimal_value(s, 0, d1, 3, 255);
    let o2 = check_decimal_value(s, d1 + 1, d2, 3, 255);
    let o3 = check_decimal_value(s, d2 + 1, d3, 3, 255);
    let o4 = check_decimal_value(s, d3 + 1, limit, 3, 255);
    proof {
        assert(host.subrange(0, d1 as int) =~= s@.subrange(0, d1 as int));
        assert(host.subrange(d1 as int + 1, d2 as int) =~= s@.subrange(
            d1 as int + 1,
            d2 as int,
        ));
        assert(host.subrange(d2 as int + 1, d3 as int) =~= s@.subrange(
            d2 as int + 1,
            d3 as int,
        ));
        assert(host.subrange(d3 as int + 1, limit as int) =~= s@.subrange(
            d3 as int + 1,
            limit as int,
        ));
    }
    if o1 && o2 && o3 && o4 {
        proof {
            assert(ipv4_split_at(host, d1 as int, d2 as int, d3 as int));
        }
        true
    } else {
        proof {
            assert forall|i: int, j: int, k: int| !ipv4_split_at(host, i, j, k) by {
                if ipv4_split_at(host, i, j, k) {
                    lemma_ipv4_chars(host, i, j, k, d1 as int);
                    lemma_ipv4_chars(host, i, j, k, d2 as int);
                    lemma_ipv4_chars(host, i, j, k, d3 as int);
                    lemma_ipv4_chars(host, i, j, k, i);
                    lemma_ipv4_chars(host, i, j, k, j);
                    lemma_ipv4_chars(host, i, j, k, k);
                    assert(i == d1 && j == d2 && k == d3);
                    assert(false);
                }
            }
        }
        false
    }
}


/// With the earliest adjacent colon pair of a valid IPv6 text known, the
/// reading is pinned down: that pair is the one `::`, and the group texts
/// before and behind it are as the grammar says.
proof fn lemma_ipv6_gap_shape(seg: Seq<char>, g: int)
    requires
        is_ipv6(seg),
        0 <= g,
        g + 1 < seg.len(),
        seg[g] == ':',
        seg[g + 1] == ':',
        forall|q: int| 0 <= q < g ==> !(#[trigger] seg[q] == ':' && seg[q + 1] == ':'),
    ensures
        ({
            ||| (g == 0 && g + 2 == seg.len())
            ||| (g == 0 && g + 2 < seg.len() && (exists|b: int|
                1 <= b <= 7 && #[trigger] is_hex_groups(seg.subrange(2, seg.len() as int), b)))
            ||| (g > 0 && g + 2 == seg.len() && (exists|a: int|
                1 <= a <= 7 && #[trigger] is_hex_groups(seg.subrange(0, g), a)))
            ||| (g > 0 && g + 2 < seg.len() && (exists|a: int, b: int|
                1 <= a && 1 <= b && a + b <= 7 && #[trigger] is_hex_groups(seg.subrange(0, g), a)
                    && #[trigger] is_hex_groups(seg.subrange(g + 2, seg.len() as int), b)))
        }),
{
    if is_hex_groups(seg, 8) {
        lemma_hex_groups_no_gap(seg, 8, g);
        assert(false);
    } else if seg.len() == 2 && seg[0] == ':' && seg[1] == ':' {
        assert(g == 0);
    } else if seg.len() > 2 && seg[0] == ':' && seg[1] == ':' && (exists|b: int|
        1 <= b <= 7 && #[trigger] is_hex_groups(seg.subrange(2, seg.len() as int), b)) {
        // The pair at position zero is the earliest, so g is zero.
        if g > 0 {
            assert(!(seg[0int] == ':' && seg[0int + 1] == ':'));
            assert(false);
        }
    } else if seg.len() > 2 && seg[seg.len() - 1] == ':' && seg[seg.len() - 2] == ':' && (exists|
        a: int,
    |
        1 <= a <= 7 && #[trigger] is_hex_groups(seg.subrange(0, seg.len() - 2), a)) {
        let a = choose|a: int|
            1 <= a <= 7 && #[trigger] is_hex_groups(seg.subrange(0, seg.len() - 2), a);
        let front = seg.subrange(0, seg.len() - 2);
        lemma_hex_groups_shape(front, a);
        // The trailing pair is the earliest, so g sits exactly there.
        if g + 1 < seg.len() - 1 {
            if g + 1 < seg.len() - 2 {
                assert(front[g] == seg[g]);
                assert(front[g + 1] == seg[g + 1]);
                lemma_hex_groups_no_gap(front, a, g);
                assert(false);
            } else {
                // g + 1 == seg.len() - 2: the colon at g would end the front.
                assert(front[front.len() - 1] == seg[g]);
                assert(false);
            }
        }
        assert(g == seg.len() - 2);
        assert(g > 0) by {
            assert(front.len() >= 1);
        }
    } else {
        let (i, a, b) = choose|i: int, a: int, b: int|
            {
                &&& 0 < i
                &&& i + 2 < seg.len()
                &&& seg[i] == ':'
                &&& seg[i + 1] == ':'
                &&& 1 <= a
                &&& 1 <= b
                &&& a + b <= 7
                &&& #[trigger] is_hex_groups(seg.subrange(0, i), a)
                &&& #[trigger] is_hex_groups(seg.subrange(i + 2, seg.len() as int), b)
            };
        let front = seg.subrange(0, i);
        lemma_hex_groups_shape(front, a);
        // The pair at i is the earliest, so g == i.
        if g < i {
            if g + 1 < i {
                assert(front[g] == seg[g]);
                assert(front[g + 1] == seg[g + 1]);
                lemma_hex_groups_no_gap(front, a, g);
                assert(false);
            } else {
                assert(front[front.len() - 1] == seg[g]);
                assert(false);
            }
        }
        if g > i {
            assert(!(seg[i] == ':' && seg[i + 1] == ':'));
            assert(false);
        }
        assert(g == i);
    }
}

/// Checks that the characters from `from` to `to` spell one hexadecimal
/// group.
fn check_hex_group(s: &str, from: usize, to: usize) -> (r: bool)
    requires
        from <= to <= s@.len(),
    ensures
        r == is_hex_group(s@.subrange(from as int, to as int)),
{
    let ghost seg: Seq<char> = s@.subrange(from as int, to as int);
    let len: usize = to - from;
    if len < 1 || len > 4 {
        return false;
    }
    let mut q: usize = 0;
    while q < len
        invariant
            from + len == to,
            to <= s@.len(),
            q <= len,
            seg == s@.subrange(from as int, to as int),
            forall|t: int| 0 <= t < q ==> is_hex(#[trigger] seg[t]),
        decreases len - q,
    {
        let c = s.get_char(from + q);
        let u: u32 = c as u32;
        proof {
            assert(seg[q as int] == s@[from + q]);
        }
        if !((48 <= u && u <= 57) || (97 <= u && u <= 102) || (65 <= u && u <= 70)) {
            proof {
                assert(!is_hex(seg[q as int]));
            }
            return false;
        }
        q = q + 1;
    }
    true
}

/// Counts the hexadecimal groups the characters from `from` to `to` spell,
/// or reports that they spell no number of groups at all.
fn check_hex_groups(s: &str, from: usize, to: usize) -> (r: Option<usize>)
    requires
        from <= to <= s@.len(),
    ensures
        ({
            let seg = s@.subrange(from as int, to as int);
            &&& (r matches Some(k) ==> 1 <= k <= to - from && is_hex_groups(seg, k as int))
            &&& (r is None ==> (forall|k: int| !is_hex_groups(seg, k)))
        }),
    decreases to - from,
{
    let ghost seg: Seq<char> = s@.subrange(from as int, to as int);
    let mut fc: usize = 0;
    let mut colon_found: bool = false;
    let mut p: usize = from;
    while p < to
        invariant_except_break
            !colon_found,
            from <= p <= to,
        invariant
            to <= s@.len(),
            forall|q: int| from <= q < p ==> s@[q] != ':',
        ensures
            colon_found ==> from <= fc < to && s@[fc as int] == ':' && (forall|q: int|
                from <= q < fc ==> s@[q] != ':'),
            !colon_found ==> p == to && (forall|q: int| from <= q < p ==> s@[q] != ':'),
        decreases to - p,
    {
        if s.get_char(p) == ':' {
            fc = p;
            colon_found = true;
            break ;
        }
        p = p + 1;
    }
    if !colon_found {
        let ok = check_hex_group(s, from, to);
        if ok {
            return Some(1);
        }
        proof {
            assert forall|k: int| !is_hex_groups(seg, k) by {
                if is_hex_groups(seg, k) && k >= 2 {
                    let i = choose|i: int|
                        {
                            &&& 0 < i < seg.len()
                            &&& seg[i] == ':'
                            &&& is_hex_group(seg.subrange(0, i))
                            &&& is_hex_groups(seg.subrange(i + 1, seg.len() as int), k - 1)
                        };
                    assert(seg[i] == s@[from + i]);
                    assert(false);
                }
            }
        }
        return None;
    }
    let ghost gi: int = fc - from;
    let first_ok = check_hex_group(s, from, fc);
    if !first_ok {
        proof {
            assert(seg[gi] == s@[fc as int]);
            assert forall|k: int| !is_hex_groups(seg, k) by {
                if is_hex_groups(seg, k) {
                    if k == 1 {
                        assert(is_hex(seg[gi]));
                        assert(false);
                    } else {
                        let i = choose|i: int|
                            {
                                &&& 0 < i < seg.len()
                                &&& seg[i] == ':'
                                &&& is_hex_group(seg.subrange(0, i))
                                &&& is_hex_groups(seg.subrange(i + 1, seg.len() as int), k - 1)
                            };
                        assert(seg[i] == s@[from + i]);
                        assert(i >= gi);
                        if i > gi {
                            assert(seg.subrange(0, i)[gi] == seg[gi]);
                            assert(is_hex(seg[gi]));
                            assert(false);
                        }
                        assert(seg.subrange(0, i) =~= s@.subrange(from as int, fc as int));
                        assert(false);
                    }
                }
            }
        }
        return None;
    }
    match check_hex_groups(s, fc + 1, to) {
        Some(k) => {
            proof {
                assert(seg.subrange(0, gi) =~= s@.subrange(from as int, fc as int));
                assert(seg.subrange(gi + 1, seg.len() as int) =~= s@.subrange(
                    fc as int + 1,
                    to as int,
                ));
                assert(seg[gi] == s@[fc as int]);
                assert(is_hex_groups(seg, k as int + 1));
            }
            Some(k + 1)
        },
        None => {
            proof {
                assert(seg[gi] == s@[fc as int]);
                assert forall|k: int| !is_hex_groups(seg, k) by {
                    if is_hex_groups(seg, k) {
                        if k == 1 {
                            assert(is_hex(seg[gi]));
                            assert(false);
                        } else {
                            let i = choose|i: int|
                                {
                                    &&& 0 < i < seg.len()
                                    &&& seg[i] == ':'
                                    &&& is_hex_group(seg.subrange(0, i))
                                    &&& is_hex_groups(seg.subrange(i + 1, seg.len() as int), k - 1)
                                };
                            assert(seg[i] == s@[from + i]);
                            assert(i >= gi);
                            if i > gi {
                                assert(seg.subrange(0, i)[gi] == seg[gi]);
                                assert(is_hex(seg[gi]));
                                assert(false);
                            }
                            assert(seg.subrange(i + 1, seg.len() as int) =~= s@.subrange(
                                fc as int + 1,
                                to as int,
                            ));
                            assert(false);
                        }
                    }
                }
            }
            None
        },
    }
}

/// Checks that the characters from `from` to `to` spell an IPv6 address in
/// group notation.
fn check_ipv6_inner(s: &str, from: usize, to: usize) -> (r: bool)
    requires
        from <= to <= s@.len(),
    ensures
        r == is_ipv6(s@.subrange(from as int, to as int)),
{
    let ghost seg: Seq<char> = s@.subrange(from as int, to as int);
    let n: usize = to - from;
    let mut gp: usize = 0;
    let mut gap_found: bool = false;
    if n >= 2 {
        let mut p: usize = from;
        while p < to - 1
            invariant_except_break
                !gap_found,
                from <= p <= to - 1,
            invariant
                to <= s@.len(),
                from + 2 <= to,
                forall|q: int| from <= q < p ==> !(#[trigger] s@[q] == ':' && s@[q + 1] == ':'),
            ensures
                gap_found ==> from <= gp && gp + 1 < to && s@[gp as int] == ':' && s@[gp as int
                    + 1] == ':' && (forall|q: int|
                    from <= q < gp ==> !(#[trigger] s@[q] == ':' && s@[q + 1] == ':')),
                !gap_found ==> (forall|q: int|
                    from <= q && q + 1 < to ==> !(#[trigger] s@[q] == ':' && s@[q + 1] == ':')),
            decreases to - 1 - p,
        {
            if s.get_char(p) == ':' && s.get_char(p + 1) == ':' {
                gp = p;
                gap_found = true;
                break ;
            }
            p = p + 1;
        }
    }
    if !gap_found {
        proof {
            assert forall|q: int|
                0 <= q && q + 1 < seg.len() implies !(#[trigger] seg[q] == ':' && seg[q + 1]
                == ':') by {
                assert(seg[q] == s@[from + q]);
                assert(seg[q + 1] == s@[from + q + 1]);
            }
        }
        let counted = check_hex_groups(s, from, to);
        let ok: bool = match counted {
            Some(k) => k == 8,
            None => false,
        };
        proof {
            if is_ipv6(seg) && !is_hex_groups(seg, 8) {
                // Every compressed form holds an adjacent colon pair.
                if seg.len() == 2 && seg[0] == ':' && seg[1] == ':' {
                    assert(false);
                } else if seg.len() > 2 && seg[0] == ':' && seg[1] == ':' {
                    assert(false);
                } else if seg.len() > 2 && seg[seg.len() - 1] == ':' && seg[seg.len() - 2]
                    == ':' {
                    assert(false);
                } else if is_ipv6(seg) {
                    let (i, a, b) = choose|i: int, a: int, b: int|
                        {
                            &&& 0 < i
                            &&& i + 2 < seg.len()
                            &&& seg[i] == ':'
                            &&& seg[i + 1] == ':'
                            &&& 1 <= a
                            &&& 1 <= b
                            &&& a + b <= 7
                            &&& #[trigger] is_hex_groups(seg.subrange(0, i), a)
                            &&& #[trigger] is_hex_groups(seg.subrange(i + 2, seg.len() as int), b)
                        };
                    assert(false);
                }
            }
            match counted {
                Some(k) => {
                    if k != 8 && is_hex_groups(seg, 8) {
                        lemma_hex_groups_unique(seg, k as int, 8);
                    }
                },
                None => {},
            }
        }
        return ok;
    }
    let ghost g: int = gp - from;
    proof {
        assert(seg[g] == s@[gp as int]);
        assert(seg[g + 1] == s@[gp as int + 1]);
        assert forall|q: int| 0 <= q < g implies !(#[trigger] seg[q] == ':' && seg[q + 1]
            == ':') by {
            assert(seg[q] == s@[from + q]);
            assert(seg[q + 1] == s@[from + q + 1]);
        }
    }
    let front_empty: bool = gp == from;
    let back_empty: bool = gp + 2 == to;
    if front_empty && back_empty {
        proof {
            assert(seg.len() == 2 && seg[0] == ':' && seg[1] == ':');
        }
        true
    } else if front_empty {
        let counted = check_hex_groups(s, gp + 2, to);
        proof {
            assert(seg.subrange(2, seg.len() as int) =~= s@.subrange(gp as int + 2, to as int));
        }
        match counted {
            Some(b) => {
                if b <= 7 {
                    proof {
                        assert(is_ipv6(seg));
                    }
                    true
                } else {
                    proof {
                        if is_ipv6(seg) {
                            lemma_ipv6_gap_shape(seg, g);
                            let b2 = choose|b2: int|
                                1 <= b2 <= 7 && #[trigger] is_hex_groups(
                                    seg.subrange(2, seg.len() as int),
                                    b2,
                                );
                            lemma_hex_groups_unique(
                                seg.subrange(2, seg.len() as int),
                                b2,
                                b as int,
                            );
                        }
                    }
                    false
                }
            },
            None => {
                proof {
                    if is_ipv6(seg) {
                        lemma_ipv6_gap_shape(seg, g);
                    }
                }
                false
            },
        }
    } else if back_empty {
        let counted = check_hex_groups(s, from, gp);
        proof {
            assert(seg.subrange(0, g) =~= s@.subrange(from as int, gp as int));
            assert(g + 2 == seg.len());
        }
        match counted {
            Some(a) => {
                if a <= 7 {
                    proof {
                        assert(seg[seg.len() - 1] == ':' && seg[seg.len() - 2] == ':');
                        assert(is_ipv6(seg));
                    }
                    true
                } else {
                    proof {
                        if is_ipv6(seg) {
                            lemma_ipv6_gap_shape(seg, g);
                            let a2 = choose|a2: int|
                                1 <= a2 <= 7 && #[trigger] is_hex_groups(seg.subrange(0, g), a2);
                            lemma_hex_groups_unique(seg.subrange(0, g), a2, a as int);
                        }
                    }
                    false
                }
            },
            None => {
                proof {
                    if is_ipv6(seg) {
                        lemma_ipv6_gap_shape(seg, g);
                    }
                }
                false
            },
        }
    } else {
        let counted_front = check_hex_groups(s, from, gp);
        let counted_back = check_hex_groups(s, gp + 2, to);
        proof {
            assert(seg.subrange(0, g) =~= s@.subrange(from as int, gp as int));
            assert(seg.subrange(g + 2, seg.len() as int) =~= s@.subrange(
                gp as int + 2,
                to as int,
            ));
        }
        match (counted_front, counted_back) {
            (Some(a), Some(b)) => {
                if a + b <= 7 {
                    proof {
                        assert(is_ipv6(seg));
                    }
                    true
                } else {
                    proof {
                        if is_ipv6(seg) {
                            lemma_ipv6_gap_shape(seg, g);
                            let (a2, b2) = choose|a2: int, b2: int|
                                1 <= a2 && 1 <= b2 && a2 + b2 <= 7 && #[trigger] is_hex_groups(
                                    seg.subrange(0, g),
                                    a2,
                                ) && #[trigger] is_hex_groups(
                                    seg.subrange(g + 2, seg.len() as int),
                                    b2,
                                );
                            lemma_hex_groups_unique(seg.subrange(0, g), a2, a as int);
                            lemma_hex_groups_unique(
                                seg.subrange(g + 2, seg.len() as int),
                                b2,
                                b as int,
                            );
                        }
                    }
                    false
                }
            },
            _ => {
                proof {
                    if is_ipv6(seg) {
                        lemma_ipv6_gap_shape(seg, g);
                    }
                }
                false
            },
        }
    }
}

} // verus!
