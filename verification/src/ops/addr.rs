//! Addresses as text, and the clusters of the root endpoint.

use crate::text::{chars_of, text_between};
use vstd::prelude::*;

verus! {

/// The endpoint that carries the node-wide clusters.
pub const ROOT_ENDPOINT: u16 = 0;

/// `OperationalCredentials` cluster id.
pub const OP_CREDS: u32 = 62;

/// The position of the first `c`, or the length of the text.
pub open spec fn find_char(s: Seq<char>, c: char) -> int
    decreases s.len(),
{
    if s.len() == 0 || s[0] == c {
        0
    } else {
        1 + find_char(s.skip(1), c)
    }
}

/// The host part of an `"ip:port"` text. A bracketed host is what stands between
/// the brackets. Without brackets, a single colon separates the port; more than
/// one make an IPv6 address without a port.
pub open spec fn host_of(s: Seq<char>) -> Seq<char> {
    if s.len() > 0 && s[0] == '[' {
        let inner = s.skip(1);
        let close = find_char(inner, ']');
        if close < inner.len() {
            inner.take(close)
        } else {
            s
        }
    } else {
        let colon = find_char(s, ':');
        if colon < s.len() && find_char(s.skip(colon + 1), ':') == s.len() - colon - 1 {
            s.take(colon)
        } else {
            s
        }
    }
}

proof fn lemma_find_char(s: Seq<char>, c: char, at: int)
    requires
        0 <= at <= s.len(),
        forall|i: int| 0 <= i < at ==> s[i] != c,
        at < s.len() ==> s[at] == c,
    ensures
        find_char(s, c) == at,
    decreases s.len(),
{
    if at > 0 {
        lemma_find_char(s.skip(1), c, at - 1);
    }
}

fn find_from(chars: &Vec<char>, from: usize, c: char) -> (res: usize)
    requires
        from <= chars@.len(),
    ensures
        from <= res <= chars@.len(),
        res - from == find_char(chars@.skip(from as int), c),
{
    let mut i: usize = from;
    while i < chars.len()
        invariant
            from <= i <= chars@.len(),
            forall|j: int| from <= j < i ==> chars@[j] != c,
        decreases chars.len() - i,
    {
        if chars[i] == c {
            proof {
                lemma_find_char(chars@.skip(from as int), c, i - from);
            }
            return i;
        }
        i += 1;
    }
    proof {
        lemma_find_char(chars@.skip(from as int), c, i - from);
    }
    i
}

/// The host part of an `"ip:port"` text, keeping any IPv6 scope id.
pub fn ip_of(addr: &str) -> (res: String)
    ensures
        res@ == host_of(addr@),
{
    let chars = chars_of(addr);
    let n = chars.len();
    assert(chars@.skip(0) =~= chars@);
    if n > 0 && chars[0] == '[' {
        let close = find_from(&chars, 1, ']');
        if close < n {
            assert(chars@.skip(1).take(close - 1) =~= chars@.subrange(1, close as int));
            text_between(&chars, 1, close)
        } else {
            addr.to_owned()
        }
    } else {
        let colon = find_from(&chars, 0, ':');
        if colon < n && find_from(&chars, colon + 1, ':') == n {
            assert(chars@.take(colon as int) =~= chars@.subrange(0, colon as int));
            text_between(&chars, 0, colon)
        } else {
            addr.to_owned()
        }
    }
}

/// A host without brackets or colons is found again after a port is added, and an
/// IPv6 host after it is put in brackets.
pub proof fn host_of_joined(host: Seq<char>, port: Seq<char>)
    requires
        forall|i: int| 0 <= i < port.len() ==> port[i] != ':',
        forall|i: int| 0 <= i < host.len() ==> host[i] != ']',
    ensures
        host_of(seq!['['] + host + seq![']', ':'] + port) == host,
        (forall|i: int| 0 <= i < host.len() ==> host[i] != ':' && host[i] != '[') ==> host_of(
            host + seq![':'] + port,
        ) == host,
{
    let s = seq!['['] + host + seq![']', ':'] + port;
    let inner = s.skip(1);
    assert forall|i: int| 0 <= i < host.len() implies inner[i] != ']' by {
        assert(inner[i] == host[i]);
    }
    assert(inner[host.len() as int] == ']');
    lemma_find_char(inner, ']', host.len() as int);
    assert(inner.take(host.len() as int) =~= host);
    if forall|i: int| 0 <= i < host.len() ==> host[i] != ':' && host[i] != '[' {
        let t = host + seq![':'] + port;
        assert forall|i: int| 0 <= i < host.len() implies t[i] != ':' by {
            assert(t[i] == host[i]);
        }
        assert(t[host.len() as int] == ':');
        lemma_find_char(t, ':', host.len() as int);
        let rest = t.skip(host.len() as int + 1);
        assert(rest =~= port);
        lemma_find_char(rest, ':', port.len() as int);
        assert(t.take(host.len() as int) =~= host);
        if host.len() > 0 {
            assert(t[0] == host[0]);
        }
    }
}

/// A text with no brackets in front and no colon, or with more than one, is a host
/// without a port.
pub proof fn bare_hosts_stay_as_they_are(s: Seq<char>, i: int, j: int)
    requires
        s.len() == 0 || s[0] != '[',
        (forall|k: int| 0 <= k < s.len() ==> s[k] != ':') || (0 <= i < j < s.len() && s[i] == ':'
            && s[j] == ':'),
    ensures
        host_of(s) == s,
{
    if forall|k: int| 0 <= k < s.len() ==> s[k] != ':' {
        lemma_find_char(s, ':', s.len() as int);
    } else {
        let at = lemma_first_char(s, ':', i);
        let rest = s.skip(at + 1);
        assert(rest[j - at - 1] == s[j]);
        let next = lemma_first_char(rest, ':', j - at - 1);
    }
}

proof fn lemma_first_char(s: Seq<char>, c: char, i: int) -> (at: int)
    requires
        0 <= i < s.len(),
        s[i] == c,
    ensures
        0 <= at <= i,
        at == find_char(s, c),
    decreases s.len(),
{
    if s[0] == c {
        0
    } else {
        assert(s.skip(1)[i - 1] == s[i]);
        lemma_first_char(s.skip(1), c, i - 1) + 1
    }
}

/// A bracket that is not closed is part of the host.
pub proof fn unclosed_brackets_stay(s: Seq<char>)
    requires
        s.len() > 0,
        s[0] == '[',
        forall|i: int| 0 <= i < s.len() ==> s[i] != ']',
    ensures
        host_of(s) == s,
{
    lemma_find_char(s.skip(1), ']', s.len() - 1);
}

} // verus!
