//! Deployment footguns of a configuration: security-relevant defaults inverted. They are
//! warned of rather than refused, since an operator may have a deliberate reason.

use vstd::prelude::*;
use vstd::string::StrSliceExecFns;

use crate::config::{ConfigView, ExtAuthzConfig};
use crate::text::{
    after_last, before_first, decimal, digit, lemma_after_last, since_last, split_once, str_eq, strip_prefix,
    until_first,
};

verus! {

/// Something to warn of at construction.
#[derive(Debug, Clone, Copy, PartialEq, Eq, Structural)]
pub enum ConfigWarning {
    /// The verifier is reached in the clear, beyond this host.
    PlaintextVerifier,
    /// The credential is forwarded to the upstream destination.
    TokenForwarded,
}

impl ConfigWarning {
    /// The warning in words.
    pub fn message(&self) -> (res: &'static str)
        ensures
            res@ == match self {
                ConfigWarning::PlaintextVerifier =>
                    "ext-authz verifier_url is plaintext http:// on a non-loopback host: the per-action credential crosses this link in the clear and any peer that can occupy the address can forge ALLOWs. Use a unix socket or mTLS."@,
                ConfigWarning::TokenForwarded =>
                    "ext-authz strip_token_header=false: the per-action credential will be forwarded to the upstream destination."@,
            },
    {
        match self {
            ConfigWarning::PlaintextVerifier =>
                "ext-authz verifier_url is plaintext http:// on a non-loopback host: the per-action credential crosses this link in the clear and any peer that can occupy the address can forge ALLOWs. Use a unix socket or mTLS.",
            ConfigWarning::TokenForwarded =>
                "ext-authz strip_token_header=false: the per-action credential will be forwarded to the upstream destination.",
        }
    }
}

/// The authority of what follows `http://` in a URL: it ends where a path, a query or a
/// fragment starts. A backslash is read as a slash, as URL parsers do.
pub open spec fn url_authority(rest: Seq<char>) -> Seq<char> {
    before_first(before_first(before_first(before_first(rest, '/'), '\\'), '?'), '#')
}

/// The host of what follows `http://` in a URL: userinfo and port are dropped, and an IPv6
/// address stands in brackets.
pub open spec fn url_host(rest: Seq<char>) -> Seq<char> {
    let authority = after_last(url_authority(rest), '@');
    if authority.len() > 0 && authority[0] == '[' {
        before_first(authority.drop_first(), ']')
    } else {
        before_first(authority, ':')
    }
}

/// An IPv4 address in dotted decimal.
pub open spec fn dotted(a: u8, b: u8, c: u8, d: u8) -> Seq<char> {
    decimal(a as nat) + seq!['.'] + (decimal(b as nat) + seq!['.'] + (decimal(c as nat) + seq!['.']
        + decimal(d as nat)))
}

/// Whether a host is an address in 127.0.0.0/8, written in dotted decimal.
pub open spec fn is_loopback_v4(host: Seq<char>) -> bool {
    exists|b: u8, c: u8, d: u8| host == #[trigger] dotted(127, b, c, d)
}

/// Loopback goes by the address, not by how a name starts: the whole 127.0.0.0/8 block in
/// dotted decimal is loopback, and a host with anything but digits and dots in it (such as
/// `127.evil.com`) is no address of that block.
pub proof fn law_loopback_goes_by_the_address(b: u8, c: u8, d: u8, host: Seq<char>, i: int)
    requires
        0 <= i < host.len(),
        host[i] != '.',
        !('0' <= host[i] <= '9'),
    ensures
        is_loopback_v4(dotted(127, b, c, d)),
        !is_loopback_v4(host),
{
    if is_loopback_v4(host) {
        let (b2, c2, d2) = choose|b2: u8, c2: u8, d2: u8| host == #[trigger] dotted(127, b2, c2, d2);
        lemma_octet_digits(127);
        lemma_octet_digits(b2);
        lemma_octet_digits(c2);
        lemma_octet_digits(d2);
    }
}

/// Whether a host is this host.
pub open spec fn is_loopback(host: Seq<char>) -> bool {
    host == "localhost"@ || host == "::1"@ || is_loopback_v4(host)
}

/// Whether a URL is plaintext `http://` to another host.
pub open spec fn leaves_host_in_the_clear(url: Seq<char>) -> bool {
    "http://"@.is_prefix_of(url) && !is_loopback(url_host(url.skip("http://"@.len() as int)))
}

/// The warnings that a configuration deserves.
pub open spec fn warnings(cfg: ConfigView) -> Seq<ConfigWarning> {
    (if leaves_host_in_the_clear(cfg.verifier_url) {
        seq![ConfigWarning::PlaintextVerifier]
    } else {
        Seq::empty()
    }) + (if cfg.strip_token_header {
        Seq::empty()
    } else {
        seq![ConfigWarning::TokenForwarded]
    })
}

/// Surface deployment footguns, to be warned of at construction.
pub fn warn_on_unsafe_config(cfg: &ExtAuthzConfig) -> (res: Vec<ConfigWarning>)
    ensures
        res@ == warnings(cfg@),
{
    let mut res: Vec<ConfigWarning> = Vec::new();
    if is_plaintext_non_loopback(cfg.verifier_url.as_str()) {
        res.push(ConfigWarning::PlaintextVerifier);
    }
    if !cfg.strip_token_header {
        res.push(ConfigWarning::TokenForwarded);
    }
    assert(res@ =~= warnings(cfg@));
    res
}

/// Best-effort check that a verifier URL is plaintext `http://` to a non-loopback host.
/// Errs toward warning: a host it cannot classify as loopback is treated as non-loopback.
pub fn is_plaintext_non_loopback(url: &str) -> (res: bool)
    ensures
        res == leaves_host_in_the_clear(url@),
{
    let rest = match strip_prefix(url, "http://") {
        Some(r) => r,
        None => return false,  // https://, unix socket, etc.
    };
    proof {
        assert("http://"@ =~= url@.subrange(0, "http://"@.len() as int));
        assert(rest@ =~= url@.skip("http://"@.len() as int));
        reveal_strlit("[");
    }
    let authority = until_first(
        until_first(until_first(until_first(rest, '/'), '\\'), '?'),
        '#',
    );
    // Drop any `user@` userinfo before reading the host.
    let authority = since_last(authority, '@');
    let host = match strip_prefix(authority, "[") {
        Some(after_bracket) => {
            assert(authority@[0] == '[');
            assert(authority@.drop_first() =~= after_bracket@);
            until_first(after_bracket, ']')  // [ipv6]:port
        },
        None => {
            proof {
                if authority@.len() > 0 && authority@[0] == '[' {
                    assert("["@ =~= authority@.subrange(0, 1));
                }
            }
            until_first(authority, ':')  // host:port
        },
    };
    // Classify loopback by parsing, not by prefix: `127.evil.com` is NOT loopback, while the
    // whole 127.0.0.0/8 block is.
    !(str_eq(host, "localhost") || str_eq(host, "::1") || is_loopback_ipv4(host))
}

/// Whether a text is a decimal octet.
pub open spec fn is_octet(s: Seq<char>) -> bool {
    exists|v: u8| s == #[trigger] decimal(v as nat)
}

proof fn lemma_octet_digits(v: u8)
    ensures
        v < 10 ==> decimal(v as nat) == seq![digit(v as nat)],
        10 <= v < 100 ==> decimal(v as nat) == seq![digit((v / 10) as nat), digit((v % 10) as nat)],
        100 <= v ==> decimal(v as nat) == seq![
            digit((v / 100) as nat),
            digit((v / 10 % 10) as nat),
            digit((v % 10) as nat),
        ],
        !decimal(v as nat).contains('.'),
{
    reveal_with_fuel(decimal, 3);
    let s = decimal(v as nat);
    if 10 <= v < 100 {
        assert(s =~= seq![digit((v / 10) as nat), digit((v % 10) as nat)]);
    } else if 100 <= v {
        assert(s =~= seq![
            digit((v / 100) as nat),
            digit((v / 10 % 10) as nat),
            digit((v % 10) as nat),
        ]);
    }
    assert forall|i: int| 0 <= i < s.len() implies s[i] != '.' by {}
}

/// Whether a character is a decimal digit.
spec fn is_digit(c: char) -> bool {
    exists|v: nat| v < 10 && c == #[trigger] digit(v)
}

fn digit_value(c: char) -> (res: Option<u32>)
    ensures
        match res {
            Some(v) => v < 10 && c == digit(v as nat),
            None => !is_digit(c),
        },
{
    if '0' <= c && c <= '9' {
        Some(c as u32 - 48)
    } else {
        None
    }
}

/// A text whose value is `v` by its digits, without a leading zero, is the decimal form of `v`.
proof fn lemma_octet(s: Seq<char>, hundreds: nat, tens: nat, ones: nat)
    requires
        hundreds < 10,
        tens < 10,
        ones < 10,
        s == seq![digit(ones)] || (s == seq![digit(tens), digit(ones)] && tens > 0) || (s == seq![
            digit(hundreds),
            digit(tens),
            digit(ones),
        ] && hundreds > 0),
    ensures
        s.len() == 1 ==> is_octet(s),
        s.len() == 2 ==> is_octet(s),
        s.len() == 3 ==> (is_octet(s) <==> 100 * hundreds + 10 * tens + ones <= 255),
{
    let v = if s.len() == 1 {
        ones
    } else if s.len() == 2 {
        10 * tens + ones
    } else {
        100 * hundreds + 10 * tens + ones
    };
    if v <= 255 {
        lemma_octet_digits(v as u8);
        assert(s =~= decimal(v as u8 as nat));
    } else if is_octet(s) {
        let w = choose|w: u8| s == #[trigger] decimal(w as nat);
        lemma_octet_digits(w);
        assert(s[0] == digit((w / 100) as nat) && s[1] == digit((w / 10 % 10) as nat) && s[2]
            == digit((w % 10) as nat));
    }
}

/// Whether a text is a decimal octet: at most 255, without leading zeros.
fn octet(s: &str) -> (res: bool)
    ensures
        res == is_octet(s@),
{
    proof {
        assert forall|v: u8| s@ == #[trigger] decimal(v as nat) implies {
            &&& 1 <= s@.len() <= 3
            &&& s@.len() > 1 ==> s@[0] != digit(0)
            &&& forall|i: int| 0 <= i < s@.len() ==> is_digit(#[trigger] s@[i])
        } by {
            lemma_octet_digits(v);
            assert forall|i: int| 0 <= i < s@.len() implies is_digit(#[trigger] s@[i]) by {
                assert(s@[i] == digit((v % 10) as nat) || s@[i] == digit((v / 10) as nat) || s@[i]
                    == digit((v / 100) as nat) || s@[i] == digit((v / 10 % 10) as nat));
            }
        }
    }
    let n: usize = s.unicode_len();
    if n == 0 || n > 3 {
        return false;
    }
    let first = match digit_value(s.get_char(0)) {
        Some(v) => v,
        None => return false,
    };
    if n == 1 {
        proof {
            assert(s@ =~= seq![digit(first as nat)]);
            lemma_octet(s@, 0, 0, first as nat);
        }
        return true;
    }
    if first == 0 {
        return false;
    }
    let second = match digit_value(s.get_char(1)) {
        Some(v) => v,
        None => return false,
    };
    if n == 2 {
        proof {
            assert(s@ =~= seq![digit(first as nat), digit(second as nat)]);
            lemma_octet(s@, 0, first as nat, second as nat);
        }
        return true;
    }
    let third = match digit_value(s.get_char(2)) {
        Some(v) => v,
        None => return false,
    };
    proof {
        assert(s@ =~= seq![digit(first as nat), digit(second as nat), digit(third as nat)]);
        lemma_octet(s@, first as nat, second as nat, third as nat);
    }
    100 * first + 10 * second + third <= 255
}

/// A dot-free text before the first dot is the whole part before it.
proof fn lemma_same_split(head: Seq<char>, tail: Seq<char>, head2: Seq<char>, tail2: Seq<char>)
    requires
        head + seq!['.'] + tail == head2 + seq!['.'] + tail2,
        !head.contains('.'),
        !head2.contains('.'),
    ensures
        head == head2,
        tail == tail2,
{
    let s = head + seq!['.'] + tail;
    assert(s[head.len() as int] == '.' && s[head2.len() as int] == '.');
    if head.len() < head2.len() {
        assert(head2[head.len() as int] == s[head.len() as int]);
    } else if head2.len() < head.len() {
        assert(head[head2.len() as int] == s[head2.len() as int]);
    }
    assert(head =~= s.take(head.len() as int) && head2 =~= s.take(head.len() as int));
    assert(tail =~= s.skip(head.len() as int + 1) && tail2 =~= s.skip(head.len() as int + 1));
}

/// Whether a host is an IPv4 loopback address.
fn is_loopback_ipv4(host: &str) -> (res: bool)
    ensures
        res == is_loopback_v4(host@),
{
    proof {
        reveal_strlit("127.");
        lemma_octet_digits(127);
        assert("127."@ =~= decimal(127) + seq!['.']);
        assert forall|b: u8, c: u8, d: u8| host@ == #[trigger] dotted(127, b, c, d) implies {
            &&& "127."@.is_prefix_of(host@)
            &&& host@.skip(4) == decimal(b as nat) + seq!['.'] + (decimal(c as nat) + seq!['.']
                + decimal(d as nat))
            &&& host@.skip(4)[decimal(b as nat).len() as int] == '.'
            &&& (decimal(c as nat) + seq!['.'] + decimal(d as nat))[decimal(c as nat).len() as int]
                == '.'
            &&& !decimal(b as nat).contains('.')
            &&& !decimal(c as nat).contains('.')
        } by {
            lemma_octet_digits(b);
            lemma_octet_digits(c);
            let rest = decimal(b as nat) + seq!['.'] + (decimal(c as nat) + seq!['.'] + decimal(
                d as nat,
            ));
            assert("127."@ =~= host@.subrange(0, 4));
            assert(host@.skip(4) =~= rest);
        }
    }
    let rest = match strip_prefix(host, "127.") {
        Some(rest) => rest,
        None => return false,
    };
    assert(host@.skip(4) =~= rest@);
    let (b, rest) = match split_once(rest, '.') {
        Some(halves) => halves,
        None => return false,
    };
    proof {
        assert forall|b2: u8, c2: u8, d2: u8| host@ == #[trigger] dotted(127, b2, c2, d2) implies {
            &&& b@ == decimal(b2 as nat)
            &&& rest@ == decimal(c2 as nat) + seq!['.'] + decimal(d2 as nat)
        } by {
            lemma_same_split(
                b@,
                rest@,
                decimal(b2 as nat),
                decimal(c2 as nat) + seq!['.'] + decimal(d2 as nat),
            );
        }
    }
    let (c, d) = match split_once(rest, '.') {
        Some(halves) => halves,
        None => return false,
    };
    proof {
        assert forall|b2: u8, c2: u8, d2: u8| host@ == #[trigger] dotted(127, b2, c2, d2) implies {
            &&& is_octet(b@)
            &&& is_octet(c@)
            &&& is_octet(d@)
        } by {
            lemma_same_split(c@, d@, decimal(c2 as nat), decimal(d2 as nat));
        }
    }
    if octet(b) && octet(c) && octet(d) {
        proof {
            let b2 = choose|v: u8| b@ == #[trigger] decimal(v as nat);
            let c2 = choose|v: u8| c@ == #[trigger] decimal(v as nat);
            let d2 = choose|v: u8| d@ == #[trigger] decimal(v as nat);
            assert(host@ =~= dotted(127, b2, c2, d2));
        }
        true
    } else {
        false
    }
}

/// Whether a character ends the authority of a URL.
pub open spec fn ends_authority(c: char) -> bool {
    c == '/' || c == '\\' || c == '?' || c == '#'
}

proof fn lemma_cut_behind(x: Seq<char>, r: Seq<char>, c: char)
    requires
        !x.contains(c),
    ensures
        before_first(x + r, c) == x + before_first(r, c),
        r.len() > 0 && r[0] == c ==> before_first(r, c).len() == 0,
        r.len() > 0 && r[0] != c ==> before_first(r, c).len() > 0 && before_first(r, c)[0] == r[0],
        r.len() == 0 ==> before_first(r, c).len() == 0,
    decreases x.len(),
{
    if x.len() == 0 {
        assert(x + r =~= r);
        assert(x + before_first(r, c) =~= before_first(r, c));
    } else {
        assert(x.contains(x[0]));
        let y = x.drop_first();
        assert forall|i: int| 0 <= i < y.len() implies y[i] != c by {
            assert(x.contains(x[i + 1]));
        }
        lemma_cut_behind(y, r, c);
        assert((x + r).drop_first() =~= y + r);
        assert(seq![x[0]] + (y + before_first(r, c)) =~= x + before_first(r, c));
    }
}

proof fn lemma_authority(x: Seq<char>, r: Seq<char>)
    requires
        forall|i: int| 0 <= i < x.len() ==> !ends_authority(#[trigger] x[i]),
        r.len() > 0 ==> ends_authority(r[0]),
    ensures
        url_authority(x + r) == x,
{
    let r1 = before_first(r, '/');
    let r2 = before_first(r1, '\\');
    let r3 = before_first(r2, '?');
    let r4 = before_first(r3, '#');
    lemma_cut_behind(x, r, '/');
    lemma_cut_behind(x, r1, '\\');
    lemma_cut_behind(x, r2, '?');
    lemma_cut_behind(x, r3, '#');
    assert(r4.len() == 0);
    assert(x + r4 =~= x);
}

/// The host is read out of a URL whatever stands around it: userinfo before an `@`, a port behind
/// a colon, and a path, query or fragment behind those do not change it. An address in brackets
/// is read without them.
pub proof fn law_the_host_is_read_out_of_the_url(
    user: Seq<char>,
    host: Seq<char>,
    port: Seq<char>,
    rest: Seq<char>,
)
    requires
        forall|i: int| 0 <= i < user.len() ==> !ends_authority(#[trigger] user[i]),
        forall|i: int| 0 <= i < host.len() ==> !ends_authority(#[trigger] host[i]) && host[i] != '@',
        forall|i: int| 0 <= i < port.len() ==> !ends_authority(#[trigger] port[i]) && port[i] != '@',
        port.len() > 0 ==> port[0] == ':',
        rest.len() > 0 ==> ends_authority(rest[0]),
    ensures
        !host.contains(':') && (host.len() > 0 ==> host[0] != '[') ==> url_host(
            host + port + rest,
        ) == host && url_host(user + seq!['@'] + host + port + rest) == host,
        !host.contains(']') ==> url_host(seq!['['] + host + seq![']'] + port + rest) == host
            && url_host(user + seq!['@'] + seq!['['] + host + seq![']'] + port + rest) == host,
{
    let bare = host + port;
    assert forall|i: int| 0 <= i < bare.len() implies !ends_authority(#[trigger] bare[i]) && bare[i]
        != '@' by {
        if i < host.len() {
            assert(bare[i] == host[i]);
        } else {
            assert(bare[i] == port[i - host.len()]);
        }
    }
    lemma_host_part(user, bare, rest);
    assert(user + seq!['@'] + host + port + rest =~= user + seq!['@'] + bare + rest);
    if !host.contains(':') && (host.len() > 0 ==> host[0] != '[') {
        lemma_cut_behind(host, port, ':');
        assert(host + before_first(port, ':') =~= host);
        if bare.len() > 0 && host.len() == 0 {
            assert(bare[0] == port[0]);
        } else if bare.len() > 0 {
            assert(bare[0] == host[0]);
        }
    }
    let boxed = seq!['['] + host + seq![']'] + port;
    assert forall|i: int| 0 <= i < boxed.len() implies !ends_authority(#[trigger] boxed[i])
        && boxed[i] != '@' by {
        if 0 < i <= host.len() {
            assert(boxed[i] == host[i - 1]);
        } else if i > host.len() + 1 {
            assert(boxed[i] == port[i - host.len() - 2]);
        }
    }
    lemma_host_part(user, boxed, rest);
    assert(user + seq!['@'] + seq!['['] + host + seq![']'] + port + rest =~= user + seq!['@'] + boxed
        + rest);
    if !host.contains(']') {
        let tail = seq![']'] + port;
        lemma_cut_behind(host, tail, ']');
        assert(boxed.drop_first() =~= host + tail);
        assert(host + before_first(tail, ']') =~= host);
    }
}

proof fn lemma_host_part(user: Seq<char>, part: Seq<char>, rest: Seq<char>)
    requires
        forall|i: int| 0 <= i < user.len() ==> !ends_authority(#[trigger] user[i]),
        forall|i: int| 0 <= i < part.len() ==> !ends_authority(#[trigger] part[i]) && part[i] != '@',
        rest.len() > 0 ==> ends_authority(rest[0]),
    ensures
        after_last(url_authority(part + rest), '@') == part,
        after_last(url_authority(user + seq!['@'] + part + rest), '@') == part,
{
    lemma_authority(part, rest);
    lemma_after_last(part, '@', 0);
    assert(part.skip(0) =~= part);
    let whole = user + seq!['@'] + part;
    assert forall|i: int| 0 <= i < whole.len() implies !ends_authority(#[trigger] whole[i]) by {
        if i < user.len() {
            assert(whole[i] == user[i]);
        } else if i > user.len() {
            assert(whole[i] == part[i - user.len() - 1]);
        }
    }
    lemma_authority(whole, rest);
    let n = user.len() as int + 1;
    assert(whole[n - 1] == '@');
    assert forall|j: int| n <= j < whole.len() implies whole[j] != '@' by {
        assert(whole[j] == part[j - n]);
    }
    lemma_after_last(whole, '@', n);
    assert(whole.skip(n) =~= part);
}

/// A URL is flagged exactly where it starts with `http://` and its host is neither `localhost`,
/// nor `::1`, nor an IPv4 address in dotted decimal whose first octet is 127.
pub proof fn law_which_urls_are_flagged(url: Seq<char>)
    ensures
        leaves_host_in_the_clear(url) <==> {
            let host = url_host(url.skip(7));
            &&& url.len() >= 7
            &&& url.take(7) == seq!['h', 't', 't', 'p', ':', '/', '/']
            &&& host != "localhost"@
            &&& host != "::1"@
            &&& forall|b: u8, c: u8, d: u8|
                host != #[trigger] dotted(127, b, c, d)
        },
{
    reveal_strlit("http://");
    assert("http://"@ =~= seq!['h', 't', 't', 'p', ':', '/', '/']);
    if url.len() >= 7 {
        assert(url.take(7) =~= url.subrange(0, 7));
    }
}

/// Dotted decimal is the four octets in decimal with a dot between each two.
pub proof fn law_dotted_decimal_joins_four_octets(a: u8, b: u8, c: u8, d: u8)
    ensures
        dotted(a, b, c, d) == decimal(a as nat) + seq!['.'] + decimal(b as nat) + seq!['.'] + decimal(
            c as nat,
        ) + seq!['.'] + decimal(d as nat),
{
    assert(dotted(a, b, c, d) =~= decimal(a as nat) + seq!['.'] + decimal(b as nat) + seq!['.']
        + decimal(c as nat) + seq!['.'] + decimal(d as nat));
}

/// A configuration is warned of for a verifier in the clear beyond this host, for forwarding the
/// token, for both in that order, or not at all.
pub proof fn law_what_is_warned_of(cfg: ConfigView)
    ensures
        ({
            let clear = leaves_host_in_the_clear(cfg.verifier_url);
            let w = warnings(cfg);
            &&& w.contains(ConfigWarning::PlaintextVerifier) <==> clear
            &&& w.contains(ConfigWarning::TokenForwarded) <==> !cfg.strip_token_header
            &&& w.len() == (if clear {
                1int
            } else {
                0
            }) + (if cfg.strip_token_header {
                0int
            } else {
                1
            })
            &&& clear ==> w[0] == ConfigWarning::PlaintextVerifier
        }),
{
    let clear = leaves_host_in_the_clear(cfg.verifier_url);
    let w = warnings(cfg);
    if clear {
        assert(w[0] == ConfigWarning::PlaintextVerifier);
    }
    if !cfg.strip_token_header {
        assert(w[w.len() - 1] == ConfigWarning::TokenForwarded);
    }
}

} // verus!
