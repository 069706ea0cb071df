//! Decisions the supervisor makes around a server launch: the placeholders
//! of the command line, the keys it owns in `server.properties`, and the
//! RCON password.
use crate::properties::{lookup, set_lines, ServerProperties};
use crate::wire::append_bytes;
use rand::distr::SampleString;
use vstd::prelude::*;
use vstd::slice::slice_subrange;
use vstd::string::{StrSliceExecFns, StringExecFns};

verus! {

/// The port a Minecraft server listens on when nothing says otherwise.
pub const MINECRAFT_DEFAULT_PORT: u16 = 25565;

/// The length of a generated RCON password.
pub const RCON_PASSWORD_LEN: usize = 16;

/// `h` with every occurrence of `needle`, scanned from the left and not
/// overlapping, replaced by `to`; unchanged for an empty needle.
pub open spec fn replace_all(h: Seq<u8>, needle: Seq<u8>, to: Seq<u8>) -> Seq<u8>
    decreases h.len(),
{
    if needle.len() == 0 || h.len() < needle.len() {
        h
    } else if h.take(needle.len() as int) == needle {
        to + replace_all(h.skip(needle.len() as int), needle, to)
    } else {
        seq![h[0]] + replace_all(h.skip(1), needle, to)
    }
}

/// The bytes of `${java}`.
pub open spec fn java_placeholder() -> Seq<u8> {
    seq![36u8, 123u8, 106u8, 97u8, 118u8, 97u8, 125u8]
}

/// The bytes of `${server_jar}`.
pub open spec fn server_jar_placeholder() -> Seq<u8> {
    seq![36u8, 123u8, 115u8, 101u8, 114u8, 118u8, 101u8, 114u8, 95u8, 106u8, 97u8, 114u8, 125u8]
}

/// One command-line token with both placeholders filled in.
pub open spec fn substituted(token: Seq<u8>, java: Seq<u8>, jar: Seq<u8>) -> Seq<u8> {
    replace_all(replace_all(token, java_placeholder(), java), server_jar_placeholder(), jar)
}

fn matches_at(h: &[u8], i: usize, needle: &[u8]) -> (r: bool)
    requires
        i + needle@.len() <= h@.len(),
    ensures
        r == (h@.subrange(i as int, i + needle@.len()) == needle@),
{
    let hl = h.len();
    let mut j: usize = 0;
    while j < needle.len()
        invariant
            hl == h@.len(),
            j <= needle@.len(),
            i + needle@.len() <= h@.len(),
            forall|k: int| 0 <= k < j ==> h@[i + k] == needle@[k],
        decreases needle@.len() - j,
    {
        if h[i + j] != needle[j] {
            assert(h@.subrange(i as int, i + needle@.len())[j as int] != needle@[j as int]);
            return false;
        }
        j = j + 1;
    }
    assert(h@.subrange(i as int, i + needle@.len()) =~= needle@);
    true
}

/// `haystack` with each occurrence of `from` replaced by `to`, scanning
/// bytes so that paths that are not UTF-8 survive.
pub fn replace_bytes(haystack: &[u8], from: &[u8], to: &[u8]) -> (r: Vec<u8>)
    ensures
        r@ == replace_all(haystack@, from@, to@),
{
    let mut out: Vec<u8> = Vec::new();
    let n = from.len();
    if n == 0 {
        append_bytes(&mut out, haystack);
        assert(out@ =~= haystack@);
        return out;
    }
    let mut i: usize = 0;
    assert(haystack@.skip(0) =~= haystack@);
    while i <= haystack.len() && n <= haystack.len() - i
        invariant
            n == from@.len() > 0,
            i <= haystack@.len(),
            out@ + replace_all(haystack@.skip(i as int), from@, to@) == replace_all(haystack@, from@, to@),
        decreases haystack@.len() - i,
    {
        let ghost rest = haystack@.skip(i as int);
        assert(rest.take(n as int) =~= haystack@.subrange(i as int, i + n));
        if matches_at(haystack, i, from) {
            append_bytes(&mut out, to);
            assert(rest.skip(n as int) =~= haystack@.skip(i + n));
            assert(out@ + replace_all(haystack@.skip(i + n), from@, to@) =~= replace_all(haystack@, from@, to@));
            i = i + n;
        } else {
            out.push(haystack[i]);
            assert(rest.skip(1) =~= haystack@.skip(i + 1));
            assert(out@ + replace_all(haystack@.skip(i + 1), from@, to@) =~= replace_all(haystack@, from@, to@));
            i = i + 1;
        }
    }
    let tail = slice_subrange(haystack, i, haystack.len());
    assert(tail@ =~= haystack@.skip(i as int));
    append_bytes(&mut out, tail);
    out
}

/// Fills `${java}` and `${server_jar}` in each command-line token, token by
/// token, so that a path holding spaces stays one argument.
pub fn command_substitute_placeholders(command: &Vec<Vec<u8>>, java_path: &[u8], server_jar_path: &[u8]) -> (r: Vec<Vec<u8>>)
    ensures
        r@.len() == command@.len(),
        forall|i: int| 0 <= i < r@.len() ==> #[trigger] r@[i]@ == substituted(command@[i]@, java_path@, server_jar_path@),
{
    let java_needle: Vec<u8> = vec![36u8, 123u8, 106u8, 97u8, 118u8, 97u8, 125u8];
    let jar_needle: Vec<u8> = vec![36u8, 123u8, 115u8, 101u8, 114u8, 118u8, 101u8, 114u8, 95u8, 106u8, 97u8, 114u8, 125u8];
    assert(java_needle@ =~= java_placeholder());
    assert(jar_needle@ =~= server_jar_placeholder());
    let mut out: Vec<Vec<u8>> = Vec::new();
    let mut i: usize = 0;
    while i < command.len()
        invariant
            i <= command@.len(),
            out@.len() == i,
            java_needle@ == java_placeholder(),
            jar_needle@ == server_jar_placeholder(),
            forall|k: int| 0 <= k < i ==> #[trigger] out@[k]@ == substituted(command@[k]@, java_path@, server_jar_path@),
        decreases command@.len() - i,
    {
        let a = replace_bytes(command[i].as_slice(), java_needle.as_slice(), java_path);
        let b = replace_bytes(a.as_slice(), jar_needle.as_slice(), server_jar_path);
        out.push(b);
        i = i + 1;
    }
    out
}

/// The decimal digits of `n`, most significant first, with no leading zero.
pub open spec fn decimal(n: nat) -> Seq<char>
    decreases n,
{
    if n < 10 {
        seq![(48 + n) as char]
    } else {
        decimal(n / 10).push((48 + n % 10) as char)
    }
}

/// The value of a string of decimal digits.
pub open spec fn digits_value(d: Seq<char>) -> nat
    decreases d.len(),
{
    if d.len() == 0 {
        0
    } else {
        digits_value(d.drop_last()) * 10 + (d.last() as nat - 48) as nat
    }
}

/// The text after an optional leading `+`.
pub open spec fn digits_part(s: Seq<char>) -> Seq<char> {
    if s.len() > 0 && s[0] == '+' {
        s.drop_first()
    } else {
        s
    }
}

/// What `str::parse::<u16>` reads: an optional `+`, then one or more
/// decimal digits whose value fits a `u16`.
pub open spec fn parse_u16_text(s: Seq<char>) -> Option<u16> {
    let d = digits_part(s);
    if d.len() > 0 && (forall|i: int| 0 <= i < d.len() ==> '0' <= #[trigger] d[i] <= '9') && digits_value(d) <= u16::MAX {
        Some(digits_value(d) as u16)
    } else {
        None
    }
}

fn digit_str(d: u16) -> (r: &'static str)
    requires
        d < 10,
    ensures
        r@ == seq![(48 + d) as char],
{
    proof {
        reveal_strlit("0");
        reveal_strlit("1");
        reveal_strlit("2");
        reveal_strlit("3");
        reveal_strlit("4");
        reveal_strlit("5");
        reveal_strlit("6");
        reveal_strlit("7");
        reveal_strlit("8");
        reveal_strlit("9");
    }
    match d {
        0 => "0",
        1 => "1",
        2 => "2",
        3 => "3",
        4 => "4",
        5 => "5",
        6 => "6",
        7 => "7",
        8 => "8",
        _ => "9",
    }
}

fn push_decimal(out: &mut String, n: u16)
    ensures
        final(out)@ == old(out)@ + decimal(n as nat),
    decreases n,
{
    if n >= 10 {
        push_decimal(out, n / 10);
    }
    out.append(digit_str(n % 10));
    assert(out@ =~= old(out)@ + decimal(n as nat));
}

/// The decimal digits of `n`.
pub fn u16_to_string(n: u16) -> (r: String)
    ensures
        r@ == decimal(n as nat),
{
    let mut out = String::new();
    push_decimal(&mut out, n);
    assert(out@ =~= decimal(n as nat));
    out
}

proof fn lemma_digits_value_grows(d: Seq<char>, k: int)
    requires
        0 <= k <= d.len(),
        forall|i: int| 0 <= i < d.len() ==> '0' <= #[trigger] d[i] <= '9',
    ensures
        digits_value(d.take(k)) <= digits_value(d),
    decreases d.len() - k,
{
    if k < d.len() {
        lemma_digits_value_grows(d, k + 1);
        assert(d.take(k + 1).drop_last() =~= d.take(k));
        assert(d.take(k + 1).last() == d[k]);
    } else {
        assert(d.take(k) =~= d);
    }
}

/// Reads a `u16` as `str::parse` does: an optional `+`, then one or more
/// decimal digits whose value fits.
pub fn parse_u16(s: &str) -> (r: Option<u16>)
    ensures
        r == parse_u16_text(s@),
{
    let n = s.unicode_len();
    let start: usize = if n > 0 && s.get_char(0) == '+' { 1 } else { 0 };
    let ghost d = digits_part(s@);
    assert(d =~= s@.skip(start as int));
    if start >= n {
        return None;
    }
    let mut value: u32 = 0;
    let mut i: usize = start;
    assert(d.take(0) =~= Seq::<char>::empty());
    while i < n
        invariant
            n == s@.len(),
            start <= i <= n,
            d == s@.skip(start as int),
            d == digits_part(s@),
            forall|k: int| 0 <= k < i - start ==> '0' <= #[trigger] d[k] <= '9',
            value as nat == digits_value(d.take(i - start)),
            value <= 65535,
        decreases n - i,
    {
        let c = s.get_char(i);
        assert(c == d[i - start]);
        if !('0' <= c && c <= '9') {
            assert(d.len() == n - start);
            assert(!('0' <= d[i - start] <= '9'));
            assert(!(forall|k: int| 0 <= k < d.len() ==> '0' <= #[trigger] d[k] <= '9'));
            assert(parse_u16_text(s@) is None);
            return None;
        }
        let ghost pre = d.take(i - start);
        assert(d.take(i - start + 1).drop_last() =~= pre);
        assert(d.take(i - start + 1).last() == c);
        value = value * 10 + (c as u32 - 48);
        assert(value as nat == digits_value(d.take(i - start + 1)));
        if value > 65535 {
            proof {
                assert forall|k: int| 0 <= k < i - start + 1 implies '0' <= #[trigger] d[k] <= '9' by {}
                assert(d.len() == n - start);
                if forall|k: int| 0 <= k < d.len() ==> '0' <= #[trigger] d[k] <= '9' {
                    lemma_digits_value_grows(d, i - start + 1);
                    assert(digits_value(d) > u16::MAX);
                }
                assert(parse_u16_text(s@) is None);
            }
            return None;
        }
        i = i + 1;
    }
    assert(d.take(i - start) =~= d);
    Some(value as u16)
}

/// The alphabet of generated passwords: ASCII letters and digits.
pub open spec fn is_alphanumeric(c: char) -> bool {
    ('a' <= c <= 'z') || ('A' <= c <= 'Z') || ('0' <= c <= '9')
}

/// Relies on `rand::distr::Alphanumeric::sample_string` over the thread
/// generator: `len` characters, each an ASCII letter or digit.
#[verifier::external_body]
fn random_alphanumeric(len: usize) -> (r: String)
    ensures
        r@.len() == len,
        forall|i: int| 0 <= i < r@.len() ==> is_alphanumeric(#[trigger] r@[i]),
{
    rand::distr::Alphanumeric.sample_string(&mut rand::rng(), len)
}

/// The properties after the supervisor's edits, the server port, and the
/// RCON password, for a server proxied on `proxy_port` (or direct where it
/// is `None`) whose RCON listens on `rcon_port`; `fresh` is the password
/// used where the file holds none or an empty one.
pub open spec fn prepared(lines: Seq<crate::properties::LineView>, proxy_port: Option<u16>, rcon_port: u16, fresh: Seq<char>) -> (Seq<crate::properties::LineView>, u16, Seq<char>) {
    let l1 = match proxy_port {
        Some(p) => set_lines(lines, "server-port"@, decimal(p as nat)),
        None => lines,
    };
    let port = match proxy_port {
        Some(p) => p,
        None => match lookup(lines, "server-port"@) {
            Some(v) => match parse_u16_text(v) {
                Some(p) => p,
                None => MINECRAFT_DEFAULT_PORT,
            },
            None => MINECRAFT_DEFAULT_PORT,
        },
    };
    let l2 = set_lines(set_lines(l1, "enable-rcon"@, "true"@), "rcon.port"@, decimal(rcon_port as nat));
    match lookup(l2, "rcon.password"@) {
        Some(pw) => if pw.len() > 0 {
            (l2, port, pw)
        } else {
            (set_lines(l2, "rcon.password"@, fresh), port, fresh)
        },
        None => (set_lines(l2, "rcon.password"@, fresh), port, fresh),
    }
}

/// Edits `server.properties` before a launch: in proxy mode writes the
/// acquired port as `server-port` (in direct mode reads it, defaulting to
/// 25565); forces `enable-rcon=true`; writes `rcon.port`; keeps a non-empty
/// `rcon.password` or writes `fresh_password`. Gives the server port and
/// the RCON password.
pub fn prepare_server_properties(
    props: &mut ServerProperties,
    proxy_port: Option<u16>,
    rcon_port: u16,
    fresh_password: &str,
) -> (r: (u16, String))
    ensures
        prepared(old(props)@, proxy_port, rcon_port, fresh_password@) == (final(props)@, r.0, r.1@),
{
    let server_port = match proxy_port {
        Some(p) => {
            let text = u16_to_string(p);
            props.set("server-port", text.as_str());
            p
        },
        None => match props.get("server-port") {
            Some(v) => match parse_u16(v) {
                Some(p) => p,
                None => MINECRAFT_DEFAULT_PORT,
            },
            None => MINECRAFT_DEFAULT_PORT,
        },
    };
    props.set("enable-rcon", "true");
    let rcon_text = u16_to_string(rcon_port);
    props.set("rcon.port", rcon_text.as_str());
    let keep = match props.get("rcon.password") {
        Some(p) => if p.unicode_len() > 0 {
            Some(String::from_str(p))
        } else {
            None
        },
        None => None,
    };
    match keep {
        Some(p) => (server_port, p),
        None => {
            props.set("rcon.password", fresh_password);
            (server_port, String::from_str(fresh_password))
        },
    }
}

/// Edits `server.properties` as `prepare_server_properties` does, with a
/// freshly generated password of sixteen letters and digits.
pub fn prepare_server_properties_with_new_password(
    props: &mut ServerProperties,
    proxy_port: Option<u16>,
    rcon_port: u16,
) -> (r: (u16, String))
    ensures
        exists|fresh: Seq<char>|
            fresh.len() == RCON_PASSWORD_LEN && (forall|i: int| 0 <= i < fresh.len() ==> is_alphanumeric(#[trigger] fresh[i]))
                && prepared(old(props)@, proxy_port, rcon_port, fresh) == (final(props)@, r.0, r.1@),
{
    let fresh = random_alphanumeric(RCON_PASSWORD_LEN);
    prepare_server_properties(props, proxy_port, rcon_port, fresh.as_str())
}

} // verus!
