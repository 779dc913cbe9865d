//! The `urc://connect?...` pairing link that `urc-agent share` prints.
//!
//! The link carries routing hints only (tailnet IPv4, MagicDNS name, port,
//! display name); every query value is percent-encoded.

use vstd::prelude::*;
use crate::decimal::{decimal_seq, push_decimal};
use crate::text::push_char;
use vstd::string::*;
use vstd::utf8::encode_utf8;
use crate::protocol::{opt_view, DEFAULT_WEB_TLS_PORT};
use crate::tailscale::{
    backend_state_spec, ensure_local_running, node_ipv4, self_dns_name, self_flagged_offline,
    self_ipv4, TailscaleError, TailscaleStatus,
};
use crate::text::trim_end_char_seq;

verus! {

/// RFC 3986 unreserved bytes: `A-Z a-z 0-9 - _ . ~`.
pub open spec fn is_unreserved(b: u8) -> bool {
    ||| 65 <= b <= 90
    ||| 97 <= b <= 122
    ||| 48 <= b <= 57
    ||| b == 45
    ||| b == 95
    ||| b == 46
    ||| b == 126
}

/// Upper-case hexadecimal digit for `0 <= d < 16`.
pub open spec fn hex_upper(d: int) -> char {
    if d < 10 {
        crate::decimal::digit_char(d)
    } else if d == 10 {
        'A'
    } else if d == 11 {
        'B'
    } else if d == 12 {
        'C'
    } else if d == 13 {
        'D'
    } else if d == 14 {
        'E'
    } else {
        'F'
    }
}

/// How one byte is written: itself when unreserved, `%XX` otherwise.
pub open spec fn percent_byte(b: u8) -> Seq<char> {
    if is_unreserved(b) {
        seq![b as char]
    } else {
        seq!['%', hex_upper((b / 16) as int), hex_upper((b % 16) as int)]
    }
}

/// Percent-encoding of a byte string.
pub open spec fn percent_encode_seq(bytes: Seq<u8>) -> Seq<char>
    decreases bytes.len(),
{
    if bytes.len() == 0 {
        Seq::empty()
    } else {
        percent_encode_seq(bytes.drop_last()) + percent_byte(bytes.last())
    }
}

fn hex_digit(d: u8) -> (c: char)
    requires
        d < 16,
    ensures
        c == hex_upper(d as int),
{
    if d < 10 {
        crate::decimal::digit(d as u64)
    } else if d == 10 {
        'A'
    } else if d == 11 {
        'B'
    } else if d == 12 {
        'C'
    } else if d == 13 {
        'D'
    } else if d == 14 {
        'E'
    } else {
        'F'
    }
}

fn unreserved(b: u8) -> (r: bool)
    ensures
        r == is_unreserved(b),
{
    (65 <= b && b <= 90) || (97 <= b && b <= 122) || (48 <= b && b <= 57) || b == 45 || b == 95
        || b == 46 || b == 126
}

/// Percent-encodes a query value: every byte of its UTF-8 encoding outside
/// the unreserved set is written as `%XX` with upper-case hex digits.
pub fn encode(value: &str) -> (out: String)
    ensures
        out@ == percent_encode_seq(encode_utf8(value@)),
{
    let bytes = value.as_bytes();
    let mut out = String::new();
    let mut i: usize = 0;
    assert(bytes@.subrange(0, 0) =~= Seq::<u8>::empty());
    while i < bytes.len()
        invariant
            bytes@ == encode_utf8(value@),
            i <= bytes@.len(),
            out@ == percent_encode_seq(bytes@.subrange(0, i as int)),
        decreases bytes@.len() - i,
    {
        let b = bytes[i];
        let ghost pre = out@;
        if unreserved(b) {
            push_char(&mut out, b as char);
        } else {
            push_char(&mut out, '%');
            push_char(&mut out, hex_digit(b / 16));
            push_char(&mut out, hex_digit(b % 16));
        }
        assert(bytes@.subrange(0, i + 1).drop_last() =~= bytes@.subrange(0, i as int));
        assert(out@ =~= pre + percent_byte(b));
        i = i + 1;
    }
    assert(bytes@.subrange(0, bytes@.len() as int) =~= bytes@);
    out
}

/// The pairing link for the given routing hints.
pub open spec fn uri_seq(host: Seq<char>, magicdns: Seq<char>, port: u16, name: Seq<char>) -> Seq<char> {
    "urc://connect?host="@ + host + "&magicdns="@ + magicdns + "&port="@ + decimal_seq(port as nat)
        + "&name="@ + name
}

/// Assembles the deep link `urc://connect?host=..&magicdns=..&port=..&name=..`
/// with percent-encoded query values.
pub fn build_uri(host: &str, magicdns: &str, port: u16, name: &str) -> (uri: String)
    ensures
        uri@ == uri_seq(
            percent_encode_seq(encode_utf8(host@)),
            percent_encode_seq(encode_utf8(magicdns@)),
            port,
            percent_encode_seq(encode_utf8(name@)),
        ),
{
    let mut uri = String::from_str("urc://connect?host=");
    uri.append(encode(host).as_str());
    uri.append("&magicdns=");
    uri.append(encode(magicdns).as_str());
    uri.append("&port=");
    push_decimal(&mut uri, port as u64);
    uri.append("&name=");
    uri.append(encode(name).as_str());
    uri
}


/// A character that percent-encoding writes as itself.
pub open spec fn is_unreserved_char(c: char) -> bool {
    ||| 'A' <= c <= 'Z'
    ||| 'a' <= c <= 'z'
    ||| '0' <= c <= '9'
    ||| c == '-'
    ||| c == '_'
    ||| c == '.'
    ||| c == '~'
}

proof fn lemma_percent_encode_push(bytes: Seq<u8>, b: u8)
    ensures
        percent_encode_seq(bytes.push(b)) == percent_encode_seq(bytes) + percent_byte(b),
{
    assert(bytes.push(b).drop_last() =~= bytes);
}

/// A value made only of unreserved characters is written unchanged.
pub proof fn law_encode_keeps_unreserved(s: Seq<char>)
    requires
        forall|i: int| 0 <= i < s.len() ==> is_unreserved_char(#[trigger] s[i]),
    ensures
        percent_encode_seq(encode_utf8(s)) == s,
    decreases s.len(),
{
    assert(vstd::utf8::is_ascii_chars(s));
    vstd::utf8::is_ascii_chars_encode_utf8(s);
    let bytes = encode_utf8(s);
    if s.len() > 0 {
        let t = s.drop_last();
        assert forall|i: int| 0 <= i < t.len() implies is_unreserved_char(#[trigger] t[i]) by {
            assert(t[i] == s[i]);
        }
        law_encode_keeps_unreserved(t);
        assert(vstd::utf8::is_ascii_chars(t));
        vstd::utf8::is_ascii_chars_encode_utf8(t);
        let tb = encode_utf8(t);
        assert(bytes =~= tb.push(bytes.last()));
        lemma_percent_encode_push(tb, bytes.last());
        let c = s.last();
        let b = bytes.last();
        assert(b == c as u8);
        assert(is_unreserved(b));
        assert((b as char) == c);
        assert(s =~= t.push(c));
    } else {
        assert(bytes =~= Seq::<u8>::empty());
    }
}


/// Percent-encoding writes only unreserved characters and `%`, so an encoded
/// value never holds a `&`, `=`, `#`, space or other delimiter of the link.
pub proof fn law_encode_output_is_query_safe(bytes: Seq<u8>)
    ensures
        forall|i: int|
            0 <= i < percent_encode_seq(bytes).len() ==> is_unreserved_char(#[trigger] percent_encode_seq(bytes)[i])
                || percent_encode_seq(bytes)[i] == '%',
    decreases bytes.len(),
{
    if bytes.len() > 0 {
        let front = bytes.drop_last();
        let b = bytes.last();
        law_encode_output_is_query_safe(front);
        let pf = percent_encode_seq(front);
        let pb = percent_byte(b);
        assert(percent_encode_seq(bytes) == pf + pb);
        assert forall|j: int| 0 <= j < pb.len() implies is_unreserved_char(#[trigger] pb[j]) || pb[j] == '%' by {
            if is_unreserved(b) {
                assert(pb[j] == b as char);
            } else {
                let hi = (b / 16) as int;
                let lo = (b % 16) as int;
                assert(0 <= hi < 16 && 0 <= lo < 16);
            }
        }
        assert forall|i: int|
            0 <= i < percent_encode_seq(bytes).len() implies is_unreserved_char(
                #[trigger] percent_encode_seq(bytes)[i],
            ) || percent_encode_seq(bytes)[i] == '%' by {
            if i < pf.len() {
                assert(percent_encode_seq(bytes)[i] == pf[i]);
            } else {
                assert(percent_encode_seq(bytes)[i] == pb[i - pf.len()]);
            }
        }
    }
}

/// The value of an ASCII hexadecimal digit (`0-9`, `A-F`, `a-f`).
pub open spec fn hex_value(c: char) -> int {
    if '0' <= c <= '9' {
        c as int - 48
    } else if 'A' <= c <= 'F' {
        c as int - 55
    } else {
        c as int - 87
    }
}

/// Percent-decoding: `%HH` gives the byte `0xHH`, any other character its
/// own code. It reads from the end; on text where `%` only starts an escape
/// (all that `percent_encode_seq` writes) that agrees with reading from the
/// front.
pub open spec fn pct_decode(s: Seq<char>) -> Seq<u8>
    decreases s.len(),
{
    if s.len() == 0 {
        Seq::empty()
    } else if s.len() >= 3 && s[s.len() - 3] == '%' {
        pct_decode(s.subrange(0, s.len() - 3)).push(
            (hex_value(s[s.len() - 2]) * 16 + hex_value(s[s.len() - 1])) as u8,
        )
    } else {
        pct_decode(s.drop_last()).push(s.last() as u8)
    }
}

proof fn lemma_hex_value(d: int)
    requires
        0 <= d < 16,
    ensures
        hex_value(hex_upper(d)) == d,
{
}

/// In encoded text every `%` is followed by two more characters.
proof fn lemma_percent_starts_escape(b: Seq<u8>)
    ensures
        forall|i: int| 0 <= i < percent_encode_seq(b).len() && #[trigger] percent_encode_seq(b)[i] == '%' ==> i + 3
            <= percent_encode_seq(b).len(),
    decreases b.len(),
{
    if b.len() > 0 {
        let t = b.drop_last();
        lemma_percent_starts_escape(t);
        let pt = percent_encode_seq(t);
        let pb = percent_byte(b.last());
        assert(percent_encode_seq(b) == pt + pb);
        assert forall|i: int| 0 <= i < percent_encode_seq(b).len() && #[trigger] percent_encode_seq(b)[i] == '%' implies i
            + 3 <= percent_encode_seq(b).len() by {
            if i < pt.len() {
                assert(percent_encode_seq(b)[i] == pt[i]);
            } else {
                assert(percent_encode_seq(b)[i] == pb[i - pt.len()]);
                if is_unreserved(b.last()) {
                    assert(pb[0] == b.last() as char);
                } else {
                    let hi = (b.last() / 16) as int;
                    let lo = (b.last() % 16) as int;
                    assert(0 <= hi < 16 && 0 <= lo < 16);
                    assert(pb[1] == hex_upper(hi) && pb[2] == hex_upper(lo));
                }
            }
        }
    }
}

/// Decoding what percent-encoding wrote gives the bytes back.
pub proof fn law_encode_decode_round_trip(b: Seq<u8>)
    ensures
        pct_decode(percent_encode_seq(b)) == b,
    decreases b.len(),
{
    if b.len() > 0 {
        let t = b.drop_last();
        let x = b.last();
        law_encode_decode_round_trip(t);
        lemma_percent_starts_escape(t);
        let pt = percent_encode_seq(t);
        let s = percent_encode_seq(b);
        assert(s == pt + percent_byte(x));
        if is_unreserved(x) {
            assert(s =~= pt.push(x as char));
            if s.len() >= 3 && s[s.len() - 3] == '%' {
                assert(pt[pt.len() - 2] == '%');
            }
            assert(s.drop_last() =~= pt);
            assert((x as char) as u8 == x);
            assert(b =~= t.push(x));
        } else {
            let hi = (x / 16) as int;
            let lo = (x % 16) as int;
            lemma_hex_value(hi);
            lemma_hex_value(lo);
            assert(s[s.len() - 3] == '%');
            assert(s.subrange(0, s.len() - 3) =~= pt);
            assert(hi * 16 + lo == x);
            assert(b =~= t.push(x));
        }
    } else {
        assert(b =~= Seq::<u8>::empty());
    }
}

proof fn lemma_percent_encode_len(b: Seq<u8>)
    ensures
        percent_encode_seq(b).len() >= b.len(),
        percent_encode_seq(b).len() == b.len() ==> forall|i: int| 0 <= i < b.len() ==> is_unreserved(#[trigger] b[i]),
    decreases b.len(),
{
    if b.len() > 0 {
        let t = b.drop_last();
        lemma_percent_encode_len(t);
        assert(percent_encode_seq(b) == percent_encode_seq(t) + percent_byte(b.last()));
        assert forall|i: int| percent_encode_seq(b).len() == b.len() && 0 <= i < b.len() implies is_unreserved(
            #[trigger] b[i],
        ) by {
            if i < t.len() {
                assert(b[i] == t[i]);
            }
        }
    }
}

/// A value is written unchanged only if all its characters are unreserved.
pub proof fn law_encode_unchanged_only_if_unreserved(s: Seq<char>)
    requires
        percent_encode_seq(encode_utf8(s)) == s,
    ensures
        forall|i: int| 0 <= i < s.len() ==> is_unreserved_char(#[trigger] s[i]),
{
    let b = encode_utf8(s);
    law_encode_output_is_query_safe(b);
    assert forall|i: int| 0 <= i < s.len() implies '\0' <= #[trigger] s[i] <= '\u{7f}' by {
        assert(is_unreserved_char(percent_encode_seq(b)[i]) || percent_encode_seq(b)[i] == '%');
    }
    assert(vstd::utf8::is_ascii_chars(s));
    vstd::utf8::is_ascii_chars_encode_utf8(s);
    lemma_percent_encode_len(b);
    assert forall|i: int| 0 <= i < s.len() implies is_unreserved_char(#[trigger] s[i]) by {
        assert(s[i] as u8 == b[i]);
        assert(is_unreserved(b[i]));
        assert('\0' <= s[i] <= '\u{7f}');
    }
}

/// The query of a pairing link (the text after `?`).
pub open spec fn uri_query(host: Seq<char>, magicdns: Seq<char>, port: u16, name: Seq<char>) -> Seq<char> {
    "host="@ + host + seq!['&'] + "magicdns="@ + magicdns + seq!['&'] + "port="@ + decimal_seq(port as nat)
        + seq!['&'] + "name="@ + name
}

proof fn lemma_encoded_lacks_amp(b: Seq<u8>)
    ensures
        !percent_encode_seq(b).contains('&'),
{
    law_encode_output_is_query_safe(b);
    if percent_encode_seq(b).contains('&') {
        let k = choose|k: int| 0 <= k < percent_encode_seq(b).len() && percent_encode_seq(b)[k] == '&';
        assert(is_unreserved_char(percent_encode_seq(b)[k]) || percent_encode_seq(b)[k] == '%');
    }
}

proof fn lemma_decimal_lacks_amp(n: nat)
    ensures
        !decimal_seq(n).contains('&'),
    decreases n,
{
    if n >= 10 {
        lemma_decimal_lacks_amp(n / 10);
        let d = decimal_seq(n / 10);
        let c = crate::decimal::digit_char((n % 10) as int);
        assert(decimal_seq(n) == d.push(c));
        if decimal_seq(n).contains('&') {
            let k = choose|k: int| 0 <= k < decimal_seq(n).len() && decimal_seq(n)[k] == '&';
            if k < d.len() {
                assert(d[k] == '&');
            }
        }
    }
}

proof fn lemma_keyed_lacks_amp(key: Seq<char>, v: Seq<char>)
    requires
        !key.contains('&'),
        !v.contains('&'),
    ensures
        !(key + v).contains('&'),
{
    if (key + v).contains('&') {
        let k = choose|k: int| 0 <= k < (key + v).len() && (key + v)[k] == '&';
        if k < key.len() {
            assert(key[k] == '&');
        } else {
            assert(v[k - key.len()] == '&');
        }
    }
}

/// The pairing link is `urc://connect?` and a query that splits on `&` into
/// exactly the four pairs `host=`, `magicdns=`, `port=` and `name=`, in that
/// order; the three text values percent-decode to the UTF-8 bytes of the
/// inputs and the port is its decimal digits.
pub proof fn law_uri_query_pairs(host: Seq<char>, magicdns: Seq<char>, port: u16, name: Seq<char>)
    ensures
        ({
            let e1 = percent_encode_seq(encode_utf8(host));
            let e2 = percent_encode_seq(encode_utf8(magicdns));
            let e3 = percent_encode_seq(encode_utf8(name));
            &&& uri_seq(e1, e2, port, e3) == "urc://connect?"@ + uri_query(e1, e2, port, e3)
            &&& crate::text::split_seq(uri_query(e1, e2, port, e3), '&') == seq![
                "host="@ + e1,
                "magicdns="@ + e2,
                "port="@ + decimal_seq(port as nat),
                "name="@ + e3,
            ]
            &&& pct_decode(e1) == encode_utf8(host)
            &&& pct_decode(e2) == encode_utf8(magicdns)
            &&& pct_decode(e3) == encode_utf8(name)
        }),
{
    let e1 = percent_encode_seq(encode_utf8(host));
    let e2 = percent_encode_seq(encode_utf8(magicdns));
    let e3 = percent_encode_seq(encode_utf8(name));
    let d = decimal_seq(port as nat);
    reveal_strlit("urc://connect?host=");
    reveal_strlit("urc://connect?");
    reveal_strlit("host=");
    reveal_strlit("&magicdns=");
    reveal_strlit("magicdns=");
    reveal_strlit("&port=");
    reveal_strlit("port=");
    reveal_strlit("&name=");
    reveal_strlit("name=");
    assert(uri_seq(e1, e2, port, e3) =~= "urc://connect?"@ + uri_query(e1, e2, port, e3));
    law_encode_decode_round_trip(encode_utf8(host));
    law_encode_decode_round_trip(encode_utf8(magicdns));
    law_encode_decode_round_trip(encode_utf8(name));
    lemma_encoded_lacks_amp(encode_utf8(host));
    lemma_encoded_lacks_amp(encode_utf8(magicdns));
    lemma_encoded_lacks_amp(encode_utf8(name));
    lemma_decimal_lacks_amp(port as nat);
    let p1 = "host="@ + e1;
    let p2 = "magicdns="@ + e2;
    let p3 = "port="@ + d;
    let p4 = "name="@ + e3;
    assert(!"host="@.contains('&')) by {
        if "host="@.contains('&') {
            let k = choose|k: int| 0 <= k < "host="@.len() && "host="@[k] == '&';
        }
    }
    assert(!"magicdns="@.contains('&')) by {
        if "magicdns="@.contains('&') {
            let k = choose|k: int| 0 <= k < "magicdns="@.len() && "magicdns="@[k] == '&';
        }
    }
    assert(!"port="@.contains('&')) by {
        if "port="@.contains('&') {
            let k = choose|k: int| 0 <= k < "port="@.len() && "port="@[k] == '&';
        }
    }
    assert(!"name="@.contains('&')) by {
        if "name="@.contains('&') {
            let k = choose|k: int| 0 <= k < "name="@.len() && "name="@[k] == '&';
        }
    }
    lemma_keyed_lacks_amp("host="@, e1);
    lemma_keyed_lacks_amp("magicdns="@, e2);
    lemma_keyed_lacks_amp("port="@, d);
    lemma_keyed_lacks_amp("name="@, e3);
    let r3 = p4;
    let r2 = p3 + seq!['&'] + r3;
    let r1 = p2 + seq!['&'] + r2;
    let q = p1 + seq!['&'] + r1;
    assert(uri_query(e1, e2, port, e3) =~= q);
    let emp = Seq::<char>::empty();
    crate::text::lemma_split_at_first_sep(p1, r1, '&', emp);
    crate::text::lemma_split_at_first_sep(p2, r2, '&', emp);
    crate::text::lemma_split_at_first_sep(p3, r3, '&', emp);
    crate::text::lemma_split_without_sep(p4, '&', emp);
    assert(emp + p1 =~= p1);
    assert(emp + p2 =~= p2);
    assert(emp + p3 =~= p3);
    assert(emp + p4 =~= p4);
    assert(crate::text::split_seq(q, '&') =~= seq![p1, p2, p3, p4]);
}

// ---------------------------------------------------------------------
// The pairing link of this machine
// ---------------------------------------------------------------------

/// What the `qrcode` crate renders for the text `data`: the code chosen by
/// `QrCode::new` (smallest version at error-correction level M), drawn with
/// `Dense1x2` half-blocks in inverted colours with the quiet zone; `None`
/// when the data fits in no QR version.
pub uninterp spec fn qr_dense_text(data: Seq<char>) -> Option<Seq<char>>;

/// Calls `qrcode::QrCode::new` on the bytes of `data` and renders the code
/// with `Renderer::<unicode::Dense1x2>` (dark and light swapped, quiet zone
/// on). Claimed: the result is `qr_dense_text(data)`, a function of the text
/// alone; `None` exactly when `QrCode::new` returns an error.
#[verifier::external_body]
fn render_qr(data: &str) -> (r: Option<String>)
    ensures
        opt_view(r) == qr_dense_text(data@),
{
    match qrcode::QrCode::new(data.as_bytes()) {
        Ok(code) => Some(
            code.render::<qrcode::render::unicode::Dense1x2>()
                .dark_color(qrcode::render::unicode::Dense1x2::Light)
                .light_color(qrcode::render::unicode::Dense1x2::Dark)
                .quiet_zone(true)
                .build(),
        ),
        Err(_) => None,
    }
}

/// The tailnet IPv4 of `Self` (see `self_ipv4`).
pub open spec fn status_self_ipv4(st: TailscaleStatus) -> Option<Seq<char>> {
    match st.self_node {
        Some(n) => node_ipv4(n),
        None => None,
    }
}

/// The MagicDNS name of `Self` without trailing dots (see `self_dns_name`).
pub open spec fn status_self_dns(st: TailscaleStatus) -> Option<Seq<char>> {
    match st.self_node {
        Some(n) => match n.dns_name {
            Some(d) => if trim_end_char_seq(d@, '.').len() > 0 {
                Some(trim_end_char_seq(d@, '.'))
            } else {
                None
            },
            None => None,
        },
        None => None,
    }
}

/// Why no pairing link could be made.
#[derive(Debug)]
pub enum ShareError {
    /// The local Tailscale daemon cannot reach the tailnet.
    Tailscale(TailscaleError),
    /// `Self` has no tailnet IPv4.
    NoIpv4,
    /// `Self` has no MagicDNS name.
    NoMagicDns,
    /// The link does not fit in a QR code.
    QrEncode,
}

pub open spec fn no_ipv4_text() -> Seq<char> {
    "this machine has no tailnet IPv4 — run: tailscale up"@
}

pub open spec fn no_magicdns_text() -> Seq<char> {
    "this machine has no MagicDNS name — is MagicDNS enabled on your tailnet?"@
}

impl ShareError {
    pub open spec fn text(&self) -> Seq<char> {
        match self {
            ShareError::Tailscale(e) => e.text(),
            ShareError::NoIpv4 => no_ipv4_text(),
            ShareError::NoMagicDns => no_magicdns_text(),
            ShareError::QrEncode => "encode pairing QR code"@,
        }
    }

    /// The message shown to the user.
    pub fn message(&self) -> (m: String)
        ensures
            m@ == self.text(),
    {
        match self {
            ShareError::Tailscale(e) => e.message(),
            ShareError::NoIpv4 => String::from_str("this machine has no tailnet IPv4 — run: tailscale up"),
            ShareError::NoMagicDns => String::from_str(
                "this machine has no MagicDNS name — is MagicDNS enabled on your tailnet?",
            ),
            ShareError::QrEncode => String::from_str("encode pairing QR code"),
        }
    }
}

/// The deep link and its QR rendering.
#[derive(Debug)]
pub struct PairingLink {
    pub uri: String,
    pub qr: String,
}

/// The pairing link of this machine as the status document describes it,
/// named `name`, on the web TLS port.
pub open spec fn pairing_uri(host: Seq<char>, magicdns: Seq<char>, name: Seq<char>) -> Seq<char> {
    uri_seq(
        percent_encode_seq(encode_utf8(host)),
        percent_encode_seq(encode_utf8(magicdns)),
        DEFAULT_WEB_TLS_PORT,
        percent_encode_seq(encode_utf8(name)),
    )
}

/// The link that pairs a client with this machine: checks that Tailscale is
/// running here, takes `Self`'s IPv4 and MagicDNS name, assembles the URI and
/// renders it as a QR code.
pub fn pairing_link(status: &TailscaleStatus, name: &str) -> (r: Result<PairingLink, ShareError>)
    ensures
        backend_state_spec(*status) != "Running"@ ==> (r matches Err(
            ShareError::Tailscale(TailscaleError::NotConnected { state }),
        ) && state@ == backend_state_spec(*status)),
        backend_state_spec(*status) == "Running"@ && self_flagged_offline(*status) ==> r matches Err(
            ShareError::Tailscale(TailscaleError::SelfOffline),
        ),
        backend_state_spec(*status) == "Running"@ && !self_flagged_offline(*status) ==> match (
            status_self_ipv4(*status),
            status_self_dns(*status),
        ) {
            (None, _) => r matches Err(ShareError::NoIpv4),
            (Some(_), None) => r matches Err(ShareError::NoMagicDns),
            (Some(host), Some(dns)) => match qr_dense_text(pairing_uri(host, dns, name@)) {
                None => r matches Err(ShareError::QrEncode),
                Some(q) => r matches Ok(l) && l.uri@ == pairing_uri(host, dns, name@) && l.qr@ == q,
            },
        },
{
    match ensure_local_running(status) {
        Ok(()) => {},
        Err(e) => return Err(ShareError::Tailscale(e)),
    }
    let host = match self_ipv4(status) {
        Some(h) => h,
        None => return Err(ShareError::NoIpv4),
    };
    let magicdns = match self_dns_name(status) {
        Some(d) => d,
        None => return Err(ShareError::NoMagicDns),
    };
    let uri = build_uri(host.as_str(), magicdns.as_str(), DEFAULT_WEB_TLS_PORT, name);
    match render_qr(uri.as_str()) {
        Some(qr) => Ok(PairingLink { uri, qr }),
        None => Err(ShareError::QrEncode),
    }
}

} // verus!
