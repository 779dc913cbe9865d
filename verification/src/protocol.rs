//! Shared protocol types: well-known ports, agent configuration, and the
//! messages exchanged with the coordinator. Session identifiers are the
//! 128-bit value of a UUID.

use vstd::prelude::*;
use crate::decimal::{decimal_seq, push_decimal};
use vstd::string::*;
use base64::Engine;
use vstd::utf8::encode_utf8;

verus! {

pub const DEFAULT_COORDINATOR_PORT: u16 = 21150;

pub const DEFAULT_RELAY_VNC_PORT: u16 = 15900;

pub const DEFAULT_FILES_PORT: u16 = 15901;

pub const DEFAULT_TLS_LISTEN_PORT: u16 = 15900;

/// External TLS port for the unified web UI (noVNC + files + future panels).
pub const DEFAULT_WEB_TLS_PORT: u16 = 15901;

/// Internal localhost port the web server binds on; only the TLS tunnel reaches it.
pub const DEFAULT_WEB_INTERNAL_PORT: u16 = 16080;

/// Which local service a relayed tunnel reaches.
#[derive(Debug, Clone, Copy, PartialEq, Eq, Structural)]
pub enum TunnelTarget {
    Vnc,
    Files,
}

/// How a client reaches an agent.
#[derive(Debug, Clone, Copy, PartialEq, Eq, Structural)]
pub enum RelayMode {
    Direct,
    Relayed,
}

#[derive(Debug, Clone, Copy, PartialEq, Eq, Structural)]
pub enum EncryptionMode {
    Tls,
    /// No TLS (LAN only).
    Unencrypted,
}

impl Default for EncryptionMode {
    fn default() -> (m: Self)
        ensures
            m == EncryptionMode::Tls,
    {
        EncryptionMode::Tls
    }
}

#[derive(Debug, Clone, Copy, PartialEq, Eq, Structural)]
pub enum BackendPreference {
    Auto,
    X11,
    Gnome,
    Wayvnc,
}

impl Default for BackendPreference {
    fn default() -> (p: Self)
        ensures
            p == BackendPreference::Auto,
    {
        BackendPreference::Auto
    }
}

impl BackendPreference {
    pub open spec fn debug_text(self) -> Seq<char> {
        match self {
            BackendPreference::Auto => "Auto"@,
            BackendPreference::X11 => "X11"@,
            BackendPreference::Gnome => "Gnome"@,
            BackendPreference::Wayvnc => "Wayvnc"@,
        }
    }

    /// The variant's name, as `{:?}` renders it.
    pub fn debug_name(&self) -> (s: String)
        ensures
            s@ == self.debug_text(),
    {
        match self {
            BackendPreference::Auto => String::from_str("Auto"),
            BackendPreference::X11 => String::from_str("X11"),
            BackendPreference::Gnome => String::from_str("Gnome"),
            BackendPreference::Wayvnc => String::from_str("Wayvnc"),
        }
    }
}

#[derive(Debug, Clone, Copy)]
pub struct TailscaleConfig {
    pub enabled: bool,
    pub prefer_direct: bool,
}

impl Default for TailscaleConfig {
    fn default() -> (c: Self)
        ensures
            !c.enabled && !c.prefer_direct,
    {
        TailscaleConfig { enabled: false, prefer_direct: false }
    }
}

/// Agent configuration (`/etc/urc/agent.toml`).
#[derive(Debug)]
pub struct AgentConfig {
    pub host_id: Option<String>,
    pub token: Option<String>,
    pub coordinator_url: String,
    pub listen_tls_port: u16,
    pub listen_web_tls_port: u16,
    pub vnc_password_file: Option<String>,
    pub encryption: EncryptionMode,
    pub insecure: bool,
    pub tailscale: TailscaleConfig,
    pub files_root: Option<String>,
    pub backend: BackendPreference,
}

/// The web TLS port a configuration without one uses.
pub fn default_web_tls_port() -> (p: u16)
    ensures
        p == DEFAULT_WEB_TLS_PORT,
{
    DEFAULT_WEB_TLS_PORT
}

pub open spec fn opt_view(o: Option<String>) -> Option<Seq<char>> {
    match o {
        Some(s) => Some(s@),
        None => None,
    }
}

pub fn copy_opt(o: &Option<String>) -> (r: Option<String>)
    ensures
        opt_view(r) == opt_view(*o),
{
    match o {
        Some(s) => Some(s.clone()),
        None => None,
    }
}

impl AgentConfig {
    /// A field-by-field copy.
    pub fn duplicate(&self) -> (c: AgentConfig)
        ensures
            opt_view(c.host_id) == opt_view(self.host_id),
            opt_view(c.token) == opt_view(self.token),
            c.coordinator_url@ == self.coordinator_url@,
            c.listen_tls_port == self.listen_tls_port,
            c.listen_web_tls_port == self.listen_web_tls_port,
            opt_view(c.vnc_password_file) == opt_view(self.vnc_password_file),
            c.encryption == self.encryption,
            c.insecure == self.insecure,
            c.tailscale == self.tailscale,
            opt_view(c.files_root) == opt_view(self.files_root),
            c.backend == self.backend,
    {
        AgentConfig {
            host_id: copy_opt(&self.host_id),
            token: copy_opt(&self.token),
            coordinator_url: self.coordinator_url.clone(),
            listen_tls_port: self.listen_tls_port,
            listen_web_tls_port: self.listen_web_tls_port,
            vnc_password_file: copy_opt(&self.vnc_password_file),
            encryption: self.encryption,
            insecure: self.insecure,
            tailscale: self.tailscale,
            files_root: copy_opt(&self.files_root),
            backend: self.backend,
        }
    }
}

impl Default for AgentConfig {
    fn default() -> (c: Self)
        ensures
            c.host_id is None,
            c.token is None,
            c.coordinator_url@ == "wss://127.0.0.1:"@ + decimal_seq(DEFAULT_COORDINATOR_PORT as nat),
            c.listen_tls_port == DEFAULT_TLS_LISTEN_PORT,
            c.listen_web_tls_port == DEFAULT_WEB_TLS_PORT,
            opt_view(c.vnc_password_file) == Some("/etc/urc/vncpasswd"@),
            c.encryption == EncryptionMode::Tls,
            !c.insecure,
            !c.tailscale.enabled && !c.tailscale.prefer_direct,
            opt_view(c.files_root) == Some("/home"@),
            c.backend == BackendPreference::Auto,
    {
        let mut url = String::from_str("wss://127.0.0.1:");
        push_decimal(&mut url, DEFAULT_COORDINATOR_PORT as u64);
        AgentConfig {
            host_id: None,
            token: None,
            coordinator_url: url,
            listen_tls_port: DEFAULT_TLS_LISTEN_PORT,
            listen_web_tls_port: DEFAULT_WEB_TLS_PORT,
            vnc_password_file: Some(String::from_str("/etc/urc/vncpasswd")),
            encryption: EncryptionMode::Tls,
            insecure: false,
            tailscale: TailscaleConfig { enabled: false, prefer_direct: false },
            files_root: Some(String::from_str("/home")),
            backend: BackendPreference::Auto,
        }
    }
}

// ---------------------------------------------------------------------
// Messages
// ---------------------------------------------------------------------

/// Messages an agent sends to the coordinator (and tunnel frames).
#[derive(Debug)]
pub enum AgentMessage {
    Register {
        host_id: String,
        token: String,
        tailscale_ip: Option<String>,
        vnc_local_port: u16,
        files_local_port: u16,
    },
    Heartbeat { host_id: String },
    TunnelReady { session_id: u128, target: TunnelTarget },
    TunnelData { session_id: u128, target: TunnelTarget, data: Vec<u8> },
    TunnelClose { session_id: u128, target: TunnelTarget },
}

/// Messages a client sends to the coordinator.
#[derive(Debug)]
pub enum ClientMessage {
    Connect { host_id: String, token: String },
    Disconnect { session_id: u128 },
}

/// Messages the coordinator sends.
#[derive(Debug)]
pub enum CoordinatorMessage {
    Registered { host_id: String },
    ConnectOk { session_id: u128, relay_mode: RelayMode },
    ConnectErr { reason: String },
    RelayHint { session_id: u128, coordinator_addr: String },
    Error { message: String },
}

/// The local port a relayed tunnel to `target` connects to.
pub fn tunnel_target_port(target: TunnelTarget, vnc_port: u16) -> (p: u16)
    ensures
        target == TunnelTarget::Vnc ==> p == vnc_port,
        target == TunnelTarget::Files ==> p == DEFAULT_FILES_PORT,
{
    match target {
        TunnelTarget::Vnc => vnc_port,
        TunnelTarget::Files => DEFAULT_FILES_PORT,
    }
}

// ---------------------------------------------------------------------
// Tunnel payload encoding (standard Base64 with padding)
// ---------------------------------------------------------------------

/// The character for a 6-bit value in the standard Base64 alphabet
/// (RFC 4648, table 1).
pub open spec fn base64_char(v: int) -> char {
    if v < 26 {
        ('A' as int + v) as char
    } else if v < 52 {
        ('a' as int + (v - 26)) as char
    } else if v < 62 {
        ('0' as int + (v - 52)) as char
    } else if v == 62 {
        '+'
    } else {
        '/'
    }
}

/// Standard Base64 with padding (RFC 4648, section 4): each group of three
/// bytes becomes four characters; a last group of one or two bytes is
/// padded with `=`.
pub open spec fn base64_standard_encoding(b: Seq<u8>) -> Seq<char>
    decreases b.len(),
{
    if b.len() == 0 {
        Seq::empty()
    } else if b.len() == 1 {
        let x = b[0] as int;
        seq![base64_char(x / 4), base64_char((x % 4) * 16), '=', '=']
    } else if b.len() == 2 {
        let (x, y) = (b[0] as int, b[1] as int);
        seq![base64_char(x / 4), base64_char((x % 4) * 16 + y / 16), base64_char((y % 16) * 4), '=']
    } else {
        let (x, y, z) = (b[0] as int, b[1] as int, b[2] as int);
        seq![
            base64_char(x / 4),
            base64_char((x % 4) * 16 + y / 16),
            base64_char((y % 16) * 4 + z / 64),
            base64_char(z % 64),
        ] + base64_standard_encoding(b.subrange(3, b.len() as int))
    }
}

/// What `STANDARD.decode` returns for this input: the bytes whose standard
/// padded encoding the input is, or `None` when it is no such encoding (the
/// engine requires canonical padding and rejects set trailing bits, so
/// nothing else decodes).
pub open spec fn base64_standard_decoding(text: Seq<u8>) -> Option<Seq<u8>> {
    if exists|b: Seq<u8>| encode_utf8(#[trigger] base64_standard_encoding(b)) == text {
        Some(choose|b: Seq<u8>| encode_utf8(#[trigger] base64_standard_encoding(b)) == text)
    } else {
        None
    }
}

proof fn lemma_base64_char_injective(v: int, w: int)
    requires
        0 <= v < 64,
        0 <= w < 64,
        base64_char(v) == base64_char(w),
    ensures
        v == w,
{
    assert(base64_char(v) as int == base64_char(w) as int);
}

proof fn lemma_base64_char_not_pad(v: int)
    requires
        0 <= v < 64,
    ensures
        base64_char(v) != '=',
{
    assert(base64_char(v) as int != '=' as int);
}

proof fn lemma_base64_head(b: Seq<u8>)
    requires
        b.len() > 0,
    ensures
        base64_standard_encoding(b).len() >= 4,
        b.len() == 1 <==> base64_standard_encoding(b)[2] == '=',
        b.len() <= 2 <==> base64_standard_encoding(b)[3] == '=',
        b.len() <= 2 ==> base64_standard_encoding(b).len() == 4,
        base64_char(b[0] as int / 4) == base64_standard_encoding(b)[0],
{
    let x = b[0] as int;
    lemma_base64_char_not_pad(x / 4);
    if b.len() == 1 {
        lemma_base64_char_not_pad((x % 4) * 16);
    } else if b.len() == 2 {
        let y = b[1] as int;
        lemma_base64_char_not_pad((x % 4) * 16 + y / 16);
        lemma_base64_char_not_pad((y % 16) * 4);
    } else {
        let (y, z) = (b[1] as int, b[2] as int);
        lemma_base64_char_not_pad((x % 4) * 16 + y / 16);
        lemma_base64_char_not_pad((y % 16) * 4 + z / 64);
        lemma_base64_char_not_pad(z % 64);
    }
}

/// Different bytes never share a standard Base64 encoding.
proof fn lemma_base64_encoding_injective(a: Seq<u8>, b: Seq<u8>)
    requires
        base64_standard_encoding(a) == base64_standard_encoding(b),
    ensures
        a == b,
    decreases a.len(),
{
    if a.len() == 0 || b.len() == 0 {
        if a.len() != 0 {
            lemma_base64_head(a);
        }
        if b.len() != 0 {
            lemma_base64_head(b);
        }
        assert(a =~= b);
    } else {
        lemma_base64_head(a);
        lemma_base64_head(b);
        let (ea, eb) = (base64_standard_encoding(a), base64_standard_encoding(b));
        let (x, x2) = (a[0] as int, b[0] as int);
        assert(ea[0] == eb[0] && ea[1] == eb[1] && ea[2] == eb[2] && ea[3] == eb[3]);
        lemma_base64_char_injective(x / 4, x2 / 4);
        if a.len() == 1 {
            lemma_base64_char_injective((x % 4) * 16, (x2 % 4) * 16);
            assert(x == x2);
            assert(a =~= b);
        } else if a.len() == 2 {
            let (y, y2) = (a[1] as int, b[1] as int);
            lemma_base64_char_injective((x % 4) * 16 + y / 16, (x2 % 4) * 16 + y2 / 16);
            lemma_base64_char_injective((y % 16) * 4, (y2 % 16) * 4);
            assert(x == x2 && y == y2);
            assert(a =~= b);
        } else {
            let (y, y2) = (a[1] as int, b[1] as int);
            let (z, z2) = (a[2] as int, b[2] as int);
            lemma_base64_char_injective((x % 4) * 16 + y / 16, (x2 % 4) * 16 + y2 / 16);
            lemma_base64_char_injective((y % 16) * 4 + z / 64, (y2 % 16) * 4 + z2 / 64);
            lemma_base64_char_injective(z % 64, z2 % 64);
            assert(x == x2 && y == y2 && z == z2);
            let (ra, rb) = (a.subrange(3, a.len() as int), b.subrange(3, b.len() as int));
            assert(base64_standard_encoding(ra) =~= ea.subrange(4, ea.len() as int));
            assert(base64_standard_encoding(rb) =~= eb.subrange(4, eb.len() as int));
            lemma_base64_encoding_injective(ra, rb);
            assert(a.len() == b.len());
            assert forall|i: int| 0 <= i < a.len() implies a[i] == b[i] by {
                if i >= 3 {
                    assert(ra[i - 3] == rb[i - 3]);
                }
            }
            assert(a =~= b);
        }
    }
}

/// Decoding the standard encoding of some bytes gives those bytes back.
pub proof fn law_base64_round_trip(b: Seq<u8>)
    ensures
        base64_standard_decoding(encode_utf8(base64_standard_encoding(b))) == Some(b),
{
    let t = encode_utf8(base64_standard_encoding(b));
    assert(encode_utf8(base64_standard_encoding(b)) == t);
    let c = choose|c: Seq<u8>| encode_utf8(#[trigger] base64_standard_encoding(c)) == t;
    vstd::utf8::encode_utf8_decode_utf8(base64_standard_encoding(b));
    vstd::utf8::encode_utf8_decode_utf8(base64_standard_encoding(c));
    lemma_base64_encoding_injective(c, b);
}

#[verifier::external_type_specification]
#[verifier::external_body]
pub struct ExDecodeError(base64::DecodeError);

/// `STANDARD.encode` (base64 crate). Contract: the result is the standard
/// padded Base64 of `bytes` (the crate's `STANDARD` engine: RFC 4648
/// alphabet, padding on). The crate panics when the output length
/// overflows `usize`; the bound on the input excludes that.
#[verifier::external_body]
fn base64_encode(bytes: &[u8]) -> (s: String)
    requires
        bytes@.len() <= usize::MAX / 2,
    ensures
        s@ == base64_standard_encoding(bytes@),
{
    base64::engine::general_purpose::STANDARD.encode(bytes)
}

/// `STANDARD.decode` (base64 crate). Contract: `Ok` exactly when the input
/// is the standard padded encoding of some bytes, with those bytes
/// ([`base64_standard_decoding`]).
#[verifier::external_body]
fn base64_decode(text: &[u8]) -> (r: Result<Vec<u8>, base64::DecodeError>)
    ensures
        match r {
            Ok(v) => base64_standard_decoding(text@) == Some(v@),
            Err(_) => base64_standard_decoding(text@) is None,
        },
{
    base64::engine::general_purpose::STANDARD.decode(text)
}

/// A tunnel payload that is not valid Base64.
#[derive(Debug, Clone, Copy, PartialEq, Eq, Structural)]
pub enum PayloadError {
    InvalidBase64,
}

/// The wire text of a tunnel payload (`TunnelData.data`).
pub fn encode_payload(bytes: &Vec<u8>) -> (s: String)
    requires
        bytes@.len() <= usize::MAX / 2,
    ensures
        s@ == base64_standard_encoding(bytes@),
        base64_standard_decoding(encode_utf8(s@)) == Some(bytes@),
{
    proof {
        law_base64_round_trip(bytes@);
    }
    base64_encode(bytes.as_slice())
}

/// The bytes of a tunnel payload from its wire text.
pub fn decode_payload(text: &str) -> (r: Result<Vec<u8>, PayloadError>)
    ensures
        match base64_standard_decoding(encode_utf8(text@)) {
            Some(b) => r matches Ok(v) && v@ == b,
            None => r == Err::<Vec<u8>, PayloadError>(PayloadError::InvalidBase64),
        },
{
    match base64_decode(text.as_bytes()) {
        Ok(v) => Ok(v),
        Err(_) => Err(PayloadError::InvalidBase64),
    }
}

} // verus!
