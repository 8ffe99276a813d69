//! VLC driven through its HTTP interface: its configuration, and the estimate of a
//! media's length from the coarse figures VLC reports.
use vstd::prelude::*;
use vstd::string::StringExecFns;
use vstd::utf8::encode_utf8;
use crate::net::{addr_port, decimal, is_loopback_addr, socket_text, NetAddr, NetAddrV4};
use crate::strings::push_digits;
use crate::protocols::sync::PlayerState;

verus! {

/// The character of a six-bit value in the standard base64 alphabet: `A`-`Z`, `a`-`z`,
/// `0`-`9`, `+`, `/`.
pub open spec fn base64_char(v: nat) -> char {
    if v < 26 {
        ('A' as nat + v) as char
    } else if v < 52 {
        ('a' as nat + v - 26) as char
    } else if v < 62 {
        ('0' as nat + v - 52) as char
    } else if v == 62 {
        '+'
    } else {
        '/'
    }
}

/// The standard base64 encoding (RFC 4648 alphabet, `=` padding) of `data`: each group
/// of three bytes gives four characters of six bits each; a last group of one or two
/// bytes is padded with zero bits and `=`.
pub open spec fn base64_standard(data: Seq<u8>) -> Seq<char>
    decreases data.len(),
{
    if data.len() == 0 {
        Seq::empty()
    } else if data.len() == 1 {
        let a = data[0] as nat;
        seq![base64_char(a / 4), base64_char((a % 4) * 16), '=', '=']
    } else if data.len() == 2 {
        let a = data[0] as nat;
        let b = data[1] as nat;
        seq![base64_char(a / 4), base64_char((a % 4) * 16 + b / 16), base64_char((b % 16) * 4), '=']
    } else {
        let a = data[0] as nat;
        let b = data[1] as nat;
        let c = data[2] as nat;
        seq![
            base64_char(a / 4),
            base64_char((a % 4) * 16 + b / 16),
            base64_char((b % 16) * 4 + c / 64),
            base64_char(c % 64),
        ] + base64_standard(data.skip(3))
    }
}

/// Calls `base64::encode_config_buf` with `base64::STANDARD`, which appends the standard
/// base64 encoding of `data` to `buf`.
#[verifier::external_body]
fn append_base64(buf: &mut String, data: &[u8])
    ensures
        final(buf)@ == old(buf)@ + base64_standard(data@),
{
    base64::encode_config_buf(data, base64::STANDARD, buf)
}

/// Where VLC's HTTP interface listens and the password it asks for.
#[derive(Clone, Eq, PartialEq, Debug)]
pub struct HttpConfig {
    pub bind_addr: NetAddr,
    pub password: String,
}

/// The address VLC's HTTP interface listens on by default: 127.0.0.1, port 9090.
pub open spec fn default_bind_addr() -> NetAddr {
    NetAddr::V4(NetAddrV4 { ip: 0x7f00_0001, port: 9090 })
}

/// The value of the `Authorization` header for a password: basic authentication with an
/// empty user name.
pub open spec fn authorization_for(password: Seq<char>) -> Seq<char> {
    "Basic "@ + base64_standard(seq![58u8] + encode_utf8(password))
}

/// The address of VLC's status page: `localhost` and the port for a loopback address,
/// the address's usual text otherwise.
pub open spec fn status_url_for(addr: NetAddr) -> Seq<char> {
    if is_loopback_addr(addr) {
        "http://localhost:"@ + decimal(addr_port(addr) as nat) + "/requests/status.json"@
    } else {
        "http://"@ + socket_text(addr) + "/requests/status.json"@
    }
}

impl HttpConfig {
    /// The `Authorization` header that VLC expects.
    pub fn authorization_header(&self) -> (r: String)
        ensures
            r@ == authorization_for(self.password@),
    {
        let mut r = "Basic ".to_owned();
        let password = self.password.as_str();
        let bytes = password.as_bytes();
        let mut auth: Vec<u8> = Vec::new();
        auth.push(58);
        let n = bytes.len();
        let mut i: usize = 0;
        while i < n
            invariant
                i <= n,
                n == bytes@.len(),
                auth@ == seq![58u8] + bytes@.take(i as int),
            decreases n - i,
        {
            auth.push(bytes[i]);
            assert(bytes@.take(i + 1) =~= bytes@.take(i as int).push(bytes@[i as int]));
            i = i + 1;
        }
        assert(bytes@.take(n as int) =~= bytes@);
        proof {
            reveal_strlit("Basic ");
        }
        append_base64(&mut r, auth.as_slice());
        r
    }

    /// The address of VLC's status page.
    pub fn status_url(&self) -> (r: String)
        ensures
            r@ == status_url_for(self.bind_addr),
    {
        let mut r = "http://".to_owned();
        if self.bind_addr.is_loopback() {
            r.append("localhost:");
            push_digits(&mut r, self.bind_addr.port() as u64, 10);
        } else {
            let text = self.bind_addr.text();
            r.append(text.as_str());
        }
        r.append("/requests/status.json");
        proof {
            reveal_strlit("http://");
            reveal_strlit("localhost:");
            reveal_strlit("http://localhost:");
        }
        assert(r@ =~= status_url_for(self.bind_addr));
        r
    }
}

impl Default for HttpConfig {
    fn default() -> (r: Self)
        ensures
            r.bind_addr == default_bind_addr(),
            r.password@ == "vlcsynchttppass"@,
    {
        HttpConfig {
            bind_addr: NetAddr::V4(NetAddrV4 { ip: 0x7f00_0001, port: 9090 }),
            password: "vlcsynchttppass".to_owned(),
        }
    }
}

/// The play state named by the `state` field of VLC's status: `playing`, or `paused` and
/// `stopped`; none for anything else.
pub open spec fn json_state(raw: Seq<char>) -> Option<PlayerState> {
    if raw == "playing"@ {
        Some(PlayerState::Playing)
    } else if raw == "paused"@ || raw == "stopped"@ {
        Some(PlayerState::Paused)
    } else {
        None
    }
}

/// The play state named by the `state` field of VLC's status.
pub fn parse_json_state(raw: &str) -> (r: Option<PlayerState>)
    ensures
        r == json_state(raw@),
{
    let given = raw.to_owned();
    let playing = "playing".to_owned();
    let paused = "paused".to_owned();
    let stopped = "stopped".to_owned();
    if given == playing {
        Some(PlayerState::Playing)
    } else if given == paused || given == stopped {
        Some(PlayerState::Paused)
    } else {
        None
    }
}

/// The list that offers VLC players driven over HTTP.
pub struct VlcHttpList {}

impl VlcHttpList {
    pub fn new() -> (r: Self) {
        VlcHttpList {  }
    }

    /// Whether a new VLC subprocess is offered: always.
    pub fn should_offer_subprocess(&self) -> (r: bool)
        ensures
            r,
    {
        true
    }

    /// The configurations of VLC instances already running: none are looked for.
    pub fn existing_configs(&mut self) -> (r: Vec<HttpConfig>)
        ensures
            r@.len() == 0,
    {
        Vec::new()
    }
}

/// What is known of a media's length: VLC reports it in whole seconds, and the true
/// length lies between `min_error` and `max_error` milliseconds above that.
#[derive(Copy, Clone, Eq, PartialEq, Structural, Debug)]
pub struct LengthEstimator {
    pub reported_length: u64,
    pub min_error: u16,
    pub max_error: u16,
}

/// The estimate with nothing known beyond the reported length.
pub open spec fn fresh_estimate(reported_length: u64) -> LengthEstimator {
    LengthEstimator { reported_length, min_error: 0, max_error: 1000 }
}

/// The estimate once a sample for a media reported as `reported_length` seconds bounds
/// the error between `sample_min` and `sample_max`: a new reported length starts
/// afresh, and the bounds narrow to both.
pub open spec fn narrowed(e: LengthEstimator, reported_length: u64, sample_min: u16, sample_max: u16) -> LengthEstimator {
    let base = if reported_length != e.reported_length {
        fresh_estimate(reported_length)
    } else {
        e
    };
    LengthEstimator {
        reported_length: base.reported_length,
        min_error: if sample_min > base.min_error {
            sample_min
        } else {
            base.min_error
        },
        max_error: if sample_max < base.max_error {
            sample_max
        } else {
            base.max_error
        },
    }
}

impl LengthEstimator {
    /// Nothing known yet.
    pub fn new() -> (r: Self)
        ensures
            r == fresh_estimate(0),
    {
        LengthEstimator { reported_length: 0, min_error: 0, max_error: 1000 }
    }

    /// The shortest length the media may have, in milliseconds.
    pub fn min_length_millis(&self) -> (r: u64)
        requires
            self.reported_length * 1000 + self.min_error <= u64::MAX,
        ensures
            r == self.reported_length * 1000 + self.min_error,
    {
        self.reported_length * 1000 + self.min_error as u64
    }

    /// The longest length the media may have, in milliseconds.
    pub fn max_length_millis(&self) -> (r: u64)
        requires
            self.reported_length * 1000 + self.max_error <= u64::MAX,
        ensures
            r == self.reported_length * 1000 + self.max_error,
    {
        self.reported_length * 1000 + self.max_error as u64
    }

    /// Forgets the bounds learned so far.
    pub fn reset(&mut self)
        ensures
            *final(self) == fresh_estimate(old(self).reported_length),
    {
        self.min_error = 0;
        self.max_error = 1000;
    }

    /// Takes the error bounds of one sample into account; the bounds must still agree
    /// afterwards.
    pub fn push_bounds(&mut self, reported_length: u64, sample_min: u16, sample_max: u16)
        requires
            narrowed(*old(self), reported_length, sample_min, sample_max).min_error <= narrowed(
                *old(self),
                reported_length,
                sample_min,
                sample_max,
            ).max_error,
        ensures
            *final(self) == narrowed(*old(self), reported_length, sample_min, sample_max),
    {
        if reported_length != self.reported_length {
            self.reset();
            self.reported_length = reported_length;
        }
        if sample_min > self.min_error {
            self.min_error = sample_min;
        }
        if sample_max < self.max_error {
            self.max_error = sample_max;
        }
    }
}

impl Default for LengthEstimator {
    fn default() -> (r: Self)
        ensures
            r == fresh_estimate(0),
    {
        Self::new()
    }
}

/// The bounds only ever narrow while the reported length stays the same.
pub proof fn lemma_bounds_narrow(e: LengthEstimator, sample_min: u16, sample_max: u16)
    ensures
        narrowed(e, e.reported_length, sample_min, sample_max).min_error >= e.min_error,
        narrowed(e, e.reported_length, sample_min, sample_max).max_error <= e.max_error,
{
}

} // verus!
