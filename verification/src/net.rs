use vstd::prelude::*;

verus! {

#[verifier::external_type_specification]
#[verifier::external_body]
pub struct ExReqwestClient(reqwest::Client);

/// Calls `reqwest::Client::builder().timeout(..).build()` with a timeout of `timeout_seconds`.
/// Whether the build succeeds depends on the machine (its TLS backend and system settings), so
/// nothing is stated of the result; the client itself is opaque.
#[verifier::external_body]
pub(crate) fn build_client(timeout_seconds: u64) -> (r: Result<reqwest::Client, String>) {
    reqwest::Client::builder().timeout(std::time::Duration::from_secs(timeout_seconds)).build().map_err(
        |err| err.to_string(),
    )
}


/// The parts of a parsed URL that the tools read: scheme, host (if any) and serialization.
pub struct UrlParts {
    pub scheme: String,
    pub host: Option<String>,
    pub serialized: String,
}

/// What `reqwest::Url::parse` gives for `input`: the URL's scheme, host and serialization,
/// or the message of its parse error.
pub uninterp spec fn url_parse(input: Seq<char>) -> Result<
    (Seq<char>, Option<Seq<char>>, Seq<char>),
    Seq<char>,
>;

/// The plain view of a parse result.
pub open spec fn url_parts_view(r: Result<UrlParts, String>) -> Result<
    (Seq<char>, Option<Seq<char>>, Seq<char>),
    Seq<char>,
> {
    match r {
        Ok(p) => Ok(
            (
                p.scheme@,
                match p.host {
                    Some(h) => Some(h@),
                    None => None,
                },
                p.serialized@,
            ),
        ),
        Err(e) => Err(e@),
    }
}

/// Calls `reqwest::Url::parse` and reads `scheme`, `host_str` and `as_str` of the result.
#[verifier::external_body]
pub(crate) fn parse_url(input: &str) -> (r: Result<UrlParts, String>)
    ensures
        url_parts_view(r) == url_parse(input@),
{
    match reqwest::Url::parse(input) {
        Ok(url) => Ok(
            UrlParts {
                scheme: url.scheme().to_string(),
                host: url.host_str().map(|h| h.to_string()),
                serialized: url.as_str().to_string(),
            },
        ),
        Err(err) => Err(err.to_string()),
    }
}

/// An IP address: four octets, or eight 16-bit segments.
#[derive(Debug, Clone, Copy, PartialEq, Eq, Structural)]
pub enum IpValue {
    V4(u8, u8, u8, u8),
    V6(u16, u16, u16, u16, u16, u16, u16, u16),
}

/// What `str::parse::<core::net::IpAddr>` gives for `s`.
pub uninterp spec fn ip_parse(s: Seq<char>) -> Option<IpValue>;

/// Calls `str::parse::<core::net::IpAddr>`.
#[verifier::external_body]
pub(crate) fn parse_ip(s: &str) -> (r: Option<IpValue>)
    ensures
        r == ip_parse(s@),
{
    match s.parse::<core::net::IpAddr>() {
        Ok(core::net::IpAddr::V4(v4)) => {
            let o = v4.octets();
            Some(IpValue::V4(o[0], o[1], o[2], o[3]))
        },
        Ok(core::net::IpAddr::V6(v6)) => {
            let g = v6.segments();
            Some(IpValue::V6(g[0], g[1], g[2], g[3], g[4], g[5], g[6], g[7]))
        },
        Err(_) => None,
    }
}

/// An address that must not be fetched: private, loopback, link-local, broadcast,
/// documentation or unspecified IPv4; loopback, unspecified, unique-local or
/// unicast-link-local IPv6 (the `Ipv4Addr`/`Ipv6Addr` predicates of that name).
pub open spec fn is_blocked_ip_spec(ip: IpValue) -> bool {
    match ip {
        IpValue::V4(a, b, c, d) => {
            ||| a == 10
            ||| (a == 172 && 16 <= b <= 31)
            ||| (a == 192 && b == 168)
            ||| a == 127
            ||| (a == 169 && b == 254)
            ||| (a == 255 && b == 255 && c == 255 && d == 255)
            ||| (a == 192 && b == 0 && c == 2)
            ||| (a == 198 && b == 51 && c == 100)
            ||| (a == 203 && b == 0 && c == 113)
            ||| (a == 0 && b == 0 && c == 0 && d == 0)
        },
        IpValue::V6(s0, s1, s2, s3, s4, s5, s6, s7) => {
            let zero_head = s0 == 0 && s1 == 0 && s2 == 0 && s3 == 0 && s4 == 0 && s5 == 0 && s6
                == 0;
            ||| (zero_head && s7 == 1)
            ||| (zero_head && s7 == 0)
            ||| (0xfc00 <= s0 <= 0xfdff)
            ||| (0xfe80 <= s0 <= 0xfebf)
        },
    }
}

/// Whether the address is one that must not be fetched.
pub fn is_blocked_ip(ip: IpValue) -> (b: bool)
    ensures
        b == is_blocked_ip_spec(ip),
{
    match ip {
        IpValue::V4(a, b, c, d) => {
            a == 10 || (a == 172 && 16 <= b && b <= 31) || (a == 192 && b == 168) || a == 127 || (a
                == 169 && b == 254) || (a == 255 && b == 255 && c == 255 && d == 255) || (a == 192
                && b == 0 && c == 2) || (a == 198 && b == 51 && c == 100) || (a == 203 && b == 0
                && c == 113) || (a == 0 && b == 0 && c == 0 && d == 0)
        },
        IpValue::V6(s0, s1, s2, s3, s4, s5, s6, s7) => {
            let zero_head = s0 == 0 && s1 == 0 && s2 == 0 && s3 == 0 && s4 == 0 && s5 == 0 && s6
                == 0;
            (zero_head && s7 == 1) || (zero_head && s7 == 0) || (0xfc00 <= s0 && s0 <= 0xfdff) || (
            0xfe80 <= s0 && s0 <= 0xfebf)
        },
    }
}

} // verus!
