//! Process configuration values: the provider credentials and the bind
//! address and port, with the rules that validate them. Reading the
//! configuration file is outside work; these types decide what counts as a
//! valid configuration.
use vstd::prelude::*;
use vstd::std_specs::iter::IteratorSpec;

verus! {

/// Why a configuration value was rejected.
#[derive(Debug, Clone, Copy, PartialEq, Eq, Structural)]
pub enum ConfigError {
    InvalidPort,
    MissingClientId,
    MissingClientSecret,
}

/// Whether the character is a decimal digit.
pub open spec fn is_decimal_digit(c: char) -> bool {
    48 <= c as u32 && c as u32 <= 57
}

/// The number the digit characters denote, most significant first.
pub open spec fn spec_parse_digits(d: Seq<char>) -> int
    decreases d.len(),
{
    if d.len() == 0 {
        0
    } else {
        spec_parse_digits(d.drop_last()) * 10 + (d.last() as u32 - 48)
    }
}

/// The digit part of a number literal: everything after one optional
/// leading plus sign.
pub open spec fn spec_digit_part(s: Seq<char>) -> Seq<char> {
    if s.len() > 0 && s[0] == '+' {
        s.drop_first()
    } else {
        s
    }
}

/// Whether the string is a valid 16-bit port number: an optional plus
/// sign, then at least one decimal digit and nothing else, denoting a
/// number no larger than the largest port.
pub open spec fn spec_valid_port(s: Seq<char>) -> bool {
    let d = spec_digit_part(s);
    &&& d.len() > 0
    &&& forall|i: int| 0 <= i < d.len() ==> is_decimal_digit(#[trigger] d[i])
    &&& spec_parse_digits(d) <= u16::MAX
}

/// The characters of a string, as a list.
fn collect_chars(s: &str) -> (r: Vec<char>)
    ensures
        r@ == s@,
{
    broadcast use vstd::string::axiom_spec_iter;
    broadcast use vstd::string::next_postcondition;

    let mut out: Vec<char> = Vec::new();
    let mut it = s.chars();
    let ghost mut k: int = 0;
    proof {
        assert(s@.skip(0) =~= s@);
        assert(out@ =~= s@.take(0));
    }
    loop
        invariant
            0 <= k <= s@.len(),
            vstd::std_specs::iter::IteratorSpec::remaining(&it) =~= s@.skip(k),
            it.obeys_prophetic_iter_laws(),
            out@ == s@.take(k),
        decreases s@.len() - k,
    {
        let next = it.next();
        match next {
            Some(c) => {
                proof {
                    assert(s@.skip(k)[0] == s@[k]);
                    assert(s@.skip(k).drop_first() =~= s@.skip(k + 1));
                    assert(s@.take(k).push(s@[k]) =~= s@.take(k + 1));
                }
                out.push(c);
                proof {
                    k = k + 1;
                }
            },
            None => {
                proof {
                    assert(s@.skip(k).len() == 0);
                    assert(s@.take(k) =~= s@);
                }
                return out;
            },
        }
    }
}

/// A sentinel above every port, for running past an overflow.
const PORT_OVERFLOW: u32 = 100000;

/// Parse a port number as a 16-bit integer: an optional plus sign, then
/// decimal digits. Rejected when empty, when any other character occurs,
/// or when the number is too large for a port.
pub fn parse_port(s: &str) -> (r: Result<u16, ConfigError>)
    ensures
        spec_valid_port(s@) ==> (r matches Ok(p) && p == spec_parse_digits(spec_digit_part(s@))),
        !spec_valid_port(s@) ==> (r matches Err(e) && e == ConfigError::InvalidPort),
{
    let chars = collect_chars(s);
    let start: usize = if chars.len() > 0 && chars[0] == '+' {
        1
    } else {
        0
    };
    let ghost d = spec_digit_part(s@);
    proof {
        assert(chars@.skip(start as int) =~= d);
    }
    if chars.len() == start {
        return Err(ConfigError::InvalidPort);
    }
    let mut value: u32 = 0;
    let mut i: usize = start;
    while i < chars.len()
        invariant
            start <= i <= chars@.len(),
            d == spec_digit_part(s@),
            d =~= chars@.skip(start as int),
            forall|j: int| start <= j < i ==> is_decimal_digit(#[trigger] chars@[j]),
            value <= PORT_OVERFLOW,
            (spec_parse_digits(d.take(i - start)) <= u16::MAX ==> value == spec_parse_digits(
                d.take(i - start),
            )),
            (spec_parse_digits(d.take(i - start)) > u16::MAX ==> value == PORT_OVERFLOW),
            spec_parse_digits(d.take(i - start)) >= 0,
        decreases chars@.len() - i,
    {
        let c = chars[i];
        let cv = c as u32;
        if cv < 48 || cv > 57 {
            proof {
                assert(d[i - start] == chars@[i as int]);
                assert(!is_decimal_digit(d[i - start]));
            }
            return Err(ConfigError::InvalidPort);
        }
        proof {
            assert(d.take(i + 1 - start).drop_last() =~= d.take(i - start));
            assert(d.take(i + 1 - start).last() == chars@[i as int]);
        }
        let digit: u32 = cv - 48;
        if value > u16::MAX as u32 {
            value = PORT_OVERFLOW;
        } else {
            value = value * 10 + digit;
            if value > u16::MAX as u32 {
                value = PORT_OVERFLOW;
            }
        }
        i = i + 1;
    }
    proof {
        assert(d.take(chars@.len() - start) =~= d);
    }
    if value > u16::MAX as u32 {
        proof {
            assert(spec_parse_digits(d) > u16::MAX);
        }
        Err(ConfigError::InvalidPort)
    } else {
        Ok(value as u16)
    }
}

/// The primary provider's credentials.
#[derive(Debug)]
pub struct IgdbConfig {
    pub client_id: String,
    pub client_secret: String,
}

impl IgdbConfig {
    pub fn new(client_id: &str, client_secret: &str) -> (r: Self)
        ensures
            r.client_id@ == client_id@,
            r.client_secret@ == client_secret@,
    {
        Self { client_id: client_id.to_owned(), client_secret: client_secret.to_owned() }
    }

    /// The credentials of a configuration section: both values are
    /// required.
    pub fn from_values(client_id: Option<String>, client_secret: Option<String>) -> (r: Result<
        Self,
        ConfigError,
    >)
        ensures
            client_id is None ==> (r matches Err(e) && e == ConfigError::MissingClientId),
            client_id is Some && client_secret is None ==> (r matches Err(e) && e
                == ConfigError::MissingClientSecret),
            client_id is Some && client_secret is Some ==> (r matches Ok(c) && c.client_id
                == client_id->0 && c.client_secret == client_secret->0),
    {
        match (client_id, client_secret) {
            (None, _) => Err(ConfigError::MissingClientId),
            (Some(_), None) => Err(ConfigError::MissingClientSecret),
            (Some(client_id), Some(client_secret)) => Ok(Self { client_id, client_secret }),
        }
    }
}

/// Where the server listens.
#[derive(Debug)]
pub struct ServerConfig {
    pub port: u16,
    pub address: String,
}

impl Default for ServerConfig {
    /// The default bind point.
    fn default() -> (r: Self)
        ensures
            r.port == 8080,
            r.address@ == "127.0.0.1"@,
    {
        Self { port: 8080, address: "127.0.0.1".to_owned() }
    }
}

/// Collects the optional configuration values for the bind point; what is
/// left unset falls back to the default.
#[derive(Debug)]
pub struct ServerConfigBuilder {
    pub port: Option<u16>,
    pub address: Option<String>,
}

impl Default for ServerConfigBuilder {
    fn default() -> (r: Self)
        ensures
            r.port is None,
            r.address is None,
    {
        Self { port: None, address: None }
    }
}

impl ServerConfigBuilder {
    pub fn new() -> (r: Self)
        ensures
            r.port is None,
            r.address is None,
    {
        Self::default()
    }

    /// Take the port from a configuration value, when there is one; a value
    /// that is not a valid port number is rejected.
    pub fn set_port(self, port: Option<String>) -> (r: Result<Self, ConfigError>)
        ensures
            match port {
                None => r matches Ok(b) && b.port == self.port && b.address == self.address,
                Some(p) => {
                    if spec_valid_port(p@) {
                        &&& r matches Ok(b)
                        &&& b.port == Some(spec_parse_digits(spec_digit_part(p@)) as u16)
                        &&& b.address == self.address
                    } else {
                        &&& r matches Err(e)
                        &&& e == ConfigError::InvalidPort
                    }
                },
            },
    {
        match port {
            None => Ok(self),
            Some(p) => match parse_port(p.as_str()) {
                Ok(port) => Ok(Self { port: Some(port), address: self.address }),
                Err(e) => Err(e),
            },
        }
    }

    /// Take the bind address, when there is one. The caller has validated
    /// it against the address syntax the listener accepts.
    pub fn with_address(self, address: Option<String>) -> (r: Self)
        ensures
            address is Some ==> r.address == address && r.port == self.port,
            address is None ==> r.address == self.address && r.port == self.port,
    {
        match address {
            Some(a) => Self { port: self.port, address: Some(a) },
            None => self,
        }
    }

    /// The configuration the collected values describe: what is unset
    /// falls back to the default bind point.
    pub fn build(self) -> (r: ServerConfig)
        ensures
            r.port == (match self.port {
                Some(p) => p,
                None => 8080u16,
            }),
            r.address@ == (match self.address {
                Some(a) => a@,
                None => "127.0.0.1"@,
            }),
    {
        let mut server_config = ServerConfig::default();
        if let Some(port) = self.port {
            server_config.port = port;
        }
        if let Some(address) = self.address {
            server_config.address = address;
        }
        server_config
    }
}

/// The whole process configuration.
#[derive(Debug)]
pub struct AppConfig {
    pub igdb_config: IgdbConfig,
    pub server_config: ServerConfig,
}

} // verus!
