//! Service configuration, built from the optional values that the process
//! environment supplies, with the documented defaults.

use vstd::prelude::*;

verus! {

/// The coordinator's configuration.
pub struct Config {
    pub database_url: String,
    pub port: u16,
    pub stellar_network: String,
    pub stellar_horizon_url: String,
    pub contract_id: String,
}

/// Why no configuration could be built.
#[derive(Clone, Copy, Debug, PartialEq, Eq, Structural)]
pub enum ConfigError {
    MissingDatabaseUrl,
}

/// Whether every character of `s` is a decimal digit.
pub open spec fn all_digits(s: Seq<char>) -> bool {
    forall|i: int| 0 <= i < s.len() ==> '0' <= #[trigger] s[i] <= '9'
}

/// The number that the decimal digits `s` write.
pub open spec fn digits_value(s: Seq<char>) -> int
    decreases s.len(),
{
    if s.len() == 0 {
        0
    } else {
        digits_value(s.drop_last()) * 10 + (s.last() as int - '0' as int)
    }
}

/// The digits of a port number: `s` without one leading `+`.
pub open spec fn port_digits(s: Seq<char>) -> Seq<char> {
    if s.len() > 0 && s[0] == '+' {
        s.drop_first()
    } else {
        s
    }
}

/// The port number that `s` writes in decimal, with an optional leading
/// `+`, if it writes one from 0 to 65535.
pub open spec fn port_value(s: Seq<char>) -> Option<u16> {
    let d = port_digits(s);
    if d.len() > 0 && all_digits(d) && digits_value(d) <= 65535 {
        Some(digits_value(d) as u16)
    } else {
        None
    }
}

proof fn lemma_digits_grow(s: Seq<char>, k: int)
    requires
        all_digits(s),
        0 <= k <= s.len(),
    ensures
        digits_value(s.take(k)) <= digits_value(s),
        0 <= digits_value(s.take(k)),
    decreases s.len() - k,
{
    if k < s.len() {
        lemma_digits_grow(s, k + 1);
        assert(s.take(k + 1).drop_last() =~= s.take(k));
        lemma_digits_nonneg(s.take(k));
    } else {
        assert(s.take(k) =~= s);
        lemma_digits_nonneg(s);
    }
}

proof fn lemma_digits_nonneg(s: Seq<char>)
    requires
        all_digits(s),
    ensures
        0 <= digits_value(s),
    decreases s.len(),
{
    if s.len() > 0 {
        lemma_digits_nonneg(s.drop_last());
    }
}

/// Reads a port number written in decimal, with an optional leading `+`.
pub fn parse_port(s: &str) -> (r: Option<u16>)
    ensures
        r == port_value(s@),
{
    let n = s.unicode_len();
    let mut i: usize = 0;
    if n > 0 && s.get_char(0) == '+' {
        i = 1;
    }
    let start = i;
    let ghost d = port_digits(s@);
    proof {
        assert(d =~= s@.subrange(start as int, n as int));
    }
    if start == n {
        return None;
    }
    let mut value: u32 = 0;
    while i < n
        invariant
            start <= i <= n,
            n == s@.len(),
            start < n,
            d == s@.subrange(start as int, n as int),
            d == port_digits(s@),
            all_digits(d.take(i - start)),
            value as int == digits_value(d.take(i - start)),
            value <= 65535,
        decreases n - i,
    {
        let c = s.get_char(i);
        proof {
            assert(d.take(i - start + 1).drop_last() =~= d.take(i - start));
            assert(d.take(i - start + 1).last() == c);
        }
        if c < '0' || c > '9' {
            assert(!all_digits(d));
            return None;
        }
        let next: u32 = value * 10 + (c as u32 - '0' as u32);
        if next > 65535 {
            proof {
                assert(all_digits(d.take(i - start + 1)));
                if all_digits(d) {
                    lemma_digits_grow(d, i - start + 1);
                }
            }
            return None;
        }
        value = next;
        i = i + 1;
    }
    proof {
        assert(d.take(i - start) =~= d);
    }
    Some(value as u16)
}

impl Config {
    /// Builds the configuration: the database URL is required; the port is
    /// 5000 when absent or unreadable; the network is `testnet`, the horizon
    /// URL the public testnet one, and the contract id empty, when absent.
    pub fn from_values(
        database_url: Option<String>,
        port: Option<String>,
        stellar_network: Option<String>,
        stellar_horizon_url: Option<String>,
        contract_id: Option<String>,
    ) -> (r: Result<Config, ConfigError>)
        ensures
            match database_url {
                None => r == Err::<Config, ConfigError>(ConfigError::MissingDatabaseUrl),
                Some(url) => r matches Ok(c) && {
                    &&& c.database_url == url
                    &&& c.port == match port {
                        Some(p) => match port_value(p@) {
                            Some(v) => v,
                            None => 5000u16,
                        },
                        None => 5000u16,
                    }
                    &&& c.stellar_network@ == match stellar_network {
                        Some(n) => n@,
                        None => "testnet"@,
                    }
                    &&& c.stellar_horizon_url@ == match stellar_horizon_url {
                        Some(h) => h@,
                        None => "https://horizon-testnet.stellar.org"@,
                    }
                    &&& c.contract_id@ == match contract_id {
                        Some(k) => k@,
                        None => ""@,
                    }
                },
            },
    {
        let url = match database_url {
            Some(u) => u,
            None => {
                return Err(ConfigError::MissingDatabaseUrl);
            },
        };
        let port = match port {
            Some(p) => match parse_port(p.as_str()) {
                Some(v) => v,
                None => 5000,
            },
            None => 5000,
        };
        let stellar_network = match stellar_network {
            Some(n) => n,
            None => String::from_str("testnet"),
        };
        let stellar_horizon_url = match stellar_horizon_url {
            Some(h) => h,
            None => String::from_str("https://horizon-testnet.stellar.org"),
        };
        let contract_id = match contract_id {
            Some(k) => k,
            None => String::new(),
        };
        proof {
            reveal_strlit("");
        }
        Ok(Config { database_url: url, port, stellar_network, stellar_horizon_url, contract_id })
    }
}

} // verus!
