use vstd::prelude::*;

verus! {

/// Where the broker gateway listens, and the client id to log in with.
#[derive(Debug, Clone)]
pub struct IBConfig {
    pub host: String,
    pub port: u16,
    pub client_id: i32,
}

impl Default for IBConfig {
    /// The local gateway on port 4002, client id 100.
    fn default() -> (c: Self)
        ensures
            c.host@ == "127.0.0.1"@,
            c.port == 4002,
            c.client_id == 100,
    {
        IBConfig { host: "127.0.0.1".to_owned(), port: 4002, client_id: 100 }
    }
}

/// A client of the broker gateway described by its configuration.
pub struct IBClient {
    pub config: IBConfig,
}

/// The character of a decimal digit.
pub open spec fn digit_char(d: nat) -> char {
    if d == 0 {
        '0'
    } else if d == 1 {
        '1'
    } else if d == 2 {
        '2'
    } else if d == 3 {
        '3'
    } else if d == 4 {
        '4'
    } else if d == 5 {
        '5'
    } else if d == 6 {
        '6'
    } else if d == 7 {
        '7'
    } else if d == 8 {
        '8'
    } else {
        '9'
    }
}

/// The decimal digits of `n`, most significant first, without leading zeros.
pub open spec fn decimal(n: nat) -> Seq<char>
    decreases n,
{
    if n < 10 {
        seq![digit_char(n)]
    } else {
        decimal(n / 10).push(digit_char(n % 10))
    }
}

/// The `host:port` address of a gateway.
pub open spec fn host_port(host: Seq<char>, port: u16) -> Seq<char> {
    host + seq![':'] + decimal(port as nat)
}

/// The one-character text of the digit `d`.
fn digit_text(d: u16) -> (s: &'static str)
    requires
        d < 10,
    ensures
        s@ == seq![digit_char(d as nat)],
{
    if d == 0 {
        proof { reveal_strlit("0"); }
        "0"
    } else if d == 1 {
        proof { reveal_strlit("1"); }
        "1"
    } else if d == 2 {
        proof { reveal_strlit("2"); }
        "2"
    } else if d == 3 {
        proof { reveal_strlit("3"); }
        "3"
    } else if d == 4 {
        proof { reveal_strlit("4"); }
        "4"
    } else if d == 5 {
        proof { reveal_strlit("5"); }
        "5"
    } else if d == 6 {
        proof { reveal_strlit("6"); }
        "6"
    } else if d == 7 {
        proof { reveal_strlit("7"); }
        "7"
    } else if d == 8 {
        proof { reveal_strlit("8"); }
        "8"
    } else {
        proof { reveal_strlit("9"); }
        "9"
    }
}

/// The decimal text of `n`.
pub fn decimal_text(n: u16) -> (s: String)
    ensures
        s@ == decimal(n as nat),
    decreases n,
{
    if n < 10 {
        String::from_str(digit_text(n))
    } else {
        let mut s = decimal_text(n / 10);
        s.append(digit_text(n % 10));
        s
    }
}

/// The `host:port` address a gateway client connects to.
pub fn gateway_address(host: &str, port: u16) -> (url: String)
    ensures
        url@ == host_port(host@, port),
{
    let mut url = String::from_str(host);
    proof { reveal_strlit(":"); }
    url.append(":");
    let digits = decimal_text(port);
    url.append(digits.as_str());
    url
}

impl IBClient {
    /// A client for the gateway of `config`.
    pub fn new(config: IBConfig) -> (c: Self)
        ensures
            c.config == config,
    {
        IBClient { config }
    }

    /// The address the client connects to: the configured host and port as `host:port`.
    pub fn connection_url(&self) -> (url: String)
        ensures
            url@ == host_port(self.config.host@, self.config.port),
    {
        gateway_address(self.config.host.as_str(), self.config.port)
    }
}

} // verus!
