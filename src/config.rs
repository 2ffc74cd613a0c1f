//! Process settings, once loaded, and the values derived from them.
use vstd::prelude::*;

verus! {

/// The settings a server process runs with.
pub struct AppConfig {
    pub database_url: String,
    pub port: u16,
    pub host: String,
    pub secret: String,
    pub jwt_expiration_min: i64,
    pub run_migrations: bool,
    pub rust_log: String,
    pub save_dir: String,
    pub migrate_dir: String,
}

/// The decimal digit for `d`.
pub open spec fn digit(d: nat) -> char {
    if d == 0 { '0' }
    else if d == 1 { '1' }
    else if d == 2 { '2' }
    else if d == 3 { '3' }
    else if d == 4 { '4' }
    else if d == 5 { '5' }
    else if d == 6 { '6' }
    else if d == 7 { '7' }
    else if d == 8 { '8' }
    else { '9' }
}

/// `n` written in decimal, without leading zeros.
pub open spec fn decimal(n: nat) -> Seq<char>
    decreases n,
{
    if n < 10 {
        seq![digit(n)]
    } else {
        decimal(n / 10).push(digit(n % 10))
    }
}

fn digit_text(d: u16) -> (r: &'static str)
    requires
        d < 10,
    ensures
        r@ == seq![digit(d as nat)],
{
    proof {
        reveal_strlit("0");
        reveal_strlit("1");
        reveal_strlit("2");
        reveal_strlit("3");
        reveal_strlit("4");
        reveal_strlit("5");
        reveal_strlit("6");
        reveal_strlit("7");
        reveal_strlit("8");
        reveal_strlit("9");
    }
    match d {
        0 => "0",
        1 => "1",
        2 => "2",
        3 => "3",
        4 => "4",
        5 => "5",
        6 => "6",
        7 => "7",
        8 => "8",
        _ => "9",
    }
}

/// Writes `n` in decimal.
pub fn decimal_text(n: u16) -> (r: String)
    ensures
        r@ == decimal(n as nat),
    decreases n,
{
    if n < 10 {
        String::from_str(digit_text(n))
    } else {
        let mut s = decimal_text(n / 10);
        s.append(digit_text(n % 10));
        s
    }
}

impl AppConfig {
    pub fn get_run_migrations(&self) -> (r: bool)
        ensures
            r == self.run_migrations,
    {
        self.run_migrations
    }

    pub fn get_database_url(&self) -> (r: &str)
        ensures
            r@ == self.database_url@,
    {
        self.database_url.as_str()
    }

    pub fn get_port(&self) -> (r: u16)
        ensures
            r == self.port,
    {
        self.port
    }

    pub fn get_host(&self) -> (r: &str)
        ensures
            r@ == self.host@,
    {
        self.host.as_str()
    }

    /// The address to listen on: host, a colon, and the port in decimal.
    pub fn get_listener_addr(&self) -> (r: String)
        ensures
            r@ == self.host@ + ":"@ + decimal(self.port as nat),
    {
        let mut s = self.host.clone();
        s.append(":");
        let p = decimal_text(self.port);
        s.append(p.as_str());
        s
    }

    pub fn get_secret(&self) -> (r: &str)
        ensures
            r@ == self.secret@,
    {
        self.secret.as_str()
    }

    pub fn get_jwt_expiration(&self) -> (r: i64)
        ensures
            r == self.jwt_expiration_min,
    {
        self.jwt_expiration_min
    }

    pub fn get_log_level(&self) -> (r: &str)
        ensures
            r@ == self.rust_log@,
    {
        self.rust_log.as_str()
    }

    pub fn get_save_dir(&self) -> (r: &str)
        ensures
            r@ == self.save_dir@,
    {
        self.save_dir.as_str()
    }
}

} // verus!
