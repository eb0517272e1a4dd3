//! Settings of the client.
use vstd::prelude::*;

verus! {

/// Where the client reports from.
pub struct Config {
    pub domain: String,
    pub hostname: String,
    pub env: String,
    pub ip: String,
    pub ip_hex: String,
    pub http_server_port: u32,
}

impl Config {
    /// Empty settings.
    pub fn new() -> (r: Self)
        ensures
            r.domain@ == Seq::<char>::empty(),
            r.hostname@ == Seq::<char>::empty(),
            r.env@ == Seq::<char>::empty(),
            r.ip@ == Seq::<char>::empty(),
            r.ip_hex@ == Seq::<char>::empty(),
            r.http_server_port == 0,
    {
        Config {
            domain: String::new(),
            hostname: String::new(),
            env: String::new(),
            ip: String::new(),
            ip_hex: String::new(),
            http_server_port: 0,
        }
    }

    pub fn get_domain(&self) -> (r: &String)
        ensures
            r == self.domain,
    {
        &self.domain
    }

    pub fn get_hostname(&self) -> (r: &String)
        ensures
            r == self.hostname,
    {
        &self.hostname
    }

    pub fn get_ip(&self) -> (r: &String)
        ensures
            r == self.ip,
    {
        &self.ip
    }

    pub fn get_env(&self) -> (r: &String)
        ensures
            r == self.env,
    {
        &self.env
    }

    pub fn get_ip_hex(&self) -> (r: &String)
        ensures
            r == self.ip_hex,
    {
        &self.ip_hex
    }
}

} // verus!
