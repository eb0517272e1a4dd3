//! Routing: which servers the client reports to, when a new list of servers
//! replaces the old one, and the address of the router configuration.
use vstd::prelude::*;
use vstd::string::StringSliceAdditionalSpecFns;
use vstd::utf8::{encode_utf8, valid_utf8_concat, encode_utf8_valid_utf8};
use rand::Rng;
use crate::decimal::{decimal_nat, lemma_decimal_int_ascii, push_decimal_u64};
use crate::encoder::string_bytes;
use crate::keyed::append_bytes;
use crate::text::{lemma_ascii_utf8, utf8_to_string};

verus! {

/// A server: its address, the port messages go to and its HTTP port.
pub struct ServerAddress {
    ip: String,
    port: u32,
    http_port: u32,
}

/// The abstract state of a server address.
pub struct ServerAddressView {
    pub ip: Seq<char>,
    pub port: u32,
    pub http_port: u32,
}

impl View for ServerAddress {
    type V = ServerAddressView;

    closed spec fn view(&self) -> ServerAddressView {
        ServerAddressView { ip: self.ip@, port: self.port, http_port: self.http_port }
    }
}

impl ServerAddress {
    pub fn new(ip: String, port: u32, http_port: u32) -> (r: Self)
        ensures
            r@ == (ServerAddressView { ip: ip@, port, http_port }),
    {
        ServerAddress { ip, port, http_port }
    }

    pub fn get_ip(&self) -> (r: &String)
        ensures
            r@ == self@.ip,
    {
        &self.ip
    }

    pub fn get_port(&self) -> (r: u32)
        ensures
            r == self@.port,
    {
        self.port
    }

    pub fn get_http_port(&self) -> (r: u32)
        ensures
            r == self@.http_port,
    {
        self.http_port
    }
}

/// Two servers are the same when address and port agree.
pub open spec fn same_server(a: ServerAddressView, b: ServerAddressView) -> bool {
    a.ip == b.ip && a.port == b.port
}

/// Whether two servers are the same.
pub fn compare_server_address(a: &ServerAddress, b: &ServerAddress) -> (r: bool)
    ensures
        r == same_server(a@, b@),
{
    a.ip == b.ip && a.port == b.port
}

/// The servers as their abstract states.
pub open spec fn servers_view(v: Seq<ServerAddress>) -> Seq<ServerAddressView> {
    v.map_values(|s: ServerAddress| s@)
}

/// A new list of servers replaces the old one when it is not empty and
/// differs from it in length or in some server.
pub open spec fn routers_changed(old: Seq<ServerAddressView>, new: Seq<ServerAddressView>) -> bool {
    new.len() > 0 && (old.len() != new.len() || exists|i: int|
        0 <= i < new.len() && !same_server(#[trigger] new[i], old[i]))
}

/// After `update_router(new)` with a non-empty `new`, the servers agree with
/// `new` server by server (address and port), and applying `new` a second
/// time changes nothing.
pub proof fn lemma_update_router_idempotent(old: Seq<ServerAddressView>, new: Seq<ServerAddressView>)
    ensures
        ({
            let after = if routers_changed(old, new) {
                new
            } else {
                old
            };
            &&& !routers_changed(after, new)
            &&& new.len() > 0 ==> after.len() == new.len() && forall|i: int|
                0 <= i < new.len() ==> same_server(#[trigger] after[i], new[i])
        }),
{
    if !routers_changed(old, new) && new.len() > 0 {
        assert forall|i: int| 0 <= i < new.len() implies same_server(#[trigger] old[i], new[i]) by {
            if !same_server(new[i], old[i]) {
                assert(routers_changed(old, new));
            }
        }
    }
}

/// The address of the router configuration on server `s`: its HTTP port,
/// or 8080 where that is 0, and the path `suffix`.
pub open spec fn server_config_url_bytes(s: ServerAddressView, suffix: Seq<char>) -> Seq<u8> {
    "http://"@.map_values(|c: char| c as u8) + encode_utf8(s.ip) + seq![58u8] + decimal_nat(
        (if s.http_port == 0 {
            8080
        } else {
            s.http_port
        }) as nat,
    ) + encode_utf8(suffix)
}

/// Calls `rand::thread_rng().gen_range(0..=upper)`; rand 0.8 samples from
/// the range, and panics only on an empty one, which `0..=upper` is not. The
/// contract claims no more than that the result lies in the range.
#[verifier::external_body]
fn random_index_inclusive(upper: usize) -> (r: usize)
    ensures
        r <= upper,
{
    rand::thread_rng().gen_range(0..=upper)
}

/// What applying a new list of servers did.
#[derive(PartialEq, Eq, Structural, Clone, Copy, Debug)]
pub enum RouterUpdate {
    /// The new list was empty: nothing changes and no server is contacted.
    EmptyList,
    /// The new list agrees with the current one server by server.
    Unchanged,
    /// The new list replaced the current one.
    Changed,
}

/// The servers the client reports to.
pub struct CatRouterConfig {
    server_addresses: Vec<ServerAddress>,
    current: usize,
    url_suffix: String,
}

/// The abstract state of the routing.
pub struct CatRouterConfigView {
    pub server_addresses: Seq<ServerAddressView>,
    pub current: usize,
    pub url_suffix: Seq<char>,
}

impl View for CatRouterConfig {
    type V = CatRouterConfigView;

    closed spec fn view(&self) -> CatRouterConfigView {
        CatRouterConfigView {
            server_addresses: servers_view(self.server_addresses@),
            current: self.current,
            url_suffix: self.url_suffix@,
        }
    }
}

impl CatRouterConfig {
    pub fn new(server_addresses: Vec<ServerAddress>, current: usize, url_suffix: String) -> (r: Self)
        ensures
            r@ == (CatRouterConfigView {
                server_addresses: servers_view(server_addresses@),
                current,
                url_suffix: url_suffix@,
            }),
    {
        CatRouterConfig { server_addresses, current, url_suffix }
    }

    pub fn get_server_addresses(&self) -> (r: &Vec<ServerAddress>)
        ensures
            servers_view(r@) == self@.server_addresses,
    {
        &self.server_addresses
    }

    /// Replaces the servers by `new_routers` when they are not empty and
    /// differ from the current ones; tells whether the list was empty, left
    /// the servers as they were, or replaced them.
    pub fn update_router(&mut self, new_routers: Vec<ServerAddress>) -> (r: RouterUpdate)
        ensures
            (r == RouterUpdate::EmptyList) == (new_routers@.len() == 0),
            (r == RouterUpdate::Changed) == routers_changed(
                old(self)@.server_addresses,
                servers_view(new_routers@),
            ),
            final(self)@.server_addresses == (if r == RouterUpdate::Changed {
                servers_view(new_routers@)
            } else {
                old(self)@.server_addresses
            }),
            final(self)@.current == old(self)@.current,
            final(self)@.url_suffix == old(self)@.url_suffix,
    {
        let new_len = new_routers.len();
        let old_len = self.server_addresses.len();
        let ghost old_view = self@.server_addresses;
        let ghost new_view = servers_view(new_routers@);
        if new_len == 0 {
            return RouterUpdate::EmptyList;
        } else if old_len == 0 {
            self.server_addresses = new_routers;
            return RouterUpdate::Changed;
        } else if old_len != new_len {
            self.server_addresses = new_routers;
            return RouterUpdate::Changed;
        } else {
            let mut i: usize = 0;
            while i < old_len
                invariant
                    i <= old_len,
                    old_len == new_len,
                    old_len == self.server_addresses@.len(),
                    new_len == new_routers@.len(),
                    old_view == servers_view(self.server_addresses@),
                    old_view == old(self)@.server_addresses,
                    new_view == servers_view(new_routers@),
                    self.current == old(self).current,
                    self.url_suffix == old(self).url_suffix,
                    new_len > 0,
                    forall|j: int| 0 <= j < i ==> same_server(new_view[j], old_view[j]),
                decreases old_len - i,
            {
                if !compare_server_address(&new_routers[i], &self.server_addresses[i]) {
                    assert(!same_server(new_view[i as int], old_view[i as int]));
                    self.server_addresses = new_routers;
                    return RouterUpdate::Changed;
                }
                i = i + 1;
            }
            return RouterUpdate::Unchanged;
        }
    }

    /// How many servers, from the first on, the client connects to after
    /// `update`: none after an empty list; otherwise those before the current
    /// one, or all of them when the current index is past the end.
    pub fn connect_count(&self, update: RouterUpdate) -> (r: usize)
        ensures
            r == (if update == RouterUpdate::EmptyList {
                0
            } else if self@.current < self@.server_addresses.len() {
                self@.current as int
            } else {
                self@.server_addresses.len() as int
            }),
    {
        if update == RouterUpdate::EmptyList {
            0
        } else if self.current < self.server_addresses.len() {
            self.current
        } else {
            self.server_addresses.len()
        }
    }

    /// The address of the router configuration on the server at `index`, or
    /// `None` past the last server.
    pub fn server_config_url(&self, index: usize) -> (r: Option<String>)
        ensures
            r is None <==> index >= self@.server_addresses.len(),
            r matches Some(url) ==> string_bytes(url) == server_config_url_bytes(
                self@.server_addresses[index as int],
                self@.url_suffix,
            ),
    {
        if index >= self.server_addresses.len() {
            return None;
        }
        let server = &self.server_addresses[index];
        let mut http_port = server.get_http_port();
        if http_port == 0 {
            http_port = 8080;
        }
        let mut url: Vec<u8> = Vec::new();
        let scheme = "http://";
        proof {
            reveal_strlit("http://");
            assert(scheme.spec_bytes() =~= "http://"@.map_values(|c: char| c as u8)) by {
                vstd::utf8::is_ascii_chars_encode_utf8(scheme@);
            }
        }
        append_bytes(&mut url, scheme.as_bytes());
        append_bytes(&mut url, server.get_ip().as_str().as_bytes());
        url.push(58);
        push_decimal_u64(&mut url, http_port as u64);
        append_bytes(&mut url, self.url_suffix.as_str().as_bytes());
        proof {
            let a = "http://"@.map_values(|c: char| c as u8);
            let ip = encode_utf8(server@.ip);
            let d = decimal_nat(http_port as nat);
            let suffix = encode_utf8(self.url_suffix@);
            assert(url@ =~= a + ip + seq![58u8] + d + suffix);
            vstd::utf8::is_ascii_chars_encode_utf8("http://"@);
            encode_utf8_valid_utf8("http://"@);
            encode_utf8_valid_utf8(server@.ip);
            encode_utf8_valid_utf8(self.url_suffix@);
            lemma_decimal_int_ascii(http_port as int);
            lemma_ascii_utf8(d);
            lemma_ascii_utf8(seq![58u8]);
            valid_utf8_concat(a, ip);
            valid_utf8_concat(a + ip, seq![58u8]);
            valid_utf8_concat(a + ip + seq![58u8], d);
            valid_utf8_concat(a + ip + seq![58u8] + d, suffix);
        }
        Some(utf8_to_string(url))
    }

    /// The address of the router configuration on a server picked at random;
    /// the pick ranges over one index past the last server, for which there
    /// is no address.
    pub fn get_server_config_url(&self) -> (r: Option<String>)
        ensures
            r matches Some(url) ==> exists|i: int|
                0 <= i < self@.server_addresses.len() && string_bytes(url) == server_config_url_bytes(
                    #[trigger] self@.server_addresses[i],
                    self@.url_suffix,
                ),
            self@.server_addresses.len() == 0 ==> r is None,
    {
        let index = random_index_inclusive(self.server_addresses.len());
        self.server_config_url(index)
    }
}

} // verus!
