//! Configuration for connecting to one chain: endpoints, credentials,
//! contract addresses and free-form options.

use vstd::prelude::*;
use crate::chain::ChainId;
use crate::message::pairs_view;
use crate::text::{owned, str_eq};

verus! {

broadcast use vstd::string::group_string_axioms;

/// Keys occur at most once.
pub open spec fn keys_unique(s: Seq<(Seq<char>, Seq<char>)>) -> bool {
    forall|x: int, y: int| #![trigger s[x], s[y]] 0 <= x < y < s.len() ==> s[x].0 != s[y].0
}

/// The entries after setting `key` to `value`: an entry with the key is
/// replaced in place, otherwise the entry is appended.
pub open spec fn spec_set_entry(s: Seq<(Seq<char>, Seq<char>)>, key: Seq<char>, value: Seq<char>) -> Seq<(Seq<char>, Seq<char>)> {
    if exists|i: int| 0 <= i < s.len() && #[trigger] s[i].0 == key {
        let i = choose|i: int| 0 <= i < s.len() && #[trigger] s[i].0 == key;
        s.update(i, (key, value))
    } else {
        s.push((key, value))
    }
}

/// The value of a key among entries, if any.
pub open spec fn entry_value(s: Seq<(Seq<char>, Seq<char>)>, key: Seq<char>) -> Option<Seq<char>> {
    if exists|i: int| 0 <= i < s.len() && #[trigger] s[i].0 == key {
        let i = choose|i: int| 0 <= i < s.len() && #[trigger] s[i].0 == key;
        Some(s[i].1)
    } else {
        None
    }
}

/// Configuration for connecting to and working with one chain.
#[derive(Debug, Clone)]
pub struct ChainConfig {
    pub chain_id: ChainId,
    pub rpc_url: String,
    pub ws_url: Option<String>,
    /// Authentication token or API key.
    pub auth_token: Option<String>,
    /// Contract addresses by name, each name once.
    pub contracts: Vec<(String, String)>,
    /// Further options by key, each key once.
    pub options: Vec<(String, String)>,
}

fn set_entry(entries: &mut Vec<(String, String)>, key: &str, value: &str)
    requires
        keys_unique(pairs_view(old(entries)@)),
    ensures
        keys_unique(pairs_view(final(entries)@)),
        pairs_view(final(entries)@) == spec_set_entry(pairs_view(old(entries)@), key@, value@),
{
    let ghost s = pairs_view(entries@);
    let mut i: usize = 0;
    while i < entries.len()
        invariant
            i <= entries.len(),
            s == pairs_view(entries@),
            s == pairs_view(old(entries)@),
            s.len() == entries@.len(),
            keys_unique(s),
            forall|j: int| 0 <= j < i ==> #[trigger] s[j].0 != key@,
        decreases entries.len() - i,
    {
        assert(s[i as int].0 == entries@[i as int].0@);
        if str_eq(entries[i].0.as_str(), key) {
            proof {
                let c = choose|c: int| 0 <= c < s.len() && #[trigger] s[c].0 == key@;
                if c < i as int {
                    assert(s[c].0 != s[i as int].0);
                } else if c > i as int {
                    assert(s[i as int].0 != s[c].0);
                }
            }
            entries.set(i, (owned(key), owned(value)));
            assert(pairs_view(entries@) =~= s.update(i as int, (key@, value@)));
            proof {
                let t = pairs_view(entries@);
                assert forall|x: int, y: int| #![trigger t[x], t[y]] 0 <= x < y < t.len() implies t[x].0 != t[y].0 by {
                    assert(s[x].0 != s[y].0);
                }
            }
            return;
        }
        i += 1;
    }
    entries.push((owned(key), owned(value)));
    assert(pairs_view(entries@) =~= s.push((key@, value@)));
    proof {
        let t = pairs_view(entries@);
        assert forall|x: int, y: int| #![trigger t[x], t[y]] 0 <= x < y < t.len() implies t[x].0 != t[y].0 by {
            assert(t[x] == s[x]);
            if y < s.len() {
                assert(s[x].0 != s[y].0);
            }
        }
    }
}

impl ChainConfig {
    /// Contract names and option keys occur at most once.
    pub open spec fn wf(&self) -> bool {
        keys_unique(pairs_view(self.contracts@)) && keys_unique(pairs_view(self.options@))
    }

    /// A configuration for a chain and endpoint, without further settings.
    pub fn new(chain_id: ChainId, rpc_url: String) -> (c: ChainConfig)
        ensures
            c.wf(),
            c.chain_id == chain_id,
            c.rpc_url == rpc_url,
            c.ws_url is None,
            c.auth_token is None,
            c.contracts@.len() == 0,
            c.options@.len() == 0,
    {
        let c = ChainConfig {
            chain_id,
            rpc_url,
            ws_url: None,
            auth_token: None,
            contracts: Vec::new(),
            options: Vec::new(),
        };
        assert(pairs_view(c.contracts@) =~= Seq::<(Seq<char>, Seq<char>)>::empty());
        assert(pairs_view(c.options@) =~= Seq::<(Seq<char>, Seq<char>)>::empty());
        c
    }

    /// Sets the address of a named contract.
    pub fn with_contract(self, name: &str, address: &str) -> (c: ChainConfig)
        requires
            self.wf(),
        ensures
            c.wf(),
            pairs_view(c.contracts@) == spec_set_entry(pairs_view(self.contracts@), name@, address@),
            c.options == self.options,
            c.chain_id == self.chain_id,
            c.rpc_url == self.rpc_url,
            c.ws_url == self.ws_url,
            c.auth_token == self.auth_token,
    {
        let mut c = self;
        set_entry(&mut c.contracts, name, address);
        c
    }

    /// Sets an option.
    pub fn with_option(self, key: &str, value: &str) -> (c: ChainConfig)
        requires
            self.wf(),
        ensures
            c.wf(),
            pairs_view(c.options@) == spec_set_entry(pairs_view(self.options@), key@, value@),
            c.contracts == self.contracts,
            c.chain_id == self.chain_id,
            c.rpc_url == self.rpc_url,
            c.ws_url == self.ws_url,
            c.auth_token == self.auth_token,
    {
        let mut c = self;
        set_entry(&mut c.options, key, value);
        c
    }

    /// Sets the WebSocket endpoint.
    pub fn with_ws_url(self, ws_url: String) -> (c: ChainConfig)
        ensures
            c == (ChainConfig { ws_url: Some(ws_url), ..self }),
    {
        ChainConfig { ws_url: Some(ws_url), ..self }
    }

    /// Sets the authentication token.
    pub fn with_auth_token(self, token: String) -> (c: ChainConfig)
        ensures
            c == (ChainConfig { auth_token: Some(token), ..self }),
    {
        ChainConfig { auth_token: Some(token), ..self }
    }
}

/// Setting a key and reading it back gives the value set, and other keys keep
/// their values.
pub proof fn lemma_set_then_read(s: Seq<(Seq<char>, Seq<char>)>, key: Seq<char>, value: Seq<char>, other: Seq<char>)
    requires
        keys_unique(s),
    ensures
        entry_value(spec_set_entry(s, key, value), key) == Some(value),
        other != key ==> entry_value(spec_set_entry(s, key, value), other) == entry_value(s, other),
{
    let t = spec_set_entry(s, key, value);
    if exists|i: int| 0 <= i < s.len() && #[trigger] s[i].0 == key {
        let i = choose|i: int| 0 <= i < s.len() && #[trigger] s[i].0 == key;
        assert(t[i].0 == key);
        let j = choose|j: int| 0 <= j < t.len() && #[trigger] t[j].0 == key;
        if j != i {
            assert(s[j].0 == key);
            if j < i { assert(s[j].0 != s[i].0); } else { assert(s[i].0 != s[j].0); }
        }
        if other != key {
            if exists|k: int| 0 <= k < s.len() && #[trigger] s[k].0 == other {
                let k = choose|k: int| 0 <= k < s.len() && #[trigger] s[k].0 == other;
                assert(t[k].0 == other);
                let m = choose|m: int| 0 <= m < t.len() && #[trigger] t[m].0 == other;
                if m != k {
                    assert(s[m].0 == other);
                    if m < k { assert(s[m].0 != s[k].0); } else { assert(s[k].0 != s[m].0); }
                }
            } else {
                assert forall|m: int| 0 <= m < t.len() implies #[trigger] t[m].0 != other by {
                    if m != i { assert(t[m] == s[m]); }
                }
            }
        }
    } else {
        assert(t[s.len() as int].0 == key);
        let j = choose|j: int| 0 <= j < t.len() && #[trigger] t[j].0 == key;
        if j < s.len() {
            assert(s[j] == t[j]);
        }
        if other != key {
            if exists|k: int| 0 <= k < s.len() && #[trigger] s[k].0 == other {
                let k = choose|k: int| 0 <= k < s.len() && #[trigger] s[k].0 == other;
                assert(t[k] == s[k]);
                let m = choose|m: int| 0 <= m < t.len() && #[trigger] t[m].0 == other;
                if m < s.len() {
                    assert(t[m] == s[m]);
                    if m != k {
                        if m < k { assert(s[m].0 != s[k].0); } else { assert(s[k].0 != s[m].0); }
                    }
                }
            } else {
                assert forall|m: int| 0 <= m < t.len() implies #[trigger] t[m].0 != other by {
                    if m < s.len() { assert(t[m] == s[m]); }
                }
            }
        }
    }
}

} // verus!
