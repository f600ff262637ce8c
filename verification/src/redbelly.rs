//! The Redbelly upstream vendor: its literal chain table and its
//! `ProviderConfig` implementation.

use vstd::prelude::*;
use crate::chain::{valid_chain_id, ChainId};
use crate::provider::{valid_endpoint_url, ProviderConfig, ProviderEndpoint, ProviderKind};
use crate::weight::{priority_weight, Priority, Weight, MAX_WEIGHT, MIN_WEIGHT};

verus! {

/// The endpoint table the Redbelly vendor declares: its testnet and mainnet
/// governor nodes, both at normal priority.
pub open spec fn monad_default_chains(s: Seq<(ChainId, ProviderEndpoint)>) -> bool {
    &&& s.len() == 2
    &&& s[0].0@ == "eip155:163"@
    &&& s[0].1.url@ == "https://governors.testnet.redbelly.network"@
    &&& s[0].1.weight.spec_value() == priority_weight(Priority::Normal)
    &&& s[1].0@ == "eip155:151"@
    &&& s[1].1.url@ == "https://governors.mainnet.redbelly.network"@
    &&& s[1].1.weight.spec_value() == priority_weight(Priority::Normal)
}

/// Wraps a literal that is already known to be a valid chain identifier.
fn literal_chain_id(s: &str) -> (r: ChainId)
    requires
        valid_chain_id(s@),
    ensures
        r@ == s@,
{
    match ChainId::parse(s) {
        Ok(c) => c,
        Err(_) => vstd::pervasive::unreached(),
    }
}

/// The normal-priority weight, always constructible.
fn normal_weight() -> (r: Weight)
    ensures
        r.spec_value() == priority_weight(Priority::Normal),
{
    match Weight::new(Priority::Normal) {
        Ok(w) => w,
        Err(_) => vstd::pervasive::unreached(),
    }
}

/// The chains supported by the Redbelly vendor over HTTP, with their
/// endpoints and weights.
pub fn default_supported_chains() -> (r: Vec<(ChainId, ProviderEndpoint)>)
    ensures
        monad_default_chains(r@),
{
    proof {
        reveal_strlit("eip155:163");
        reveal_strlit("eip155:151");
        reveal_strlit("eip155");
        assert("eip155:163"@.subrange(0, 6) =~= "eip155"@);
        assert("eip155:151"@.subrange(0, 6) =~= "eip155"@);
    }
    let c_testnet = literal_chain_id("eip155:163");
    let c_mainnet = literal_chain_id("eip155:151");
    let e_testnet = ProviderEndpoint {
        url: ("https://governors.testnet.redbelly.network").to_owned(),
        weight: normal_weight(),
    };
    let e_mainnet = ProviderEndpoint {
        url: ("https://governors.mainnet.redbelly.network").to_owned(),
        weight: normal_weight(),
    };
    let mut r: Vec<(ChainId, ProviderEndpoint)> = Vec::new();
    r.push((c_testnet, e_testnet));
    r.push((c_mainnet, e_mainnet));
    r
}

/// Every URL the Redbelly vendor declares is a well-formed endpoint, and
/// every weight it declares lies in the constructible routing range.
pub proof fn lemma_monad_chains_conformant(s: Seq<(ChainId, ProviderEndpoint)>)
    requires
        monad_default_chains(s),
    ensures
        forall|i: int| 0 <= i < s.len() ==> valid_endpoint_url(#[trigger] s[i].1.url@),
        forall|i: int|
            0 <= i < s.len() ==> MIN_WEIGHT <= #[trigger] s[i].1.weight.spec_value()
                <= MAX_WEIGHT,
{
    reveal_strlit("https://governors.testnet.redbelly.network");
    reveal_strlit("https://governors.mainnet.redbelly.network");
    reveal_strlit("https://");
    assert("https://governors.testnet.redbelly.network"@.subrange(0, 8) =~= "https://"@);
    assert("https://governors.mainnet.redbelly.network"@.subrange(0, 8) =~= "https://"@);
    assert(valid_endpoint_url("https://governors.testnet.redbelly.network"@));
    assert(valid_endpoint_url("https://governors.mainnet.redbelly.network"@));
    assert forall|i: int| 0 <= i < s.len() implies valid_endpoint_url(
        #[trigger] s[i].1.url@,
    ) by {
        if i == 0 {
        } else {
            assert(i == 1);
        }
    }
}

/// Registering the Redbelly vendor's table into an empty registry yields
/// exactly its two endpoints, each under its own chain.
pub proof fn lemma_monad_registration(
    t: Seq<(ChainId, ProviderEndpoint)>,
    s: Seq<(ChainId, ProviderEndpoint)>,
)
    requires
        t.len() == 0,
        monad_default_chains(s),
    ensures
        crate::provider::merge(t, s).len() == 2,
        crate::provider::merge(t, s)[0] == s[0],
        crate::provider::merge(t, s)[1] == s[1],
{
    reveal_strlit("eip155:163");
    reveal_strlit("eip155:151");
    assert("eip155:163"@[8] != "eip155:151"@[8]);
    let t1 = crate::provider::upsert(t, s[0].0, s[0].1);
    assert(t =~= Seq::<(ChainId, ProviderEndpoint)>::empty());
    assert(t1 =~= seq![(s[0].0, s[0].1)]);
    let t2 = crate::provider::upsert(t1, s[1].0, s[1].1);
    assert(t1.drop_first() =~= Seq::<(ChainId, ProviderEndpoint)>::empty());
    assert(crate::provider::upsert(t1.drop_first(), s[1].0, s[1].1) =~= seq![(s[1].0, s[1].1)]);
    assert(t2 =~= seq![(s[0].0, s[0].1), (s[1].0, s[1].1)]);
    assert(s.drop_first().drop_first() =~= Seq::<(ChainId, ProviderEndpoint)>::empty());
    assert(s.drop_first()[0] == s[1]);
    assert(crate::provider::merge(t, s) == crate::provider::merge(t1, s.drop_first()));
    assert(crate::provider::merge(t1, s.drop_first()) == crate::provider::merge(
        t2,
        s.drop_first().drop_first(),
    ));
}

/// Provider configuration for the Redbelly vendor.
#[derive(Debug)]
pub struct MonadConfig {
    pub supported_chains: Vec<(ChainId, ProviderEndpoint)>,
}

impl Default for MonadConfig {
    /// The vendor's literal table.
    fn default() -> (r: Self)
        ensures
            monad_default_chains(r.supported_chains@),
    {
        MonadConfig { supported_chains: default_supported_chains() }
    }
}

impl ProviderConfig for MonadConfig {
    open spec fn chains_spec(&self) -> Seq<(ChainId, ProviderEndpoint)> {
        self.supported_chains@
    }

    open spec fn ws_chains_spec(&self) -> Seq<(ChainId, ProviderEndpoint)> {
        Seq::empty()
    }

    open spec fn kind_spec(&self) -> ProviderKind {
        ProviderKind::Redbelly
    }

    fn supported_chains(self) -> (r: Vec<(ChainId, ProviderEndpoint)>) {
        self.supported_chains
    }

    fn supported_ws_chains(self) -> (r: Vec<(ChainId, ProviderEndpoint)>) {
        let r: Vec<(ChainId, ProviderEndpoint)> = Vec::new();
        proof {
            assert(r@ =~= Seq::<(ChainId, ProviderEndpoint)>::empty());
        }
        r
    }

    fn provider_kind(&self) -> (r: ProviderKind) {
        ProviderKind::Redbelly
    }
}

} // verus!
