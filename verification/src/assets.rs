//! The cross-chain bridging-asset registry: a static table from symbolic
//! asset name to per-chain contract address plus the parameters needed to
//! simulate a non-zero balance during route planning.

use vstd::prelude::*;
use crate::address::{
    address_wf, hex_addr_of, valid_hex_addr, valid_solana_address, AddressV, Eip155OrSolanaStatic,
    MalformedAddressLiteral,
};
use crate::chain::{valid_chain_id, ChainId};

verus! {

/// Lookup failure: the symbol is unknown, or it is known but carries no
/// entry for the requested chain.
#[derive(Clone, Copy, Debug, PartialEq, Eq, Structural)]
pub enum AssetError {
    AssetNotFound,
    ChainNotSupportedForAsset,
}

/// Metadata of a bridging asset.
#[derive(Clone, Copy, Debug, PartialEq, Eq, Structural)]
pub struct AssetMetadata {
    pub decimals: u8,
}

/// Asset simulation parameters to override the asset's balance state.
#[derive(Debug)]
pub struct SimulationParams {
    /// Asset contract balance storage slot number per chain.
    pub balance_storage_slots: Vec<(ChainId, u64)>,
    /// Balance override for the asset.
    pub balance: u128,
}

/// One bridging asset: its metadata, simulation parameters, and contract
/// address per CAIP-2 chain.
#[derive(Debug)]
pub struct AssetEntry {
    pub metadata: AssetMetadata,
    pub simulation: SimulationParams,
    pub contracts: Vec<(ChainId, Eip155OrSolanaStatic)>,
}

/// The slot registered for `chain`, later entries taking precedence.
pub open spec fn find_slot(ss: Seq<(ChainId, u64)>, chain: Seq<char>) -> Option<u64>
    decreases ss.len(),
{
    if ss.len() == 0 {
        Option::None
    } else if ss.last().0@ == chain {
        Option::Some(ss.last().1)
    } else {
        find_slot(ss.drop_last(), chain)
    }
}

/// The contract registered for `chain`, later entries taking precedence.
pub open spec fn find_contract(
    cs: Seq<(ChainId, Eip155OrSolanaStatic)>,
    chain: Seq<char>,
) -> Option<Eip155OrSolanaStatic>
    decreases cs.len(),
{
    if cs.len() == 0 {
        Option::None
    } else if cs.last().0@ == chain {
        Option::Some(cs.last().1)
    } else {
        find_contract(cs.drop_last(), chain)
    }
}

/// The entry registered for a symbol, later entries taking precedence.
pub open spec fn find_asset(t: Seq<(String, AssetEntry)>, sym: Seq<char>) -> Option<AssetEntry>
    decreases t.len(),
{
    if t.len() == 0 {
        Option::None
    } else if t.last().0@ == sym {
        Option::Some(t.last().1)
    } else {
        find_asset(t.drop_last(), sym)
    }
}

/// The chains keyed in a simulation-slot table, in table order.
pub open spec fn slot_keys(ss: Seq<(ChainId, u64)>) -> Seq<Seq<char>>
    decreases ss.len(),
{
    if ss.len() == 0 {
        Seq::empty()
    } else {
        slot_keys(ss.drop_last()).push(ss.last().0@)
    }
}

/// The chains keyed in a contract table, in table order.
pub open spec fn contract_keys(cs: Seq<(ChainId, Eip155OrSolanaStatic)>) -> Seq<Seq<char>>
    decreases cs.len(),
{
    if cs.len() == 0 {
        Seq::empty()
    } else {
        contract_keys(cs.drop_last()).push(cs.last().0@)
    }
}

/// The cross-table invariant of one asset: the simulation table covers
/// exactly the chains that carry a contract, and every address literal in
/// the contract table is well formed.
pub open spec fn entry_wf(e: AssetEntry) -> bool {
    &&& slot_keys(e.simulation.balance_storage_slots@) == contract_keys(e.contracts@)
    &&& forall|i: int|
        0 <= i < e.contracts@.len() ==> address_wf(#[trigger] e.contracts@[i].1@)
}

/// A slot exists for a chain exactly when the chain is keyed in the table.
pub proof fn lemma_find_slot_domain(ss: Seq<(ChainId, u64)>, chain: Seq<char>)
    ensures
        (find_slot(ss, chain) is Some) <==> slot_keys(ss).contains(chain),
    decreases ss.len(),
{
    if ss.len() == 0 {
        assert(!slot_keys(ss).contains(chain));
    } else {
        lemma_find_slot_domain(ss.drop_last(), chain);
        let keys = slot_keys(ss);
        let prev = slot_keys(ss.drop_last());
        if find_slot(ss, chain) is Some {
            if ss.last().0@ == chain {
                assert(keys[keys.len() - 1] == chain);
            } else {
                let k = choose|k: int| 0 <= k < prev.len() && prev[k] == chain;
                assert(keys[k] == chain);
            }
        }
        if keys.contains(chain) {
            let k = choose|k: int| 0 <= k < keys.len() && keys[k] == chain;
            if k < prev.len() {
                assert(prev[k] == chain);
            } else {
                assert(ss.last().0@ == chain);
            }
        }
    }
}

/// A contract exists for a chain exactly when the chain is keyed in the
/// table.
pub proof fn lemma_find_contract_domain(cs: Seq<(ChainId, Eip155OrSolanaStatic)>, chain: Seq<char>)
    ensures
        (find_contract(cs, chain) is Some) <==> contract_keys(cs).contains(chain),
    decreases cs.len(),
{
    if cs.len() == 0 {
        assert(!contract_keys(cs).contains(chain));
    } else {
        lemma_find_contract_domain(cs.drop_last(), chain);
        let keys = contract_keys(cs);
        let prev = contract_keys(cs.drop_last());
        if find_contract(cs, chain) is Some {
            if cs.last().0@ == chain {
                assert(keys[keys.len() - 1] == chain);
            } else {
                let k = choose|k: int| 0 <= k < prev.len() && prev[k] == chain;
                assert(keys[k] == chain);
            }
        }
        if keys.contains(chain) {
            let k = choose|k: int| 0 <= k < keys.len() && keys[k] == chain;
            if k < prev.len() {
                assert(prev[k] == chain);
            } else {
                assert(cs.last().0@ == chain);
            }
        }
    }
}

/// A found contract is one of the table's entries.
pub proof fn lemma_find_contract_member(cs: Seq<(ChainId, Eip155OrSolanaStatic)>, chain: Seq<char>)
    requires
        find_contract(cs, chain) is Some,
    ensures
        exists|i: int|
            0 <= i < cs.len() && cs[i].1 == find_contract(cs, chain)->Some_0,
    decreases cs.len(),
{
    if cs.last().0@ == chain {
        assert(cs[cs.len() - 1].1 == find_contract(cs, chain)->Some_0);
    } else {
        lemma_find_contract_member(cs.drop_last(), chain);
        let i = choose|i: int|
            0 <= i < cs.drop_last().len() && cs.drop_last()[i].1 == find_contract(
                cs.drop_last(),
                chain,
            )->Some_0;
        assert(cs[i].1 == find_contract(cs, chain)->Some_0);
    }
}

/// Finds the contract for `chain`, scanning later entries first.
fn scan_contracts(cs: &Vec<(ChainId, Eip155OrSolanaStatic)>, chain: &ChainId) -> (r: Option<
    Eip155OrSolanaStatic,
>)
    ensures
        match find_contract(cs@, chain@) {
            Option::Some(a) => r matches Some(b) && b@ == a@,
            Option::None => r is None,
        },
{
    let mut i = cs.len();
    proof {
        assert(cs@.subrange(0, cs@.len() as int) =~= cs@);
    }
    while i > 0
        invariant
            0 <= i <= cs@.len(),
            find_contract(cs@, chain@) == find_contract(cs@.subrange(0, i as int), chain@),
        decreases i,
    {
        proof {
            assert(cs@.subrange(0, i as int).last() == cs@[i - 1]);
            assert(cs@.subrange(0, i as int).drop_last() =~= cs@.subrange(0, i - 1));
        }
        if cs[i - 1].0.eq_chain(chain) {
            return Some(cs[i - 1].1.dup());
        }
        i -= 1;
    }
    proof {
        assert(cs@.subrange(0, 0) =~= Seq::<(ChainId, Eip155OrSolanaStatic)>::empty());
    }
    None
}

/// Finds the simulation slot for `chain`, scanning later entries first.
fn scan_slots(ss: &Vec<(ChainId, u64)>, chain: &ChainId) -> (r: Option<u64>)
    ensures
        r == find_slot(ss@, chain@),
{
    let mut i = ss.len();
    proof {
        assert(ss@.subrange(0, ss@.len() as int) =~= ss@);
    }
    while i > 0
        invariant
            0 <= i <= ss@.len(),
            find_slot(ss@, chain@) == find_slot(ss@.subrange(0, i as int), chain@),
        decreases i,
    {
        proof {
            assert(ss@.subrange(0, i as int).last() == ss@[i - 1]);
            assert(ss@.subrange(0, i as int).drop_last() =~= ss@.subrange(0, i - 1));
        }
        if ss[i - 1].0.eq_chain(chain) {
            return Some(ss[i - 1].1);
        }
        i -= 1;
    }
    proof {
        assert(ss@.subrange(0, 0) =~= Seq::<(ChainId, u64)>::empty());
    }
    None
}

/// The static table from symbolic asset name to per-chain contract data and
/// simulation overrides. Built once from literals; read-only afterwards.
#[derive(Debug)]
pub struct AssetRegistry {
    assets: Vec<(String, AssetEntry)>,
}

impl AssetRegistry {
    /// The registry's table.
    pub closed spec fn table(&self) -> Seq<(String, AssetEntry)> {
        self.assets@
    }

    /// Every asset entry satisfies the cross-table invariant.
    pub open spec fn wf(&self) -> bool {
        forall|i: int| 0 <= i < self.table().len() ==> entry_wf(#[trigger] self.table()[i].1)
    }

    /// The sentinel address standing for a chain's native asset, the same
    /// on every EVM chain and distinct from any real contract.
    pub fn native_token_address() -> (r: Eip155OrSolanaStatic)
        ensures
            r@ == AddressV::Eip155(native_token_bytes()),
    {
        let mut v: Vec<u8> = Vec::new();
        let mut i: usize = 0;
        while i < 20
            invariant
                0 <= i <= 20,
                v@.len() == i,
                forall|j: int| 0 <= j < i ==> v@[j] == 0xee as u8,
            decreases 20 - i,
        {
            v.push(0xee);
            i += 1;
        }
        proof {
            assert(v@ =~= native_token_bytes());
        }
        Eip155OrSolanaStatic::Eip155(v)
    }

    /// Resolves `symbol` on `chain` to the contract address and metadata.
    /// Fails with `AssetNotFound` for an unknown symbol and with
    /// `ChainNotSupportedForAsset` for a known symbol without a contract on
    /// that chain.
    pub fn lookup(&self, symbol: &str, chain: &ChainId) -> (r: Result<
        (Eip155OrSolanaStatic, AssetMetadata),
        AssetError,
    >)
        ensures
            match find_asset(self.table(), symbol@) {
                Option::None => r matches Err(e) && e == AssetError::AssetNotFound,
                Option::Some(entry) => match find_contract(entry.contracts@, chain@) {
                    Option::None => r matches Err(e) && e == AssetError::ChainNotSupportedForAsset,
                    Option::Some(a) => r matches Ok(p) && p.0@ == a@ && p.1 == entry.metadata,
                },
            },
            self.wf() ==> (r matches Ok(p) ==> address_wf(p.0@)),
    {
        let sym = symbol.to_owned();
        let mut i = self.assets.len();
        proof {
            assert(self.assets@.subrange(0, self.assets@.len() as int) =~= self.assets@);
        }
        while i > 0
            invariant
                0 <= i <= self.assets@.len(),
                sym@ == symbol@,
                find_asset(self.assets@, symbol@) == find_asset(
                    self.assets@.subrange(0, i as int),
                    symbol@,
                ),
            decreases i,
        {
            proof {
                assert(self.assets@.subrange(0, i as int).last() == self.assets@[i - 1]);
                assert(self.assets@.subrange(0, i as int).drop_last() =~= self.assets@.subrange(
                    0,
                    i - 1,
                ));
            }
            if self.assets[i - 1].0 == sym {
                let entry = &self.assets[i - 1].1;
                match scan_contracts(&entry.contracts, chain) {
                    Some(a) => {
                        proof {
                            if self.wf() {
                                lemma_find_contract_member(entry.contracts@, chain@);
                            }
                        }
                        return Ok((a, entry.metadata));
                    },
                    None => {
                        return Err(AssetError::ChainNotSupportedForAsset);
                    },
                }
            }
            i -= 1;
        }
        proof {
            assert(self.assets@.subrange(0, 0) =~= Seq::<(String, AssetEntry)>::empty());
        }
        Err(AssetError::AssetNotFound)
    }

    /// Resolves `symbol` on `chain` to the balance storage slot and the
    /// balance override used by simulation, with the same failure modes as
    /// `lookup`.
    pub fn simulation_override(&self, symbol: &str, chain: &ChainId) -> (r: Result<
        (u64, u128),
        AssetError,
    >)
        ensures
            match find_asset(self.table(), symbol@) {
                Option::None => r matches Err(e) && e == AssetError::AssetNotFound,
                Option::Some(entry) => match find_slot(
                    entry.simulation.balance_storage_slots@,
                    chain@,
                ) {
                    Option::None => r matches Err(e) && e == AssetError::ChainNotSupportedForAsset,
                    Option::Some(slot) => r matches Ok(p) && p.0 == slot && p.1
                        == entry.simulation.balance,
                },
            },
    {
        let sym = symbol.to_owned();
        let mut i = self.assets.len();
        proof {
            assert(self.assets@.subrange(0, self.assets@.len() as int) =~= self.assets@);
        }
        while i > 0
            invariant
                0 <= i <= self.assets@.len(),
                sym@ == symbol@,
                find_asset(self.assets@, symbol@) == find_asset(
                    self.assets@.subrange(0, i as int),
                    symbol@,
                ),
            decreases i,
        {
            proof {
                assert(self.assets@.subrange(0, i as int).last() == self.assets@[i - 1]);
                assert(self.assets@.subrange(0, i as int).drop_last() =~= self.assets@.subrange(
                    0,
                    i - 1,
                ));
            }
            if self.assets[i - 1].0 == sym {
                let entry = &self.assets[i - 1].1;
                match scan_slots(&entry.simulation.balance_storage_slots, chain) {
                    Some(slot) => {
                        return Ok((slot, entry.simulation.balance));
                    },
                    None => {
                        return Err(AssetError::ChainNotSupportedForAsset);
                    },
                }
            }
            i -= 1;
        }
        proof {
            assert(self.assets@.subrange(0, 0) =~= Seq::<(String, AssetEntry)>::empty());
        }
        Err(AssetError::AssetNotFound)
    }
}

/// The bytes of the native-asset sentinel address: `0xee` twenty times.
pub open spec fn native_token_bytes() -> Seq<u8> {
    Seq::new(20, |i: int| 0xee as u8)
}

/// Facts about the chain-identifier literals of the asset tables.
proof fn lemma_chain_literal_facts()
    ensures
        valid_chain_id("eip155:10"@),
        valid_chain_id("eip155:8453"@),
        valid_chain_id("eip155:42161"@),
        valid_chain_id("solana:5eykt4UsFv8P8NJdTREpY1vzqKqZKvdp"@),
{
    reveal_strlit("eip155:10");
    reveal_strlit("eip155:8453");
    reveal_strlit("eip155:42161");
    reveal_strlit("solana:5eykt4UsFv8P8NJdTREpY1vzqKqZKvdp");
    reveal_strlit("eip155");
    reveal_strlit("solana");
    assert("eip155:10"@.subrange(0, 6) =~= "eip155"@);
    assert("eip155:8453"@.subrange(0, 6) =~= "eip155"@);
    assert("eip155:42161"@.subrange(0, 6) =~= "eip155"@);
    assert("solana:5eykt4UsFv8P8NJdTREpY1vzqKqZKvdp"@.subrange(0, 6) =~= "solana"@);
}

/// Contents of the USDS entry: its only contract sits on Base, with
/// 18 decimals, storage slot 2 and the large override balance.
pub open spec fn usds_entry_spec(e: AssetEntry) -> bool {
    &&& e.metadata.decimals == 18
    &&& e.simulation.balance == 99000000000000000000000u128
    &&& e.simulation.balance_storage_slots@.len() == 1
    &&& e.simulation.balance_storage_slots@[0].0@ == "eip155:8453"@
    &&& e.simulation.balance_storage_slots@[0].1 == 2u64
    &&& e.contracts@.len() == 1
    &&& e.contracts@[0].0@ == "eip155:8453"@
    &&& e.contracts@[0].1@ == AddressV::Eip155(
        hex_addr_of("820c137fa70c8691f0e44dc420a5e53c168921dc"@),
    )
}

/// Builds the USDS entry from its literals.
fn usds_entry() -> (r: Result<AssetEntry, MalformedAddressLiteral>)
    ensures
        r is Ok <==> valid_hex_addr("820c137fa70c8691f0e44dc420a5e53c168921dc"@),
        r matches Ok(e) ==> usds_entry_spec(e) && entry_wf(e),
{
    proof {
        lemma_chain_literal_facts();
    }
    let a = match Eip155OrSolanaStatic::eip155_from_hex("820c137fa70c8691f0e44dc420a5e53c168921dc") {
        Ok(a) => a,
        Err(er) => {
            return Err(er);
        },
    };
    let mut contracts: Vec<(ChainId, Eip155OrSolanaStatic)> = Vec::new();
    contracts.push((ChainId::from_literal("eip155:8453"), a));
    let mut slots: Vec<(ChainId, u64)> = Vec::new();
    slots.push((ChainId::from_literal("eip155:8453"), 2u64));
    let e = AssetEntry {
        metadata: AssetMetadata { decimals: 18 },
        simulation: SimulationParams { balance_storage_slots: slots, balance: 99000000000000000000000u128 },
        contracts,
    };
    proof {
        let sl = e.simulation.balance_storage_slots@;
        let cq = e.contracts@;
        assert(sl.drop_last() =~= Seq::<(ChainId, u64)>::empty());
        assert(slot_keys(sl.drop_last()) =~= Seq::<Seq<char>>::empty());
        assert(slot_keys(sl) =~= seq!["eip155:8453"@]);
        assert(cq.drop_last() =~= Seq::<(ChainId, Eip155OrSolanaStatic)>::empty());
        assert(contract_keys(cq.drop_last()) =~= Seq::<Seq<char>>::empty());
        assert(contract_keys(cq) =~= seq!["eip155:8453"@]);
        assert(address_wf(cq[0].1@));
        assert(entry_wf(e));
    }
    Ok(e)
}

/// Contents of the USDC entry: contracts on Optimism, Base, Arbitrum and
/// Solana, 6 decimals, slot 9 on each EVM chain; the Solana chain, which
/// has no storage-slot notion, carries the sentinel slot 0 so that the
/// simulation table covers every contract chain.
pub open spec fn usdc_entry_spec(e: AssetEntry) -> bool {
    &&& e.metadata.decimals == 6
    &&& e.simulation.balance == 99000000000u128
    &&& e.simulation.balance_storage_slots@.len() == 4
    &&& e.simulation.balance_storage_slots@[0].0@ == "eip155:10"@
    &&& e.simulation.balance_storage_slots@[0].1 == 9u64
    &&& e.simulation.balance_storage_slots@[1].0@ == "eip155:8453"@
    &&& e.simulation.balance_storage_slots@[1].1 == 9u64
    &&& e.simulation.balance_storage_slots@[2].0@ == "eip155:42161"@
    &&& e.simulation.balance_storage_slots@[2].1 == 9u64
    &&& e.simulation.balance_storage_slots@[3].0@ == "solana:5eykt4UsFv8P8NJdTREpY1vzqKqZKvdp"@
    &&& e.simulation.balance_storage_slots@[3].1 == 0u64
    &&& e.contracts@.len() == 4
    &&& e.contracts@[0].0@ == "eip155:10"@
    &&& e.contracts@[0].1@ == AddressV::Eip155(
        hex_addr_of("0b2c639c533813f4aa9d7837caf62653d097ff85"@),
    )
    &&& e.contracts@[1].0@ == "eip155:8453"@
    &&& e.contracts@[1].1@ == AddressV::Eip155(
        hex_addr_of("833589fCD6eDb6E08f4c7C32D4f71b54bdA02913"@),
    )
    &&& e.contracts@[2].0@ == "eip155:42161"@
    &&& e.contracts@[2].1@ == AddressV::Eip155(
        hex_addr_of("af88d065e77c8cC2239327C5EDb3A432268e5831"@),
    )
    &&& e.contracts@[3].0@ == "solana:5eykt4UsFv8P8NJdTREpY1vzqKqZKvdp"@
    &&& e.contracts@[3].1@ == AddressV::Solana("EPjFWdd5AufqSSqeM2qN1xzybapC8G4wEGGkZwyTDt1v"@)
}

/// Builds the USDC entry from its literals.
fn usdc_entry() -> (r: Result<AssetEntry, MalformedAddressLiteral>)
    ensures
        r is Ok <==> ({
            &&& valid_hex_addr("0b2c639c533813f4aa9d7837caf62653d097ff85"@)
            &&& valid_hex_addr("833589fCD6eDb6E08f4c7C32D4f71b54bdA02913"@)
            &&& valid_hex_addr("af88d065e77c8cC2239327C5EDb3A432268e5831"@)
            &&& valid_solana_address("EPjFWdd5AufqSSqeM2qN1xzybapC8G4wEGGkZwyTDt1v"@)
        }),
        r matches Ok(e) ==> usdc_entry_spec(e) && entry_wf(e),
{
    proof {
        lemma_chain_literal_facts();
    }
    let a10 = match Eip155OrSolanaStatic::eip155_from_hex("0b2c639c533813f4aa9d7837caf62653d097ff85") {
        Ok(a) => a,
        Err(er) => {
            return Err(er);
        },
    };
    let a8453 = match Eip155OrSolanaStatic::eip155_from_hex("833589fCD6eDb6E08f4c7C32D4f71b54bdA02913") {
        Ok(a) => a,
        Err(er) => {
            return Err(er);
        },
    };
    let a42161 = match Eip155OrSolanaStatic::eip155_from_hex("af88d065e77c8cC2239327C5EDb3A432268e5831") {
        Ok(a) => a,
        Err(er) => {
            return Err(er);
        },
    };
    let asol = match Eip155OrSolanaStatic::solana("EPjFWdd5AufqSSqeM2qN1xzybapC8G4wEGGkZwyTDt1v") {
        Ok(a) => a,
        Err(er) => {
            return Err(er);
        },
    };
    let mut contracts: Vec<(ChainId, Eip155OrSolanaStatic)> = Vec::new();
    contracts.push((ChainId::from_literal("eip155:10"), a10));
    contracts.push((ChainId::from_literal("eip155:8453"), a8453));
    contracts.push((ChainId::from_literal("eip155:42161"), a42161));
    contracts.push((ChainId::from_literal("solana:5eykt4UsFv8P8NJdTREpY1vzqKqZKvdp"), asol));
    let mut slots: Vec<(ChainId, u64)> = Vec::new();
    slots.push((ChainId::from_literal("eip155:10"), 9u64));
    slots.push((ChainId::from_literal("eip155:8453"), 9u64));
    slots.push((ChainId::from_literal("eip155:42161"), 9u64));
    slots.push((ChainId::from_literal("solana:5eykt4UsFv8P8NJdTREpY1vzqKqZKvdp"), 0u64));
    let e = AssetEntry {
        metadata: AssetMetadata { decimals: 6 },
        simulation: SimulationParams { balance_storage_slots: slots, balance: 99000000000u128 },
        contracts,
    };
    proof {
        let sl = e.simulation.balance_storage_slots@;
        let sl3 = sl.drop_last();
        let sl2 = sl3.drop_last();
        let sl1 = sl2.drop_last();
        assert(sl1.drop_last() =~= Seq::<(ChainId, u64)>::empty());
        assert(slot_keys(sl1.drop_last()) =~= Seq::<Seq<char>>::empty());
        assert(slot_keys(sl1) =~= seq!["eip155:10"@]);
        assert(slot_keys(sl2) =~= seq!["eip155:10"@, "eip155:8453"@]);
        assert(slot_keys(sl3) =~= seq!["eip155:10"@, "eip155:8453"@, "eip155:42161"@]);
        assert(slot_keys(sl) =~= seq![
            "eip155:10"@,
            "eip155:8453"@,
            "eip155:42161"@,
            "solana:5eykt4UsFv8P8NJdTREpY1vzqKqZKvdp"@,
        ]);
        let cq = e.contracts@;
        let cq3 = cq.drop_last();
        let cq2 = cq3.drop_last();
        let cq1 = cq2.drop_last();
        assert(cq1.drop_last() =~= Seq::<(ChainId, Eip155OrSolanaStatic)>::empty());
        assert(contract_keys(cq1.drop_last()) =~= Seq::<Seq<char>>::empty());
        assert(contract_keys(cq1) =~= seq!["eip155:10"@]);
        assert(contract_keys(cq2) =~= seq!["eip155:10"@, "eip155:8453"@]);
        assert(contract_keys(cq3) =~= seq!["eip155:10"@, "eip155:8453"@, "eip155:42161"@]);
        assert(contract_keys(cq) =~= seq![
            "eip155:10"@,
            "eip155:8453"@,
            "eip155:42161"@,
            "solana:5eykt4UsFv8P8NJdTREpY1vzqKqZKvdp"@,
        ]);
        assert forall|i: int| 0 <= i < cq.len() implies address_wf(#[trigger] cq[i].1@) by {
            if i == 0 {
            } else if i == 1 {
            } else if i == 2 {
            } else {
                assert(i == 3);
            }
        }
        assert(entry_wf(e));
    }
    Ok(e)
}

/// Contents of the USDT entry: contracts on Optimism and Arbitrum,
/// 6 decimals, slots 0 and 51.
pub open spec fn usdt_entry_spec(e: AssetEntry) -> bool {
    &&& e.metadata.decimals == 6
    &&& e.simulation.balance == 99000000000u128
    &&& e.simulation.balance_storage_slots@.len() == 2
    &&& e.simulation.balance_storage_slots@[0].0@ == "eip155:10"@
    &&& e.simulation.balance_storage_slots@[0].1 == 0u64
    &&& e.simulation.balance_storage_slots@[1].0@ == "eip155:42161"@
    &&& e.simulation.balance_storage_slots@[1].1 == 51u64
    &&& e.contracts@.len() == 2
    &&& e.contracts@[0].0@ == "eip155:10"@
    &&& e.contracts@[0].1@ == AddressV::Eip155(
        hex_addr_of("94b008aA00579c1307B0EF2c499aD98a8ce58e58"@),
    )
    &&& e.contracts@[1].0@ == "eip155:42161"@
    &&& e.contracts@[1].1@ == AddressV::Eip155(
        hex_addr_of("Fd086bC7CD5C481DCC9C85ebE478A1C0b69FCbb9"@),
    )
}

/// Builds the USDT entry from its literals.
fn usdt_entry() -> (r: Result<AssetEntry, MalformedAddressLiteral>)
    ensures
        r is Ok <==> ({
            &&& valid_hex_addr("94b008aA00579c1307B0EF2c499aD98a8ce58e58"@)
            &&& valid_hex_addr("Fd086bC7CD5C481DCC9C85ebE478A1C0b69FCbb9"@)
        }),
        r matches Ok(e) ==> usdt_entry_spec(e) && entry_wf(e),
{
    proof {
        lemma_chain_literal_facts();
    }
    let a10 = match Eip155OrSolanaStatic::eip155_from_hex("94b008aA00579c1307B0EF2c499aD98a8ce58e58") {
        Ok(a) => a,
        Err(er) => {
            return Err(er);
        },
    };
    let a42161 = match Eip155OrSolanaStatic::eip155_from_hex("Fd086bC7CD5C481DCC9C85ebE478A1C0b69FCbb9") {
        Ok(a) => a,
        Err(er) => {
            return Err(er);
        },
    };
    let mut contracts: Vec<(ChainId, Eip155OrSolanaStatic)> = Vec::new();
    contracts.push((ChainId::from_literal("eip155:10"), a10));
    contracts.push((ChainId::from_literal("eip155:42161"), a42161));
    let mut slots: Vec<(ChainId, u64)> = Vec::new();
    slots.push((ChainId::from_literal("eip155:10"), 0u64));
    slots.push((ChainId::from_literal("eip155:42161"), 51u64));
    let e = AssetEntry {
        metadata: AssetMetadata { decimals: 6 },
        simulation: SimulationParams { balance_storage_slots: slots, balance: 99000000000u128 },
        contracts,
    };
    proof {
        let sl = e.simulation.balance_storage_slots@;
        let sl1 = sl.drop_last();
        assert(sl1.drop_last() =~= Seq::<(ChainId, u64)>::empty());
        assert(slot_keys(sl1.drop_last()) =~= Seq::<Seq<char>>::empty());
        assert(slot_keys(sl1) =~= seq!["eip155:10"@]);
        assert(slot_keys(sl) =~= seq!["eip155:10"@, "eip155:42161"@]);
        let cq = e.contracts@;
        let cq1 = cq.drop_last();
        assert(cq1.drop_last() =~= Seq::<(ChainId, Eip155OrSolanaStatic)>::empty());
        assert(contract_keys(cq1.drop_last()) =~= Seq::<Seq<char>>::empty());
        assert(contract_keys(cq1) =~= seq!["eip155:10"@]);
        assert(contract_keys(cq) =~= seq!["eip155:10"@, "eip155:42161"@]);
        assert forall|i: int| 0 <= i < cq.len() implies address_wf(#[trigger] cq[i].1@) by {
            if i == 0 {
            } else {
                assert(i == 1);
            }
        }
        assert(entry_wf(e));
    }
    Ok(e)
}

/// Contents of the ETH entry: the native-asset sentinel on Optimism, Base
/// and Arbitrum, 18 decimals, slot 0 everywhere.
pub open spec fn eth_entry_spec(e: AssetEntry) -> bool {
    &&& e.metadata.decimals == 18
    &&& e.simulation.balance == 99000000000000000000000u128
    &&& e.simulation.balance_storage_slots@.len() == 3
    &&& e.simulation.balance_storage_slots@[0].0@ == "eip155:10"@
    &&& e.simulation.balance_storage_slots@[0].1 == 0u64
    &&& e.simulation.balance_storage_slots@[1].0@ == "eip155:8453"@
    &&& e.simulation.balance_storage_slots@[1].1 == 0u64
    &&& e.simulation.balance_storage_slots@[2].0@ == "eip155:42161"@
    &&& e.simulation.balance_storage_slots@[2].1 == 0u64
    &&& e.contracts@.len() == 3
    &&& e.contracts@[0].0@ == "eip155:10"@
    &&& e.contracts@[0].1@ == AddressV::Eip155(native_token_bytes())
    &&& e.contracts@[1].0@ == "eip155:8453"@
    &&& e.contracts@[1].1@ == AddressV::Eip155(native_token_bytes())
    &&& e.contracts@[2].0@ == "eip155:42161"@
    &&& e.contracts@[2].1@ == AddressV::Eip155(native_token_bytes())
}

/// Builds the ETH entry; all its addresses are the native-asset sentinel,
/// so construction is total.
fn eth_entry() -> (e: AssetEntry)
    ensures
        eth_entry_spec(e) && entry_wf(e),
{
    proof {
        lemma_chain_literal_facts();
    }
    let mut contracts: Vec<(ChainId, Eip155OrSolanaStatic)> = Vec::new();
    contracts.push((ChainId::from_literal("eip155:10"), AssetRegistry::native_token_address()));
    contracts.push((ChainId::from_literal("eip155:8453"), AssetRegistry::native_token_address()));
    contracts.push((ChainId::from_literal("eip155:42161"), AssetRegistry::native_token_address()));
    let mut slots: Vec<(ChainId, u64)> = Vec::new();
    slots.push((ChainId::from_literal("eip155:10"), 0u64));
    slots.push((ChainId::from_literal("eip155:8453"), 0u64));
    slots.push((ChainId::from_literal("eip155:42161"), 0u64));
    let e = AssetEntry {
        metadata: AssetMetadata { decimals: 18 },
        simulation: SimulationParams {
            balance_storage_slots: slots,
            balance: 99000000000000000000000u128,
        },
        contracts,
    };
    proof {
        let sl = e.simulation.balance_storage_slots@;
        let sl2 = sl.drop_last();
        let sl1 = sl2.drop_last();
        assert(sl1.drop_last() =~= Seq::<(ChainId, u64)>::empty());
        assert(slot_keys(sl1.drop_last()) =~= Seq::<Seq<char>>::empty());
        assert(slot_keys(sl1) =~= seq!["eip155:10"@]);
        assert(slot_keys(sl2) =~= seq!["eip155:10"@, "eip155:8453"@]);
        assert(slot_keys(sl) =~= seq!["eip155:10"@, "eip155:8453"@, "eip155:42161"@]);
        let cq = e.contracts@;
        let cq2 = cq.drop_last();
        let cq1 = cq2.drop_last();
        assert(cq1.drop_last() =~= Seq::<(ChainId, Eip155OrSolanaStatic)>::empty());
        assert(contract_keys(cq1.drop_last()) =~= Seq::<Seq<char>>::empty());
        assert(contract_keys(cq1) =~= seq!["eip155:10"@]);
        assert(contract_keys(cq2) =~= seq!["eip155:10"@, "eip155:8453"@]);
        assert(contract_keys(cq) =~= seq!["eip155:10"@, "eip155:8453"@, "eip155:42161"@]);
        assert forall|i: int| 0 <= i < cq.len() implies address_wf(#[trigger] cq[i].1@) by {
            if i == 0 {
            } else if i == 1 {
            } else {
                assert(i == 2);
            }
        }
        assert(entry_wf(e));
    }
    e
}

/// Every address literal of the asset tables parses.
pub open spec fn bridging_literals_ok() -> bool {
    &&& valid_hex_addr("0b2c639c533813f4aa9d7837caf62653d097ff85"@)
    &&& valid_hex_addr("833589fCD6eDb6E08f4c7C32D4f71b54bdA02913"@)
    &&& valid_hex_addr("af88d065e77c8cC2239327C5EDb3A432268e5831"@)
    &&& valid_solana_address("EPjFWdd5AufqSSqeM2qN1xzybapC8G4wEGGkZwyTDt1v"@)
    &&& valid_hex_addr("94b008aA00579c1307B0EF2c499aD98a8ce58e58"@)
    &&& valid_hex_addr("Fd086bC7CD5C481DCC9C85ebE478A1C0b69FCbb9"@)
    &&& valid_hex_addr("820c137fa70c8691f0e44dc420a5e53c168921dc"@)
}

impl AssetRegistry {
    /// Builds the full bridging-asset table, validating every literal; this
    /// is the startup self-check, so a malformed literal surfaces here and
    /// never reaches serving traffic.
    pub fn bridging_assets() -> (r: Result<AssetRegistry, MalformedAddressLiteral>)
        ensures
            r is Ok <==> bridging_literals_ok(),
            r matches Ok(reg) ==> ({
                &&& reg.wf()
                &&& reg.table().len() == 4
                &&& reg.table()[0].0@ == "USDC"@ && usdc_entry_spec(reg.table()[0].1)
                &&& reg.table()[1].0@ == "USDT"@ && usdt_entry_spec(reg.table()[1].1)
                &&& reg.table()[2].0@ == "USDS"@ && usds_entry_spec(reg.table()[2].1)
                &&& reg.table()[3].0@ == "ETH"@ && eth_entry_spec(reg.table()[3].1)
                &&& find_asset(reg.table(), "USDC"@) == Option::Some(reg.table()[0].1)
                &&& find_asset(reg.table(), "USDT"@) == Option::Some(reg.table()[1].1)
                &&& find_asset(reg.table(), "USDS"@) == Option::Some(reg.table()[2].1)
                &&& find_asset(reg.table(), "ETH"@) == Option::Some(reg.table()[3].1)
            }),
    {
        let usdc = match usdc_entry() {
            Ok(e) => e,
            Err(er) => {
                return Err(er);
            },
        };
        let usdt = match usdt_entry() {
            Ok(e) => e,
            Err(er) => {
                return Err(er);
            },
        };
        let usds = match usds_entry() {
            Ok(e) => e,
            Err(er) => {
                return Err(er);
            },
        };
        let eth = eth_entry();
        let mut assets: Vec<(String, AssetEntry)> = Vec::new();
        assets.push((("USDC").to_owned(), usdc));
        assets.push((("USDT").to_owned(), usdt));
        assets.push((("USDS").to_owned(), usds));
        assets.push((("ETH").to_owned(), eth));
        let reg = AssetRegistry { assets };
        proof {
            reveal_strlit("USDC");
            reveal_strlit("USDT");
            reveal_strlit("USDS");
            reveal_strlit("ETH");
            let t = reg.table();
            let t3 = t.drop_last();
            let t2 = t3.drop_last();
            let t1 = t2.drop_last();
            assert(t1.drop_last() =~= Seq::<(String, AssetEntry)>::empty());
            assert("USDC"@[3] != "USDT"@[3]);
            assert("USDC"@[3] != "USDS"@[3]);
            assert("USDT"@[3] != "USDS"@[3]);
            assert("USDC"@.len() != "ETH"@.len());
            assert("USDT"@.len() != "ETH"@.len());
            assert("USDS"@.len() != "ETH"@.len());
            assert(t1.last() == t[0] && t2.last() == t[1] && t3.last() == t[2] && t.last()
                == t[3]);
            assert(find_asset(t1, "USDC"@) == Option::Some(t[0].1));
            assert(find_asset(t2, "USDC"@) == Option::Some(t[0].1));
            assert(find_asset(t3, "USDC"@) == Option::Some(t[0].1));
            assert(find_asset(t, "USDC"@) == Option::Some(t[0].1));
            assert(find_asset(t2, "USDT"@) == Option::Some(t[1].1));
            assert(find_asset(t3, "USDT"@) == Option::Some(t[1].1));
            assert(find_asset(t, "USDT"@) == Option::Some(t[1].1));
            assert(find_asset(t3, "USDS"@) == Option::Some(t[2].1));
            assert(find_asset(t, "USDS"@) == Option::Some(t[2].1));
            assert(find_asset(t, "ETH"@) == Option::Some(t[3].1));
            assert forall|i: int| 0 <= i < reg.table().len() implies entry_wf(
                #[trigger] reg.table()[i].1,
            ) by {
                if i == 0 {
                } else if i == 1 {
                } else if i == 2 {
                } else {
                    assert(i == 3);
                }
            }
        }
        Ok(reg)
    }
}

/// In a well-formed registry, an asset's simulation table and its contract
/// table cover exactly the same chains: a slot exists for a chain if and
/// only if a contract exists there. In particular, whenever `lookup`
/// succeeds, `simulation_override` succeeds for the same pair.
pub proof fn lemma_simulation_matches_contracts(reg: AssetRegistry, i: int, chain: Seq<char>)
    requires
        reg.wf(),
        0 <= i < reg.table().len(),
    ensures
        (find_slot(reg.table()[i].1.simulation.balance_storage_slots@, chain) is Some) <==> (
        find_contract(reg.table()[i].1.contracts@, chain) is Some),
{
    let e = reg.table()[i].1;
    lemma_find_slot_domain(e.simulation.balance_storage_slots@, chain);
    lemma_find_contract_domain(e.contracts@, chain);
}

} // verus!
