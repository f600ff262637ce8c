//! The weighted multi-provider routing table: per-vendor sources are merged
//! into one chain-to-endpoints table, which serves weighted random selection
//! with failover exclusion.

use vstd::prelude::*;
use crate::chain::{ChainId, starts_with};
use crate::weight::{Weight, MAX_WEIGHT, MIN_WEIGHT};

verus! {

/// Identifies the upstream vendor behind a provider configuration.
#[derive(Clone, Copy, Debug, PartialEq, Eq, Structural)]
pub enum ProviderKind {
    Redbelly,
}

/// Routing failure: the chain is unknown or every endpoint for it was
/// excluded by the caller's retry loop.
#[derive(Clone, Copy, Debug, PartialEq, Eq, Structural)]
pub struct NoProvider;

/// One upstream RPC endpoint with its routing weight.
#[derive(Debug, PartialEq, Eq)]
pub struct ProviderEndpoint {
    pub url: String,
    pub weight: Weight,
}

impl ProviderEndpoint {
    /// An owned copy of the endpoint.
    pub fn dup(&self) -> (r: Self)
        ensures
            r == *self,
    {
        ProviderEndpoint { url: self.url.clone(), weight: self.weight }
    }
}

/// A well-formed endpoint URL: an HTTP or WS scheme and a non-empty rest.
pub open spec fn valid_endpoint_url(s: Seq<char>) -> bool {
    ||| (starts_with(s, "https://"@) && s.len() > "https://"@.len())
    ||| (starts_with(s, "http://"@) && s.len() > "http://"@.len())
    ||| (starts_with(s, "wss://"@) && s.len() > "wss://"@.len())
    ||| (starts_with(s, "ws://"@) && s.len() > "ws://"@.len())
}

/// Checks that `s` is a well-formed endpoint URL.
pub fn is_valid_endpoint_url(s: &str) -> (r: bool)
    ensures
        r == valid_endpoint_url(s@),
{
    proof {
        reveal_strlit("https://");
        reveal_strlit("http://");
        reveal_strlit("wss://");
        reveal_strlit("ws://");
    }
    let n = s.unicode_len();
    if crate::chain::has_prefix(s, "https://") && n > 8 {
        return true;
    }
    if crate::chain::has_prefix(s, "http://") && n > 7 {
        return true;
    }
    if crate::chain::has_prefix(s, "wss://") && n > 6 {
        return true;
    }
    if crate::chain::has_prefix(s, "ws://") && n > 5 {
        return true;
    }
    false
}

/// One upstream vendor's configuration: the chains it serves per protocol
/// and its identity, literal-derived and total.
pub trait ProviderConfig: Sized {
    /// The HTTP endpoints the vendor declares, one `(chain, endpoint)` pair
    /// per supported chain.
    spec fn chains_spec(&self) -> Seq<(ChainId, ProviderEndpoint)>;

    /// The WS endpoints the vendor declares; empty for vendors without
    /// streaming support.
    spec fn ws_chains_spec(&self) -> Seq<(ChainId, ProviderEndpoint)>;

    /// Which vendor this is.
    spec fn kind_spec(&self) -> ProviderKind;

    /// Hands out the vendor's HTTP endpoint table.
    fn supported_chains(self) -> (r: Vec<(ChainId, ProviderEndpoint)>)
        ensures
            r@ == self.chains_spec(),
    ;

    /// Hands out the vendor's WS endpoint table.
    fn supported_ws_chains(self) -> (r: Vec<(ChainId, ProviderEndpoint)>)
        ensures
            r@ == self.ws_chains_spec(),
    ;

    /// Identifies the vendor, for diagnostics and caller-driven exclusion.
    fn provider_kind(&self) -> (r: ProviderKind)
        ensures
            r == self.kind_spec(),
    ;
}

/// Endpoints registered for `chain`, in registration order.
pub open spec fn eps_for(t: Seq<(ChainId, ProviderEndpoint)>, chain: Seq<char>) -> Seq<ProviderEndpoint>
    decreases t.len(),
{
    if t.len() == 0 {
        Seq::empty()
    } else {
        let rest = eps_for(t.drop_last(), chain);
        if t.last().0@ == chain {
            rest.push(t.last().1)
        } else {
            rest
        }
    }
}

/// `urls` holds `url`.
pub open spec fn contains_url(urls: Seq<String>, url: Seq<char>) -> bool {
    exists|i: int| 0 <= i < urls.len() && urls[i]@ == url
}

/// Endpoints for `chain` not yet excluded: the candidates of a selection.
pub open spec fn remaining(
    t: Seq<(ChainId, ProviderEndpoint)>,
    chain: Seq<char>,
    exclude: Seq<String>,
) -> Seq<ProviderEndpoint>
    decreases t.len(),
{
    if t.len() == 0 {
        Seq::empty()
    } else {
        let rest = remaining(t.drop_last(), chain, exclude);
        if t.last().0@ == chain && !contains_url(exclude, t.last().1.url@) {
            rest.push(t.last().1)
        } else {
            rest
        }
    }
}

/// Combined weight of a candidate list.
pub open spec fn total_weight(s: Seq<ProviderEndpoint>) -> int
    decreases s.len(),
{
    if s.len() == 0 {
        0
    } else {
        total_weight(s.drop_last()) + s.last().weight.spec_value()
    }
}

/// The candidate a weighted draw `r` lands on: each candidate owns a window
/// of `weight` consecutive residues, in list order.
pub open spec fn pick_index(s: Seq<ProviderEndpoint>, r: int) -> int
    decreases s.len(),
{
    if s.len() == 0 {
        0
    } else if r < s[0].weight.spec_value() {
        0
    } else {
        1 + pick_index(s.drop_first(), r - s[0].weight.spec_value())
    }
}

/// Combined weight of the candidates before index `i`.
pub open spec fn cum_weight(s: Seq<ProviderEndpoint>, i: int) -> int {
    total_weight(s.subrange(0, i))
}

/// Weight totals are never negative.
pub proof fn lemma_total_weight_nonneg(s: Seq<ProviderEndpoint>)
    ensures
        total_weight(s) >= 0,
    decreases s.len(),
{
    if s.len() > 0 {
        lemma_total_weight_nonneg(s.drop_last());
        crate::weight::lemma_weight_nonneg(s.last().weight);
    }
}

/// `total_weight` also unfolds at the front of the list.
pub proof fn lemma_total_weight_front(s: Seq<ProviderEndpoint>)
    requires
        s.len() > 0,
    ensures
        total_weight(s) == s[0].weight.spec_value() + total_weight(s.drop_first()),
    decreases s.len(),
{
    if s.len() == 1 {
        assert(s.drop_first() =~= Seq::<ProviderEndpoint>::empty());
        assert(s.drop_last() =~= Seq::<ProviderEndpoint>::empty());
    } else {
        lemma_total_weight_front(s.drop_last());
        assert(s.drop_last().drop_first() =~= s.drop_first().drop_last());
        assert(s.drop_first().last() == s.last());
        assert(s.drop_last()[0] == s[0]);
    }
}

/// A pick index is never negative.
pub proof fn lemma_pick_index_nonneg(s: Seq<ProviderEndpoint>, r: int)
    ensures
        pick_index(s, r) >= 0,
    decreases s.len(),
{
    if s.len() > 0 && r >= s[0].weight.spec_value() {
        lemma_pick_index_nonneg(s.drop_first(), r - s[0].weight.spec_value());
    }
}

/// A draw within the total weight lands on a real candidate.
pub proof fn lemma_pick_index_in_range(s: Seq<ProviderEndpoint>, r: int)
    requires
        0 <= r < total_weight(s),
    ensures
        0 <= pick_index(s, r) < s.len(),
    decreases s.len(),
{
    lemma_total_weight_front(s);
    if r >= s[0].weight.spec_value() {
        lemma_pick_index_in_range(s.drop_first(), r - s[0].weight.spec_value());
    }
}

/// Every candidate is a registered endpoint for the chain and is not
/// excluded.
pub proof fn lemma_remaining_sub(
    t: Seq<(ChainId, ProviderEndpoint)>,
    chain: Seq<char>,
    exclude: Seq<String>,
    i: int,
)
    requires
        0 <= i < remaining(t, chain, exclude).len(),
    ensures
        exists|j: int|
            0 <= j < eps_for(t, chain).len() && eps_for(t, chain)[j] == remaining(
                t,
                chain,
                exclude,
            )[i],
        !contains_url(exclude, remaining(t, chain, exclude)[i].url@),
    decreases t.len(),
{
    let rem = remaining(t, chain, exclude);
    let eps = eps_for(t, chain);
    let rem0 = remaining(t.drop_last(), chain, exclude);
    let eps0 = eps_for(t.drop_last(), chain);
    if t.last().0@ == chain && !contains_url(exclude, t.last().1.url@) {
        if i < rem0.len() {
            lemma_remaining_sub(t.drop_last(), chain, exclude, i);
            let j = choose|j: int| 0 <= j < eps0.len() && eps0[j] == rem0[i];
            assert(eps[j] == rem[i]);
        } else {
            assert(rem[i] == t.last().1);
            assert(eps[eps.len() - 1] == t.last().1);
        }
    } else {
        lemma_remaining_sub(t.drop_last(), chain, exclude, i);
        let j = choose|j: int| 0 <= j < eps0.len() && eps0[j] == rem0[i];
        if t.last().0@ == chain {
            assert(eps[j] == rem[i]);
        } else {
            assert(eps[j] == rem[i]);
        }
    }
}

/// With every registered endpoint for `chain` excluded, no candidate is
/// left, so selection must report `NoProvider`.
pub proof fn lemma_all_excluded(
    t: Seq<(ChainId, ProviderEndpoint)>,
    chain: Seq<char>,
    exclude: Seq<String>,
)
    requires
        forall|i: int|
            0 <= i < eps_for(t, chain).len() ==> contains_url(
                exclude,
                #[trigger] eps_for(t, chain)[i].url@,
            ),
    ensures
        remaining(t, chain, exclude).len() == 0,
    decreases t.len(),
{
    if t.len() > 0 {
        let eps = eps_for(t, chain);
        let eps0 = eps_for(t.drop_last(), chain);
        assert forall|i: int| 0 <= i < eps0.len() implies contains_url(
            exclude,
            #[trigger] eps0[i].url@,
        ) by {
            assert(eps[i] == eps0[i]);
        }
        lemma_all_excluded(t.drop_last(), chain, exclude);
        if t.last().0@ == chain {
            assert(eps[eps.len() - 1] == t.last().1);
        }
    }
}

/// Weighted-selection fairness: a draw lands on candidate `i` exactly when
/// it falls in that candidate's window, whose width is the candidate's
/// weight. Of the `total_weight(s)` equally likely residues, exactly
/// `weight(i)` select candidate `i`.
pub proof fn lemma_weighted_fairness(s: Seq<ProviderEndpoint>, i: int, r: int)
    requires
        0 <= i < s.len(),
        0 <= r < total_weight(s),
    ensures
        pick_index(s, r) == i <==> cum_weight(s, i) <= r < cum_weight(s, i)
            + s[i].weight.spec_value(),
    decreases s.len(),
{
    lemma_total_weight_front(s);
    let w0 = s[0].weight.spec_value();
    crate::weight::lemma_weight_nonneg(s[0].weight);
    if i == 0 {
        assert(s.subrange(0, 0) =~= Seq::<ProviderEndpoint>::empty());
        if r >= w0 {
            lemma_pick_index_nonneg(s.drop_first(), r - w0);
        }
    } else {
        assert(s.subrange(0, i).drop_first() =~= s.drop_first().subrange(0, i - 1));
        lemma_total_weight_front(s.subrange(0, i));
        assert(s.subrange(0, i)[0] == s[0]);
        lemma_total_weight_nonneg(s.drop_first().subrange(0, i - 1));
        if r < w0 {
            assert(pick_index(s, r) == 0);
            assert(cum_weight(s, i) >= w0);
        } else {
            lemma_weighted_fairness(s.drop_first(), i - 1, r - w0);
            assert(s.drop_first()[i - 1] == s[i]);
            assert(cum_weight(s, i) == w0 + cum_weight(s.drop_first(), i - 1));
        }
    }
}

/// `table` after an endpoint registration: if the `(chain, url)` pair is
/// already present its first occurrence is overwritten, otherwise the pair
/// is appended.
pub open spec fn upsert(
    t: Seq<(ChainId, ProviderEndpoint)>,
    chain: ChainId,
    ep: ProviderEndpoint,
) -> Seq<(ChainId, ProviderEndpoint)>
    decreases t.len(),
{
    if t.len() == 0 {
        seq![(chain, ep)]
    } else if t[0].0@ == chain@ && t[0].1.url@ == ep.url@ {
        seq![(chain, ep)] + t.drop_first()
    } else {
        seq![t[0]] + upsert(t.drop_first(), chain, ep)
    }
}

proof fn lemma_upsert_found(
    t: Seq<(ChainId, ProviderEndpoint)>,
    chain: ChainId,
    ep: ProviderEndpoint,
    i: int,
)
    requires
        0 <= i < t.len(),
        t[i].0@ == chain@ && t[i].1.url@ == ep.url@,
        forall|j: int| 0 <= j < i ==> !(#[trigger] t[j].0@ == chain@ && t[j].1.url@ == ep.url@),
    ensures
        upsert(t, chain, ep) == t.update(i, (chain, ep)),
    decreases i,
{
    if i == 0 {
        assert(upsert(t, chain, ep) =~= t.update(0, (chain, ep)));
    } else {
        assert(t.drop_first()[i - 1] == t[i]);
        lemma_upsert_found(t.drop_first(), chain, ep, i - 1);
        assert(seq![t[0]] + t.drop_first().update(i - 1, (chain, ep)) =~= t.update(
            i,
            (chain, ep),
        ));
    }
}

proof fn lemma_upsert_absent(t: Seq<(ChainId, ProviderEndpoint)>, chain: ChainId, ep: ProviderEndpoint)
    requires
        forall|j: int| 0 <= j < t.len() ==> !(#[trigger] t[j].0@ == chain@ && t[j].1.url@ == ep.url@),
    ensures
        upsert(t, chain, ep) == t.push((chain, ep)),
    decreases t.len(),
{
    if t.len() == 0 {
        assert(upsert(t, chain, ep) =~= t.push((chain, ep)));
    } else {
        lemma_upsert_absent(t.drop_first(), chain, ep);
        assert(seq![t[0]] + t.drop_first().push((chain, ep)) =~= t.push((chain, ep)));
    }
}

/// `table` after a whole vendor table is registered, entry by entry.
pub open spec fn merge(
    t: Seq<(ChainId, ProviderEndpoint)>,
    entries: Seq<(ChainId, ProviderEndpoint)>,
) -> Seq<(ChainId, ProviderEndpoint)>
    decreases entries.len(),
{
    if entries.len() == 0 {
        t
    } else {
        merge(upsert(t, entries[0].0, entries[0].1), entries.drop_first())
    }
}

/// Chains that appear in a table.
pub open spec fn chain_names(t: Seq<(ChainId, ProviderEndpoint)>) -> Set<Seq<char>>
    decreases t.len(),
{
    if t.len() == 0 {
        Set::empty()
    } else {
        chain_names(t.drop_last()).insert(t.last().0@)
    }
}

/// The (chain, vendor) pairs one vendor registration contributes.
pub open spec fn reg_pairs(
    entries: Seq<(ChainId, ProviderEndpoint)>,
    kind: ProviderKind,
) -> Seq<(ChainId, ProviderKind)> {
    entries.map_values(|p: (ChainId, ProviderEndpoint)| (p.0, kind))
}

/// No vendor declared the same chain twice: a repeated (chain, vendor)
/// pair is a configuration error, not a silent merge.
pub open spec fn no_duplicate_registration(regs: Seq<(ChainId, ProviderKind)>) -> bool {
    forall|i: int, j: int|
        #![trigger regs[i], regs[j]]
        0 <= i < j < regs.len() ==> !(regs[i].0@ == regs[j].0@ && regs[i].1 == regs[j].1)
}

/// Scans a registration log for a repeated (chain, vendor) pair.
fn has_duplicate_registration(regs: &Vec<(ChainId, ProviderKind)>) -> (r: bool)
    ensures
        r == !no_duplicate_registration(regs@),
{
    let n = regs.len();
    let mut i: usize = 0;
    while i < n
        invariant
            0 <= i <= n,
            n == regs@.len(),
            forall|a: int, b: int|
                #![trigger regs@[a], regs@[b]]
                0 <= a < b < regs@.len() && a < i ==> !(regs@[a].0@ == regs@[b].0@ && regs@[a].1
                    == regs@[b].1),
        decreases n - i,
    {
        let mut j: usize = i + 1;
        while j < n
            invariant
                0 <= i < j <= n,
                n == regs@.len(),
                forall|a: int, b: int|
                    #![trigger regs@[a], regs@[b]]
                    0 <= a < b < regs@.len() && a < i ==> !(regs@[a].0@ == regs@[b].0@
                        && regs@[a].1 == regs@[b].1),
                forall|b: int|
                    #![trigger regs@[b]]
                    i < b < j ==> !(regs@[i as int].0@ == regs@[b].0@ && regs@[i as int].1
                        == regs@[b].1),
            decreases n - j,
        {
            if regs[i].0.eq_chain(&regs[j].0) && regs[i].1 == regs[j].1 {
                proof {
                    assert(regs@[i as int].0@ == regs@[j as int].0@ && regs@[i as int].1
                        == regs@[j as int].1);
                }
                return true;
            }
            j += 1;
        }
        i += 1;
    }
    false
}

/// Overwrites the first `(chain, url)` match or appends the pair.
fn upsert_into(table: &mut Vec<(ChainId, ProviderEndpoint)>, chain: ChainId, ep: ProviderEndpoint)
    ensures
        final(table)@ == upsert(old(table)@, chain, ep),
{
    let n = table.len();
    let mut i: usize = 0;
    while i < n
        invariant
            0 <= i <= n,
            n == table@.len(),
            table@ == old(table)@,
            forall|j: int|
                0 <= j < i ==> !(#[trigger] table@[j].0@ == chain@ && table@[j].1.url@ == ep.url@),
        decreases n - i,
    {
        if table[i].0.eq_chain(&chain) && table[i].1.url == ep.url {
            proof {
                lemma_upsert_found(table@, chain, ep, i as int);
            }
            table.set(i, (chain, ep));
            return;
        }
        i += 1;
    }
    proof {
        lemma_upsert_absent(table@, chain, ep);
    }
    table.push((chain, ep));
}

/// Whether `v` already lists `c`.
fn contains_chain(v: &Vec<ChainId>, c: &ChainId) -> (r: bool)
    ensures
        r == exists|k: int| 0 <= k < v@.len() && v@[k]@ == c@,
{
    let mut i: usize = 0;
    while i < v.len()
        invariant
            0 <= i <= v@.len(),
            forall|k: int| 0 <= k < i ==> v@[k]@ != c@,
        decreases v@.len() - i,
    {
        if v[i].eq_chain(c) {
            return true;
        }
        i += 1;
    }
    false
}

/// Whether `url` is in the exclusion list.
fn url_excluded(exclude: &Vec<String>, url: &String) -> (r: bool)
    ensures
        r == contains_url(exclude@, url@),
{
    let mut i: usize = 0;
    while i < exclude.len()
        invariant
            0 <= i <= exclude@.len(),
            forall|k: int| 0 <= k < i ==> exclude@[k]@ != url@,
        decreases exclude@.len() - i,
    {
        if exclude[i] == *url {
            return true;
        }
        i += 1;
    }
    false
}

/// The aggregate routing table, one entry list per protocol, together
/// with a log of which vendor registered which chain. Built once at
/// startup by registering every vendor source; read-only afterwards.
#[derive(Debug)]
pub struct ProviderRegistry {
    http: Vec<(ChainId, ProviderEndpoint)>,
    ws: Vec<(ChainId, ProviderEndpoint)>,
    http_regs: Vec<(ChainId, ProviderKind)>,
    ws_regs: Vec<(ChainId, ProviderKind)>,
}

impl ProviderRegistry {
    /// The HTTP routing table.
    pub closed spec fn http_table(&self) -> Seq<(ChainId, ProviderEndpoint)> {
        self.http@
    }

    /// The WS routing table.
    pub closed spec fn ws_table(&self) -> Seq<(ChainId, ProviderEndpoint)> {
        self.ws@
    }

    /// The (chain, vendor) pairs registered over HTTP.
    pub closed spec fn http_registrations(&self) -> Seq<(ChainId, ProviderKind)> {
        self.http_regs@
    }

    /// The (chain, vendor) pairs registered over WS.
    pub closed spec fn ws_registrations(&self) -> Seq<(ChainId, ProviderKind)> {
        self.ws_regs@
    }

    /// An empty registry.
    pub fn new() -> (r: Self)
        ensures
            r.http_table() == Seq::<(ChainId, ProviderEndpoint)>::empty(),
            r.ws_table() == Seq::<(ChainId, ProviderEndpoint)>::empty(),
            r.http_registrations() == Seq::<(ChainId, ProviderKind)>::empty(),
            r.ws_registrations() == Seq::<(ChainId, ProviderKind)>::empty(),
    {
        let r = ProviderRegistry {
            http: Vec::new(),
            ws: Vec::new(),
            http_regs: Vec::new(),
            ws_regs: Vec::new(),
        };
        proof {
            assert(r.http_table() =~= Seq::<(ChainId, ProviderEndpoint)>::empty());
            assert(r.ws_table() =~= Seq::<(ChainId, ProviderEndpoint)>::empty());
            assert(r.http_registrations() =~= Seq::<(ChainId, ProviderKind)>::empty());
            assert(r.ws_registrations() =~= Seq::<(ChainId, ProviderKind)>::empty());
        }
        r
    }

    /// Registers one HTTP endpoint: the primitive behind `register`. A
    /// repeated `(chain, url)` pair overwrites the earlier registration.
    pub fn register_endpoint(&mut self, chain: ChainId, ep: ProviderEndpoint)
        ensures
            final(self).http_table() == upsert(old(self).http_table(), chain, ep),
            final(self).ws_table() == old(self).ws_table(),
            final(self).http_registrations() == old(self).http_registrations(),
            final(self).ws_registrations() == old(self).ws_registrations(),
    {
        upsert_into(&mut self.http, chain, ep);
    }

    /// Merges one vendor's HTTP endpoint table into the registry and logs
    /// each (chain, vendor) pair; a repeated `(chain, url)` pair overwrites
    /// the earlier registration, and a repeated (chain, vendor) pair is
    /// later surfaced by `validate`.
    pub fn register<T: ProviderConfig>(&mut self, source: T)
        ensures
            final(self).http_table() == merge(old(self).http_table(), source.chains_spec()),
            final(self).ws_table() == old(self).ws_table(),
            final(self).http_registrations() == old(self).http_registrations() + reg_pairs(
                source.chains_spec(),
                source.kind_spec(),
            ),
            final(self).ws_registrations() == old(self).ws_registrations(),
    {
        let kind = source.provider_kind();
        let mut entries = source.supported_chains();
        while entries.len() > 0
            invariant
                kind == source.kind_spec(),
                merge(old(self).http_table(), source.chains_spec()) == merge(
                    self.http@,
                    entries@,
                ),
                old(self).http_registrations() + reg_pairs(source.chains_spec(), kind)
                    == self.http_regs@ + reg_pairs(entries@, kind),
                self.ws@ == old(self).ws_table(),
                self.ws_regs@ == old(self).ws_registrations(),
            decreases entries@.len(),
        {
            let ghost pre = entries@;
            let ghost pre_regs = self.http_regs@;
            let (c, e) = entries.remove(0);
            proof {
                assert(entries@ =~= pre.drop_first());
            }
            self.http_regs.push((c.dup(), kind));
            proof {
                assert(self.http_regs@ + reg_pairs(entries@, kind) =~= pre_regs + reg_pairs(
                    pre,
                    kind,
                ));
            }
            upsert_into(&mut self.http, c, e);
        }
        proof {
            assert(self.http_regs@ + reg_pairs(entries@, kind) =~= self.http_regs@);
        }
    }

    /// Merges one vendor's WS endpoint table into the registry and logs
    /// each (chain, vendor) pair.
    pub fn register_ws<T: ProviderConfig>(&mut self, source: T)
        ensures
            final(self).ws_table() == merge(old(self).ws_table(), source.ws_chains_spec()),
            final(self).http_table() == old(self).http_table(),
            final(self).ws_registrations() == old(self).ws_registrations() + reg_pairs(
                source.ws_chains_spec(),
                source.kind_spec(),
            ),
            final(self).http_registrations() == old(self).http_registrations(),
    {
        let kind = source.provider_kind();
        let mut entries = source.supported_ws_chains();
        while entries.len() > 0
            invariant
                kind == source.kind_spec(),
                merge(old(self).ws_table(), source.ws_chains_spec()) == merge(
                    self.ws@,
                    entries@,
                ),
                old(self).ws_registrations() + reg_pairs(source.ws_chains_spec(), kind)
                    == self.ws_regs@ + reg_pairs(entries@, kind),
                self.http@ == old(self).http_table(),
                self.http_regs@ == old(self).http_registrations(),
            decreases entries@.len(),
        {
            let ghost pre = entries@;
            let ghost pre_regs = self.ws_regs@;
            let (c, e) = entries.remove(0);
            proof {
                assert(entries@ =~= pre.drop_first());
            }
            self.ws_regs.push((c.dup(), kind));
            proof {
                assert(self.ws_regs@ + reg_pairs(entries@, kind) =~= pre_regs + reg_pairs(
                    pre,
                    kind,
                ));
            }
            upsert_into(&mut self.ws, c, e);
        }
        proof {
            assert(self.ws_regs@ + reg_pairs(entries@, kind) =~= self.ws_regs@);
        }
    }

    /// Lists every registered HTTP chain once.
    pub fn chains(&self) -> (r: Vec<ChainId>)
        ensures
            forall|c: Seq<char>|
                (exists|k: int| 0 <= k < r@.len() && r@[k]@ == c) <==> chain_names(
                    self.http_table(),
                ).contains(c),
            forall|i: int, j: int| 0 <= i < j < r@.len() ==> r@[i]@ != r@[j]@,
    {
        let mut out: Vec<ChainId> = Vec::new();
        let n = self.http.len();
        let mut i: usize = 0;
        while i < n
            invariant
                0 <= i <= n,
                n == self.http@.len(),
                forall|c: Seq<char>|
                    (exists|k: int| 0 <= k < out@.len() && out@[k]@ == c) <==> chain_names(
                        self.http@.subrange(0, i as int),
                    ).contains(c),
                forall|a: int, b: int| 0 <= a < b < out@.len() ==> out@[a]@ != out@[b]@,
            decreases n - i,
        {
            let ghost pre = out@;
            let ghost names_i = chain_names(self.http@.subrange(0, i as int));
            let ghost cnew = self.http@[i as int].0@;
            proof {
                assert(self.http@.subrange(0, i + 1).drop_last() =~= self.http@.subrange(
                    0,
                    i as int,
                ));
                assert(self.http@.subrange(0, i + 1).last() == self.http@[i as int]);
                assert(chain_names(self.http@.subrange(0, i + 1)) == names_i.insert(cnew));
            }
            if !contains_chain(&out, &self.http[i].0) {
                out.push(self.http[i].0.dup());
                proof {
                    assert(out@.len() == pre.len() + 1);
                    assert(out@[pre.len() as int]@ == cnew);
                    assert forall|c: Seq<char>|
                        (exists|k: int| 0 <= k < out@.len() && out@[k]@ == c) <==> names_i.insert(
                            cnew,
                        ).contains(c) by {
                        if names_i.insert(cnew).contains(c) {
                            if c == cnew {
                                assert(out@[pre.len() as int]@ == c);
                            } else {
                                assert(names_i.contains(c));
                                let k = choose|k: int| 0 <= k < pre.len() && pre[k]@ == c;
                                assert(out@[k]@ == c);
                            }
                        }
                        if exists|k: int| 0 <= k < out@.len() && out@[k]@ == c {
                            let k = choose|k: int| 0 <= k < out@.len() && out@[k]@ == c;
                            if k < pre.len() {
                                assert(pre[k]@ == c);
                            } else {
                                assert(c == cnew);
                            }
                        }
                    }
                    assert forall|a: int, b: int| 0 <= a < b < out@.len() implies out@[a]@
                        != out@[b]@ by {
                        if b < pre.len() {
                            assert(pre[a]@ != pre[b]@);
                        } else {
                            assert(out@[a]@ == pre[a]@);
                            assert(pre[a]@ != cnew);
                        }
                    }
                }
            } else {
                proof {
                    assert forall|c: Seq<char>|
                        (exists|k: int| 0 <= k < out@.len() && out@[k]@ == c) <==> names_i.insert(
                            cnew,
                        ).contains(c) by {
                        if names_i.insert(cnew).contains(c) && c == cnew {
                            assert(exists|k: int| 0 <= k < pre.len() && pre[k]@ == cnew);
                        }
                    }
                }
            }
            i += 1;
        }
        proof {
            assert(self.http@.subrange(0, n as int) =~= self.http@);
        }
        out
    }

    /// Startup self-check: walks both tables and the registration logs and
    /// reports whether every registered endpoint URL is well formed and no
    /// vendor registered the same chain twice, so that configuration
    /// mistakes surface before the registry serves traffic.
    pub fn validate(&self) -> (r: bool)
        ensures
            r == ({
                &&& forall|i: int|
                    0 <= i < self.http_table().len() ==> valid_endpoint_url(
                        #[trigger] self.http_table()[i].1.url@,
                    )
                &&& forall|i: int|
                    0 <= i < self.ws_table().len() ==> valid_endpoint_url(
                        #[trigger] self.ws_table()[i].1.url@,
                    )
                &&& no_duplicate_registration(self.http_registrations())
                &&& no_duplicate_registration(self.ws_registrations())
            }),
    {
        let mut i: usize = 0;
        while i < self.http.len()
            invariant
                0 <= i <= self.http@.len(),
                forall|j: int|
                    0 <= j < i ==> valid_endpoint_url(#[trigger] self.http@[j].1.url@),
            decreases self.http@.len() - i,
        {
            if !is_valid_endpoint_url(self.http[i].1.url.as_str()) {
                proof {
                    assert(!valid_endpoint_url(self.http_table()[i as int].1.url@));
                }
                return false;
            }
            i += 1;
        }
        let mut i: usize = 0;
        while i < self.ws.len()
            invariant
                0 <= i <= self.ws@.len(),
                forall|j: int|
                    0 <= j < i ==> valid_endpoint_url(#[trigger] self.ws@[j].1.url@),
                forall|j: int|
                    0 <= j < self.http@.len() ==> valid_endpoint_url(
                        #[trigger] self.http@[j].1.url@,
                    ),
            decreases self.ws@.len() - i,
        {
            if !is_valid_endpoint_url(self.ws[i].1.url.as_str()) {
                proof {
                    assert(!valid_endpoint_url(self.ws_table()[i as int].1.url@));
                }
                return false;
            }
            i += 1;
        }
        if has_duplicate_registration(&self.http_regs) {
            return false;
        }
        if has_duplicate_registration(&self.ws_regs) {
            return false;
        }
        true
    }

    /// Weighted random selection among the HTTP endpoints for `chain` not
    /// in `exclude`: candidate `e` is chosen with probability
    /// `weight(e) / total weight`, driven by the caller-supplied draw
    /// `rand`, so repeated calls with one draw are reproducible. Fails
    /// exactly when the chain is unknown or everything was excluded.
    pub fn select(&self, chain: &ChainId, exclude: &Vec<String>, rand: u64) -> (r: Result<
        ProviderEndpoint,
        NoProvider,
    >)
        ensures
            ({
                let cands = remaining(self.http_table(), chain@, exclude@);
                &&& (r is Err <==> cands.len() == 0)
                &&& (r matches Ok(e) ==> cands.len() > 0 && e == cands[pick_index(
                    cands,
                    rand as int % total_weight(cands),
                )])
                &&& (r matches Ok(e) ==> exists|j: int|
                    0 <= j < eps_for(self.http_table(), chain@).len() && eps_for(
                        self.http_table(),
                        chain@,
                    )[j] == e)
                &&& (r matches Ok(e) ==> !contains_url(exclude@, e.url@))
            }),
    {
        select_from(&self.http, chain, exclude, rand)
    }

    /// Weighted random selection among the WS endpoints for `chain`, with
    /// the same contract as `select`.
    pub fn select_ws(&self, chain: &ChainId, exclude: &Vec<String>, rand: u64) -> (r: Result<
        ProviderEndpoint,
        NoProvider,
    >)
        ensures
            ({
                let cands = remaining(self.ws_table(), chain@, exclude@);
                &&& (r is Err <==> cands.len() == 0)
                &&& (r matches Ok(e) ==> cands.len() > 0 && e == cands[pick_index(
                    cands,
                    rand as int % total_weight(cands),
                )])
                &&& (r matches Ok(e) ==> exists|j: int|
                    0 <= j < eps_for(self.ws_table(), chain@).len() && eps_for(
                        self.ws_table(),
                        chain@,
                    )[j] == e)
                &&& (r matches Ok(e) ==> !contains_url(exclude@, e.url@))
            }),
    {
        select_from(&self.ws, chain, exclude, rand)
    }
}

/// Weighted random selection among the endpoints of `table` for `chain`
/// that are not in `exclude`: candidate `e` is chosen with probability
/// `weight(e) / total weight`, driven by the caller-supplied draw
/// `rand`, so repeated calls with one draw are reproducible. Fails
/// exactly when the chain is unknown or everything was excluded.
fn select_from(table: &Vec<(ChainId, ProviderEndpoint)>, chain: &ChainId, exclude: &Vec<String>, rand: u64) -> (r: Result<
    ProviderEndpoint,
    NoProvider,
>)
    ensures
        ({
            let cands = remaining(table@, chain@, exclude@);
            &&& (r is Err <==> cands.len() == 0)
            &&& (r matches Ok(e) ==> cands.len() > 0 && e == cands[pick_index(
                cands,
                rand as int % total_weight(cands),
            )])
            &&& (r matches Ok(e) ==> exists|j: int|
                0 <= j < eps_for(table@, chain@).len() && eps_for(
                    table@,
                    chain@,
                )[j] == e)
            &&& (r matches Ok(e) ==> !contains_url(exclude@, e.url@))
        }),
{
    let ghost spec_cands = remaining(table@, chain@, exclude@);
    let mut cands: Vec<ProviderEndpoint> = Vec::new();
    let n = table.len();
    let mut i: usize = 0;
    while i < n
        invariant
            0 <= i <= n,
            n == table@.len(),
            cands@ == remaining(table@.subrange(0, i as int), chain@, exclude@),
        decreases n - i,
    {
        proof {
            assert(table@.subrange(0, i + 1).drop_last() =~= table@.subrange(
                0,
                i as int,
            ));
            assert(table@.subrange(0, i + 1).last() == table@[i as int]);
        }
        if table[i].0.eq_chain(chain) && !url_excluded(exclude, &table[i].1.url) {
            cands.push(table[i].1.dup());
        }
        i += 1;
    }
    proof {
        assert(table@.subrange(0, n as int) =~= table@);
    }
    if cands.len() == 0 {
        return Err(NoProvider);
    }
    let m = cands.len();
    let mut total: u128 = 0;
    let mut i: usize = 0;
    while i < m
        invariant
            0 <= i <= m,
            m == cands@.len(),
            cands@ == remaining(table@, chain@, exclude@),
            total == total_weight(cands@.subrange(0, i as int)),
            i <= total <= 100u128 * (i as u128),
            MAX_WEIGHT == 100 && MIN_WEIGHT == 1,
        decreases m - i,
    {
        proof {
            assert(cands@.subrange(0, i + 1).drop_last() =~= cands@.subrange(0, i as int));
            assert(cands@.subrange(0, i + 1).last() == cands@[i as int]);
        }
        let w = cands[i].weight.value();
        total = total + (w as u128);
        i += 1;
    }
    proof {
        assert(cands@.subrange(0, m as int) =~= cands@);
    }
    let rmod = (rand as u128) % total;
    let ghost rm = rmod as int;
    let mut acc: u128 = rmod;
    let mut i: usize = 0;
    proof {
        assert(cands@.subrange(0, 0) =~= Seq::<ProviderEndpoint>::empty());
        assert(cands@.subrange(0, m as int) =~= cands@);
    }
    while i < m
        invariant
            0 <= i <= m,
            m == cands@.len(),
            cands@ == remaining(table@, chain@, exclude@),
            rm == rand as int % total_weight(cands@),
            0 <= rm < total_weight(cands@),
            acc == rm - total_weight(cands@.subrange(0, i as int)),
            0 <= acc,
            acc < total_weight(cands@.subrange(i as int, m as int)),
            pick_index(cands@, rm) == i + pick_index(
                cands@.subrange(i as int, m as int),
                acc as int,
            ),
        decreases m - i,
    {
        let ghost suffix = cands@.subrange(i as int, m as int);
        proof {
            assert(suffix[0] == cands@[i as int]);
        }
        let w = cands[i].weight.value();
        if acc < (w as u128) {
            proof {
                assert(pick_index(suffix, acc as int) == 0);
                assert(pick_index(cands@, rm) == i as int);
            }
            let e = cands[i].dup();
            proof {
                lemma_remaining_sub(table@, chain@, exclude@, i as int);
            }
            return Ok(e);
        }
        proof {
            assert(suffix.drop_first() =~= cands@.subrange(i + 1, m as int));
            assert(cands@.subrange(0, i + 1).drop_last() =~= cands@.subrange(0, i as int));
            assert(cands@.subrange(0, i + 1).last() == cands@[i as int]);
            lemma_total_weight_front(suffix);
        }
        acc = acc - (w as u128);
        i += 1;
    }
    proof {
        assert(cands@.subrange(m as int, m as int) =~= Seq::<ProviderEndpoint>::empty());
        assert(false);
    }
    vstd::pervasive::unreached()
}

} // verus!
