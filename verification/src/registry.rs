//! The cinema chains the tool can use, by identifier.
use crate::domain::{supported_chains_text, CinemaChainId};
use crate::error::{AppError, AppResult};
use crate::ordering::text_less;
use crate::text::{chars_of, string_of};
use vstd::prelude::*;

verus! {

/// A chain the tool can use, with the name it is shown under.
#[derive(Debug, Clone, PartialEq, Eq)]
pub struct RegisteredCinemaChain {
    pub chain_id: CinemaChainId,
    pub display_name: String,
}

/// The registered chains (each identifier once).
#[derive(Debug, Clone, PartialEq, Eq)]
pub struct Registry {
    chains: Vec<RegisteredCinemaChain>,
}

/// The display names that registering `chains` in order leaves: a later registration of an
/// identifier replaces an earlier one.
pub open spec fn registered_names(chains: Seq<RegisteredCinemaChain>) -> Map<CinemaChainId, Seq<char>>
    decreases chains.len(),
{
    if chains.len() == 0 {
        Map::empty()
    } else {
        registered_names(chains.drop_last()).insert(chains.last().chain_id, chains.last().display_name@)
    }
}

pub open spec fn ids_distinct(chains: Seq<RegisteredCinemaChain>) -> bool {
    forall|a: int, b: int| 0 <= a < b < chains.len() ==> chains[a].chain_id != chains[b].chain_id
}

pub open spec fn names_of(chains: Seq<RegisteredCinemaChain>) -> Map<CinemaChainId, Seq<char>> {
    Map::new(
        |id: CinemaChainId| exists|i: int| 0 <= i < chains.len() && chains[i].chain_id == id,
        |id: CinemaChainId| chains[choose|i: int| 0 <= i < chains.len() && chains[i].chain_id == id].display_name@,
    )
}

impl Registry {
    /// The display name of each registered chain.
    pub closed spec fn view(&self) -> Map<CinemaChainId, Seq<char>> {
        names_of(self.chains@)
    }

    pub closed spec fn wf(&self) -> bool {
        ids_distinct(self.chains@)
    }
}

fn copy_chain(c: &RegisteredCinemaChain) -> (r: RegisteredCinemaChain)
    ensures
        r.chain_id == c.chain_id,
        r.display_name@ == c.display_name@,
{
    RegisteredCinemaChain { chain_id: c.chain_id, display_name: c.display_name.clone() }
}

impl Registry {
    /// The chains registered in order; a later registration of an identifier replaces an
    /// earlier one.
    pub fn from_chains(chains: Vec<RegisteredCinemaChain>) -> (r: Self)
        ensures
            r.wf(),
            r@ == registered_names(chains@),
    {
        let mut out: Vec<RegisteredCinemaChain> = Vec::new();
        let mut i: usize = 0;
        assert(names_of(out@) =~= registered_names(chains@.subrange(0, 0)));
        while i < chains.len()
            invariant
                i <= chains@.len(),
                ids_distinct(out@),
                names_of(out@) == registered_names(chains@.subrange(0, i as int)),
            decreases chains.len() - i,
        {
            let c = copy_chain(&chains[i]);
            assert(chains@.subrange(0, i + 1).drop_last() =~= chains@.subrange(0, i as int));
            assert(chains@.subrange(0, i + 1).last() == chains@[i as int]);
            let ghost before = out@;
            let mut j: usize = 0;
            while j < out.len() && out[j].chain_id != c.chain_id
                invariant
                    j <= out@.len(),
                    forall|m: int| 0 <= m < j ==> out@[m].chain_id != c.chain_id,
                decreases out.len() - j,
            {
                j = j + 1;
            }
            let ghost id = c.chain_id;
            let ghost name = c.display_name@;
            if j < out.len() {
                out.set(j, c);
                proof {
                    assert forall|a: int, b: int| 0 <= a < b < out@.len() implies out@[a].chain_id != out@[b].chain_id by {
                        assert(out@[a].chain_id == before[a].chain_id);
                        assert(out@[b].chain_id == before[b].chain_id);
                    }
                    assert forall|k: CinemaChainId| #![auto] names_of(out@).dom().contains(k) == names_of(before).insert(id, name).dom().contains(k) by {
                        if names_of(before).dom().contains(k) {
                            let w = choose|w: int| 0 <= w < before.len() && before[w].chain_id == k;
                            assert(out@[w].chain_id == k);
                        }
                        if names_of(out@).dom().contains(k) {
                            let w = choose|w: int| 0 <= w < out@.len() && out@[w].chain_id == k;
                            assert(before[w].chain_id == k);
                        }
                    }
                    assert forall|k: CinemaChainId| #![auto] names_of(out@).dom().contains(k) implies names_of(out@)[k] == names_of(before).insert(id, name)[k] by {
                        let w = choose|w: int| 0 <= w < out@.len() && out@[w].chain_id == k;
                        if k == id {
                            assert(w == j);
                        } else {
                            let w2 = choose|w2: int| 0 <= w2 < before.len() && before[w2].chain_id == k;
                            assert(w2 == w);
                            assert(out@[w] == before[w]);
                        }
                    }
                    assert(names_of(out@) =~= names_of(before).insert(id, name));
                }
            } else {
                out.push(c);
                proof {
                    assert forall|a: int, b: int| 0 <= a < b < out@.len() implies out@[a].chain_id != out@[b].chain_id by {
                        if b == before.len() {
                            assert(out@[a].chain_id == before[a].chain_id);
                        }
                    }
                    assert forall|k: CinemaChainId| #![auto] names_of(out@).dom().contains(k) == names_of(before).insert(id, name).dom().contains(k) by {
                        if names_of(before).dom().contains(k) {
                            let w = choose|w: int| 0 <= w < before.len() && before[w].chain_id == k;
                            assert(out@[w].chain_id == k);
                        }
                        if k == id {
                            assert(out@[before.len() as int].chain_id == k);
                        }
                        if names_of(out@).dom().contains(k) {
                            let w = choose|w: int| 0 <= w < out@.len() && out@[w].chain_id == k;
                            if w < before.len() {
                                assert(before[w].chain_id == k);
                            }
                        }
                    }
                    assert forall|k: CinemaChainId| #![auto] names_of(out@).dom().contains(k) implies names_of(out@)[k] == names_of(before).insert(id, name)[k] by {
                        let w = choose|w: int| 0 <= w < out@.len() && out@[w].chain_id == k;
                        if k == id {
                            assert(w == before.len());
                        } else {
                            let w2 = choose|w2: int| 0 <= w2 < before.len() && before[w2].chain_id == k;
                            assert(w2 == w);
                        }
                    }
                    assert(names_of(out@) =~= names_of(before).insert(id, name));
                }
            }
            i = i + 1;
        }
        assert(chains@.subrange(0, chains@.len() as int) =~= chains@);
        Registry { chains: out }
    }

    /// The registry of the chains the tool ships with: Cinema City, Helios and Multikino.
    pub fn new() -> (r: Self)
        ensures
            r.wf(),
            r@ == map![
                CinemaChainId::CinemaCity => "Cinema City"@,
                CinemaChainId::Helios => "Helios"@,
                CinemaChainId::Multikino => "Multikino"@,
            ],
    {
        let mut chains: Vec<RegisteredCinemaChain> = Vec::new();
        chains.push(RegisteredCinemaChain { chain_id: CinemaChainId::CinemaCity, display_name: "Cinema City".to_owned() });
        chains.push(RegisteredCinemaChain { chain_id: CinemaChainId::Helios, display_name: "Helios".to_owned() });
        chains.push(RegisteredCinemaChain { chain_id: CinemaChainId::Multikino, display_name: "Multikino".to_owned() });
        let ghost s = chains@;
        let r = Registry::from_chains(chains);
        proof {
            reveal_with_fuel(registered_names, 4);
            assert(s.drop_last().drop_last().drop_last() =~= Seq::<RegisteredCinemaChain>::empty());
            assert(registered_names(s) =~= map![
                CinemaChainId::CinemaCity => "Cinema City"@,
                CinemaChainId::Helios => "Helios"@,
                CinemaChainId::Multikino => "Multikino"@,
            ]);
        }
        r
    }

    /// The registered chain with identifier `chain_id`; an unsupported chain error names it and
    /// lists every identifier.
    pub fn get_registered_chain(&self, chain_id: CinemaChainId) -> (r: AppResult<RegisteredCinemaChain>)
        requires
            self.wf(),
        ensures
            self@.dom().contains(chain_id) ==> (r matches Ok(c) && c.chain_id == chain_id && c.display_name@ == self@[chain_id]),
            !self@.dom().contains(chain_id) ==> (r matches Err(AppError::UnsupportedCinemaChain { invalid_chain, supported_chains })
                && invalid_chain@ == crate::domain::chain_id_seq(chain_id) && supported_chains@ == supported_chains_text()),
    {
        let mut i: usize = 0;
        while i < self.chains.len()
            invariant
                i <= self.chains@.len(),
                self.wf(),
                forall|m: int| 0 <= m < i ==> self.chains@[m].chain_id != chain_id,
            decreases self.chains.len() - i,
        {
            if self.chains[i].chain_id == chain_id {
                proof {
                    assert(names_of(self.chains@).dom().contains(chain_id));
                    let w = choose|w: int| 0 <= w < self.chains@.len() && self.chains@[w].chain_id == chain_id;
                    assert(w == i) by {
                        if w != i {
                            if w < i {
                                assert(self.chains@[w].chain_id != self.chains@[i as int].chain_id);
                            } else {
                                assert(self.chains@[i as int].chain_id != self.chains@[w].chain_id);
                            }
                        }
                    }
                }
                return Ok(copy_chain(&self.chains[i]));
            }
            i = i + 1;
        }
        proof {
            reveal_strlit("cinema-city, helios, multikino");
        }
        Err(AppError::UnsupportedCinemaChain {
            invalid_chain: chain_id.as_str().to_owned(),
            supported_chains: string_of(chars_of("cinema-city, helios, multikino").as_slice()),
        })
    }

    /// Every registered chain, by display name.
    pub fn get_registered_chains(&self) -> (r: Vec<RegisteredCinemaChain>)
        requires
            self.wf(),
        ensures
            ids_distinct(r@),
            names_of(r@) == self@,
            forall|a: int, b: int| 0 <= a < b < r@.len() ==> !text_less(r@[b].display_name@, r@[a].display_name@),
    {
        let mut keys: Vec<Vec<char>> = Vec::new();
        let mut k: usize = 0;
        while k < self.chains.len()
            invariant
                k <= self.chains@.len(),
                keys@.len() == k,
                forall|m: int| 0 <= m < k ==> #[trigger] keys@[m]@ == self.chains@[m].display_name@,
            decreases self.chains.len() - k,
        {
            keys.push(chars_of(self.chains[k].display_name.as_str()));
            k = k + 1;
        }
        let order = crate::ordering::stable_text_order(&keys);
        let ghost ord = crate::ordering::index_ints(order@);
        let ghost ks = crate::ordering::key_views(keys@);
        assert(forall|m: int| 0 <= m < keys@.len() ==> ks[m] == self.chains@[m].display_name@);
        let mut out: Vec<RegisteredCinemaChain> = Vec::new();
        let mut n: usize = 0;
        while n < order.len()
            invariant
                n <= order@.len(),
                ord == crate::ordering::index_ints(order@),
                crate::ordering::is_text_order(ord, ks),
                ks.len() == self.chains@.len(),
                forall|m: int| 0 <= m < ks.len() ==> ks[m] == self.chains@[m].display_name@,
                out@.len() == n,
                forall|m: int| 0 <= m < n ==> #[trigger] out@[m].chain_id == self.chains@[ord[m]].chain_id
                    && out@[m].display_name@ == self.chains@[ord[m]].display_name@,
            decreases order.len() - n,
        {
            let idx = order[n];
            assert(ord[n as int] == idx as int);
            out.push(copy_chain(&self.chains[idx]));
            n = n + 1;
        }
        proof {
            let r = out@;
            let c = self.chains@;
            assert forall|a: int, b: int| 0 <= a < b < r.len() implies r[a].chain_id != r[b].chain_id by {
                assert(r[a].chain_id == c[ord[a]].chain_id);
                assert(r[b].chain_id == c[ord[b]].chain_id);
                assert(ord[a] != ord[b]) by {
                    if ord[a] == ord[b] {
                        assert(crate::ordering::sorts_before(ks, ord[a], ord[b]));
                        crate::ordering::lemma_text_less_irreflexive(ks[ord[a]]);
                    }
                }
                if ord[a] < ord[b] {
                    assert(c[ord[a]].chain_id != c[ord[b]].chain_id);
                } else {
                    assert(c[ord[b]].chain_id != c[ord[a]].chain_id);
                }
            }
            assert forall|a: int, b: int| 0 <= a < b < r.len() implies !text_less(r[b].display_name@, r[a].display_name@) by {
                assert(crate::ordering::sorts_before(ks, ord[a], ord[b]));
                if text_less(ks[ord[a]], ks[ord[b]]) {
                    crate::ordering::lemma_text_less_total(ks[ord[a]], ks[ord[b]]);
                    if text_less(ks[ord[b]], ks[ord[a]]) {
                        crate::ordering::lemma_text_less_transitive(ks[ord[a]], ks[ord[b]], ks[ord[a]]);
                        crate::ordering::lemma_text_less_irreflexive(ks[ord[a]]);
                    }
                } else {
                    crate::ordering::lemma_text_less_irreflexive(ks[ord[a]]);
                }
            }
            assert forall|id: CinemaChainId| #![auto] names_of(r).dom().contains(id) == names_of(c).dom().contains(id) by {
                if names_of(c).dom().contains(id) {
                    let w = choose|w: int| 0 <= w < c.len() && c[w].chain_id == id;
                    assert(ord.contains(w));
                    let p = choose|p: int| 0 <= p < ord.len() && ord[p] == w;
                    assert(r[p].chain_id == id);
                }
                if names_of(r).dom().contains(id) {
                    let p = choose|p: int| 0 <= p < r.len() && r[p].chain_id == id;
                    assert(c[ord[p]].chain_id == id);
                }
            }
            assert forall|id: CinemaChainId| #![auto] names_of(r).dom().contains(id) implies names_of(r)[id] == names_of(c)[id] by {
                let p = choose|p: int| 0 <= p < r.len() && r[p].chain_id == id;
                let w = choose|w: int| 0 <= w < c.len() && c[w].chain_id == id;
                assert(c[ord[p]].chain_id == id);
                assert(ord[p] == w) by {
                    if ord[p] < w {
                        assert(c[ord[p]].chain_id != c[w].chain_id);
                    } else if ord[p] > w {
                        assert(c[w].chain_id != c[ord[p]].chain_id);
                    }
                }
            }
            assert(names_of(r) =~= names_of(c));
        }
        out
    }
}

/// Registering chains and then looking one up gives the chain registered last under that
/// identifier, and an identifier never registered is reported as unsupported.
pub proof fn lemma_registry_lookup_last(chains: Seq<RegisteredCinemaChain>, id: CinemaChainId, i: int)
    requires
        0 <= i < chains.len(),
        chains[i].chain_id == id,
        forall|j: int| i < j < chains.len() ==> chains[j].chain_id != id,
    ensures
        registered_names(chains).dom().contains(id),
        registered_names(chains)[id] == chains[i].display_name@,
    decreases chains.len(),
{
    if i < chains.len() - 1 {
        lemma_registry_lookup_last(chains.drop_last(), id, i);
    }
}

/// An identifier that no chain was registered under is not in the registry.
pub proof fn lemma_registry_lookup_absent(chains: Seq<RegisteredCinemaChain>, id: CinemaChainId)
    requires
        forall|j: int| 0 <= j < chains.len() ==> chains[j].chain_id != id,
    ensures
        !registered_names(chains).dom().contains(id),
    decreases chains.len(),
{
    if chains.len() > 0 {
        lemma_registry_lookup_absent(chains.drop_last(), id);
    }
}

} // verus!
