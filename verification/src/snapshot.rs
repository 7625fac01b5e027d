//! How the contract state is written out and read back, and that reading
//! back what was written out gives the same state.

use vstd::prelude::*;
use crate::address::{AccountAddress, Address, ContractAddress};
use crate::collections::{keys_of, lists_exactly, lists_keys_exactly, views_of};
use crate::model::{AddressView, StateView};
use crate::types::{ViewAddressState, ViewState};

verus! {

/// `v` lists the whole state `s`: each address with its tokens and
/// operators, all tokens, the nonce registry, the implementors and the
/// metadata base URL of each token, every entry once.
pub open spec fn view_describes(v: ViewState, s: StateView) -> bool {
    &&& lists_keys_exactly(v.state@, s.state.dom())
    &&& forall|i: int|
        0 <= i < v.state@.len() ==> {
            &&& lists_exactly((#[trigger] v.state@[i]).1.owned_tokens@, s.state[v.state@[i].0].owned_tokens)
            &&& lists_exactly(v.state@[i].1.operators@, s.state[v.state@[i].0].operators)
        }
    &&& lists_exactly(v.all_tokens@, s.all_tokens)
    &&& lists_keys_exactly(v.nonces_registry@, s.nonces_registry.dom())
    &&& forall|i: int|
        0 <= i < v.nonces_registry@.len() ==> (#[trigger] v.nonces_registry@[i]).1
            == s.nonces_registry[v.nonces_registry@[i].0]
    &&& lists_keys_exactly(v.implementors@, s.implementors.dom())
    &&& forall|i: int|
        0 <= i < v.implementors@.len() ==> (#[trigger] v.implementors@[i]).1@
            == s.implementors[v.implementors@[i].0@]
    &&& lists_keys_exactly(v.token_metadata_urls@, s.token_metadata_urls.dom())
    &&& forall|i: int|
        0 <= i < v.token_metadata_urls@.len() ==> (#[trigger] v.token_metadata_urls@[i]).1@
            == s.token_metadata_urls[v.token_metadata_urls@[i].0]
}

/// The map made by inserting the pairs of `s` in order; a later pair wins.
pub open spec fn map_of<K, V>(s: Seq<(K, V)>) -> Map<K, V>
    decreases s.len(),
{
    if s.len() == 0 {
        Map::empty()
    } else {
        map_of(s.drop_last()).insert(s.last().0, s.last().1)
    }
}

/// The record that a listed address state stands for.
pub open spec fn record_of(v: ViewAddressState) -> AddressView {
    AddressView { owned_tokens: views_of(v.owned_tokens@), operators: views_of(v.operators@) }
}

/// The records that listed address states stand for.
pub open spec fn record_pairs(s: Seq<(Address, ViewAddressState)>) -> Seq<(Address, AddressView)> {
    s.map_values(|e: (Address, ViewAddressState)| (e.0, record_of(e.1)))
}

/// The listed metadata URLs as text.
pub open spec fn url_pairs(s: Seq<(u32, String)>) -> Seq<(u32, Seq<char>)> {
    s.map_values(|e: (u32, String)| (e.0, e.1@))
}

/// The listed implementors, keyed by the text of the standard identifier.
pub open spec fn implementor_pairs(s: Seq<(String, Vec<ContractAddress>)>) -> Seq<(Seq<char>, Seq<ContractAddress>)> {
    s.map_values(|e: (String, Vec<ContractAddress>)| (e.0@, e.1@))
}

/// The state that reading back `v` gives.
pub open spec fn restored(v: ViewState) -> StateView {
    StateView {
        state: map_of(record_pairs(v.state@)),
        all_tokens: views_of(v.all_tokens@),
        token_metadata_urls: map_of(url_pairs(v.token_metadata_urls@)),
        implementors: map_of(implementor_pairs(v.implementors@)),
        nonces_registry: map_of(v.nonces_registry@),
    }
}

/// With distinct keys, `map_of` holds exactly the listed pairs.
pub proof fn lemma_map_of<K, V>(s: Seq<(K, V)>)
    requires
        forall|i: int, j: int| 0 <= i < j < s.len() ==> s[i].0 != s[j].0,
    ensures
        forall|i: int|
            0 <= i < s.len() ==> map_of(s).contains_key(#[trigger] s[i].0) && map_of(s)[s[i].0] == s[i].1,
        forall|k: K| map_of(s).contains_key(k) ==> exists|i: int| 0 <= i < s.len() && #[trigger] s[i].0 == k,
    decreases s.len(),
{
    if s.len() > 0 {
        let p = s.drop_last();
        lemma_map_of(p);
        assert(map_of(s) == map_of(p).insert(s.last().0, s.last().1));
        assert forall|i: int| 0 <= i < s.len() implies map_of(s).contains_key(#[trigger] s[i].0) && map_of(s)[s[i].0]
            == s[i].1 by {
            if i < s.len() - 1 {
                assert(p[i] == s[i]);
                assert(s[i].0 != s[s.len() - 1].0);
            }
        }
        assert forall|k: K| map_of(s).contains_key(k) implies exists|i: int| 0 <= i < s.len() && #[trigger] s[i].0 == k by {
            if k != s.last().0 {
                let i = choose|i: int| 0 <= i < p.len() && #[trigger] p[i].0 == k;
                assert(s[i] == p[i]);
            } else {
                assert(s[s.len() - 1].0 == k);
            }
        }
    }
}

proof fn lemma_listed_member<K: View>(s: Seq<K>, set: Set<K::V>, i: int)
    requires
        lists_exactly(s, set),
        0 <= i < s.len(),
    ensures
        set.contains(s[i]@),
{
}

proof fn lemma_listed_index<K: View>(s: Seq<K>, set: Set<K::V>, k: K::V) -> (i: int)
    requires
        lists_exactly(s, set),
        set.contains(k),
    ensures
        0 <= i < s.len(),
        s[i]@ == k,
{
    choose|i: int| 0 <= i < s.len() && #[trigger] s[i]@ == k
}

proof fn lemma_views_of<K: View>(s: Seq<K>, set: Set<K::V>)
    requires
        lists_exactly(s, set),
    ensures
        views_of(s) == set,
{
    assert(views_of(s) =~= set);
}

/// Reading back the view of a state gives that state again.
pub proof fn lemma_restore_view(v: ViewState, s: StateView)
    requires
        view_describes(v, s),
    ensures
        restored(v) == s,
{
    let snap = v;
    let r = restored(v);
    lemma_views_of(snap.all_tokens@, s.all_tokens);

    let ps = record_pairs(snap.state@);
    let ks = keys_of(snap.state@);
    assert forall|i: int, j: int| 0 <= i < j < ps.len() implies ps[i].0 != ps[j].0 by {
        assert(ks[i]@ != ks[j]@);
    }
    lemma_map_of(ps);
    assert forall|a: Address| #[trigger] r.state.contains_key(a) == s.state.contains_key(a) by {
        if s.state.contains_key(a) {
            let i = choose|i: int| 0 <= i < ks.len() && #[trigger] ks[i]@ == a;
            assert(ps[i].0 == a);
        }
        if r.state.contains_key(a) {
            let i = choose|i: int| 0 <= i < ps.len() && #[trigger] ps[i].0 == a;
            assert(ks[i]@ == a);
        }
    }
    assert forall|a: Address| #[trigger] r.state.contains_key(a) implies r.state[a] == s.state[a] by {
        let i = choose|i: int| 0 <= i < ps.len() && #[trigger] ps[i].0 == a;
        assert(snap.state@[i].0 == a);
        lemma_views_of(snap.state@[i].1.owned_tokens@, s.state[a].owned_tokens);
        lemma_views_of(snap.state@[i].1.operators@, s.state[a].operators);
        assert(record_of(snap.state@[i].1) =~= s.state[a]);
    }
    assert(r.state =~= s.state);

    let us = url_pairs(snap.token_metadata_urls@);
    let uk = keys_of(snap.token_metadata_urls@);
    assert forall|i: int, j: int| 0 <= i < j < us.len() implies us[i].0 != us[j].0 by {
        assert(uk[i]@ != uk[j]@);
    }
    lemma_map_of(us);
    assert forall|t: u32| #[trigger] r.token_metadata_urls.contains_key(t) == s.token_metadata_urls.contains_key(t) by {
        if s.token_metadata_urls.contains_key(t) {
            let i = lemma_listed_index(uk, s.token_metadata_urls.dom(), t);
            assert(us[i].0 == t);
        }
        if r.token_metadata_urls.contains_key(t) {
            let i = choose|i: int| 0 <= i < us.len() && #[trigger] us[i].0 == t;
            lemma_listed_member(uk, s.token_metadata_urls.dom(), i);
        }
    }
    assert forall|t: u32| #[trigger] r.token_metadata_urls.contains_key(t) implies r.token_metadata_urls[t]
        == s.token_metadata_urls[t] by {
        let i = choose|i: int| 0 <= i < us.len() && #[trigger] us[i].0 == t;
        assert(snap.token_metadata_urls@[i].0 == t);
    }
    assert(r.token_metadata_urls =~= s.token_metadata_urls);

    let is = implementor_pairs(snap.implementors@);
    let ik = keys_of(snap.implementors@);
    assert forall|i: int, j: int| 0 <= i < j < is.len() implies is[i].0 != is[j].0 by {
        assert(ik[i]@ != ik[j]@);
    }
    lemma_map_of(is);
    assert forall|t: Seq<char>| #[trigger] r.implementors.contains_key(t) == s.implementors.contains_key(t) by {
        if s.implementors.contains_key(t) {
            let i = choose|i: int| 0 <= i < ik.len() && #[trigger] ik[i]@ == t;
            assert(is[i].0 == t);
        }
        if r.implementors.contains_key(t) {
            let i = choose|i: int| 0 <= i < is.len() && #[trigger] is[i].0 == t;
            assert(ik[i]@ == t);
        }
    }
    assert forall|t: Seq<char>| #[trigger] r.implementors.contains_key(t) implies r.implementors[t]
        == s.implementors[t] by {
        let i = choose|i: int| 0 <= i < is.len() && #[trigger] is[i].0 == t;
        assert(snap.implementors@[i].0@ == t);
    }
    assert(r.implementors =~= s.implementors);

    let ns = snap.nonces_registry@;
    let nk = keys_of(ns);
    assert forall|i: int, j: int| 0 <= i < j < ns.len() implies ns[i].0 != ns[j].0 by {
        assert(nk[i]@ != nk[j]@);
    }
    lemma_map_of(ns);
    assert forall|t: AccountAddress| #[trigger] r.nonces_registry.contains_key(t) == s.nonces_registry.contains_key(t) by {
        if s.nonces_registry.contains_key(t) {
            let i = choose|i: int| 0 <= i < nk.len() && #[trigger] nk[i]@ == t;
            assert(ns[i].0 == t);
        }
        if r.nonces_registry.contains_key(t) {
            let i = choose|i: int| 0 <= i < ns.len() && #[trigger] ns[i].0 == t;
            assert(nk[i]@ == t);
        }
    }
    assert(r.nonces_registry =~= s.nonces_registry);
    assert(r =~= s);
}

} // verus!
