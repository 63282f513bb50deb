use std::collections::HashMap;
use vstd::prelude::*;
use crate::genome::{Genome, NodeGene, WeightGene, destinasjoner_finnes, er_aktive_vekter, node_aktiv, unike_ider, vekter_inn};

verus! {

broadcast use vstd::std_specs::hash::group_hash_axioms;

/// Vektene inn til `d` slik oppslagstabellen har dem (tom liste uten oppføring).
pub open spec fn vekter_for(wpd: Map<i32, Vec<WeightGene>>, d: i32) -> Seq<WeightGene> {
    if wpd.contains_key(d) {
        wpd[d]@
    } else {
        seq![]
    }
}

/// Kildenodene til vektene, i samme rekkefølge.
pub open spec fn kilder(vekter: Seq<WeightGene>) -> Seq<i32> {
    vekter.map_values(|w: WeightGene| w.kildenode)
}

/// Legger `x` bakerst om den ikke finnes fra før.
pub open spec fn legg_til_unik(acc: Seq<i32>, x: i32) -> Seq<i32> {
    if acc.contains(x) {
        acc
    } else {
        acc.push(x)
    }
}

/// Legger elementene i `xs` til etter tur, uten å gjenta noen.
pub open spec fn legg_til_unike(acc: Seq<i32>, xs: Seq<i32>) -> Seq<i32>
    decreases xs.len(),
{
    if xs.len() == 0 {
        acc
    } else {
        legg_til_unik(legg_til_unike(acc, xs.drop_last()), xs.last())
    }
}

/// Laget etter `siste`: for hver node i `siste` som ikke er behandlet før (verken i
/// `behandlet` eller tidligere i `siste`), kildene til vektene inn til den, i rekkefølge
/// og uten gjentakelser.
pub open spec fn neste_lag(wpd: Map<i32, Vec<WeightGene>>, siste: Seq<i32>, behandlet: Set<i32>) -> Seq<i32>
    decreases siste.len(),
{
    if siste.len() == 0 {
        seq![]
    } else {
        let forrige = neste_lag(wpd, siste.drop_last(), behandlet);
        let d = siste.last();
        if behandlet.contains(d) || siste.drop_last().contains(d) {
            forrige
        } else {
            legg_til_unike(forrige, kilder(vekter_for(wpd, d)))
        }
    }
}

/// Listene over brukte vekter sett som sekvenser.
pub open spec fn brukte_lister(m: Map<i32, Vec<WeightGene>>) -> Map<i32, Seq<WeightGene>> {
    Map::new(|k: i32| m.contains_key(k), |k: i32| m[k]@)
}

/// Vektene noden `n` har brukt (tom liste uten oppføring).
pub open spec fn brukt_for(b: Map<i32, Seq<WeightGene>>, n: i32) -> Seq<WeightGene> {
    if b.contains_key(n) {
        b[n]
    } else {
        seq![]
    }
}

/// Går gjennom vektene `ws` inn til én node i rekkefølge, med `u` som vektene
/// noden har brukt: hver vekt som ikke er brukt (samme kilde og destinasjon),
/// legger kilden sin i laget `acc` (uten gjentakelser) og blir lagt til de brukte.
pub open spec fn behandle(acc: Seq<i32>, u: Seq<WeightGene>, ws: Seq<WeightGene>) -> (Seq<i32>, Seq<WeightGene>)
    decreases ws.len(),
{
    if ws.len() == 0 {
        (acc, u)
    } else {
        let (a, v) = behandle(acc, u, ws.drop_last());
        let w = ws.last();
        if har_forbindelse(v, w) {
            (a, v)
        } else {
            (legg_til_unik(a, w.kildenode), v.push(w))
        }
    }
}

/// Det nye laget og de brukte vektene etter at nodene i `siste` er gått
/// gjennom etter tur, fra de brukte vektene `b0`; hver node får listen sin
/// skrevet tilbake, også uten vekter inn.
pub open spec fn lag_steg(wpd: Map<i32, Vec<WeightGene>>, siste: Seq<i32>, b0: Map<i32, Seq<WeightGene>>) -> (
    Seq<i32>,
    Map<i32, Seq<WeightGene>>,
)
    decreases siste.len(),
{
    if siste.len() == 0 {
        (seq![], b0)
    } else {
        let (a, b) = lag_steg(wpd, siste.drop_last(), b0);
        let n = siste.last();
        let (a2, u2) = behandle(a, brukt_for(b, n), vekter_for(wpd, n));
        (a2, b.insert(n, u2))
    }
}

/// Alle noder som står i et av lagene.
pub open spec fn noder_i(lag: Seq<Seq<i32>>) -> Set<i32> {
    Set::new(|n: i32| exists|k: int| 0 <= k < lag.len() && #[trigger] lag[k].contains(n))
}

/// Lagene sett som sekvenser.
pub open spec fn lag_syn(lag: Seq<Vec<i32>>) -> Seq<Seq<i32>> {
    lag.map_values(|v: Vec<i32>| v@)
}

/// Innovasjonsnumrene til utgangsnodene, i genomets rekkefølge.
pub open spec fn utganger(noder: Seq<NodeGene>) -> Seq<i32>
    decreases noder.len(),
{
    if noder.len() == 0 {
        seq![]
    } else {
        let f = utganger(noder.drop_last());
        if noder.last().outputnode {
            f.push(noder.last().innovation_number)
        } else {
            f
        }
    }
}

/// Lagdelingen fra utgangen og bakover: lag 0 er utgangsnodene, hvert neste lag er
/// `neste_lag` av det forrige (alle lag etter det første er ikke-tomme), og laget etter
/// det siste ville vært tomt.
pub open spec fn er_lagdeling(lag: Seq<Seq<i32>>, wpd: Map<i32, Vec<WeightGene>>, utg: Seq<i32>) -> bool {
    &&& lag.len() >= 1
    &&& lag[0] == utg
    &&& forall|k: int|
        0 <= k < lag.len() - 1 ==> #[trigger] lag[k + 1] == neste_lag(wpd, lag[k], noder_i(lag.take(k)))
            && lag[k + 1].len() > 0
    &&& neste_lag(wpd, lag.last(), noder_i(lag.take(lag.len() - 1))).len() == 0
}

/// Hver node i lagdelingen er knyttet til det siste (høyeste) laget den står i.
pub open spec fn er_lag_per_node(m: Map<i32, i32>, lag: Seq<Seq<i32>>) -> bool {
    &&& forall|n: i32| #[trigger] m.contains_key(n) <==> noder_i(lag).contains(n)
    &&& forall|n: i32|
        #[trigger] m.contains_key(n) ==> 0 <= m[n] < lag.len() && lag[m[n] as int].contains(n)
            && forall|k: int| m[n] < k < lag.len() ==> !(#[trigger] lag[k].contains(n))
}

/// `brukt` har en vekt med samme kilde og destinasjon som `w`.
pub open spec fn har_forbindelse(brukt: Seq<WeightGene>, w: WeightGene) -> bool {
    exists|i: int|
        0 <= i < brukt.len() && brukt[i].kildenode == w.kildenode && brukt[i].destinasjonsnode
            == w.destinasjonsnode
}

/// Hver vekt i `vekter` har sin forbindelse i `brukt`.
pub open spec fn dekker(brukt: Seq<WeightGene>, vekter: Seq<WeightGene>) -> bool {
    forall|j: int| 0 <= j < vekter.len() ==> har_forbindelse(brukt, #[trigger] vekter[j])
}

/// Hver behandlet node har brukt alle vektene inn til seg.
pub open spec fn brukt_stemmer(brukt: Map<i32, Vec<WeightGene>>, wpd: Map<i32, Vec<WeightGene>>) -> bool {
    forall|d: i32| #[trigger] brukt.contains_key(d) ==> dekker(brukt[d]@, vekter_for(wpd, d))
}

fn har_forbindelse_exec(brukt: &Vec<WeightGene>, w: &WeightGene) -> (r: bool)
    ensures
        r == har_forbindelse(brukt@, *w),
{
    let mut i: usize = 0;
    while i < brukt.len()
        invariant
            i <= brukt@.len(),
            forall|a: int|
                0 <= a < i ==> !(brukt@[a].kildenode == w.kildenode && brukt@[a].destinasjonsnode
                    == w.destinasjonsnode),
        decreases brukt@.len() - i,
    {
        if brukt[i].kildenode == w.kildenode && brukt[i].destinasjonsnode == w.destinasjonsnode {
            return true;
        }
        i = i + 1;
    }
    false
}

fn inneholder_id(v: &Vec<i32>, x: i32) -> (r: bool)
    ensures
        r == v@.contains(x),
{
    let mut i: usize = 0;
    while i < v.len()
        invariant
            i <= v@.len(),
            forall|a: int| 0 <= a < i ==> v@[a] != x,
        decreases v@.len() - i,
    {
        if v[i] == x {
            return true;
        }
        i = i + 1;
    }
    false
}

/// Regner ut laget etter det siste i `layers_output_to_input`: for hver node i
/// det siste laget brukes vektene inn til noden som ikke er brukt av den før;
/// kilden deres legges i det nye laget (én gang) og får `lag_index` som lag, og
/// vekten legges til nodens liste over brukte vekter. Når hver node med en liste
/// alt har brukt alle vektene sine, er det nye laget `neste_lag`.
fn faa_neste_lag(
    weights_per_desination_node: &HashMap<i32, Vec<WeightGene>>,
    layer_per_node: &mut HashMap<i32, i32>,
    layers_output_to_input: &mut Vec<Vec<i32>>,
    node_to_vekt_som_flyttet_paa_noden: &mut HashMap<i32, Vec<WeightGene>>,
    lag_index: i32,
) -> (next_layer: Vec<i32>)
    requires
        old(layers_output_to_input)@.len() > 0,
    ensures
        final(layers_output_to_input)@ == old(layers_output_to_input)@,
        (next_layer@, brukte_lister(final(node_to_vekt_som_flyttet_paa_noden)@)) == lag_steg(
            weights_per_desination_node@,
            old(layers_output_to_input)@.last()@,
            brukte_lister(old(node_to_vekt_som_flyttet_paa_noden)@),
        ),
        final(node_to_vekt_som_flyttet_paa_noden)@.dom() == old(node_to_vekt_som_flyttet_paa_noden)@.dom()
            + old(layers_output_to_input)@.last()@.to_set(),
        forall|a: int, b: int|
            0 <= a < next_layer@.len() && 0 <= b < next_layer@.len() && a != b ==> #[trigger] next_layer@[a]
                != #[trigger] next_layer@[b],
        brukt_stemmer(old(node_to_vekt_som_flyttet_paa_noden)@, weights_per_desination_node@) ==> {
            &&& next_layer@ == neste_lag(
                weights_per_desination_node@,
                old(layers_output_to_input)@.last()@,
                old(node_to_vekt_som_flyttet_paa_noden)@.dom(),
            )
            &&& brukt_stemmer(final(node_to_vekt_som_flyttet_paa_noden)@, weights_per_desination_node@)
        },
        forall|n: i32|
            #[trigger] final(layer_per_node)@.contains_key(n) <==> old(layer_per_node)@.contains_key(n)
                || next_layer@.contains(n),
        forall|n: i32| #[trigger] next_layer@.contains(n) ==> final(layer_per_node)@[n] == lag_index,
        forall|n: i32|
            !next_layer@.contains(n) && #[trigger] old(layer_per_node)@.contains_key(n)
                ==> final(layer_per_node)@[n] == old(layer_per_node)@[n],
{
    let ghost wpd = weights_per_desination_node@;
    let ghost lag0 = layers_output_to_input@;
    let ghost b0 = node_to_vekt_som_flyttet_paa_noden@.dom();
    let ghost lpn0 = layer_per_node@;
    let ghost bl0 = brukte_lister(node_to_vekt_som_flyttet_paa_noden@);
    let ghost dekket = brukt_stemmer(node_to_vekt_som_flyttet_paa_noden@, wpd);
    let siste_idx = layers_output_to_input.len() - 1;
    let ghost siste = lag0[siste_idx as int]@;
    let mut next_layer: Vec<i32> = Vec::new();
    let mut i: usize = 0;
    while i < layers_output_to_input[siste_idx].len()
        invariant
            layers_output_to_input@ == lag0,
            siste_idx == lag0.len() - 1,
            siste == lag0[siste_idx as int]@,
            wpd == weights_per_desination_node@,
            i <= siste.len(),
            dekket ==> next_layer@ == neste_lag(wpd, siste.take(i as int), b0),
            node_to_vekt_som_flyttet_paa_noden@.dom() == b0 + siste.take(i as int).to_set(),
            dekket ==> brukt_stemmer(node_to_vekt_som_flyttet_paa_noden@, wpd),
            (next_layer@, brukte_lister(node_to_vekt_som_flyttet_paa_noden@)) == lag_steg(
                wpd,
                siste.take(i as int),
                bl0,
            ),
            forall|n: i32|
                #[trigger] layer_per_node@.contains_key(n) <==> lpn0.contains_key(n) || next_layer@.contains(n),
            forall|n: i32| #[trigger] next_layer@.contains(n) ==> layer_per_node@[n] == lag_index,
            forall|n: i32|
                !next_layer@.contains(n) && #[trigger] lpn0.contains_key(n) ==> layer_per_node@[n] == lpn0[n],
        decreases siste.len() - i,
    {
        let node = layers_output_to_input[siste_idx][i];
        let ghost ferdig = node_to_vekt_som_flyttet_paa_noden@.contains_key(node);
        let ghost next0 = next_layer@;
        let ghost bl_foer = brukte_lister(node_to_vekt_som_flyttet_paa_noden@);
        let ghost u0 = brukt_for(bl_foer, node);
        proof {
            assert(siste.take(i + 1).drop_last() =~= siste.take(i as int));
            assert(siste.take(i + 1).last() == node);
            assert(ferdig == (b0.contains(node) || siste.take(i as int).contains(node)));
        }
        let mut vekter_allerede_brukt: Vec<WeightGene> = match node_to_vekt_som_flyttet_paa_noden.remove(&node) {
            None => Vec::new(),
            Some(liste) => liste,
        };
        proof {
            if ferdig && dekket {
                assert(dekker(vekter_allerede_brukt@, vekter_for(wpd, node)));
            }
            if !ferdig {
                assert(vekter_allerede_brukt@.len() == 0);
            }
            assert(vekter_allerede_brukt@ =~= u0);
        }
        match weights_per_desination_node.get(&node) {
            Some(weights) => {
                let ghost ws = weights@;
                proof {
                    assert(vekter_for(wpd, node) == ws);
                }
                let mut j: usize = 0;
                while j < weights.len()
                    invariant
                        ws == weights@,
                        j <= ws.len(),
                        (next_layer@, vekter_allerede_brukt@) == behandle(next0, u0, ws.take(j as int)),
                        !ferdig ==> u0.len() == 0,
                        ferdig && dekket ==> next_layer@ == next0 && dekker(vekter_allerede_brukt@, ws),
                        !ferdig ==> next_layer@ == legg_til_unike(next0, kilder(ws.take(j as int)))
                            && dekker(vekter_allerede_brukt@, ws.take(j as int)) && forall|m: int|
                            0 <= m < vekter_allerede_brukt@.len() ==> next_layer@.contains(
                                #[trigger] vekter_allerede_brukt@[m].kildenode,
                            ),
                        forall|n: i32|
                            #[trigger] layer_per_node@.contains_key(n) <==> lpn0.contains_key(n)
                                || next_layer@.contains(n),
                        forall|n: i32| #[trigger] next_layer@.contains(n) ==> layer_per_node@[n] == lag_index,
                        forall|n: i32|
                            !next_layer@.contains(n) && #[trigger] lpn0.contains_key(n) ==> layer_per_node@[n]
                                == lpn0[n],
                        forall|a: int| 0 <= a < next0.len() ==> next_layer@.contains(#[trigger] next0[a]),
                    decreases ws.len() - j,
                {
                    let weight = weights[j];
                    let ghost foer = next_layer@;
                    proof {
                        assert(kilder(ws.take(j + 1)).drop_last() =~= kilder(ws.take(j as int)));
                        assert(kilder(ws.take(j + 1)).last() == weight.kildenode);
                    }
                    proof {
                        assert(ws.take(j + 1).drop_last() =~= ws.take(j as int));
                        assert(ws.take(j + 1).last() == weight);
                        if ferdig && dekket {
                            assert(har_forbindelse(vekter_allerede_brukt@, ws[j as int]));
                        }
                    }
                    if !har_forbindelse_exec(&vekter_allerede_brukt, &weight) {
                        proof {
                            assert(ferdig ==> !dekket);
                        }
                        if !inneholder_id(&next_layer, weight.kildenode) {
                            next_layer.push(weight.kildenode);
                        }
                        let ghost lpn_foer = layer_per_node@;
                        layer_per_node.insert(weight.kildenode, lag_index);
                        let ghost v0 = vekter_allerede_brukt@;
                        vekter_allerede_brukt.push(weight);
                        proof {
                            assert(next_layer@ == legg_til_unik(foer, weight.kildenode));
                            if !foer.contains(weight.kildenode) {
                                assert(next_layer@[foer.len() as int] == weight.kildenode);
                            }
                            assert(next_layer@.contains(weight.kildenode));
                            assert forall|n: i32| #[trigger] next_layer@.contains(n) implies layer_per_node@[n] == lag_index by {
                                if n != weight.kildenode {
                                    let a = choose|a: int| 0 <= a < next_layer@.len() && next_layer@[a] == n;
                                    if a < foer.len() {
                                        assert(foer[a] == n);
                                    }
                                    assert(foer.contains(n));
                                    assert(lpn_foer[n] == lag_index);
                                }
                            }
                            assert forall|n: i32| #[trigger] layer_per_node@.contains_key(n) <==> lpn0.contains_key(n)
                                || next_layer@.contains(n) by {
                                if foer.contains(n) {
                                    let a = choose|a: int| 0 <= a < foer.len() && foer[a] == n;
                                    assert(next_layer@[a] == n);
                                }
                                if next_layer@.contains(n) && n != weight.kildenode {
                                    let a = choose|a: int| 0 <= a < next_layer@.len() && next_layer@[a] == n;
                                    if a < foer.len() {
                                        assert(foer[a] == n);
                                    }
                                }
                                if n == weight.kildenode {
                                    assert(next_layer@.contains(n));
                                }
                            }
                            assert forall|n: i32| !next_layer@.contains(n) && #[trigger] lpn0.contains_key(n) implies layer_per_node@[n]
                                == lpn0[n] by {
                                if foer.contains(n) {
                                    let a = choose|a: int| 0 <= a < foer.len() && foer[a] == n;
                                    assert(next_layer@[a] == n);
                                }
                            }
                            assert forall|a: int| 0 <= a < foer.len() implies next_layer@.contains(#[trigger] foer[a]) by {
                                assert(next_layer@[a] == foer[a]);
                            }
                            if !ferdig {
                                assert forall|jj: int| 0 <= jj < j + 1 implies har_forbindelse(
                                    vekter_allerede_brukt@,
                                    #[trigger] ws.take(j + 1)[jj],
                                ) by {
                                    if jj < j {
                                        assert(ws.take(j + 1)[jj] == ws.take(j as int)[jj]);
                                        let b = choose|b: int|
                                            0 <= b < v0.len() && v0[b].kildenode == ws.take(j as int)[jj].kildenode
                                                && v0[b].destinasjonsnode == ws.take(j as int)[jj].destinasjonsnode;
                                        assert(vekter_allerede_brukt@[b] == v0[b]);
                                    } else {
                                        assert(vekter_allerede_brukt@[v0.len() as int] == weight);
                                    }
                                }
                                assert forall|m: int| 0 <= m < vekter_allerede_brukt@.len() implies next_layer@.contains(
                                    #[trigger] vekter_allerede_brukt@[m].kildenode,
                                ) by {
                                    if m < v0.len() {
                                        assert(vekter_allerede_brukt@[m] == v0[m]);
                                        assert(foer.contains(v0[m].kildenode));
                                        let a = choose|a: int| 0 <= a < foer.len() && foer[a] == v0[m].kildenode;
                                        assert(next_layer@.contains(foer[a]));
                                    }
                                }
                            }
                            assert forall|a: int| 0 <= a < next0.len() implies next_layer@.contains(#[trigger] next0[a]) by {
                                let b = choose|b: int| 0 <= b < foer.len() && foer[b] == next0[a];
                                assert(next_layer@.contains(foer[b]));
                            }
                        }
                    } else {
                        proof {
                            if !ferdig {
                                let b = choose|b: int|
                                    0 <= b < vekter_allerede_brukt@.len() && vekter_allerede_brukt@[b].kildenode
                                        == weight.kildenode && vekter_allerede_brukt@[b].destinasjonsnode
                                        == weight.destinasjonsnode;
                                assert(next_layer@.contains(vekter_allerede_brukt@[b].kildenode));
                                assert(legg_til_unik(foer, weight.kildenode) == foer);
                                assert forall|jj: int| 0 <= jj < j + 1 implies har_forbindelse(
                                    vekter_allerede_brukt@,
                                    #[trigger] ws.take(j + 1)[jj],
                                ) by {
                                    if jj < j {
                                        assert(ws.take(j + 1)[jj] == ws.take(j as int)[jj]);
                                    } else {
                                        assert(ws.take(j + 1)[jj] == weight);
                                    }
                                }
                            }
                        }
                    }
                    j = j + 1;
                }
                proof {
                    assert(ws.take(ws.len() as int) =~= ws);
                }
            },
            None => {
                proof {
                    assert(vekter_for(wpd, node) =~= Seq::<WeightGene>::empty());
                    assert(kilder(vekter_for(wpd, node)) =~= Seq::<i32>::empty());
                }
            },
        }
        proof {
            if !ferdig {
                assert(next_layer@ == legg_til_unike(next0, kilder(vekter_for(wpd, node))));
            }
            if !ferdig || dekket {
                assert(dekker(vekter_allerede_brukt@, vekter_for(wpd, node)));
            }
            assert((next_layer@, vekter_allerede_brukt@) == behandle(next0, u0, vekter_for(wpd, node)));
        }
        let ghost brukt_ny = vekter_allerede_brukt@;
        node_to_vekt_som_flyttet_paa_noden.insert(node, vekter_allerede_brukt);
        proof {
            let t1 = siste.take(i + 1);
            assert(t1.drop_last() =~= siste.take(i as int));
            assert(t1.last() == node);
            assert(brukte_lister(node_to_vekt_som_flyttet_paa_noden@) =~= bl_foer.insert(node, brukt_ny));
        }
        proof {
            let t1 = siste.take(i + 1);
            let t0 = siste.take(i as int);
            assert forall|x: i32| t1.to_set().contains(x) <==> t0.to_set().contains(x) || x == node by {
                if t1.contains(x) {
                    let a = choose|a: int| 0 <= a < t1.len() && t1[a] == x;
                    if a < i {
                        assert(t0[a] == x);
                    }
                }
                if t0.contains(x) {
                    let a = choose|a: int| 0 <= a < t0.len() && t0[a] == x;
                    assert(t1[a] == x);
                }
                if x == node {
                    assert(t1[i as int] == x);
                }
            }
            assert(node_to_vekt_som_flyttet_paa_noden@.dom() =~= b0 + t1.to_set());
        }
        i = i + 1;
    }
    proof {
        assert(siste.take(siste.len() as int) =~= siste);
        lemma_lag_steg_uten_gjentakelser(wpd, siste, bl0);
        assert(next_layer@.no_duplicates());
    }
    next_layer
}

proof fn lemma_legg_til_unik_uten_gjentakelser(acc: Seq<i32>, x: i32)
    requires
        acc.no_duplicates(),
    ensures
        legg_til_unik(acc, x).no_duplicates(),
{
    if !acc.contains(x) {
        let g = acc.push(x);
        assert forall|i: int, j: int| 0 <= i < g.len() && 0 <= j < g.len() && i != j implies g[i] != g[j] by {
            if i == acc.len() {
                assert(g[j] == acc[j]);
            } else if j == acc.len() {
                assert(g[i] == acc[i]);
            } else {
                assert(g[i] == acc[i] && g[j] == acc[j]);
            }
        }
    }
}

proof fn lemma_behandle_uten_gjentakelser(acc: Seq<i32>, u: Seq<WeightGene>, ws: Seq<WeightGene>)
    requires
        acc.no_duplicates(),
    ensures
        behandle(acc, u, ws).0.no_duplicates(),
    decreases ws.len(),
{
    if ws.len() > 0 {
        lemma_behandle_uten_gjentakelser(acc, u, ws.drop_last());
        lemma_legg_til_unik_uten_gjentakelser(behandle(acc, u, ws.drop_last()).0, ws.last().kildenode);
    }
}

/// Det nye laget har ingen node to ganger, uansett hvilke vekter nodene har brukt.
proof fn lemma_lag_steg_uten_gjentakelser(
    wpd: Map<i32, Vec<WeightGene>>,
    siste: Seq<i32>,
    b0: Map<i32, Seq<WeightGene>>,
)
    ensures
        lag_steg(wpd, siste, b0).0.no_duplicates(),
    decreases siste.len(),
{
    if siste.len() > 0 {
        lemma_lag_steg_uten_gjentakelser(wpd, siste.drop_last(), b0);
        let (a, b) = lag_steg(wpd, siste.drop_last(), b0);
        let n = siste.last();
        lemma_behandle_uten_gjentakelser(a, brukt_for(b, n), vekter_for(wpd, n));
    }
}


/// Et ikke-tomt neste lag kommer fra en node i `siste` som ikke var behandlet
/// og som har en oppføring i tabellen.
proof fn lemma_neste_lag_ikke_tom(wpd: Map<i32, Vec<WeightGene>>, siste: Seq<i32>, behandlet: Set<i32>)
    requires
        neste_lag(wpd, siste, behandlet).len() > 0,
    ensures
        exists|d: i32| siste.contains(d) && !behandlet.contains(d) && wpd.contains_key(d),
    decreases siste.len(),
{
    let f = siste.drop_last();
    let d = siste.last();
    if neste_lag(wpd, f, behandlet).len() > 0 {
        lemma_neste_lag_ikke_tom(wpd, f, behandlet);
        let e = choose|e: i32| f.contains(e) && !behandlet.contains(e) && wpd.contains_key(e);
        let a = choose|a: int| 0 <= a < f.len() && f[a] == e;
        assert(siste[a] == e);
    } else {
        assert(!(behandlet.contains(d) || f.contains(d)));
        if !wpd.contains_key(d) {
            assert(kilder(vekter_for(wpd, d)) =~= Seq::<i32>::empty());
        }
        assert(siste[siste.len() - 1] == d);
    }
}

/// Nodene i de første `k + 1` lagene er nodene i de første `k` pluss lag `k`.
proof fn lemma_noder_i_take(lag: Seq<Seq<i32>>, k: int)
    requires
        0 <= k < lag.len(),
    ensures
        noder_i(lag.take(k + 1)) == noder_i(lag.take(k)) + lag[k].to_set(),
{
    let a = lag.take(k + 1);
    let b = lag.take(k);
    assert forall|n: i32| noder_i(a).contains(n) <==> noder_i(b).contains(n) || lag[k].to_set().contains(n) by {
        if noder_i(a).contains(n) {
            let j = choose|j: int| 0 <= j < a.len() && #[trigger] a[j].contains(n);
            if j < k {
                assert(b[j] == a[j]);
            }
        }
        if noder_i(b).contains(n) {
            let j = choose|j: int| 0 <= j < b.len() && #[trigger] b[j].contains(n);
            assert(a[j] == b[j]);
        }
        if lag[k].contains(n) {
            assert(a[k] == lag[k]);
        }
    }
    assert(noder_i(a) =~= noder_i(b) + lag[k].to_set());
}

fn utgangs_ider(noder: &Vec<NodeGene>) -> (r: Vec<i32>)
    ensures
        r@ == utganger(noder@),
{
    let mut r: Vec<i32> = Vec::new();
    let mut i: usize = 0;
    while i < noder.len()
        invariant
            i <= noder@.len(),
            r@ == utganger(noder@.take(i as int)),
        decreases noder@.len() - i,
    {
        proof {
            assert(noder@.take(i + 1).drop_last() =~= noder@.take(i as int));
        }
        if noder[i].outputnode {
            r.push(noder[i].innovation_number);
        }
        i = i + 1;
    }
    proof {
        assert(noder@.take(i as int) =~= noder@);
    }
    r
}

/// Deler nodene som påvirker utgangen i lag, fra utgangsnodene (lag 0) og bakover
/// langs påslåtte vekter. En node flyttes bare én gang per vekt, så sykler i
/// nettverket gir et endelig antall lag. Gir også det siste laget hver node står i.
pub fn lag_lag_av_nevroner_sortert_fra_output(
    genome: &Genome,
    weights_per_desination_node: &HashMap<i32, Vec<WeightGene>>,
) -> (res: (HashMap<i32, i32>, Vec<Vec<i32>>))
    requires
        weights_per_desination_node@.dom().len() + 2 <= i32::MAX,
    ensures
        er_lagdeling(lag_syn(res.1@), weights_per_desination_node@, utganger(genome.node_genes@)),
        er_lag_per_node(res.0@, lag_syn(res.1@)),
        res.1@.len() <= weights_per_desination_node@.dom().len() + 1,
        forall|k: int, a: int, b: int|
            0 <= k < res.1@.len() && (k > 0 || unike_ider(genome.node_genes@)) && 0 <= a < res.1@[k]@.len() && 0
                <= b < res.1@[k]@.len() && a != b ==> #[trigger] res.1@[k]@[a] != #[trigger] res.1@[k]@[b],
{
    let ghost wpd = weights_per_desination_node@;
    let output_nodes: Vec<i32> = utgangs_ider(&genome.node_genes);
    let mut node_to_layer: HashMap<i32, i32> = HashMap::new();
    let mut j: usize = 0;
    while j < output_nodes.len()
        invariant
            j <= output_nodes@.len(),
            forall|n: i32| #[trigger] node_to_layer@.contains_key(n) <==> output_nodes@.take(j as int).contains(n),
            forall|n: i32| #[trigger] node_to_layer@.contains_key(n) ==> node_to_layer@[n] == 0,
        decreases output_nodes@.len() - j,
    {
        node_to_layer.insert(output_nodes[j], 0);
        proof {
            let t1 = output_nodes@.take(j + 1);
            let t0 = output_nodes@.take(j as int);
            assert forall|n: i32| #[trigger] node_to_layer@.contains_key(n) <==> t1.contains(n) by {
                if t1.contains(n) {
                    let a = choose|a: int| 0 <= a < t1.len() && t1[a] == n;
                    if a < j {
                        assert(t0[a] == n);
                    }
                }
                if t0.contains(n) {
                    let a = choose|a: int| 0 <= a < t0.len() && t0[a] == n;
                    assert(t1[a] == n);
                }
                if n == output_nodes@[j as int] {
                    assert(t1[j as int] == n);
                }
            }
        }
        j = j + 1;
    }
    proof {
        assert(output_nodes@.take(output_nodes@.len() as int) =~= output_nodes@);
    }
    let ghost utg = output_nodes@;
    let mut layers_ordered_output_to_input: Vec<Vec<i32>> = Vec::new();
    layers_ordered_output_to_input.push(output_nodes);
    let ghost mut lag: Seq<Seq<i32>> = seq![utg];
    proof {
        assert(lag.take(0) =~= Seq::<Seq<i32>>::empty());
        assert(noder_i(lag.take(0)) =~= Set::<i32>::empty());
        assert forall|n: i32| #[trigger] node_to_layer@.contains_key(n) <==> noder_i(lag).contains(n) by {
            if utg.contains(n) {
                assert(lag[0].contains(n));
            }
        }
    }
    let mut node_to_vekt_som_flyttet_paa_noden: HashMap<i32, Vec<WeightGene>> = HashMap::new();
    let mut layer_index: i32 = 1;
    loop
        invariant_except_break
            layer_index == lag.len(),
            node_to_vekt_som_flyttet_paa_noden@.dom() == noder_i(lag.take(lag.len() - 1)),
            lag.len() <= node_to_vekt_som_flyttet_paa_noden@.dom().intersect(wpd.dom()).len() + 1,
        invariant
            wpd == weights_per_desination_node@,
            wpd.dom().len() + 2 <= i32::MAX,
            lag.len() >= 1,
            layers_ordered_output_to_input@.len() == lag.len(),
            forall|k: int| 0 <= k < lag.len() ==> #[trigger] layers_ordered_output_to_input@[k]@ == lag[k],
            lag[0] == utganger(genome.node_genes@),
            forall|k: int|
                0 <= k < lag.len() - 1 ==> #[trigger] lag[k + 1] == neste_lag(wpd, lag[k], noder_i(lag.take(k)))
                    && lag[k + 1].len() > 0,
            brukt_stemmer(node_to_vekt_som_flyttet_paa_noden@, wpd),
            er_lag_per_node(node_to_layer@, lag),
        ensures
            lag.len() >= 1,
            layers_ordered_output_to_input@.len() == lag.len(),
            forall|k: int| 0 <= k < lag.len() ==> #[trigger] layers_ordered_output_to_input@[k]@ == lag[k],
            er_lagdeling(lag, wpd, utganger(genome.node_genes@)),
            er_lag_per_node(node_to_layer@, lag),
            lag.len() <= wpd.dom().len() + 1,
        decreases wpd.dom().len() - node_to_vekt_som_flyttet_paa_noden@.dom().intersect(wpd.dom()).len(),
    {
        let ghost b0 = node_to_vekt_som_flyttet_paa_noden@.dom();
        let ghost lpn0 = node_to_layer@;
        proof {
            assert(layers_ordered_output_to_input@.last()@ == lag.last());
            vstd::set_lib::lemma_len_subset(b0.intersect(wpd.dom()), wpd.dom());
        }
        let next_layer = faa_neste_lag(
            weights_per_desination_node,
            &mut node_to_layer,
            &mut layers_ordered_output_to_input,
            &mut node_to_vekt_som_flyttet_paa_noden,
            layer_index,
        );
        proof {
            lemma_noder_i_take(lag, lag.len() - 1);
            assert(lag.take(lag.len() as int) =~= lag);
            assert(node_to_vekt_som_flyttet_paa_noden@.dom() == noder_i(lag));
        }
        layer_index = layer_index + 1;
        if next_layer.len() == 0 {
            proof {
                assert forall|n: i32| #[trigger] node_to_layer@.contains_key(n) == lpn0.contains_key(n) by {}
                assert forall|n: i32| #[trigger] node_to_layer@.contains_key(n) implies node_to_layer@[n] == lpn0[n] by {}
            }
            break;
        }
        let ghost b1 = node_to_vekt_som_flyttet_paa_noden@.dom();
        let ghost ny = next_layer@;
        proof {
            lemma_neste_lag_ikke_tom(wpd, lag.last(), b0);
            let d = choose|d: i32| lag.last().contains(d) && !b0.contains(d) && wpd.contains_key(d);
            assert(b1.contains(d));
            let s0 = b0.intersect(wpd.dom());
            let s1 = b1.intersect(wpd.dom());
            vstd::set_lib::lemma_len_subset(s1, wpd.dom());
            vstd::set_lib::lemma_len_subset(s0, wpd.dom());
            assert(s0.insert(d).subset_of(s1));
            vstd::set_lib::lemma_len_subset(s0.insert(d), s1);
        }
        layers_ordered_output_to_input.push(next_layer);
        proof {
            let gammel = lag;
            lag = lag.push(ny);
            assert(lag.take(lag.len() - 1) =~= gammel);
            assert forall|k: int| 0 <= k < gammel.len() - 1 implies #[trigger] lag[k + 1] == neste_lag(wpd, lag[k], noder_i(lag.take(k)))
                && lag[k + 1].len() > 0 by {
                assert(lag.take(k) =~= gammel.take(k));
                assert(gammel[k + 1] == neste_lag(wpd, gammel[k], noder_i(gammel.take(k))));
            }
            assert(lag.take(gammel.len() - 1) =~= gammel.take(gammel.len() - 1));
            assert(lag[gammel.len() as int] == neste_lag(wpd, lag[gammel.len() - 1], noder_i(lag.take(gammel.len() - 1))));
            assert forall|n: i32| #[trigger] node_to_layer@.contains_key(n) <==> noder_i(lag).contains(n) by {
                if noder_i(lag).contains(n) {
                    let k = choose|k: int| 0 <= k < lag.len() && #[trigger] lag[k].contains(n);
                    if k < gammel.len() {
                        assert(gammel[k].contains(n));
                        assert(noder_i(gammel).contains(n));
                    }
                }
                if noder_i(gammel).contains(n) {
                    let k = choose|k: int| 0 <= k < gammel.len() && #[trigger] gammel[k].contains(n);
                    assert(lag[k].contains(n));
                }
                if ny.contains(n) {
                    assert(lag[gammel.len() as int].contains(n));
                }
            }
            assert forall|n: i32| #[trigger] node_to_layer@.contains_key(n) implies 0 <= node_to_layer@[n] < lag.len()
                && lag[node_to_layer@[n] as int].contains(n) && forall|k: int|
                node_to_layer@[n] < k < lag.len() ==> !(#[trigger] lag[k].contains(n)) by {
                if ny.contains(n) {
                    assert(lag[gammel.len() as int] == ny);
                } else {
                    assert(lpn0.contains_key(n));
                    assert forall|k: int| node_to_layer@[n] < k < lag.len() implies !(#[trigger] lag[k].contains(n)) by {
                        if k < gammel.len() {
                            assert(lag[k] == gammel[k]);
                        }
                    }
                }
            }
        }
    }
    proof {
        assert(lag_syn(layers_ordered_output_to_input@) =~= lag);
        lemma_lagdeling_uten_gjentakelser(lag, wpd, utganger(genome.node_genes@));
        lemma_utganger_uten_gjentakelser(genome.node_genes@);
        assert forall|k: int, a: int, b: int|
            0 <= k < layers_ordered_output_to_input@.len() && (k > 0 || unike_ider(genome.node_genes@)) && 0 <= a
                < layers_ordered_output_to_input@[k]@.len() && 0 <= b < layers_ordered_output_to_input@[k]@.len()
                && a != b implies #[trigger] layers_ordered_output_to_input@[k]@[a]
            != #[trigger] layers_ordered_output_to_input@[k]@[b] by {
            assert(lag[k] == layers_ordered_output_to_input@[k]@);
            assert(lag[k].no_duplicates());
        }
    }
    (node_to_layer, layers_ordered_output_to_input)
}


/// Innovasjonsnumrene til inngangsnodene, i genomets rekkefølge.
pub open spec fn innganger(noder: Seq<NodeGene>) -> Seq<i32>
    decreases noder.len(),
{
    if noder.len() == 0 {
        seq![]
    } else {
        let f = innganger(noder.drop_last());
        if noder.last().inputnode {
            f.push(noder.last().innovation_number)
        } else {
            f
        }
    }
}

/// Utgangsnodene som ikke også er inngangsnoder, i genomets rekkefølge.
pub open spec fn rene_utganger(noder: Seq<NodeGene>) -> Seq<i32>
    decreases noder.len(),
{
    if noder.len() == 0 {
        seq![]
    } else {
        let f = rene_utganger(noder.drop_last());
        if !noder.last().inputnode && noder.last().outputnode {
            f.push(noder.last().innovation_number)
        } else {
            f
        }
    }
}

/// De påslåtte vektene, i genomets rekkefølge.
pub open spec fn paasaatte(vekter: Seq<WeightGene>) -> Seq<WeightGene>
    decreases vekter.len(),
{
    if vekter.len() == 0 {
        seq![]
    } else {
        let f = paasaatte(vekter.drop_last());
        if vekter.last().enabled {
            f.push(vekter.last())
        } else {
            f
        }
    }
}

/// Fenotypen: nettverket bygd fra et genom. Nodene er gitt ved innovasjonsnummer.
pub struct PhenotypeNeuralNetwork {
    pub ant_layers: usize,
    pub alle_vekter: Vec<WeightGene>,
    pub input_layer: Vec<i32>,
    pub output_layer: Vec<i32>,
    pub weights_per_destination_node: HashMap<i32, Vec<WeightGene>>,
    pub node_to_layer: HashMap<i32, i32>,
    pub layers_ordered_output_to_input: Vec<Vec<i32>>,
}

/// Nøklene i tabellen over påslåtte vekter er noder i genomet, så de er høyst like mange.
proof fn lemma_aktive_noekler_begrenset(m: Map<i32, Vec<WeightGene>>, g: Genome)
    requires
        er_aktive_vekter(m, g),
        m.dom().finite(),
    ensures
        m.dom().len() <= g.node_genes@.len(),
{
    let ider = g.node_genes@.map_values(|n: NodeGene| n.innovation_number);
    assert forall|d: i32| m.dom().contains(d) implies ider.to_set().contains(d) by {
        assert(node_aktiv(g.node_genes@, d));
        let i = choose|i: int| 0 <= i < g.node_genes@.len() && g.node_genes@[i].innovation_number == d
            && g.node_genes@[i].enabled;
        assert(ider[i] == d);
    }
    ider.lemma_cardinality_of_set();
    vstd::set_lib::lemma_len_subset(m.dom(), ider.to_set());
}

/// `r` er nettverket til genomet: påslåtte vekter per påslått destinasjonsnode,
/// lagene fra utgangen og bakover med laget til hver node, inngangsnodene,
/// utgangsnodene (de som ikke er inngang) og alle påslåtte vekter.
pub open spec fn er_fenotype_av(r: PhenotypeNeuralNetwork, genome: Genome) -> bool {
    &&& er_aktive_vekter(r.weights_per_destination_node@, genome)
    &&& er_lagdeling(
        lag_syn(r.layers_ordered_output_to_input@),
        r.weights_per_destination_node@,
        utganger(genome.node_genes@),
    )
    &&& er_lag_per_node(r.node_to_layer@, lag_syn(r.layers_ordered_output_to_input@))
    &&& r.ant_layers == r.layers_ordered_output_to_input@.len()
    &&& r.input_layer@ == innganger(genome.node_genes@)
    &&& r.output_layer@ == rene_utganger(genome.node_genes@)
    &&& r.alle_vekter@ == paasaatte(genome.weight_genes@)
}

impl PhenotypeNeuralNetwork {
    /// Bygger nettverket: påslåtte vekter per påslått destinasjonsnode, lagene fra
    /// utgangen og bakover, inngangsnodene og utgangsnodene (de som ikke er inngang).
    pub fn new(genome: &Genome) -> (r: PhenotypeNeuralNetwork)
        requires
            destinasjoner_finnes(*genome),
            genome.node_genes@.len() + 2 <= i32::MAX,
        ensures
            er_fenotype_av(r, *genome),
            r.ant_layers <= genome.node_genes@.len() + 1,
            forall|k: int, a: int, b: int|
                0 <= k < r.layers_ordered_output_to_input@.len() && 0 <= a < r.layers_ordered_output_to_input@[k]@.len()
                    && 0 <= b < r.layers_ordered_output_to_input@[k]@.len() && a != b
                    ==> #[trigger] r.layers_ordered_output_to_input@[k]@[a]
                    != #[trigger] r.layers_ordered_output_to_input@[k]@[b],
            r.input_layer@ == genome.node_genes@.filter_map(
                |n: NodeGene|
                    if n.inputnode {
                        Some(n.innovation_number)
                    } else {
                        None
                    },
            ),
            r.output_layer@ == genome.node_genes@.filter_map(
                |n: NodeGene|
                    if n.outputnode && !n.inputnode {
                        Some(n.innovation_number)
                    } else {
                        None
                    },
            ),
            r.alle_vekter@ == genome.weight_genes@.filter_map(
                |w: WeightGene|
                    if w.enabled {
                        Some(w)
                    } else {
                        None
                    },
            ),
    {
        let weights_per_desination_node = genome.faa_aktive_vekter_per_aktive_destinasjonsnode();
        proof {
            lemma_aktive_noekler_begrenset(weights_per_desination_node@, *genome);
        }
        let (node_to_layer, layers_ordered_output_to_input) = lag_lag_av_nevroner_sortert_fra_output(
            genome,
            &weights_per_desination_node,
        );
        let mut input_layer: Vec<i32> = Vec::new();
        let mut output_layer: Vec<i32> = Vec::new();
        let mut i: usize = 0;
        while i < genome.node_genes.len()
            invariant
                i <= genome.node_genes@.len(),
                input_layer@ == innganger(genome.node_genes@.take(i as int)),
                output_layer@ == rene_utganger(genome.node_genes@.take(i as int)),
            decreases genome.node_genes@.len() - i,
        {
            proof {
                assert(genome.node_genes@.take(i + 1).drop_last() =~= genome.node_genes@.take(i as int));
            }
            let node = &genome.node_genes[i];
            if node.inputnode {
                input_layer.push(node.innovation_number);
            } else if node.outputnode {
                output_layer.push(node.innovation_number);
            }
            i = i + 1;
        }
        proof {
            assert(genome.node_genes@.take(i as int) =~= genome.node_genes@);
        }
        let mut alle_enabled_vekter: Vec<WeightGene> = Vec::new();
        let mut k: usize = 0;
        while k < genome.weight_genes.len()
            invariant
                k <= genome.weight_genes@.len(),
                alle_enabled_vekter@ == paasaatte(genome.weight_genes@.take(k as int)),
            decreases genome.weight_genes@.len() - k,
        {
            proof {
                assert(genome.weight_genes@.take(k + 1).drop_last() =~= genome.weight_genes@.take(k as int));
            }
            if genome.weight_genes[k].enabled {
                alle_enabled_vekter.push(genome.weight_genes[k]);
            }
            k = k + 1;
        }
        proof {
            assert(genome.weight_genes@.take(k as int) =~= genome.weight_genes@);
        }
        let r = PhenotypeNeuralNetwork {
            ant_layers: layers_ordered_output_to_input.len(),
            alle_vekter: alle_enabled_vekter,
            input_layer,
            output_layer,
            weights_per_destination_node: weights_per_desination_node,
            node_to_layer,
            layers_ordered_output_to_input,
        };
        proof {
            lov_ingen_node_to_ganger_i_et_lag(r, *genome);
            lov_inn_og_utgangslagene(r, *genome);
        }
        r
    }
}

/// Å legge til elementer uten å gjenta noen gir ingen gjentakelser.
proof fn lemma_legg_til_unike_uten_gjentakelser(acc: Seq<i32>, xs: Seq<i32>)
    requires
        acc.no_duplicates(),
    ensures
        legg_til_unike(acc, xs).no_duplicates(),
    decreases xs.len(),
{
    if xs.len() > 0 {
        let f = legg_til_unike(acc, xs.drop_last());
        lemma_legg_til_unike_uten_gjentakelser(acc, xs.drop_last());
        let x = xs.last();
        if !f.contains(x) {
            let g = f.push(x);
            assert forall|i: int, j: int| 0 <= i < g.len() && 0 <= j < g.len() && i != j implies g[i] != g[j] by {
                if i == f.len() {
                    assert(g[j] == f[j]);
                } else if j == f.len() {
                    assert(g[i] == f[i]);
                } else {
                    assert(g[i] == f[i] && g[j] == f[j]);
                }
            }
        }
    }
}

/// Laget etter et lag har ingen node to ganger.
proof fn lemma_neste_lag_uten_gjentakelser(wpd: Map<i32, Vec<WeightGene>>, siste: Seq<i32>, behandlet: Set<i32>)
    ensures
        neste_lag(wpd, siste, behandlet).no_duplicates(),
    decreases siste.len(),
{
    if siste.len() > 0 {
        lemma_neste_lag_uten_gjentakelser(wpd, siste.drop_last(), behandlet);
        let d = siste.last();
        lemma_legg_til_unike_uten_gjentakelser(
            neste_lag(wpd, siste.drop_last(), behandlet),
            kilder(vekter_for(wpd, d)),
        );
    }
}

/// Utgangene er noder i genomet, og med unike noder står ingen to ganger.
proof fn lemma_utganger_uten_gjentakelser(noder: Seq<NodeGene>)
    ensures
        forall|x: i32| #[trigger] utganger(noder).contains(x) ==> exists|i: int|
            0 <= i < noder.len() && noder[i].innovation_number == x,
        unike_ider(noder) ==> utganger(noder).no_duplicates(),
    decreases noder.len(),
{
    if noder.len() > 0 {
        let f = noder.drop_last();
        lemma_utganger_uten_gjentakelser(f);
        let u = utganger(f);
        assert forall|x: i32| #[trigger] utganger(noder).contains(x) implies exists|i: int|
            0 <= i < noder.len() && noder[i].innovation_number == x by {
            if u.contains(x) {
                let i = choose|i: int| 0 <= i < f.len() && f[i].innovation_number == x;
                assert(noder[i].innovation_number == x);
            } else {
                let g = utganger(noder);
                let a = choose|a: int| 0 <= a < g.len() && g[a] == x;
                if a < u.len() {
                    assert(g[a] == u[a]);
                }
                assert(noder[noder.len() - 1].innovation_number == x);
            }
        }
        if unike_ider(noder) {
            assert(unike_ider(f));
            if noder.last().outputnode {
                let id = noder.last().innovation_number;
                if u.contains(id) {
                    let i = choose|i: int| 0 <= i < f.len() && f[i].innovation_number == id;
                    assert(noder[i].innovation_number == noder[noder.len() - 1].innovation_number);
                }
                let g = u.push(id);
                assert forall|i: int, j: int| 0 <= i < g.len() && 0 <= j < g.len() && i != j implies g[i] != g[j] by {
                    if i == u.len() {
                        assert(g[j] == u[j]);
                    } else if j == u.len() {
                        assert(g[i] == u[i]);
                    } else {
                        assert(g[i] == u[i] && g[j] == u[j]);
                    }
                }
            }
        }
    }
}

/// I en lagdeling har hvert lag etter det første ingen node to ganger, og det
/// første heller ikke når utgangene er uten gjentakelser.
proof fn lemma_lagdeling_uten_gjentakelser(lag: Seq<Seq<i32>>, wpd: Map<i32, Vec<WeightGene>>, utg: Seq<i32>)
    requires
        er_lagdeling(lag, wpd, utg),
    ensures
        forall|k: int| 0 <= k < lag.len() && (k > 0 || utg.no_duplicates()) ==> #[trigger] lag[k].no_duplicates(),
{
    assert forall|k: int| 0 <= k < lag.len() && (k > 0 || utg.no_duplicates()) implies #[trigger] lag[k].no_duplicates() by {
        if k > 0 {
            assert(lag[(k - 1) + 1] == neste_lag(wpd, lag[k - 1], noder_i(lag.take(k - 1))));
            lemma_neste_lag_uten_gjentakelser(wpd, lag[k - 1], noder_i(lag.take(k - 1)));
        }
    }
}

/// Ingen lag i nettverket har samme node to ganger: hvert nytt lag er kildene
/// til de ubrukte påslåtte vektene inn til det forrige, hver tatt med én gang,
/// og utgangslaget har hver utgangsnode én gang når nodene er unike.
pub proof fn lov_ingen_node_to_ganger_i_et_lag(nett: PhenotypeNeuralNetwork, genome: Genome)
    requires
        er_fenotype_av(nett, genome),
        unike_ider(genome.node_genes@),
    ensures
        forall|k: int, a: int, b: int|
            0 <= k < nett.layers_ordered_output_to_input@.len() && 0 <= a < nett.layers_ordered_output_to_input@[k]@.len()
                && 0 <= b < nett.layers_ordered_output_to_input@[k]@.len() && a != b
                ==> #[trigger] nett.layers_ordered_output_to_input@[k]@[a]
                != #[trigger] nett.layers_ordered_output_to_input@[k]@[b],
{
    let lag = lag_syn(nett.layers_ordered_output_to_input@);
    let wpd = nett.weights_per_destination_node@;
    lemma_utganger_uten_gjentakelser(genome.node_genes@);
    lemma_lagdeling_uten_gjentakelser(lag, wpd, utganger(genome.node_genes@));
    assert forall|k: int, a: int, b: int|
        0 <= k < nett.layers_ordered_output_to_input@.len() && 0 <= a < nett.layers_ordered_output_to_input@[k]@.len()
            && 0 <= b < nett.layers_ordered_output_to_input@[k]@.len() && a != b
            implies #[trigger] nett.layers_ordered_output_to_input@[k]@[a]
            != #[trigger] nett.layers_ordered_output_to_input@[k]@[b] by {
        assert(lag[k] == nett.layers_ordered_output_to_input@[k]@);
        assert(lag[k].no_duplicates());
    }
}

proof fn lemma_innganger_er_filtrering(noder: Seq<NodeGene>)
    ensures
        innganger(noder) == noder.filter_map(
            |n: NodeGene|
                if n.inputnode {
                    Some(n.innovation_number)
                } else {
                    None
                },
        ),
        rene_utganger(noder) == noder.filter_map(
            |n: NodeGene|
                if n.outputnode && !n.inputnode {
                    Some(n.innovation_number)
                } else {
                    None
                },
        ),
    decreases noder.len(),
{
    if noder.len() > 0 {
        lemma_innganger_er_filtrering(noder.drop_last());
        let n = noder.last();
        assert(innganger(noder.drop_last()).push(n.innovation_number) =~= innganger(noder.drop_last()) + seq![
            n.innovation_number,
        ]);
        assert(rene_utganger(noder.drop_last()).push(n.innovation_number) =~= rene_utganger(noder.drop_last())
            + seq![n.innovation_number]);
    }
}

proof fn lemma_paasaatte_er_filtrering(vekter: Seq<WeightGene>)
    ensures
        paasaatte(vekter) == vekter.filter_map(
            |w: WeightGene|
                if w.enabled {
                    Some(w)
                } else {
                    None
                },
        ),
    decreases vekter.len(),
{
    if vekter.len() > 0 {
        lemma_paasaatte_er_filtrering(vekter.drop_last());
        assert(paasaatte(vekter.drop_last()).push(vekter.last()) =~= paasaatte(vekter.drop_last()) + seq![
            vekter.last(),
        ]);
    }
}

/// Inngangslaget er alle inngangsnodene i genomets rekkefølge, også de som er
/// slått av (verdi nummer `i` går alltid til inngang nummer `i`); utgangslaget
/// er utgangsnodene som ikke er innganger; og vektene er alle påslåtte vekter.
pub proof fn lov_inn_og_utgangslagene(nett: PhenotypeNeuralNetwork, genome: Genome)
    requires
        er_fenotype_av(nett, genome),
    ensures
        nett.input_layer@ == genome.node_genes@.filter_map(
            |n: NodeGene|
                if n.inputnode {
                    Some(n.innovation_number)
                } else {
                    None
                },
        ),
        nett.output_layer@ == genome.node_genes@.filter_map(
            |n: NodeGene|
                if n.outputnode && !n.inputnode {
                    Some(n.innovation_number)
                } else {
                    None
                },
        ),
        nett.alle_vekter@ == genome.weight_genes@.filter_map(
            |w: WeightGene|
                if w.enabled {
                    Some(w)
                } else {
                    None
                },
        ),
{
    lemma_innganger_er_filtrering(genome.node_genes@);
    lemma_paasaatte_er_filtrering(genome.weight_genes@);
}

proof fn lemma_legg_til_unike_kilde(acc: Seq<i32>, xs: Seq<i32>, n: i32)
    requires
        legg_til_unike(acc, xs).contains(n),
    ensures
        acc.contains(n) || xs.contains(n),
    decreases xs.len(),
{
    if xs.len() > 0 {
        let f = legg_til_unike(acc, xs.drop_last());
        if f.contains(n) {
            lemma_legg_til_unike_kilde(acc, xs.drop_last(), n);
            if xs.drop_last().contains(n) {
                let a = choose|a: int| 0 <= a < xs.drop_last().len() && xs.drop_last()[a] == n;
                assert(xs[a] == n);
            }
        } else {
            if n != xs.last() {
                let s = legg_til_unike(acc, xs);
                let a = choose|a: int| 0 <= a < s.len() && s[a] == n;
                if !f.contains(xs.last()) {
                    assert(s == f.push(xs.last()));
                    if a < f.len() {
                        assert(f[a] == n);
                    }
                }
            }
            assert(xs[xs.len() - 1] == xs.last());
        }
    }
}

proof fn lemma_neste_lag_kilde(wpd: Map<i32, Vec<WeightGene>>, siste: Seq<i32>, behandlet: Set<i32>, n: i32)
    requires
        neste_lag(wpd, siste, behandlet).contains(n),
    ensures
        exists|d: i32, j: int|
            siste.contains(d) && 0 <= j < vekter_for(wpd, d).len() && #[trigger] vekter_for(wpd, d)[j].kildenode == n,
    decreases siste.len(),
{
    let f = siste.drop_last();
    let d = siste.last();
    let forrige = neste_lag(wpd, f, behandlet);
    if forrige.contains(n) {
        lemma_neste_lag_kilde(wpd, f, behandlet, n);
        let (e, j) = choose|e: i32, j: int|
            f.contains(e) && 0 <= j < vekter_for(wpd, e).len() && #[trigger] vekter_for(wpd, e)[j].kildenode == n;
        let a = choose|a: int| 0 <= a < f.len() && f[a] == e;
        assert(siste[a] == e);
    } else {
        lemma_legg_til_unike_kilde(forrige, kilder(vekter_for(wpd, d)), n);
        let j = choose|j: int| 0 <= j < kilder(vekter_for(wpd, d)).len() && kilder(vekter_for(wpd, d))[j] == n;
        assert(vekter_for(wpd, d)[j].kildenode == n);
        assert(siste[siste.len() - 1] == d);
    }
}

/// Bare noder som påvirker utgangen kommer med: hver node i et lag etter det
/// første er kilden til en påslått vekt inn til en påslått node i laget før.
pub proof fn lov_lagene_leder_til_utgangen(nett: PhenotypeNeuralNetwork, genome: Genome, k: int, n: i32)
    requires
        er_aktive_vekter(nett.weights_per_destination_node@, genome),
        er_lagdeling(lag_syn(nett.layers_ordered_output_to_input@), nett.weights_per_destination_node@, utganger(genome.node_genes@)),
        1 <= k < nett.layers_ordered_output_to_input@.len(),
        nett.layers_ordered_output_to_input@[k]@.contains(n),
    ensures
        exists|d: i32, j: int|
            nett.layers_ordered_output_to_input@[k - 1]@.contains(d) && node_aktiv(genome.node_genes@, d)
                && 0 <= j < vekter_inn(genome.weight_genes@, d).len()
                && #[trigger] vekter_inn(genome.weight_genes@, d)[j].kildenode == n
                && vekter_inn(genome.weight_genes@, d)[j].enabled,
{
    let wpd = nett.weights_per_destination_node@;
    let lag = lag_syn(nett.layers_ordered_output_to_input@);
    let k1 = k - 1;
    assert(lag[k1 + 1] == neste_lag(wpd, lag[k1], noder_i(lag.take(k1))));
    assert(lag[k1 + 1] == nett.layers_ordered_output_to_input@[k]@);
    assert(lag[k1] == nett.layers_ordered_output_to_input@[k1]@);
    lemma_neste_lag_kilde(wpd, lag[k - 1], noder_i(lag.take(k - 1)), n);
    let (d, j) = choose|d: i32, j: int|
        lag[k - 1].contains(d) && 0 <= j < vekter_for(wpd, d).len() && #[trigger] vekter_for(wpd, d)[j].kildenode == n;
    assert(wpd.contains_key(d));
    lemma_vekter_inn_er_paa(genome.weight_genes@, d, j);
}

proof fn lemma_vekter_inn_er_paa(vekter: Seq<WeightGene>, d: i32, j: int)
    requires
        0 <= j < vekter_inn(vekter, d).len(),
    ensures
        vekter_inn(vekter, d)[j].enabled,
        vekter_inn(vekter, d)[j].destinasjonsnode == d,
    decreases vekter.len(),
{
    if vekter.len() > 0 {
        let f = vekter_inn(vekter.drop_last(), d);
        if j < f.len() {
            lemma_vekter_inn_er_paa(vekter.drop_last(), d, j);
        }
    }
}

/// Genomet kan bygges til et nettverk.
pub open spec fn kan_bygges(genome: Genome) -> bool {
    destinasjoner_finnes(genome) && genome.node_genes@.len() + 2 <= i32::MAX
}

/// Bygger nettverket på nytt for hvert individ hvis genom kan ha endret seg
/// (de som får muteres); de andre beholder nettverket sitt.
pub fn update_phenotype_network_for_changed_genomes(
    genomer: &Vec<Genome>,
    fenotyper: &mut Vec<PhenotypeNeuralNetwork>,
)
    requires
        genomer@.len() == old(fenotyper)@.len(),
        forall|i: int|
            0 <= i < genomer@.len() && #[trigger] genomer@[i].allowed_to_change ==> kan_bygges(genomer@[i]),
    ensures
        final(fenotyper)@.len() == old(fenotyper)@.len(),
        forall|i: int|
            0 <= i < genomer@.len() ==> if genomer@[i].allowed_to_change {
                er_fenotype_av(#[trigger] final(fenotyper)@[i], genomer@[i])
            } else {
                final(fenotyper)@[i] == old(fenotyper)@[i]
            },
{
    let mut i: usize = 0;
    while i < genomer.len()
        invariant
            i <= genomer@.len(),
            genomer@.len() == fenotyper@.len(),
            forall|a: int|
                0 <= a < genomer@.len() && #[trigger] genomer@[a].allowed_to_change ==> kan_bygges(genomer@[a]),
            forall|a: int|
                0 <= a < i ==> if genomer@[a].allowed_to_change {
                    er_fenotype_av(#[trigger] fenotyper@[a], genomer@[a])
                } else {
                    fenotyper@[a] == old(fenotyper)@[a]
                },
            forall|a: int| i <= a < genomer@.len() ==> #[trigger] fenotyper@[a] == old(fenotyper)@[a],
        decreases genomer@.len() - i,
    {
        if genomer[i].allowed_to_change {
            let nett = PhenotypeNeuralNetwork::new(&genomer[i]);
            fenotyper.set(i, nett);
        }
        i = i + 1;
    }
}

} // verus!
