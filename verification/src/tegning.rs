//! Hvor nodene i nettverket tegnes, og hvilke forbindelser som tegnes.
use std::collections::HashMap;
use vstd::prelude::*;
use crate::genome::{Genome, WeightGene};

verus! {

broadcast use vstd::std_specs::hash::group_hash_axioms;

/// `i` er den første plassen der `x` står i `s`.
pub open spec fn er_foerste_posisjon(s: Seq<i32>, x: i32, i: int) -> bool {
    &&& 0 <= i < s.len()
    &&& s[i] == x
    &&& forall|j: int| 0 <= j < i ==> s[j] != x
}

/// Den første plassen der `x` står i `s`.
pub open spec fn foerste_posisjon(s: Seq<i32>, x: i32) -> int {
    choose|i: int| er_foerste_posisjon(s, x, i)
}

/// Avstanden mellom lagene og mellom nodene i et lag, i piksler.
pub const LAGAVSTAND: i64 = 200;

pub const NODEAVSTAND: usize = 100;

/// Utgangslaget står her; lagene mot inngangen står lenger til venstre.
pub const X_UTGANGSLAG: i64 = -150;

/// Punktet til noden `id` i laget `lag`: lagene står fra høyre mot venstre,
/// nodene i et lag nedover i rekkefølge.
pub open spec fn punkt(lag: i32, lagene: Seq<Vec<i32>>, id: i32) -> (i64, usize) {
    (
        (X_UTGANGSLAG - LAGAVSTAND * lag) as i64,
        (NODEAVSTAND * foerste_posisjon(lagene[lag as int]@, id)) as usize,
    )
}

/// Lagdelingen passer til genomet: hver node med et lag står i det laget.
pub open spec fn lag_passer(genome: Genome, layer_per_node: Map<i32, i32>, lagene: Seq<Vec<i32>>) -> bool {
    forall|k: int|
        0 <= k < genome.node_genes@.len() && layer_per_node.contains_key(
            #[trigger] genome.node_genes@[k].innovation_number,
        ) ==> {
            let id = genome.node_genes@[k].innovation_number;
            let l = layer_per_node[id];
            &&& 0 <= l < lagene.len()
            &&& lagene[l as int]@.contains(id)
            &&& lagene[l as int]@.len() * NODEAVSTAND <= usize::MAX
        }
}

/// Noden `id` finnes i genomet og har et lag.
pub open spec fn har_plass(genome: Genome, layer_per_node: Map<i32, i32>, id: i32) -> bool {
    exists|k: int|
        0 <= k < genome.node_genes@.len() && #[trigger] genome.node_genes@[k].innovation_number == id
            && layer_per_node.contains_key(id)
}

fn foerste_posisjon_exec(s: &Vec<i32>, x: i32) -> (r: usize)
    requires
        s@.contains(x),
    ensures
        r == foerste_posisjon(s@, x),
        er_foerste_posisjon(s@, x, r as int),
{
    let mut i: usize = 0;
    while i < s.len()
        invariant
            s@.contains(x),
            i <= s@.len(),
            forall|j: int| 0 <= j < i ==> s@[j] != x,
        decreases s@.len() - i,
    {
        if s[i] == x {
            proof {
                assert(er_foerste_posisjon(s@, x, i as int));
                let c = foerste_posisjon(s@, x);
                assert(er_foerste_posisjon(s@, x, c));
                if c < i {
                    assert(s@[c] != x);
                }
                if c > i {
                    assert(s@[i as int] != x);
                }
            }
            return i;
        }
        i = i + 1;
    }
    proof {
        let j = choose|j: int| 0 <= j < s@.len() && s@[j] == x;
        assert(s@[j] != x);
    }
    0
}

/// Punktet der hver node tegnes. Noder uten lag påvirker aldri utgangene og
/// tegnes ikke.
pub fn kordinater_per_node(
    genome: &Genome,
    layer_per_node: &HashMap<i32, i32>,
    layers_output_to_input: &Vec<Vec<i32>>,
) -> (point_per_node: HashMap<i32, (i64, usize)>)
    requires
        lag_passer(*genome, layer_per_node@, layers_output_to_input@),
    ensures
        forall|id: i32|
            #[trigger] point_per_node@.contains_key(id) <==> har_plass(*genome, layer_per_node@, id),
        forall|id: i32|
            #[trigger] point_per_node@.contains_key(id) ==> point_per_node@[id] == punkt(
                layer_per_node@[id],
                layers_output_to_input@,
                id,
            ),
{
    let mut point_per_node: HashMap<i32, (i64, usize)> = HashMap::new();
    let mut k: usize = 0;
    while k < genome.node_genes.len()
        invariant
            k <= genome.node_genes@.len(),
            lag_passer(*genome, layer_per_node@, layers_output_to_input@),
            forall|id: i32|
                #[trigger] point_per_node@.contains_key(id) <==> exists|a: int|
                    0 <= a < k && #[trigger] genome.node_genes@[a].innovation_number == id
                        && layer_per_node@.contains_key(id),
            forall|id: i32|
                #[trigger] point_per_node@.contains_key(id) ==> point_per_node@[id] == punkt(
                    layer_per_node@[id],
                    layers_output_to_input@,
                    id,
                ),
        decreases genome.node_genes@.len() - k,
    {
        let id = genome.node_genes[k].innovation_number;
        match layer_per_node.get(&id) {
            Some(layer) => {
                let l = *layer;
                proof {
                    assert(layer_per_node@.contains_key(genome.node_genes@[k as int].innovation_number));
                }
                let lag = &layers_output_to_input[l as usize];
                let index = foerste_posisjon_exec(lag, id);
                let y: usize = index * NODEAVSTAND;
                let x: i64 = X_UTGANGSLAG - LAGAVSTAND * (l as i64);
                point_per_node.insert(id, (x, y));
                proof {
                    assert forall|n: i32| #[trigger] point_per_node@.contains_key(n) <==> exists|a: int|
                        0 <= a < k + 1 && #[trigger] genome.node_genes@[a].innovation_number == n
                            && layer_per_node@.contains_key(n) by {
                        if n == id {
                            assert(genome.node_genes@[k as int].innovation_number == n);
                        }
                    }
                }
            },
            None => {
                proof {
                    assert forall|n: i32| #[trigger] point_per_node@.contains_key(n) <==> exists|a: int|
                        0 <= a < k + 1 && #[trigger] genome.node_genes@[a].innovation_number == n
                            && layer_per_node@.contains_key(n) by {
                        if exists|a: int|
                            0 <= a < k + 1 && #[trigger] genome.node_genes@[a].innovation_number == n
                                && layer_per_node@.contains_key(n) {
                            let a = choose|a: int|
                                0 <= a < k + 1 && #[trigger] genome.node_genes@[a].innovation_number == n
                                    && layer_per_node@.contains_key(n);
                            if a == k {
                                assert(!layer_per_node@.contains_key(n));
                            }
                        }
                    }
                }
            },
        }
        k = k + 1;
    }
    point_per_node
}

/// Vekten tegnes: både kilde- og destinasjonsnoden har et punkt.
pub open spec fn tegnes(point_per_node: Map<i32, (i64, usize)>, w: WeightGene) -> bool {
    point_per_node.contains_key(w.kildenode) && point_per_node.contains_key(w.destinasjonsnode)
}

/// Vektene (ved plass i genomet, i rekkefølge) som tegnes: de der både kilde-
/// og destinasjonsnoden har et punkt.
pub fn forbindelser_som_tegnes(genome: &Genome, point_per_node: &HashMap<i32, (i64, usize)>) -> (r: Vec<usize>)
    ensures
        forall|i: int| 0 <= i < r@.len() ==> #[trigger] r@[i] < genome.weight_genes@.len(),
        forall|i: int, j: int| 0 <= i < j < r@.len() ==> #[trigger] r@[i] < #[trigger] r@[j],
        forall|a: int|
            0 <= a < genome.weight_genes@.len() ==> (r@.contains(a as usize) <==> #[trigger] tegnes(
                point_per_node@,
                genome.weight_genes@[a],
            )),
        forall|i: int|
            0 <= i < r@.len() ==> point_per_node@.contains_key(genome.weight_genes@[#[trigger] r@[i] as int].kildenode)
                && point_per_node@.contains_key(genome.weight_genes@[r@[i] as int].destinasjonsnode),
        forall|a: int|
            0 <= a < genome.weight_genes@.len() && point_per_node@.contains_key(
                #[trigger] genome.weight_genes@[a].kildenode,
            ) && point_per_node@.contains_key(genome.weight_genes@[a].destinasjonsnode) ==> r@.contains(a as usize),
{
    let mut r: Vec<usize> = Vec::new();
    let mut k: usize = 0;
    while k < genome.weight_genes.len()
        invariant
            k <= genome.weight_genes@.len(),
            forall|i: int| 0 <= i < r@.len() ==> #[trigger] r@[i] < k,
            forall|i: int, j: int| 0 <= i < j < r@.len() ==> #[trigger] r@[i] < #[trigger] r@[j],
            forall|a: int|
                0 <= a < k ==> (r@.contains(a as usize) <==> #[trigger] tegnes(
                    point_per_node@,
                    genome.weight_genes@[a],
                )),
        decreases genome.weight_genes@.len() - k,
    {
        let w = genome.weight_genes[k];
        let ghost gammel = r@;
        let har_kilde = point_per_node.contains_key(&w.kildenode);
        let har_destinasjon = point_per_node.contains_key(&w.destinasjonsnode);
        if har_kilde && har_destinasjon {
            r.push(k);
            proof {
                assert(r@[gammel.len() as int] == k);
                assert forall|a: int| 0 <= a < k + 1 implies (r@.contains(a as usize) <==> #[trigger] tegnes(
                    point_per_node@,
                    genome.weight_genes@[a],
                )) by {
                    if a < k {
                        if r@.contains(a as usize) {
                            let i = choose|i: int| 0 <= i < r@.len() && r@[i] == a as usize;
                            if i < gammel.len() {
                                assert(gammel[i] == a as usize);
                            }
                            assert(gammel.contains(a as usize));
                        }
                        if gammel.contains(a as usize) {
                            let i = choose|i: int| 0 <= i < gammel.len() && gammel[i] == a as usize;
                            assert(r@[i] == a as usize);
                        }
                    }
                }
            }
        } else {
            proof {
                assert forall|a: int| 0 <= a < k + 1 implies (r@.contains(a as usize) <==> #[trigger] tegnes(
                    point_per_node@,
                    genome.weight_genes@[a],
                )) by {
                    if a == k && r@.contains(k) {
                        let i = choose|i: int| 0 <= i < r@.len() && r@[i] == k;
                        assert(r@[i] < k);
                    }
                }
            }
        }
        k = k + 1;
    }
    proof {
        assert forall|i: int| 0 <= i < r@.len() implies point_per_node@.contains_key(
            genome.weight_genes@[#[trigger] r@[i] as int].kildenode,
        ) && point_per_node@.contains_key(genome.weight_genes@[r@[i] as int].destinasjonsnode) by {
            let a = r@[i] as int;
            assert(r@.contains(a as usize));
            assert(tegnes(point_per_node@, genome.weight_genes@[a]));
            lov_tegnes_bare_mellom_punkter(point_per_node@, genome.weight_genes@[a]);
        }
        assert forall|a: int|
            0 <= a < genome.weight_genes@.len() && point_per_node@.contains_key(
                #[trigger] genome.weight_genes@[a].kildenode,
            ) && point_per_node@.contains_key(genome.weight_genes@[a].destinasjonsnode) implies r@.contains(a as usize) by {
            lov_tegnes_bare_mellom_punkter(point_per_node@, genome.weight_genes@[a]);
            assert(tegnes(point_per_node@, genome.weight_genes@[a]));
        }
    }
    r
}

/// En forbindelse tegnes nøyaktig når begge endene har et punkt: noder som
/// aldri påvirker utgangene får ikke punkt, og forbindelsene til dem tegnes ikke.
pub proof fn lov_tegnes_bare_mellom_punkter(point_per_node: Map<i32, (i64, usize)>, w: WeightGene)
    ensures
        tegnes(point_per_node, w) <==> (point_per_node.contains_key(w.kildenode) && point_per_node.contains_key(
            w.destinasjonsnode,
        )),
{
}

} // verus!
