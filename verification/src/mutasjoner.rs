use vstd::prelude::*;
use crate::genome::{Genome, InnovationNumberGlobalCounter, NodeGene, WeightGene, er_velformet, har_node, ider_opp_til, unike_ider, unike_forbindelser};
use crate::tekst::{desimal_i32, i32_til_tekst};

verus! {

/// Antall sanne verdier i `s`.
pub open spec fn antall_sanne(s: Seq<bool>) -> nat
    decreases s.len(),
{
    if s.len() == 0 {
        0
    } else {
        antall_sanne(s.drop_last()) + if s.last() {
            1nat
        } else {
            0nat
        }
    }
}

/// Nodene etter at påslått-flagget er snudd der `bytt` sier det, unntatt for utgangsnoder.
pub open spec fn noder_veksla(noder: Seq<NodeGene>, bytt: Seq<bool>) -> Seq<NodeGene> {
    Seq::new(
        noder.len(),
        |i: int|
            {
                let n = noder[i];
                if bytt[i] && !n.outputnode {
                    NodeGene { enabled: !n.enabled, ..n }
                } else {
                    n
                }
            },
    )
}

/// Vektene etter at påslått-flagget er snudd der `bytt` sier det.
pub open spec fn vekter_veksla(vekter: Seq<WeightGene>, bytt: Seq<bool>) -> Seq<WeightGene> {
    Seq::new(
        vekter.len(),
        |k: int|
            {
                let w = vekter[k];
                if bytt[k] {
                    WeightGene { enabled: !w.enabled, ..w }
                } else {
                    w
                }
            },
    )
}

/// Innovasjonsnummeret til midtnoden som deling nummer `j` lager, når telleren stod på `c0`.
pub open spec fn midt_id(c0: i32, j: nat) -> int {
    c0 + 2 * j + 2
}

/// `etter` er `foer` der hver vekt `k` med `del[k]` er delt i to med en ny skjult node
/// i midten: vekten går nå til den nye noden, og en ny påslått vekt går fra den nye
/// noden til den gamle destinasjonen. Delingene tar to tall fra telleren hver
/// (merkelapp, så innovasjonsnummer), i vektenes rekkefølge; nye noder og vekter
/// legges bakerst i samme rekkefølge.
pub open spec fn er_delt(etter: Genome, foer: Genome, c0: i32, del: Seq<bool>) -> bool {
    let n0 = foer.node_genes@.len();
    let w0 = foer.weight_genes@.len();
    &&& etter.node_genes@.len() == n0 + antall_sanne(del)
    &&& etter.node_genes@.take(n0 as int) == foer.node_genes@
    &&& etter.weight_genes@.len() == w0 + antall_sanne(del)
    &&& forall|k: int|
        #![trigger foer.weight_genes@[k]]
        #![trigger etter.weight_genes@[k]]
        0 <= k < w0 ==> {
            let w = foer.weight_genes@[k];
            let j = antall_sanne(del.take(k));
            if del[k] {
                &&& etter.weight_genes@[k] == WeightGene {
                    enabled: w.enabled,
                    kildenode: w.kildenode,
                    destinasjonsnode: midt_id(c0, j) as i32,
                }
                &&& etter.weight_genes@[(w0 + j) as int] == WeightGene {
                    enabled: true,
                    kildenode: midt_id(c0, j) as i32,
                    destinasjonsnode: w.destinasjonsnode,
                }
                &&& {
                    let m = etter.node_genes@[(n0 + j) as int];
                    &&& m.innovation_number == midt_id(c0, j)
                    &&& m.enabled && !m.inputnode && !m.outputnode && m.layer == 0
                    &&& m.label@ == desimal_i32((c0 + 2 * j + 1) as i32)
                }
            } else {
                etter.weight_genes@[k] == w
            }
        }
    &&& etter.original_ancestor_id == foer.original_ancestor_id
    &&& etter.allowed_to_change == foer.allowed_to_change
}

/// Snur påslått-flagget til nodene der `bytt_aktiv` sier det; utgangsnoder slås aldri av eller på.
pub fn mutate_existing_nodes_arc(node_genes: &mut Vec<NodeGene>, bytt_aktiv: &Vec<bool>)
    requires
        bytt_aktiv@.len() == old(node_genes)@.len(),
    ensures
        final(node_genes)@ == noder_veksla(old(node_genes)@, bytt_aktiv@),
        final(node_genes)@.len() == old(node_genes)@.len(),
        forall|i: int|
            0 <= i < old(node_genes)@.len() ==> (#[trigger] final(node_genes)@[i]).enabled == if bytt_aktiv@[i]
                && !old(node_genes)@[i].outputnode {
                !old(node_genes)@[i].enabled
            } else {
                old(node_genes)@[i].enabled
            },
{
    let ghost n0 = node_genes@;
    let mut i: usize = 0;
    while i < node_genes.len()
        invariant
            bytt_aktiv@.len() == n0.len(),
            node_genes@.len() == n0.len(),
            i <= n0.len(),
            forall|a: int| 0 <= a < i ==> #[trigger] node_genes@[a] == noder_veksla(n0, bytt_aktiv@)[a],
            forall|a: int| i <= a < n0.len() ==> #[trigger] node_genes@[a] == n0[a],
        decreases n0.len() - i,
    {
        if bytt_aktiv[i] && !node_genes[i].outputnode {
            let ny = !node_genes[i].enabled;
            node_genes[i].enabled = ny;
        }
        i = i + 1;
    }
    proof {
        assert(node_genes@ =~= noder_veksla(n0, bytt_aktiv@));
        lov_nodeveksling(n0, bytt_aktiv@);
    }
}

/// Å snu nodene: hver valgt node som ikke er en utgangsnode får motsatt
/// påslått-flagg (inngang eller skjult, på eller av), alt annet ved noden er
/// likt, og nodene som ikke er valgt eller er utganger er urørt.
pub proof fn lov_nodeveksling(noder: Seq<NodeGene>, bytt: Seq<bool>)
    requires
        bytt.len() == noder.len(),
    ensures
        noder_veksla(noder, bytt).len() == noder.len(),
        forall|i: int|
            0 <= i < noder.len() ==> {
                let etter = #[trigger] noder_veksla(noder, bytt)[i];
                let foer = noder[i];
                &&& etter.enabled == (if bytt[i] && !foer.outputnode {
                    !foer.enabled
                } else {
                    foer.enabled
                })
                &&& etter.innovation_number == foer.innovation_number
                &&& etter.inputnode == foer.inputnode
                &&& etter.outputnode == foer.outputnode
                &&& etter.layer == foer.layer
                &&& etter.label == foer.label
            },
{
}

/// Å snu de samme nodene to ganger gir nodene tilbake.
pub proof fn lov_nodeveksling_to_ganger(noder: Seq<NodeGene>, bytt: Seq<bool>)
    requires
        bytt.len() == noder.len(),
    ensures
        noder_veksla(noder_veksla(noder, bytt), bytt) == noder,
{
    let en = noder_veksla(noder, bytt);
    let to = noder_veksla(en, bytt);
    assert forall|i: int| 0 <= i < noder.len() implies #[trigger] to[i] == noder[i] by {
        assert(en[i].outputnode == noder[i].outputnode);
    }
    assert(to =~= noder);
}

/// Å snu vektene: hver valgt vekt får motsatt påslått-flagg og beholder
/// endepunktene; de andre er urørt. Å snu de samme to ganger gir vektene tilbake.
pub proof fn lov_vektveksling(vekter: Seq<WeightGene>, bytt: Seq<bool>)
    requires
        bytt.len() == vekter.len(),
    ensures
        vekter_veksla(vekter, bytt).len() == vekter.len(),
        forall|k: int|
            0 <= k < vekter.len() ==> {
                let etter = #[trigger] vekter_veksla(vekter, bytt)[k];
                &&& etter.enabled == (if bytt[k] {
                    !vekter[k].enabled
                } else {
                    vekter[k].enabled
                })
                &&& etter.kildenode == vekter[k].kildenode
                &&& etter.destinasjonsnode == vekter[k].destinasjonsnode
            },
        vekter_veksla(vekter_veksla(vekter, bytt), bytt) == vekter,
{
    let to = vekter_veksla(vekter_veksla(vekter, bytt), bytt);
    assert(to =~= vekter);
}

/// Snur påslått-flagget til vektene der `bytt_aktiv` sier det.
pub fn mutate_existing_weights_value_and_paa_av(weight_genes: &mut Vec<WeightGene>, bytt_aktiv: &Vec<bool>)
    requires
        bytt_aktiv@.len() == old(weight_genes)@.len(),
    ensures
        final(weight_genes)@ == vekter_veksla(old(weight_genes)@, bytt_aktiv@),
        final(weight_genes)@.len() == old(weight_genes)@.len(),
        forall|k: int|
            0 <= k < old(weight_genes)@.len() ==> {
                let etter = #[trigger] final(weight_genes)@[k];
                &&& etter.enabled == (if bytt_aktiv@[k] {
                    !old(weight_genes)@[k].enabled
                } else {
                    old(weight_genes)@[k].enabled
                })
                &&& etter.kildenode == old(weight_genes)@[k].kildenode
                &&& etter.destinasjonsnode == old(weight_genes)@[k].destinasjonsnode
            },
{
    let ghost w0 = weight_genes@;
    let mut k: usize = 0;
    while k < weight_genes.len()
        invariant
            bytt_aktiv@.len() == w0.len(),
            weight_genes@.len() == w0.len(),
            k <= w0.len(),
            forall|a: int| 0 <= a < k ==> #[trigger] weight_genes@[a] == vekter_veksla(w0, bytt_aktiv@)[a],
            forall|a: int| k <= a < w0.len() ==> #[trigger] weight_genes@[a] == w0[a],
        decreases w0.len() - k,
    {
        if bytt_aktiv[k] {
            let mut w = weight_genes[k];
            w.enabled = !w.enabled;
            weight_genes.set(k, w);
        }
        k = k + 1;
    }
    proof {
        assert(weight_genes@ =~= vekter_veksla(w0, bytt_aktiv@));
        lov_vektveksling(w0, bytt_aktiv@);
    }
}


proof fn lemma_antall_take_steg(del: Seq<bool>, k: int)
    requires
        0 <= k < del.len(),
    ensures
        antall_sanne(del.take(k + 1)) == antall_sanne(del.take(k)) + if del[k] {
            1nat
        } else {
            0nat
        },
{
    assert(del.take(k + 1).drop_last() =~= del.take(k));
}

proof fn lemma_antall_monoton(del: Seq<bool>, k1: int, k2: int)
    requires
        0 <= k1 < k2 <= del.len(),
    ensures
        antall_sanne(del.take(k1)) + (if del[k1] {
            1nat
        } else {
            0nat
        }) <= antall_sanne(del.take(k2)),
    decreases k2 - k1,
{
    lemma_antall_take_steg(del, k1);
    if k1 + 1 < k2 {
        lemma_antall_monoton(del, k1 + 1, k2);
        lemma_antall_take_steg(del, k1 + 1);
    }
}

proof fn lemma_antall_begrenset(del: Seq<bool>, k: int)
    requires
        0 <= k <= del.len(),
    ensures
        antall_sanne(del.take(k)) <= antall_sanne(del),
        antall_sanne(del.take(k)) <= k,
    decreases del.len() - k,
{
    if k < del.len() {
        lemma_antall_begrenset(del, k + 1);
        lemma_antall_take_steg(del, k);
    } else {
        assert(del.take(k) =~= del);
    }
    if k > 0 {
        lemma_antall_begrenset_k(del, k);
    }
}

proof fn lemma_antall_begrenset_k(del: Seq<bool>, k: int)
    requires
        0 <= k <= del.len(),
    ensures
        antall_sanne(del.take(k)) <= k,
    decreases k,
{
    if k > 0 {
        lemma_antall_begrenset_k(del, k - 1);
        lemma_antall_take_steg(del, k - 1);
    }
}

/// Deler hver vekt `k` med `del[k]` i to med en ny skjult node i midten
/// (O ------- O  =>  O ----O--- O): vekten går til den nye noden, og en ny påslått
/// vekt går fra den nye noden til den gamle destinasjonen.
pub fn mutate_new_node_in_middle_mutation(
    genome: &mut Genome,
    innovation_number_global_counter: &mut InnovationNumberGlobalCounter,
    del: &Vec<bool>,
)
    requires
        del@.len() == old(genome).weight_genes@.len(),
        old(innovation_number_global_counter).count + 2 * antall_sanne(del@) <= i32::MAX,
    ensures
        final(innovation_number_global_counter).count == old(innovation_number_global_counter).count + 2
            * antall_sanne(del@),
        er_delt(*final(genome), *old(genome), old(innovation_number_global_counter).count, del@),
        er_velformet(*old(genome)) && ider_opp_til(old(genome).node_genes@, old(innovation_number_global_counter).count)
            ==> er_velformet(*final(genome)) && ider_opp_til(
            final(genome).node_genes@,
            final(innovation_number_global_counter).count,
        ),
{
    let ghost g0 = *genome;
    let ghost c0 = innovation_number_global_counter.count;
    let ghost n0 = genome.node_genes@.len();
    let ghost w0 = genome.weight_genes@.len();
    let mut weight_genes_to_add: Vec<WeightGene> = Vec::new();
    let mut k: usize = 0;
    while k < genome.weight_genes.len()
        invariant
            del@.len() == w0,
            genome.weight_genes@.len() == w0,
            k <= w0,
            c0 + 2 * antall_sanne(del@) <= i32::MAX,
            innovation_number_global_counter.count == c0 + 2 * antall_sanne(del@.take(k as int)),
            genome.node_genes@.len() == n0 + antall_sanne(del@.take(k as int)),
            genome.node_genes@.take(n0 as int) == g0.node_genes@,
            weight_genes_to_add@.len() == antall_sanne(del@.take(k as int)),
            genome.original_ancestor_id == g0.original_ancestor_id,
            genome.allowed_to_change == g0.allowed_to_change,
            forall|a: int| k <= a < w0 ==> #[trigger] genome.weight_genes@[a] == g0.weight_genes@[a],
            forall|a: int|
                #![trigger g0.weight_genes@[a]]
                0 <= a < k ==> {
                    let w = g0.weight_genes@[a];
                    let j = antall_sanne(del@.take(a));
                    if del@[a] {
                        &&& genome.weight_genes@[a] == WeightGene {
                            enabled: w.enabled,
                            kildenode: w.kildenode,
                            destinasjonsnode: midt_id(c0, j) as i32,
                        }
                        &&& weight_genes_to_add@[j as int] == WeightGene {
                            enabled: true,
                            kildenode: midt_id(c0, j) as i32,
                            destinasjonsnode: w.destinasjonsnode,
                        }
                        &&& {
                            let m = genome.node_genes@[(n0 + j) as int];
                            &&& m.innovation_number == midt_id(c0, j)
                            &&& m.enabled && !m.inputnode && !m.outputnode && m.layer == 0
                            &&& m.label@ == desimal_i32((c0 + 2 * j + 1) as i32)
                        }
                    } else {
                        genome.weight_genes@[a] == w
                    }
                },
        decreases w0 - k,
    {
        proof {
            lemma_antall_take_steg(del@, k as int);
            lemma_antall_begrenset(del@, k + 1);
        }
        if del[k] {
            let ghost j = antall_sanne(del@.take(k as int));
            let ghost noder_foer = genome.node_genes@;
            let ghost nye_foer = weight_genes_to_add@;
            let ghost vekter_foer = genome.weight_genes@;
            let end_node = genome.weight_genes[k].destinasjonsnode;
            let innovation_number = innovation_number_global_counter.get_number();
            let new_middle_node = NodeGene {
                innovation_number: innovation_number_global_counter.get_number(),
                enabled: true,
                inputnode: false,
                outputnode: false,
                layer: 0,
                label: i32_til_tekst(innovation_number),
            };
            let mut w = genome.weight_genes[k];
            w.destinasjonsnode = new_middle_node.innovation_number;
            genome.weight_genes.set(k, w);
            let new_weight = WeightGene {
                enabled: true,
                kildenode: new_middle_node.innovation_number,
                destinasjonsnode: end_node,
            };
            genome.node_genes.push(new_middle_node);
            weight_genes_to_add.push(new_weight);
            proof {
                assert(genome.node_genes@.take(n0 as int) =~= noder_foer.take(n0 as int));
                assert forall|a: int| #![trigger g0.weight_genes@[a]] 0 <= a < k implies {
                    let w = g0.weight_genes@[a];
                    let jj = antall_sanne(del@.take(a));
                    if del@[a] {
                        &&& genome.weight_genes@[a] == WeightGene {
                            enabled: w.enabled,
                            kildenode: w.kildenode,
                            destinasjonsnode: midt_id(c0, jj) as i32,
                        }
                        &&& weight_genes_to_add@[jj as int] == WeightGene {
                            enabled: true,
                            kildenode: midt_id(c0, jj) as i32,
                            destinasjonsnode: w.destinasjonsnode,
                        }
                        &&& {
                            let m = genome.node_genes@[(n0 + jj) as int];
                            &&& m.innovation_number == midt_id(c0, jj)
                            &&& m.enabled && !m.inputnode && !m.outputnode && m.layer == 0
                            &&& m.label@ == desimal_i32((c0 + 2 * jj + 1) as i32)
                        }
                    } else {
                        genome.weight_genes@[a] == w
                    }
                } by {
                    assert(genome.weight_genes@[a] == vekter_foer[a]);
                    if del@[a] {
                        lemma_antall_monoton(del@, a, k as int);
                        let jj = antall_sanne(del@.take(a));
                        assert(weight_genes_to_add@[jj as int] == nye_foer[jj as int]);
                        assert(genome.node_genes@[(n0 + jj) as int] == noder_foer[(n0 + jj) as int]);
                    }
                }
            }
        }
        k = k + 1;
    }
    let ghost vekter_ferdig = genome.weight_genes@;
    let ghost nye = weight_genes_to_add@;
    genome.weight_genes.append(&mut weight_genes_to_add);
    proof {
        assert(del@.take(w0 as int) =~= del@);
        assert forall|a: int| 0 <= a < w0 && del@[a] implies #[trigger] genome.weight_genes@[(w0 + antall_sanne(del@.take(a))) as int]
            == nye[antall_sanne(del@.take(a)) as int] by {
            lemma_antall_monoton(del@, a, w0 as int);
        }
        assert forall|a: int| 0 <= a < w0 implies #[trigger] genome.weight_genes@[a] == vekter_ferdig[a] by {}
        lemma_deling_bevarer_velformethet(*genome, g0, c0, del@);
    }
}

/// Deling av vekter bevarer et velformet genom når alle gamle noder har tall fra
/// telleren: de nye nodene får tall som ikke er brukt.
proof fn lemma_deling_bevarer_velformethet(etter: Genome, foer: Genome, c0: i32, del: Seq<bool>)
    requires
        del.len() == foer.weight_genes@.len(),
        er_delt(etter, foer, c0, del),
        c0 + 2 * antall_sanne(del) <= i32::MAX,
    ensures
        er_velformet(foer) && ider_opp_til(foer.node_genes@, c0) ==> er_velformet(etter) && ider_opp_til(
            etter.node_genes@,
            (c0 + 2 * antall_sanne(del)) as i32,
        ),
{
    if er_velformet(foer) && ider_opp_til(foer.node_genes@, c0) {
        let n0 = foer.node_genes@.len();
        let w0 = foer.weight_genes@.len();
        let ant = antall_sanne(del);
        let en = etter.node_genes@;
        let ew = etter.weight_genes@;
        assert forall|i: int| 0 <= i < n0 implies #[trigger] en[i] == foer.node_genes@[i] by {
            assert(en.take(n0 as int)[i] == en[i]);
        }
        // Hver ny node er laget av en deling.
        assert forall|i: int| n0 <= i < en.len() implies #[trigger] en[i].innovation_number == midt_id(c0, (i - n0) as nat) by {
            lemma_finn_deling(del, i - n0);
            let k = choose|k: int| 0 <= k < w0 && del[k] && #[trigger] antall_sanne(del.take(k)) == i - n0;
            let j = antall_sanne(del.take(k));
            let w = foer.weight_genes@[k];
            assert(en[(n0 + j) as int].innovation_number == midt_id(c0, j));
            assert((n0 + j) as int == i);
        }
        assert forall|i: int| 0 <= i < en.len() implies (#[trigger] en[i]).innovation_number <= c0 + 2 * ant by {
            if i >= n0 {
                assert(en[i].innovation_number == midt_id(c0, (i - n0) as nat));
            }
        }
        assert(unike_ider(en)) by {
            assert forall|a: int, b: int| 0 <= a < en.len() && 0 <= b < en.len() && a != b implies en[a].innovation_number
                != en[b].innovation_number by {
                if a >= n0 {
                    assert(en[a].innovation_number == midt_id(c0, (a - n0) as nat));
                }
                if b >= n0 {
                    assert(en[b].innovation_number == midt_id(c0, (b - n0) as nat));
                }
            }
        }
        // Endepunktene finnes.
        assert forall|k: int| 0 <= k < ew.len() implies har_node(en, ew[k].kildenode) && har_node(
            en,
            ew[k].destinasjonsnode,
        ) by {
            if k < w0 {
                let w = foer.weight_genes@[k];
                let i1 = choose|i: int| 0 <= i < n0 && foer.node_genes@[i].innovation_number == w.kildenode;
                let i2 = choose|i: int| 0 <= i < n0 && foer.node_genes@[i].innovation_number == w.destinasjonsnode;
                assert(en[i1] == foer.node_genes@[i1]);
                assert(en[i2] == foer.node_genes@[i2]);
                if del[k] {
                    let j = antall_sanne(del.take(k));
                    lemma_antall_monoton(del, k, w0 as int);
                    assert(del.take(w0 as int) =~= del);
                    assert(n0 + j < en.len());
                    assert(en[(n0 + j) as int].innovation_number == midt_id(c0, j));
                    assert(ew[k].destinasjonsnode == midt_id(c0, j));
                    assert(ew[k].kildenode == w.kildenode);
                    assert(har_node(en, ew[k].kildenode));
                    assert(har_node(en, ew[k].destinasjonsnode));
                } else {
                    assert(ew[k] == w);
                }
            } else {
                let j = k - w0;
                lemma_finn_deling(del, j);
                let kk = choose|kk: int| 0 <= kk < w0 && del[kk] && #[trigger] antall_sanne(del.take(kk)) == j;
                let w = foer.weight_genes@[kk];
                let i2 = choose|i: int| 0 <= i < n0 && foer.node_genes@[i].innovation_number == w.destinasjonsnode;
                assert(en[i2] == foer.node_genes@[i2]);
                assert(ew[w0 + j] == WeightGene {
                    enabled: true,
                    kildenode: midt_id(c0, j as nat) as i32,
                    destinasjonsnode: w.destinasjonsnode,
                });
                assert(en[(n0 + j) as int].innovation_number == midt_id(c0, j as nat));
                assert(har_node(en, ew[k].kildenode));
                assert(har_node(en, ew[k].destinasjonsnode));
            }
        }
        // Ingen forbindelse to ganger.
        assert forall|a: int, b: int|
            0 <= a < ew.len() && 0 <= b < ew.len() && a != b implies !(ew[a].kildenode == ew[b].kildenode
            && ew[a].destinasjonsnode == ew[b].destinasjonsnode) by {
            lemma_vekt_etter_deling(etter, foer, c0, del, a);
            lemma_vekt_etter_deling(etter, foer, c0, del, b);
        }
    }
}

/// Deling nummer `j` finnes: en vekt `k` med `del[k]` og `j` delinger før seg.
proof fn lemma_finn_deling(del: Seq<bool>, j: int)
    requires
        0 <= j < antall_sanne(del),
    ensures
        exists|k: int| 0 <= k < del.len() && del[k] && #[trigger] antall_sanne(del.take(k)) == j,
    decreases del.len(),
{
    let f = del.drop_last();
    assert(del.take(del.len() - 1) =~= f);
    if j < antall_sanne(f) {
        lemma_finn_deling(f, j);
        let k = choose|k: int| 0 <= k < f.len() && f[k] && #[trigger] antall_sanne(f.take(k)) == j;
        assert(f.take(k) =~= del.take(k));
        assert(antall_sanne(del.take(k)) == j);
    } else {
        let k = del.len() - 1;
        assert(antall_sanne(del.take(k)) == j);
    }
}

/// Hva vekt `a` etter delingen er: en urørt gammel vekt, en gammel vekt som nå går
/// til en ny node, eller en ny vekt fra en ny node.
proof fn lemma_vekt_etter_deling(etter: Genome, foer: Genome, c0: i32, del: Seq<bool>, a: int)
    requires
        del.len() == foer.weight_genes@.len(),
        er_delt(etter, foer, c0, del),
        er_velformet(foer),
        ider_opp_til(foer.node_genes@, c0),
        0 <= a < etter.weight_genes@.len(),
    ensures
        ({
            let w0 = foer.weight_genes@.len();
            let w = etter.weight_genes@[a];
            ||| (a < w0 && !del[a] && w == foer.weight_genes@[a] && w.kildenode <= c0 && w.destinasjonsnode <= c0)
            ||| (a < w0 && del[a] && w.kildenode <= c0 && w.destinasjonsnode == midt_id(
                c0,
                antall_sanne(del.take(a)),
            ))
            ||| (a >= w0 && w.kildenode == midt_id(c0, (a - w0) as nat) && w.destinasjonsnode <= c0)
        }),
{
    let w0 = foer.weight_genes@.len();
    let n0 = foer.node_genes@.len();
    if a < w0 {
        let w = foer.weight_genes@[a];
        let i1 = choose|i: int| 0 <= i < n0 && foer.node_genes@[i].innovation_number == w.kildenode;
        let i2 = choose|i: int| 0 <= i < n0 && foer.node_genes@[i].innovation_number == w.destinasjonsnode;
        assert(foer.node_genes@[i1].innovation_number <= c0);
        assert(foer.node_genes@[i2].innovation_number <= c0);
    } else {
        let j = a - w0;
        lemma_finn_deling_fra_vekt(etter, foer, c0, del, j);
    }
}

proof fn lemma_finn_deling_fra_vekt(etter: Genome, foer: Genome, c0: i32, del: Seq<bool>, j: int)
    requires
        del.len() == foer.weight_genes@.len(),
        er_delt(etter, foer, c0, del),
        er_velformet(foer),
        ider_opp_til(foer.node_genes@, c0),
        0 <= j < antall_sanne(del),
    ensures
        etter.weight_genes@[foer.weight_genes@.len() + j].kildenode == midt_id(c0, j as nat),
        etter.weight_genes@[foer.weight_genes@.len() + j].destinasjonsnode <= c0,
{
    let w0 = foer.weight_genes@.len();
    let n0 = foer.node_genes@.len();
    lemma_finn_deling(del, j);
    let k = choose|k: int| 0 <= k < del.len() && del[k] && #[trigger] antall_sanne(del.take(k)) == j;
    let w = foer.weight_genes@[k];
    assert(etter.weight_genes@[w0 + j] == WeightGene {
        enabled: true,
        kildenode: midt_id(c0, j as nat) as i32,
        destinasjonsnode: w.destinasjonsnode,
    });
    let i2 = choose|i: int| 0 <= i < n0 && foer.node_genes@[i].innovation_number == w.destinasjonsnode;
    assert(foer.node_genes@[i2].innovation_number <= c0);
}


/// Beslutningene for én mutasjonsrunde av ett genom: hvilke noder og vekter som
/// slås av eller på, og hvilke vekter som deles med en ny node.
pub struct MutasjonsValg {
    pub bytt_noder: Vec<bool>,
    pub bytt_vekter: Vec<bool>,
    pub del_vekter: Vec<bool>,
}

/// Beslutningene passer til genomet: én per node eller vekt.
pub open spec fn valg_passer(valg: MutasjonsValg, g: Genome) -> bool {
    &&& valg.bytt_noder@.len() == g.node_genes@.len()
    &&& valg.bytt_vekter@.len() == g.weight_genes@.len()
    &&& valg.del_vekter@.len() == g.weight_genes@.len()
}

/// Hvor mange tall telleren gir ut når genomet muteres (to per deling, ingen for
/// genomer som ikke får endres).
pub open spec fn tall_brukt(g: Genome, valg: MutasjonsValg) -> nat {
    if g.allowed_to_change {
        2 * antall_sanne(valg.del_vekter@)
    } else {
        0
    }
}

/// `etter` er `foer` mutert med `valg` når telleren stod på `c0`: genomer som ikke får
/// endres er urørt; ellers snus nodene og vektene som valgt, og så deles vektene.
pub open spec fn er_mutert(etter: Genome, foer: Genome, c0: i32, valg: MutasjonsValg) -> bool {
    if foer.allowed_to_change {
        exists|mellom: Genome|
            {
                &&& mellom.node_genes@ == noder_veksla(foer.node_genes@, valg.bytt_noder@)
                &&& mellom.weight_genes@ == vekter_veksla(foer.weight_genes@, valg.bytt_vekter@)
                &&& mellom.original_ancestor_id == foer.original_ancestor_id
                &&& mellom.allowed_to_change == foer.allowed_to_change
                &&& #[trigger] er_delt(etter, mellom, c0, valg.del_vekter@)
            }
    } else {
        &&& etter.node_genes@ == foer.node_genes@
        &&& etter.weight_genes@ == foer.weight_genes@
        &&& etter.original_ancestor_id == foer.original_ancestor_id
        &&& etter.allowed_to_change == foer.allowed_to_change
    }
}

/// Å snu påslått-flagg endrer verken noder, endepunkter eller forbindelser.
proof fn lemma_veksling_bevarer_velformethet(foer: Genome, mellom: Genome, bn: Seq<bool>, bw: Seq<bool>, c0: i32)
    requires
        bn.len() == foer.node_genes@.len(),
        bw.len() == foer.weight_genes@.len(),
        mellom.node_genes@ == noder_veksla(foer.node_genes@, bn),
        mellom.weight_genes@ == vekter_veksla(foer.weight_genes@, bw),
        er_velformet(foer),
        ider_opp_til(foer.node_genes@, c0),
    ensures
        er_velformet(mellom),
        ider_opp_til(mellom.node_genes@, c0),
{
    let fnn = foer.node_genes@;
    let mn = mellom.node_genes@;
    assert forall|i: int| 0 <= i < mn.len() implies #[trigger] mn[i].innovation_number == fnn[i].innovation_number by {}
    assert forall|k: int| 0 <= k < mellom.weight_genes@.len() implies har_node(mn, mellom.weight_genes@[k].kildenode)
        && har_node(mn, mellom.weight_genes@[k].destinasjonsnode) by {
        let w = foer.weight_genes@[k];
        assert(mellom.weight_genes@[k].kildenode == w.kildenode);
        assert(mellom.weight_genes@[k].destinasjonsnode == w.destinasjonsnode);
        let i1 = choose|i: int| 0 <= i < fnn.len() && fnn[i].innovation_number == w.kildenode;
        let i2 = choose|i: int| 0 <= i < fnn.len() && fnn[i].innovation_number == w.destinasjonsnode;
        assert(mn[i1].innovation_number == w.kildenode);
        assert(mn[i2].innovation_number == w.destinasjonsnode);
    }
    assert forall|a: int, b: int|
        0 <= a < mellom.weight_genes@.len() && 0 <= b < mellom.weight_genes@.len() && a != b implies !(
        mellom.weight_genes@[a].kildenode == mellom.weight_genes@[b].kildenode
            && mellom.weight_genes@[a].destinasjonsnode == mellom.weight_genes@[b].destinasjonsnode) by {
        assert(mellom.weight_genes@[a].kildenode == foer.weight_genes@[a].kildenode);
        assert(mellom.weight_genes@[b].kildenode == foer.weight_genes@[b].kildenode);
    }
}

/// Én mutasjonsrunde for ett genom: genomer som ikke får endres (eliter) er urørt;
/// ellers snus noder og vekter som valgt, og vekter deles med nye noder.
pub fn mutate_genome(
    genom: &mut Genome,
    innovation_number_global_counter: &mut InnovationNumberGlobalCounter,
    valg: &MutasjonsValg,
)
    requires
        valg_passer(*valg, *old(genom)),
        old(innovation_number_global_counter).count + tall_brukt(*old(genom), *valg) <= i32::MAX,
    ensures
        final(innovation_number_global_counter).count == old(innovation_number_global_counter).count
            + tall_brukt(*old(genom), *valg),
        er_mutert(*final(genom), *old(genom), old(innovation_number_global_counter).count, *valg),
        er_velformet(*old(genom)) && ider_opp_til(old(genom).node_genes@, old(innovation_number_global_counter).count)
            ==> er_velformet(*final(genom)) && ider_opp_til(
            final(genom).node_genes@,
            final(innovation_number_global_counter).count,
        ),
{
    if genom.allowed_to_change {
        let ghost g0 = *genom;
        let ghost c0 = innovation_number_global_counter.count;
        mutate_existing_nodes_arc(&mut genom.node_genes, &valg.bytt_noder);
        mutate_existing_weights_value_and_paa_av(&mut genom.weight_genes, &valg.bytt_vekter);
        let ghost mellom = *genom;
        mutate_new_node_in_middle_mutation(genom, innovation_number_global_counter, &valg.del_vekter);
        proof {
            assert(er_delt(*genom, mellom, c0, valg.del_vekter@));
            if er_velformet(g0) && ider_opp_til(g0.node_genes@, c0) {
                lemma_veksling_bevarer_velformethet(g0, mellom, valg.bytt_noder@, valg.bytt_vekter@, c0);
            }
        }
    }
}

/// Samlet antall tall fra telleren når de første genomene muteres etter tur.
pub open spec fn tall_brukt_totalt(genomer: Seq<Genome>, valg: Seq<MutasjonsValg>) -> nat
    decreases genomer.len(),
{
    if genomer.len() == 0 {
        0
    } else {
        tall_brukt_totalt(genomer.drop_last(), valg) + tall_brukt(genomer.last(), valg[genomer.len() - 1])
    }
}

/// Muterer alle genomene etter tur med hver sine beslutninger; telleren deles.
pub fn mutate_genomes(
    genomer: &mut Vec<Genome>,
    innovation_number_global_counter: &mut InnovationNumberGlobalCounter,
    valg: &Vec<MutasjonsValg>,
)
    requires
        valg@.len() == old(genomer)@.len(),
        forall|i: int| 0 <= i < valg@.len() ==> valg_passer(#[trigger] valg@[i], old(genomer)@[i]),
        old(innovation_number_global_counter).count + tall_brukt_totalt(old(genomer)@, valg@) <= i32::MAX,
    ensures
        final(genomer)@.len() == old(genomer)@.len(),
        final(innovation_number_global_counter).count == old(innovation_number_global_counter).count
            + tall_brukt_totalt(old(genomer)@, valg@),
        forall|i: int|
            0 <= i < old(genomer)@.len() ==> er_mutert(
                #[trigger] final(genomer)@[i],
                old(genomer)@[i],
                (old(innovation_number_global_counter).count + tall_brukt_totalt(old(genomer)@.take(i), valg@)) as i32,
                valg@[i],
            ),
{
    let ghost g0 = genomer@;
    let ghost c0 = innovation_number_global_counter.count;
    let mut i: usize = 0;
    while i < genomer.len()
        invariant
            valg@.len() == g0.len(),
            genomer@.len() == g0.len(),
            i <= g0.len(),
            forall|a: int| 0 <= a < valg@.len() ==> valg_passer(#[trigger] valg@[a], g0[a]),
            c0 + tall_brukt_totalt(g0, valg@) <= i32::MAX,
            innovation_number_global_counter.count == c0 + tall_brukt_totalt(g0.take(i as int), valg@),
            forall|a: int| i <= a < g0.len() ==> #[trigger] genomer@[a] == g0[a],
            forall|a: int|
                0 <= a < i ==> er_mutert(
                    #[trigger] genomer@[a],
                    g0[a],
                    (c0 + tall_brukt_totalt(g0.take(a), valg@)) as i32,
                    valg@[a],
                ),
        decreases g0.len() - i,
    {
        proof {
            lemma_tall_brukt_steg(g0, valg@, i as int);
            lemma_tall_brukt_monoton(g0, valg@, i + 1);
        }
        let ghost foer = genomer@;
        mutate_genome(&mut genomer[i], innovation_number_global_counter, &valg[i]);
        proof {
            assert forall|a: int| 0 <= a < i implies #[trigger] genomer@[a] == foer[a] by {}
        }
        i = i + 1;
    }
    proof {
        assert(g0.take(g0.len() as int) =~= g0);
    }
}

proof fn lemma_tall_brukt_steg(genomer: Seq<Genome>, valg: Seq<MutasjonsValg>, i: int)
    requires
        0 <= i < genomer.len(),
    ensures
        tall_brukt_totalt(genomer.take(i + 1), valg) == tall_brukt_totalt(genomer.take(i), valg) + tall_brukt(
            genomer[i],
            valg[i],
        ),
{
    assert(genomer.take(i + 1).drop_last() =~= genomer.take(i));
}

proof fn lemma_tall_brukt_monoton(genomer: Seq<Genome>, valg: Seq<MutasjonsValg>, i: int)
    requires
        0 <= i <= genomer.len(),
    ensures
        tall_brukt_totalt(genomer.take(i), valg) <= tall_brukt_totalt(genomer, valg),
    decreases genomer.len() - i,
{
    if i < genomer.len() {
        lemma_tall_brukt_steg(genomer, valg, i);
        lemma_tall_brukt_monoton(genomer, valg, i + 1);
    } else {
        assert(genomer.take(i) =~= genomer);
    }
}

/// Låser alle genomene mot mutasjon (brukes på foreldre og eliter).
pub fn lock_mutation_stability(genomer: &mut Vec<Genome>)
    ensures
        final(genomer)@.len() == old(genomer)@.len(),
        forall|i: int|
            0 <= i < old(genomer)@.len() ==> {
                let e = #[trigger] final(genomer)@[i];
                let f = old(genomer)@[i];
                &&& !e.allowed_to_change
                &&& e.node_genes@ == f.node_genes@
                &&& e.weight_genes@ == f.weight_genes@
                &&& e.original_ancestor_id == f.original_ancestor_id
            },
{
    let ghost g0 = genomer@;
    let mut i: usize = 0;
    while i < genomer.len()
        invariant
            genomer@.len() == g0.len(),
            i <= g0.len(),
            forall|a: int| i <= a < g0.len() ==> #[trigger] genomer@[a] == g0[a],
            forall|a: int|
                0 <= a < i ==> {
                    let e = #[trigger] genomer@[a];
                    let f = g0[a];
                    &&& !e.allowed_to_change
                    &&& e.node_genes@ == f.node_genes@
                    &&& e.weight_genes@ == f.weight_genes@
                    &&& e.original_ancestor_id == f.original_ancestor_id
                },
        decreases g0.len() - i,
    {
        genomer[i].allowed_to_change = false;
        i = i + 1;
    }
}

} // verus!
