use std::collections::HashMap;
use vstd::prelude::*;
use vstd::string::StringExecFns;
use crate::tekst::{desimal, desimal_i32, i32_til_tekst, usize_til_tekst};

verus! {

broadcast use vstd::std_specs::hash::group_hash_axioms;

/// Global teller som deler ut innovasjonsnumre til nye noder.
pub struct InnovationNumberGlobalCounter {
    pub count: i32,
}

impl InnovationNumberGlobalCounter {
    /// Teller opp og gir det nye tallet. Hvert kall gir et tall som er
    /// større enn alle tall telleren har gitt før.
    pub fn get_number(&mut self) -> (r: i32)
        requires
            old(self).count < i32::MAX,
        ensures
            final(self).count == old(self).count + 1,
            r == final(self).count,
    {
        self.count = self.count + 1;
        self.count
    }
}

/// Kall nummer `k + 1` til `get_number` førte telleren fra `tellere[k]` til
/// `tellere[k + 1]` og ga `tall[k]`, slik kontrakten til `get_number` sier.
pub open spec fn er_kall_til_get_number(tellere: Seq<InnovationNumberGlobalCounter>, tall: Seq<i32>, k: int) -> bool {
    &&& tellere[k + 1].count == tellere[k].count + 1
    &&& tall[k] == tellere[k + 1].count
}

/// Etter `i` kall står telleren `i` over der den startet.
proof fn lemma_telleren_etter_kall(tellere: Seq<InnovationNumberGlobalCounter>, tall: Seq<i32>, i: int)
    requires
        tellere.len() == tall.len() + 1,
        forall|k: int| 0 <= k < tall.len() ==> #[trigger] er_kall_til_get_number(tellere, tall, k),
        0 <= i <= tall.len(),
    ensures
        tellere[i].count == tellere[0].count + i,
    decreases i,
{
    if i > 0 {
        lemma_telleren_etter_kall(tellere, tall, i - 1);
        assert(er_kall_til_get_number(tellere, tall, i - 1));
    }
}

/// Én teller deler aldri ut samme innovasjonsnummer to ganger: når `tall[k]` er
/// det kall nummer `k + 1` til `get_number` gir (telleren går fra `tellere[k]`
/// til `tellere[k + 1]`), er tallene start + 1, start + 2, ..., strengt
/// stigende og alle større enn starten.
pub proof fn lov_telleren_gjentar_aldri(tellere: Seq<InnovationNumberGlobalCounter>, tall: Seq<i32>)
    requires
        tellere.len() == tall.len() + 1,
        forall|k: int| 0 <= k < tall.len() ==> #[trigger] er_kall_til_get_number(tellere, tall, k),
    ensures
        forall|k: int| 0 <= k < tall.len() ==> #[trigger] tall[k] == tellere[0].count + k + 1,
        forall|a: int, b: int| 0 <= a < b < tall.len() ==> #[trigger] tall[a] < #[trigger] tall[b],
        forall|k: int| 0 <= k < tall.len() ==> #[trigger] tall[k] > tellere[0].count,
        tellere.last().count == tellere[0].count + tall.len(),
{
    assert forall|k: int| 0 <= k < tall.len() implies #[trigger] tall[k] == tellere[0].count + k + 1 by {
        lemma_telleren_etter_kall(tellere, tall, k + 1);
        assert(er_kall_til_get_number(tellere, tall, k));
    }
    lemma_telleren_etter_kall(tellere, tall, tall.len() as int);
}

/// En node i genomet. Identiteten er innovasjonsnummeret.
pub struct NodeGene {
    pub innovation_number: i32,
    pub enabled: bool,
    pub inputnode: bool,
    pub outputnode: bool,
    pub layer: usize,
    /// Beskriver hva en inn- eller utgangsnode står for.
    pub label: String,
}

impl PartialEq for NodeGene {
    fn eq(&self, other: &Self) -> (r: bool) {
        self.innovation_number == other.innovation_number
    }
}

impl vstd::std_specs::cmp::PartialEqSpecImpl for NodeGene {
    open spec fn obeys_eq_spec() -> bool {
        true
    }

    open spec fn eq_spec(&self, other: &Self) -> bool {
        self.innovation_number == other.innovation_number
    }
}

impl Eq for NodeGene {}

impl NodeGene {
    /// En ny skjult node med neste innovasjonsnummer fra telleren,
    /// påslått, og med `innovation_number` som merkelapp.
    pub fn default_for_hidden(
        innovation_number_global_counter: &mut InnovationNumberGlobalCounter,
        innovation_number: i32,
    ) -> (r: NodeGene)
        requires
            old(innovation_number_global_counter).count < i32::MAX,
        ensures
            final(innovation_number_global_counter).count == old(innovation_number_global_counter).count + 1,
            r == skjult_node(final(innovation_number_global_counter).count, r.label),
            r.label@ == desimal_i32(innovation_number),
    {
        let id = innovation_number_global_counter.get_number();
        let label = i32_til_tekst(innovation_number);
        NodeGene {
            innovation_number: id,
            enabled: true,
            inputnode: false,
            outputnode: false,
            layer: 0,
            label,
        }
    }
}

/// En skjult node slik mutasjoner lager den.
pub open spec fn skjult_node(id: i32, label: String) -> NodeGene {
    NodeGene {
        innovation_number: id,
        enabled: true,
        inputnode: false,
        outputnode: false,
        layer: 0,
        label,
    }
}

/// En forbindelse fra `kildenode` til `destinasjonsnode`, gitt ved nodenes innovasjonsnumre.
#[derive(Clone, Copy, Debug)]
pub struct WeightGene {
    pub enabled: bool,
    pub kildenode: i32,
    pub destinasjonsnode: i32,
}

impl WeightGene {
    /// Vekten som går fra en ny midtnode til sluttnoden når en vekt deles.
    pub fn neutral_default_for_hidden(end_node: &NodeGene, new_middle_node: &NodeGene) -> (r: WeightGene)
        ensures
            r == (WeightGene {
                enabled: true,
                kildenode: new_middle_node.innovation_number,
                destinasjonsnode: end_node.innovation_number,
            }),
    {
        WeightGene {
            enabled: true,
            kildenode: new_middle_node.innovation_number,
            destinasjonsnode: end_node.innovation_number,
        }
    }
}

/// Genomet til et individ.
pub struct Genome {
    pub node_genes: Vec<NodeGene>,
    pub weight_genes: Vec<WeightGene>,
    pub original_ancestor_id: i32,
    /// Skrudd av for eliter som ikke skal muteres.
    pub allowed_to_change: bool,
}

/// Noden med innovasjonsnummer `id` finnes i `noder`.
pub open spec fn har_node(noder: Seq<NodeGene>, id: i32) -> bool {
    exists|i: int| 0 <= i < noder.len() && noder[i].innovation_number == id
}

/// Ingen to noder har samme innovasjonsnummer.
pub open spec fn unike_ider(noder: Seq<NodeGene>) -> bool {
    forall|i: int, j: int|
        0 <= i < noder.len() && 0 <= j < noder.len() && i != j
            ==> noder[i].innovation_number != noder[j].innovation_number
}

/// Ingen to vekter forbinder samme par av noder i samme retning.
pub open spec fn unike_forbindelser(vekter: Seq<WeightGene>) -> bool {
    forall|i: int, j: int|
        0 <= i < vekter.len() && 0 <= j < vekter.len() && i != j ==> !(vekter[i].kildenode
            == vekter[j].kildenode && vekter[i].destinasjonsnode == vekter[j].destinasjonsnode)
}

/// Velformet genom: unike noder, hver vekt går mellom noder i genomet,
/// og ingen forbindelse finnes to ganger.
pub open spec fn er_velformet(g: Genome) -> bool {
    &&& unike_ider(g.node_genes@)
    &&& forall|k: int|
        0 <= k < g.weight_genes@.len() ==> har_node(g.node_genes@, g.weight_genes@[k].kildenode)
            && har_node(g.node_genes@, g.weight_genes@[k].destinasjonsnode)
    &&& unike_forbindelser(g.weight_genes@)
}

/// Alle noder har innovasjonsnummer fra telleren, altså høyst `maks`.
pub open spec fn ider_opp_til(noder: Seq<NodeGene>, maks: i32) -> bool {
    forall|i: int| 0 <= i < noder.len() ==> noder[i].innovation_number <= maks
}


/// Merkelappen til inngangsnode nummer `n`: "input n".
pub open spec fn input_merke(n: nat) -> Seq<char> {
    seq!['i', 'n', 'p', 'u', 't', ' '] + desimal(n)
}

/// Merkelappen til utgangsnode nummer `n`: "output n".
pub open spec fn output_merke(n: nat) -> Seq<char> {
    seq!['o', 'u', 't', 'p', 'u', 't', ' '] + desimal(n)
}

/// `rand::random::<i32>()`: et tilfeldig heltall; ingenting er lovet om verdien.
#[verifier::external_body]
fn tilfeldig_i32() -> (r: i32) {
    rand::random::<i32>()
}

fn inngangsnode(id: i32, n: usize) -> (r: NodeGene)
    ensures
        r.innovation_number == id,
        r.enabled,
        r.inputnode,
        !r.outputnode,
        r.layer == 0,
        r.label@ == input_merke(n as nat),
{
    let tall = usize_til_tekst(n);
    let label = String::from_str("input ").concat(tall.as_str());
    proof {
        reveal_strlit("input ");
        assert(label@ =~= input_merke(n as nat));
    }
    NodeGene { innovation_number: id, enabled: true, inputnode: true, outputnode: false, layer: 0, label }
}

fn utgangsnode(id: i32, n: usize) -> (r: NodeGene)
    ensures
        r.innovation_number == id,
        r.enabled,
        !r.inputnode,
        r.outputnode,
        r.layer == 0,
        r.label@ == output_merke(n as nat),
{
    let tall = usize_til_tekst(n);
    let label = String::from_str("output ").concat(tall.as_str());
    proof {
        reveal_strlit("output ");
        assert(label@ =~= output_merke(n as nat));
    }
    NodeGene { innovation_number: id, enabled: true, inputnode: false, outputnode: true, layer: 0, label }
}

/// Et nytt genom med `ant_inputs` inngangsnoder og `ant_outputs` utgangsnoder
/// (innovasjonsnumre fra telleren, i den rekkefølgen), og én påslått vekt fra
/// hver inngang til hver utgang: vekt `k` går fra inngang `k / ant_outputs` til
/// utgang `k % ant_outputs`. Stamfar-id-en trekkes tilfeldig.
pub fn new_random_genome(
    ant_inputs: usize,
    ant_outputs: usize,
    innovation_number_global_counter: &mut InnovationNumberGlobalCounter,
) -> (g: Genome)
    requires
        old(innovation_number_global_counter).count + ant_inputs + ant_outputs <= i32::MAX,
    ensures
        ({
            let c0 = old(innovation_number_global_counter).count;
            &&& final(innovation_number_global_counter).count == c0 + ant_inputs + ant_outputs
            &&& g.node_genes@.len() == ant_inputs + ant_outputs
            &&& forall|i: int|
                0 <= i < ant_inputs ==> {
                    let n = #[trigger] g.node_genes@[i];
                    &&& n.innovation_number == c0 + 1 + i
                    &&& n.enabled && n.inputnode && !n.outputnode && n.layer == 0
                    &&& n.label@ == input_merke(i as nat)
                }
            &&& forall|j: int|
                0 <= j < ant_outputs ==> {
                    let n = #[trigger] g.node_genes@[ant_inputs + j];
                    &&& n.innovation_number == c0 + 1 + ant_inputs + j
                    &&& n.enabled && !n.inputnode && n.outputnode && n.layer == 0
                    &&& n.label@ == output_merke(j as nat)
                }
            &&& g.weight_genes@.len() == ant_inputs * ant_outputs
            &&& forall|k: int|
                0 <= k < g.weight_genes@.len() ==> {
                    let w = #[trigger] g.weight_genes@[k];
                    &&& w.enabled
                    &&& w.kildenode == c0 + 1 + k / (ant_outputs as int)
                    &&& w.destinasjonsnode == c0 + 1 + ant_inputs + k % (ant_outputs as int)
                }
            &&& g.allowed_to_change
        }),
        er_velformet(g),
        ider_opp_til(g.node_genes@, final(innovation_number_global_counter).count),
{
    let ghost c0 = innovation_number_global_counter.count;
    let mut node_genes: Vec<NodeGene> = Vec::new();
    let mut n: usize = 0;
    while n < ant_inputs
        invariant
            n <= ant_inputs,
            innovation_number_global_counter.count == c0 + n,
            c0 + ant_inputs + ant_outputs <= i32::MAX,
            node_genes@.len() == n,
            forall|i: int|
                0 <= i < n ==> {
                    let nd = #[trigger] node_genes@[i];
                    &&& nd.innovation_number == c0 + 1 + i
                    &&& nd.enabled && nd.inputnode && !nd.outputnode && nd.layer == 0
                    &&& nd.label@ == input_merke(i as nat)
                },
        decreases ant_inputs - n,
    {
        let id = innovation_number_global_counter.get_number();
        node_genes.push(inngangsnode(id, n));
        n = n + 1;
    }
    let mut m: usize = 0;
    while m < ant_outputs
        invariant
            m <= ant_outputs,
            innovation_number_global_counter.count == c0 + ant_inputs + m,
            c0 + ant_inputs + ant_outputs <= i32::MAX,
            node_genes@.len() == ant_inputs + m,
            forall|i: int|
                0 <= i < ant_inputs ==> {
                    let nd = #[trigger] node_genes@[i];
                    &&& nd.innovation_number == c0 + 1 + i
                    &&& nd.enabled && nd.inputnode && !nd.outputnode && nd.layer == 0
                    &&& nd.label@ == input_merke(i as nat)
                },
            forall|j: int|
                0 <= j < m ==> {
                    let nd = #[trigger] node_genes@[ant_inputs + j];
                    &&& nd.innovation_number == c0 + 1 + ant_inputs + j
                    &&& nd.enabled && !nd.inputnode && nd.outputnode && nd.layer == 0
                    &&& nd.label@ == output_merke(j as nat)
                },
        decreases ant_outputs - m,
    {
        let id = innovation_number_global_counter.get_number();
        node_genes.push(utgangsnode(id, m));
        m = m + 1;
    }
    assert forall|a: int| 0 <= a < node_genes@.len() implies (#[trigger] node_genes@[a]).innovation_number == c0 + 1 + a by {
        if a >= ant_inputs {
            assert(node_genes@[ant_inputs + (a - ant_inputs)].innovation_number == c0 + 1 + ant_inputs + (a - ant_inputs));
        }
    }
    let mut weight_genes: Vec<WeightGene> = Vec::new();
    let mut i: usize = 0;
    while i < ant_inputs
        invariant
            i <= ant_inputs,
            node_genes@.len() == ant_inputs + ant_outputs,
            forall|a: int| 0 <= a < node_genes@.len() ==> (#[trigger] node_genes@[a]).innovation_number == c0 + 1 + a,
            c0 + ant_inputs + ant_outputs <= i32::MAX,
            weight_genes@.len() == i * ant_outputs,
            forall|k: int|
                0 <= k < weight_genes@.len() ==> {
                    let w = #[trigger] weight_genes@[k];
                    &&& w.enabled
                    &&& w.kildenode == c0 + 1 + k / (ant_outputs as int)
                    &&& w.destinasjonsnode == c0 + 1 + ant_inputs + k % (ant_outputs as int)
                },
        decreases ant_inputs - i,
    {
        let mut j: usize = 0;
        while j < ant_outputs
            invariant
                i < ant_inputs,
                j <= ant_outputs,
                node_genes@.len() == ant_inputs + ant_outputs,
                forall|a: int| 0 <= a < node_genes@.len() ==> (#[trigger] node_genes@[a]).innovation_number == c0 + 1 + a,
                c0 + ant_inputs + ant_outputs <= i32::MAX,
                weight_genes@.len() == i * ant_outputs + j,
                forall|k: int|
                    0 <= k < weight_genes@.len() ==> {
                    let w = #[trigger] weight_genes@[k];
                    &&& w.enabled
                    &&& w.kildenode == c0 + 1 + k / (ant_outputs as int)
                    &&& w.destinasjonsnode == c0 + 1 + ant_inputs + k % (ant_outputs as int)
                },
            decreases ant_outputs - j,
        {
            let w = WeightGene {
                enabled: true,
                kildenode: node_genes[i].innovation_number,
                destinasjonsnode: node_genes[ant_inputs + j].innovation_number,
            };
            proof {
                let k = (i * ant_outputs + j) as int;
                assert(k == i * ant_outputs + j) by (nonlinear_arith)
                    requires
                        k == (i * ant_outputs + j) as int,
                        i * ant_outputs + j >= 0;
                vstd::arithmetic::div_mod::lemma_fundamental_div_mod_converse(
                    k,
                    ant_outputs as int,
                    i as int,
                    j as int,
                );
            }
            weight_genes.push(w);
            j = j + 1;
        }
        assert((i + 1) * ant_outputs == i * ant_outputs + ant_outputs) by (nonlinear_arith);
        i = i + 1;
    }
    let g = Genome {
        node_genes,
        weight_genes,
        original_ancestor_id: tilfeldig_i32(),
        allowed_to_change: true,
    };
    proof {
        lemma_fullt_koblet_velformet(g, c0, ant_inputs as nat, ant_outputs as nat);
    }
    g
}

proof fn lemma_fullt_koblet_velformet(g: Genome, c0: i32, ant_in: nat, ant_out: nat)
    requires
        c0 + ant_in + ant_out <= i32::MAX,
        g.node_genes@.len() == ant_in + ant_out,
        forall|a: int| 0 <= a < g.node_genes@.len() ==> (#[trigger] g.node_genes@[a]).innovation_number == c0 + 1 + a,
        g.weight_genes@.len() == ant_in * ant_out,
        forall|k: int|
            0 <= k < g.weight_genes@.len() ==> {
                    let w = #[trigger] g.weight_genes@[k];
                    &&& w.enabled
                    &&& w.kildenode == c0 + 1 + k / (ant_out as int)
                    &&& w.destinasjonsnode == c0 + 1 + ant_in + k % (ant_out as int)
                },
    ensures
        er_velformet(g),
        ider_opp_til(g.node_genes@, (c0 + ant_in + ant_out) as i32),
{
    assert forall|k: int| 0 <= k < g.weight_genes@.len() implies har_node(g.node_genes@, g.weight_genes@[k].kildenode)
        && har_node(g.node_genes@, g.weight_genes@[k].destinasjonsnode) by {
        let q = k / (ant_out as int);
        let r = k % (ant_out as int);
        assert(0 <= q < ant_in && 0 <= r < ant_out) by (nonlinear_arith)
            requires
                0 <= k < ant_in * ant_out,
                q == k / (ant_out as int),
                r == k % (ant_out as int),
                ant_out > 0;
        assert(g.node_genes@[q].innovation_number == c0 + 1 + q);
        assert(g.node_genes@[ant_in + r].innovation_number == c0 + 1 + ant_in + r);
    }
    assert forall|k1: int, k2: int|
        0 <= k1 < g.weight_genes@.len() && 0 <= k2 < g.weight_genes@.len() && k1 != k2 implies !(
        g.weight_genes@[k1].kildenode == g.weight_genes@[k2].kildenode
            && g.weight_genes@[k1].destinasjonsnode == g.weight_genes@[k2].destinasjonsnode) by {
        let d = ant_out as int;
        assert(d > 0) by (nonlinear_arith)
            requires
                0 <= k1 < ant_in * ant_out,
                d == ant_out,
                ant_in >= 0,
                ant_out >= 0;
        vstd::arithmetic::div_mod::lemma_fundamental_div_mod(k1, d);
        vstd::arithmetic::div_mod::lemma_fundamental_div_mod(k2, d);
        if k1 / d == k2 / d && k1 % d == k2 % d {
            assert(k1 == k2);
        }
    }
}


/// Hvor mange noder i `noder` som har innovasjonsnummer `id`.
pub open spec fn forekomster(noder: Seq<NodeGene>, id: i32) -> nat
    decreases noder.len(),
{
    if noder.len() == 0 {
        0
    } else {
        forekomster(noder.drop_last(), id) + if noder.last().innovation_number == id {
            1nat
        } else {
            0nat
        }
    }
}

/// Hver vekt peker på nøyaktig én node i genomet, i begge ender.
pub open spec fn kan_klones(g: Genome) -> bool {
    forall|k: int|
        0 <= k < g.weight_genes@.len() ==> forekomster(g.node_genes@, (#[trigger] g.weight_genes@[k]).kildenode)
            == 1 && forekomster(g.node_genes@, g.weight_genes@[k].destinasjonsnode) == 1
}

/// `kopi` er det `Genome::clone` gir av `g`: samme noder, men med lag satt til 0,
/// samme vekter (til nodene i kopien), samme stamfar og mutasjonsflagg.
pub open spec fn er_klone_av(kopi: Genome, g: Genome) -> bool {
    &&& kopi.node_genes@.len() == g.node_genes@.len()
    &&& forall|i: int|
        0 <= i < g.node_genes@.len() ==> {
            let a = #[trigger] kopi.node_genes@[i];
            let b = g.node_genes@[i];
            &&& a.innovation_number == b.innovation_number
            &&& a.enabled == b.enabled
            &&& a.inputnode == b.inputnode
            &&& a.outputnode == b.outputnode
            &&& a.layer == 0
            &&& a.label@ == b.label@
        }
    &&& kopi.weight_genes@ == g.weight_genes@
    &&& kopi.original_ancestor_id == g.original_ancestor_id
    &&& kopi.allowed_to_change == g.allowed_to_change
}

proof fn lemma_forekomster_unik(noder: Seq<NodeGene>, id: i32)
    requires
        unike_ider(noder),
    ensures
        har_node(noder, id) ==> forekomster(noder, id) == 1,
        !har_node(noder, id) ==> forekomster(noder, id) == 0,
    decreases noder.len(),
{
    if noder.len() > 0 {
        let f = noder.drop_last();
        lemma_forekomster_unik(f, id);
        if har_node(f, id) {
            let i = choose|i: int| 0 <= i < f.len() && f[i].innovation_number == id;
            assert(noder[i].innovation_number == id);
            assert(noder.last().innovation_number != id);
        }
        if har_node(noder, id) && !har_node(f, id) {
            let i = choose|i: int| 0 <= i < noder.len() && noder[i].innovation_number == id;
            if i < f.len() {
                assert(f[i].innovation_number == id);
            }
        }
        if !har_node(noder, id) {
            assert(noder[noder.len() - 1].innovation_number != id);
        }
    }
}

/// En klone av et velformet genom er velformet og kan klones igjen.
pub proof fn lov_klon_er_velformet(kopi: Genome, g: Genome)
    requires
        er_velformet(g),
        er_klone_av(kopi, g),
    ensures
        er_velformet(kopi),
        kan_klones(kopi),
{
    let kn = kopi.node_genes@;
    let gn = g.node_genes@;
    assert forall|i: int| 0 <= i < kn.len() implies #[trigger] kn[i].innovation_number == gn[i].innovation_number by {}
    assert forall|k: int| 0 <= k < kopi.weight_genes@.len() implies har_node(kn, kopi.weight_genes@[k].kildenode)
        && har_node(kn, kopi.weight_genes@[k].destinasjonsnode) by {
        let w = g.weight_genes@[k];
        let i1 = choose|i: int| 0 <= i < gn.len() && gn[i].innovation_number == w.kildenode;
        let i2 = choose|i: int| 0 <= i < gn.len() && gn[i].innovation_number == w.destinasjonsnode;
        assert(kn[i1].innovation_number == w.kildenode);
        assert(kn[i2].innovation_number == w.destinasjonsnode);
    }
    lemma_velformet_kan_klones(kopi);
}

/// Et velformet genom kan alltid klones.
pub proof fn lemma_velformet_kan_klones(g: Genome)
    requires
        er_velformet(g),
    ensures
        kan_klones(g),
{
    assert forall|k: int| 0 <= k < g.weight_genes@.len() implies forekomster(g.node_genes@, (#[trigger] g.weight_genes@[k]).kildenode)
        == 1 && forekomster(g.node_genes@, g.weight_genes@[k].destinasjonsnode) == 1 by {
        lemma_forekomster_unik(g.node_genes@, g.weight_genes@[k].kildenode);
        lemma_forekomster_unik(g.node_genes@, g.weight_genes@[k].destinasjonsnode);
    }
}

impl Genome {
    /// En dyp kopi: nye noder (lag satt til 0), og vekter som kobler de nye nodene
    /// med de samme innovasjonsnumrene.
    pub fn clone(&self) -> (kopi: Genome)
        requires
            kan_klones(*self),
        ensures
            er_klone_av(kopi, *self),
    {
        let mut nye_noder: Vec<NodeGene> = Vec::new();
        let mut i: usize = 0;
        while i < self.node_genes.len()
            invariant
                i <= self.node_genes@.len(),
                nye_noder@.len() == i,
                forall|a: int|
                    0 <= a < i ==> {
                        let x = #[trigger] nye_noder@[a];
                        let y = self.node_genes@[a];
                        &&& x.innovation_number == y.innovation_number
                        &&& x.enabled == y.enabled
                        &&& x.inputnode == y.inputnode
                        &&& x.outputnode == y.outputnode
                        &&& x.layer == 0
                        &&& x.label@ == y.label@
                    },
            decreases self.node_genes@.len() - i,
        {
            let node = &self.node_genes[i];
            nye_noder.push(NodeGene {
                innovation_number: node.innovation_number,
                enabled: node.enabled,
                inputnode: node.inputnode,
                outputnode: node.outputnode,
                layer: 0,
                label: node.label.clone(),
            });
            i = i + 1;
        }
        let mut nye_vekter: Vec<WeightGene> = Vec::new();
        let mut k: usize = 0;
        while k < self.weight_genes.len()
            invariant
                k <= self.weight_genes@.len(),
                nye_vekter@ == self.weight_genes@.take(k as int),
            decreases self.weight_genes@.len() - k,
        {
            let vekt = self.weight_genes[k];
            nye_vekter.push(WeightGene {
                enabled: vekt.enabled,
                kildenode: vekt.kildenode,
                destinasjonsnode: vekt.destinasjonsnode,
            });
            proof {
                assert(nye_vekter@ =~= self.weight_genes@.take(k + 1));
            }
            k = k + 1;
        }
        proof {
            assert(nye_vekter@ =~= self.weight_genes@);
        }
        Genome {
            node_genes: nye_noder,
            weight_genes: nye_vekter,
            original_ancestor_id: self.original_ancestor_id,
            allowed_to_change: self.allowed_to_change,
        }
    }
}


/// Noden med innovasjonsnummer `id` finnes og er påslått.
pub open spec fn node_aktiv(noder: Seq<NodeGene>, id: i32) -> bool {
    exists|i: int| 0 <= i < noder.len() && noder[i].innovation_number == id && noder[i].enabled
}

/// De påslåtte vektene inn til node `d`, i genomets rekkefølge.
pub open spec fn vekter_inn(vekter: Seq<WeightGene>, d: i32) -> Seq<WeightGene>
    decreases vekter.len(),
{
    if vekter.len() == 0 {
        seq![]
    } else {
        let forrige = vekter_inn(vekter.drop_last(), d);
        let w = vekter.last();
        if w.enabled && w.destinasjonsnode == d {
            forrige.push(w)
        } else {
            forrige
        }
    }
}

/// Unike noder, og hver vekt ender i en node i genomet.
pub open spec fn destinasjoner_finnes(g: Genome) -> bool {
    &&& unike_ider(g.node_genes@)
    &&& forall|k: int| 0 <= k < g.weight_genes@.len() ==> har_node(g.node_genes@, (#[trigger] g.weight_genes@[k]).destinasjonsnode)
}

/// Påslåtte vekter gruppert etter påslått destinasjonsnode: nøklene er nodene som
/// er påslått og har minst én påslått vekt inn, verdien er de vektene i rekkefølge.
pub open spec fn er_aktive_vekter(m: Map<i32, Vec<WeightGene>>, g: Genome) -> bool {
    &&& forall|d: i32| #[trigger] m.contains_key(d) <==> node_aktiv(g.node_genes@, d)
        && vekter_inn(g.weight_genes@, d).len() > 0
    &&& forall|d: i32| #[trigger] m.contains_key(d) ==> m[d]@ == vekter_inn(g.weight_genes@, d)
}

/// Om noden med innovasjonsnummer `id` er påslått.
fn node_er_aktiv(noder: &Vec<NodeGene>, id: i32) -> (r: bool)
    requires
        unike_ider(noder@),
        har_node(noder@, id),
    ensures
        r == node_aktiv(noder@, id),
{
    let mut i: usize = 0;
    while i < noder.len()
        invariant
            i <= noder@.len(),
            unike_ider(noder@),
            har_node(noder@, id),
            forall|a: int| 0 <= a < i ==> noder@[a].innovation_number != id,
        decreases noder@.len() - i,
    {
        if noder[i].innovation_number == id {
            return noder[i].enabled;
        }
        i = i + 1;
    }
    proof {
        let a = choose|a: int| 0 <= a < noder@.len() && noder@[a].innovation_number == id;
        assert(false);
    }
    false
}

impl Genome {
    /// De påslåtte vektene gruppert etter destinasjonsnode; inaktive
    /// destinasjonsnoder får ingen oppføring.
    pub fn faa_aktive_vekter_per_aktive_destinasjonsnode(&self) -> (m: HashMap<i32, Vec<WeightGene>>)
        requires
            destinasjoner_finnes(*self),
        ensures
            er_aktive_vekter(m@, *self),
    {
        let mut m: HashMap<i32, Vec<WeightGene>> = HashMap::new();
        let mut k: usize = 0;
        while k < self.weight_genes.len()
            invariant
                k <= self.weight_genes@.len(),
                destinasjoner_finnes(*self),
                forall|d: i32| #[trigger] m@.contains_key(d) <==> node_aktiv(self.node_genes@, d)
                    && vekter_inn(self.weight_genes@.take(k as int), d).len() > 0,
                forall|d: i32| #[trigger] m@.contains_key(d) ==> m@[d]@ == vekter_inn(self.weight_genes@.take(k as int), d),
            decreases self.weight_genes@.len() - k,
        {
            let weight = self.weight_genes[k];
            let ghost fore = self.weight_genes@.take(k as int);
            let ghost etter = self.weight_genes@.take(k + 1);
            proof {
                assert(etter.drop_last() =~= fore);
                assert(etter.last() == weight);
            }
            if weight.enabled {
                let d = weight.destinasjonsnode;
                if node_er_aktiv(&self.node_genes, d) {
                    match m.remove(&d) {
                        Some(liste) => {
                            let mut liste = liste;
                            liste.push(weight);
                            m.insert(d, liste);
                        },
                        None => {
                            let mut liste: Vec<WeightGene> = Vec::new();
                            liste.push(weight);
                            m.insert(d, liste);
                        },
                    }
                    proof {
                        assert forall|e: i32| #[trigger] m@.contains_key(e) <==> node_aktiv(self.node_genes@, e)
                            && vekter_inn(etter, e).len() > 0 by {
                            if e != d {
                                assert(vekter_inn(etter, e) == vekter_inn(fore, e));
                            }
                        }
                        assert forall|e: i32| #[trigger] m@.contains_key(e) implies m@[e]@ == vekter_inn(etter, e) by {
                            if e != d {
                                assert(vekter_inn(etter, e) == vekter_inn(fore, e));
                            }
                        }
                    }
                } else {
                    proof {
                        assert forall|e: i32| #[trigger] m@.contains_key(e) <==> node_aktiv(self.node_genes@, e)
                            && vekter_inn(etter, e).len() > 0 by {
                            if e != d {
                                assert(vekter_inn(etter, e) == vekter_inn(fore, e));
                            } else {
                                assert(vekter_inn(etter, e).len() == vekter_inn(fore, e).len() + 1);
                            }
                        }
                        assert forall|e: i32| #[trigger] m@.contains_key(e) implies m@[e]@ == vekter_inn(etter, e) by {
                            assert(e != d);
                            assert(vekter_inn(etter, e) == vekter_inn(fore, e));
                        }
                    }
                }
            } else {
                proof {
                    assert forall|e: i32| vekter_inn(etter, e) == vekter_inn(fore, e) by {}
                }
            }
            k = k + 1;
        }
        proof {
            assert(self.weight_genes@.take(k as int) =~= self.weight_genes@);
        }
        m
    }
}

} // verus!
