use ai_gym::genome::{new_random_genome, Genome, InnovationNumberGlobalCounter, NodeGene, WeightGene};

fn node(id: i32, enabled: bool, inputnode: bool, outputnode: bool) -> NodeGene {
    NodeGene { innovation_number: id, enabled, inputnode, outputnode, layer: 0, label: format!("n{}", id) }
}

fn vekt(kilde: i32, destinasjon: i32, enabled: bool) -> WeightGene {
    WeightGene { enabled, kildenode: kilde, destinasjonsnode: destinasjon }
}

#[test]
fn get_number_teller_opp_og_gir_det_nye_tallet() {
    let mut teller = InnovationNumberGlobalCounter { count: 0 };
    assert_eq!(teller.get_number(), 1);
    assert_eq!(teller.get_number(), 2);
    assert_eq!(teller.count, 2);
}

#[test]
fn new_random_genome_med_to_innganger_og_en_utgang() {
    let mut teller = InnovationNumberGlobalCounter { count: 10 };
    let g = new_random_genome(2, 1, &mut teller);
    assert_eq!(teller.count, 13);
    assert_eq!(g.node_genes.len(), 3);
    assert_eq!(g.node_genes[0].innovation_number, 11);
    assert_eq!(g.node_genes[0].label, "input 0");
    assert!(g.node_genes[0].inputnode && !g.node_genes[0].outputnode && g.node_genes[0].enabled);
    assert_eq!(g.node_genes[1].innovation_number, 12);
    assert_eq!(g.node_genes[1].label, "input 1");
    assert_eq!(g.node_genes[2].innovation_number, 13);
    assert_eq!(g.node_genes[2].label, "output 0");
    assert!(g.node_genes[2].outputnode && !g.node_genes[2].inputnode);
    assert_eq!(g.weight_genes.len(), 2);
    assert_eq!((g.weight_genes[0].kildenode, g.weight_genes[0].destinasjonsnode), (11, 13));
    assert_eq!((g.weight_genes[1].kildenode, g.weight_genes[1].destinasjonsnode), (12, 13));
    assert!(g.weight_genes.iter().all(|w| w.enabled));
    assert!(g.allowed_to_change);
}

#[test]
fn new_random_genome_vekt_k_gaar_fra_inngang_k_delt_paa_utganger() {
    let mut teller = InnovationNumberGlobalCounter { count: 0 };
    let g = new_random_genome(2, 3, &mut teller);
    assert_eq!(g.weight_genes.len(), 6);
    for k in 0..6 {
        let w = g.weight_genes[k];
        assert_eq!(w.kildenode, 1 + (k / 3) as i32);
        assert_eq!(w.destinasjonsnode, 1 + 2 + (k % 3) as i32);
    }
    assert_eq!(g.node_genes[4].label, "output 2");
}

#[test]
fn new_random_genome_uten_noder() {
    let mut teller = InnovationNumberGlobalCounter { count: 4 };
    let g = new_random_genome(0, 0, &mut teller);
    assert_eq!(teller.count, 4);
    assert!(g.node_genes.is_empty());
    assert!(g.weight_genes.is_empty());
}

#[test]
fn default_for_hidden_bruker_telleren_og_merker_med_tallet() {
    let mut teller = InnovationNumberGlobalCounter { count: 5 };
    let n = NodeGene::default_for_hidden(&mut teller, 7);
    assert_eq!(teller.count, 6);
    assert_eq!(n.innovation_number, 6);
    assert_eq!(n.label, "7");
    assert!(n.enabled && !n.inputnode && !n.outputnode);
    assert_eq!(n.layer, 0);
}

#[test]
fn default_for_hidden_merker_negative_tall_med_minus() {
    let mut teller = InnovationNumberGlobalCounter { count: 0 };
    let n = NodeGene::default_for_hidden(&mut teller, -42);
    assert_eq!(n.label, "-42");
}

#[test]
fn nodegener_er_like_naar_innovasjonsnummeret_er_likt() {
    let a = node(3, true, true, false);
    let b = node(3, false, false, true);
    let c = node(4, true, true, false);
    assert!(a == b);
    assert!(a != c);
}

#[test]
fn neutral_default_for_hidden_gaar_fra_midten_til_slutten() {
    let slutt = node(9, true, false, true);
    let midt = node(12, true, false, false);
    let w = WeightGene::neutral_default_for_hidden(&slutt, &midt);
    assert!(w.enabled);
    assert_eq!(w.kildenode, 12);
    assert_eq!(w.destinasjonsnode, 9);
}

#[test]
fn clone_gir_samme_noder_med_lag_null_og_samme_vekter() {
    let mut n1 = node(1, true, true, false);
    n1.layer = 4;
    let g = Genome {
        node_genes: vec![n1, node(2, false, false, true)],
        weight_genes: vec![vekt(1, 2, false)],
        original_ancestor_id: 77,
        allowed_to_change: false,
    };
    let k = g.clone();
    assert_eq!(k.node_genes.len(), 2);
    assert_eq!(k.node_genes[0].innovation_number, 1);
    assert_eq!(k.node_genes[0].layer, 0);
    assert_eq!(k.node_genes[0].label, "n1");
    assert!(!k.node_genes[1].enabled && k.node_genes[1].outputnode);
    assert_eq!(k.weight_genes.len(), 1);
    assert_eq!((k.weight_genes[0].kildenode, k.weight_genes[0].destinasjonsnode, k.weight_genes[0].enabled), (1, 2, false));
    assert_eq!(k.original_ancestor_id, 77);
    assert!(!k.allowed_to_change);
}

#[test]
fn aktive_vekter_grupperes_per_paaslaatt_destinasjon() {
    let g = Genome {
        node_genes: vec![node(1, true, true, false), node(2, true, true, false), node(3, true, false, true), node(4, false, false, true)],
        weight_genes: vec![vekt(1, 3, true), vekt(2, 3, true), vekt(1, 4, true), vekt(2, 3, false)],
        original_ancestor_id: 0,
        allowed_to_change: true,
    };
    let m = g.faa_aktive_vekter_per_aktive_destinasjonsnode();
    assert_eq!(m.len(), 1);
    let inn = &m[&3];
    assert_eq!(inn.len(), 2);
    assert_eq!(inn[0].kildenode, 1);
    assert_eq!(inn[1].kildenode, 2);
    assert!(!m.contains_key(&4));
}

#[test]
fn en_klone_kan_klones_igjen() {
    let mut teller = InnovationNumberGlobalCounter { count: 0 };
    let g = new_random_genome(3, 2, &mut teller);
    let k = g.clone().clone();
    assert_eq!(k.node_genes.len(), 5);
    assert_eq!(k.weight_genes.len(), 6);
    for (a, b) in k.weight_genes.iter().zip(g.weight_genes.iter()) {
        assert_eq!((a.kildenode, a.destinasjonsnode, a.enabled), (b.kildenode, b.destinasjonsnode, b.enabled));
    }
}

#[test]
fn telleren_gjentar_aldri_et_tall() {
    let mut teller = InnovationNumberGlobalCounter { count: 40 };
    let tall: Vec<i32> = (0..5).map(|_| teller.get_number()).collect();
    assert_eq!(tall, vec![41, 42, 43, 44, 45]);
    for a in 0..tall.len() {
        for b in (a + 1)..tall.len() {
            assert!(tall[a] < tall[b]);
        }
    }
    assert_eq!(teller.count, 45);
}

#[test]
fn merkelapp_for_det_minste_tallet() {
    let mut teller = InnovationNumberGlobalCounter { count: 0 };
    let n = NodeGene::default_for_hidden(&mut teller, i32::MIN);
    assert_eq!(n.label, "-2147483648");
    let n = NodeGene::default_for_hidden(&mut teller, 0);
    assert_eq!(n.label, "0");
    let n = NodeGene::default_for_hidden(&mut teller, i32::MAX);
    assert_eq!(n.label, "2147483647");
}

#[test]
fn stamfar_merkelappen() {
    assert_eq!(ai_gym::tekst::stamfar_tekst(-12), "Ancestor_id -12, score:  ");
    assert_eq!(ai_gym::tekst::stamfar_tekst(7), "Ancestor_id 7, score:  ");
}
