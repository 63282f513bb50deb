use ai_gym::genome::{Genome, InnovationNumberGlobalCounter, NodeGene, WeightGene};
use ai_gym::mutasjoner::{
    lock_mutation_stability, mutate_existing_nodes_arc, mutate_existing_weights_value_and_paa_av, mutate_genome, mutate_genomes,
    mutate_new_node_in_middle_mutation, MutasjonsValg,
};

fn node(id: i32, enabled: bool, inputnode: bool, outputnode: bool) -> NodeGene {
    NodeGene { innovation_number: id, enabled, inputnode, outputnode, layer: 0, label: String::new() }
}

fn vekt(kilde: i32, destinasjon: i32, enabled: bool) -> WeightGene {
    WeightGene { enabled, kildenode: kilde, destinasjonsnode: destinasjon }
}

fn lite_genom() -> Genome {
    Genome {
        node_genes: vec![node(1, true, true, false), node(2, true, false, true)],
        weight_genes: vec![vekt(1, 2, true)],
        original_ancestor_id: 9,
        allowed_to_change: true,
    }
}

#[test]
fn utgangsnoder_slaas_aldri_av() {
    let mut noder = vec![node(1, true, true, false), node(2, true, false, true), node(3, false, false, false)];
    mutate_existing_nodes_arc(&mut noder, &vec![true, true, true]);
    assert!(!noder[0].enabled);
    assert!(noder[1].enabled);
    assert!(noder[2].enabled);
}

#[test]
fn noder_som_ikke_velges_er_uroert() {
    let mut noder = vec![node(1, true, true, false), node(3, false, false, false)];
    mutate_existing_nodes_arc(&mut noder, &vec![false, false]);
    assert!(noder[0].enabled && !noder[1].enabled);
}

#[test]
fn vekter_snus_der_det_er_valgt() {
    let mut vekter = vec![vekt(1, 2, true), vekt(1, 3, false), vekt(2, 3, true)];
    mutate_existing_weights_value_and_paa_av(&mut vekter, &vec![true, true, false]);
    assert!(!vekter[0].enabled);
    assert!(vekter[1].enabled);
    assert!(vekter[2].enabled);
    assert_eq!((vekter[1].kildenode, vekter[1].destinasjonsnode), (1, 3));
}

#[test]
fn deling_setter_inn_en_ny_node_i_midten() {
    let mut g = lite_genom();
    let mut teller = InnovationNumberGlobalCounter { count: 2 };
    mutate_new_node_in_middle_mutation(&mut g, &mut teller, &vec![true]);
    assert_eq!(teller.count, 4);
    assert_eq!(g.node_genes.len(), 3);
    let midt = &g.node_genes[2];
    assert_eq!(midt.innovation_number, 4);
    assert_eq!(midt.label, "3");
    assert!(midt.enabled && !midt.inputnode && !midt.outputnode);
    assert_eq!(g.weight_genes.len(), 2);
    assert_eq!((g.weight_genes[0].kildenode, g.weight_genes[0].destinasjonsnode, g.weight_genes[0].enabled), (1, 4, true));
    assert_eq!((g.weight_genes[1].kildenode, g.weight_genes[1].destinasjonsnode, g.weight_genes[1].enabled), (4, 2, true));
}

#[test]
fn deling_av_avslaatt_vekt_beholder_flagget() {
    let mut g = lite_genom();
    g.weight_genes[0].enabled = false;
    let mut teller = InnovationNumberGlobalCounter { count: 2 };
    mutate_new_node_in_middle_mutation(&mut g, &mut teller, &vec![true]);
    assert!(!g.weight_genes[0].enabled);
    assert!(g.weight_genes[1].enabled);
}

#[test]
fn to_delinger_tar_fire_tall_i_rekkefoelge() {
    let mut g = Genome {
        node_genes: vec![node(1, true, true, false), node(2, true, false, true), node(3, true, false, true)],
        weight_genes: vec![vekt(1, 2, true), vekt(1, 3, true)],
        original_ancestor_id: 0,
        allowed_to_change: true,
    };
    let mut teller = InnovationNumberGlobalCounter { count: 3 };
    mutate_new_node_in_middle_mutation(&mut g, &mut teller, &vec![true, true]);
    assert_eq!(teller.count, 7);
    assert_eq!(g.node_genes[3].innovation_number, 5);
    assert_eq!(g.node_genes[3].label, "4");
    assert_eq!(g.node_genes[4].innovation_number, 7);
    assert_eq!(g.node_genes[4].label, "6");
    assert_eq!(g.weight_genes[0].destinasjonsnode, 5);
    assert_eq!(g.weight_genes[1].destinasjonsnode, 7);
    assert_eq!((g.weight_genes[2].kildenode, g.weight_genes[2].destinasjonsnode), (5, 2));
    assert_eq!((g.weight_genes[3].kildenode, g.weight_genes[3].destinasjonsnode), (7, 3));
}

#[test]
fn ingen_deling_endrer_ingenting() {
    let mut g = lite_genom();
    let mut teller = InnovationNumberGlobalCounter { count: 2 };
    mutate_new_node_in_middle_mutation(&mut g, &mut teller, &vec![false]);
    assert_eq!(teller.count, 2);
    assert_eq!(g.node_genes.len(), 2);
    assert_eq!(g.weight_genes.len(), 1);
}

#[test]
fn elite_som_ikke_faar_endres_er_uroert() {
    let mut g = lite_genom();
    g.allowed_to_change = false;
    let mut teller = InnovationNumberGlobalCounter { count: 2 };
    let valg = MutasjonsValg { bytt_noder: vec![true, true], bytt_vekter: vec![true], del_vekter: vec![true] };
    mutate_genome(&mut g, &mut teller, &valg);
    assert_eq!(teller.count, 2);
    assert_eq!(g.node_genes.len(), 2);
    assert!(g.node_genes[0].enabled);
    assert!(g.weight_genes[0].enabled);
}

#[test]
fn mutasjon_snur_foer_den_deler() {
    let mut g = lite_genom();
    let mut teller = InnovationNumberGlobalCounter { count: 2 };
    let valg = MutasjonsValg { bytt_noder: vec![true, false], bytt_vekter: vec![true], del_vekter: vec![true] };
    mutate_genome(&mut g, &mut teller, &valg);
    assert!(!g.node_genes[0].enabled);
    assert!(!g.weight_genes[0].enabled);
    assert_eq!(g.weight_genes[0].destinasjonsnode, 4);
    assert!(g.weight_genes[1].enabled);
    assert_eq!(teller.count, 4);
}

#[test]
fn alle_genomer_muteres_etter_tur_med_delt_teller() {
    let mut genomer = vec![lite_genom(), lite_genom(), lite_genom()];
    genomer[1].allowed_to_change = false;
    let mut teller = InnovationNumberGlobalCounter { count: 2 };
    let valg = vec![
        MutasjonsValg { bytt_noder: vec![false, false], bytt_vekter: vec![false], del_vekter: vec![true] },
        MutasjonsValg { bytt_noder: vec![false, false], bytt_vekter: vec![false], del_vekter: vec![true] },
        MutasjonsValg { bytt_noder: vec![false, false], bytt_vekter: vec![false], del_vekter: vec![true] },
    ];
    mutate_genomes(&mut genomer, &mut teller, &valg);
    assert_eq!(teller.count, 6);
    assert_eq!(genomer[0].node_genes[2].innovation_number, 4);
    assert_eq!(genomer[1].node_genes.len(), 2);
    assert_eq!(genomer[2].node_genes[2].innovation_number, 6);
    assert_eq!(genomer[2].node_genes[2].label, "5");
}

#[test]
fn laasing_skrur_av_mutasjon_for_alle() {
    let mut genomer = vec![lite_genom(), lite_genom()];
    lock_mutation_stability(&mut genomer);
    assert!(genomer.iter().all(|g| !g.allowed_to_change));
    assert_eq!(genomer[0].original_ancestor_id, 9);
    assert_eq!(genomer[1].weight_genes.len(), 1);
}
