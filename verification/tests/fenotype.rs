use ai_gym::fenotype::{lag_lag_av_nevroner_sortert_fra_output, update_phenotype_network_for_changed_genomes, PhenotypeNeuralNetwork};
use ai_gym::genome::{new_random_genome, Genome, InnovationNumberGlobalCounter, NodeGene, WeightGene};

fn node(id: i32, enabled: bool, inputnode: bool, outputnode: bool) -> NodeGene {
    NodeGene { innovation_number: id, enabled, inputnode, outputnode, layer: 0, label: String::new() }
}

fn vekt(kilde: i32, destinasjon: i32, enabled: bool) -> WeightGene {
    WeightGene { enabled, kildenode: kilde, destinasjonsnode: destinasjon }
}

/// Innganger 1 og 2, skjult node 5, utgang 3: 1 -> 5 -> 3 og 2 -> 3.
fn genom_med_skjult_node() -> Genome {
    Genome {
        node_genes: vec![node(1, true, true, false), node(2, true, true, false), node(3, true, false, true), node(5, true, false, false)],
        weight_genes: vec![vekt(1, 5, true), vekt(5, 3, true), vekt(2, 3, true)],
        original_ancestor_id: 0,
        allowed_to_change: true,
    }
}

#[test]
fn nytt_nettverk_fra_tilfeldig_genom() {
    let mut teller = InnovationNumberGlobalCounter { count: 0 };
    let g = new_random_genome(2, 1, &mut teller);
    let nett = PhenotypeNeuralNetwork::new(&g);
    assert_eq!(nett.input_layer, vec![1, 2]);
    assert_eq!(nett.output_layer, vec![3]);
    assert_eq!(nett.ant_layers, 2);
    assert_eq!(nett.layers_ordered_output_to_input, vec![vec![3], vec![1, 2]]);
    assert_eq!(nett.node_to_layer[&3], 0);
    assert_eq!(nett.node_to_layer[&1], 1);
    assert_eq!(nett.node_to_layer[&2], 1);
    assert_eq!(nett.alle_vekter.len(), 2);
    assert_eq!(nett.weights_per_destination_node[&3].len(), 2);
}

#[test]
fn lagene_foelger_vektene_bakover_fra_utgangen() {
    let g = genom_med_skjult_node();
    let nett = PhenotypeNeuralNetwork::new(&g);
    assert_eq!(nett.layers_ordered_output_to_input, vec![vec![3], vec![5, 2], vec![1]]);
    assert_eq!(nett.node_to_layer[&1], 2);
    assert_eq!(nett.node_to_layer[&5], 1);
    assert_eq!(nett.ant_layers, 3);
}

#[test]
fn hver_node_i_et_lag_leder_inn_i_laget_foer() {
    let g = genom_med_skjult_node();
    let nett = PhenotypeNeuralNetwork::new(&g);
    for k in 1..nett.layers_ordered_output_to_input.len() {
        for n in &nett.layers_ordered_output_to_input[k] {
            let forrige = &nett.layers_ordered_output_to_input[k - 1];
            assert!(g.weight_genes.iter().any(|w| w.enabled && w.kildenode == *n && forrige.contains(&w.destinasjonsnode)));
        }
    }
}

#[test]
fn avslaatte_vekter_og_noder_kommer_ikke_med() {
    let mut g = genom_med_skjult_node();
    g.weight_genes[0].enabled = false;
    let nett = PhenotypeNeuralNetwork::new(&g);
    assert_eq!(nett.layers_ordered_output_to_input, vec![vec![3], vec![5, 2]]);
    assert!(!nett.node_to_layer.contains_key(&1));
    assert_eq!(nett.alle_vekter.len(), 2);
    g.node_genes[3].enabled = false;
    let nett = PhenotypeNeuralNetwork::new(&g);
    assert_eq!(nett.layers_ordered_output_to_input, vec![vec![3], vec![5, 2]]);
    assert!(!nett.weights_per_destination_node.contains_key(&5));
}

#[test]
fn sykel_gir_endelig_mange_lag() {
    let g = Genome {
        node_genes: vec![node(1, true, true, false), node(2, true, false, true), node(4, true, false, false)],
        weight_genes: vec![vekt(1, 4, true), vekt(4, 2, true), vekt(2, 4, true)],
        original_ancestor_id: 0,
        allowed_to_change: true,
    };
    let nett = PhenotypeNeuralNetwork::new(&g);
    assert_eq!(nett.layers_ordered_output_to_input, vec![vec![2], vec![4], vec![1, 2]]);
    assert_eq!(nett.node_to_layer[&2], 2);
    assert_eq!(nett.node_to_layer[&4], 1);
    assert_eq!(nett.node_to_layer[&1], 2);
    assert!(nett.ant_layers <= g.node_genes.len() + 1);
}

#[test]
fn lagdeling_direkte_fra_tabellen() {
    let g = genom_med_skjult_node();
    let wpd = g.faa_aktive_vekter_per_aktive_destinasjonsnode();
    let (lag_per_node, lag) = lag_lag_av_nevroner_sortert_fra_output(&g, &wpd);
    assert_eq!(lag, vec![vec![3], vec![5, 2], vec![1]]);
    assert_eq!(lag_per_node.len(), 4);
}

#[test]
fn bare_genomer_som_faar_endres_faar_nytt_nettverk() {
    let mut teller = InnovationNumberGlobalCounter { count: 0 };
    let a = new_random_genome(1, 1, &mut teller);
    let mut b = genom_med_skjult_node();
    b.allowed_to_change = false;
    let gammelt_a = PhenotypeNeuralNetwork::new(&genom_med_skjult_node());
    let gammelt_b = PhenotypeNeuralNetwork::new(&genom_med_skjult_node());
    let mut fenotyper = vec![gammelt_a, gammelt_b];
    update_phenotype_network_for_changed_genomes(&vec![a, b], &mut fenotyper);
    assert_eq!(fenotyper[0].layers_ordered_output_to_input, vec![vec![2], vec![1]]);
    assert_eq!(fenotyper[1].layers_ordered_output_to_input, vec![vec![3], vec![5, 2], vec![1]]);
}
