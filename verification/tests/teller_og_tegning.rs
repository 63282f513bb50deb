use ai_gym::genome::{Genome, NodeGene, WeightGene};
use ai_gym::teller::{add_one_to_simulation_running_teller, oppdater_bevy_simulation_tellertekst, CounterResource, SimulationTotalRuntimeRunningTeller};
use ai_gym::tegning::{forbindelser_som_tegnes, kordinater_per_node};
use std::collections::HashMap;

fn node(id: i32) -> NodeGene {
    NodeGene { innovation_number: id, enabled: true, inputnode: false, outputnode: false, layer: 0, label: String::new() }
}

fn vekt(kilde: i32, destinasjon: i32) -> WeightGene {
    WeightGene { enabled: true, kildenode: kilde, destinasjonsnode: destinasjon }
}

#[test]
fn telleren_starter_paa_null_og_teller_opp() {
    let mut t = SimulationTotalRuntimeRunningTeller::default();
    assert_eq!(t.counter_count_value(), 0);
    add_one_to_simulation_running_teller(&mut t);
    add_one_to_simulation_running_teller(&mut t);
    assert_eq!(t.counter_count_value(), 2);
    t.increment_counter_by_one();
    assert_eq!(t.count, 3);
}

#[test]
fn tellerteksten() {
    let t = SimulationTotalRuntimeRunningTeller { count: 4210 };
    assert_eq!(oppdater_bevy_simulation_tellertekst(&t), "Simulation Counter: 4210");
    let t = SimulationTotalRuntimeRunningTeller { count: 0 };
    assert_eq!(oppdater_bevy_simulation_tellertekst(&t), "Simulation Counter: 0");
}

fn genom() -> Genome {
    Genome {
        node_genes: vec![node(1), node(2), node(3), node(9)],
        weight_genes: vec![vekt(1, 3), vekt(2, 3), vekt(9, 3), vekt(1, 2)],
        original_ancestor_id: 0,
        allowed_to_change: true,
    }
}

#[test]
fn nodene_plasseres_lag_for_lag() {
    let g = genom();
    let mut lag_per_node = HashMap::new();
    lag_per_node.insert(3, 0);
    lag_per_node.insert(1, 1);
    lag_per_node.insert(2, 1);
    let lagene = vec![vec![3], vec![2, 1]];
    let punkter = kordinater_per_node(&g, &lag_per_node, &lagene);
    assert_eq!(punkter.len(), 3);
    assert_eq!(punkter[&3], (-150, 0));
    assert_eq!(punkter[&2], (-350, 0));
    assert_eq!(punkter[&1], (-350, 100));
    assert!(!punkter.contains_key(&9));
}

#[test]
fn bare_forbindelser_mellom_plasserte_noder_tegnes() {
    let g = genom();
    let mut punkter = HashMap::new();
    punkter.insert(1, (-350i64, 100usize));
    punkter.insert(2, (-350, 0));
    punkter.insert(3, (-150, 0));
    assert_eq!(forbindelser_som_tegnes(&g, &punkter), vec![0, 1, 3]);
    assert_eq!(forbindelser_som_tegnes(&g, &HashMap::new()), Vec::<usize>::new());
}

#[test]
fn tellerteksten_for_det_stoerste_tallet() {
    let t = SimulationTotalRuntimeRunningTeller { count: u32::MAX };
    assert_eq!(oppdater_bevy_simulation_tellertekst(&t), "Simulation Counter: 4294967295");
}
