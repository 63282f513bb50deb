use ai_gym::genome::{new_random_genome, Genome, InnovationNumberGlobalCounter};
use ai_gym::populasjon::{
    create_new_children, get_best_elite, kill_worst_individuals, sort_best_to_worst, ANT_INDIVIDER_SOM_OVERLEVER_HVER_GENERASJON,
    ANT_PARENTS_HVER_GENERASJON, START_POPULATION_SIZE,
};

fn genom(teller: &mut InnovationNumberGlobalCounter, stamfar: i32) -> Genome {
    let mut g = new_random_genome(1, 1, teller);
    g.original_ancestor_id = stamfar;
    g.allowed_to_change = false;
    g
}

#[test]
fn konstantene_for_populasjonen() {
    assert_eq!(START_POPULATION_SIZE, 3);
    assert_eq!(ANT_INDIVIDER_SOM_OVERLEVER_HVER_GENERASJON, 5);
    assert_eq!(ANT_PARENTS_HVER_GENERASJON, 3);
}

#[test]
fn sortering_fra_best_til_daarligst_er_stabil() {
    assert_eq!(sort_best_to_worst(&vec![1, 5, 3, 5]), vec![1, 3, 2, 0]);
    assert_eq!(sort_best_to_worst(&vec![-2, -7, 0]), vec![2, 0, 1]);
    assert_eq!(sort_best_to_worst(&vec![]), Vec::<usize>::new());
}

#[test]
fn to_sorteringer_av_samme_poeng_er_like() {
    let poeng = vec![4, 4, 9, -1, 4, 9];
    let a = sort_best_to_worst(&poeng);
    let b = sort_best_to_worst(&poeng);
    assert_eq!(a, b);
    assert_eq!(a, vec![2, 5, 0, 1, 4, 3]);
}

#[test]
fn eliten_er_den_foerste_av_de_beste() {
    assert_eq!(get_best_elite(&vec![3, 8, 1, 8]), 1);
    assert_eq!(get_best_elite(&vec![7]), 0);
    assert_eq!(get_best_elite(&vec![-5, -4, -4]), 1);
}

#[test]
fn de_daarligste_utover_fem_drepes_daarligst_foerst() {
    assert_eq!(kill_worst_individuals(&vec![10, 2, 30, 4, 50, 6, 70]), vec![1, 3]);
    assert_eq!(kill_worst_individuals(&vec![1, 1, 1, 1, 1, 1]), vec![0]);
}

#[test]
fn ingen_drepes_naar_fem_eller_faerre() {
    assert_eq!(kill_worst_individuals(&vec![1, 2, 3, 4, 5]), Vec::<usize>::new());
    assert_eq!(kill_worst_individuals(&vec![]), Vec::<usize>::new());
}

#[test]
fn barn_fyller_opp_til_startstoerrelsen() {
    let mut teller = InnovationNumberGlobalCounter { count: 0 };
    let genomer = vec![genom(&mut teller, 11)];
    let (foreldre, barn) = create_new_children(&genomer, &vec![5]);
    assert_eq!(barn.len(), 2);
    assert_eq!(foreldre, vec![0, 0]);
    for b in &barn {
        assert_eq!(b.original_ancestor_id, 11);
        assert!(b.allowed_to_change);
        assert_eq!(b.node_genes.len(), 2);
        assert_eq!(b.weight_genes.len(), 1);
    }
}

#[test]
fn barn_kommer_fra_de_tre_beste() {
    let mut teller = InnovationNumberGlobalCounter { count: 0 };
    let genomer = vec![genom(&mut teller, 1), genom(&mut teller, 2)];
    for _ in 0..20 {
        let (foreldre, barn) = create_new_children(&genomer, &vec![3, 9]);
        assert_eq!(barn.len(), 1);
        assert_eq!(foreldre.len(), 1);
        assert!(foreldre[0] < 2);
        assert_eq!(barn[0].original_ancestor_id, genomer[foreldre[0]].original_ancestor_id);
        assert!(barn[0].allowed_to_change);
    }
}

#[test]
fn full_populasjon_gir_ingen_barn() {
    let mut teller = InnovationNumberGlobalCounter { count: 0 };
    let genomer = vec![genom(&mut teller, 1), genom(&mut teller, 2), genom(&mut teller, 3), genom(&mut teller, 4)];
    let (foreldre, barn) = create_new_children(&genomer, &vec![1, 2, 3, 4]);
    assert!(barn.is_empty());
    assert!(foreldre.is_empty());
}

#[test]
fn populasjonen_fylles_opp_etter_et_steg() {
    let mut teller = InnovationNumberGlobalCounter { count: 0 };
    for n in 1..9usize {
        let poeng: Vec<i64> = (0..n as i64).collect();
        let drepes = kill_worst_individuals(&poeng);
        let overlever: Vec<usize> = (0..n).filter(|i| !drepes.contains(i)).collect();
        let genomer: Vec<Genome> = overlever.iter().map(|i| genom(&mut teller, *i as i32)).collect();
        let overlevende_poeng: Vec<i64> = overlever.iter().map(|i| poeng[*i]).collect();
        let (_, barn) = create_new_children(&genomer, &overlevende_poeng);
        assert_eq!(overlever.len(), n.min(5));
        assert_eq!(overlever.len() + barn.len(), n.min(5).max(3));
    }
}
