use rand::seq::IndexedRandom;
use vstd::prelude::*;
use crate::genome::{Genome, kan_klones, er_klone_av};

verus! {

/// Hvor mange individer som startpopulasjonen har, og som populasjonen fylles opp til.
pub const START_POPULATION_SIZE: i32 = 3;

/// Hvor mange individer som overlever hver generasjon.
pub const ANT_INDIVIDER_SOM_OVERLEVER_HVER_GENERASJON: i32 = 5;

/// Hvor mange av de beste som kan bli foreldre.
pub const ANT_PARENTS_HVER_GENERASJON: usize = 3;

/// Individ `a` kommer før individ `b`: bedre poeng først når `synkende`, ellers
/// dårligere først; like poeng beholder opprinnelig rekkefølge.
pub open spec fn foran(poeng: Seq<i64>, synkende: bool, a: int, b: int) -> bool {
    if poeng[a] != poeng[b] {
        if synkende {
            poeng[a] > poeng[b]
        } else {
            poeng[a] < poeng[b]
        }
    } else {
        a < b
    }
}

/// `rek` er alle individene (0..poeng.len()) sortert stabilt etter poeng.
pub open spec fn er_sortert(rek: Seq<usize>, poeng: Seq<i64>, synkende: bool) -> bool {
    &&& rek.len() == poeng.len()
    &&& forall|i: int| 0 <= i < rek.len() ==> #[trigger] rek[i] < poeng.len()
    &&& forall|i: int, j: int| 0 <= i < j < rek.len() ==> foran(poeng, synkende, #[trigger] rek[i] as int, #[trigger] rek[j] as int)
    &&& forall|x: int| 0 <= x < poeng.len() ==> #[trigger] rek.contains(x as usize)
}

fn er_foran(poeng: &Vec<i64>, synkende: bool, a: usize, b: usize) -> (r: bool)
    requires
        a < poeng@.len(),
        b < poeng@.len(),
    ensures
        r == foran(poeng@, synkende, a as int, b as int),
{
    if poeng[a] != poeng[b] {
        if synkende {
            poeng[a] > poeng[b]
        } else {
            poeng[a] < poeng[b]
        }
    } else {
        a < b
    }
}

/// Stabil sortering av individene etter poeng (innsetting).
fn sorter_indekser(poeng: &Vec<i64>, synkende: bool) -> (rek: Vec<usize>)
    ensures
        er_sortert(rek@, poeng@, synkende),
{
    let n = poeng.len();
    let mut rek: Vec<usize> = Vec::new();
    let mut i: usize = 0;
    while i < n
        invariant
            n == poeng@.len(),
            i <= n,
            rek@.len() == i,
            forall|a: int| 0 <= a < rek@.len() ==> #[trigger] rek@[a] < i,
            forall|a: int, b: int|
                0 <= a < b < rek@.len() ==> foran(poeng@, synkende, #[trigger] rek@[a] as int, #[trigger] rek@[b] as int),
            forall|x: int| 0 <= x < i ==> #[trigger] rek@.contains(x as usize),
        decreases n - i,
    {
        let mut p: usize = 0;
        while p < rek.len() && er_foran(poeng, synkende, rek[p], i)
            invariant
                n == poeng@.len(),
                i < n,
                p <= rek@.len(),
                forall|a: int| 0 <= a < rek@.len() ==> #[trigger] rek@[a] < i,
                forall|a: int| 0 <= a < p ==> foran(poeng@, synkende, #[trigger] rek@[a] as int, i as int),
            decreases rek@.len() - p,
        {
            p = p + 1;
        }
        let ghost gammel = rek@;
        proof {
            if p < gammel.len() {
                assert(!foran(poeng@, synkende, gammel[p as int] as int, i as int));
                assert(gammel[p as int] < i);
                assert forall|b: int| p <= b < gammel.len() implies foran(poeng@, synkende, i as int, #[trigger] gammel[b] as int) by {
                    if b > p {
                        assert(foran(poeng@, synkende, gammel[p as int] as int, gammel[b] as int));
                    }
                }
            }
        }
        rek.insert(p, i);
        proof {
            assert forall|a: int| 0 <= a < rek@.len() implies #[trigger] rek@[a] < i + 1 by {
                if a < p {
                    assert(rek@[a] == gammel[a]);
                } else if a > p {
                    assert(rek@[a] == gammel[a - 1]);
                }
            }
            assert forall|a: int, b: int| 0 <= a < b < rek@.len() implies foran(poeng@, synkende, #[trigger] rek@[a] as int, #[trigger] rek@[b] as int) by {
                if a < p && b < p {
                    assert(rek@[a] == gammel[a] && rek@[b] == gammel[b]);
                } else if a < p && b == p {
                    assert(rek@[a] == gammel[a]);
                } else if a < p && b > p {
                    assert(rek@[a] == gammel[a] && rek@[b] == gammel[b - 1]);
                } else if a == p {
                    assert(rek@[b] == gammel[b - 1]);
                } else {
                    assert(rek@[a] == gammel[a - 1] && rek@[b] == gammel[b - 1]);
                }
            }
            assert forall|x: int| 0 <= x < i + 1 implies #[trigger] rek@.contains(x as usize) by {
                if x < i {
                    assert(gammel.contains(x as usize));
                    let a = choose|a: int| 0 <= a < gammel.len() && gammel[a] == x as usize;
                    if a < p {
                        assert(rek@[a] == x as usize);
                    } else {
                        assert(rek@[a + 1] == x as usize);
                    }
                } else {
                    assert(rek@[p as int] == i);
                }
            }
        }
        i = i + 1;
    }
    rek
}

/// To stabile sorteringer av de samme poengene er like: sorteringen er entydig.
pub proof fn lov_sortering_er_entydig(a: Seq<usize>, b: Seq<usize>, poeng: Seq<i64>, synkende: bool)
    requires
        er_sortert(a, poeng, synkende),
        er_sortert(b, poeng, synkende),
    ensures
        a == b,
{
    assert forall|i: int| 0 <= i < a.len() implies a[i] == b[i] by {
        lemma_lik_plass(a, b, poeng, synkende, i);
    }
    assert(a =~= b);
}

proof fn lemma_lik_plass(a: Seq<usize>, b: Seq<usize>, poeng: Seq<i64>, synkende: bool, i: int)
    requires
        er_sortert(a, poeng, synkende),
        er_sortert(b, poeng, synkende),
        0 <= i < a.len(),
    ensures
        a[i] == b[i],
    decreases i,
{
    assert forall|m: int| 0 <= m < i implies a[m] == b[m] by {
        lemma_lik_plass(a, b, poeng, synkende, m);
    }
    if a[i] != b[i] {
        let x = a[i];
        let y = b[i];
        let xi = x as int;
        let yi = y as int;
        assert(0 <= xi < poeng.len());
        assert(0 <= yi < poeng.len());
        assert(b.contains(xi as usize));
        let j = choose|j: int| 0 <= j < b.len() && b[j] == x;
        assert(a.contains(yi as usize));
        let k = choose|k: int| 0 <= k < a.len() && a[k] == y;
        if j < i {
            assert(a[j] == b[j]);
            assert(foran(poeng, synkende, a[j] as int, a[i] as int));
        }
        if k < i {
            assert(a[k] == b[k]);
            assert(foran(poeng, synkende, b[k] as int, b[i] as int));
        }
        assert(j > i && k > i);
        assert(foran(poeng, synkende, b[i] as int, b[j] as int));
        assert(foran(poeng, synkende, a[i] as int, a[k] as int));
    }
}

/// Populasjonen sortert fra best til dårligst (stabilt).
pub fn sort_best_to_worst(poeng: &Vec<i64>) -> (rek: Vec<usize>)
    ensures
        er_sortert(rek@, poeng@, true),
{
    sorter_indekser(poeng, true)
}

/// Eliten: individet med best poeng; ved likhet det første av dem.
pub fn get_best_elite(poeng: &Vec<i64>) -> (elite: usize)
    requires
        poeng@.len() > 0,
    ensures
        elite < poeng@.len(),
        forall|j: int| 0 <= j < poeng@.len() ==> poeng@[j] <= poeng@[elite as int],
        forall|j: int| 0 <= j < elite ==> poeng@[j] < poeng@[elite as int],
{
    let population = sorter_indekser(poeng, true);
    let elite = population[0];
    proof {
        assert forall|j: int| 0 <= j < poeng@.len() implies poeng@[j] <= poeng@[elite as int] && (j < elite ==> poeng@[j]
            < poeng@[elite as int]) by {
            assert(population@.contains(j as usize));
            let a = choose|a: int| 0 <= a < population@.len() && population@[a] == j as usize;
            if a > 0 {
                assert(foran(poeng@, true, population@[0] as int, population@[a] as int));
            }
        }
    }
    elite
}

/// Hvor mange som dør: alle utover de som overlever.
pub open spec fn antall_som_drepes(n: nat) -> nat {
    if n > ANT_INDIVIDER_SOM_OVERLEVER_HVER_GENERASJON {
        (n - ANT_INDIVIDER_SOM_OVERLEVER_HVER_GENERASJON) as nat
    } else {
        0
    }
}

/// De dårligste individene som skal fjernes, dårligst først: alle utover de
/// fem beste.
pub fn kill_worst_individuals(poeng: &Vec<i64>) -> (drepes: Vec<usize>)
    requires
        poeng@.len() <= i32::MAX,
    ensures
        exists|rek: Seq<usize>|
            er_sortert(rek, poeng@, false) && drepes@ == rek.take(antall_som_drepes(poeng@.len()) as int),
{
    let population = sorter_indekser(poeng, false);
    let forskjell: i32 = population.len() as i32 - ANT_INDIVIDER_SOM_OVERLEVER_HVER_GENERASJON;
    let number_of_individuals_to_kill: usize = if forskjell > 0 {
        forskjell as usize
    } else {
        0
    };
    let mut drepes: Vec<usize> = Vec::new();
    let mut i: usize = 0;
    while i < number_of_individuals_to_kill
        invariant
            number_of_individuals_to_kill == antall_som_drepes(poeng@.len()),
            number_of_individuals_to_kill <= population@.len(),
            i <= number_of_individuals_to_kill,
            drepes@ == population@.take(i as int),
        decreases number_of_individuals_to_kill - i,
    {
        drepes.push(population[i]);
        proof {
            assert(drepes@ =~= population@.take(i + 1));
        }
        i = i + 1;
    }
    drepes
}

/// `rand`: `IndexedRandom::choose` på foreldrelisten, med `rand::rng()`: et tilfeldig
/// element, eller `None` når listen er tom.
#[verifier::external_body]
fn velg_forelder(foreldre: &Vec<usize>) -> (r: Option<usize>)
    ensures
        r is None <==> foreldre@.len() == 0,
        r matches Some(x) ==> foreldre@.contains(x),
{
    foreldre.choose(&mut rand::rng()).copied()
}

/// `barn` er en klone av `forelder` som får muteres.
pub open spec fn er_barn_av(barn: Genome, forelder: Genome) -> bool {
    er_klone_av(Genome { allowed_to_change: forelder.allowed_to_change, ..barn }, forelder)
        && barn.allowed_to_change
}

/// Hvor mange nye barn som trengs for å fylle populasjonen opp igjen.
pub open spec fn antall_barn(n: nat) -> nat {
    if n < START_POPULATION_SIZE {
        (START_POPULATION_SIZE - n) as nat
    } else {
        0
    }
}

/// `b` er et barn av individet `forelder`, som er en av de tre første i
/// rangeringen `rek`.
pub open spec fn barn_fra_de_beste(b: Genome, forelder: usize, genomer: Seq<Genome>, rek: Seq<usize>) -> bool {
    &&& exists|p: int| 0 <= p < rek.len() && p < ANT_PARENTS_HVER_GENERASJON && #[trigger] rek[p] == forelder
    &&& forelder < genomer.len()
    &&& er_barn_av(b, genomer[forelder as int])
}

/// Hvert barn er et barn av forelderen sin, og hver forelder er en av de tre
/// første i rangeringen `rek`.
pub open spec fn barn_av_de_beste(barn: Seq<Genome>, foreldre: Seq<usize>, genomer: Seq<Genome>, rek: Seq<usize>) -> bool {
    &&& foreldre.len() == barn.len()
    &&& forall|c: int| 0 <= c < barn.len() ==> #[trigger] barn_fra_de_beste(barn[c], foreldre[c], genomer, rek)
}

/// Fyller populasjonen opp til startstørrelsen med kloner av tilfeldig valgte
/// foreldre blant de tre beste; barna får muteres. Gir også hvilket individ
/// hvert barn er klonet fra.
pub fn create_new_children(genomer: &Vec<Genome>, poeng: &Vec<i64>) -> (res: (Vec<usize>, Vec<Genome>))
    requires
        genomer@.len() == poeng@.len(),
        0 < genomer@.len() <= i32::MAX,
        forall|i: int| 0 <= i < genomer@.len() ==> kan_klones(#[trigger] genomer@[i]),
    ensures
        res.1@.len() == antall_barn(genomer@.len()),
        exists|rek: Seq<usize>|
            er_sortert(rek, poeng@, true) && #[trigger] barn_av_de_beste(res.1@, res.0@, genomer@, rek),
{
    let population = sorter_indekser(poeng, true);
    let mut parents: Vec<usize> = Vec::new();
    let ant_foreldre = if ANT_PARENTS_HVER_GENERASJON < population.len() {
        ANT_PARENTS_HVER_GENERASJON
    } else {
        population.len()
    };
    let mut n: usize = 0;
    while n < ant_foreldre
        invariant
            ant_foreldre <= population@.len(),
            n <= ant_foreldre,
            parents@ == population@.take(n as int),
        decreases ant_foreldre - n,
    {
        parents.push(population[n]);
        proof {
            assert(parents@ =~= population@.take(n + 1));
        }
        n = n + 1;
    }
    let pop_to_fill: i32 = START_POPULATION_SIZE - population.len() as i32;
    let mut barn: Vec<Genome> = Vec::new();
    let mut foreldre: Vec<usize> = Vec::new();
    let mut t: i32 = 0;
    while t < pop_to_fill
        invariant
            er_sortert(population@, poeng@, true),
            genomer@.len() == poeng@.len(),
            forall|i: int| 0 <= i < genomer@.len() ==> kan_klones(#[trigger] genomer@[i]),
            parents@ == population@.take(ant_foreldre as int),
            ant_foreldre == if ANT_PARENTS_HVER_GENERASJON < population@.len() {
                ANT_PARENTS_HVER_GENERASJON as int
            } else {
                population@.len() as int
            },
            population@.len() > 0,
            pop_to_fill == START_POPULATION_SIZE - population@.len(),
            0 <= t,
            pop_to_fill <= 0 ==> t == 0,
            pop_to_fill > 0 ==> t <= pop_to_fill,
            barn@.len() == t,
            barn_av_de_beste(barn@, foreldre@, genomer@, population@),
        decreases pop_to_fill - t,
    {
        let valgt = velg_forelder(&parents);
        let parent: usize = match valgt {
            Some(x) => x,
            None => {
                proof {
                    assert(false);
                }
                0
            },
        };
        let ghost p = choose|p: int| 0 <= p < parents@.len() && parents@[p] == parent;
        proof {
            assert(population@[p] == parent);
            assert(parent < genomer@.len());
        }
        let mut new_genome = genomer[parent].clone();
        new_genome.allowed_to_change = true;
        let ghost gammel = barn@;
        let ghost gamle_foreldre = foreldre@;
        barn.push(new_genome);
        foreldre.push(parent);
        proof {
            assert forall|c: int| 0 <= c < barn@.len() implies #[trigger] barn_fra_de_beste(
                barn@[c],
                foreldre@[c],
                genomer@,
                population@,
            ) by {
                if c < gammel.len() {
                    assert(barn@[c] == gammel[c]);
                    assert(foreldre@[c] == gamle_foreldre[c]);
                    assert(barn_fra_de_beste(gammel[c], gamle_foreldre[c], genomer@, population@));
                } else {
                    assert(foreldre@[c] == parent);
                    assert(population@[p] == foreldre@[c]);
                    assert(p < ANT_PARENTS_HVER_GENERASJON);
                    assert(er_barn_av(barn@[c], genomer@[parent as int]));
                }
            }
            assert(foreldre@.len() == barn@.len());
            assert(barn_av_de_beste(barn@, foreldre@, genomer@, population@));
        }
        t = t + 1;
    }
    let res = (foreldre, barn);
    proof {
        assert(barn_av_de_beste(res.1@, res.0@, genomer@, population@));
    }
    res
}

/// Etter et evolusjonssteg er populasjonen fylt opp igjen: av `n` individer
/// overlever høyst fem, og barn fyller opp til startstørrelsen, så det blir
/// de fem beste når det var flere enn fem, ellers alle, men aldri færre enn tre.
pub proof fn lov_populasjonen_fylles_opp(n: nat)
    requires
        n >= 1,
    ensures
        ({
            let overlever = (n - antall_som_drepes(n)) as nat;
            let etter = overlever + antall_barn(overlever);
            &&& overlever == (if n > ANT_INDIVIDER_SOM_OVERLEVER_HVER_GENERASJON {
                ANT_INDIVIDER_SOM_OVERLEVER_HVER_GENERASJON as nat
            } else {
                n
            })
            &&& etter == (if overlever >= START_POPULATION_SIZE {
                overlever
            } else {
                START_POPULATION_SIZE as nat
            })
        }),
{
}

} // verus!
