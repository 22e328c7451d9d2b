use affut::catalogue::{BIOME_DES_ESPECES, NB_ESPECES, RARETE_DES_ESPECES};
use affut::partie::{Expo, Partie};

const RAR_VAL: [f64; 5] = [3.0, 9.0, 30.0, 150.0, 900.0];
const BIOME_MULT: [f64; 14] = [1.0, 1.6, 2.5, 4.0, 6.5, 10.0, 13.0, 16.0, 20.0, 1.3, 3.2, 10.0, 18.0, 22.0];
const RANK_MULT: [f64; 4] = [1.0, 1.5, 2.2, 4.0];

/* ce que rapporte un spécimen dans une partie neuve (ni négoce, ni trophée,
   ni biome complété en shiny) */
fn valeur(ci: usize, shiny: bool, rang: usize) -> u64 {
    let mut v = RAR_VAL[RARETE_DES_ESPECES[ci] as usize] * BIOME_MULT[BIOME_DES_ESPECES[ci] as usize];
    if shiny {
        v *= 15.0;
    }
    let v = v.floor().max(1.0);
    (v * RANK_MULT[rang]).floor().max(1.0) as u64
}

fn valeurs() -> [[u64; 8]; 133] {
    let mut t = [[0u64; 8]; 133];
    for ci in 0..NB_ESPECES {
        for k in 0..8 {
            t[ci][k] = valeur(ci, k >= 4, k % 4);
        }
    }
    t
}

/* le garnissage automatique doit exposer exactement les pièces les mieux
   payées : rien en réserve ne doit rapporter plus qu'une pièce exposée. */
#[test]
fn le_musee_expose_les_specimens_les_mieux_payes() {
    let mut g = Partie::neuve();
    for ci in 0..20 {
        for r in 0..4 {
            g.ajouter_specimen(ci, false, r);
        }
    }
    g.ajouter_specimen(3, true, 3);
    // une pièce médiocre déjà exposée doit céder sa place
    g.museum[0] = g.inv[0].take_best(false).map(|(rank, sex)| Expo { ci: 0, rank, shiny: false, sex });

    let vals = valeurs();
    assert!(g.museum_optimize(&vals), "le musée aurait dû changer");
    let n = g.museum_slots();
    let exposes: Vec<u64> = g
        .museum
        .iter()
        .take(n)
        .filter_map(|m| m.as_ref())
        .map(|m| valeur(m.ci, m.shiny, m.rank))
        .collect();
    assert_eq!(exposes.len(), n, "toutes les salles devaient être garnies");
    let plancher = exposes.iter().cloned().min().unwrap();
    for ci in 0..NB_ESPECES {
        for shiny in [false, true] {
            for r in 0..4 {
                let iv = &g.inv[ci];
                let reste = if shiny { iv.sr(r) } else { iv.nr(r) };
                if reste > 0 {
                    let v = valeur(ci, shiny, r);
                    assert!(v <= plancher, "{} [{}] vaut {} et dort en réserve alors qu'une salle expose {}", ci, r, v, plancher);
                }
            }
        }
    }
    // idempotent : relancer ne bouge plus rien
    assert!(!g.museum_optimize(&vals), "un second passage ne devait rien changer");
}

#[test]
fn le_musee_ne_perd_ni_ne_cree_de_specimen() {
    let mut g = Partie::neuve();
    g.inv[7].m = [2, 0, 0, 1];
    g.inv[7].f = [0, 1, 0, 0];
    g.inv[12].sf = [0, 0, 0, 1];
    g.lab[7] = 6;
    let vals = valeurs();
    assert!(g.museum_optimize(&vals));
    let exposes = g.museum.iter().filter(|m| m.is_some()).count();
    assert_eq!(exposes, 5, "cinq spécimens pour douze salles : tous exposés");
    assert_eq!(g.inv[7].tn() + g.inv[12].ts(), 0);
    let premier = g.museum[0].unwrap();
    assert_eq!((premier.ci, premier.shiny, premier.rank), (12, true, 3), "le shiny légendaire d'abord");
    assert!(!g.museum_optimize(&vals));
    g.lab[7] = 0;
    assert!(!g.museum_optimize(&vals), "six salles suffisent à cinq pièces");
    assert_eq!(g.museum.iter().filter(|m| m.is_some()).count(), 5);
}
