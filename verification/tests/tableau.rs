use affut::enclos::selecteur_enclos;
use affut::partie::{Partie, Pose};
use affut::tableau::EtatBiome;

#[test]
fn le_tableau_suit_la_progression_des_biomes() {
    let mut g = Partie::neuve();
    let now = 1_000_000u64;
    let v = g.biomes_du_tableau(now);
    let ordre: Vec<usize> = v
        .iter()
        .map(|e| match *e {
            EtatBiome::Verrouille { b, .. } => b,
            EtatBiome::Ouvert { b, .. } => b,
        })
        .collect();
    assert_eq!(ordre, vec![0, 9, 1, 2, 10, 3, 4, 5, 6, 7, 8]);
    assert_eq!(
        v[0],
        EtatBiome::Ouvert { b: 0, poses: 0, emplacements: 2, trouvees: 0, especes: 13, prochaine: None, appat_epuise: false }
    );
    assert_eq!(v[1], EtatBiome::Verrouille { b: 9, cout: 900, abordable: false });
    assert!(g.battues_pretes(now).is_empty(), "aucun piège posé");

    let mut t = g.biomes[0].unwrap();
    t.pl[0] = Some(Pose { trap: 0, bait: Some(1), next_at: now + 5_500 });
    t.pl[1] = Some(Pose { trap: 0, bait: None, next_at: now + 60_000 });
    g.biomes[0] = Some(t);
    g.dex[3].n = 2;
    g.ecus = 1000;
    let v = g.biomes_du_tableau(now);
    assert_eq!(
        v[0],
        EtatBiome::Ouvert { b: 0, poses: 2, emplacements: 2, trouvees: 1, especes: 13, prochaine: Some(5), appat_epuise: true }
    );
    assert_eq!(v[1], EtatBiome::Verrouille { b: 9, cout: 900, abordable: true });
    assert_eq!(g.battues_pretes(now), vec![0]);
}

#[test]
fn le_selecteur_de_l_enclos_trie_par_interet() {
    let mut g = Partie::neuve();
    g.inv[2].m[2] = 1;
    g.inv[2].f[2] = 1;
    g.inv[5].m[0] = 1;
    g.inv[5].f[0] = 1;
    g.inv[1].m[3] = 2;
    g.inv[3].m[1] = 1;
    g.inv[4].m[3] = 1;
    g.inv[4].f[3] = 1;
    g.dex[4].best = 4;
    assert_eq!(selecteur_enclos(&g.inv, &g.dex), vec![2, 5, 4, 1]);
}
