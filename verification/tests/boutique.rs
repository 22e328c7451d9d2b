use affut::partie::Partie;

#[test]
fn la_boutique_ne_propose_que_ce_qui_reste_en_reserve() {
    let mut g = Partie::neuve();
    assert!(g.ventes().is_empty(), "réserve vide, rien à vendre");
    g.ajouter_specimen(5, false, 0);
    g.ajouter_specimen(0, false, 2);
    g.ajouter_specimen(14, true, 0);
    g.ajouter_specimen(114, false, 1);
    let v = g.ventes();
    assert_eq!(v, vec![(0, vec![0, 5]), (1, vec![14]), (11, vec![114])], "par biome, puis par rareté");
    // le commun vendu, il quitte la liste
    let mut r = g.inv[0];
    r.m = [0; 4];
    r.f = [0; 4];
    g.inv[0] = r;
    assert_eq!(g.ventes()[0], (0, vec![5]));
}
