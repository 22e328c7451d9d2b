use affut::partie::Partie;
use affut::puits::{chance_du_puisard, Recompense, ESPECE_DU_PUITS};

#[test]
fn le_fond_remonte_plus_volontiers_pour_une_offrande_rare() {
    assert_eq!(chance_du_puisard(0), 3);
    assert_eq!(chance_du_puisard(1), 3);
    assert_eq!(chance_du_puisard(2), 10);
    assert_eq!(chance_du_puisard(3), 30);
    assert_eq!(chance_du_puisard(4), 80);
}

#[test]
fn un_commun_rend_rien_des_baies_ou_de_la_monnaie() {
    // espèce 0 : un commun de la forêt
    let g0 = Partie::neuve();
    let mut g = g0;
    assert_eq!(g.recompense_du_puits(0, 0, 999, 0, false, 100, 3).0, Recompense::Rien);
    assert_eq!(g, g0, "rien ne remonte, rien ne change");

    let mut g = g0;
    assert_eq!(g.recompense_du_puits(0, 0, 999, 0, false, 500, 3).0, Recompense::Appats { bt: 0, n: 4 });
    assert_eq!(g.baits[0], g0.baits[0] + 4);

    let mut g = g0;
    assert_eq!(g.recompense_du_puits(0, 0, 999, 0, false, 900, 3).0, Recompense::Ecus(50), "50 écus au moins");
    assert_eq!(g.ecus, g0.ecus + 50);

    let mut g = g0;
    assert_eq!(g.recompense_du_puits(0, 0, 999, 0, false, 900, 10).0, Recompense::Ecus(120));
    assert_eq!(g.ecus, g0.ecus + 120);
    assert_eq!(g.total_earned, g0.total_earned + 120);
}

#[test]
fn un_beau_rang_pousse_le_tirage() {
    let g0 = Partie::neuve();
    // rang S : +240 pour mille
    let mut g = g0;
    assert_eq!(g.recompense_du_puits(0, 3, 999, 0, false, 100, 3).0, Recompense::Rien);
    let mut g = g0;
    assert_eq!(g.recompense_du_puits(0, 3, 999, 0, false, 120, 3).0, Recompense::Appats { bt: 0, n: 3 });
    let mut g = g0;
    assert_eq!(g.recompense_du_puits(0, 3, 999, 0, false, 990, 3).0, Recompense::Ecus(50), "le tirage plafonne à 999");
    // un peu commun rend de la viande
    let mut g = g0;
    assert_eq!(g.recompense_du_puits(5, 1, 999, 0, false, 700, 9).0, Recompense::Appats { bt: 1, n: 5 });
    assert_eq!(g.baits[1], g0.baits[1] + 5);
}

#[test]
fn les_offrandes_rares_paient_mieux() {
    let g0 = Partie::neuve();
    // un rare : une bourse, ou des truffes
    let mut g = g0;
    assert_eq!(g.recompense_du_puits(8, 0, 999, 0, false, 100, 30).0, Recompense::Ecus(540));
    let mut g = g0;
    assert_eq!(g.recompense_du_puits(8, 0, 999, 0, false, 100, 20).0, Recompense::Ecus(500), "500 écus au moins");
    let mut g = g0;
    assert_eq!(g.recompense_du_puits(8, 0, 999, 0, false, 600, 30).0, Recompense::Appats { bt: 3, n: 3 });
    // un épique : breloque, grosse bourse ou essence
    let mut g = g0;
    assert_eq!(g.recompense_du_puits(11, 0, 999, 0, false, 100, 150).0, Recompense::Breloque);
    assert_eq!(g.charms, g0.charms + 1);
    let mut g = g0;
    assert_eq!(g.recompense_du_puits(11, 0, 999, 0, false, 500, 150).0, Recompense::Ecus(3000));
    let mut g = g0;
    assert_eq!(g.recompense_du_puits(11, 0, 999, 0, false, 800, 150).0, Recompense::Appats { bt: 4, n: 2 });
    // un légendaire : une licence, ou une breloque
    let mut g = g0;
    assert_eq!(g.recompense_du_puits(12, 0, 999, 0, false, 100, 900).0, Recompense::Licence);
    assert_eq!(g.licences, g0.licences + 1);
    let mut g = g0;
    assert_eq!(g.recompense_du_puits(12, 0, 999, 0, false, 300, 900).0, Recompense::Breloque);
}

#[test]
fn ce_qui_dort_au_fond_remonte_au_rang_b_au_moins() {
    let g0 = Partie::neuve();
    let mut g = g0;
    let (rec, _) = g.recompense_du_puits(12, 0, 79, 1, true, 500, 900);
    assert_eq!(rec, Recompense::Remontee { rang: 2, shiny: true });
    assert_eq!(g.dex[ESPECE_DU_PUITS].n, 1);
    assert_eq!(g.captures, g0.captures + 1);
    assert_eq!(g.shinies, g0.shinies + 1);
    assert_eq!(g.inv[ESPECE_DU_PUITS].ts(), 1);
    // juste au-dessus de la chance : le puits rend selon le second tirage
    let mut g = g0;
    assert_eq!(g.recompense_du_puits(12, 0, 80, 1, true, 100, 900).0, Recompense::Licence);
    // un commun n'a que trois chances sur mille
    let mut g = g0;
    assert_eq!(g.recompense_du_puits(0, 0, 2, 3, false, 100, 3).0, Recompense::Remontee { rang: 3, shiny: false });
}
