use affut::comptoir::{bornes_de_contrat, contrats_a_renouveler, demande_tiree, etal_de_tirages, merchant_stock, quantite_de_troc, vivier, MERCH_ITEMS};
use affut::catalogue::{BIOME_DES_ESPECES, CURIO_B, RARETE_DES_ESPECES};
use affut::partie::Partie;

const JOUR: u64 = 86_400_000;

#[test]
fn le_prix_du_troc_arrondit_au_dessus_entre_deux_et_quarante() {
    // 120 points contre un commun à 3 : pile 40
    assert_eq!(quantite_de_troc(114, 0), 40);
    // 2600 contre un légendaire à 900 : 2,9 arrondi à 3
    assert_eq!(quantite_de_troc(119, 12), 3);
    // 320 contre un peu commun à 9 : 35,6 arrondi à 36
    assert_eq!(quantite_de_troc(115, 5), 36);
    // 120 contre un rare à 30 : 4
    assert_eq!(quantite_de_troc(114, 8), 4);
    // 120 contre un épique à 150 : moins d'un, relevé à 2
    assert_eq!(quantite_de_troc(114, 11), 2);
    // 2600 contre un commun : plafonné à 40
    assert_eq!(quantite_de_troc(119, 0), 40);
}

#[test]
fn le_vivier_garde_les_calibres_voisins() {
    let cand = vec![0usize, 5, 8, 11];
    // une curiosité épique : rares et épiques seulement
    assert_eq!(vivier(&cand, 117), vec![8, 11]);
    // une curiosité légendaire : l'épique seul
    assert_eq!(vivier(&cand, 119), vec![11]);
    // une peu commune : tout le monde
    assert_eq!(vivier(&cand, 114), cand);
    // personne d'assez proche : on puise partout
    let communs = vec![0usize, 1];
    assert_eq!(vivier(&communs, 119), communs);
}

#[test]
fn une_demande_ne_se_repete_pas() {
    let out = vec![(0usize, 40u64, 114usize)];
    assert_eq!(demande_tiree(&out, 0, 115), None, "l'espèce est déjà demandée");
    assert_eq!(demande_tiree(&out, 1, 114), None, "la curiosité est déjà offerte");
    assert_eq!(demande_tiree(&out, 1, 115), Some((1, 40, 115)));
}

#[test]
fn pas_de_troc_sans_deux_especes_prises() {
    let mut g = Partie::neuve();
    assert!(g.gen_trades(7, 3 * JOUR).is_empty());
    g.dex[0].n = 1;
    assert!(g.gen_trades(7, 3 * JOUR).is_empty(), "une seule espèce ne suffit pas");
}

#[test]
fn les_demandes_du_jour_suivent_la_regle() {
    let mut g = Partie::neuve();
    g.dex[0].n = 3;
    g.dex[5].n = 1;
    g.dex[9].n = 2;
    for w in 0..40u64 {
        for now in [3 * JOUR, 4 * JOUR] {
            let out = g.gen_trades(w, now);
            let plafond = if (now / JOUR) % 4 == 0 { 6 } else { 3 };
            assert!(out.len() <= plafond);
            assert!(!out.is_empty(), "le premier tirage donne toujours une demande");
            for (k, &(want, qty, give)) in out.iter().enumerate() {
                assert!([0usize, 5, 9].contains(&want), "{} n'est pas demandable", want);
                assert_eq!(BIOME_DES_ESPECES[give], CURIO_B);
                assert_eq!(qty, quantite_de_troc(give, want));
                let proches: Vec<usize> = [0usize, 5, 9]
                    .iter()
                    .copied()
                    .filter(|&i| RARETE_DES_ESPECES[i] + 1 >= RARETE_DES_ESPECES[give])
                    .collect();
                if !proches.is_empty() {
                    assert!(proches.contains(&want), "{} trop loin du calibre de {}", want, give);
                }
                for &(w2, _, g2) in &out[..k] {
                    assert!(w2 != want && g2 != give, "doublon dans {:?}", out);
                }
            }
            assert_eq!(out, g.gen_trades(w, now), "le même jour donne les mêmes demandes");
        }
    }
}

#[test]
fn les_contrats_tombent_sur_les_communs_ouverts_faute_de_prises() {
    let g = Partie::neuve();
    for w in 0..30u64 {
        let out = g.gen_contracts(w);
        assert_eq!(out.len(), 3);
        for &(ci, qty) in &out {
            assert!(ci <= 4, "{} n'est pas un commun de la forêt", ci);
            assert!((4..=8).contains(&qty), "quantité {} pour un commun", qty);
        }
        assert_eq!(out, g.gen_contracts(w), "la même fenêtre donne les mêmes contrats");
        assert!(out[0].0 != out[1].0 && out[0].0 != out[2].0 && out[1].0 != out[2].0, "trois espèces distinctes");
    }
}

#[test]
fn les_contrats_visent_les_especes_deja_prises() {
    let mut g = Partie::neuve();
    for i in 5..12 {
        g.dex[i].n = 1;
    }
    for w in 0..30u64 {
        let out = g.gen_contracts(w);
        assert_eq!(out.len(), 3);
        for &(ci, qty) in &out {
            assert!((5..=10).contains(&ci), "{} n'est pas une candidate", ci);
            let (lo, hi) = if RARETE_DES_ESPECES[ci] == 1 { (3, 5) } else { (2, 3) };
            assert!(lo <= qty && qty <= hi, "quantité {} pour {}", qty, ci);
        }
    }
}

#[test]
fn les_bornes_des_contrats_par_rarete() {
    assert_eq!(bornes_de_contrat(0), (4, 8));
    assert_eq!(bornes_de_contrat(1), (3, 5));
    assert_eq!(bornes_de_contrat(2), (2, 3));
}

#[test]
fn le_marchand_etale_trois_articles_distincts_dans_l_ordre() {
    let mut vus = [false; 5];
    for w in 0..200u64 {
        let stock = merchant_stock(w);
        assert_eq!(stock.len(), 3);
        assert!(stock[0] < stock[1] && stock[1] < stock[2], "{:?}", stock);
        assert!(stock[2] < MERCH_ITEMS);
        assert_eq!(stock, merchant_stock(w), "le même passage étale les mêmes articles");
        for &i in &stock {
            vus[i] = true;
        }
    }
    assert!(vus.iter().all(|&v| v), "chaque article finit par être proposé");
}

#[test]
fn l_etal_suit_les_tirages_sans_remise() {
    assert_eq!(etal_de_tirages(0, 0, 0), vec![0, 1, 2]);
    assert_eq!(etal_de_tirages(4, 3, 2), vec![2, 3, 4]);
    assert_eq!(etal_de_tirages(2, 2, 0), vec![0, 2, 3]);
    assert_eq!(etal_de_tirages(1, 3, 1), vec![1, 2, 4]);
}

#[test]
fn les_affiches_se_renouvellent_a_leur_heure() {
    // contrats : toutes les deux heures, ou s'il n'y en a aucun
    assert!(!contrats_a_renouveler(3, 3 * 7_200_000 + 5, false));
    assert!(contrats_a_renouveler(3, 4 * 7_200_000, false));
    assert!(contrats_a_renouveler(3, 3 * 7_200_000, true));
    // troc : chaque jour, ou s'il est vide alors qu'une espèce a été prise
    let mut g = Partie::neuve();
    assert!(!g.troc_a_renouveler(5, 5 * JOUR + 10, true), "rien de pris, rien à demander");
    assert!(g.troc_a_renouveler(5, 6 * JOUR, false));
    g.dex[3].n = 1;
    assert!(g.troc_a_renouveler(5, 5 * JOUR + 10, true));
    assert!(!g.troc_a_renouveler(5, 5 * JOUR + 10, false));
}
