use affut::battement::Affiches;
use affut::partie::Partie;

const JOUR: u64 = 86_400_000;

fn affiches_vides() -> Affiches {
    Affiches { contracts_window: 0, contracts: vec![], trades_window: 0, trades: vec![], trades_done: vec![], last_seen: 0 }
}

#[test]
fn le_premier_battement_affiche_les_contrats_et_offre_les_baies() {
    let mut g = Partie::neuve();
    let g0 = g;
    let mut aff = affiches_vides();
    let now = 20_000 * JOUR + 5 * 3_600_000;
    g.battement(&mut aff, now);
    assert_eq!(aff.last_seen, now);
    assert_eq!(aff.contracts_window, now / 7_200_000);
    assert_eq!(aff.contracts, g0.gen_contracts(now / 7_200_000));
    assert!(aff.trades.is_empty(), "rien de pris : pas de troc");
    assert_eq!(g.last_day as u64, now / JOUR);
    assert_eq!(g.streak, 1);
    assert_eq!(g.baits[0], g0.baits[0] + 1);

    // même fenêtre, même jour : rien ne bouge
    let (avant, contrats) = (g, aff.contracts.clone());
    g.battement(&mut aff, now + 60_000);
    assert_eq!(aff.contracts, contrats);
    assert_eq!(g.streak, avant.streak);
    assert_eq!(g.baits, avant.baits);
    assert_eq!(aff.last_seen, now + 60_000);
}

#[test]
fn le_lendemain_allonge_la_serie_et_renouvelle_le_troc() {
    let mut g = Partie::neuve();
    g.dex[0].n = 2;
    g.dex[1].n = 1;
    let mut aff = affiches_vides();
    let now = 20_000 * JOUR + 3_600_000;
    g.battement(&mut aff, now);
    assert!(!aff.trades.is_empty());
    assert_eq!(aff.trades_done, vec![false; aff.trades.len()]);
    g.contracts_done[0] = true;
    g.battement(&mut aff, now + JOUR);
    assert_eq!(g.streak, 2, "venu la veille : la série s'allonge");
    assert_eq!(aff.trades_window, (now + JOUR) / JOUR);
    assert_eq!(aff.trades, g.gen_trades((now + JOUR) / JOUR, now + JOUR));
    assert_eq!(g.contracts_done, [false; 3], "nouvelle fenêtre de contrats : les marques s'effacent");
}
