use affut::catalogue::{COUT_BIOMES, WILDB};
use affut::horloge::{jour_reel, puits_assoiffe};
use affut::commandes::{contract_need, Contrat};
use affut::partie::{Partie, Pose, SellQty, Terrain, COUT_PIEGES};
use affut::reserve::seuil_garde;
use affut::succes::RECOMPENSES;

fn now_ms() -> u64 {
    std::time::SystemTime::now().duration_since(std::time::UNIX_EPOCH).unwrap().as_millis() as u64
}

fn jeu_neuf() -> Partie {
    Partie::neuve()
}

fn poser_en_foret(g: &mut Partie) {
    let mut t = g.biomes[0].unwrap();
    t.pl[0] = Some(Pose { trap: 0, bait: None, next_at: 0 });
    g.biomes[0] = Some(t);
}

/* revente des pièges : deux garde-fous. un piège posé n'est pas en
   réserve, et se retrouver sans aucun piège avec zéro écu bloquerait la
   partie — un piège en bois neuf coûte plus que ce qu'en donne la reprise. */
#[test]
fn on_ne_revend_ni_le_dernier_piege_ni_un_piege_pose() {
    let reprise = COUT_PIEGES[0] / 2;

    // partie neuve : un seul piège en réserve, la vente doit être refusée
    let mut g = jeu_neuf();
    assert_eq!(g.traps.iter().sum::<u32>(), 1);
    let ecus = g.ecus;
    g.revendre_piege(0);
    assert_eq!(g.traps[0], 1, "le dernier piège doit rester");
    assert_eq!(g.ecus, ecus, "et ne rien rapporter");

    // deux pièges en réserve : la vente passe
    let mut g = jeu_neuf();
    g.traps[0] = 2;
    let ecus = g.ecus;
    g.revendre_piege(0);
    assert_eq!(g.traps[0], 1);
    assert_eq!(g.ecus, ecus + reprise);

    // deux pièges dont un posé : il reste bien un piège libre, ça passe
    let mut g = jeu_neuf();
    g.traps[0] = 2;
    poser_en_foret(&mut g);
    let ecus = g.ecus;
    g.revendre_piege(0);
    assert_eq!(g.traps[0], 1);
    assert_eq!(g.ecus, ecus + reprise);

    // un seul piège, posé : plus rien de libre, la vente est refusée
    let mut g = jeu_neuf();
    g.traps[0] = 1;
    poser_en_foret(&mut g);
    let ecus = g.ecus;
    g.revendre_piege(0);
    assert_eq!(g.traps[0], 1, "un piège posé n'est pas en réserve");
    assert_eq!(g.ecus, ecus);
}

/* un emplacement doit rester au prix d'un piège : adossé au prix du biome,
   le 4e emplacement des ruines coûtait deux fois le biome lui-même, soit
   1500 h d'économies pour un seul piège de plus. */
#[test]
fn un_emplacement_coute_le_prix_du_piege_quon_y_met() {
    let mut g = jeu_neuf();
    // partie neuve : un piège en bois, deux emplacements en forêt
    assert_eq!(g.slot_cost(0), COUT_PIEGES[0]);

    // le 4e emplacement est plus cher, mais reste du même ordre
    let t = g.biomes[0].unwrap();
    g.biomes[0] = Some(Terrain { slots: 3, ..t });
    assert!(g.slot_cost(0) <= COUT_PIEGES[0] * 3);

    // avec un piège quantique en réserve, l'emplacement suit — et reste
    // très en dessous du prix du biome le plus cher
    g.traps[5] = 1;
    let plus_cher = COUT_BIOMES.iter().copied().max().unwrap();
    for b in 0..WILDB as usize {
        assert!(
            g.slot_cost(b) < plus_cher,
            "un emplacement ({}) coûte plus cher que le biome le plus cher ({})",
            g.slot_cost(b),
            plus_cher
        );
    }
    assert_eq!(g.slot_cost(0), (COUT_PIEGES[5] as f64 * 2.5).floor() as u64);
}

/* le puits : une offrande par jour, dans sa fenêtre, et jamais un shiny. */
#[test]
fn le_puits_ne_boit_qu_une_fois_par_jour() {
    let mut g = jeu_neuf();
    let ci = 0;
    g.inv[ci].m[0] = 2;
    g.inv[ci].sm[0] = 1; // un shiny, qui ne doit jamais partir

    // hors fenêtre, rien ne se passe
    g.well_night = None;
    let avant = g.inv[ci].tn();
    let now = now_ms();
    if !puits_assoiffe(now) {
        g.sacrifier(ci, now);
        assert_eq!(g.inv[ci].tn(), avant, "le puits endormi ne prend rien");
        assert_eq!(g.sacrifices, 0);
    }

    /* on force la nuit en cours pour tester la suite sans dépendre de
       l'heure qu'il est : take_lowest_one et le verrou de nuit */
    let (rang, _) = g.inv[ci].take_lowest_one().expect("un spécimen doit partir");
    assert_eq!(rang, 0, "c'est le plus bas rang qui part");
    assert_eq!(g.inv[ci].tn(), avant - 1);
    assert_eq!(g.inv[ci].ts(), 1, "le shiny reste en réserve");

    // une fois servi, il ne prend plus rien de la journée et cesse de luire
    g.well_night = Some(jour_reel(now));
    assert!(g.well_used_tonight(now), "le jour doit être marqué");
    assert!(!g.puits_luit(now), "rassasié, le puits ne doit plus luire");
    /* une fenêtre de soif prise dans la journée réelle en cours : elles
       reviennent douze fois par jour, il y en a forcément une */
    let debut = jour_reel(now) * 86_400_000;
    let t_soif = (0..1440u64)
        .map(|k| debut + k * 60_000)
        .find(|&t| puits_assoiffe(t))
        .expect("le puits a soif douze fois par jour");
    assert!(!g.puits_luit(t_soif), "même assoiffé, il ne luit pas s'il a déjà bu");
    g.well_night = None;
    assert!(g.puits_luit(t_soif), "à jeun et assoiffé, la margelle bat");
    g.well_night = Some(jour_reel(now));
    let apres = g.inv[ci].tn();
    g.sacrifier(ci, now);
    assert_eq!(g.inv[ci].tn(), apres, "une seule offrande par jour");
}

/* la vente doit laisser de quoi reproduire : autant de couples que réglé,
   et les meilleurs, jamais les rebuts. */
#[test]
fn la_vente_epargne_les_couples_demandes() {
    let mut g = jeu_neuf();
    let ci = 0;
    // huit mâles et huit femelles, rangs mélangés
    for r in 0..4 {
        g.inv[ci].m[r] = 2;
        g.inv[ci].f[r] = 2;
    }
    g.autokeep = 3;
    let (vendus, _) = g.inv[ci].sell_surplus(0, g.autokeep);
    assert_eq!(vendus, 16 - 6, "trois couples restent en réserve");
    assert_eq!(g.inv[ci].tn(), 6);
    // et ce sont les meilleurs rangs qui restent
    assert_eq!(g.inv[ci].m[3], 2, "les deux mâles [S] restent");
    assert_eq!(g.inv[ci].f[3], 2, "les deux femelles [S] restent");
    assert_eq!(g.inv[ci].m[0] + g.inv[ci].f[0], 0, "les [C] sont partis");

    // le seuil de surplus suit le réglage
    g.autokeep = 1;
    assert_eq!(seuil_garde(g.autokeep, 0), 2);
    g.autokeep = 4;
    assert_eq!(seuil_garde(g.autokeep, 0), 8);
}

/* l'enclos consomme les plus bas rangs par défaut, mais le petit naît au
   meilleur rang de ses parents : viser un S doit rester possible. */
#[test]
fn l_enclos_laisse_choisir_le_rang_des_parents() {
    let mut g = jeu_neuf();
    let ci = 0;
    // un couple médiocre et un couple de rang S
    g.inv[ci].m[0] = 1;
    g.inv[ci].f[0] = 1;
    g.inv[ci].m[3] = 1;
    g.inv[ci].f[3] = 1;

    // le défaut prend bien les plus bas et laisse les S en réserve
    let now = 1_790_000_000_000;
    assert!(g.installer_couple(0, ci, None, now));
    assert_eq!(g.inv[ci].m[0], 0);
    assert_eq!(g.inv[ci].m[3], 1, "le S ne doit pas partir tout seul");
    assert_eq!(g.pens[0].as_ref().unwrap().r1, 0);

    // et le rang choisi consomme ce rang-là
    g.pens[0] = None;
    assert!(g.installer_couple(0, ci, Some(3), now));
    assert_eq!(g.inv[ci].m[3], 0, "le couple S choisi est consommé");
    let pen = g.pens[0].as_ref().unwrap();
    assert_eq!((pen.r1, pen.r2), (3, 3));

    // sans couple de rang B, rien ne s'installe
    g.pens[0] = None;
    assert!(!g.installer_couple(0, ci, Some(1), now), "sans couple de rang B, pas de couple");
}

/* le sélecteur de l'enclos doit conseiller le couple le plus utile :
   celui qui ferait progresser le registre, au meilleur rang disponible. */
#[test]
fn l_enclos_conseille_le_couple_le_plus_utile() {
    let mut g = jeu_neuf();
    // une espèce déjà au record, avec un beau couple
    g.inv[1].m[3] = 1;
    g.inv[1].f[3] = 1;
    g.dex[1].best = 4; // déjà [S] au registre
    // une autre, moins bien lotie, mais qui ferait progresser le registre
    g.inv[2].m[2] = 1;
    g.inv[2].f[2] = 1;
    g.dex[2].best = 1; // [C] au registre

    let (ci, rang) = g.meilleur_couple().expect("un couple doit être conseillé");
    assert_eq!(ci, 2, "le conseil doit viser ce qui fait progresser le registre");
    assert_eq!(rang, 2);
}

#[test]
fn un_achat_sans_le_sou_est_refuse() {
    let mut g = jeu_neuf();
    assert!(!g.acheter_piege(1), "30 écus ne paient pas une cage en fer");
    assert_eq!(g.ecus, 30);
    g.ecus = 1_000;
    assert!(g.acheter_piege(1));
    assert_eq!(g.ecus, 200);
    assert_eq!(g.traps[1], 1);
}

#[test]
fn acheter_puis_revendre_coute_la_moitie() {
    let mut g = jeu_neuf();
    g.ecus = 10_000;
    assert!(g.acheter_piege(2));
    assert!(g.revendre_piege(2));
    assert_eq!(g.ecus, 10_000 - 4_000);
    assert_eq!(g.traps, [1, 0, 0, 0, 0, 0]);
}

#[test]
fn les_appats_se_paient_a_l_unite() {
    let mut g = jeu_neuf();
    assert!(g.acheter_appats(0, 2));
    assert_eq!(g.ecus, 0);
    assert_eq!(g.baits[0], 2);
    assert!(!g.acheter_appats(0, 1), "plus un écu");
    assert!(!g.acheter_appats(4, u64::MAX), "un prix qui déborde ne se paie pas");
}

#[test]
fn le_labo_plafonne_chaque_recherche() {
    let mut g = jeu_neuf();
    g.ecus = 100_000;
    assert!(g.acheter_labo(5, 15_000), "l'auto-vente s'achète");
    assert_eq!(g.lab[5], 1);
    assert_eq!(g.ecus, 85_000);
    assert!(!g.acheter_labo(5, 15_000), "un seul niveau d'auto-vente");
    assert_eq!(g.ecus, 85_000);
}

#[test]
fn un_biome_s_ouvre_une_fois_et_les_terres_hors_carte_jamais() {
    let mut g = jeu_neuf();
    g.ecus = 3_000;
    assert!(g.debloquer(1), "le marais coûte 2 500 écus");
    assert_eq!(g.ecus, 500);
    let t = g.biomes[1].unwrap();
    assert_eq!(t.slots, 2);
    assert!(t.pl.iter().all(|p| p.is_none()));
    assert!(!g.debloquer(1), "déjà ouvert");
    g.ecus = u64::MAX / 2;
    assert!(!g.debloquer(11), "les curiosités n'ont pas de terrain");
    assert!(!g.debloquer(13), "on n'entre pas dans le puits");
}

#[test]
fn un_emplacement_de_plus_jusqu_a_quatre() {
    let mut g = jeu_neuf();
    g.ecus = 1_000;
    assert!(g.acheter_emplacement(0));
    assert_eq!(g.ecus, 960);
    assert_eq!(g.biomes[0].unwrap().slots, 3);
    assert!(g.acheter_emplacement(0), "le quatrième coûte deux fois et demie");
    assert_eq!(g.ecus, 860);
    assert!(!g.acheter_emplacement(0), "quatre au plus");
    assert!(!g.acheter_emplacement(1), "le marais est fermé");
}

#[test]
fn la_licence_limite_les_poses() {
    let mut g = jeu_neuf();
    g.traps[0] = 3;
    g.ecus = 1_000;
    assert_eq!(g.trap_cap(), 2);
    assert!(g.poser(0, 0, 0, 1_000, 60_000));
    assert!(g.poser(0, 1, 0, 1_000, 60_000));
    assert_eq!(g.placed_total(), 2);
    assert_eq!(g.placed_count(0), 2);
    assert_eq!(g.biomes[0].unwrap().pl[1].unwrap().next_at, 61_000);
    assert!(g.acheter_emplacement(0));
    assert!(!g.poser(0, 2, 0, 1_000, 60_000), "licence pleine");
    g.lab[12] = 1;
    assert!(g.poser(0, 2, 0, 1_000, 60_000));
    g.appater(0, 2, Some(4));
    assert_eq!(g.biomes[0].unwrap().pl[2].unwrap().bait, Some(4));
    g.retirer_piege(0, 2);
    assert!(g.biomes[0].unwrap().pl[2].is_none());
    assert_eq!(g.placed_total(), 2);
}

#[test]
fn la_garde_reste_entre_un_et_quatre() {
    let mut g = jeu_neuf();
    g.regler_garde(0);
    assert_eq!(g.autokeep, 1);
    g.regler_garde(9);
    assert_eq!(g.autokeep, 4);
    g.regler_garde(3);
    assert_eq!(g.autokeep, 3);
    g.basculer_autovente(2);
    assert!(g.autosell[2]);
}

#[test]
fn une_migration_rapporte_la_racine_des_gains() {
    let mut g = jeu_neuf();
    g.run_earned = 3_999_999;
    assert_eq!(g.trophy_gain(), 1);
    g.run_earned = 4_000_000;
    assert_eq!(g.trophy_gain(), 2);
    assert_eq!(g.migration_cost(), 100_000);
    g.migrations = 3;
    assert_eq!(g.migration_cost(), 800_000);
    g.migrations = 40;
    assert_eq!(g.migration_cost(), 100_000 * 4096);

    let mut g = jeu_neuf();
    g.run_earned = 999_999;
    g.ecus = 500_000;
    assert_eq!(g.migrer(), None, "moins d'un trophée : on ne part pas");

    let mut g = jeu_neuf();
    g.run_earned = 9_000_000;
    g.total_earned = 12_000_000;
    g.ecus = 500_000;
    g.traps[3] = 2;
    g.dex[0].n = 5;
    g.inv[0].m[0] = 5;
    g.ach[0] = true;
    assert_eq!(g.migrer(), Some(3));
    assert_eq!(g.trophies, 3);
    assert_eq!(g.migrations, 1);
    assert_eq!(g.ecus, 30);
    assert_eq!(g.run_earned, 0);
    assert_eq!(g.total_earned, 12_000_000, "les gains à vie restent");
    assert_eq!(g.traps, [1, 0, 0, 0, 0, 0]);
    assert_eq!(g.inv[0].tn(), 0);
    assert_eq!(g.dex[0].n, 5, "le registre reste");
    assert!(g.ach[0], "les succès restent");
    assert_eq!(g.migration_cost(), 200_000, "la suivante coûte le double");
}

#[test]
fn un_contrat_se_livre_une_fois_sans_le_meilleur_couple() {
    let mut g = jeu_neuf();
    let ci = 0;
    g.inv[ci].m = [3, 0, 0, 1];
    g.inv[ci].f = [2, 0, 1, 0];
    g.inv[ci].sm = [1, 0, 0, 0];
    assert_eq!(g.inv[ci].deliverable(), 5);
    assert!(!g.livrer(0, ci, 6, 100), "pas assez de stock livrable");
    assert!(g.livrer(0, ci, 5, 100));
    assert_eq!(g.inv[ci].m, [0, 0, 0, 1], "le meilleur mâle reste");
    assert_eq!(g.inv[ci].f, [0, 0, 1, 0], "la meilleure femelle reste");
    assert_eq!(g.inv[ci].sm, [1, 0, 0, 0], "le shiny reste");
    assert_eq!(g.ecus, 130);
    assert_eq!(g.contracts_delivered, 1);
    assert!(!g.livrer(0, ci, 0, 100), "déjà livré");
}

#[test]
fn le_musee_rend_ce_qu_il_expose() {
    let mut g = jeu_neuf();
    g.inv[4].m = [1, 0, 2, 0];
    g.inv[4].f = [0, 0, 2, 0];
    let avant = g.inv[4];
    assert!(g.exposer(0, 4, false));
    assert_eq!(g.inv[4].m[2], 1, "la plus belle pièce part, un mâle à égalité");
    let e = g.museum[0].unwrap();
    assert_eq!((e.ci, e.rank, e.shiny, e.sex), (4, 2, false, 0));
    assert!(!g.exposer(0, 4, false), "la salle est prise");
    assert!(!g.exposer(6, 4, false), "la septième salle n'est pas construite");
    assert_eq!(g.decrocher(0), Some(e));
    assert_eq!(g.inv[4], avant);
    assert_eq!(g.decrocher(0), None);
}

#[test]
fn la_serie_de_jours_grandit_et_se_rompt() {
    let mut g = jeu_neuf();
    g.last_day = 100;
    g.streak = 9;
    assert_eq!(g.nouveau_jour(101), Some(10));
    assert_eq!(g.nouveau_jour(101), None, "un jour ne compte qu'une fois");
    assert_eq!(g.nouveau_jour(102), Some(10), "dix baies au plus");
    assert_eq!(g.streak, 11);
    assert_eq!(g.nouveau_jour(110), Some(1), "la série se rompt");
    assert_eq!(g.baits[0], 21);
}

#[test]
fn l_enclos_donne_un_petit_au_meilleur_rang() {
    let mut g = jeu_neuf();
    g.inv[0].m[1] = 1;
    g.inv[0].f[2] = 1;
    assert!(g.installer_couple(0, 0, None, 0));
    let pret = g.pens[0].unwrap().ready_at;
    assert_eq!(pret, 30 * 60_000, "une demi-heure pour un commun");
    assert_eq!(g.recolter(0, pret - 1, false, false), None, "pas encore");
    let (pen, rang, nouvelle, _) = g.recolter(0, pret, true, false).expect("la naissance");
    assert_eq!((pen.r1, pen.r2), (1, 2));
    assert_eq!(rang, 3, "un cran au-dessus du meilleur parent");
    assert!(nouvelle);
    assert_eq!(g.pen_born, 1);
    assert_eq!(g.captures, 1);
    assert_eq!(g.dex[0].best, 4);
    assert!(g.pens[0].is_none());
}

#[test]
fn les_succes_paient_une_fois() {
    let mut g = jeu_neuf();
    g.captures = 100;
    let n = g.check_achievements();
    assert!(n[0] && n[1] && !n[2]);
    assert_eq!(g.ecus, 30 + RECOMPENSES[0] + RECOMPENSES[1]);
    assert_eq!(g.total_earned, 550);
    let n = g.check_achievements();
    assert!(n.iter().all(|x| !x), "rien ne se paie deux fois");
    assert_eq!(g.total_earned, 550);

    // une prime compte déjà pour les succès suivants
    let mut g = jeu_neuf();
    g.total_earned = 9_900;
    g.captures = 1;
    let n = g.check_achievements();
    assert!(n[0]);
    assert!(!n[12], "50 écus ne suffisent pas à passer 10 000");
    g.total_earned = 9_960;
    g.ach[0] = false;
    let n = g.check_achievements();
    assert!(n[0] && n[12], "la prime du premier succès fait passer le cap");
}

#[test]
fn les_succes_lisent_le_registre() {
    let mut g = jeu_neuf();
    assert!(!g.ach_done(25));
    g.dex[113].n = 1;
    assert!(g.ach_done(25), "une espèce nocturne");
    assert!(!g.ach_done(7));
    for c in 0..10 {
        g.dex[c].n = 1;
    }
    assert!(g.ach_done(7), "dix espèces");
    assert!(!g.ach_done(17), "la forêt n'est pas complète");
    for c in 0..13 {
        g.dex[c].n = 1;
    }
    assert!(g.ach_done(17));
    assert!(g.ach_done(6), "le légendaire de la forêt");
    assert!(!g.ach_done(28));
    for c in 120..132 {
        g.dex[c].n = 1;
    }
    assert!(g.ach_done(28), "les douze légendes");
    g.sacrifices = 66;
    assert!(g.ach_done(31) && !g.ach_done(32));
}

#[test]
fn la_vente_a_la_main_prend_les_plus_bas_rangs() {
    let mut g = jeu_neuf();
    g.inv[3].m = [2, 1, 0, 1];
    g.inv[3].f = [0, 2, 0, 0];
    g.inv[3].sf = [0, 0, 1, 0];
    assert_eq!(g.vendre(3, false, SellQty::One), (1, [1, 0, 0, 0]));
    assert_eq!(g.inv[3].m, [1, 1, 0, 1]);
    assert_eq!(g.vendre(3, false, SellQty::Keep1), (3, [1, 2, 0, 0]), "le meilleur mâle et la meilleure femelle restent");
    assert_eq!(g.inv[3].m, [0, 0, 0, 1]);
    assert_eq!(g.inv[3].f, [0, 1, 0, 0]);
    assert_eq!(g.vendre(3, true, SellQty::All), (1, [0, 0, 1, 0]));
    assert_eq!(g.inv[3].ts(), 0);
    assert_eq!(g.vendre(3, true, SellQty::One), (0, [0, 0, 0, 0]), "plus rien à vendre");
}

#[test]
fn les_doublons_partent_sauf_les_commandes() {
    let mut g = jeu_neuf();
    g.inv[0].m = [5, 0, 0, 0];
    g.inv[0].f = [5, 0, 0, 0];
    g.inv[1].m = [1, 0, 0, 0];
    g.inv[1].f = [1, 0, 0, 0];
    let contrats = vec![
        Contrat { ci: 0, qty: 3, reward: 100 },
        Contrat { ci: 1, qty: 4, reward: 100 },
        Contrat { ci: 0, qty: 2, reward: 100 },
    ];
    let faits = vec![false, false, true];
    let trades = vec![(0usize, 2u64, 114usize), (0, 7, 115)];
    let trades_faits = vec![false, true];
    assert_eq!(contract_need(0, &contrats, &faits, &trades, &trades_faits), 5, "trois au contrat, deux au troc");
    let besoins: Vec<u64> = (0..133).map(|ci| contract_need(ci, &contrats, &faits, &trades, &trades_faits)).collect();
    let res = g.vendre_doublons(&besoins);
    assert_eq!(res[0].0, 3, "dix en réserve, un couple gardé, cinq dus");
    assert_eq!(g.inv[0].tn(), 7);
    assert_eq!(res[1].0, 0, "un seul couple : rien à vendre");
    assert_eq!(g.inv[1].tn(), 2);
}

#[test]
fn le_releve_compte_le_registre() {
    let mut g = jeu_neuf();
    g.captures = 40;
    g.shinies = 2;
    g.total_earned = 1_234;
    g.trophies = 1;
    g.migrations = 1;
    g.dex[0].n = 3;
    g.dex[0].best = 4;
    g.dex[20].n = 1;
    g.dex[20].best = 2;
    g.dex[114].n = 1;
    g.dex[120].n = 1;
    g.dex[132].n = 1;
    let s = g.lb_stats();
    assert_eq!(s.especes, 2);
    assert_eq!(s.rangs, 6);
    assert_eq!(s.curiosites, 1);
    assert_eq!(s.legendes, 2, "les légendes et ce qui dort au fond du puits");
    assert_eq!((s.captures, s.shinies, s.ecus, s.trophees, s.migrations), (40, 2, 1_234, 1, 1));
}

#[test]
fn le_troc_echange_les_plus_bas_rangs_contre_une_curiosite() {
    let mut g = jeu_neuf();
    g.inv[5].m = [2, 0, 1, 0];
    g.inv[5].f = [1, 0, 0, 0];
    let trades = vec![(5usize, 3u64, 114usize), (6, 2, 115)];
    let mut faits = vec![false, false];
    assert_eq!(g.troquer(1, &trades, &mut faits, 2, false), None, "pas d'espèce 6 en réserve");
    let (nouvelle, sexe) = g.troquer(0, &trades, &mut faits, 2, false).expect("le troc passe");
    assert!(nouvelle, "première curiosité");
    assert_eq!(g.inv[5].tn(), 1, "trois spécimens sont partis");
    assert_eq!(g.inv[5].m, [0, 0, 1, 0], "le plus haut rang reste");
    assert_eq!(g.inv[114].tn(), 1);
    assert_eq!(if sexe == 0 { g.inv[114].m[2] } else { g.inv[114].f[2] }, 1);
    assert_eq!(g.dex[114].n, 1);
    assert_eq!(g.trades_made, 1);
    assert_eq!(faits, vec![true, false]);
    assert_eq!(g.troquer(0, &trades, &mut faits, 2, false), None, "une demande ne se sert qu'une fois");
    assert_eq!(g.troquer(2, &trades, &mut faits, 2, false), None);
}

#[test]
fn le_meilleur_appat_se_paie_par_dix() {
    let mut g = jeu_neuf();
    assert_eq!(g.best_bait(), 0);
    g.ecus = 600;
    assert_eq!(g.best_bait(), 1);
    g.ecus = 11_999;
    assert_eq!(g.best_bait(), 2);
    g.ecus = 40_000;
    assert_eq!(g.best_bait(), 4);
}

#[test]
fn un_biome_complet_compte_au_bonus() {
    let mut g = jeu_neuf();
    assert_eq!(g.completed_biomes(false), 0);
    for c in 0..13 {
        g.dex[c].n = 1;
    }
    assert_eq!(g.completed_biomes(false), 1, "la forêt");
    assert_eq!(g.completed_biomes(true), 0);
    for c in 0..13 {
        g.dex[c].s = 1;
    }
    assert_eq!(g.completed_biomes(true), 1);
    g.dex[114].n = 1;
    assert_eq!(g.completed_biomes(false), 1, "les curiosités ne sont pas un biome de la carte");
}

#[test]
fn une_battue_met_le_terrain_au_repos() {
    let mut g = jeu_neuf();
    let now = 1_790_000_000_000u64;
    assert!(g.battue_permise(0, now));
    assert!(!g.battue_permise(1, now), "le marais est fermé");
    g.lab[10] = 2;
    assert_eq!(g.hunt_cooldown_ms(), 240_000);
    g.clore_battue(0, now);
    assert_eq!(g.hunts_done, 1);
    assert!(!g.battue_permise(0, now + 239_999));
    assert!(g.battue_permise(0, now + 240_000));
}

#[test]
fn une_partie_relue_garde_entre_un_et_quatre_couples() {
    let mut g = jeu_neuf();
    g.autokeep = 0;
    g.normalize();
    assert_eq!(g.autokeep, 1);
    g.autokeep = 7;
    g.normalize();
    assert_eq!(g.autokeep, 4);
}

#[test]
fn une_levee_consomme_l_appat_sauf_en_automne() {
    let mut g = jeu_neuf();
    assert_eq!(g.entamer_levee(0, 0, false), None, "pas de piège posé");
    assert_eq!(g.attempts, 0);
    let mut t = g.biomes[0].unwrap();
    t.pl[0] = Some(Pose { trap: 0, bait: Some(1), next_at: 0 });
    g.biomes[0] = Some(t);
    assert_eq!(g.entamer_levee(0, 0, false), Some(None), "plus de viande : le piège lève sans appât");
    g.baits[1] = 2;
    assert_eq!(g.entamer_levee(0, 0, false), Some(Some(1)));
    assert_eq!(g.baits[1], 1);
    assert_eq!(g.entamer_levee(0, 0, true), Some(Some(1)), "appât épargné");
    assert_eq!(g.baits[1], 1);
    assert_eq!(g.attempts, 3);
}

#[test]
fn l_auto_vente_garde_les_couples_et_les_commandes() {
    let mut g = jeu_neuf();
    let ci = 0; // un commun de la forêt
    g.inv[ci].m = [4, 0, 0, 0];
    g.inv[ci].f = [3, 0, 0, 0];
    assert_eq!(g.autovendre(ci, false, 0), None, "sans la recherche, rien ne se vend");
    g.lab[5] = 1;
    assert_eq!(g.autovendre(ci, false, 0), None, "les communs ne sont pas cochés");
    g.autosell[0] = true;
    assert_eq!(g.autovendre(ci, true, 0), None, "jamais un shiny");
    assert_eq!(g.autovendre(ci, false, 2), Some((3, [3, 0, 0, 0])), "sept, moins un couple, moins deux dus");
    assert_eq!(g.inv[ci].tn(), 4);
    assert_eq!(g.autovendre(ci, false, 2), None, "plus de surplus");
}
