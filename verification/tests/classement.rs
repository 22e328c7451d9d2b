use affut::classement::{borner_stats, entree_verifiee, migrations_max, plafond_envoi, racine_trophees, Bornees, Precedent, Releve, UNITE};

/* le plafond d'espèces que l'ancienneté autorise : 114 × (1 − e^(−h/10)),
   arrondi au-dessus, h comptant six heures d'avance */
fn especes_temps(premier_at: u64, now: u64) -> u64 {
    let ecart = now.saturating_sub(premier_at) as f64;
    let h = (ecart + 6.0 * 3_600_000.0) / 3_600_000.0;
    (114.0 * (1.0 - (-h / 10.0).exp())).ceil() as u64
}

fn borner(r: Releve, premier_at: u64, prec: Option<Precedent>, now: u64) -> Bornees {
    borner_stats(r, premier_at, prec, now, especes_temps(premier_at, now))
}

fn entier(x: u128) -> u64 {
    (x / UNITE) as u64
}

fn releve(captures: u64, ecus: u64, especes: u64, migrations: u64, rangs: u64, shinies: u64, trophees: u64) -> Releve {
    Releve { captures, especes, rangs, shinies, ecus, migrations, trophees }
}

const JOUR: u64 = 86_400_000;

#[test]
fn la_sauvegarde_trafiquee_sort_du_classement() {
    let now = 1_787_339_565_576;
    let e = releve(31232, 1_250_023_123_123, 114, 1, 87, 3, 2);
    let b = borner(e, now - 3_600_000, None, now);
    assert!(b.suspect, "l'entrée doit être marquée suspecte");
    assert!(entier(b.ecus) < 1_000_000_000, "les écus doivent être bornés, obtenu {}", entier(b.ecus));
    assert!(b.score < 1_000_000, "le score doit s'effondrer, obtenu {}", b.score);
}

#[test]
fn le_score_du_client_nest_jamais_repris() {
    let now = 1_787_339_565_576;
    let e = releve(3352, 88121, 38, 0, 117, 3, 0);
    let b = borner(e, now - 2 * JOUR, None, now);
    assert!(!b.suspect, "aucune statistique n'est fausse, seul le score l'était");
    let attendu = (38 * 100 + 3 * 300 + 117 * 40 + 88121 / 1000) as u128;
    assert_eq!(b.score, attendu);
}

#[test]
fn les_parties_honnetes_passent_intactes() {
    let now = 1_787_339_632_825;
    let honnetes = [
        releve(1159, 46151, 29, 0, 84, 2, 0),
        releve(615, 19150, 11, 0, 36, 1, 0),
        releve(3352, 88121, 38, 0, 117, 3, 0),
        releve(87, 275, 8, 0, 18, 0, 0),
        releve(1860, 58676, 28, 0, 88, 3, 0),
    ];
    for j in honnetes {
        let b = borner(j, now, None, now);
        assert!(!b.suspect, "partie honnête marquée suspecte : {:?}", j);
        assert_eq!(entier(b.captures), j.captures, "captures modifié");
        assert_eq!(entier(b.ecus), j.ecus, "ecus modifié");
        assert_eq!(entier(b.especes), j.especes, "especes modifié");
        assert_eq!(entier(b.rangs), j.rangs, "rangs modifié");
        assert_eq!(entier(b.shinies), j.shinies, "shinies modifié");
    }
}

#[test]
fn un_bond_entre_deux_envois_est_borne() {
    let now = 1_787_339_565_576;
    let prec = Precedent { at: now - 30_000, captures: 1000 * UNITE, ecus: 50_000 * UNITE };
    let e = releve(1001, 900_000_000, 30, 0, 80, 1, 0);
    let b = borner(e, now - 10 * JOUR, Some(prec), now);
    assert!(b.suspect);
    assert!(entier(b.ecus) <= 80_000, "obtenu {}", entier(b.ecus));
}

#[test]
fn les_bornes_de_structure_tiennent() {
    let now = 1_787_339_565_576;
    let e = releve(500, 10_000, 9999, 50, 9999, 9999, 9999);
    let b = borner(e, now - 10 * JOUR, None, now);
    assert!(b.suspect);
    assert_eq!(entier(b.especes), 114, "114 espèces au maximum");
    assert_eq!(entier(b.rangs), 114 * 4, "un rang par espèce, quatre au plus");
    assert_eq!(entier(b.shinies), 10, "un shiny toutes les 80 prises au plus");
    assert_eq!(b.migrations, 0, "10 000 écus ne paient pas le voyage à 100 000");
    assert_eq!(b.trophees, 0, "sans migration, aucun trophée");
}

#[test]
fn on_ne_decouvre_pas_sans_capturer() {
    let now = 1_787_339_565_576;
    let e = releve(5, 100, 114, 0, 456, 0, 0);
    let b = borner(e, now - JOUR, None, now);
    assert!(b.suspect);
    assert_eq!(entier(b.especes), 5);
    assert_eq!(entier(b.rangs), 20);
}

#[test]
fn les_trophees_doivent_etre_finances() {
    let now = 1_787_339_565_576;

    // 50 000 écus gagnés en tout : pas même le premier voyage
    let e = releve(900, 50_000, 30, 3, 90, 1, 12);
    let b = borner(e, now - 10 * JOUR, None, now);
    assert!(b.suspect);
    assert_eq!(b.migrations, 0);
    assert_eq!(b.trophees, 0, "sans migration, aucun trophée");

    // 300 000 écus : le 1er voyage (100 k) et le 2e (200 k), pas le 3e
    let e = releve(5000, 300_000, 40, 9, 120, 2, 40);
    let b = borner(e, now - 10 * JOUR, None, now);
    assert!(b.suspect);
    assert_eq!(b.migrations, 2, "300 000 écus paient deux voyages");
    // √(2 × 300 000 / 1 M) = √0,6 → aucun trophée entier
    assert_eq!(b.trophees, 0);

    // une partie longue et honnête : 40 M gagnés, 5 migrations, 12 trophées
    let e = releve(200_000, 40_000_000, 90, 5, 300, 60, 12);
    let b = borner(e, now - 60 * JOUR, None, now);
    assert!(!b.suspect, "une progression cohérente doit passer");
    assert_eq!(b.trophees, 12);
}

#[test]
fn le_filet_de_lecture_trie_les_lignes_reelles() {
    let servies = [
        ("Foura", 1_787_340_532_827u64, releve(1236, 46366, 29, 0, 87, 3, 0), true),
        ("Smour", 1_787_339_876_335, releve(31232, 1_250_023_123_123, 114, 1, 87, 3, 2), false),
        ("ookChrome", 1_787_340_596_179, releve(640, 19150, 11, 0, 36, 1, 0), true),
        ("tely", 1_787_340_029_702, releve(3401, 90219, 38, 0, 118, 3, 0), true),
        ("Cuswel", 1_787_315_070_221, releve(87, 275, 8, 0, 18, 0, 0), true),
        ("ook", 1_787_340_479_525, releve(1903, 58676, 28, 0, 88, 6, 0), true),
    ];
    for (nom, at, ligne, garde) in servies {
        let v = entree_verifiee(ligne, at, None, especes_temps(at, at));
        assert_eq!(v.is_some(), garde, "verdict inattendu pour {}", nom);
    }
}

#[test]
fn un_score_gonfle_est_corrige_et_non_puni() {
    let at = 1_787_340_029_702;
    let l = releve(3401, 90219, 38, 0, 118, 3, 0);
    let v = entree_verifiee(l, at, None, especes_temps(at, at)).expect("la ligne doit rester au classement");
    let attendu = (38 * 100 + 3 * 300 + 118 * 40 + 90219 / 1000) as u128;
    assert_eq!(v.score, attendu);

    // en revanche des statistiques impossibles écartent la ligne
    let l = releve(3401, 90219, 114, 0, 118, 3, 0);
    assert!(entree_verifiee(l, at, Some(at), especes_temps(at, at)).is_none(), "114 espèces le jour même doivent sortir");
}

#[test]
fn les_migrations_se_paient_voyage_apres_voyage() {
    assert_eq!(migrations_max(0), 0);
    assert_eq!(migrations_max(99_999 * UNITE), 0);
    assert_eq!(migrations_max(100_000 * UNITE), 1);
    assert_eq!(migrations_max(299_999 * UNITE), 1);
    assert_eq!(migrations_max(300_000 * UNITE), 2);
    assert_eq!(migrations_max(700_000 * UNITE), 3);
    assert_eq!(migrations_max(u64::MAX as u128 * UNITE), 100);
}

#[test]
fn la_racine_des_trophees_est_entiere() {
    // √(5 × 40 M / 1 M) = √200 → 14
    assert_eq!(racine_trophees(5 * 40_000_000 * UNITE), 14);
    assert_eq!(racine_trophees(0), 0);
    // juste sous un carré parfait : 16 000 000 000 × 9 − 1 → 2
    assert_eq!(racine_trophees(16_000_000_000 * 9 - 1), 2);
    assert_eq!(racine_trophees(16_000_000_000 * 9), 3);
}

#[test]
fn un_envoi_ne_depasse_pas_dix_puissance_quinze() {
    assert_eq!(plafond_envoi(12), 12);
    assert_eq!(plafond_envoi(u64::MAX), 1_000_000_000_000_000);
}

#[test]
fn un_shiny_borne_pese_au_score_en_fraction() {
    // 500 prises : 4 + 500 / 80 = 10,25 shinies, dont le score tient compte
    let now = 1_787_339_565_576;
    let e = releve(500, 0, 0, 0, 0, 9999, 0);
    let b = borner(e, now - 10 * JOUR, None, now);
    assert_eq!(b.shinies, 10 * UNITE + UNITE / 4);
    assert_eq!(b.score, 3075);
}
