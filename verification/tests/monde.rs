use affut::catalogue::{
    biomes_par_prix, curiosites_max, especes_hors_biome, legendes_max, nb_especes_du_biome, paliers_bestiaire,
    wild_total, BIOME_DES_ESPECES, COUT_BIOMES, CURIO_B, LEGEND_B, NB_ESPECES, PUITS_B, RARETE_DES_ESPECES, WILDB,
};
use affut::horloge::{
    fair_day, is_night_at, jour_reel, nuit_index, pleine_lune, puits_assoiffe, season_at, splitmix, weather_at,
    JOUR_JEU_MS,
};
use affut::legendes::{
    legend_chance, legend_left_min, legend_now, noter_battue, noter_essai, noter_ouverte, noter_trace, tirage_legende, traces_now,
    HUNT_BUFF_MAX_PM, HUNT_BUFF_MS, HUNT_BUFF_PM, LAB_APPEL_PM, LEGEND_BASE_PM, LEGEND_LINGER, LEGEND_MAX_PM,
    LEGEND_SPOTS, LEGEND_WINDOW_MS,
};
use affut::navigation::{panel_key, panel_scroll, Effet, GKey, Panneau};

fn now_ms() -> u64 {
    std::time::SystemTime::now().duration_since(std::time::UNIX_EPOCH).unwrap().as_millis() as u64
}

fn wild_species() -> Vec<usize> {
    (0..NB_ESPECES).filter(|&i| BIOME_DES_ESPECES[i] < WILDB).collect()
}

/* la table des créatures et celle des biomes doivent rester d'accord */
#[test]
fn chaque_biome_a_ses_especes() {
    for b in 0..WILDB {
        assert!(nb_especes_du_biome(b) > 0, "biome {} sans espèce", b);
    }
    let curios = BIOME_DES_ESPECES.iter().filter(|&&b| b == CURIO_B).count();
    let legendes = BIOME_DES_ESPECES.iter().filter(|&&b| b == LEGEND_B).count();
    let puits = BIOME_DES_ESPECES.iter().filter(|&&b| b == PUITS_B).count();
    assert_eq!(curios, 6, "six curiosités au troc");
    assert_eq!(legendes, 12, "douze légendes errantes");
    assert_eq!(puits, 1, "une seule chose au fond du puits");
    assert_eq!(
        wild_total() + curios + legendes + puits,
        NB_ESPECES,
        "tout ce qui vit hors des biomes reste hors du bestiaire sauvage"
    );
}

/* le serveur du classement plafonne le bestiaire par ce que la partie peut
   financer, biome par biome. les curiosités du troc ne vivant dans aucun
   biome, elles doivent rester hors de ce décompte — sinon un joueur
   honnête qui troque passe pour un tricheur. */
#[test]
fn les_curiosites_restent_hors_du_bestiaire_financable() {
    let par_prix: usize = paliers_bestiaire().iter().map(|(_, n)| n).sum();
    assert_eq!(par_prix, wild_total(), "la table de prix et le bestiaire sauvage divergent");
    assert!(BIOME_DES_ESPECES.iter().any(|&b| b == CURIO_B), "plus aucune curiosité : le test n'a plus d'objet");
    assert!(wild_species().iter().all(|&i| BIOME_DES_ESPECES[i] != CURIO_B));
}

#[test]
fn les_biomes_se_rangent_par_prix() {
    let v = biomes_par_prix();
    assert_eq!(v, vec![0, 9, 1, 2, 10, 3, 4, 5, 6, 7, 8]);
    let p = paliers_bestiaire();
    assert_eq!(p[0], (0, 13), "la forêt est gratuite et compte treize espèces");
    assert_eq!(p[1], (900, 9), "puis la rivière");
    for w in p.windows(2) {
        assert!(w[0].0 <= w[1].0);
    }
    assert_eq!(p.iter().map(|x| x.0).max(), COUT_BIOMES.iter().copied().max());
}

#[test]
fn les_especes_hors_biome_se_comptent() {
    assert_eq!(especes_hors_biome(), 19);
    assert_eq!(curiosites_max(), 6);
    assert_eq!(legendes_max(), 13, "les légendes et ce qui dort au fond du puits");
    assert_eq!(wild_total(), 114);
}

/* les légendes errantes n'appartiennent à aucun biome : aucun piège ne
   doit pouvoir les sortir, et elles restent hors du bestiaire sauvage. */
#[test]
fn les_legendes_vivent_hors_des_biomes() {
    let pantheon: Vec<usize> = (0..NB_ESPECES).filter(|&i| BIOME_DES_ESPECES[i] == LEGEND_B).collect();
    assert_eq!(pantheon.len(), 12);
    for &i in &pantheon {
        assert!(!wild_species().contains(&i), "{} compte à tort dans le bestiaire sauvage", i);
        assert!(RARETE_DES_ESPECES[i] >= 3, "une légende doit être au moins épique");
    }
    for b in 0..WILDB {
        assert!((0..NB_ESPECES).filter(|&i| BIOME_DES_ESPECES[i] == b).all(|i| BIOME_DES_ESPECES[i] != LEGEND_B));
    }
    // et le tirage d'une approche ne sort jamais du panthéon
    for _ in 0..200 {
        assert_eq!(BIOME_DES_ESPECES[tirage_legende()], LEGEND_B);
    }
}

/* les battues doivent payer autrement qu'en prises immédiates : elles
   attirent les légendes une heure durant, et l'effet se cumule. */
#[test]
fn les_battues_attirent_les_legendes() {
    let mut hunts_at: Vec<u64> = vec![];
    let t = 1_788_000_000_000u64;
    assert_eq!(legend_chance(&hunts_at, t, 0), LEGEND_BASE_PM, "sans battue, la chance de base");

    for _ in 0..3 {
        hunts_at.push(t);
    }
    assert_eq!(legend_chance(&hunts_at, t, 0), LEGEND_BASE_PM + 3 * HUNT_BUFF_PM, "trois battues, trois fois le bonus");

    for _ in 0..30 {
        hunts_at.push(t);
    }
    assert_eq!(legend_chance(&hunts_at, t, 0), LEGEND_BASE_PM + HUNT_BUFF_MAX_PM, "le cumul reste plafonné");

    assert_eq!(legend_chance(&hunts_at, t + HUNT_BUFF_MS + 1, 0), LEGEND_BASE_PM, "une heure plus tard, tout est retombé");

    assert_eq!(
        legend_chance(&hunts_at, t + HUNT_BUFF_MS + 1, 5),
        LEGEND_BASE_PM + 5 * LAB_APPEL_PM,
        "l'appel du labo s'ajoute à la base"
    );
    assert!(legend_chance(&hunts_at, t, 5) <= LEGEND_MAX_PM, "la chance reste bornée");

    /* le rythme visé : une trentaine de silhouettes par jour sans rien
       faire, le double en jouant à fond */
    let par_jour = |pm: u64| 86_400_000.0 / LEGEND_WINDOW_MS as f64 * pm as f64 / 1000.0;
    assert!((par_jour(LEGEND_BASE_PM) - 28.8).abs() < 0.1);
    assert!(par_jour(LEGEND_MAX_PM) < 70.0);
}

/* une silhouette peut paraître sur une terre non ouverte : c'est ce qui
   donne envie d'aller voir avant d'en avoir les moyens. */
#[test]
fn les_silhouettes_ignorent_les_frontieres() {
    let vus: std::collections::HashSet<usize> =
        (0..500u64).map(|w| (splitmix(w ^ 0xB10) % WILDB as u64) as usize).collect();
    assert_eq!(vus.len(), WILDB as usize, "tous les biomes doivent pouvoir accueillir une légende");
}

/* la silhouette tient deux fenêtres : assez pour qu'une session la croise,
   pas assez pour qu'un passage quotidien suffise. */
#[test]
fn une_silhouette_tient_vingt_minutes() {
    let w = 1_000_000u64;
    assert_eq!(legend_left_min(w, w * LEGEND_WINDOW_MS), 20, "vingt minutes en tout");
    assert_eq!(legend_left_min(w, (w + 1) * LEGEND_WINDOW_MS), 10, "dix à la seconde fenêtre");
    assert_eq!(legend_left_min(w, (w + LEGEND_LINGER) * LEGEND_WINDOW_MS), 0, "puis elle s'en va");
}

/* le rythme visé, mesuré sur trente jours de tirages : une douzaine de
   silhouettes par jour sans rien faire, le double en enchaînant les
   battues. la garde attrape un déréglage des constantes. */
#[test]
fn le_rythme_des_legendes_reste_dans_sa_fourchette() {
    let par_jour = |pm: u64| {
        let w0 = now_ms() / LEGEND_WINDOW_MS;
        let (mut visibles, mut fin) = (0u32, 0u64);
        for k in 0..144u64 * 30 {
            let w = w0 + k;
            if splitmix(w ^ 0x1E9E17D) % 1000 < pm && w >= fin {
                visibles += 1;
                fin = w + LEGEND_LINGER;
            }
        }
        visibles as f64 / 30.0
    };
    let base = par_jour(LEGEND_BASE_PM);
    let battues = par_jour(LEGEND_BASE_PM + HUNT_BUFF_MAX_PM);
    let max = par_jour(LEGEND_MAX_PM);
    assert!((21.0..29.0).contains(&base), "sans rien faire : {:.1} silhouettes par jour", base);
    assert!(battues > base * 1.4, "les battues doivent peser : {:.1} contre {:.1}", battues, base);
    assert!((40.0..55.0).contains(&max), "tout à fond : {:.1} silhouettes par jour", max);
    let minutes_visibles = base * (LEGEND_LINGER as f64 * LEGEND_WINDOW_MS as f64 / 60_000.0);
    assert!(minutes_visibles > 400.0, "{:.0} minutes de présence par jour", minutes_visibles);
}

#[test]
fn une_silhouette_paraitra_tant_qu_on_ne_l_a_pas_tentee() {
    // une fenêtre dont le tirage sort à coup sûr (seuil de mille pour mille)
    let w = 2_980_000u64;
    let now = w * LEGEND_WINDOW_MS + 1;
    let vide: Vec<u64> = vec![];
    let (fenetre, biome) = legend_now(now, &vide, &vide, 1000).expect("tout tirage sort à mille pour mille");
    assert_eq!(fenetre, w - 1, "la fenêtre précédente tient encore");
    assert_eq!(biome, (splitmix((w - 1) ^ 0xB10) % 11) as usize);
    let essayees = vec![w - 1];
    assert_eq!(legend_now(now, &essayees, &vide, 1000).map(|x| x.0), Some(w), "une approche tentée ne revient pas");
    let essayees = vec![w - 1, w];
    assert_eq!(legend_now(now, &essayees, &vide, 1000), None);
    assert_eq!(legend_now(now, &vide, &vide, 0), None, "à zéro pour mille, rien ne paraît");
    let ouvertes = vec![w];
    assert_eq!(legend_now(now, &vide, &ouvertes, 0).map(|x| x.0), Some(w), "une silhouette parue reste");
}

#[test]
fn les_registres_de_legendes_restent_courts() {
    let mut essais: Vec<u64> = vec![];
    for w in 0..30u64 {
        assert!(noter_essai(&mut essais, w));
    }
    assert!(!noter_essai(&mut essais, 29), "déjà tentée");
    assert_eq!(essais.len(), 24);
    assert_eq!(essais[0], 6, "les plus anciennes partent");
    let mut ouvertes: Vec<u64> = vec![];
    for w in 0..10u64 {
        noter_ouverte(&mut ouvertes, w);
        noter_ouverte(&mut ouvertes, w);
    }
    assert_eq!(ouvertes, vec![2, 3, 4, 5, 6, 7, 8, 9]);
    let mut battues: Vec<u64> = vec![];
    let t = 1_788_000_000_000u64;
    noter_battue(&mut battues, t);
    noter_battue(&mut battues, t + HUNT_BUFF_MS + 5);
    assert_eq!(battues, vec![t + HUNT_BUFF_MS + 5], "une battue d'il y a plus d'une heure est oubliée");
}

#[test]
fn les_traces_se_posent_pres_des_points_de_legende() {
    let ouverts = vec![true; 11];
    let vides: Vec<u64> = vec![];
    let t = traces_now(1_790_000_000_000, &ouverts, &vides);
    for &(cle, b, (x, y)) in &t {
        assert!(b < 11);
        let (lx, ly) = LEGEND_SPOTS[b];
        assert!((x as i64 - lx as i64).abs() <= 6 && (y as i64 - ly as i64).abs() <= 6, "trace du biome {} trop loin", b);
        let suivies = vec![cle];
        assert!(traces_now(1_790_000_000_000, &ouverts, &suivies).iter().all(|x| x.0 != cle), "une piste suivie disparaît");
    }
    let fermes = vec![false; 11];
    assert!(traces_now(1_790_000_000_000, &fermes, &vides).is_empty(), "pas de trace en terre fermée");
}

/* l'horloge du village : une journée en deux heures réelles, et la soif du
   puits qui suit ce cycle plutôt que la montre du joueur. */
#[test]
fn la_soif_du_puits_suit_l_horloge_du_village() {
    let base = 1_790_000_000_000u64;
    // le numéro de nuit ne change pas d'une heure de village à l'autre
    let n0 = nuit_index(base);
    assert_eq!(nuit_index(base + JOUR_JEU_MS / 24), n0, "une heure de village plus tard, même nuit");
    // une nuit sur huit
    let lunes = (0..80u64).filter(|k| pleine_lune(base + k * JOUR_JEU_MS)).count();
    assert!((9..=11).contains(&lunes), "{} pleines lunes sur 80 nuits", lunes);

    /* la proportion de nuit est celle d'une vraie journée — 21 h à 7 h —
       mais répartie sur deux heures réelles, donc accessible à tous */
    let pas = 60_000u64;
    let n = JOUR_JEU_MS / pas;
    let nuits = (0..n).filter(|k| is_night_at(base + k * pas)).count() as f64 / n as f64;
    assert!((nuits - 10.0 / 24.0).abs() < 0.02, "part de nuit : {:.2}", nuits);

    /* le puits a soif deux heures de village par jour, plus la nuit de
       pleine lune : sur huit nuits, un huitième du temps environ */
    let m = JOUR_JEU_MS * 8 / pas;
    let soif = (0..m).filter(|k| puits_assoiffe(base + k * pas)).count() as f64 / m as f64;
    assert!((0.10..0.16).contains(&soif), "part de soif sur huit nuits : {:.3}", soif);
}

#[test]
fn le_melangeur_suit_splitmix64() {
    assert_eq!(splitmix(0), 0xE220A8397B1DCDAF);
    assert_eq!(splitmix(1), 0x910A2DEC89025CC1);
    assert_ne!(splitmix(0xB10), 0xB10);
}

#[test]
fn le_calendrier_du_village() {
    assert_eq!(jour_reel(86_400_000 * 3 + 5), 3);
    assert!(fair_day(86_400_000 * 4));
    assert!(!fair_day(86_400_000 * 5));
    assert_eq!(season_at(JOUR_JEU_MS * 6 + 1), 2);
    assert!(is_night_at(0), "minuit");
    assert!(!is_night_at(JOUR_JEU_MS / 2), "midi");
    assert_eq!(nuit_index(0), -1, "avant la première aube");
    for k in 0..200u64 {
        assert!(weather_at(k * 1_234_567) < 6);
    }
}

/* molette : la fenêtre bouge, la sélection ne bouge pas, et on ne sort
   jamais des bornes du panneau */
#[test]
fn la_molette_fait_defiler_le_panneau() {
    let lignes = 60usize;
    let mut p = Panneau { sel: 0, scroll: 0, inner: 10 };
    let max = lignes.saturating_sub(10);
    assert!(max > 3, "le guide doit être plus long qu'une fenêtre pour ce test");

    panel_scroll(&mut p, lignes, 3);
    assert_eq!(p.scroll, 3);
    assert_eq!(p.sel, 0, "la molette ne touche pas la sélection");

    panel_scroll(&mut p, lignes, -1);
    assert_eq!(p.scroll, 2);

    // vers le haut : on s'arrête en haut, sans déborder
    panel_scroll(&mut p, lignes, -99);
    assert_eq!(p.scroll, 0);

    // vers le bas : on s'arrête sur la dernière fenêtre complète
    panel_scroll(&mut p, lignes, 9_999);
    assert_eq!(p.scroll, max);
}

/* les listes d'espèces sont longues : la sélection doit boucler, sinon
   atteindre la dernière entrée demande de traverser tout le panneau. */
#[test]
fn les_listes_bouclent_en_haut_et_en_bas() {
    let sels: Vec<(usize, isize)> = vec![(2, -1), (3, -1), (5, -1), (6, 0), (6, 1), (9, -1), (12, -1), (15, -1)];
    let lignes = 18usize;
    assert!(sels.len() > 2, "la boutique doit proposer plusieurs entrées");
    // panneau assez haut pour tout montrer : la lecture ne prime pas
    let mut p = Panneau { sel: 0, scroll: 0, inner: lignes };

    // depuis la première entrée, le haut mène à la dernière
    panel_key(&mut p, &sels, lignes, GKey::Up);
    let derniere_ligne = sels[sels.len() - 1].0;
    assert_eq!(sels[p.sel].0, derniere_ligne, "le haut devait boucler vers la fin");

    // et depuis la dernière, le bas ramène à la première
    panel_key(&mut p, &sels, lignes, GKey::Down);
    assert_eq!(p.sel, 0, "le bas devait boucler vers le début");
    assert_eq!(p.scroll, 0, "et remonter le panneau");

    // au milieu de la liste, rien ne boucle
    panel_key(&mut p, &sels, lignes, GKey::Down);
    let milieu = p.sel;
    assert!(milieu > 0 && milieu < sels.len() - 1);

    /* cas réel : un panneau plus court que sa liste. le haut boucle depuis
       le sommet, et la ligne visée reste visible. */
    let mut p = Panneau { sel: 0, scroll: 0, inner: 6 };
    panel_key(&mut p, &sels, lignes, GKey::Up);
    let ligne = sels[p.sel].0;
    assert_eq!(ligne, derniere_ligne, "le haut devait boucler malgré le défilement");
    assert!(ligne >= p.scroll && ligne < p.scroll + p.inner, "la dernière entrée doit être à l'écran");
}

#[test]
fn entree_active_et_echap_ferme() {
    let sels: Vec<(usize, isize)> = vec![(2, -1), (4, 0), (4, 1)];
    let mut p = Panneau { sel: 1, scroll: 0, inner: 10 };
    assert_eq!(panel_key(&mut p, &sels, 8, GKey::Enter), Effet::Activer(4, 0));
    assert_eq!(panel_key(&mut p, &sels, 8, GKey::Esc), Effet::Fermer);
    let vide: Vec<(usize, isize)> = vec![];
    let mut p = Panneau { sel: 0, scroll: 0, inner: 10 };
    assert_eq!(panel_key(&mut p, &vide, 8, GKey::Enter), Effet::Rien, "rien à activer");
}

#[test]
fn une_piste_ne_se_suit_qu_une_fois() {
    let mut suivies: Vec<u64> = Vec::new();
    for k in 0..45u64 {
        assert!(noter_trace(&mut suivies, k * 16 + 3));
    }
    assert_eq!(suivies.len(), 40, "on n'en retient que quarante");
    assert_eq!(suivies[0], 5 * 16 + 3, "les plus anciennes s'oublient");
    assert!(!noter_trace(&mut suivies, 44 * 16 + 3), "déjà suivie");
    assert_eq!(suivies.len(), 40);
}

#[test]
fn une_meteo_par_creneau_de_vingt_minutes() {
    for c in 0..500u64 {
        let debut = c * 1_200_000 + 1_787_000_000_000 / 1_200_000 * 1_200_000;
        let w = weather_at(debut);
        for d in [1u64, 300_000, 600_000, 1_199_999] {
            assert_eq!(weather_at(debut + d), w, "le temps change au milieu d'un créneau");
        }
    }
    // le créneau qui contient 6 000 000 et 6 600 000 ms
    assert_eq!(weather_at(6_000_000), weather_at(6_600_000));
}
