use affut::pseudo::{cle_de_minuscules, clean_pseudo, latin_ok, norm_key, renommage, token_after, valid_token, Renommage};

fn v(s: &str) -> Vec<char> {
    s.chars().collect()
}

fn s(v: &[char]) -> String {
    v.iter().collect()
}

#[test]
fn un_jeton_compte_16_a_64_signes_permis() {
    assert!(valid_token(&v("abcdef0123456789")));
    assert!(!valid_token(&v("abcdef012345678")), "quinze signes ne suffisent pas");
    assert!(valid_token(&v(&"a-".repeat(32))));
    assert!(!valid_token(&v(&"a".repeat(65))));
    assert!(!valid_token(&v("abcdef012345678_")), "pas de souligné dans un jeton");
    assert!(!valid_token(&v("abcdéf0123456789")), "pas d'accent dans un jeton");
}

#[test]
fn le_jeton_suit_le_prefixe_jusqu_au_point_d_interrogation() {
    let t = token_after(&v("/lb/abcdef0123456789?x=1"), &v("/lb/")).expect("jeton valide");
    assert_eq!(s(&t), "abcdef0123456789");
    assert_eq!(token_after(&v("/s/abcdef0123456789"), &v("/lb/")), None, "mauvais préfixe");
    assert_eq!(token_after(&v("/lb/court"), &v("/lb/")), None);
    assert_eq!(token_after(&v("/lb"), &v("/lb/")), None);
}

#[test]
fn un_pseudo_se_nettoie() {
    assert_eq!(clean_pseudo(&v("  te   ly  ")).map(|p| s(&p)), Some("te ly".to_string()), "espaces compressées");
    assert_eq!(clean_pseudo(&v("Élodie_99")).map(|p| s(&p)), Some("Élodie_99".to_string()));
    assert_eq!(clean_pseudo(&v("a")), None, "deux signes au moins");
    assert_eq!(clean_pseudo(&v("- _")), None, "une lettre ou un chiffre au moins");
    assert_eq!(clean_pseudo(&v("Ѕmour")), None, "pas de cyrillique");
    assert_eq!(clean_pseudo(&v("2×3")), None, "pas de signe de multiplication");
    assert_eq!(
        clean_pseudo(&v("abcdefghijklmnopqrstuvwxyz")).map(|p| s(&p)),
        Some("abcdefghijklmnop".to_string()),
        "seize signes au plus"
    );
    assert_eq!(
        clean_pseudo(&v("abcdefghijklmno pq")).map(|p| s(&p)),
        Some("abcdefghijklmno ".to_string()),
        "la coupe peut laisser une espace finale"
    );
    assert!(latin_ok('ÿ') && !latin_ok('÷') && !latin_ok('α'));
}

#[test]
fn deux_pseudos_qui_se_lisent_pareil_ont_la_meme_cle() {
    assert_eq!(s(&norm_key(&v("Té-Ly"))), "tely");
    assert_eq!(norm_key(&v("te ly")), norm_key(&v("TELY")));
    assert_eq!(s(&norm_key(&v("Œuvre_Straße"))), "oeuvrestrasse");
    assert_ne!(norm_key(&v("tely")), norm_key(&v("tel1")));
}

#[test]
fn un_changement_de_pseudo_par_semaine() {
    let jour = 86_400_000u64;
    let t = 1_787_340_000_000u64;
    // premier choix : accepté, l'ancre est posée
    assert_eq!(renommage(&v(""), &v("tely"), t, 0), Renommage::Accepte { pseudo_at: t, change: false });
    // même pseudo, autre graphie : ce n'est pas un changement
    assert_eq!(renommage(&v("tely"), &v("Té Ly"), t + jour, t), Renommage::Accepte { pseudo_at: t, change: false });
    // faute de frappe corrigée dans les dix minutes : accepté sans bouger l'ancre
    assert_eq!(renommage(&v("tely"), &v("telly"), t + 60_000, t), Renommage::Accepte { pseudo_at: t, change: true });
    // trois jours plus tard : refusé, quatre jours à attendre
    assert_eq!(renommage(&v("tely"), &v("ook"), t + 3 * jour, t), Renommage::Refuse { jours: 4, heures: 96 });
    // à une heure et demie de la fin : deux heures
    assert_eq!(
        renommage(&v("tely"), &v("ook"), t + 7 * jour - 5_400_000, t),
        Renommage::Refuse { jours: 1, heures: 2 }
    );
    // une semaine après : accepté, l'ancre avance
    assert_eq!(renommage(&v("tely"), &v("ook"), t + 7 * jour, t), Renommage::Accepte { pseudo_at: t + 7 * jour, change: true });
}

#[test]
fn la_cle_replie_des_minuscules() {
    let m: Vec<char> = "élodie_x-œuf ß".chars().collect();
    let k: String = cle_de_minuscules(&m).into_iter().collect();
    assert_eq!(k, "elodiexoeufss");
    let p: Vec<char> = "Foura".chars().collect();
    let k: String = norm_key(&p).into_iter().collect();
    assert_eq!(k, "foura", "un pseudo ASCII prend ses minuscules ASCII");
}
