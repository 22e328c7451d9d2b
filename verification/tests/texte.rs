use affut::texte::wrap_lines;

fn couper(s: &str, w: usize) -> Vec<String> {
    let v: Vec<char> = s.chars().collect();
    wrap_lines(&v, w).iter().map(|l| l.iter().collect()).collect()
}

#[test]
fn le_texte_se_coupe_mot_a_mot() {
    assert_eq!(
        couper("le renard brun saute par-dessus le chien paresseux", 20),
        vec!["le renard brun saute", "par-dessus le chien", "paresseux"]
    );
    assert_eq!(couper("le renard brun saute par-dessus le chien paresseux", 5), couper("le renard brun saute par-dessus le chien paresseux", 20), "vingt colonnes au moins");
    assert_eq!(couper("", 30), Vec::<String>::new());
    assert_eq!(couper("a abcdefghijklmnopqrstuvwxy b", 20), vec!["a", "abcdefghijklmnopqrstuvwxy", "b"], "un mot trop long tient seul");
    assert_eq!(couper("deux  espaces", 30), vec!["deux  espaces"]);
    for l in couper("une légende errante rôde en forêt — quarante minutes pour la trouver", 24) {
        assert!(l.chars().count() <= 24);
    }
}
