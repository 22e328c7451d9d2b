//! Le cœur vérifié d'affût, jeu de piégeage : l'horloge du village, le
//! catalogue des espèces, la réserve de spécimens et le registre, l'état
//! d'une partie et les actions du joueur, les succès, l'enclos, les
//! légendes errantes, la navigation dans les panneaux, l'écriture des
//! montants ; et, côté serveur, le contrôle de plausibilité du classement
//! et les règles des jetons et des pseudos.

pub mod horloge;
pub mod catalogue;
pub mod hasard;
pub mod reserve;
pub mod bestiaire;
pub mod enclos;
pub mod partie;
pub mod succes;
pub mod actions;
pub mod musee;
pub mod vitrine;
pub mod commandes;
pub mod comptoir;
pub mod puits;
pub mod echeances;
pub mod battement;
pub mod tableau;
pub mod boutique;
pub mod legendes;
pub mod navigation;
pub mod montants;
pub mod texte;
pub mod releve;
pub mod classement;
pub mod pseudo;
