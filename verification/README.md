# affût

Un jeu de piégeage : on pose des pièges dans les biomes d'une carte, on
capture, on vend, on expose au musée, on élève à l'enclos, on troque avec
les collectionneurs et on migre pour recommencer plus fort. Un petit serveur
tient le classement des joueurs.

## Organisation

- `src/` : la bibliothèque, écrite et vérifiée avec Verus. Chaque fonction y
  porte son contrat (`requires` / `ensures`) et les lois du jeu y sont
  énoncées et prouvées (`loi_…`). On y trouve l'horloge du village, le
  catalogue des espèces, la réserve et le registre, l'état d'une partie et
  les actions du joueur (et l'examen des succès qui les suit), les
  échéances des pièges et le battement du jeu, le tableau de bord, la
  liste de vente et le sélecteur de l'enclos, le musée et la preuve qu'il expose les mieux payés,
  l'enclos, le puits, les succès, les légendes errantes, les demandes du
  troc et des contrats, la navigation dans les panneaux, l'écriture des
  montants et, côté serveur, le contrôle de plausibilité du classement et
  les règles des jetons et des pseudos.
- `tests/` : les tests, qui exercent la bibliothèque compilée.
- `app/` : le programme autour : le serveur du classement (HTTP et JSON),
  l'équilibrage en virgule flottante (chances, vitesses, valeurs, passages
  et prix du marchand), dont la bibliothèque reçoit les résultats, et la
  carte du monde, dont le décor se tire en réels.

Le hasard vient de `rand`. Du générateur du système, la bibliothèque ne
suppose que l'intervalle des tirages ; un générateur semé (troc, contrats,
marchand) est décrit par sa graine et les appels qu'il a reçus, si bien que
les demandes d'une même fenêtre sont les mêmes pour tous.
