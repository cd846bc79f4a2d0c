use correttore_date::estensione_accettata;
use correttore_date::estrai_anno_da_nome;
use correttore_date::lista_nomi_sidecar;
use correttore_date::primo_esistente;
use correttore_date::stem_di;

#[test]
fn prefisso_anno_in_intervallo() {
    assert_eq!(estrai_anno_da_nome("2002_vacanze.jpg"), Some((2002, 1, 1)));
    assert_eq!(estrai_anno_da_nome("1900_a"), Some((1900, 1, 1)));
    assert_eq!(estrai_anno_da_nome("2100_a"), Some((2100, 1, 1)));
}

#[test]
fn prefisso_anno_fuori_intervallo() {
    assert_eq!(estrai_anno_da_nome("1899_a.jpg"), None);
    assert_eq!(estrai_anno_da_nome("2101_a.jpg"), None);
}

#[test]
fn prefisso_blocca_le_altre_euristiche() {
    // The prefix year is out of range, and the run of eight digits
    // later in the name is never consulted.
    assert_eq!(estrai_anno_da_nome("2200_20050806.jpg"), None);
}

#[test]
fn amg_prima_di_gma() {
    // An eight-digit run is read year first.
    assert_eq!(estrai_anno_da_nome("20050806_x.jpg"), Some((2005, 8, 6)));
}

#[test]
fn gma_quando_amg_non_ammessa() {
    // 2408 is no admissible year, so the run reads day first.
    assert_eq!(estrai_anno_da_nome("24082009_x.jpg"), Some((2009, 8, 24)));
}

#[test]
fn solo_la_prima_finestra_conta() {
    // The leftmost run fails both readings; later runs are not tried.
    assert_eq!(estrai_anno_da_nome("x99999999_20050806.jpg"), None);
}

#[test]
fn finestra_dopo_testo() {
    assert_eq!(estrai_anno_da_nome("IMG_20050806_x.jpg"), Some((2005, 8, 6)));
}

#[test]
fn nessuna_data_nel_nome() {
    assert_eq!(estrai_anno_da_nome("vacanze.jpg"), None);
    assert_eq!(estrai_anno_da_nome(""), None);
    assert_eq!(estrai_anno_da_nome("1234567"), None);
}

#[test]
fn estensioni_accettate() {
    assert!(estensione_accettata("a.jpg"));
    assert!(estensione_accettata("a.JPG"));
    assert!(estensione_accettata("b.jpeg"));
    assert!(estensione_accettata("b.JPEG"));
    assert!(estensione_accettata("c.orf"));
    assert!(estensione_accettata("c.ORF"));
    assert!(estensione_accettata("d.nef"));
    assert!(estensione_accettata("d.NEF"));
}

#[test]
fn estensioni_rifiutate() {
    assert!(!estensione_accettata("a.png"));
    assert!(!estensione_accettata("a.Jpg"));
    assert!(!estensione_accettata("senza_estensione"));
    assert!(!estensione_accettata(".jpg"));
    assert!(!estensione_accettata("a.jpg.json"));
}

#[test]
fn stem_del_nome() {
    assert_eq!(stem_di("IMG_001.jpg"), "IMG_001");
    assert_eq!(stem_di("archivio.tar.gz"), "archivio.tar");
    assert_eq!(stem_di("senza_punto"), "senza_punto");
    assert_eq!(stem_di(".nascosto"), ".nascosto");
}

#[test]
fn nomi_sidecar_in_ordine() {
    let nomi = lista_nomi_sidecar("IMG_001.jpg");
    assert_eq!(nomi.len(), 14);
    assert_eq!(nomi[0], "IMG_001.jpg.supplemental-metadata.json");
    assert_eq!(nomi[1], "IMG_001.supplemental-metadata.json");
    assert_eq!(nomi[2], "IMG_001.jpg.supplemental.json");
    assert_eq!(nomi[3], "IMG_001.supplemental.json");
    assert_eq!(nomi[12], "IMG_001.jpg.supplemen.json");
    assert_eq!(nomi[13], "IMG_001.supplemen.json");
}

#[test]
fn primo_candidato_esistente() {
    assert_eq!(primo_esistente(&vec![false, false, true, true]), Some(2));
    assert_eq!(primo_esistente(&vec![true]), Some(0));
    assert_eq!(primo_esistente(&vec![false, false]), None);
    assert_eq!(primo_esistente(&vec![]), None);
}
