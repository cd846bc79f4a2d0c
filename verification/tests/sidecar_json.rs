use correttore_date::Istante;
use correttore_date::leggi_data_json;
use correttore_date::leggi_data_json_completo;

#[test]
fn sidecar_con_entrambi_i_campi() {
    let testo = "{\"photoTakenTime\":{\"timestamp\":\"1122544800\"},\"creationTime\":{\"timestamp\":\"1122602400\"}}";
    let (presa, creazione) = leggi_data_json_completo(testo);
    assert_eq!(presa, Some(Istante { secondi: 1122544800 }));
    assert_eq!(creazione, Some(Istante { secondi: 1122602400 }));
}

#[test]
fn sidecar_con_un_campo_solo() {
    let testo = "{\"creationTime\":{\"timestamp\":\"1122602400\"}}";
    let (presa, creazione) = leggi_data_json_completo(testo);
    assert_eq!(presa, None);
    assert_eq!(creazione, Some(Istante { secondi: 1122602400 }));
}

#[test]
fn sidecar_illeggibile() {
    assert_eq!(leggi_data_json_completo("non json"), (None, None));
    assert_eq!(leggi_data_json_completo(""), (None, None));
    assert_eq!(leggi_data_json_completo("[1,2,3]"), (None, None));
}

#[test]
fn un_campo_guasto_non_tocca_l_altro() {
    let testo = "{\"photoTakenTime\":{\"timestamp\":\"abc\"},\"creationTime\":{\"timestamp\":\"0\"}}";
    let (presa, creazione) = leggi_data_json_completo(testo);
    assert_eq!(presa, None);
    assert_eq!(creazione, Some(Istante { secondi: 0 }));
}

#[test]
fn timestamp_non_stringa() {
    let testo = "{\"photoTakenTime\":{\"timestamp\":1122544800}}";
    let (presa, creazione) = leggi_data_json_completo(testo);
    assert_eq!(presa, None);
    assert_eq!(creazione, None);
}

#[test]
fn timestamp_fuori_dagli_anni() {
    let testo = "{\"photoTakenTime\":{\"timestamp\":\"999999999999999\"}}";
    let (presa, _) = leggi_data_json_completo(testo);
    assert_eq!(presa, None);
}

#[test]
fn timestamp_negativo_in_intervallo() {
    let testo = "{\"photoTakenTime\":{\"timestamp\":\"-86400\"}}";
    let (presa, _) = leggi_data_json_completo(testo);
    assert_eq!(presa, Some(Istante { secondi: -86400 }));
}

#[test]
fn preferenza_per_il_tempo_di_scatto() {
    let testo = "{\"photoTakenTime\":{\"timestamp\":\"1122544800\"},\"creationTime\":{\"timestamp\":\"1122602400\"}}";
    assert_eq!(leggi_data_json(testo), Some(Istante { secondi: 1122544800 }));
    let solo_creazione = "{\"creationTime\":{\"timestamp\":\"1122602400\"}}";
    assert_eq!(leggi_data_json(solo_creazione), Some(Istante { secondi: 1122602400 }));
    assert_eq!(leggi_data_json("{}"), None);
}

#[test]
fn scatto_illeggibile_cede_alla_creazione() {
    let testo = "{\"photoTakenTime\":{\"timestamp\":\"x\"},\"creationTime\":{\"timestamp\":\"7\"}}";
    assert_eq!(leggi_data_json(testo), Some(Istante { secondi: 7 }));
}

#[test]
fn scatto_fuori_intervallo_decide_da_solo() {
    // A capture timestamp that parses but falls outside the library's
    // years yields nothing, without falling back to creation time.
    let testo = "{\"photoTakenTime\":{\"timestamp\":\"999999999999999\"},\"creationTime\":{\"timestamp\":\"7\"}}";
    assert_eq!(leggi_data_json(testo), None);
}
