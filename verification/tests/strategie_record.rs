use correttore_date::FiltroIncongruenza;
use correttore_date::FotoData;
use correttore_date::Incongruenza;
use correttore_date::Istante;
use correttore_date::Strategia;
use correttore_date::UnitaGravita;
use correttore_date::calcola_gravita_incongruenza;
use correttore_date::calcola_proposta;
use correttore_date::calcola_proposta_con_strategia;
use correttore_date::calcola_proposta_strategia;
use correttore_date::leggi_foto_singola;
use correttore_date::ordina_foto_per_nome;
use correttore_date::ricalcola;
use correttore_date::rileva_incongruenze;

fn foto_vuota(nome: &str) -> FotoData {
    FotoData {
        path: format!("/foto/{}", nome),
        nome_file: nome.to_string(),
        anno_nome: None,
        data_nome: None,
        data_json: None,
        data_json_creation: None,
        exif_datetime_original: None,
        exif_create_date: None,
        exif_modify_date: None,
        proposta_datetime_original: None,
        proposta_create_date: None,
        proposta_modify_date: None,
        strategia_datetime_original: Strategia::NomeFilePreferito,
        strategia_create_date: Strategia::NomeFilePreferito,
        strategia_modify_date: Strategia::NomeFilePreferito,
        incongruenze: Vec::new(),
        gravita_incongruenza: 0,
    }
}

#[test]
fn identificatori_delle_strategie() {
    assert_eq!(Strategia::NomeFile.as_str(), "nome_file");
    assert_eq!(Strategia::JsonPhotoTaken.as_str(), "json_photo_taken");
    assert_eq!(Strategia::from_str("json_creation"), Strategia::JsonCreation);
    assert_eq!(Strategia::from_str("exif_attuale"), Strategia::ExifAttuale);
    assert_eq!(Strategia::from_str("sconosciuta"), Strategia::NomeFilePreferito);
    assert_eq!(Strategia::da_stringa("sconosciuta"), None);
    assert_eq!(Strategia::da_stringa("json_preferito"), Some(Strategia::JsonPreferito));
    assert_eq!(Strategia::NomeFile.display_name(), "Use year from filename");
}

#[test]
fn strategia_nome_file_a_mezzogiorno() {
    let mut foto = foto_vuota("a.jpg");
    foto.data_nome = Some((2002, 1, 1));
    foto.anno_nome = Some(2002);
    assert_eq!(
        calcola_proposta_strategia(&foto, Strategia::NomeFile),
        Some(Istante { secondi: 1009886400 })
    );
}

#[test]
fn strategia_su_identificatore_ignoto() {
    let mut foto = foto_vuota("a.jpg");
    foto.data_nome = Some((2002, 1, 1));
    foto.anno_nome = Some(2002);
    foto.data_json = Some(Istante { secondi: 0 });
    assert_eq!(calcola_proposta_con_strategia(&foto, "strategia_ignota"), None);
}

#[test]
fn risoluzione_ripetuta_identica() {
    // Resolving twice with the same record and strategy yields the
    // same proposal: the resolver is a pure function of its inputs.
    let mut foto = foto_vuota("20050806_x.jpg");
    foto.data_nome = Some((2005, 8, 6));
    foto.anno_nome = Some(2005);
    foto.data_json = Some(Istante { secondi: 1122544800 });
    let prima = calcola_proposta_strategia(&foto, Strategia::JsonPreferito);
    let seconda = calcola_proposta_strategia(&foto, Strategia::JsonPreferito);
    assert_eq!(prima, seconda);
    let con_stringa = calcola_proposta_con_strategia(&foto, "json_preferito");
    assert_eq!(prima, con_stringa);
}

#[test]
fn nome_file_preferito_vince_sul_sidecar() {
    // With both a filename date and a sidecar capture time, the
    // filename-preferred strategy returns the noon instant, never the
    // sidecar one.
    let mut foto = foto_vuota("20050806_x.jpg");
    foto.data_nome = Some((2005, 8, 6));
    foto.anno_nome = Some(2005);
    foto.data_json = Some(Istante { secondi: 1122544800 });
    assert_eq!(
        calcola_proposta_strategia(&foto, Strategia::NomeFilePreferito),
        Some(Istante { secondi: 1123329600 })
    );
}

#[test]
fn nome_file_preferito_senza_nome() {
    let mut foto = foto_vuota("a.jpg");
    foto.data_json = Some(Istante { secondi: 1122544800 });
    assert_eq!(
        calcola_proposta_strategia(&foto, Strategia::NomeFilePreferito),
        Some(Istante { secondi: 1122544800 })
    );
}

#[test]
fn nome_file_inesistente_nel_calendario_cede() {
    // A filename date the calendar lacks (31 February) falls back to
    // the sidecar capture time.
    let mut foto = foto_vuota("31022005_x.jpg");
    foto.data_nome = Some((2005, 2, 31));
    foto.anno_nome = Some(2005);
    foto.data_json = Some(Istante { secondi: 1122544800 });
    assert_eq!(
        calcola_proposta_strategia(&foto, Strategia::NomeFilePreferito),
        Some(Istante { secondi: 1122544800 })
    );
}

#[test]
fn json_preferito_scala_le_fonti() {
    let mut foto = foto_vuota("2002_a.jpg");
    foto.data_nome = Some((2002, 1, 1));
    foto.anno_nome = Some(2002);
    assert_eq!(
        calcola_proposta_strategia(&foto, Strategia::JsonPreferito),
        Some(Istante { secondi: 1009886400 })
    );
    foto.data_json_creation = Some(Istante { secondi: 7 });
    assert_eq!(
        calcola_proposta_strategia(&foto, Strategia::JsonPreferito),
        Some(Istante { secondi: 7 })
    );
    foto.data_json = Some(Istante { secondi: 3 });
    assert_eq!(
        calcola_proposta_strategia(&foto, Strategia::JsonPreferito),
        Some(Istante { secondi: 3 })
    );
}

#[test]
fn proposta_della_strategia_del_record() {
    let mut foto = foto_vuota("2002_a.jpg");
    foto.data_nome = Some((2002, 1, 1));
    foto.anno_nome = Some(2002);
    foto.strategia_datetime_original = Strategia::NomeFile;
    assert_eq!(calcola_proposta(&foto), Some(Istante { secondi: 1009886400 }));
}

#[test]
fn discordanza_di_un_giorno() {
    // Embedded 2005-07-28T10:00:00Z against sidecar
    // 2005-07-29T02:00:00Z: exactly one date-mismatch entry with a
    // one-day delta, and severity one.
    let mut foto = foto_vuota("a.jpg");
    foto.exif_datetime_original = Some(Istante { secondi: 1122544800 });
    foto.data_json = Some(Istante { secondi: 1122602400 });
    let incongruenze = rileva_incongruenze(&foto);
    assert_eq!(incongruenze.len(), 1);
    match incongruenze[0] {
        Incongruenza::DataDiversa { giorni, anno_exif, giorno_exif, giorno_json, .. } => {
            assert_eq!(giorni, 1);
            assert_eq!(anno_exif, 2005);
            assert_eq!(giorno_exif, 28);
            assert_eq!(giorno_json, 29);
        },
        _ => panic!("attesa una discordanza di data"),
    }
    assert_eq!(calcola_gravita_incongruenza(&foto), 1);
}

#[test]
fn mezzanotte_divide_le_date() {
    // Twenty minutes apart in real time, but across midnight: the
    // calendar dates differ, so the delta is still one day.
    let mut foto = foto_vuota("a.jpg");
    foto.exif_datetime_original = Some(Istante { secondi: 1122594600 });
    foto.data_json = Some(Istante { secondi: 1122595800 });
    let incongruenze = rileva_incongruenze(&foto);
    assert_eq!(incongruenze.len(), 1);
    match incongruenze[0] {
        Incongruenza::DataDiversa { giorni, .. } => assert_eq!(giorni, 1),
        _ => panic!("attesa una discordanza di data"),
    }
    assert_eq!(calcola_gravita_incongruenza(&foto), 1);
}

#[test]
fn ore_diverse_nello_stesso_giorno_tacciono() {
    let mut foto = foto_vuota("a.jpg");
    foto.exif_datetime_original = Some(Istante { secondi: 1122544800 });
    foto.data_json = Some(Istante { secondi: 1122594600 });
    assert_eq!(rileva_incongruenze(&foto).len(), 0);
    assert_eq!(calcola_gravita_incongruenza(&foto), 0);
}

#[test]
fn exif_mancante_con_data_nel_nome() {
    // No embedded time but a filename date: one missing-time entry,
    // severity zero.
    let mut foto = foto_vuota("2002_a.jpg");
    foto.data_nome = Some((2002, 1, 1));
    foto.anno_nome = Some(2002);
    let incongruenze = rileva_incongruenze(&foto);
    assert_eq!(incongruenze.len(), 1);
    assert_eq!(incongruenze[0], Incongruenza::ExifMancante);
    assert_eq!(calcola_gravita_incongruenza(&foto), 0);
}

#[test]
fn nessuna_fonte_nessun_rilievo() {
    let foto = foto_vuota("a.jpg");
    assert_eq!(rileva_incongruenze(&foto).len(), 0);
    assert_eq!(calcola_gravita_incongruenza(&foto), 0);
}

#[test]
fn anno_del_nome_discorde() {
    let mut foto = foto_vuota("2002_a.jpg");
    foto.data_nome = Some((2002, 1, 1));
    foto.anno_nome = Some(2002);
    foto.exif_datetime_original = Some(Istante { secondi: 1122544800 });
    let incongruenze = rileva_incongruenze(&foto);
    assert_eq!(incongruenze.len(), 1);
    assert_eq!(
        incongruenze[0],
        Incongruenza::AnnoDiverso { anno_exif: 2005, anno_nome: 2002 }
    );
    // Severity counts the full day distance to the filename date.
    assert!(calcola_gravita_incongruenza(&foto) > 365 * 3);
}

#[test]
fn descrizioni_delle_incongruenze() {
    let anno = Incongruenza::AnnoDiverso { anno_exif: 2005, anno_nome: 2002 };
    assert_eq!(anno.descrizione(), "EXIF anno 2005 != filename anno 2002");
    let data = Incongruenza::DataDiversa {
        anno_exif: 2005,
        mese_exif: 7,
        giorno_exif: 28,
        anno_json: 2005,
        mese_json: 7,
        giorno_json: 29,
        giorni: 1,
    };
    assert_eq!(
        data.descrizione(),
        "EXIF 2005-07-28 != JSON photoTakenTime 2005-07-29 (differenza: 1 giorni)"
    );
    assert_eq!(Incongruenza::ExifMancante.descrizione(), "EXIF DateTimeOriginal mancante");
}

#[test]
fn filtri_sulle_incongruenze() {
    let mut foto = foto_vuota("a.jpg");
    assert!(!FiltroIncongruenza::Tutte.matches(&foto));
    foto.incongruenze = vec![Incongruenza::ExifMancante];
    assert!(FiltroIncongruenza::Tutte.matches(&foto));
    assert!(FiltroIncongruenza::SoloExifMancante.matches(&foto));
    assert!(!FiltroIncongruenza::ExifAnnoDiversoFilename.matches(&foto));
    assert!(!FiltroIncongruenza::ExifDiversoJson.matches(&foto));
    foto.incongruenze = vec![
        Incongruenza::AnnoDiverso { anno_exif: 2005, anno_nome: 2002 },
        Incongruenza::DataDiversa {
            anno_exif: 2005,
            mese_exif: 7,
            giorno_exif: 28,
            anno_json: 2005,
            mese_json: 7,
            giorno_json: 29,
            giorni: 1,
        },
    ];
    assert!(FiltroIncongruenza::ExifAnnoDiversoFilename.matches(&foto));
    assert!(FiltroIncongruenza::ExifDiversoJson.matches(&foto));
    assert!(!FiltroIncongruenza::SoloExifMancante.matches(&foto));
    assert_eq!(FiltroIncongruenza::Tutte.display_name(), "Tutte le incongruenze");
    assert_eq!(UnitaGravita::Giorni.display_name(), "Days");
}

#[test]
fn assemblaggio_di_un_record() {
    let sidecar = "{\"photoTakenTime\":{\"timestamp\":\"1122544800\"},\"creationTime\":{\"timestamp\":\"1122602400\"}}";
    let foto = leggi_foto_singola(
        "/foto/20050806_x.jpg".to_string(),
        "20050806_x.jpg".to_string(),
        Some(sidecar.to_string()),
        None,
    );
    assert_eq!(foto.nome_file, "20050806_x.jpg");
    assert_eq!(foto.data_nome, Some((2005, 8, 6)));
    assert_eq!(foto.anno_nome, Some(2005));
    assert_eq!(foto.data_json, Some(Istante { secondi: 1122544800 }));
    assert_eq!(foto.data_json_creation, Some(Istante { secondi: 1122602400 }));
    assert_eq!(foto.exif_datetime_original, None);
    assert_eq!(foto.strategia_datetime_original, Strategia::NomeFilePreferito);
    // Default strategy: the filename date at noon wins over the sidecar.
    assert_eq!(foto.proposta_datetime_original, Some(Istante { secondi: 1123329600 }));
    assert_eq!(foto.incongruenze, vec![Incongruenza::ExifMancante]);
    assert_eq!(foto.gravita_incongruenza, 0);
}

#[test]
fn ricalcolo_dopo_cambio_di_strategia() {
    let sidecar = "{\"photoTakenTime\":{\"timestamp\":\"1122544800\"}}";
    let mut foto = leggi_foto_singola(
        "/foto/20050806_x.jpg".to_string(),
        "20050806_x.jpg".to_string(),
        Some(sidecar.to_string()),
        None,
    );
    assert_eq!(foto.proposta_datetime_original, Some(Istante { secondi: 1123329600 }));
    foto.strategia_datetime_original = Strategia::JsonPhotoTaken;
    ricalcola(&mut foto);
    assert_eq!(foto.proposta_datetime_original, Some(Istante { secondi: 1122544800 }));
    assert_eq!(foto.data_nome, Some((2005, 8, 6)));
}

#[test]
fn ordinamento_indipendente_dall_arrivo() {
    // The same records in two arrival orders sort to the same result.
    let nomi_a = ["c.jpg", "a.jpg", "b.jpg", "d.jpg"];
    let nomi_b = ["d.jpg", "b.jpg", "a.jpg", "c.jpg"];
    let lista_a: Vec<FotoData> = nomi_a.iter().map(|n| foto_vuota(n)).collect();
    let lista_b: Vec<FotoData> = nomi_b.iter().map(|n| foto_vuota(n)).collect();
    let ordinata_a = ordina_foto_per_nome(lista_a);
    let ordinata_b = ordina_foto_per_nome(lista_b);
    assert_eq!(ordinata_a.len(), 4);
    let nomi_ordinati_a: Vec<&str> =
        ordinata_a.iter().map(|f| f.nome_file.as_str()).collect();
    let nomi_ordinati_b: Vec<&str> =
        ordinata_b.iter().map(|f| f.nome_file.as_str()).collect();
    assert_eq!(nomi_ordinati_a, vec!["a.jpg", "b.jpg", "c.jpg", "d.jpg"]);
    assert_eq!(nomi_ordinati_a, nomi_ordinati_b);
}

#[test]
fn ordinamento_stabile_sui_gia_ordinati() {
    let nomi = ["a.jpg", "b.jpg"];
    let lista: Vec<FotoData> = nomi.iter().map(|n| foto_vuota(n)).collect();
    let ordinata = ordina_foto_per_nome(lista);
    assert_eq!(ordinata[0].nome_file, "a.jpg");
    assert_eq!(ordinata[1].nome_file, "b.jpg");
}
