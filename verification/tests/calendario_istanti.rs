use correttore_date::Istante;
use correttore_date::analizza_data_exif;
use correttore_date::calendario::LIMITE_RATA;
use correttore_date::calendario::civile_da_rata;
use correttore_date::calendario::data_valida_esec;
use correttore_date::calendario::giorno_rata_esec;
use correttore_date::formatta_exif_datetime;
use correttore_date::testo::analizza_i64;
use correttore_date::testo::numero_stringa;
use correttore_date::testo::numero_stringa_pad;

#[test]
fn epoca_e_il_giorno_zero() {
    assert_eq!(giorno_rata_esec(1970, 1, 1), 719162);
    assert_eq!(civile_da_rata(719162), (1970, 1, 1));
}

#[test]
fn rata_e_civile_si_invertono() {
    assert_eq!(civile_da_rata(giorno_rata_esec(2005, 7, 28)), (2005, 7, 28));
    assert_eq!(civile_da_rata(giorno_rata_esec(2004, 2, 29)), (2004, 2, 29));
    assert_eq!(civile_da_rata(0), (1, 1, 1));
    assert_eq!(civile_da_rata(LIMITE_RATA - 1), (9999, 12, 31));
}

#[test]
fn validita_del_calendario() {
    assert!(data_valida_esec(2004, 2, 29));
    assert!(!data_valida_esec(2005, 2, 29));
    assert!(!data_valida_esec(2005, 4, 31));
    assert!(!data_valida_esec(2005, 13, 1));
    assert!(!data_valida_esec(0, 1, 1));
    assert!(!data_valida_esec(10000, 1, 1));
}

#[test]
fn civile_di_un_istante() {
    let i = Istante { secondi: 1122544800 };
    let c = i.civile();
    assert_eq!(c.anno, 2005);
    assert_eq!(c.mese, 7);
    assert_eq!(c.giorno, 28);
    assert_eq!(c.ora, 10);
    assert_eq!(c.minuto, 0);
    assert_eq!(c.secondo, 0);
}

#[test]
fn civile_prima_dell_epoca() {
    let i = Istante { secondi: -1 };
    let c = i.civile();
    assert_eq!(c.anno, 1969);
    assert_eq!(c.mese, 12);
    assert_eq!(c.giorno, 31);
    assert_eq!(c.ora, 23);
    assert_eq!(c.minuto, 59);
    assert_eq!(c.secondo, 59);
}

#[test]
fn da_epoch_entro_i_limiti() {
    assert_eq!(Istante::da_epoch(0), Some(Istante { secondi: 0 }));
    assert_eq!(Istante::da_epoch(-62135596800), Some(Istante { secondi: -62135596800 }));
    assert_eq!(Istante::da_epoch(253402300799), Some(Istante { secondi: 253402300799 }));
    assert_eq!(Istante::da_epoch(-62135596801), None);
    assert_eq!(Istante::da_epoch(253402300800), None);
}

#[test]
fn lettura_data_exif() {
    assert_eq!(
        analizza_data_exif("2005:07:28 10:00:00"),
        Some(Istante { secondi: 1122544800 })
    );
    assert_eq!(
        analizza_data_exif("2003:04:05 06:07:08"),
        Some(Istante { secondi: 1049522828 })
    );
}

#[test]
fn data_exif_rifiutata() {
    assert_eq!(analizza_data_exif("2005:02:29 10:00:00"), None);
    assert_eq!(analizza_data_exif("2005:13:01 10:00:00"), None);
    assert_eq!(analizza_data_exif("2005:07:28 24:00:00"), None);
    assert_eq!(analizza_data_exif("2005:07:28 10:60:00"), None);
    assert_eq!(analizza_data_exif("2005-07-28 10:00:00"), None);
    assert_eq!(analizza_data_exif("2005:07:28 10:00:0"), None);
    assert_eq!(analizza_data_exif("2005:07:28 10:00:00 "), None);
    assert_eq!(analizza_data_exif(""), None);
}

#[test]
fn scrittura_data_exif() {
    let i = Istante { secondi: 1122544800 };
    assert_eq!(formatta_exif_datetime(&i), "2005:07:28 10:00:00");
    let j = Istante { secondi: 1049522828 };
    assert_eq!(formatta_exif_datetime(&j), "2003:04:05 06:07:08");
    let k = Istante { secondi: 0 };
    assert_eq!(formatta_exif_datetime(&k), "1970:01:01 00:00:00");
}

#[test]
fn andata_e_ritorno_exif() {
    let testo = "2004:02:29 23:59:59";
    let i = analizza_data_exif(testo).unwrap();
    assert_eq!(formatta_exif_datetime(&i), testo);
}

#[test]
fn numeri_in_decimale() {
    assert_eq!(numero_stringa(0), "0");
    assert_eq!(numero_stringa(12345), "12345");
    assert_eq!(numero_stringa_pad(7, 4), "0007");
    assert_eq!(numero_stringa_pad(12345, 4), "12345");
}

#[test]
fn lettura_interi() {
    assert_eq!(analizza_i64("123"), Some(123));
    assert_eq!(analizza_i64("-45"), Some(-45));
    assert_eq!(analizza_i64("+42"), Some(42));
    assert_eq!(analizza_i64("9223372036854775807"), Some(i64::MAX));
    assert_eq!(analizza_i64("-9223372036854775808"), Some(i64::MIN));
    assert_eq!(analizza_i64("9223372036854775808"), None);
    assert_eq!(analizza_i64("-9223372036854775809"), None);
    assert_eq!(analizza_i64(""), None);
    assert_eq!(analizza_i64("-"), None);
    assert_eq!(analizza_i64("12a"), None);
    assert_eq!(analizza_i64(" 12"), None);
}
