use correttore_date::CampoExif;
use correttore_date::Istante;
use correttore_date::leggi_exif_datetime;
use correttore_date::ottieni_tutti_campi_exif;

/// A minimal little-endian TIFF: IFD0 with the modification date-time
/// and a pointer to an Exif IFD carrying the original and digitized
/// date-times.
fn tiff_esempio() -> Vec<u8> {
    let mut b: Vec<u8> = Vec::new();
    b.extend_from_slice(&[0x49, 0x49, 42, 0, 8, 0, 0, 0]);
    // IFD0 at offset 8: two entries.
    b.extend_from_slice(&[2, 0]);
    b.extend_from_slice(&[0x32, 0x01, 2, 0, 20, 0, 0, 0, 68, 0, 0, 0]);
    b.extend_from_slice(&[0x69, 0x87, 4, 0, 1, 0, 0, 0, 38, 0, 0, 0]);
    b.extend_from_slice(&[0, 0, 0, 0]);
    // Exif IFD at offset 38: two entries.
    b.extend_from_slice(&[2, 0]);
    b.extend_from_slice(&[0x03, 0x90, 2, 0, 20, 0, 0, 0, 88, 0, 0, 0]);
    b.extend_from_slice(&[0x04, 0x90, 2, 0, 20, 0, 0, 0, 108, 0, 0, 0]);
    b.extend_from_slice(&[0, 0, 0, 0]);
    // ASCII values at offsets 68, 88, 108.
    b.extend_from_slice(b"2003:04:05 06:07:08\0");
    b.extend_from_slice(b"2005:07:28 10:00:00\0");
    b.extend_from_slice(b"2005:07:29 02:00:00\0");
    b
}

#[test]
fn lettura_dei_tre_campi() {
    let dati = tiff_esempio();
    assert_eq!(
        leggi_exif_datetime(&dati, CampoExif::Originale),
        Some(Istante { secondi: 1122544800 })
    );
    assert_eq!(
        leggi_exif_datetime(&dati, CampoExif::Digitalizzazione),
        Some(Istante { secondi: 1122602400 })
    );
    assert_eq!(
        leggi_exif_datetime(&dati, CampoExif::Modifica),
        Some(Istante { secondi: 1049522828 })
    );
}

#[test]
fn lettura_di_tutti_i_campi_insieme() {
    let dati = tiff_esempio();
    let (originale, digitalizzazione, modifica) = ottieni_tutti_campi_exif(&dati);
    assert_eq!(originale, Some(Istante { secondi: 1122544800 }));
    assert_eq!(digitalizzazione, Some(Istante { secondi: 1122602400 }));
    assert_eq!(modifica, Some(Istante { secondi: 1049522828 }));
}

#[test]
fn contenitore_illeggibile() {
    let dati: Vec<u8> = vec![0, 1, 2, 3, 4, 5, 6, 7];
    assert_eq!(leggi_exif_datetime(&dati, CampoExif::Originale), None);
    assert_eq!(ottieni_tutti_campi_exif(&dati), (None, None, None));
    let vuoto: Vec<u8> = Vec::new();
    assert_eq!(leggi_exif_datetime(&vuoto, CampoExif::Modifica), None);
}

#[test]
fn campo_assente() {
    // A TIFF whose only field is the modification time: the original
    // and digitized fields are absent.
    let mut b: Vec<u8> = Vec::new();
    b.extend_from_slice(&[0x49, 0x49, 42, 0, 8, 0, 0, 0]);
    b.extend_from_slice(&[1, 0]);
    b.extend_from_slice(&[0x32, 0x01, 2, 0, 20, 0, 0, 0, 26, 0, 0, 0]);
    b.extend_from_slice(&[0, 0, 0, 0]);
    b.extend_from_slice(b"2003:04:05 06:07:08\0");
    assert_eq!(leggi_exif_datetime(&b, CampoExif::Originale), None);
    assert_eq!(
        leggi_exif_datetime(&b, CampoExif::Modifica),
        Some(Istante { secondi: 1049522828 })
    );
}
