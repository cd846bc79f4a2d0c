//! The date-time fields embedded in an image's own metadata: reading
//! them out of the raw container bytes, and the fixed
//! `YYYY:MM:DD HH:MM:SS` layout they are written in.

use crate::calendario::data_valida;
use crate::istante::DataOra;
use crate::istante::Istante;
use crate::testo::cifre_decimali_pad;
use crate::testo::pow10;
use crate::testo::e_cifra;
use crate::testo::lemma_sotto_cifre;
use crate::testo::numero_stringa_pad;
use crate::testo::tutte_cifre;
use crate::testo::valore_decimale;
use vstd::prelude::*;

verus! {

/// The three embedded date-time fields the library reads.  The last is
/// informational only: no strategy consults it.
#[derive(Clone, Copy, PartialEq, Eq, Structural, Debug)]
pub enum CampoExif {
    /// When the picture was taken.
    Originale,
    /// When the picture was digitized.
    Digitalizzazione,
    /// When the file was last modified.
    Modifica,
}

impl CampoExif {
    /// The field's tag number in the metadata container.
    pub open spec fn numero_tag(self) -> int {
        match self {
            CampoExif::Originale => 0x9003,
            CampoExif::Digitalizzazione => 0x9004,
            CampoExif::Modifica => 0x0132,
        }
    }
}

/// The ASCII value of the field with the given tag number in the image
/// container written in `dati`, if the container parses and the field
/// is there: a function of the two arguments alone.
pub uninterp spec fn campo_exif_di(dati: Seq<u8>, tag: int) -> Option<Seq<char>>;

/// Relies on exif::Reader::read_from_container and
/// exif::Exif::get_field: parses the raw bytes of an image container
/// and reads the first ASCII value of the requested field from the
/// primary image.  Both are deterministic in the bytes, so the result
/// is `campo_exif_di` of the view.
#[verifier::external_body]
fn estrai_campo_exif(dati: &Vec<u8>, campo: CampoExif) -> (r: Option<String>)
    ensures
        match r {
            Some(s) => campo_exif_di(dati@, campo.numero_tag()) == Some(s@),
            None => campo_exif_di(dati@, campo.numero_tag()) is None,
        },
{
    let tag = match campo {
        CampoExif::Originale => exif::Tag::DateTimeOriginal,
        CampoExif::Digitalizzazione => exif::Tag::DateTimeDigitized,
        CampoExif::Modifica => exif::Tag::DateTime,
    };
    let mut cursore = std::io::Cursor::new(dati.as_slice());
    let letto = exif::Reader::new().read_from_container(&mut cursore).ok()?;
    let trovato = letto.get_field(tag, exif::In::PRIMARY)?;
    match &trovato.value {
        exif::Value::Ascii(v) => v.get(0).map(|b| String::from_utf8_lossy(b).to_string()),
        _ => None,
    }
}

/// What a `YYYY:MM:DD HH:MM:SS` string denotes: exactly nineteen
/// characters, digits and separators in their places, a valid calendar
/// date and time of day; anything else denotes nothing.
pub open spec fn spec_analizza_data_exif(s: Seq<char>) -> Option<Istante> {
    if s.len() == 19 && tutte_cifre(s.subrange(0, 4)) && s[4] == ':' && tutte_cifre(
        s.subrange(5, 7),
    ) && s[7] == ':' && tutte_cifre(s.subrange(8, 10)) && s[10] == ' ' && tutte_cifre(
        s.subrange(11, 13),
    ) && s[13] == ':' && tutte_cifre(s.subrange(14, 16)) && s[16] == ':' && tutte_cifre(
        s.subrange(17, 19),
    ) {
        let a = valore_decimale(s.subrange(0, 4));
        let m = valore_decimale(s.subrange(5, 7));
        let g = valore_decimale(s.subrange(8, 10));
        let o = valore_decimale(s.subrange(11, 13));
        let mi = valore_decimale(s.subrange(14, 16));
        let sec = valore_decimale(s.subrange(17, 19));
        if data_valida(a, m, g) && o < 24 && mi < 60 && sec < 60 {
            Some(crate::istante::istante_civile(a, m, g, o, mi, sec))
        } else {
            None
        }
    } else {
        None
    }
}

/// All characters of `s[da..a]` are digits, decided by inspection.
#[verifier::loop_isolation(false)]
fn gruppo_cifre(s: &str, da: usize, a: usize) -> (r: bool)
    requires
        da <= a,
        a <= s@.len() <= usize::MAX,
    ensures
        r == tutte_cifre(s@.subrange(da as int, a as int)),
{
    let mut j: usize = da;
    while j < a
        invariant
            da <= j <= a,
            forall|k: int| da <= k < j ==> e_cifra(#[trigger] s@[k]),
        decreases a - j,
    {
        let c = s.get_char(j);
        let cu = c as u32;
        if cu < 48 || cu > 57 {
            proof {
                assert(s@.subrange(da as int, a as int)[j - da] == s@[j as int]);
            }
            return false;
        }
        j = j + 1;
    }
    proof {
        lemma_sotto_cifre(s@, da as int, a as int);
    }
    true
}

/// Reads a `YYYY:MM:DD HH:MM:SS` string, with exactly the acceptance
/// behaviour stated by `spec_analizza_data_exif`.
pub fn analizza_data_exif(s: &str) -> (r: Option<Istante>)
    ensures
        r == spec_analizza_data_exif(s@),
        r matches Some(i) ==> i.valido(),
{
    let len = s.unicode_len();
    if len != 19 {
        return None;
    }
    if s.get_char(4) != ':' || s.get_char(7) != ':' || s.get_char(10) != ' ' || s.get_char(13)
        != ':' || s.get_char(16) != ':' {
        return None;
    }
    if !gruppo_cifre(s, 0, 4) || !gruppo_cifre(s, 5, 7) || !gruppo_cifre(s, 8, 10) || !gruppo_cifre(
        s,
        11,
        13,
    ) || !gruppo_cifre(s, 14, 16) || !gruppo_cifre(s, 17, 19) {
        return None;
    }
    let a = crate::nome_file::valore_cifre(s, 0, 4);
    let m = crate::nome_file::valore_cifre(s, 5, 7);
    let g = crate::nome_file::valore_cifre(s, 8, 10);
    let o = crate::nome_file::valore_cifre(s, 11, 13);
    let mi = crate::nome_file::valore_cifre(s, 14, 16);
    let sec = crate::nome_file::valore_cifre(s, 17, 19);
    if a < 1 || a > 9999 || m < 1 || m > 12 || g < 1 {
        return None;
    }
    let gm = crate::calendario::giorni_mese_esec(a as i32, m as u32);
    if g > gm as u64 || o >= 24 || mi >= 60 || sec >= 60 {
        return None;
    }
    Some(
        Istante::da_civile(
            a as i32,
            m as u32,
            g as u32,
            o as u32,
            mi as u32,
            sec as u32,
        ),
    )
}

/// Instant of one embedded field, read from the raw container bytes.
pub open spec fn spec_leggi_exif(dati: Seq<u8>, tag: int) -> Option<Istante> {
    match campo_exif_di(dati, tag) {
        Some(s) => spec_analizza_data_exif(s),
        None => None,
    }
}

/// Reads one embedded date-time field out of an image's raw bytes.
pub fn leggi_exif_datetime(dati: &Vec<u8>, campo: CampoExif) -> (r: Option<Istante>)
    ensures
        r == spec_leggi_exif(dati@, campo.numero_tag()),
        r matches Some(i) ==> i.valido(),
{
    match estrai_campo_exif(dati, campo) {
        Some(s) => analizza_data_exif(s.as_str()),
        None => None,
    }
}

/// Reads the three embedded date-time fields out of an image's raw
/// bytes: original, digitized, modified.
pub fn ottieni_tutti_campi_exif(dati: &Vec<u8>) -> (r: (
    Option<Istante>,
    Option<Istante>,
    Option<Istante>,
))
    ensures
        r.0 == spec_leggi_exif(dati@, CampoExif::Originale.numero_tag()),
        r.1 == spec_leggi_exif(dati@, CampoExif::Digitalizzazione.numero_tag()),
        r.2 == spec_leggi_exif(dati@, CampoExif::Modifica.numero_tag()),
        r.0 matches Some(i) ==> i.valido(),
        r.1 matches Some(i) ==> i.valido(),
        r.2 matches Some(i) ==> i.valido(),
{
    (
        leggi_exif_datetime(dati, CampoExif::Originale),
        leggi_exif_datetime(dati, CampoExif::Digitalizzazione),
        leggi_exif_datetime(dati, CampoExif::Modifica),
    )
}

/// The `YYYY:MM:DD HH:MM:SS` rendering of an instant.
pub open spec fn spec_formatta_istante(i: Istante) -> Seq<char> {
    let (a, m, g) = i.civile_spec();
    let sod = i.secondi_del_giorno_spec();
    cifre_decimali_pad(a, 4) + ":"@ + cifre_decimali_pad(m, 2) + ":"@ + cifre_decimali_pad(g, 2)
        + " "@ + cifre_decimali_pad(sod / 3600, 2) + ":"@ + cifre_decimali_pad((sod / 60) % 60, 2)
        + ":"@ + cifre_decimali_pad(sod % 60, 2)
}

/// Renders an instant in the layout the metadata writer consumes.
pub fn formatta_exif_datetime(i: &Istante) -> (r: String)
    requires
        i.valido(),
    ensures
        r@ == spec_formatta_istante(*i),
{
    let d: DataOra = i.civile();
    let mut s = numero_stringa_pad(d.anno as u64, 4);
    s.append(":");
    s.append(numero_stringa_pad(d.mese as u64, 2).as_str());
    s.append(":");
    s.append(numero_stringa_pad(d.giorno as u64, 2).as_str());
    s.append(" ");
    s.append(numero_stringa_pad(d.ora as u64, 2).as_str());
    s.append(":");
    s.append(numero_stringa_pad(d.minuto as u64, 2).as_str());
    s.append(":");
    s.append(numero_stringa_pad(d.secondo as u64, 2).as_str());
    proof {
        assert(s@ =~= spec_formatta_istante(*i));
    }
    s
}

/// Writing and reading invert: the `YYYY:MM:DD HH:MM:SS` rendering of
/// any valid instant reads back as exactly that instant.
pub proof fn lemma_formato_rilegge(i: Istante)
    requires
        i.valido(),
    ensures
        spec_analizza_data_exif(spec_formatta_istante(i)) == Some(i),
{
    crate::istante::lemma_giorno_e_resto(i);
    crate::calendario::lemma_civile_di_corretta(i.rata_spec());
    let (a, m, g) = i.civile_spec();
    let sod = i.secondi_del_giorno_spec();
    let o = sod / 3600;
    let mi = (sod / 60) % 60;
    let sec = sod % 60;
    vstd::arithmetic::div_mod::lemma_fundamental_div_mod(sod, 3600);
    vstd::arithmetic::div_mod::lemma_mod_bound(sod, 3600);
    vstd::arithmetic::div_mod::lemma_fundamental_div_mod(sod, 60);
    vstd::arithmetic::div_mod::lemma_mod_bound(sod, 60);
    vstd::arithmetic::div_mod::lemma_fundamental_div_mod(sod / 60, 60);
    vstd::arithmetic::div_mod::lemma_mod_bound(sod / 60, 60);
    vstd::arithmetic::div_mod::lemma_div_denominator(sod, 60, 60);
    assert(0 <= o < 24 && 0 <= mi < 60 && 0 <= sec < 60);
    assert(o * 3600 + mi * 60 + sec == sod);
    assert(pow10(4) == 10000 && pow10(2) == 100) by {
        reveal_with_fuel(pow10, 5);
    }
    crate::testo::lemma_cifre_decimali_lunghezza(a, 4);
    crate::testo::lemma_cifre_decimali_lunghezza(m, 2);
    crate::testo::lemma_cifre_decimali_lunghezza(g, 2);
    crate::testo::lemma_cifre_decimali_lunghezza(o, 2);
    crate::testo::lemma_cifre_decimali_lunghezza(mi, 2);
    crate::testo::lemma_cifre_decimali_lunghezza(sec, 2);
    crate::testo::lemma_cifre_decimali_pad(a, 4);
    crate::testo::lemma_cifre_decimali_pad(m, 2);
    crate::testo::lemma_cifre_decimali_pad(g, 2);
    crate::testo::lemma_cifre_decimali_pad(o, 2);
    crate::testo::lemma_cifre_decimali_pad(mi, 2);
    crate::testo::lemma_cifre_decimali_pad(sec, 2);
    let pa = cifre_decimali_pad(a, 4);
    let pm = cifre_decimali_pad(m, 2);
    let pg = cifre_decimali_pad(g, 2);
    let po = cifre_decimali_pad(o, 2);
    let pmi = cifre_decimali_pad(mi, 2);
    let psec = cifre_decimali_pad(sec, 2);
    assert(pa.len() == 4 && pm.len() == 2 && pg.len() == 2 && po.len() == 2 && pmi.len() == 2
        && psec.len() == 2);
    let s = spec_formatta_istante(i);
    reveal_strlit(":");
    reveal_strlit(" ");
    assert(s.len() == 19);
    assert(s.subrange(0, 4) =~= pa);
    assert(s[4] == ':');
    assert(s.subrange(5, 7) =~= pm);
    assert(s[7] == ':');
    assert(s.subrange(8, 10) =~= pg);
    assert(s[10] == ' ');
    assert(s.subrange(11, 13) =~= po);
    assert(s[13] == ':');
    assert(s.subrange(14, 16) =~= pmi);
    assert(s[16] == ':');
    assert(s.subrange(17, 19) =~= psec);
    assert(spec_analizza_data_exif(s) == Some(crate::istante::istante_civile(a, m, g, o, mi, sec)));
    assert(crate::calendario::giorno_unix(a, m, g) == i.giorno_unix_spec());
    assert(crate::istante::istante_civile(a, m, g, o, mi, sec).secondi == i.secondi);
}

} // verus!
