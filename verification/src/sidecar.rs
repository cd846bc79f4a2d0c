//! The sidecar JSON export beside a photo: the candidate file names it
//! may hide under, and the two optional UTC instants it carries.
//!
//! A sidecar is an object with optional `photoTakenTime.timestamp` and
//! `creationTime.timestamp` members, each a decimal string of Unix
//! epoch seconds.  Reading a field degrades to nothing on any failure,
//! without touching the other field.

use crate::calendario::SECONDI_MASSIMI;
use crate::calendario::SECONDI_MINIMI;
use crate::istante::Istante;
use crate::nome_file::spec_stem;
use crate::nome_file::stem_di;
use crate::testo::analisi_i64;
use crate::testo::analizza_i64;
use vstd::prelude::*;

verus! {

/// The string under the member `<chiave>.timestamp` of the JSON object
/// written in `testo`, if the text parses and the members are there: a
/// function of the two arguments alone.
pub uninterp spec fn campo_timestamp_di(testo: Seq<char>, chiave: Seq<char>) -> Option<Seq<char>>;

/// Relies on serde_json::from_str and serde_json::Value::get: parses
/// `testo` as JSON and walks to the string under `<chiave>.timestamp`.
/// Both are deterministic in their arguments, so the result is
/// `campo_timestamp_di` of the two views.
#[verifier::external_body]
fn estrai_timestamp_json(testo: &str, chiave: &str) -> (r: Option<String>)
    ensures
        match r {
            Some(s) => campo_timestamp_di(testo@, chiave@) == Some(s@),
            None => campo_timestamp_di(testo@, chiave@) is None,
        },
{
    let valore: serde_json::Value = match serde_json::from_str(testo) {
        Ok(v) => v,
        Err(_) => return None,
    };
    match valore.get(chiave).and_then(|c| c.get("timestamp")).and_then(|t| t.as_str()) {
        Some(s) => Some(s.to_string()),
        None => None,
    }
}

/// Instant a timestamp string denotes: a decimal second count read as
/// by `analisi_i64`, kept only when it falls in the library's years.
pub open spec fn istante_da_timestamp(s: Seq<char>) -> Option<Istante> {
    match analisi_i64(s) {
        Some(v) => if SECONDI_MINIMI <= v <= SECONDI_MASSIMI {
            Some(Istante { secondi: v as i64 })
        } else {
            None
        },
        None => None,
    }
}

/// Instant under the member `<chiave>.timestamp` of a sidecar text.
pub open spec fn spec_campo_data(testo: Seq<char>, chiave: Seq<char>) -> Option<Istante> {
    match campo_timestamp_di(testo, chiave) {
        Some(ts) => istante_da_timestamp(ts),
        None => None,
    }
}

fn campo_data(testo: &str, chiave: &str) -> (r: Option<Istante>)
    ensures
        r == spec_campo_data(testo@, chiave@),
        r matches Some(i) ==> i.valido(),
{
    match estrai_timestamp_json(testo, chiave) {
        Some(ts) => match analizza_i64(ts.as_str()) {
            Some(v) => Istante::da_epoch(v),
            None => None,
        },
        None => None,
    }
}

/// Both instants of a sidecar text: capture time and creation time,
/// each degrading to nothing independently of the other.
pub fn leggi_data_json_completo(contenuto: &str) -> (r: (Option<Istante>, Option<Istante>))
    ensures
        r.0 == spec_campo_data(contenuto@, "photoTakenTime"@),
        r.1 == spec_campo_data(contenuto@, "creationTime"@),
        r.0 matches Some(i) ==> i.valido(),
        r.1 matches Some(i) ==> i.valido(),
{
    (campo_data(contenuto, "photoTakenTime"), campo_data(contenuto, "creationTime"))
}

/// What reading one preferred instant from a sidecar text yields:
/// a capture timestamp that parses decides by itself, in or out of
/// range; only an absent or unparsable one defers to creation time.
pub open spec fn spec_leggi_data_json(testo: Seq<char>) -> Option<Istante> {
    match campo_timestamp_di(testo, "photoTakenTime"@) {
        Some(ts) => match analisi_i64(ts) {
            Some(v) => if SECONDI_MINIMI <= v <= SECONDI_MASSIMI {
                Some(Istante { secondi: v as i64 })
            } else {
                None
            },
            None => spec_campo_data(testo, "creationTime"@),
        },
        None => spec_campo_data(testo, "creationTime"@),
    }
}

/// One preferred instant of a sidecar text: capture time first,
/// creation time as fallback, as `spec_leggi_data_json` states.
pub fn leggi_data_json(contenuto: &str) -> (r: Option<Istante>)
    ensures
        r == spec_leggi_data_json(contenuto@),
        r matches Some(i) ==> i.valido(),
{
    match estrai_timestamp_json(contenuto, "photoTakenTime") {
        Some(ts) => match analizza_i64(ts.as_str()) {
            Some(v) => Istante::da_epoch(v),
            None => campo_data(contenuto, "creationTime"),
        },
        None => campo_data(contenuto, "creationTime"),
    }
}

/// The sidecar suffix spellings observed in real exports, canonical
/// first.
pub open spec fn spec_suffissi_sidecar() -> Seq<Seq<char>> {
    seq![
        ".supplemental-metadata.json"@,
        ".supplemental.json"@,
        ".supplemental-met.json"@,
        ".supplemental-me.json"@,
        ".supplemental-metad.json"@,
        ".supplementa.json"@,
        ".supplemen.json"@,
    ]
}

/// The candidate sidecar names of a photo name, in probe order: for
/// each suffix, first the full name and then the stem carry it.
pub open spec fn spec_nomi_sidecar(nome: Seq<char>) -> Seq<Seq<char>> {
    Seq::new(
        14,
        |i: int|
            if i % 2 == 0 {
                nome + spec_suffissi_sidecar()[i / 2]
            } else {
                spec_stem(nome) + spec_suffissi_sidecar()[i / 2]
            },
    )
}

fn concatena(a: &str, b: &str) -> (r: String)
    ensures
        r@ == a@ + b@,
{
    let mut s = String::new();
    s.append(a);
    s.append(b);
    s
}

/// The candidate sidecar names of a photo name, in probe order.
pub fn lista_nomi_sidecar(nome_file: &str) -> (r: Vec<String>)
    ensures
        r@.len() == 14,
        forall|i: int| 0 <= i < 14 ==> #[trigger] r@[i]@ == spec_nomi_sidecar(nome_file@)[i],
{
    let stem = stem_di(nome_file);
    let mut v: Vec<String> = Vec::new();
    v.push(concatena(nome_file, ".supplemental-metadata.json"));
    v.push(concatena(stem, ".supplemental-metadata.json"));
    v.push(concatena(nome_file, ".supplemental.json"));
    v.push(concatena(stem, ".supplemental.json"));
    v.push(concatena(nome_file, ".supplemental-met.json"));
    v.push(concatena(stem, ".supplemental-met.json"));
    v.push(concatena(nome_file, ".supplemental-me.json"));
    v.push(concatena(stem, ".supplemental-me.json"));
    v.push(concatena(nome_file, ".supplemental-metad.json"));
    v.push(concatena(stem, ".supplemental-metad.json"));
    v.push(concatena(nome_file, ".supplementa.json"));
    v.push(concatena(stem, ".supplementa.json"));
    v.push(concatena(nome_file, ".supplemen.json"));
    v.push(concatena(stem, ".supplemen.json"));
    v
}

/// Index of the first candidate that is there, if any: the probe order
/// decides among several sidecars.
pub fn primo_esistente(esiste: &Vec<bool>) -> (r: Option<usize>)
    ensures
        match r {
            Some(i) => i < esiste@.len() && esiste@[i as int] && forall|j: int|
                0 <= j < i ==> !esiste@[j],
            None => forall|j: int| 0 <= j < esiste@.len() ==> !esiste@[j],
        },
{
    let mut i: usize = 0;
    while i < esiste.len()
        invariant
            0 <= i <= esiste@.len(),
            forall|j: int| 0 <= j < i ==> !esiste@[j],
        decreases esiste@.len() - i,
    {
        if *esiste.get(i).unwrap() {
            return Some(i);
        }
        i = i + 1;
    }
    None
}

} // verus!
