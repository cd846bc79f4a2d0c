//! Disagreements between a record's date sources, their rendering, and
//! the severity score that ranks them.
//!
//! Embedded and sidecar instants are compared by calendar date only:
//! hours may legitimately differ between the two, dates should not.
//! A missing embedded time beside other data is flagged but carries no
//! magnitude, so its severity stays zero.

use crate::calendario::data_valida;
use crate::calendario::giorno_rata_esec;
use crate::calendario::giorno_unix;
use crate::calendario::GIORNI_EPOCA;
use crate::foto::FotoData;
use crate::istante::Istante;
use crate::testo::cifre_decimali;
use crate::testo::cifre_decimali_pad;
use crate::testo::numero_stringa;
use crate::testo::numero_stringa_pad;
use vstd::prelude::*;

verus! {

/// One detected disagreement.
#[derive(Clone, Copy, PartialEq, Eq, Structural, Debug)]
pub enum Incongruenza {
    /// The embedded original year and the filename year differ.
    AnnoDiverso { anno_exif: i32, anno_nome: i32 },
    /// The embedded original date and the sidecar capture date differ
    /// by `giorni` whole days.
    DataDiversa {
        anno_exif: i32,
        mese_exif: u32,
        giorno_exif: u32,
        anno_json: i32,
        mese_json: u32,
        giorno_json: u32,
        giorni: i64,
    },
    /// The embedded original time is absent while a filename date or a
    /// sidecar capture time is there: recoverable loss, not a
    /// comparison failure.
    ExifMancante,
}

/// Whole days between the calendar dates of two instants, never
/// negative; differences confined to the time of day count as zero.
pub open spec fn differenza_giorni(a: Istante, b: Istante) -> int {
    let d = a.giorno_unix_spec() - b.giorno_unix_spec();
    if d < 0 {
        -d
    } else {
        d
    }
}

/// The year-mismatch entry of a record, if its rule fires.
pub open spec fn spec_incongruenza_anno(foto: FotoData, e: Istante) -> Seq<Incongruenza> {
    match foto.anno_nome {
        Some(an) => if e.anno_spec() != an {
            seq![Incongruenza::AnnoDiverso { anno_exif: e.anno_spec() as i32, anno_nome: an }]
        } else {
            Seq::empty()
        },
        None => Seq::empty(),
    }
}

/// The date-mismatch entry of a record, if its rule fires.
pub open spec fn spec_incongruenza_data(foto: FotoData, e: Istante) -> Seq<Incongruenza> {
    match foto.data_json {
        Some(j) => if differenza_giorni(e, j) >= 1 {
            seq![
                Incongruenza::DataDiversa {
                    anno_exif: e.civile_spec().0 as i32,
                    mese_exif: e.civile_spec().1 as u32,
                    giorno_exif: e.civile_spec().2 as u32,
                    anno_json: j.civile_spec().0 as i32,
                    mese_json: j.civile_spec().1 as u32,
                    giorno_json: j.civile_spec().2 as u32,
                    giorni: differenza_giorni(e, j) as i64,
                },
            ]
        } else {
            Seq::empty()
        },
        None => Seq::empty(),
    }
}

/// Every discrepancy of a record, in order: with an embedded original
/// time, the year rule and then the date rule, each independently;
/// without one, a single missing-time entry when anything else is
/// there to miss it, and nothing when no comparison is possible.
pub open spec fn spec_rileva(foto: FotoData) -> Seq<Incongruenza> {
    match foto.exif_datetime_original {
        Some(e) => spec_incongruenza_anno(foto, e) + spec_incongruenza_data(foto, e),
        None => if foto.anno_nome is Some || foto.data_json is Some {
            seq![Incongruenza::ExifMancante]
        } else {
            Seq::empty()
        },
    }
}

/// Detects every applicable discrepancy of a record, in the order
/// `spec_rileva` states; every entry carries fields `descrizione` can
/// render.
pub fn rileva_incongruenze(foto: &FotoData) -> (r: Vec<Incongruenza>)
    requires
        foto.ben_formata(),
    ensures
        r@ == spec_rileva(*foto),
        forall|k: int| 0 <= k < r@.len() ==> (#[trigger] r@[k]).campi_ammessi(),
{
    let mut r: Vec<Incongruenza> = Vec::new();
    match foto.exif_datetime_original {
        Some(e) => {
            let ce = e.civile();
            match foto.anno_nome {
                Some(an) => {
                    if ce.anno != an {
                        r.push(
                            Incongruenza::AnnoDiverso { anno_exif: ce.anno, anno_nome: an },
                        );
                    }
                },
                None => {},
            }
            match foto.data_json {
                Some(j) => {
                    let ge = e.giorno_unix_esec();
                    let gj = j.giorno_unix_esec();
                    let diff: i64 = if ge >= gj {
                        ge - gj
                    } else {
                        gj - ge
                    };
                    if diff >= 1 {
                        let cj = j.civile();
                        r.push(
                            Incongruenza::DataDiversa {
                                anno_exif: ce.anno,
                                mese_exif: ce.mese,
                                giorno_exif: ce.giorno,
                                anno_json: cj.anno,
                                mese_json: cj.mese,
                                giorno_json: cj.giorno,
                                giorni: diff,
                            },
                        );
                    }
                },
                None => {},
            }
            proof {
                assert(r@ =~= spec_rileva(*foto));
            }
        },
        None => {
            if foto.anno_nome.is_some() || foto.data_json.is_some() {
                r.push(Incongruenza::ExifMancante);
            }
            proof {
                assert(r@ =~= spec_rileva(*foto));
            }
        },
    }
    r
}

/// The severity of a record, in whole days: with an embedded original
/// time, the largest calendar-date distance to the filename date and
/// to the sidecar capture date, counting only the sources that are
/// there (a filename date the calendar lacks is not); without one,
/// zero: absence is binary and carries no magnitude.
pub open spec fn spec_gravita(foto: FotoData) -> int {
    match foto.exif_datetime_original {
        Some(e) => {
            let d1 = match foto.data_nome {
                Some(d) => if data_valida(d.0 as int, d.1 as int, d.2 as int) {
                    let diff = e.giorno_unix_spec() - giorno_unix(
                        d.0 as int,
                        d.1 as int,
                        d.2 as int,
                    );
                    if diff < 0 {
                        -diff
                    } else {
                        diff
                    }
                } else {
                    0
                },
                None => 0,
            };
            let d2 = match foto.data_json {
                Some(j) => differenza_giorni(e, j),
                None => 0,
            };
            if d1 >= d2 {
                d1
            } else {
                d2
            }
        },
        None => 0,
    }
}

/// Scores a record's severity as `spec_gravita` states; the score is
/// never negative, and zero exactly when no temporal discrepancy is
/// quantifiable.
pub fn calcola_gravita_incongruenza(foto: &FotoData) -> (r: i64)
    requires
        foto.ben_formata(),
    ensures
        r == spec_gravita(*foto),
        r >= 0,
{
    match foto.exif_datetime_original {
        Some(e) => {
            let ge = e.giorno_unix_esec();
            let mut massimo: i64 = 0;
            match foto.data_nome {
                Some(d) => {
                    if crate::calendario::data_valida_esec(d.0, d.1, d.2) {
                        let gn = giorno_rata_esec(d.0, d.1, d.2) - GIORNI_EPOCA;
                        let diff: i64 = if ge >= gn {
                            ge - gn
                        } else {
                            gn - ge
                        };
                        if diff > massimo {
                            massimo = diff;
                        }
                    }
                },
                None => {},
            }
            match foto.data_json {
                Some(j) => {
                    let gj = j.giorno_unix_esec();
                    let diff: i64 = if ge >= gj {
                        ge - gj
                    } else {
                        gj - ge
                    };
                    if diff > massimo {
                        massimo = diff;
                    }
                },
                None => {},
            }
            massimo
        },
        None => 0,
    }
}

/// A record with an embedded original time, a sidecar capture time on
/// another calendar day, and no filename date, earns exactly one
/// discrepancy: a date mismatch carrying the day distance, which is
/// also exactly its severity.
pub proof fn lemma_rilievo_data(foto: FotoData, e: Istante, j: Istante)
    requires
        foto.exif_datetime_original == Some(e),
        foto.data_json == Some(j),
        foto.anno_nome is None,
        foto.data_nome is None,
        differenza_giorni(e, j) >= 1,
    ensures
        spec_rileva(foto).len() == 1,
        spec_rileva(foto)[0] matches Incongruenza::DataDiversa { giorni, .. } && giorni
            == differenza_giorni(e, j) as i64,
        spec_gravita(foto) == differenza_giorni(e, j),
{
    assert(spec_rileva(foto) =~= spec_incongruenza_data(foto, e));
}

/// A record without an embedded original time, beside a filename date
/// or a sidecar capture time, earns exactly the missing-time entry,
/// and its severity is zero: absence carries no magnitude.
pub proof fn lemma_rilievo_mancante(foto: FotoData)
    requires
        foto.exif_datetime_original is None,
        foto.anno_nome is Some || foto.data_json is Some,
    ensures
        spec_rileva(foto) =~= seq![Incongruenza::ExifMancante],
        spec_gravita(foto) == 0,
{
}

/// A temporal discrepancy with a magnitude: the embedded original
/// time stands on one calendar day, and the filename date (when the
/// calendar has it) or the sidecar capture date stands on another.
pub open spec fn discrepanza_quantificabile(foto: FotoData) -> bool {
    match foto.exif_datetime_original {
        Some(e) => {
            let dal_nome = match foto.data_nome {
                Some(d) => data_valida(d.0 as int, d.1 as int, d.2 as int) && e.giorno_unix_spec()
                    != giorno_unix(d.0 as int, d.1 as int, d.2 as int),
                None => false,
            };
            let dal_json = match foto.data_json {
                Some(j) => differenza_giorni(e, j) != 0,
                None => false,
            };
            dal_nome || dal_json
        },
        None => false,
    }
}

/// The severity is zero exactly when no temporal discrepancy is
/// quantifiable: a missing source never counts, and agreeing dates
/// count zero.
pub proof fn lemma_gravita_zero(foto: FotoData)
    ensures
        spec_gravita(foto) == 0 <==> !discrepanza_quantificabile(foto),
        spec_gravita(foto) >= 0,
{
}

/// With both an embedded original time and a sidecar capture time on
/// the record, the severity is at least their calendar-date distance:
/// what the date rule reports, the scorer counts.
pub proof fn lemma_gravita_copre_data(foto: FotoData, e: Istante, j: Istante)
    requires
        foto.exif_datetime_original == Some(e),
        foto.data_json == Some(j),
    ensures
        spec_gravita(foto) >= differenza_giorni(e, j),
{
}

/// `YYYY-MM-DD` rendering of a calendar date.
pub open spec fn spec_data_breve(a: int, m: int, g: int) -> Seq<char> {
    cifre_decimali_pad(a, 4) + "-"@ + cifre_decimali_pad(m, 2) + "-"@ + cifre_decimali_pad(g, 2)
}

/// The human-readable line of one discrepancy.
pub open spec fn spec_descrizione(i: Incongruenza) -> Seq<char> {
    match i {
        Incongruenza::AnnoDiverso { anno_exif, anno_nome } => "EXIF anno "@ + cifre_decimali(
            anno_exif as int,
        ) + " != filename anno "@ + cifre_decimali(anno_nome as int),
        Incongruenza::DataDiversa {
            anno_exif,
            mese_exif,
            giorno_exif,
            anno_json,
            mese_json,
            giorno_json,
            giorni,
        } => "EXIF "@ + spec_data_breve(anno_exif as int, mese_exif as int, giorno_exif as int)
            + " != JSON photoTakenTime "@ + spec_data_breve(
            anno_json as int,
            mese_json as int,
            giorno_json as int,
        ) + " (differenza: "@ + cifre_decimali(giorni as int) + " giorni)"@,
        Incongruenza::ExifMancante => "EXIF DateTimeOriginal mancante"@,
    }
}

impl Incongruenza {
    /// The numeric fields every detected discrepancy carries: years of
    /// the library's calendar and a non-negative day count.
    pub open spec fn campi_ammessi(self) -> bool {
        match self {
            Incongruenza::AnnoDiverso { anno_exif, anno_nome } => anno_exif >= 0 && anno_nome
                >= 0,
            Incongruenza::DataDiversa { anno_exif, anno_json, giorni, .. } => anno_exif >= 0
                && anno_json >= 0 && giorni >= 0,
            Incongruenza::ExifMancante => true,
        }
    }

    /// Renders the discrepancy as `spec_descrizione` states.
    pub fn descrizione(&self) -> (r: String)
        requires
            self.campi_ammessi(),
        ensures
            r@ == spec_descrizione(*self),
    {
        match self {
            Incongruenza::AnnoDiverso { anno_exif, anno_nome } => {
                let mut s = String::new();
                s.append("EXIF anno ");
                s.append(numero_stringa(*anno_exif as u64).as_str());
                s.append(" != filename anno ");
                s.append(numero_stringa(*anno_nome as u64).as_str());
                proof {
                    assert(s@ =~= spec_descrizione(*self));
                }
                s
            },
            Incongruenza::DataDiversa {
                anno_exif,
                mese_exif,
                giorno_exif,
                anno_json,
                mese_json,
                giorno_json,
                giorni,
            } => {
                let mut s = String::new();
                s.append("EXIF ");
                s.append(data_breve(*anno_exif, *mese_exif, *giorno_exif).as_str());
                s.append(" != JSON photoTakenTime ");
                s.append(data_breve(*anno_json, *mese_json, *giorno_json).as_str());
                s.append(" (differenza: ");
                s.append(numero_stringa(*giorni as u64).as_str());
                s.append(" giorni)");
                proof {
                    assert(s@ =~= spec_descrizione(*self));
                }
                s
            },
            Incongruenza::ExifMancante => {
                let mut s = String::new();
                s.append("EXIF DateTimeOriginal mancante");
                proof {
                    assert(s@ =~= spec_descrizione(*self));
                }
                s
            },
        }
    }
}

fn data_breve(a: i32, m: u32, g: u32) -> (r: String)
    requires
        a >= 0,
    ensures
        r@ == spec_data_breve(a as int, m as int, g as int),
{
    let mut s = numero_stringa_pad(a as u64, 4);
    s.append("-");
    s.append(numero_stringa_pad(m as u64, 2).as_str());
    s.append("-");
    s.append(numero_stringa_pad(g as u64, 2).as_str());
    proof {
        assert(s@ =~= spec_data_breve(a as int, m as int, g as int));
    }
    s
}

/// The interface's filter over kinds of discrepancy.
#[derive(Clone, Copy, PartialEq, Eq, Structural, Debug)]
pub enum FiltroIncongruenza {
    /// Any discrepancy at all.
    Tutte,
    /// Only records whose embedded original time is missing.
    SoloExifMancante,
    /// Only records whose embedded year disagrees with the filename.
    ExifAnnoDiversoFilename,
    /// Only records whose embedded date disagrees with the sidecar.
    ExifDiversoJson,
}

impl FiltroIncongruenza {
    /// Whether a record's detected discrepancies answer the filter.
    pub open spec fn spec_matches(self, foto: FotoData) -> bool {
        match self {
            FiltroIncongruenza::Tutte => foto.incongruenze@.len() > 0,
            FiltroIncongruenza::SoloExifMancante => exists|i: int|
                0 <= i < foto.incongruenze@.len() && (#[trigger] foto.incongruenze@[i])
                    is ExifMancante,
            FiltroIncongruenza::ExifAnnoDiversoFilename => exists|i: int|
                0 <= i < foto.incongruenze@.len() && (#[trigger] foto.incongruenze@[i])
                    is AnnoDiverso,
            FiltroIncongruenza::ExifDiversoJson => exists|i: int|
                0 <= i < foto.incongruenze@.len() && (#[trigger] foto.incongruenze@[i])
                    is DataDiversa,
        }
    }

    /// Decides the filter over a record.
    #[verifier::loop_isolation(false)]
    pub fn matches(&self, foto: &FotoData) -> (r: bool)
        ensures
            r == self.spec_matches(*foto),
    {
        match self {
            FiltroIncongruenza::Tutte => foto.incongruenze.len() > 0,
            FiltroIncongruenza::SoloExifMancante => {
                let mut i: usize = 0;
                while i < foto.incongruenze.len()
                    invariant
                        0 <= i <= foto.incongruenze@.len(),
                        forall|j: int|
                            0 <= j < i ==> !((#[trigger] foto.incongruenze@[j]) is ExifMancante),
                    decreases foto.incongruenze@.len() - i,
                {
                    if matches!(foto.incongruenze[i], Incongruenza::ExifMancante) {
                        return true;
                    }
                    i = i + 1;
                }
                false
            },
            FiltroIncongruenza::ExifAnnoDiversoFilename => {
                let mut i: usize = 0;
                while i < foto.incongruenze.len()
                    invariant
                        0 <= i <= foto.incongruenze@.len(),
                        forall|j: int|
                            0 <= j < i ==> !((#[trigger] foto.incongruenze@[j]) is AnnoDiverso),
                    decreases foto.incongruenze@.len() - i,
                {
                    if matches!(foto.incongruenze[i], Incongruenza::AnnoDiverso { .. }) {
                        return true;
                    }
                    i = i + 1;
                }
                false
            },
            FiltroIncongruenza::ExifDiversoJson => {
                let mut i: usize = 0;
                while i < foto.incongruenze.len()
                    invariant
                        0 <= i <= foto.incongruenze@.len(),
                        forall|j: int|
                            0 <= j < i ==> !((#[trigger] foto.incongruenze@[j]) is DataDiversa),
                    decreases foto.incongruenze@.len() - i,
                {
                    if matches!(foto.incongruenze[i], Incongruenza::DataDiversa { .. }) {
                        return true;
                    }
                    i = i + 1;
                }
                false
            },
        }
    }

    pub open spec fn spec_nome_mostrato(self) -> Seq<char> {
        match self {
            FiltroIncongruenza::Tutte => "Tutte le incongruenze"@,
            FiltroIncongruenza::SoloExifMancante => "Solo EXIF mancante"@,
            FiltroIncongruenza::ExifAnnoDiversoFilename => "EXIF anno != filename"@,
            FiltroIncongruenza::ExifDiversoJson => "EXIF != JSON photoTakenTime"@,
        }
    }

    pub fn display_name(&self) -> (r: &'static str)
        ensures
            r@ == self.spec_nome_mostrato(),
    {
        match self {
            FiltroIncongruenza::Tutte => "Tutte le incongruenze",
            FiltroIncongruenza::SoloExifMancante => "Solo EXIF mancante",
            FiltroIncongruenza::ExifAnnoDiversoFilename => "EXIF anno != filename",
            FiltroIncongruenza::ExifDiversoJson => "EXIF != JSON photoTakenTime",
        }
    }
}

/// The units the interface's severity threshold can be set in.
#[derive(Clone, Copy, PartialEq, Eq, Structural, Debug)]
pub enum UnitaGravita {
    Secondi,
    Minuti,
    Ore,
    Giorni,
    Mesi,
    Anni,
}

impl UnitaGravita {
    pub open spec fn spec_nome_mostrato(self) -> Seq<char> {
        match self {
            UnitaGravita::Secondi => "Seconds"@,
            UnitaGravita::Minuti => "Minutes"@,
            UnitaGravita::Ore => "Hours"@,
            UnitaGravita::Giorni => "Days"@,
            UnitaGravita::Mesi => "Months"@,
            UnitaGravita::Anni => "Years"@,
        }
    }

    pub fn display_name(&self) -> (r: &'static str)
        ensures
            r@ == self.spec_nome_mostrato(),
    {
        match self {
            UnitaGravita::Secondi => "Seconds",
            UnitaGravita::Minuti => "Minutes",
            UnitaGravita::Ore => "Hours",
            UnitaGravita::Giorni => "Days",
            UnitaGravita::Mesi => "Months",
            UnitaGravita::Anni => "Years",
        }
    }
}

} // verus!
