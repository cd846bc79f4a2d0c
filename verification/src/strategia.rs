//! The closed set of strategies that derive one proposed instant from
//! a record's sources, and their user-facing identifiers.
//!
//! A filename date carries no time of day, so filename-derived
//! proposals stand at the neutral 12:00:00 UTC rather than fabricate
//! precision.  Resolution is total: an unknown identifier resolves to
//! no proposal, never to an error.

use crate::calendario::data_valida;
use crate::calendario::data_valida_esec;
use crate::foto::FotoData;
use crate::istante::Istante;
use crate::istante::istante_civile;
use vstd::prelude::*;

verus! {

/// The six named strategies.
#[derive(Clone, Copy, PartialEq, Eq, Structural, Debug)]
pub enum Strategia {
    /// The filename date at noon.
    NomeFile,
    /// The sidecar capture time verbatim.
    JsonPhotoTaken,
    /// The sidecar creation time verbatim.
    JsonCreation,
    /// The embedded original time verbatim.
    ExifAttuale,
    /// The filename date at noon when present, else the sidecar
    /// capture time.
    NomeFilePreferito,
    /// The sidecar capture time, else its creation time, else the
    /// filename date at noon.
    JsonPreferito,
}

impl Strategia {
    /// The strategy's identifier.
    pub open spec fn spec_stringa(self) -> Seq<char> {
        match self {
            Strategia::NomeFile => "nome_file"@,
            Strategia::JsonPhotoTaken => "json_photo_taken"@,
            Strategia::JsonCreation => "json_creation"@,
            Strategia::ExifAttuale => "exif_attuale"@,
            Strategia::NomeFilePreferito => "nome_file_preferito"@,
            Strategia::JsonPreferito => "json_preferito"@,
        }
    }

    pub fn as_str(&self) -> (r: &'static str)
        ensures
            r@ == self.spec_stringa(),
    {
        match self {
            Strategia::NomeFile => "nome_file",
            Strategia::JsonPhotoTaken => "json_photo_taken",
            Strategia::JsonCreation => "json_creation",
            Strategia::ExifAttuale => "exif_attuale",
            Strategia::NomeFilePreferito => "nome_file_preferito",
            Strategia::JsonPreferito => "json_preferito",
        }
    }

    /// The strategy an identifier names, if any.
    pub open spec fn spec_da_stringa(s: Seq<char>) -> Option<Strategia> {
        if s == "nome_file"@ {
            Some(Strategia::NomeFile)
        } else if s == "json_photo_taken"@ {
            Some(Strategia::JsonPhotoTaken)
        } else if s == "json_creation"@ {
            Some(Strategia::JsonCreation)
        } else if s == "exif_attuale"@ {
            Some(Strategia::ExifAttuale)
        } else if s == "nome_file_preferito"@ {
            Some(Strategia::NomeFilePreferito)
        } else if s == "json_preferito"@ {
            Some(Strategia::JsonPreferito)
        } else {
            None
        }
    }

    /// Fallible conversion from an identifier: the boundary where
    /// strings leave the closed strategy set.
    pub fn da_stringa(s: &str) -> (r: Option<Strategia>)
        ensures
            r == Self::spec_da_stringa(s@),
    {
        if crate::testo::stringhe_uguali(s, "nome_file") {
            Some(Strategia::NomeFile)
        } else if crate::testo::stringhe_uguali(s, "json_photo_taken") {
            Some(Strategia::JsonPhotoTaken)
        } else if crate::testo::stringhe_uguali(s, "json_creation") {
            Some(Strategia::JsonCreation)
        } else if crate::testo::stringhe_uguali(s, "exif_attuale") {
            Some(Strategia::ExifAttuale)
        } else if crate::testo::stringhe_uguali(s, "nome_file_preferito") {
            Some(Strategia::NomeFilePreferito)
        } else if crate::testo::stringhe_uguali(s, "json_preferito") {
            Some(Strategia::JsonPreferito)
        } else {
            None
        }
    }

    /// Conversion with the interface's default for unknown
    /// identifiers.
    pub fn from_str(s: &str) -> (r: Strategia)
        ensures
            r == match Self::spec_da_stringa(s@) {
                Some(st) => st,
                None => Strategia::NomeFilePreferito,
            },
    {
        match Self::da_stringa(s) {
            Some(st) => st,
            None => Strategia::NomeFilePreferito,
        }
    }

    pub open spec fn spec_nome_mostrato(self) -> Seq<char> {
        match self {
            Strategia::NomeFile => "Use year from filename"@,
            Strategia::JsonPhotoTaken => "Use photoTakenTime from JSON"@,
            Strategia::JsonCreation => "Use creationTime from JSON"@,
            Strategia::ExifAttuale => "Keep current EXIF"@,
            Strategia::NomeFilePreferito => "Prefer filename, otherwise JSON"@,
            Strategia::JsonPreferito => "Prefer JSON photoTakenTime, otherwise filename"@,
        }
    }

    pub fn display_name(&self) -> (r: &'static str)
        ensures
            r@ == self.spec_nome_mostrato(),
    {
        match self {
            Strategia::NomeFile => "Use year from filename",
            Strategia::JsonPhotoTaken => "Use photoTakenTime from JSON",
            Strategia::JsonCreation => "Use creationTime from JSON",
            Strategia::ExifAttuale => "Keep current EXIF",
            Strategia::NomeFilePreferito => "Prefer filename, otherwise JSON",
            Strategia::JsonPreferito => "Prefer JSON photoTakenTime, otherwise filename",
        }
    }
}

/// The noon instant of a filename date, when the date names a real
/// calendar day; a day the calendar lacks yields nothing.
pub open spec fn istante_nome(d: (i32, u32, u32)) -> Option<Istante> {
    if data_valida(d.0 as int, d.1 as int, d.2 as int) {
        Some(istante_civile(d.0 as int, d.1 as int, d.2 as int, 12, 0, 0))
    } else {
        None
    }
}

/// The proposal each strategy derives from a record's sources, for
/// every record and strategy: a pure function of the two.
pub open spec fn spec_proposta(foto: FotoData, st: Strategia) -> Option<Istante> {
    match st {
        Strategia::NomeFile => match foto.data_nome {
            Some(d) => istante_nome(d),
            None => None,
        },
        Strategia::JsonPhotoTaken => foto.data_json,
        Strategia::JsonCreation => foto.data_json_creation,
        Strategia::ExifAttuale => foto.exif_datetime_original,
        Strategia::NomeFilePreferito => match foto.data_nome {
            Some(d) => if data_valida(d.0 as int, d.1 as int, d.2 as int) {
                istante_nome(d)
            } else {
                foto.data_json
            },
            None => foto.data_json,
        },
        Strategia::JsonPreferito => if foto.data_json is Some {
            foto.data_json
        } else if foto.data_json_creation is Some {
            foto.data_json_creation
        } else {
            match foto.data_nome {
                Some(d) => istante_nome(d),
                None => None,
            }
        },
    }
}

fn istante_da_data_nome(d: (i32, u32, u32)) -> (r: Option<Istante>)
    ensures
        r == istante_nome(d),
        r matches Some(i) ==> i.valido(),
{
    if data_valida_esec(d.0, d.1, d.2) {
        Some(Istante::da_civile(d.0, d.1, d.2, 12, 0, 0))
    } else {
        None
    }
}

/// Resolves one strategy over a record's sources.  The result is
/// `spec_proposta` of the two arguments and of nothing else, so two
/// calls on the same record and strategy agree.
pub fn calcola_proposta_strategia(foto: &FotoData, st: Strategia) -> (r: Option<Istante>)
    requires
        foto.ben_formata(),
    ensures
        r == spec_proposta(*foto, st),
{
    match st {
        Strategia::NomeFile => match foto.data_nome {
            Some(d) => istante_da_data_nome(d),
            None => None,
        },
        Strategia::JsonPhotoTaken => foto.data_json,
        Strategia::JsonCreation => foto.data_json_creation,
        Strategia::ExifAttuale => foto.exif_datetime_original,
        Strategia::NomeFilePreferito => match foto.data_nome {
            Some(d) => match istante_da_data_nome(d) {
                Some(i) => Some(i),
                None => foto.data_json,
            },
            None => foto.data_json,
        },
        Strategia::JsonPreferito => match foto.data_json {
            Some(i) => Some(i),
            None => match foto.data_json_creation {
                Some(i) => Some(i),
                None => match foto.data_nome {
                    Some(d) => istante_da_data_nome(d),
                    None => None,
                },
            },
        },
    }
}

/// Resolves a strategy named by an identifier string: an unknown
/// identifier yields no proposal, by design and not as an error.
pub fn calcola_proposta_con_strategia(foto: &FotoData, strategia: &str) -> (r: Option<Istante>)
    requires
        foto.ben_formata(),
    ensures
        r == match Strategia::spec_da_stringa(strategia@) {
            Some(st) => spec_proposta(*foto, st),
            None => None,
        },
{
    match Strategia::da_stringa(strategia) {
        Some(st) => calcola_proposta_strategia(foto, st),
        None => None,
    }
}

/// Resolves the record's own strategy for the original-time field.
pub fn calcola_proposta(foto: &FotoData) -> (r: Option<Istante>)
    requires
        foto.ben_formata(),
    ensures
        r == spec_proposta(*foto, foto.strategia_datetime_original),
{
    calcola_proposta_strategia(foto, foto.strategia_datetime_original)
}

/// With a filename date naming a real calendar day, the
/// filename-preferred strategy returns the noon instant of that date,
/// never the sidecar capture time, whatever the sidecar holds.
pub proof fn lemma_nome_preferito_vince(foto: FotoData, d: (i32, u32, u32))
    requires
        foto.data_nome == Some(d),
        data_valida(d.0 as int, d.1 as int, d.2 as int),
    ensures
        spec_proposta(foto, Strategia::NomeFilePreferito) == Some(
            istante_civile(d.0 as int, d.1 as int, d.2 as int, 12, 0, 0),
        ),
{
}

} // verus!
