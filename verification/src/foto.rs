//! The in-memory record of one discovered photo: every source field,
//! the proposals the strategies derive, and the annotations of the
//! incongruity detector and the severity scorer.

use crate::incongruenze::Incongruenza;
use crate::istante::Istante;
use crate::nome_file::data_ammessa;
use crate::strategia::Strategia;
use vstd::prelude::*;

verus! {

/// One record per discovered file.  `path` is the identity key;
/// `nome_file` is the display name derived from it.  The three
/// `proposta_*` fields are recomputed whenever the paired `strategia_*`
/// fields change and are never kept apart from them.
#[derive(Debug, Clone)]
pub struct FotoData {
    pub path: String,
    pub nome_file: String,
    pub anno_nome: Option<i32>,
    pub data_nome: Option<(i32, u32, u32)>,
    pub data_json: Option<Istante>,
    pub data_json_creation: Option<Istante>,
    pub exif_datetime_original: Option<Istante>,
    pub exif_create_date: Option<Istante>,
    pub exif_modify_date: Option<Istante>,
    pub proposta_datetime_original: Option<Istante>,
    pub proposta_create_date: Option<Istante>,
    pub proposta_modify_date: Option<Istante>,
    pub strategia_datetime_original: Strategia,
    pub strategia_create_date: Strategia,
    pub strategia_modify_date: Strategia,
    pub incongruenze: Vec<Incongruenza>,
    pub gravita_incongruenza: i64,
}

pub open spec fn istante_valido_opt(i: Option<Istante>) -> bool {
    match i {
        Some(x) => x.valido(),
        None => true,
    }
}

impl FotoData {
    /// The invariant every record the library hands out satisfies: a
    /// filename date within the heuristics' ranges, the year field
    /// agreeing with it, every instant within the library's years, and
    /// a non-negative severity.
    pub open spec fn ben_formata(self) -> bool {
        &&& match self.data_nome {
            Some(d) => data_ammessa(d.0 as int, d.1 as int, d.2 as int),
            None => true,
        }
        &&& self.anno_nome == match self.data_nome {
            Some(d) => Some(d.0),
            None => None::<i32>,
        }
        &&& istante_valido_opt(self.data_json)
        &&& istante_valido_opt(self.data_json_creation)
        &&& istante_valido_opt(self.exif_datetime_original)
        &&& istante_valido_opt(self.exif_create_date)
        &&& istante_valido_opt(self.exif_modify_date)
        &&& self.gravita_incongruenza >= 0
    }
}

} // verus!
