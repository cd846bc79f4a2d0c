//! Reconciliation of photo capture timestamps drawn from three unreliable
//! sources: embedded image metadata, a sidecar JSON export, and a date
//! pattern encoded in the file name.  The library parses each source,
//! merges them under a chosen strategy, flags disagreements, and scores
//! their severity in days.

pub mod calendario;
pub mod exif_dati;
pub mod foto;
pub mod incongruenze;
pub mod istante;
pub mod nome_file;
pub mod record;
pub mod sidecar;
pub mod strategia;
pub mod testo;

pub use exif_dati::CampoExif;
pub use exif_dati::analizza_data_exif;
pub use exif_dati::formatta_exif_datetime;
pub use exif_dati::leggi_exif_datetime;
pub use exif_dati::ottieni_tutti_campi_exif;
pub use foto::FotoData;
pub use incongruenze::FiltroIncongruenza;
pub use incongruenze::Incongruenza;
pub use incongruenze::UnitaGravita;
pub use incongruenze::calcola_gravita_incongruenza;
pub use incongruenze::rileva_incongruenze;
pub use istante::DataOra;
pub use istante::Istante;
pub use nome_file::estensione_accettata;
pub use nome_file::estrai_anno_da_nome;
pub use nome_file::stem_di;
pub use record::leggi_foto_singola;
pub use record::ordina_foto_per_nome;
pub use record::ricalcola;
pub use sidecar::leggi_data_json;
pub use sidecar::leggi_data_json_completo;
pub use sidecar::lista_nomi_sidecar;
pub use sidecar::primo_esistente;
pub use strategia::Strategia;
pub use strategia::calcola_proposta;
pub use strategia::calcola_proposta_con_strategia;
pub use strategia::calcola_proposta_strategia;
