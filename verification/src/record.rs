//! Assembling one record from its sources, recomputing its
//! annotations, and the deterministic order of a scan's result.

use crate::exif_dati::CampoExif;
use crate::exif_dati::ottieni_tutti_campi_exif;
use crate::exif_dati::spec_leggi_exif;
use crate::foto::FotoData;
use crate::incongruenze::calcola_gravita_incongruenza;
use crate::incongruenze::rileva_incongruenze;
use crate::incongruenze::spec_gravita;
use crate::incongruenze::spec_rileva;
use crate::nome_file::estrai_anno_da_nome;
use crate::nome_file::spec_estrai_anno_da_nome;
use crate::sidecar::leggi_data_json_completo;
use crate::sidecar::spec_campo_data;
use crate::strategia::Strategia;
use crate::strategia::calcola_proposta_strategia;
use crate::strategia::spec_proposta;
use vstd::prelude::*;

verus! {

broadcast use
    vstd::seq_lib::to_multiset_insert,
    vstd::seq_lib::group_to_multiset_ensures,
    vstd::multiset::group_multiset_axioms,
;

/// Builds the record of one discovered photo from plain values: the
/// file's path and display name, the text of its sidecar if one was
/// found and read, and the raw bytes of the image if they could be
/// read.  Every optional source degrades to nothing on its own; the
/// default strategy is filename-preferred on all three fields, and the
/// proposals, discrepancies and severity are those of the assembled
/// sources.
pub fn leggi_foto_singola(
    path: String,
    nome_file: String,
    contenuto_sidecar: Option<String>,
    dati_immagine: Option<Vec<u8>>,
) -> (r: FotoData)
    ensures
        r.ben_formata(),
        r.path == path,
        r.nome_file == nome_file,
        r.data_nome == spec_estrai_anno_da_nome(nome_file@),
        r.anno_nome == match spec_estrai_anno_da_nome(nome_file@) {
            Some(d) => Some(d.0),
            None => None::<i32>,
        },
        r.data_json == match contenuto_sidecar {
            Some(c) => spec_campo_data(c@, "photoTakenTime"@),
            None => None::<crate::istante::Istante>,
        },
        r.data_json_creation == match contenuto_sidecar {
            Some(c) => spec_campo_data(c@, "creationTime"@),
            None => None::<crate::istante::Istante>,
        },
        r.exif_datetime_original == match dati_immagine {
            Some(b) => spec_leggi_exif(b@, CampoExif::Originale.numero_tag()),
            None => None::<crate::istante::Istante>,
        },
        r.exif_create_date == match dati_immagine {
            Some(b) => spec_leggi_exif(b@, CampoExif::Digitalizzazione.numero_tag()),
            None => None::<crate::istante::Istante>,
        },
        r.exif_modify_date == match dati_immagine {
            Some(b) => spec_leggi_exif(b@, CampoExif::Modifica.numero_tag()),
            None => None::<crate::istante::Istante>,
        },
        r.strategia_datetime_original == Strategia::NomeFilePreferito,
        r.strategia_create_date == Strategia::NomeFilePreferito,
        r.strategia_modify_date == Strategia::NomeFilePreferito,
        r.proposta_datetime_original == spec_proposta(r, Strategia::NomeFilePreferito),
        r.proposta_create_date == spec_proposta(r, Strategia::NomeFilePreferito),
        r.proposta_modify_date == spec_proposta(r, Strategia::NomeFilePreferito),
        r.incongruenze@ == spec_rileva(r),
        r.gravita_incongruenza == spec_gravita(r),
{
    let data_nome = estrai_anno_da_nome(nome_file.as_str());
    let anno_nome = match data_nome {
        Some(d) => Some(d.0),
        None => None,
    };
    let (data_json, data_json_creation) = match &contenuto_sidecar {
        Some(c) => leggi_data_json_completo(c.as_str()),
        None => (None, None),
    };
    let (exif_dt, exif_cd, exif_md) = match &dati_immagine {
        Some(b) => ottieni_tutti_campi_exif(b),
        None => (None, None, None),
    };
    let mut foto = FotoData {
        path,
        nome_file,
        anno_nome,
        data_nome,
        data_json,
        data_json_creation,
        exif_datetime_original: exif_dt,
        exif_create_date: exif_cd,
        exif_modify_date: exif_md,
        proposta_datetime_original: None,
        proposta_create_date: None,
        proposta_modify_date: None,
        strategia_datetime_original: Strategia::NomeFilePreferito,
        strategia_create_date: Strategia::NomeFilePreferito,
        strategia_modify_date: Strategia::NomeFilePreferito,
        incongruenze: Vec::new(),
        gravita_incongruenza: 0,
    };
    ricalcola(&mut foto);
    foto
}

/// Recomputes a record's proposals, discrepancies and severity in
/// place from its sources and its current strategies; the sources and
/// the strategies themselves stand untouched.  Run it after every
/// strategy change: the annotations are never kept apart from the
/// strategies that produced them.
pub fn ricalcola(foto: &mut FotoData)
    requires
        old(foto).ben_formata(),
    ensures
        final(foto).ben_formata(),
        final(foto).path == old(foto).path,
        final(foto).nome_file == old(foto).nome_file,
        final(foto).anno_nome == old(foto).anno_nome,
        final(foto).data_nome == old(foto).data_nome,
        final(foto).data_json == old(foto).data_json,
        final(foto).data_json_creation == old(foto).data_json_creation,
        final(foto).exif_datetime_original == old(foto).exif_datetime_original,
        final(foto).exif_create_date == old(foto).exif_create_date,
        final(foto).exif_modify_date == old(foto).exif_modify_date,
        final(foto).strategia_datetime_original == old(foto).strategia_datetime_original,
        final(foto).strategia_create_date == old(foto).strategia_create_date,
        final(foto).strategia_modify_date == old(foto).strategia_modify_date,
        final(foto).proposta_datetime_original == spec_proposta(
            *old(foto),
            old(foto).strategia_datetime_original,
        ),
        final(foto).proposta_create_date == spec_proposta(
            *old(foto),
            old(foto).strategia_create_date,
        ),
        final(foto).proposta_modify_date == spec_proposta(
            *old(foto),
            old(foto).strategia_modify_date,
        ),
        final(foto).incongruenze@ == spec_rileva(*old(foto)),
        final(foto).gravita_incongruenza == spec_gravita(*old(foto)),
{
    foto.proposta_datetime_original = calcola_proposta_strategia(
        foto,
        foto.strategia_datetime_original,
    );
    foto.proposta_create_date = calcola_proposta_strategia(foto, foto.strategia_create_date);
    foto.proposta_modify_date = calcola_proposta_strategia(foto, foto.strategia_modify_date);
    foto.incongruenze = rileva_incongruenze(foto);
    foto.gravita_incongruenza = calcola_gravita_incongruenza(foto);
}

/// Lexicographic order on names by character code: reflexive, total
/// and transitive, the order of a scan's result.
pub open spec fn nome_le(a: Seq<char>, b: Seq<char>) -> bool
    decreases a.len(),
{
    if a.len() == 0 {
        true
    } else if b.len() == 0 {
        false
    } else if (a[0] as u32) < (b[0] as u32) {
        true
    } else if (a[0] as u32) > (b[0] as u32) {
        false
    } else {
        nome_le(a.drop_first(), b.drop_first())
    }
}

/// Any two names are ordered one way or the other.
pub proof fn lemma_nome_le_totale(a: Seq<char>, b: Seq<char>)
    ensures
        nome_le(a, b) || nome_le(b, a),
    decreases a.len(),
{
    if a.len() > 0 && b.len() > 0 && (a[0] as u32) == (b[0] as u32) {
        lemma_nome_le_totale(a.drop_first(), b.drop_first());
    }
}

/// The order chains.
pub proof fn lemma_nome_le_trans(a: Seq<char>, b: Seq<char>, c: Seq<char>)
    requires
        nome_le(a, b),
        nome_le(b, c),
    ensures
        nome_le(a, c),
    decreases a.len(),
{
    if a.len() > 0 && b.len() > 0 && c.len() > 0 && (a[0] as u32) == (b[0] as u32) && (b[0] as u32)
        == (c[0] as u32) {
        lemma_nome_le_trans(a.drop_first(), b.drop_first(), c.drop_first());
    }
}

/// Decides `nome_le` by walking the characters.
#[verifier::loop_isolation(false)]
pub fn nome_le_esec(a: &str, b: &str) -> (r: bool)
    ensures
        r == nome_le(a@, b@),
{
    let la = a.unicode_len();
    let lb = b.unicode_len();
    proof {
        assert(a@.skip(0) =~= a@);
        assert(b@.skip(0) =~= b@);
    }
    let mut i: usize = 0;
    while i < la && i < lb
        invariant
            0 <= i <= la,
            i <= lb,
            nome_le(a@, b@) == nome_le(a@.skip(i as int), b@.skip(i as int)),
        decreases la - i,
    {
        let ca = a.get_char(i);
        let cb = b.get_char(i);
        if (ca as u32) < (cb as u32) {
            return true;
        }
        if (ca as u32) > (cb as u32) {
            return false;
        }
        proof {
            assert(a@.skip(i as int).drop_first() =~= a@.skip(i + 1));
            assert(b@.skip(i as int).drop_first() =~= b@.skip(i + 1));
        }
        i = i + 1;
    }
    i >= la
}

/// Characters with one code are one character.
proof fn lemma_char_uguale(c: char, d: char)
    requires
        c as u32 == d as u32,
    ensures
        c == d,
{
}

/// Names ordered both ways are the same name.
pub proof fn lemma_nome_le_antisimmetrica(a: Seq<char>, b: Seq<char>)
    requires
        nome_le(a, b),
        nome_le(b, a),
    ensures
        a =~= b,
    decreases a.len(),
{
    if a.len() > 0 {
        assert(b.len() > 0);
        if (a[0] as u32) < (b[0] as u32) {
            assert(!nome_le(b, a));
        }
        if (a[0] as u32) > (b[0] as u32) {
            assert(!nome_le(a, b));
        }
        assert((a[0] as u32) == (b[0] as u32));
        lemma_nome_le_antisimmetrica(a.drop_first(), b.drop_first());
        lemma_char_uguale(a[0], b[0]);
        assert forall|i: int| 0 <= i < a.len() implies a[i] == b[i] by {
            if i > 0 {
                assert(a.drop_first()[i - 1] == a[i]);
                assert(b.drop_first()[i - 1] == b[i]);
                assert(a.drop_first()[i - 1] == b.drop_first()[i - 1]);
            }
        }
    }
}

/// No two records carry the same file name.
pub open spec fn nomi_distinti(s: Seq<FotoData>) -> bool {
    forall|i: int, j: int|
        #![trigger s[i], s[j]]
        0 <= i < j < s.len() ==> s[i].nome_file@ != s[j].nome_file@
}

/// With distinct file names, one order of the records answers a
/// multiset: two sorted arrangements of the same records are equal,
/// whatever order the records arrived in.
pub proof fn lemma_ordinamento_deterministico(s1: Seq<FotoData>, s2: Seq<FotoData>)
    requires
        ordinata_per_nome(s1),
        ordinata_per_nome(s2),
        nomi_distinti(s1),
        s1.to_multiset() == s2.to_multiset(),
    ensures
        s1 =~= s2,
    decreases s1.len(),
{
    assert(s1.len() == s1.to_multiset().len());
    assert(s2.len() == s2.to_multiset().len());
    if s1.len() == 0 {
        assert(s1 =~= s2);
    } else {
        assert(s2.to_multiset().count(s2[0]) > 0);
        assert(s1.contains(s2[0]));
        let k = choose|k: int| 0 <= k < s1.len() && s1[k] == s2[0];
        assert(s1.to_multiset().count(s1[0]) > 0);
        assert(s2.contains(s1[0]));
        let m = choose|m: int| 0 <= m < s2.len() && s2[m] == s1[0];
        if k == 0 {
            assert(s1[0] == s2[0]);
        } else if m == 0 {
            assert(s1[0] == s2[0]);
        } else {
            assert(nome_le(s1[0].nome_file@, s1[k].nome_file@));
            assert(nome_le(s2[0].nome_file@, s2[m].nome_file@));
            lemma_nome_le_antisimmetrica(s1[0].nome_file@, s2[0].nome_file@);
            assert(s1[k].nome_file@ == s1[0].nome_file@);
            assert(false);
        }
        let r1 = s1.drop_first();
        let r2 = s2.drop_first();
        assert(r1 =~= s1.remove(0));
        assert(r2 =~= s2.remove(0));
        assert(r1.to_multiset() == r2.to_multiset());
        assert(ordinata_per_nome(r1)) by {
            assert forall|p: int, q: int|
                #![trigger r1[p], r1[q]]
                0 <= p < q < r1.len() implies nome_le(r1[p].nome_file@, r1[q].nome_file@) by {
                assert(r1[p] == s1[p + 1] && r1[q] == s1[q + 1]);
            }
        }
        assert(ordinata_per_nome(r2)) by {
            assert forall|p: int, q: int|
                #![trigger r2[p], r2[q]]
                0 <= p < q < r2.len() implies nome_le(r2[p].nome_file@, r2[q].nome_file@) by {
                assert(r2[p] == s2[p + 1] && r2[q] == s2[q + 1]);
            }
        }
        assert(nomi_distinti(r1)) by {
            assert forall|p: int, q: int|
                #![trigger r1[p], r1[q]]
                0 <= p < q < r1.len() implies r1[p].nome_file@ != r1[q].nome_file@ by {
                assert(r1[p] == s1[p + 1] && r1[q] == s1[q + 1]);
            }
        }
        lemma_ordinamento_deterministico(r1, r2);
        assert forall|i: int| 0 <= i < s1.len() implies s1[i] == s2[i] by {
            if i > 0 {
                assert(r1[i - 1] == r2[i - 1]);
            }
        }
    }
}

/// A scan's result order: file names ascending.
pub open spec fn ordinata_per_nome(s: Seq<FotoData>) -> bool {
    forall|i: int, j: int|
        #![trigger s[i], s[j]]
        0 <= i < j < s.len() ==> nome_le(s[i].nome_file@, s[j].nome_file@)
}

/// Sorts records by file name ascending: the result is a permutation
/// of the input in the order `ordinata_per_nome` states, independent
/// of the order the input arrived in.
#[verifier::loop_isolation(false)]
pub fn ordina_foto_per_nome(lista: Vec<FotoData>) -> (r: Vec<FotoData>)
    ensures
        r@.len() == lista@.len(),
        r@.to_multiset() == lista@.to_multiset(),
        ordinata_per_nome(r@),
{
    let mut v = lista;
    if v.len() <= 1 {
        return v;
    }
    let mut i: usize = 1;
    while i < v.len()
        invariant
            1 <= i <= v@.len(),
            v@.len() == lista@.len(),
            v@.to_multiset() == lista@.to_multiset(),
            ordinata_per_nome(v@.subrange(0, i as int)),
        decreases v@.len() - i,
    {
        let ghost v0 = v@;
        let x = v.remove(i);
        let ghost v1 = v@;
        proof {
            assert(v1 =~= v0.remove(i as int));
            assert forall|k: int| 0 <= k < i implies v1[k] == v0[k] by {}
        }
        let mut j: usize = i;
        while j > 0 && !nome_le_esec(v[j - 1].nome_file.as_str(), x.nome_file.as_str())
            invariant
                0 <= j <= i,
                v@ == v1,
                forall|k: int| j <= k < i ==> !nome_le(#[trigger] v1[k].nome_file@, x.nome_file@),
            decreases j,
        {
            j = j - 1;
        }
        proof {
            if j > 0 {
                assert(nome_le(v1[j - 1].nome_file@, x.nome_file@));
            }
        }
        v.insert(j, x);
        proof {
            let v2 = v@;
            assert(v2 =~= v1.insert(j as int, x));
            assert(v2.to_multiset() =~= v0.to_multiset());
            assert forall|p: int, q: int|
                #![trigger v2.subrange(0, i + 1)[p], v2.subrange(0, i + 1)[q]]
                0 <= p < q < i + 1 implies nome_le(
                v2.subrange(0, i + 1)[p].nome_file@,
                v2.subrange(0, i + 1)[q].nome_file@,
            ) by {
                let ep = v2[p];
                let eq = v2[q];
                if p < j && q == j {
                    assert(ep == v1[p]);
                    assert(eq == x);
                    if p < j - 1 {
                        assert(nome_le(v1[p].nome_file@, v1[j - 1].nome_file@));
                        lemma_nome_le_trans(v1[p].nome_file@, v1[j - 1].nome_file@, x.nome_file@);
                    }
                } else if p == j && q > j {
                    assert(ep == x);
                    assert(eq == v1[q - 1]);
                    lemma_nome_le_totale(v1[q - 1].nome_file@, x.nome_file@);
                } else if p < j && q > j {
                    assert(ep == v1[p]);
                    assert(eq == v1[q - 1]);
                } else if q < j {
                    assert(ep == v1[p] && eq == v1[q]);
                } else if p > j {
                    assert(ep == v1[p - 1] && eq == v1[q - 1]);
                }
            }
            assert(ordinata_per_nome(v2.subrange(0, i + 1)));
        }
        i = i + 1;
    }
    proof {
        assert(v@.subrange(0, v@.len() as int) =~= v@);
    }
    v
}

} // verus!
