//! Reading a calendar date out of a file name, and file-name helpers:
//! stem, extension, and the accepted photo extensions.
//!
//! Three ordered heuristics are tried, first match wins: a leading
//! four-digit year followed by an underscore; the leftmost run of
//! eight digits read as year-month-day; the same run read as
//! day-month-year.  The heuristics check field ranges only: a day of
//! 31 passes for any month.

use crate::testo::e_cifra;
use crate::testo::lemma_pow10_mono;
use crate::testo::lemma_valore_decimale_passo;
use crate::testo::pow10;
use crate::testo::tutte_cifre;
use crate::testo::valore_decimale;
use vstd::prelude::*;

verus! {

/// The name opens with four digits and an underscore.
pub open spec fn prefisso_anno(s: Seq<char>) -> bool {
    s.len() >= 5 && e_cifra(s[0]) && e_cifra(s[1]) && e_cifra(s[2]) && e_cifra(s[3]) && s[4] == '_'
}

pub open spec fn anno_prefisso(s: Seq<char>) -> int {
    valore_decimale(s.subrange(0, 4))
}

/// Eight digits in a row starting at `i`.
pub open spec fn finestra_cifre(s: Seq<char>, i: int) -> bool {
    0 <= i && i + 8 <= s.len() && forall|j: int| i <= j < i + 8 ==> e_cifra(#[trigger] s[j])
}

/// Index of the leftmost run of eight digits at or after `i`.
pub open spec fn cerca_finestra(s: Seq<char>, i: int) -> Option<int>
    decreases s.len() - i,
{
    if i < 0 || i + 8 > s.len() {
        None
    } else if finestra_cifre(s, i) {
        Some(i)
    } else {
        cerca_finestra(s, i + 1)
    }
}

pub open spec fn trova_finestra(s: Seq<char>) -> Option<int> {
    cerca_finestra(s, 0)
}

/// The year, month and day ranges the heuristics accept.
pub open spec fn data_ammessa(a: int, m: int, g: int) -> bool {
    1900 <= a <= 2100 && 1 <= m <= 12 && 1 <= g <= 31
}

/// The run at `i` read as YYYYMMDD.
pub open spec fn finestra_amg(s: Seq<char>, i: int) -> (int, int, int) {
    (
        valore_decimale(s.subrange(i, i + 4)),
        valore_decimale(s.subrange(i + 4, i + 6)),
        valore_decimale(s.subrange(i + 6, i + 8)),
    )
}

/// The run at `i` read as DDMMYYYY.
pub open spec fn finestra_gma(s: Seq<char>, i: int) -> (int, int, int) {
    (
        valore_decimale(s.subrange(i + 4, i + 8)),
        valore_decimale(s.subrange(i + 2, i + 4)),
        valore_decimale(s.subrange(i, i + 2)),
    )
}

/// The date a file name encodes, if any: the ordered heuristics'
/// outcome.  A name with the underscore prefix never falls through to
/// the digit-run heuristics.
pub open spec fn spec_estrai_anno_da_nome(s: Seq<char>) -> Option<(i32, u32, u32)> {
    if prefisso_anno(s) {
        if 1900 <= anno_prefisso(s) <= 2100 {
            Some((anno_prefisso(s) as i32, 1u32, 1u32))
        } else {
            None
        }
    } else {
        match trova_finestra(s) {
            Some(i) => {
                let (a, m, g) = finestra_amg(s, i);
                let (a2, m2, g2) = finestra_gma(s, i);
                if data_ammessa(a, m, g) {
                    Some((a as i32, m as u32, g as u32))
                } else if data_ammessa(a2, m2, g2) {
                    Some((a2 as i32, m2 as u32, g2 as u32))
                } else {
                    None
                }
            },
            None => None,
        }
    }
}

/// Searching from the left skips exactly the indices without a run.
proof fn lemma_cerca_salta(s: Seq<char>, i: int)
    requires
        0 <= i,
        forall|k: int| 0 <= k < i ==> !finestra_cifre(s, k),
    ensures
        cerca_finestra(s, 0) == cerca_finestra(s, i),
    decreases i,
{
    if i > 0 {
        lemma_cerca_salta(s, i - 1);
    }
}

/// Value of up to eight decimal digits read from `s[da..a]`.
#[verifier::loop_isolation(false)]
pub fn valore_cifre(s: &str, da: usize, a: usize) -> (r: u64)
    requires
        da <= a <= s@.len(),
        a - da <= 8,
        tutte_cifre(s@.subrange(da as int, a as int)),
    ensures
        r == valore_decimale(s@.subrange(da as int, a as int)),
        r < 100000000,
{
    let ghost t = s@.subrange(da as int, a as int);
    let mut acc: u64 = 0;
    let mut i: usize = da;
    while i < a
        invariant
            da <= i <= a,
            acc == valore_decimale(t.subrange(0, i - da)),
            acc < 100000000,
        decreases a - i,
    {
        let c = s.get_char(i);
        proof {
            assert(t[i - da] == s@[i as int]);
            assert(e_cifra(t[i - da]));
            lemma_valore_decimale_passo(t, i - da);
            crate::testo::lemma_valore_decimale_non_negativo(t.subrange(0, i - da));
            crate::testo::lemma_valore_decimale_cresce(t, i - da, t.len() as int);
        }
        let d = (c as u32 - 48) as u64;
        proof {
            let ghost k = i + 1 - da;
            assert(valore_decimale(t.subrange(0, k)) == acc * 10 + d);
            lemma_limite_valore(t, k);
        }
        acc = acc * 10 + d;
        i = i + 1;
    }
    proof {
        assert(t.subrange(0, i - da) =~= t);
    }
    acc
}

/// A digit string of at most eight digits stays below `10^8`.
proof fn lemma_limite_valore(s: Seq<char>, k: int)
    requires
        tutte_cifre(s),
        0 <= k <= s.len() <= 8,
    ensures
        valore_decimale(s.subrange(0, k)) < 100000000,
{
    lemma_limite_valore_aiuto(s, k);
    lemma_pow10_mono(k, 8);
    assert(pow10(8) == 100000000) by {
        reveal_with_fuel(pow10, 9);
    }
}

proof fn lemma_limite_valore_aiuto(s: Seq<char>, k: int)
    requires
        tutte_cifre(s),
        0 <= k <= 8,
        k <= s.len(),
    ensures
        valore_decimale(s.subrange(0, k)) < pow10(k),
    decreases k,
{
    if k == 0 {
        assert(s.subrange(0, 0) =~= Seq::<char>::empty());
    } else {
        lemma_limite_valore_aiuto(s, k - 1);
        lemma_valore_decimale_passo(s, k - 1);
    }
}

/// Eight digits in a row at `i`, decided by inspection.
#[verifier::loop_isolation(false)]
fn e_finestra(s: &str, i: usize) -> (r: bool)
    requires
        i + 8 <= s@.len() <= usize::MAX,
    ensures
        r == finestra_cifre(s@, i as int),
{
    let mut j: usize = 0;
    while j < 8
        invariant
            0 <= j <= 8,
            forall|k: int| i <= k < i + j ==> e_cifra(#[trigger] s@[k]),
        decreases 8 - j,
    {
        let c = s.get_char(i + j);
        let cu = c as u32;
        if cu < 48 || cu > 57 {
            return false;
        }
        j = j + 1;
    }
    true
}

/// Reads a date from a file name under the ordered heuristics stated
/// by `spec_estrai_anno_da_nome`; any date returned has its year in
/// `[1900, 2100]`, its month in `[1, 12]` and its day in `[1, 31]`.
#[verifier::loop_isolation(false)]
pub fn estrai_anno_da_nome(nome_file: &str) -> (r: Option<(i32, u32, u32)>)
    ensures
        r == spec_estrai_anno_da_nome(nome_file@),
        match r {
            Some((a, m, g)) => data_ammessa(a as int, m as int, g as int),
            None => true,
        },
{
    let len = nome_file.unicode_len();
    if prefisso_anno_esec(nome_file) {
        proof {
            crate::testo::lemma_sotto_cifre(nome_file@, 0, 4);
        }
        let anno = valore_cifre(nome_file, 0, 4);
        if 1900 <= anno && anno <= 2100 {
            return Some((anno as i32, 1, 1));
        } else {
            return None;
        }
    }
    if len < 8 {
        proof {
            assert(cerca_finestra(nome_file@, 0) is None);
        }
        return None;
    }
    let mut i: usize = 0;
    while i <= len - 8
        invariant
            0 <= i <= len - 8 + 1,
            len >= 8,
            forall|k: int| 0 <= k < i ==> !finestra_cifre(nome_file@, k),
        decreases len - i,
    {
        if e_finestra(nome_file, i) {
            proof {
                lemma_cerca_salta(nome_file@, i as int);
                assert(trova_finestra(nome_file@) == Some(i as int));
                crate::testo::lemma_sotto_cifre(nome_file@, i as int, i + 2);
                crate::testo::lemma_sotto_cifre(nome_file@, i + 2, i + 4);
                crate::testo::lemma_sotto_cifre(nome_file@, i as int, i + 4);
                crate::testo::lemma_sotto_cifre(nome_file@, i + 4, i + 6);
                crate::testo::lemma_sotto_cifre(nome_file@, i + 6, i + 8);
                crate::testo::lemma_sotto_cifre(nome_file@, i + 4, i + 8);
            }
            let a = valore_cifre(nome_file, i, i + 4);
            let m = valore_cifre(nome_file, i + 4, i + 6);
            let g = valore_cifre(nome_file, i + 6, i + 8);
            if 1900 <= a && a <= 2100 && 1 <= m && m <= 12 && 1 <= g && g <= 31 {
                return Some((a as i32, m as u32, g as u32));
            }
            let g2 = valore_cifre(nome_file, i, i + 2);
            let m2 = valore_cifre(nome_file, i + 2, i + 4);
            let a2 = valore_cifre(nome_file, i + 4, i + 8);
            if 1900 <= a2 && a2 <= 2100 && 1 <= m2 && m2 <= 12 && 1 <= g2 && g2 <= 31 {
                return Some((a2 as i32, m2 as u32, g2 as u32));
            }
            return None;
        }
        i = i + 1;
    }
    proof {
        lemma_cerca_salta(nome_file@, i as int);
        assert(cerca_finestra(nome_file@, i as int) is None);
    }
    None
}

/// The first four characters are digits (callers have checked the
/// length and the underscore).
fn quattro_cifre_iniziali(s: &str) -> (r: bool)
    requires
        s@.len() >= 5,
    ensures
        r == (e_cifra(s@[0]) && e_cifra(s@[1]) && e_cifra(s@[2]) && e_cifra(s@[3])),
        r ==> tutte_cifre(s@.subrange(0, 4)),
{
    let mut j: usize = 0;
    let mut tutto: bool = true;
    while j < 4
        invariant
            0 <= j <= 4,
            s@.len() >= 5,
            tutto == forall|k: int| 0 <= k < j ==> e_cifra(#[trigger] s@[k]),
        decreases 4 - j,
    {
        let c = s.get_char(j);
        let cu = c as u32;
        if cu < 48 || cu > 57 {
            tutto = false;
        }
        j = j + 1;
    }
    proof {
        if tutto {
            assert forall|k: int| 0 <= k < 4 implies e_cifra(#[trigger] s@.subrange(0, 4)[k]) by {
                assert(s@.subrange(0, 4)[k] == s@[k]);
            }
        }
    }
    tutto
}

/// The whole underscore-prefix heuristic, decided by inspection.
fn prefisso_anno_esec(s: &str) -> (r: bool)
    ensures
        r == prefisso_anno(s@),
        r ==> tutte_cifre(s@.subrange(0, 4)),
{
    let len = s.unicode_len();
    if len < 5 {
        return false;
    }
    if s.get_char(4) != '_' {
        return false;
    }
    quattro_cifre_iniziali(s)
}

/// A name with the underscore prefix yields the prefix year with month
/// and day 1 when the year lies in [1900, 2100], and nothing
/// otherwise: the digit-run heuristics are never consulted.
pub proof fn lemma_prefisso_decide(s: Seq<char>)
    requires
        prefisso_anno(s),
    ensures
        1900 <= anno_prefisso(s) <= 2100 ==> spec_estrai_anno_da_nome(s) == Some(
            (anno_prefisso(s) as i32, 1u32, 1u32),
        ),
        !(1900 <= anno_prefisso(s) <= 2100) ==> spec_estrai_anno_da_nome(s) is None,
{
}

/// Without the underscore prefix, the leftmost eight-digit run is read
/// year first: an admissible YYYYMMDD reading wins, and the DDMMYYYY
/// reading is consulted only when the first is inadmissible.
pub proof fn lemma_amg_precede_gma(s: Seq<char>, i: int)
    requires
        !prefisso_anno(s),
        trova_finestra(s) == Some(i),
    ensures
        ({
            let (a, m, g) = finestra_amg(s, i);
            data_ammessa(a, m, g) ==> spec_estrai_anno_da_nome(s) == Some(
                (a as i32, m as u32, g as u32),
            )
        }),
        ({
            let (a, m, g) = finestra_amg(s, i);
            let (a2, m2, g2) = finestra_gma(s, i);
            !data_ammessa(a, m, g) && data_ammessa(a2, m2, g2) ==> spec_estrai_anno_da_nome(s)
                == Some((a2 as i32, m2 as u32, g2 as u32))
        }),
{
}

/// Last `.` of a name, searching leftward from `i`.
pub open spec fn cerca_punto(s: Seq<char>, i: int) -> Option<int>
    decreases i + 1,
{
    if i < 0 || i >= s.len() {
        None
    } else if s[i] == '.' {
        Some(i)
    } else {
        cerca_punto(s, i - 1)
    }
}

pub open spec fn ultimo_punto(s: Seq<char>) -> Option<int> {
    cerca_punto(s, s.len() - 1)
}

/// Name without its extension: what stands before the last `.`, the
/// whole name when there is no `.` or only a leading one.
pub open spec fn spec_stem(s: Seq<char>) -> Seq<char> {
    match ultimo_punto(s) {
        Some(i) => if i > 0 {
            s.subrange(0, i)
        } else {
            s
        },
        None => s,
    }
}

/// Extension of a name: what stands after the last `.`, none when
/// there is no `.` or only a leading one.
pub open spec fn spec_estensione(s: Seq<char>) -> Option<Seq<char>> {
    match ultimo_punto(s) {
        Some(i) => if i > 0 {
            Some(s.subrange(i + 1, s.len() as int))
        } else {
            None
        },
        None => None,
    }
}

#[verifier::loop_isolation(false)]
fn ultimo_punto_esec(s: &str) -> (r: Option<usize>)
    ensures
        match r {
            Some(i) => ultimo_punto(s@) == Some(i as int) && i < s@.len(),
            None => ultimo_punto(s@) is None,
        },
{
    let len = s.unicode_len();
    let mut i: usize = len;
    while i > 0
        invariant
            0 <= i <= len,
            cerca_punto(s@, len - 1) == cerca_punto(s@, i - 1),
        decreases i,
    {
        if s.get_char(i - 1) == '.' {
            return Some(i - 1);
        }
        i = i - 1;
    }
    None
}

/// Name without its extension.
pub fn stem_di(s: &str) -> (r: &str)
    ensures
        r@ == spec_stem(s@),
{
    match ultimo_punto_esec(s) {
        Some(i) => {
            if i > 0 {
                s.substring_char(0, i)
            } else {
                s
            }
        },
        None => s,
    }
}

/// Extension of a name.
pub fn estensione_di(s: &str) -> (r: Option<&str>)
    ensures
        match r {
            Some(e) => spec_estensione(s@) == Some(e@),
            None => spec_estensione(s@) is None,
        },
{
    let len = s.unicode_len();
    match ultimo_punto_esec(s) {
        Some(i) => {
            if i > 0 {
                Some(s.substring_char(i + 1, len))
            } else {
                None
            }
        },
        None => None,
    }
}

/// The photo extensions a scan accepts, letter for letter.
pub open spec fn spec_estensione_accettata(s: Seq<char>) -> bool {
    match spec_estensione(s) {
        Some(e) => e == "jpg"@ || e == "JPG"@ || e == "jpeg"@ || e == "JPEG"@ || e == "orf"@ || e
            == "ORF"@ || e == "nef"@ || e == "NEF"@,
        None => false,
    }
}

/// Case-sensitive test for the accepted photo extensions.
pub fn estensione_accettata(s: &str) -> (r: bool)
    ensures
        r == spec_estensione_accettata(s@),
{
    match estensione_di(s) {
        Some(e) => crate::testo::stringhe_uguali(e, "jpg") || crate::testo::stringhe_uguali(
            e,
            "JPG",
        ) || crate::testo::stringhe_uguali(e, "jpeg") || crate::testo::stringhe_uguali(e, "JPEG")
            || crate::testo::stringhe_uguali(e, "orf") || crate::testo::stringhe_uguali(e, "ORF")
            || crate::testo::stringhe_uguali(e, "nef") || crate::testo::stringhe_uguali(e, "NEF"),
        None => false,
    }
}

} // verus!
