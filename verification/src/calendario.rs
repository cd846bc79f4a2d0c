//! Proleptic Gregorian calendar arithmetic over plain integers.
//!
//! An instant is a count of UTC seconds from the Unix epoch
//! (1970-01-01T00:00:00Z).  The library covers the years 1 through 9999;
//! a day is identified either by its Unix day number (day 0 is
//! 1970-01-01) or by its rata number (day 0 is 0001-01-01).

use vstd::arithmetic::div_mod::lemma_fundamental_div_mod;
use vstd::arithmetic::div_mod::lemma_fundamental_div_mod_converse;
use vstd::prelude::*;

verus! {

/// First second of 0001-01-01T00:00:00Z.
pub const SECONDI_MINIMI: i64 = -62135596800;

/// Last second of 9999-12-31T23:59:59Z.
pub const SECONDI_MASSIMI: i64 = 253402300799;

/// Days from 0001-01-01 to 1970-01-01.
pub const GIORNI_EPOCA: i64 = 719162;

/// Rata day numbers run from 0 (0001-01-01) up to, excluded, this bound
/// (the day 10000-01-01 would get).
pub const LIMITE_RATA: i64 = 3652059;

pub open spec fn anno_bisestile(a: int) -> bool {
    a % 4 == 0 && (a % 100 != 0 || a % 400 == 0)
}

pub open spec fn giorni_anno(a: int) -> int {
    if anno_bisestile(a) {
        366
    } else {
        365
    }
}

pub open spec fn giorni_mese(a: int, m: int) -> int {
    if m == 2 {
        if anno_bisestile(a) {
            29
        } else {
            28
        }
    } else if m == 4 || m == 6 || m == 9 || m == 11 {
        30
    } else {
        31
    }
}

/// Days of year `a` that precede the first day of month `m`.
pub open spec fn giorni_da_inizio_anno(a: int, m: int) -> int
    decreases m,
{
    if m <= 1 {
        0
    } else {
        giorni_da_inizio_anno(a, m - 1) + giorni_mese(a, m - 1)
    }
}

/// Days that precede 1 January of year `a`, counted from 0001-01-01.
pub open spec fn giorni_prima_anno(a: int) -> int
    decreases a,
{
    if a <= 1 {
        0
    } else {
        giorni_prima_anno(a - 1) + giorni_anno(a - 1)
    }
}

pub open spec fn data_valida(a: int, m: int, g: int) -> bool {
    &&& 1 <= a <= 9999
    &&& 1 <= m <= 12
    &&& 1 <= g <= giorni_mese(a, m)
}

/// Rata day number of a calendar date: 0001-01-01 is day 0.
pub open spec fn giorno_rata(a: int, m: int, g: int) -> int {
    giorni_prima_anno(a) + giorni_da_inizio_anno(a, m) + (g - 1)
}

/// Unix day number of a calendar date: 1970-01-01 is day 0.
pub open spec fn giorno_unix(a: int, m: int, g: int) -> int {
    giorno_rata(a, m, g) - GIORNI_EPOCA
}

/// Year reached, and days left over, after walking whole years from
/// `a` while `g` days remain.
pub open spec fn anno_e_resto(g: int, a: int) -> (int, int)
    decreases g,
{
    if g < giorni_anno(a) {
        (a, g)
    } else {
        anno_e_resto(g - giorni_anno(a), a + 1)
    }
}

/// Month reached, and days left over, after walking whole months of
/// year `a` from month `m` while `g` days remain.
pub open spec fn mese_e_resto(a: int, g: int, m: int) -> (int, int)
    decreases 12 - m,
{
    if m >= 12 || g < giorni_mese(a, m) {
        (m, g)
    } else {
        mese_e_resto(a, g - giorni_mese(a, m), m + 1)
    }
}

/// Calendar date of a rata day number.
pub open spec fn civile_di(g: int) -> (int, int, int) {
    let (a, r) = anno_e_resto(g, 1);
    let (m, r2) = mese_e_resto(a, r, 1);
    (a, m, r2 + 1)
}

pub proof fn lemma_giorni_prima_anno_limiti(a: int)
    requires
        1 <= a,
    ensures
        365 * (a - 1) <= giorni_prima_anno(a) <= 366 * (a - 1),
    decreases a,
{
    if a > 1 {
        lemma_giorni_prima_anno_limiti(a - 1);
    }
}

/// The months of a year cover it exactly.
pub proof fn lemma_giorni_anno_intero(a: int)
    ensures
        giorni_da_inizio_anno(a, 13) == giorni_anno(a),
{
    reveal_with_fuel(giorni_da_inizio_anno, 13);
}

/// Closed form of `giorni_prima_anno`: 365 days a year, plus the leap
/// days the Gregorian rule has granted up to, excluded, year `a`.
pub proof fn lemma_giorni_prima_anno_chiusa(a: int)
    requires
        1 <= a,
    ensures
        giorni_prima_anno(a) == 365 * (a - 1) + (a - 1) / 4 - (a - 1) / 100 + (a - 1) / 400,
    decreases a,
{
    if a > 1 {
        lemma_giorni_prima_anno_chiusa(a - 1);
        let b = a - 1;
        lemma_salto_quoziente(b, 4);
        lemma_salto_quoziente(b, 100);
        lemma_salto_quoziente(b, 400);
    }
}

/// Walking an integer by one raises its quotient by `d` exactly at the
/// multiples of `d`.
proof fn lemma_salto_quoziente(n: int, d: int)
    requires
        1 <= n,
        2 <= d,
    ensures
        n / d == (n - 1) / d + if n % d == 0 {
            1int
        } else {
            0int
        },
{
    lemma_fundamental_div_mod(n, d);
    let q = n / d;
    let r = n % d;
    assert(n == d * q + r);
    if r == 0 {
        assert((q - 1) * d + (d - 1) == d * q - 1) by (nonlinear_arith);
        lemma_fundamental_div_mod_converse(n - 1, d, q - 1, d - 1);
    } else {
        assert(q * d + (r - 1) == d * q + r - 1) by (nonlinear_arith);
        lemma_fundamental_div_mod_converse(n - 1, d, q, r - 1);
    }
}

/// Every year from `a` on keeps at least 365 days ahead of year `a`.
pub proof fn lemma_giorni_prima_anno_cresce(a: int, b: int)
    requires
        1 <= a <= b,
    ensures
        giorni_prima_anno(a) + 365 * (b - a) <= giorni_prima_anno(b),
    decreases b - a,
{
    if a < b {
        lemma_giorni_prima_anno_cresce(a, b - 1);
    }
}

/// What `anno_e_resto` walks off in whole years it accounts for exactly.
pub proof fn lemma_anno_e_resto(g: int, a0: int)
    requires
        0 <= g,
        1 <= a0,
    ensures
        ({
            let (a, r) = anno_e_resto(g, a0);
            &&& a0 <= a
            &&& 0 <= r < giorni_anno(a)
            &&& giorni_prima_anno(a) + r == giorni_prima_anno(a0) + g
        }),
    decreases g,
{
    if g >= giorni_anno(a0) {
        lemma_anno_e_resto(g - giorni_anno(a0), a0 + 1);
    }
}

/// What `mese_e_resto` walks off in whole months it accounts for
/// exactly, as long as the days to place fit inside the year.
pub proof fn lemma_mese_e_resto(a: int, g: int, m0: int)
    requires
        1 <= m0 <= 12,
        0 <= g,
        giorni_da_inizio_anno(a, m0) + g < giorni_da_inizio_anno(a, 13),
    ensures
        ({
            let (m, r) = mese_e_resto(a, g, m0);
            &&& m0 <= m <= 12
            &&& 0 <= r < giorni_mese(a, m)
            &&& giorni_da_inizio_anno(a, m) + r == giorni_da_inizio_anno(a, m0) + g
        }),
    decreases 12 - m0,
{
    if m0 == 12 {
        assert(giorni_da_inizio_anno(a, 13) == giorni_da_inizio_anno(a, 12) + giorni_mese(a, 12));
    } else if g >= giorni_mese(a, m0) {
        lemma_mese_e_resto(a, g - giorni_mese(a, m0), m0 + 1);
    }
}

/// Any rata day number below `LIMITE_RATA` names a valid calendar date,
/// and `civile_di` inverts `giorno_rata` on it.
pub proof fn lemma_civile_di_corretta(g: int)
    requires
        0 <= g < LIMITE_RATA,
    ensures
        ({
            let (a, m, d) = civile_di(g);
            &&& data_valida(a, m, d)
            &&& giorno_rata(a, m, d) == g
        }),
{
    lemma_anno_e_resto(g, 1);
    let (a, r) = anno_e_resto(g, 1);
    assert(giorni_prima_anno(a) <= g);
    if a > 9999 {
        lemma_giorni_prima_anno_cresce(10000, a);
        lemma_giorni_prima_anno_chiusa(10000);
        assert(giorni_prima_anno(10000) == LIMITE_RATA);
    }
    lemma_giorni_anno_intero(a);
    lemma_mese_e_resto(a, r, 1);
}

/// Between two months of one year the day count grows by 28 to 31 days
/// a month.
pub proof fn lemma_giorni_da_inizio_anno_cresce(a: int, m1: int, m2: int)
    requires
        1 <= m1 <= m2 <= 13,
    ensures
        28 * (m2 - m1) <= giorni_da_inizio_anno(a, m2) - giorni_da_inizio_anno(a, m1) <= 31 * (m2
            - m1),
    decreases m2 - m1,
{
    if m1 < m2 {
        lemma_giorni_da_inizio_anno_cresce(a, m1, m2 - 1);
    }
}

/// Valid dates have rata day numbers in `[0, LIMITE_RATA)`.
pub proof fn lemma_giorno_rata_limiti(a: int, m: int, g: int)
    requires
        data_valida(a, m, g),
    ensures
        0 <= giorno_rata(a, m, g) < LIMITE_RATA,
{
    lemma_giorni_prima_anno_limiti(a);
    lemma_giorni_da_inizio_anno_cresce(a, 1, m);
    lemma_giorni_da_inizio_anno_cresce(a, m + 1, 13);
    lemma_giorni_anno_intero(a);
    assert(giorni_da_inizio_anno(a, m + 1) == giorni_da_inizio_anno(a, m) + giorni_mese(a, m));
    lemma_giorni_prima_anno_cresce(a + 1, 10000);
    lemma_giorni_prima_anno_chiusa(10000);
}

pub fn bisestile_esec(a: i32) -> (r: bool)
    requires
        a >= 0,
    ensures
        r == anno_bisestile(a as int),
{
    a % 4 == 0 && (a % 100 != 0 || a % 400 == 0)
}

pub fn giorni_anno_esec(a: i32) -> (r: u32)
    requires
        a >= 0,
    ensures
        r == giorni_anno(a as int),
{
    if bisestile_esec(a) {
        366
    } else {
        365
    }
}

pub fn giorni_mese_esec(a: i32, m: u32) -> (r: u32)
    requires
        a >= 0,
        1 <= m <= 12,
    ensures
        r == giorni_mese(a as int, m as int),
{
    if m == 2 {
        if bisestile_esec(a) {
            29
        } else {
            28
        }
    } else if m == 4 || m == 6 || m == 9 || m == 11 {
        30
    } else {
        31
    }
}

/// On valid dates `civile_di` inverts `giorno_rata`: the calendar
/// functions identify dates and day numbers one for one.
pub proof fn lemma_civile_inversa(a: int, m: int, g: int)
    requires
        data_valida(a, m, g),
    ensures
        civile_di(giorno_rata(a, m, g)) == (a, m, g),
{
    let rd = giorno_rata(a, m, g);
    lemma_giorno_rata_limiti(a, m, g);
    lemma_civile_di_corretta(rd);
    let (a2, m2, g2) = civile_di(rd);
    lemma_giorni_da_inizio_anno_cresce(a, 1, m);
    lemma_giorni_da_inizio_anno_cresce(a, m + 1, 13);
    lemma_giorni_anno_intero(a);
    assert(giorni_da_inizio_anno(a, m + 1) == giorni_da_inizio_anno(a, m) + giorni_mese(a, m));
    lemma_giorni_da_inizio_anno_cresce(a2, 1, m2);
    lemma_giorni_da_inizio_anno_cresce(a2, m2 + 1, 13);
    lemma_giorni_anno_intero(a2);
    assert(giorni_da_inizio_anno(a2, m2 + 1) == giorni_da_inizio_anno(a2, m2) + giorni_mese(
        a2,
        m2,
    ));
    assert(giorni_prima_anno(a) <= rd < giorni_prima_anno(a) + giorni_anno(a));
    assert(giorni_prima_anno(a2) <= rd < giorni_prima_anno(a2) + giorni_anno(a2));
    if a < a2 {
        assert(giorni_prima_anno(a + 1) == giorni_prima_anno(a) + giorni_anno(a));
        lemma_giorni_prima_anno_cresce(a + 1, a2);
        assert(false);
    }
    if a2 < a {
        assert(giorni_prima_anno(a2 + 1) == giorni_prima_anno(a2) + giorni_anno(a2));
        lemma_giorni_prima_anno_cresce(a2 + 1, a);
        assert(false);
    }
    let rg = rd - giorni_prima_anno(a);
    assert(giorni_da_inizio_anno(a, m) <= rg < giorni_da_inizio_anno(a, m + 1));
    assert(giorni_da_inizio_anno(a, m2) <= rg < giorni_da_inizio_anno(a, m2 + 1));
    if m < m2 {
        lemma_giorni_da_inizio_anno_cresce(a, m + 1, m2);
        assert(false);
    }
    if m2 < m {
        lemma_giorni_da_inizio_anno_cresce(a, m2 + 1, m);
        assert(false);
    }
}

/// Calendar validity, decided by inspection.
pub fn data_valida_esec(a: i32, m: u32, g: u32) -> (r: bool)
    ensures
        r == data_valida(a as int, m as int, g as int),
{
    if a < 1 || a > 9999 || m < 1 || m > 12 || g < 1 {
        false
    } else {
        g <= giorni_mese_esec(a, m)
    }
}

/// Rata day number of a valid calendar date.
pub fn giorno_rata_esec(a: i32, m: u32, g: u32) -> (r: i64)
    requires
        data_valida(a as int, m as int, g as int),
    ensures
        r == giorno_rata(a as int, m as int, g as int),
        0 <= r < LIMITE_RATA,
{
    proof {
        lemma_giorno_rata_limiti(a as int, m as int, g as int);
    }
    let mut acc: i64 = 0;
    let mut anno: i32 = 1;
    while anno < a
        invariant
            1 <= anno <= a <= 9999,
            acc == giorni_prima_anno(anno as int),
            0 <= acc <= 366 * (anno - 1),
        decreases a - anno,
    {
        acc = acc + giorni_anno_esec(anno) as i64;
        anno = anno + 1;
        proof {
            lemma_giorni_prima_anno_limiti(anno as int);
        }
    }
    let mut mese: u32 = 1;
    while mese < m
        invariant
            1 <= mese <= m <= 12,
            1 <= a <= 9999,
            giorni_prima_anno(a as int) <= 366 * 9998,
            acc == giorni_prima_anno(a as int) + giorni_da_inizio_anno(a as int, mese as int),
            0 <= acc <= 366 * 9998 + 31 * 12,
        decreases m - mese,
    {
        acc = acc + giorni_mese_esec(a, mese) as i64;
        mese = mese + 1;
        proof {
            lemma_giorni_da_inizio_anno_cresce(a as int, 1, mese as int);
        }
    }
    acc + (g as i64 - 1)
}

/// Calendar date of a rata day number: the inverse of
/// `giorno_rata_esec`, by `lemma_civile_di_corretta`.
pub fn civile_da_rata(g: i64) -> (r: (i32, u32, u32))
    requires
        0 <= g < LIMITE_RATA,
    ensures
        ({
            let (a, m, d) = civile_di(g as int);
            r.0 == a && r.1 == m && r.2 == d
        }),
        data_valida(r.0 as int, r.1 as int, r.2 as int),
        giorno_rata(r.0 as int, r.1 as int, r.2 as int) == g,
{
    proof {
        lemma_civile_di_corretta(g as int);
        lemma_anno_e_resto(g as int, 1);
    }
    let mut anno: i32 = 1;
    let mut resto: i64 = g;
    while resto >= giorni_anno_esec(anno) as i64
        invariant
            1 <= anno <= 10007,
            0 <= resto <= g < LIMITE_RATA,
            anno_e_resto(g as int, 1) == anno_e_resto(resto as int, anno as int),
            giorni_prima_anno(anno as int) + resto == g,
        decreases resto,
    {
        let gia = giorni_anno_esec(anno);
        proof {
            assert(anno_e_resto(resto as int, anno as int) == anno_e_resto(
                resto - giorni_anno(anno as int),
                anno as int + 1,
            ));
            lemma_giorni_prima_anno_limiti(anno as int + 1);
        }
        resto = resto - gia as i64;
        anno = anno + 1;
    }
    proof {
        assert(anno_e_resto(g as int, 1) == (anno as int, resto as int));
        lemma_giorni_anno_intero(anno as int);
        lemma_mese_e_resto(anno as int, resto as int, 1);
    }
    let ghost resto_anno = resto as int;
    let mut mese: u32 = 1;
    while mese < 12 && resto >= giorni_mese_esec(anno, mese) as i64
        invariant
            1 <= mese <= 12,
            1 <= anno <= 9999,
            0 <= resto < 366,
            mese_e_resto(anno as int, resto_anno, 1) == mese_e_resto(
                anno as int,
                resto as int,
                mese as int,
            ),
        decreases 12 - mese,
    {
        let gim = giorni_mese_esec(anno, mese);
        proof {
            assert(mese_e_resto(anno as int, resto as int, mese as int) == mese_e_resto(
                anno as int,
                resto - giorni_mese(anno as int, mese as int),
                mese as int + 1,
            ));
        }
        resto = resto - gim as i64;
        mese = mese + 1;
    }
    proof {
        assert(mese_e_resto(anno as int, resto_anno, 1) == (mese as int, resto as int));
    }
    (anno, mese, resto as u32 + 1)
}

} // verus!
