//! A UTC instant as a count of whole seconds from the Unix epoch, and
//! its decomposition into a calendar date and a time of day.

use crate::calendario::GIORNI_EPOCA;
use crate::calendario::LIMITE_RATA;
use crate::calendario::SECONDI_MASSIMI;
use crate::calendario::SECONDI_MINIMI;
use crate::calendario::civile_di;
use crate::calendario::civile_da_rata;
use crate::calendario::data_valida;
use crate::calendario::giorno_rata;
use crate::calendario::giorno_rata_esec;
use crate::calendario::giorno_unix;
use crate::calendario::lemma_civile_inversa;
use crate::calendario::lemma_giorno_rata_limiti;
use vstd::arithmetic::div_mod::lemma_fundamental_div_mod;
use vstd::arithmetic::div_mod::lemma_fundamental_div_mod_converse;
use vstd::prelude::*;

verus! {

/// A UTC instant, in whole seconds from 1970-01-01T00:00:00Z.
/// Sub-second precision is deliberately absent: every source this
/// library reads truncates to seconds.
#[derive(Clone, Copy, PartialEq, Eq, Structural, Debug)]
pub struct Istante {
    pub secondi: i64,
}

/// A calendar date with a time of day, all fields UTC.
#[derive(Clone, Copy, PartialEq, Eq, Structural, Debug)]
pub struct DataOra {
    pub anno: i32,
    pub mese: u32,
    pub giorno: u32,
    pub ora: u32,
    pub minuto: u32,
    pub secondo: u32,
}

/// A valid instant's day number names a day of the years 1 through
/// 9999, its time of day is a second of that day, and the two together
/// recover the second count.
pub proof fn lemma_giorno_e_resto(i: Istante)
    requires
        i.valido(),
    ensures
        0 <= i.rata_spec() < LIMITE_RATA,
        0 <= i.secondi_del_giorno_spec() < 86400,
        i.secondi == i.giorno_unix_spec() * 86400 + i.secondi_del_giorno_spec(),
{
    lemma_fundamental_div_mod(i.secondi as int, 86400);
    vstd::arithmetic::div_mod::lemma_mod_bound(i.secondi as int, 86400);
}

/// The instant holding a calendar date and a time of day.
pub open spec fn istante_civile(a: int, m: int, g: int, o: int, mi: int, s: int) -> Istante {
    Istante { secondi: (giorno_unix(a, m, g) * 86400 + o * 3600 + mi * 60 + s) as i64 }
}

impl Istante {
    /// The library covers the years 1 through 9999.
    pub open spec fn valido(self) -> bool {
        SECONDI_MINIMI <= self.secondi <= SECONDI_MASSIMI
    }

    /// Unix day number holding the instant (floor division: an instant
    /// before the epoch belongs to a negative day).
    pub open spec fn giorno_unix_spec(self) -> int {
        self.secondi as int / 86400
    }

    /// Rata day number holding the instant.
    pub open spec fn rata_spec(self) -> int {
        self.giorno_unix_spec() + GIORNI_EPOCA
    }

    /// Calendar date holding the instant.
    pub open spec fn civile_spec(self) -> (int, int, int) {
        civile_di(self.rata_spec())
    }

    pub open spec fn anno_spec(self) -> int {
        self.civile_spec().0
    }

    /// Seconds elapsed since the midnight opening the instant's day.
    pub open spec fn secondi_del_giorno_spec(self) -> int {
        self.secondi as int % 86400
    }

    /// Accepts a Unix timestamp exactly when it falls in the years
    /// 1 through 9999.
    pub fn da_epoch(ts: i64) -> (r: Option<Istante>)
        ensures
            r is Some <==> SECONDI_MINIMI <= ts <= SECONDI_MASSIMI,
            r is Some ==> r->0 == (Istante { secondi: ts }) && r->0.valido(),
    {
        if SECONDI_MINIMI <= ts && ts <= SECONDI_MASSIMI {
            Some(Istante { secondi: ts })
        } else {
            None
        }
    }

    /// Unix day number, computed with floor semantics.
    pub fn giorno_unix_esec(&self) -> (g: i64)
        requires
            self.valido(),
        ensures
            g == self.giorno_unix_spec(),
            -GIORNI_EPOCA <= g < LIMITE_RATA - GIORNI_EPOCA,
    {
        proof {
            lemma_fundamental_div_mod(self.secondi as int, 86400);
        }
        let s = self.secondi;
        if s >= 0 {
            let q: u64 = (s as u64) / 86400;
            q as i64
        } else {
            let n: u64 = (-s) as u64;
            let q: u64 = (n + 86399) / 86400;
            proof {
                let qi = q as int;
                let ni = n as int;
                assert(ni + 86399 == 86400 * qi + ((ni + 86399) % 86400));
                assert(0 <= 86400 * qi - ni < 86400);
                lemma_fundamental_div_mod_converse(-ni, 86400, -qi, 86400 * qi - ni);
            }
            -(q as i64)
        }
    }

    /// Calendar date and time of day of a valid instant.
    pub fn civile(&self) -> (d: DataOra)
        requires
            self.valido(),
        ensures
            (d.anno as int, d.mese as int, d.giorno as int) == self.civile_spec(),
            data_valida(d.anno as int, d.mese as int, d.giorno as int),
            giorno_rata(d.anno as int, d.mese as int, d.giorno as int) == self.rata_spec(),
            d.ora == self.secondi_del_giorno_spec() / 3600,
            d.minuto == (self.secondi_del_giorno_spec() / 60) % 60,
            d.secondo == self.secondi_del_giorno_spec() % 60,
            d.ora < 24 && d.minuto < 60 && d.secondo < 60,
    {
        let g = self.giorno_unix_esec();
        let (anno, mese, giorno) = civile_da_rata(g + GIORNI_EPOCA);
        let sod: u32 = (self.secondi - g * 86400) as u32;
        proof {
            lemma_fundamental_div_mod(self.secondi as int, 86400);
            assert(sod == self.secondi_del_giorno_spec());
        }
        let ora: u32 = sod / 3600;
        let minuto: u32 = (sod / 60) % 60;
        let secondo: u32 = sod % 60;
        DataOra { anno, mese, giorno, ora, minuto, secondo }
    }

    /// The valid instant holding a given calendar date and time of day.
    pub fn da_civile(a: i32, m: u32, g: u32, ora: u32, minuto: u32, secondo: u32) -> (r: Istante)
        requires
            data_valida(a as int, m as int, g as int),
            ora < 24,
            minuto < 60,
            secondo < 60,
        ensures
            r.valido(),
            r == istante_civile(
                a as int,
                m as int,
                g as int,
                ora as int,
                minuto as int,
                secondo as int,
            ),
            r.secondi == giorno_unix(a as int, m as int, g as int) * 86400 + ora * 3600 + minuto
                * 60 + secondo,
            r.civile_spec() == (a as int, m as int, g as int),
            r.giorno_unix_spec() == giorno_unix(a as int, m as int, g as int),
            r.secondi_del_giorno_spec() == ora * 3600 + minuto * 60 + secondo,
    {
        proof {
            lemma_giorno_rata_limiti(a as int, m as int, g as int);
        }
        let rata = giorno_rata_esec(a, m, g);
        let unix = rata - GIORNI_EPOCA;
        let sod: i64 = ora as i64 * 3600 + minuto as i64 * 60 + secondo as i64;
        let secondi = unix * 86400 + sod;
        proof {
            lemma_fundamental_div_mod_converse(secondi as int, 86400, unix as int, sod as int);
            lemma_civile_inversa(a as int, m as int, g as int);
        }
        Istante { secondi }
    }
}

} // verus!
