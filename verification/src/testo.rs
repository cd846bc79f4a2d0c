//! Text groundwork: character-wise string equality, and decimal
//! reading and writing of unsigned and signed integers.

use vstd::prelude::*;

verus! {

pub open spec fn e_cifra(c: char) -> bool {
    48 <= c as u32 <= 57
}

pub open spec fn valore_cifra(c: char) -> int {
    c as u32 - 48
}

pub open spec fn tutte_cifre(s: Seq<char>) -> bool {
    forall|i: int| 0 <= i < s.len() ==> e_cifra(#[trigger] s[i])
}

/// Value of a string of decimal digits, most significant first.
pub open spec fn valore_decimale(s: Seq<char>) -> int
    decreases s.len(),
{
    if s.len() == 0 {
        0
    } else {
        valore_decimale(s.drop_last()) * 10 + valore_cifra(s.last())
    }
}

pub proof fn lemma_valore_decimale_non_negativo(s: Seq<char>)
    requires
        tutte_cifre(s),
    ensures
        valore_decimale(s) >= 0,
    decreases s.len(),
{
    if s.len() > 0 {
        assert(tutte_cifre(s.drop_last()));
        lemma_valore_decimale_non_negativo(s.drop_last());
    }
}

/// Reading one more digit multiplies the value by ten and adds it.
pub proof fn lemma_valore_decimale_passo(s: Seq<char>, i: int)
    requires
        0 <= i < s.len(),
    ensures
        valore_decimale(s.subrange(0, i + 1)) == valore_decimale(s.subrange(0, i)) * 10
            + valore_cifra(s[i]),
{
    assert(s.subrange(0, i + 1).drop_last() =~= s.subrange(0, i));
    assert(s.subrange(0, i + 1).last() == s[i]);
}

/// A digit string's value only grows as digits are appended.
pub proof fn lemma_valore_decimale_cresce(s: Seq<char>, i: int, j: int)
    requires
        tutte_cifre(s),
        0 <= i <= j <= s.len(),
    ensures
        valore_decimale(s.subrange(0, i)) <= valore_decimale(s.subrange(0, j)),
    decreases j - i,
{
    if i < j {
        lemma_valore_decimale_cresce(s, i + 1, j);
        lemma_valore_decimale_passo(s, i);
        assert(tutte_cifre(s.subrange(0, i)));
        lemma_valore_decimale_non_negativo(s.subrange(0, i));
    }
}

/// A stretch of digits stays a digit string when cut out.
pub proof fn lemma_sotto_cifre(s: Seq<char>, da: int, a: int)
    requires
        0 <= da <= a <= s.len(),
        forall|j: int| da <= j < a ==> e_cifra(#[trigger] s[j]),
    ensures
        tutte_cifre(s.subrange(da, a)),
{
    assert forall|k: int| 0 <= k < a - da implies e_cifra(#[trigger] s.subrange(da, a)[k]) by {
        assert(s.subrange(da, a)[k] == s[da + k]);
    }
}

/// Character-wise string equality, proved equivalent to equality of
/// the views.
pub fn stringhe_uguali(a: &str, b: &str) -> (r: bool)
    ensures
        r == (a@ == b@),
{
    let la = a.unicode_len();
    let lb = b.unicode_len();
    if la != lb {
        return false;
    }
    let mut i: usize = 0;
    while i < la
        invariant
            0 <= i <= la,
            la == a@.len() == b@.len(),
            forall|j: int| 0 <= j < i ==> a@[j] == b@[j],
        decreases la - i,
    {
        if a.get_char(i) != b.get_char(i) {
            return false;
        }
        i = i + 1;
    }
    proof {
        assert(a@ =~= b@);
    }
    true
}

/// What reading a decimal signed 64-bit integer from a string yields:
/// an optional sign, then one or more digits, nothing else, and a value
/// within the type's range; anything else reads as nothing.
pub open spec fn analisi_i64(s: Seq<char>) -> Option<int> {
    let cifre = if s.len() >= 1 && (s[0] == '+' || s[0] == '-') {
        s.subrange(1, s.len() as int)
    } else {
        s
    };
    let segno: int = if s.len() >= 1 && s[0] == '-' {
        -1
    } else {
        1
    };
    if cifre.len() >= 1 && tutte_cifre(cifre) {
        let v = segno * valore_decimale(cifre);
        if i64::MIN as int <= v <= i64::MAX as int {
            Some(v)
        } else {
            None
        }
    } else {
        None
    }
}

/// Reads a decimal signed 64-bit integer, with exactly the acceptance
/// and range behaviour stated by `analisi_i64`.
#[verifier::loop_isolation(false)]
pub fn analizza_i64(s: &str) -> (r: Option<i64>)
    ensures
        match r {
            Some(v) => analisi_i64(s@) == Some(v as int),
            None => analisi_i64(s@) is None,
        },
{
    let len = s.unicode_len();
    if len == 0 {
        return None;
    }
    let c0 = s.get_char(0);
    let negativo = c0 == '-';
    let inizio: usize = if c0 == '-' || c0 == '+' {
        1
    } else {
        0
    };
    if inizio >= len {
        return None;
    }
    let ghost cifre = s@.subrange(inizio as int, s@.len() as int);
    proof {
        if inizio == 0 {
            assert(cifre =~= s@);
        }
    }
    let limite: u64 = if negativo {
        9223372036854775808
    } else {
        9223372036854775807
    };
    let mut acc: u64 = 0;
    let mut i: usize = inizio;
    while i < len
        invariant
            inizio <= i <= len,
            inizio <= 1,
            len == s@.len(),
            cifre == s@.subrange(inizio as int, s@.len() as int),
            tutte_cifre(cifre.subrange(0, i - inizio)),
            acc == valore_decimale(cifre.subrange(0, i - inizio)),
            acc <= limite,
            9223372036854775807 <= limite <= 9223372036854775808,
            limite == 9223372036854775808 <==> negativo,
        decreases len - i,
    {
        let c = s.get_char(i);
        let cu = c as u32;
        proof {
            assert(cifre[i - inizio] == s@[i as int]);
        }
        if cu < 48 || cu > 57 {
            proof {
                assert(!e_cifra(cifre[i - inizio]));
            }
            return None;
        }
        let d = (cu - 48) as u64;
        proof {
            lemma_valore_decimale_passo(cifre, i - inizio);
            assert(tutte_cifre(cifre.subrange(0, i + 1 - inizio)));
        }
        if acc > (limite - d) / 10 {
            proof {
                let k = i + 1 - inizio;
                vstd::arithmetic::div_mod::lemma_fundamental_div_mod((limite - d) as int, 10);
                vstd::arithmetic::div_mod::lemma_mod_bound((limite - d) as int, 10);
                assert(valore_decimale(cifre.subrange(0, k)) > limite);
                if tutte_cifre(cifre) {
                    lemma_valore_decimale_cresce(cifre, k, cifre.len() as int);
                    assert(cifre.subrange(0, cifre.len() as int) =~= cifre);
                    assert(valore_decimale(cifre) > limite);
                    if negativo {
                        assert((-1) * valore_decimale(cifre) == -valore_decimale(cifre));
                        assert((-1) * valore_decimale(cifre) < i64::MIN as int);
                    } else {
                        assert(1 * valore_decimale(cifre) > i64::MAX as int);
                    }
                }
                assert(analisi_i64(s@) is None);
            }
            return None;
        }
        acc = acc * 10 + d;
        i = i + 1;
    }
    proof {
        assert(cifre.subrange(0, i - inizio) =~= cifre);
        assert(acc == valore_decimale(cifre));
        assert(cifre.len() >= 1);
        assert(tutte_cifre(cifre));
    }
    if negativo {
        proof {
            assert(analisi_i64(s@) == Some((-1) * valore_decimale(cifre)));
        }
        if acc == 0 {
            Some(0)
        } else {
            Some(-((acc - 1) as i64) - 1)
        }
    } else {
        proof {
            assert(analisi_i64(s@) == Some(1 * valore_decimale(cifre)));
        }
        Some(acc as i64)
    }
}

pub open spec fn pow10(k: int) -> int
    decreases k,
{
    if k <= 0 {
        1
    } else {
        10 * pow10(k - 1)
    }
}

pub proof fn lemma_pow10_pos(k: int)
    ensures
        pow10(k) >= 1,
    decreases k,
{
    if k > 0 {
        lemma_pow10_pos(k - 1);
    }
}

pub proof fn lemma_pow10_mono(k: int, l: int)
    requires
        k <= l,
    ensures
        pow10(k) <= pow10(l),
    decreases l - k,
{
    if k < l {
        lemma_pow10_mono(k, l - 1);
        lemma_pow10_pos(l - 1);
    }
}

pub open spec fn cifra_di(n: int) -> char {
    if n == 0 {
        '0'
    } else if n == 1 {
        '1'
    } else if n == 2 {
        '2'
    } else if n == 3 {
        '3'
    } else if n == 4 {
        '4'
    } else if n == 5 {
        '5'
    } else if n == 6 {
        '6'
    } else if n == 7 {
        '7'
    } else if n == 8 {
        '8'
    } else {
        '9'
    }
}

/// Decimal digit string of a non-negative number, no leading zeros.
pub open spec fn cifre_decimali(n: int) -> Seq<char>
    decreases n,
{
    if n < 10 {
        seq![cifra_di(n)]
    } else {
        cifre_decimali(n / 10) + seq![cifra_di(n % 10)]
    }
}

/// Decimal digit string of a non-negative number, left-padded with
/// zeros to at least `w` characters.
pub open spec fn cifre_decimali_pad(n: int, w: int) -> Seq<char>
    decreases w,
{
    if cifre_decimali(n).len() >= w {
        cifre_decimali(n)
    } else {
        seq!['0'] + cifre_decimali_pad(n, w - 1)
    }
}

/// The decimal rendering of a number is all digits.
pub proof fn lemma_cifre_decimali_cifre(n: int)
    requires
        0 <= n,
    ensures
        tutte_cifre(cifre_decimali(n)),
        cifre_decimali(n).len() >= 1,
    decreases n,
{
    if n < 10 {
        assert(e_cifra(cifra_di(n)));
    } else {
        lemma_cifre_decimali_cifre(n / 10);
        assert(e_cifra(cifra_di(n % 10)));
        assert forall|i: int| 0 <= i < cifre_decimali(n).len() implies e_cifra(
            #[trigger] cifre_decimali(n)[i],
        ) by {
            if i < cifre_decimali(n / 10).len() {
                assert(cifre_decimali(n)[i] == cifre_decimali(n / 10)[i]);
            }
        }
    }
}

/// A number below `10^k` renders in at most `k` digits.
pub proof fn lemma_cifre_decimali_lunghezza(n: int, k: int)
    requires
        0 <= n < pow10(k),
        1 <= k,
    ensures
        cifre_decimali(n).len() <= k,
    decreases k,
{
    if n >= 10 {
        vstd::arithmetic::div_mod::lemma_fundamental_div_mod(n, 10);
        vstd::arithmetic::div_mod::lemma_mod_bound(n, 10);
        lemma_cifre_decimali_lunghezza(n / 10, k - 1);
    }
}

/// Reading back the decimal rendering of a number returns it.
pub proof fn lemma_cifre_decimali_valore(n: int)
    requires
        0 <= n,
    ensures
        valore_decimale(cifre_decimali(n)) == n,
    decreases n,
{
    if n < 10 {
        reveal_with_fuel(valore_decimale, 2);
        assert(cifre_decimali(n).drop_last() =~= Seq::<char>::empty());
        assert(cifre_decimali(n).last() == cifra_di(n));
        assert(valore_cifra(cifra_di(n)) == n);
    } else {
        lemma_cifre_decimali_valore(n / 10);
        let s = cifre_decimali(n);
        assert(s.drop_last() =~= cifre_decimali(n / 10));
        assert(s.last() == cifra_di(n % 10));
        vstd::arithmetic::div_mod::lemma_fundamental_div_mod(n, 10);
        vstd::arithmetic::div_mod::lemma_mod_bound(n, 10);
        assert(valore_cifra(cifra_di(n % 10)) == n % 10);
    }
}

/// A leading zero leaves a digit string's value alone.
proof fn lemma_zero_in_testa(s: Seq<char>)
    ensures
        valore_decimale(seq!['0'] + s) == valore_decimale(s),
    decreases s.len(),
{
    if s.len() == 0 {
        reveal_with_fuel(valore_decimale, 2);
        assert((seq!['0'] + s) =~= seq!['0']);
        assert(valore_cifra('0') == 0);
        assert(seq!['0'].drop_last() =~= Seq::<char>::empty());
        assert(seq!['0'].last() == '0');
    } else {
        lemma_zero_in_testa(s.drop_last());
        assert((seq!['0'] + s).drop_last() =~= seq!['0'] + s.drop_last());
        assert((seq!['0'] + s).last() == s.last());
    }
}

/// Zero-padding changes a rendering's length, never its value, its
/// digit-ness, or the length past the requested width.
pub proof fn lemma_cifre_decimali_pad(n: int, w: int)
    requires
        0 <= n,
    ensures
        valore_decimale(cifre_decimali_pad(n, w)) == n,
        tutte_cifre(cifre_decimali_pad(n, w)),
        cifre_decimali_pad(n, w).len() == if cifre_decimali(n).len() >= w {
            cifre_decimali(n).len() as int
        } else {
            w
        },
    decreases w,
{
    lemma_cifre_decimali_cifre(n);
    lemma_cifre_decimali_valore(n);
    if cifre_decimali(n).len() < w {
        lemma_cifre_decimali_pad(n, w - 1);
        lemma_zero_in_testa(cifre_decimali_pad(n, w - 1));
        assert(e_cifra('0'));
        let t = cifre_decimali_pad(n, w - 1);
        assert forall|i: int| 0 <= i < (seq!['0'] + t).len() implies e_cifra(
            #[trigger] (seq!['0'] + t)[i],
        ) by {
            if i > 0 {
                assert((seq!['0'] + t)[i] == t[i - 1]);
            }
        }
    }
}

fn cifra_stringa(n: u64) -> (r: &'static str)
    requires
        n < 10,
    ensures
        r@ =~= seq![cifra_di(n as int)],
{
    proof {
        reveal_strlit("0");
        reveal_strlit("1");
        reveal_strlit("2");
        reveal_strlit("3");
        reveal_strlit("4");
        reveal_strlit("5");
        reveal_strlit("6");
        reveal_strlit("7");
        reveal_strlit("8");
        reveal_strlit("9");
    }
    match n {
        0 => "0",
        1 => "1",
        2 => "2",
        3 => "3",
        4 => "4",
        5 => "5",
        6 => "6",
        7 => "7",
        8 => "8",
        _ => "9",
    }
}

/// Decimal rendering of a number.
pub fn numero_stringa(n: u64) -> (r: String)
    ensures
        r@ == cifre_decimali(n as int),
    decreases n,
{
    if n < 10 {
        let mut s = String::new();
        s.append(cifra_stringa(n));
        proof {
            assert(s@ =~= cifre_decimali(n as int));
        }
        s
    } else {
        let mut s = numero_stringa(n / 10);
        s.append(cifra_stringa(n % 10));
        proof {
            assert(s@ =~= cifre_decimali(n as int));
        }
        s
    }
}

/// Decimal rendering of a number, zero-padded to at least `w`
/// characters.
pub fn numero_stringa_pad(n: u64, w: usize) -> (r: String)
    ensures
        r@ == cifre_decimali_pad(n as int, w as int),
    decreases w,
{
    let cifre = numero_stringa(n);
    if cifre.as_str().unicode_len() >= w {
        cifre
    } else {
        proof {
            reveal_strlit("0");
        }
        let mut s = String::new();
        s.append("0");
        s.append(numero_stringa_pad(n, w - 1).as_str());
        proof {
            assert(s@ =~= cifre_decimali_pad(n as int, w as int));
        }
        s
    }
}

} // verus!
