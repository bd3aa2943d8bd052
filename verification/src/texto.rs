//! Splitting a line into words and reading numbers from them.
//!
//! A word is a longest run of characters that holds no white space. A number
//! is written as decimal digits, with an optional `+` in front.

use crate::ErrorTipo;
use vstd::prelude::*;

verus! {

/// The character is white space, as Unicode defines it.
pub open spec fn es_espacio(c: char) -> bool {
    let u = c as u32;
    ||| 0x09 <= u <= 0x0D
    ||| u == 0x20
    ||| u == 0x85
    ||| u == 0xA0
    ||| u == 0x1680
    ||| 0x2000 <= u <= 0x200A
    ||| u == 0x2028
    ||| u == 0x2029
    ||| u == 0x202F
    ||| u == 0x205F
    ||| u == 0x3000
}

/// Number of characters from position `i` on before the next white space or
/// the end of the line.
pub open spec fn largo_palabra(s: Seq<char>, i: int) -> nat
    decreases s.len() - i,
{
    if i < 0 || i >= s.len() || es_espacio(s[i]) {
        0
    } else {
        1 + largo_palabra(s, i + 1)
    }
}

/// The words of the line from position `i` on, left to right.
pub open spec fn palabras_desde(s: Seq<char>, i: int) -> Seq<Seq<char>>
    decreases s.len() - i,
{
    if i < 0 || i >= s.len() {
        Seq::empty()
    } else if es_espacio(s[i]) {
        palabras_desde(s, i + 1)
    } else {
        proof {
            lema_largo_palabra(s, i);
        }
        let j = i + largo_palabra(s, i);
        seq![s.subrange(i, j)] + palabras_desde(s, j)
    }
}

/// A word ends within the line, and it is empty only where the line ends or
/// white space stands.
pub proof fn lema_largo_palabra(s: Seq<char>, i: int)
    requires
        0 <= i <= s.len(),
    ensures
        i + largo_palabra(s, i) <= s.len(),
        largo_palabra(s, i) == 0 <==> (i == s.len() || es_espacio(s[i])),
    decreases s.len() - i,
{
    if i < s.len() && !es_espacio(s[i]) {
        lema_largo_palabra(s, i + 1);
    }
}

/// The words of the line, left to right.
pub open spec fn palabras(s: Seq<char>) -> Seq<Seq<char>> {
    palabras_desde(s, 0)
}

/// The character is one of the ten decimal digits.
pub open spec fn es_digito(c: char) -> bool {
    '0' <= c <= '9'
}

/// Value of a run of decimal digits, the first being the most significant.
pub open spec fn valor_digitos(s: Seq<char>) -> nat
    decreases s.len(),
{
    if s.len() == 0 {
        0
    } else {
        (valor_digitos(s.drop_last()) * 10 + (s.last() as u32 - '0' as u32)) as nat
    }
}

/// Every character of the run is a decimal digit.
pub open spec fn solo_digitos(s: Seq<char>) -> bool {
    forall|i: int| 0 <= i < s.len() ==> es_digito(#[trigger] s[i])
}

/// The number that a word spells, if it spells one that fits in 32 bits: a
/// run of at least one digit, after an optional `+`.
pub open spec fn valor_u32(palabra: Seq<char>) -> Option<u32> {
    let d = if palabra.len() > 0 && palabra[0] == '+' {
        palabra.drop_first()
    } else {
        palabra
    };
    if d.len() > 0 && solo_digitos(d) && valor_digitos(d) <= u32::MAX {
        Some(valor_digitos(d) as u32)
    } else {
        None
    }
}

/// What a line of two numbers gives: the two numbers, or why it holds none.
/// The first number is read and held to its range before the second is looked
/// at.
pub open spec fn par_de_linea(
    linea: Seq<char>,
    min1: u32,
    max1: u32,
    min2: u32,
    max2: u32,
) -> Result<(u32, u32), ErrorTipo> {
    let p = palabras(linea);
    if p.len() != 2 {
        Err(ErrorTipo::ValorFaltante)
    } else {
        match valor_u32(p[0]) {
            None => Err(ErrorTipo::NumeroInvalido),
            Some(a) => if !(min1 <= a <= max1) {
                Err(ErrorTipo::FueraDeRango)
            } else {
                match valor_u32(p[1]) {
                    None => Err(ErrorTipo::NumeroInvalido),
                    Some(b) => if !(min2 <= b <= max2) {
                        Err(ErrorTipo::FueraDeRango)
                    } else {
                        Ok((a, b))
                    },
                }
            },
        }
    }
}

/// The characters of a string, one by one.
pub fn caracteres(s: &str) -> (v: Vec<char>)
    ensures
        v@ == s@,
{
    let mut v: Vec<char> = Vec::new();
    for c in it: s.chars()
        invariant
            it.seq() == s@,
            v@ == it.seq().take(it.index() as int),
    {
        v.push(c);
    }
    v
}

/// Tells white space from the rest.
pub fn es_blanco(c: char) -> (b: bool)
    ensures
        b == es_espacio(c),
{
    let u: u32 = c as u32;
    (0x09 <= u && u <= 0x0D) || u == 0x20 || u == 0x85 || u == 0xA0 || u == 0x1680 || (0x2000 <= u
        && u <= 0x200A) || u == 0x2028 || u == 0x2029 || u == 0x202F || u == 0x205F || u == 0x3000
}

/// What each of the words holds.
pub open spec fn vistas(t: Seq<Vec<char>>) -> Seq<Seq<char>> {
    Seq::new(t.len(), |i: int| t[i]@)
}

/// Splits a line into its words.
pub fn dividir(linea: &str) -> (t: Vec<Vec<char>>)
    ensures
        vistas(t@) == palabras(linea@),
{
    let cs = caracteres(linea);
    let n: usize = cs.len();
    let mut t: Vec<Vec<char>> = Vec::new();
    let mut i: usize = 0;
    while i < n
        invariant
            n == cs.len(),
            i <= n,
            palabras(cs@) == vistas(t@) + palabras_desde(cs@, i as int),
        decreases n - i,
    {
        if es_blanco(cs[i]) {
            i = i + 1;
        } else {
            let mut palabra: Vec<char> = Vec::new();
            let mut j: usize = i;
            while j < n && !es_blanco(cs[j])
                invariant
                    n == cs.len(),
                    i <= j <= n,
                    palabra@ == cs@.subrange(i as int, j as int),
                    largo_palabra(cs@, i as int) == (j - i) + largo_palabra(cs@, j as int),
                decreases n - j,
            {
                palabra.push(cs[j]);
                j = j + 1;
            }
            proof {
                lema_largo_palabra(cs@, j as int);
            }
            t.push(palabra);
            i = j;
        }
    }
    t
}

/// The value of a run of digits is at least that of any of its prefixes.
proof fn lema_valor_prefijo(d: Seq<char>, k: int)
    requires
        solo_digitos(d),
        0 <= k <= d.len(),
    ensures
        valor_digitos(d.take(k)) <= valor_digitos(d),
    decreases d.len() - k,
{
    if k == d.len() {
        assert(d.take(k) =~= d);
    } else {
        lema_valor_prefijo(d, k + 1);
        assert(d.take(k + 1).drop_last() =~= d.take(k));
    }
}

/// Reads the number that a word spells.
pub fn leer_u32(palabra: &Vec<char>) -> (r: Option<u32>)
    ensures
        r == valor_u32(palabra@),
{
    let n: usize = palabra.len();
    let ini: usize = if n > 0 && palabra[0] == '+' {
        1
    } else {
        0
    };
    let ghost d = palabra@.subrange(ini as int, n as int);
    if ini == n {
        return None;
    }
    let mut acc: u64 = 0;
    let mut i: usize = ini;
    while i < n
        invariant
            n == palabra.len(),
            ini <= i <= n,
            d == palabra@.subrange(ini as int, n as int),
            d == if palabra@.len() > 0 && palabra@[0] == '+' {
                palabra@.drop_first()
            } else {
                palabra@
            },
            solo_digitos(d.take(i - ini)),
            acc == valor_digitos(d.take(i - ini)),
            acc <= u32::MAX,
        decreases n - i,
    {
        let c: char = palabra[i];
        if !('0' <= c && c <= '9') {
            proof {
                assert(d[i - ini] == c);
            }
            return None;
        }
        let digito: u64 = (c as u32 - '0' as u32) as u64;
        acc = acc * 10 + digito;
        proof {
            let k = i - ini;
            assert(d.take(k + 1).drop_last() =~= d.take(k));
            assert(solo_digitos(d.take(k + 1))) by {
                assert forall|m: int| 0 <= m < k implies es_digito(#[trigger] d.take(k + 1)[m]) by {
                    assert(d.take(k)[m] == d.take(k + 1)[m]);
                }
            }
        }
        if acc > 0xFFFF_FFFF {
            proof {
                if solo_digitos(d) {
                    lema_valor_prefijo(d, i - ini + 1);
                }
            }
            return None;
        }
        i = i + 1;
    }
    proof {
        assert(d.take(n - ini) =~= d);
    }
    Some(acc as u32)
}

/// Reads the two numbers of a line and holds each to its range.
pub fn leer_par(
    linea: &str,
    min1: u32,
    max1: u32,
    min2: u32,
    max2: u32,
) -> (r: Result<(u32, u32), ErrorTipo>)
    ensures
        r == par_de_linea(linea@, min1, max1, min2, max2),
{
    let p = dividir(linea);
    if p.len() != 2 {
        return Err(ErrorTipo::ValorFaltante);
    }
    let a: u32 = match leer_u32(&p[0]) {
        None => {
            return Err(ErrorTipo::NumeroInvalido);
        },
        Some(a) => a,
    };
    if a < min1 || a > max1 {
        return Err(ErrorTipo::FueraDeRango);
    }
    let b: u32 = match leer_u32(&p[1]) {
        None => {
            return Err(ErrorTipo::NumeroInvalido);
        },
        Some(b) => b,
    };
    if b < min2 || b > max2 {
        return Err(ErrorTipo::FueraDeRango);
    }
    Ok((a, b))
}

} // verus!
