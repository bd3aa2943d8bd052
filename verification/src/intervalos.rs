//! Closed intervals with integer endpoints and the length of their union.
//!
//! An interval `[inicio, fin]` with integer endpoints is made of the unit
//! cells `[k, k + 1)` with `inicio <= k < fin`. The length of a union of such
//! intervals is the number of cells that at least one of them holds, which is
//! how `longitud_union` defines it.

use crate::celdas::{
    lema_celdas_acotadas, lema_celdas_finitas, lema_celdas_permutacion, lema_celdas_push,
    lema_permutacion_bien_formada,
};
use crate::orden::{mismo_orden_entre_iguales, ordenar};
use vstd::prelude::*;
use vstd::set_lib::*;

verus! {

/// A closed interval `[inicio, fin]` of the line, in ticks.
#[derive(Clone, Copy, Debug, PartialEq, Eq, Structural)]
pub struct Intervalo {
    pub inicio: i128,
    pub fin: i128,
}

impl Intervalo {
    /// The interval does not end before it starts.
    pub open spec fn bien_formado(self) -> bool {
        self.inicio <= self.fin
    }

    /// The unit cell `[k, k + 1)` lies inside the interval.
    pub open spec fn cubre(self, k: int) -> bool {
        self.inicio <= k < self.fin
    }

    /// Length of the interval.
    pub open spec fn largo(self) -> int {
        self.fin - self.inicio
    }

    /// The two intervals have a point in common: they overlap or touch.
    pub open spec fn toca(self, otro: Intervalo) -> bool {
        self.inicio <= otro.fin && otro.inicio <= self.fin
    }

    /// The two intervals have a unit cell in common: they overlap in more
    /// than a point.
    pub open spec fn solapa(self, otro: Intervalo) -> bool {
        self.inicio < otro.fin && otro.inicio < self.fin && self.inicio < self.fin
            && otro.inicio < otro.fin
    }
}

/// Every interval of the sequence is well formed.
pub open spec fn bien_formados(s: Seq<Intervalo>) -> bool {
    forall|i: int| 0 <= i < s.len() ==> (#[trigger] s[i]).bien_formado()
}

/// The sequence is in ascending order of `inicio`.
pub open spec fn ordenados(s: Seq<Intervalo>) -> bool {
    forall|i: int, j: int| 0 <= i <= j < s.len() ==> s[i].inicio <= s[j].inicio
}

/// Some interval of the sequence holds the unit cell `[k, k + 1)`.
pub open spec fn celda_cubierta(s: Seq<Intervalo>, k: int) -> bool {
    exists|i: int| 0 <= i < s.len() && (#[trigger] s[i]).cubre(k)
}

/// The unit cells that the intervals of the sequence hold between them.
pub open spec fn celdas(s: Seq<Intervalo>) -> Set<int> {
    Set::new(|k: int| celda_cubierta(s, k))
}

/// Length of the union of the intervals: the number of unit cells covered.
pub open spec fn longitud_union(s: Seq<Intervalo>) -> nat {
    celdas(s).len()
}

/// Sum of the lengths of the intervals, each counted on its own.
pub open spec fn suma_longitudes(s: Seq<Intervalo>) -> int
    decreases s.len(),
{
    if s.len() == 0 {
        0
    } else {
        suma_longitudes(s.drop_last()) + s.last().largo()
    }
}

/// The covered cells that lie to the left of `x`.
spec fn celdas_antes(s: Seq<Intervalo>, x: int) -> Set<int> {
    Set::new(|k: int| celdas(s).contains(k) && k < x)
}

/// State of the sweep once the intervals of `p` have been taken in: the
/// cells left of `ia` number `total`, those from `ia` on are exactly
/// `[ia, fa)`, and none lies left of `piso`.
spec fn barrido(p: Seq<Intervalo>, total: int, ia: int, fa: int, piso: int) -> bool {
    &&& piso <= ia <= fa
    &&& celdas_antes(p, ia).len() == total
    &&& celdas(p) == celdas_antes(p, ia).union(set_int_range(ia, fa))
    &&& forall|k: int| celdas(p).contains(k) ==> piso <= k
}

/// The sweep starts with the first interval as the run in hand.
proof fn lema_barrido_inicial(iv: Intervalo)
    requires
        iv.bien_formado(),
    ensures
        barrido(seq![iv], 0, iv.inicio as int, iv.fin as int, iv.inicio as int),
{
    let p = seq![iv];
    let ia = iv.inicio as int;
    lema_celdas_push(Seq::<Intervalo>::empty(), iv);
    assert(celdas_antes(p, ia) =~= Set::<int>::empty());
    assert(celdas(p) =~= celdas_antes(p, ia).union(set_int_range(ia, iv.fin as int)));
}

/// What the sweep has counted and the run in hand make up the length of the
/// union, which fits between `piso` and the end of the run.
proof fn lema_barrido_total(p: Seq<Intervalo>, total: int, ia: int, fa: int, piso: int)
    requires
        barrido(p, total, ia, fa, piso),
    ensures
        longitud_union(p) == total + (fa - ia),
        total + (fa - ia) <= fa - piso,
        total >= 0,
{
    let antes = celdas_antes(p, ia);
    let tramo = set_int_range(ia, fa);
    lema_celdas_finitas(p);
    lemma_int_range(ia, fa);
    lemma_len_subset(antes, celdas(p));
    lemma_set_disjoint_lens(antes, tramo);
    lema_celdas_acotadas(p, piso, fa);
}

/// One step of the sweep: an interval that starts within the run in hand
/// stretches the run, one that starts past its end closes it and opens the
/// next.
proof fn lema_barrido_paso(
    p: Seq<Intervalo>,
    total: int,
    ia: int,
    fa: int,
    piso: int,
    iv: Intervalo,
)
    requires
        barrido(p, total, ia, fa, piso),
        iv.bien_formado(),
        ia <= iv.inicio,
    ensures
        iv.inicio <= fa ==> barrido(
            p.push(iv),
            total,
            ia,
            if iv.fin > fa { iv.fin as int } else { fa },
            piso,
        ),
        iv.inicio > fa ==> barrido(
            p.push(iv),
            total + (fa - ia),
            iv.inicio as int,
            iv.fin as int,
            piso,
        ),
{
    let q = p.push(iv);
    let s = iv.inicio as int;
    let e = iv.fin as int;
    lema_celdas_push(p, iv);
    if s <= fa {
        let fb = if e > fa { e } else { fa };
        assert(celdas_antes(q, ia) =~= celdas_antes(p, ia));
        assert(celdas(q) =~= celdas_antes(q, ia).union(set_int_range(ia, fb)));
    } else {
        lema_barrido_total(p, total, ia, fa, piso);
        assert(celdas_antes(q, s) =~= celdas(p));
    }
}

/// The distance from `a` up to `b`, which may exceed what `i128` holds.
fn distancia(a: i128, b: i128) -> (r: u128)
    requires
        a <= b,
    ensures
        r == b - a,
{
    if a >= 0 || b < 0 {
        (b - a) as u128
    } else {
        let bajo: u128 = (-(a + 1)) as u128;
        let alto: u128 = b as u128;
        alto + bajo + 1
    }
}

/// Total length covered by the intervals, overlapping and touching ones
/// counted once.
///
/// The intervals are left sorted by `inicio`, those that start at the same
/// point in the order they had.
pub fn calcular_area(intervalos: &mut [Intervalo]) -> (area: u128)
    requires
        bien_formados(old(intervalos)@),
    ensures
        area == longitud_union(old(intervalos)@),
        old(intervalos)@.len() == 0 ==> area == 0,
        old(intervalos)@.len() == 1 ==> area == old(intervalos)@[0].largo(),
        ordenados(final(intervalos)@),
        final(intervalos)@.to_multiset() == old(intervalos)@.to_multiset(),
        mismo_orden_entre_iguales(final(intervalos)@, old(intervalos)@),
{
    if intervalos.len() == 0 {
        proof {
            assert(celdas(intervalos@) =~= Set::<int>::empty());
        }
        return 0;
    }
    ordenar(intervalos);
    proof {
        lema_permutacion_bien_formada(old(intervalos)@, intervalos@);
        lema_celdas_permutacion(old(intervalos)@, intervalos@);
        vstd::seq_lib::to_multiset_len(old(intervalos)@);
        vstd::seq_lib::to_multiset_len(intervalos@);
    }

    let mut area_total: u128 = 0;
    let mut inicio_actual: i128 = intervalos[0].inicio;
    let mut fin_actual: i128 = intervalos[0].fin;
    let ghost piso: int = inicio_actual as int;
    let mut i: usize = 1;
    proof {
        lema_barrido_inicial(intervalos@[0]);
        assert(intervalos@.take(1) =~= seq![intervalos@[0]]);
    }
    while i < intervalos.len()
        invariant
            1 <= i <= intervalos.len(),
            ordenados(intervalos@),
            bien_formados(intervalos@),
            piso == intervalos@[0].inicio,
            forall|j: int| i <= j < intervalos.len() ==> inicio_actual <= intervalos@[j].inicio,
            barrido(
                intervalos@.take(i as int),
                area_total as int,
                inicio_actual as int,
                fin_actual as int,
                piso,
            ),
        decreases intervalos.len() - i,
    {
        let iv: Intervalo = intervalos[i];
        proof {
            lema_barrido_paso(
                intervalos@.take(i as int),
                area_total as int,
                inicio_actual as int,
                fin_actual as int,
                piso,
                iv,
            );
            lema_barrido_total(
                intervalos@.take(i as int),
                area_total as int,
                inicio_actual as int,
                fin_actual as int,
                piso,
            );
            assert(intervalos@.take(i as int).push(iv) =~= intervalos@.take(i + 1));
        }
        if iv.inicio <= fin_actual {
            if iv.fin > fin_actual {
                fin_actual = iv.fin;
            }
        } else {
            area_total = area_total + distancia(inicio_actual, fin_actual);
            inicio_actual = iv.inicio;
            fin_actual = iv.fin;
        }
        i = i + 1;
    }
    proof {
        assert(intervalos@.take(i as int) =~= intervalos@);
        lema_barrido_total(
            intervalos@,
            area_total as int,
            inicio_actual as int,
            fin_actual as int,
            piso,
        );
        if old(intervalos)@.len() == 1 {
            lema_un_intervalo(old(intervalos)@[0]);
            assert(old(intervalos)@ =~= seq![old(intervalos)@[0]]);
        }
    }
    area_total + distancia(inicio_actual, fin_actual)
}

/// A single well-formed interval covers its own length.
pub proof fn lema_un_intervalo(iv: Intervalo)
    requires
        iv.bien_formado(),
    ensures
        longitud_union(seq![iv]) == iv.largo(),
{
    lema_barrido_inicial(iv);
    lema_barrido_total(seq![iv], 0, iv.inicio as int, iv.fin as int, iv.inicio as int);
}

} // verus!
