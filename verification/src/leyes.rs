//! Laws: what holds of shadows, of the length of a union and of the order of
//! intervals, whatever the heights, angles and intervals are.

use crate::celdas::{
    lema_celdas_finitas, lema_celdas_permutacion, lema_celdas_push, lema_permutacion_bien_formada,
    lema_rango,
};
use crate::intervalos::{
    bien_formados, celdas, lema_un_intervalo, longitud_union, ordenados, suma_longitudes,
    Intervalo,
};
use crate::orden::{
    lema_empiezan_miembros, lema_empiezan_ninguno, los_que_empiezan_en, mismo_orden_entre_iguales,
};
use crate::sombra::{
    cotangente, formula_de_la_suma, lema_cotangente_decrece, lema_cotangente_paso,
    lema_cotangente_suma, sombra,
};
use crate::ESCALA;
use vstd::prelude::*;
use vstd::set_lib::*;

verus! {

/// No two intervals of the sequence have a unit cell in common.
pub open spec fn sin_solapes(s: Seq<Intervalo>) -> bool {
    forall|i: int, j: int| 0 <= i < s.len() && 0 <= j < s.len() && i != j ==> !s[i].solapa(s[j])
}

/// No two intervals of the sequence have a point in common: none overlaps
/// or touches another.
pub open spec fn separados(s: Seq<Intervalo>) -> bool {
    forall|i: int, j: int| 0 <= i < s.len() && 0 <= j < s.len() && i != j ==> !s[i].toca(s[j])
}

/// Under a sun strictly between 0 and 90 degrees a height above zero casts a
/// shadow longer than zero, and the higher the sun stands, the shorter the
/// shadow.
pub proof fn ley_sombra(h: u32, a: u32, b: u32)
    requires
        h > 0,
        0 < a < 90,
        0 < b < 90,
    ensures
        sombra(h, a) > 0,
        a < b ==> sombra(h, a) > sombra(h, b),
{
    lema_cotangente_paso(a);
    assert(h * cotangente(a) > 0) by (nonlinear_arith)
        requires
            h > 0,
            cotangente(a) > 0,
    ;
    if a < b {
        lema_cotangente_decrece(a, b);
        assert(h * cotangente(a) > h * cotangente(b)) by (nonlinear_arith)
            requires
                h > 0,
                cotangente(a) > cotangente(b),
        ;
    }
}

/// The tabulated cotangents are those of the whole degrees: the cotangent of
/// 45 degrees is 1, and from each degree to the next the table obeys the
/// addition formula of the cotangent, `cot(a + 1) * (cot(a) + cot(1)) =
/// cot(a) * cot(1) - 1`, as closely as entries that are rounded to the nearest
/// tick can.
pub proof fn ley_cotangente(a: u32)
    requires
        0 < a < 89,
    ensures
        cotangente(45) == ESCALA,
        formula_de_la_suma(cotangente(a), cotangente((a + 1) as u32)),
{
    lema_cotangente_suma(a);
}

/// Where no two intervals have a point in common, no two have a unit cell in
/// common.
pub proof fn lema_separados_sin_solapes(s: Seq<Intervalo>)
    requires
        separados(s),
    ensures
        sin_solapes(s),
{
    assert forall|i: int, j: int|
        0 <= i < s.len() && 0 <= j < s.len() && i != j implies !s[i].solapa(s[j]) by {
        assert(!s[i].toca(s[j]));
    }
}

/// No intervals cover no length.
pub proof fn ley_vacio()
    ensures
        longitud_union(Seq::<Intervalo>::empty()) == 0,
{
    assert(celdas(Seq::<Intervalo>::empty()) =~= Set::<int>::empty());
}

/// One interval `[a, b]` covers `b - a`.
pub proof fn ley_un_intervalo(iv: Intervalo)
    requires
        iv.bien_formado(),
    ensures
        longitud_union(seq![iv]) == iv.fin - iv.inicio,
{
    lema_un_intervalo(iv);
}

/// The union length does not depend on the order of the intervals: two
/// sequences that hold the same intervals cover the same length.
pub proof fn ley_orden_indiferente(s: Seq<Intervalo>, t: Seq<Intervalo>)
    requires
        s.to_multiset() == t.to_multiset(),
    ensures
        longitud_union(s) == longitud_union(t),
{
    lema_celdas_permutacion(s, t);
}

/// Measuring twice gives the same as measuring once: the sequence `t` that a
/// first measurement of `s` leaves behind, a reordering of `s`, is again fit
/// to be measured and covers what `s` covers. Where no two intervals of `s`
/// overlap or touch, that length is the sum of their lengths both times.
pub proof fn ley_idempotencia(s: Seq<Intervalo>, t: Seq<Intervalo>)
    requires
        bien_formados(s),
        t.to_multiset() == s.to_multiset(),
    ensures
        bien_formados(t),
        longitud_union(t) == longitud_union(s),
        separados(s) ==> longitud_union(t) == suma_longitudes(s),
{
    lema_celdas_permutacion(s, t);
    lema_permutacion_bien_formada(s, t);
    if separados(s) {
        lema_separados_sin_solapes(s);
        ley_igualdad_sin_solapes(s);
    }
}

/// The union is never longer than the intervals laid end to end.
pub proof fn ley_union_acotada_por_suma(s: Seq<Intervalo>)
    requires
        bien_formados(s),
    ensures
        longitud_union(s) <= suma_longitudes(s),
    decreases s.len(),
{
    if s.len() == 0 {
        ley_vacio();
        assert(s =~= Seq::<Intervalo>::empty());
    } else {
        let iv = s.last();
        let resto = s.drop_last();
        let tramo = set_int_range(iv.inicio as int, iv.fin as int);
        assert(resto.push(iv) =~= s);
        ley_union_acotada_por_suma(resto);
        lema_celdas_push(resto, iv);
        lema_celdas_finitas(resto);
        lema_rango(iv.inicio as int, iv.fin as int);
        lemma_len_union(celdas(resto), tramo);
    }
}

/// The union is as long as the intervals laid end to end exactly when no two
/// of them overlap in more than a point.
pub proof fn ley_igualdad_sin_solapes(s: Seq<Intervalo>)
    requires
        bien_formados(s),
    ensures
        longitud_union(s) == suma_longitudes(s) <==> sin_solapes(s),
    decreases s.len(),
{
    if s.len() == 0 {
        ley_vacio();
        assert(s =~= Seq::<Intervalo>::empty());
    } else {
        let iv = s.last();
        let resto = s.drop_last();
        let n = resto.len() as int;
        let tramo = set_int_range(iv.inicio as int, iv.fin as int);
        let comunes = celdas(resto).intersect(tramo);
        assert(resto.push(iv) =~= s);
        ley_igualdad_sin_solapes(resto);
        ley_union_acotada_por_suma(resto);
        lema_celdas_push(resto, iv);
        lema_celdas_finitas(resto);
        lema_rango(iv.inicio as int, iv.fin as int);
        lemma_set_intersect_union_lens(celdas(resto), tramo);
        lemma_len_intersect(celdas(resto), tramo);
        // The union of `s` falls short of the sum by what the union of
        // `resto` falls short of its sum, and by the cells of `iv` that
        // `resto` covers already.
        if sin_solapes(s) {
            assert forall|k: int| !comunes.contains(k) by {
                if comunes.contains(k) {
                    let i = choose|i: int| 0 <= i < resto.len() && (#[trigger] resto[i]).cubre(k);
                    assert(s[i].solapa(s[n]));
                }
            }
            assert(comunes =~= Set::<int>::empty());
        }
        if longitud_union(s) == suma_longitudes(s) {
            assert forall|i: int, j: int|
                0 <= i < s.len() && 0 <= j < s.len() && i != j implies !s[i].solapa(s[j]) by {
                if (i == n || j == n) && s[i].solapa(s[j]) {
                    // the later of the two starts is a cell of both
                    let k = if s[i].inicio >= s[j].inicio {
                        s[i].inicio as int
                    } else {
                        s[j].inicio as int
                    };
                    assert(comunes.contains(k));
                }
            }
        }
    }
}

/// The union is as long as the intervals laid end to end exactly when no two
/// of them overlap or touch.
///
/// Two intervals that only touch, or a point that lies on another interval,
/// lose no length, so the law is stated of the sets that hold no such pair
/// without also holding a pair that overlaps in more than a point.
pub proof fn ley_igualdad_separados(s: Seq<Intervalo>)
    requires
        bien_formados(s),
        sin_solapes(s) ==> separados(s),
    ensures
        longitud_union(s) == suma_longitudes(s) <==> separados(s),
{
    ley_igualdad_sin_solapes(s);
    if separados(s) {
        lema_separados_sin_solapes(s);
    }
}

/// Intervals of which no two overlap or touch cover the sum of their lengths.
pub proof fn ley_separados_suman(s: Seq<Intervalo>)
    requires
        bien_formados(s),
        separados(s),
    ensures
        longitud_union(s) == suma_longitudes(s),
{
    lema_separados_sin_solapes(s);
    ley_igualdad_sin_solapes(s);
}

/// Two sorted sequences in which, for every starting point, the same
/// intervals start there in the same order are one and the same sequence: the
/// outcome of a stable sort is determined by what went in.
pub proof fn ley_orden_unico(s: Seq<Intervalo>, t: Seq<Intervalo>)
    requires
        ordenados(s),
        ordenados(t),
        mismo_orden_entre_iguales(s, t),
    ensures
        s == t,
    decreases s.len() + t.len(),
{
    if s.len() == 0 || t.len() == 0 {
        // A sequence that holds an interval holds one that starts where that
        // interval starts, so neither sequence holds any.
        if s.len() > 0 {
            let x = s[0].inicio as int;
            lema_empiezan_miembros(s, x);
            lema_empiezan_ninguno(t, x);
        }
        if t.len() > 0 {
            let x = t[0].inicio as int;
            lema_empiezan_miembros(t, x);
            lema_empiezan_ninguno(s, x);
        }
    } else {
        let ks = s.last().inicio as int;
        let kt = t.last().inicio as int;
        lema_empiezan_miembros(s, ks);
        lema_empiezan_miembros(t, ks);
        lema_empiezan_miembros(s, kt);
        lema_empiezan_miembros(t, kt);
        // Each sequence holds an interval that starts where the other ends,
        // so both end at the same starting point, and with the same interval.
        assert(ks <= kt) by {
            let f = los_que_empiezan_en(t, ks);
            let k = choose|k: int| 0 <= k < t.len() && t[k] == f[0];
            assert(t[k].inicio <= t[t.len() - 1].inicio);
        }
        assert(kt <= ks) by {
            let f = los_que_empiezan_en(s, kt);
            let k = choose|k: int| 0 <= k < s.len() && s[k] == f[0];
            assert(s[k].inicio <= s[s.len() - 1].inicio);
        }
        assert(s.last() == t.last()) by {
            assert(los_que_empiezan_en(s, ks).last() == s.last());
            assert(los_que_empiezan_en(t, ks).last() == t.last());
        }
        // What comes before the last interval is sorted and agrees as well.
        let s1 = s.drop_last();
        let t1 = t.drop_last();
        assert forall|x: int| #[trigger]
            los_que_empiezan_en(s1, x) == los_que_empiezan_en(t1, x) by {
            lema_empiezan_miembros(s, x);
            lema_empiezan_miembros(t, x);
            if x == ks {
                let a = los_que_empiezan_en(s1, x);
                let b = los_que_empiezan_en(t1, x);
                assert(a =~= a.push(s.last()).drop_last());
                assert(b =~= b.push(t.last()).drop_last());
            }
        }
        assert(ordenados(s1));
        assert(ordenados(t1));
        ley_orden_unico(s1, t1);
        assert(s =~= s1.push(s.last()));
        assert(t =~= t1.push(t.last()));
    }
}

} // verus!
