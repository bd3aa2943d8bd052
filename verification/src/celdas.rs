//! What holds of the unit cells that a sequence of intervals covers.

use crate::intervalos::{bien_formados, celda_cubierta, celdas, longitud_union, Intervalo};
use vstd::prelude::*;
use vstd::set_lib::*;

verus! {

/// The cells of a sequence with one more interval are those of the sequence
/// together with those of the interval.
pub proof fn lema_celdas_push(s: Seq<Intervalo>, iv: Intervalo)
    ensures
        celdas(s.push(iv)) == celdas(s).union(set_int_range(iv.inicio as int, iv.fin as int)),
{
    let t = s.push(iv);
    let u = celdas(s).union(set_int_range(iv.inicio as int, iv.fin as int));
    assert forall|k: int| celdas(t).contains(k) <==> u.contains(k) by {
        if celdas(t).contains(k) {
            // the interval that holds the cell is one of `s`, or it is `iv`
            let i = choose|i: int| 0 <= i < t.len() && (#[trigger] t[i]).cubre(k);
            if i < s.len() {
                assert(s[i].cubre(k));
            }
        }
        if celdas(s).contains(k) {
            let i = choose|i: int| 0 <= i < s.len() && (#[trigger] s[i]).cubre(k);
            assert(t[i].cubre(k));
        }
        if iv.cubre(k) {
            assert(t[s.len() as int].cubre(k));
        }
    }
}

/// The covered cells are finitely many.
pub proof fn lema_celdas_finitas(s: Seq<Intervalo>)
    ensures
        celdas(s).finite(),
    decreases s.len(),
{
    if s.len() == 0 {
        assert(celdas(s) =~= Set::<int>::empty());
    } else {
        let iv = s.last();
        lema_celdas_finitas(s.drop_last());
        lema_celdas_push(s.drop_last(), iv);
        assert(s.drop_last().push(iv) =~= s);
        lema_rango(iv.inicio as int, iv.fin as int);
    }
}

/// A range of integers is finite and has as many members as it is long; an
/// inverted range is empty.
pub proof fn lema_rango(a: int, b: int)
    ensures
        set_int_range(a, b).finite(),
        set_int_range(a, b).len() == if a <= b { b - a } else { 0 },
{
    if a <= b {
        lemma_int_range(a, b);
    } else {
        assert(set_int_range(a, b) =~= Set::<int>::empty());
    }
}

/// Covered cells that all lie in `[a, b)` number at most `b - a`.
pub proof fn lema_celdas_acotadas(s: Seq<Intervalo>, a: int, b: int)
    requires
        a <= b,
        forall|k: int| celdas(s).contains(k) ==> a <= k < b,
    ensures
        longitud_union(s) <= b - a,
{
    lemma_int_range(a, b);
    lemma_len_subset(celdas(s), set_int_range(a, b));
}

/// The covered cells depend on which intervals the sequence holds, not on
/// their order.
pub proof fn lema_celdas_permutacion(s: Seq<Intervalo>, t: Seq<Intervalo>)
    requires
        s.to_multiset() == t.to_multiset(),
    ensures
        celdas(s) == celdas(t),
{
    assert forall|k: int| celdas(s).contains(k) <==> celdas(t).contains(k) by {
        if celdas(s).contains(k) {
            lema_cubierta_en_permutacion(s, t, k);
        }
        if celdas(t).contains(k) {
            lema_cubierta_en_permutacion(t, s, k);
        }
    }
}

proof fn lema_cubierta_en_permutacion(s: Seq<Intervalo>, t: Seq<Intervalo>, k: int)
    requires
        s.to_multiset() == t.to_multiset(),
        celda_cubierta(s, k),
    ensures
        celda_cubierta(t, k),
{
    // the interval of `s` that holds the cell is somewhere in `t` too
    let i = choose|i: int| 0 <= i < s.len() && (#[trigger] s[i]).cubre(k);
    vstd::seq_lib::to_multiset_contains(s, s[i]);
    vstd::seq_lib::to_multiset_contains(t, s[i]);
    let j = choose|j: int| 0 <= j < t.len() && t[j] == s[i];
    assert(t[j].cubre(k));
}

/// A reordering of well-formed intervals holds well-formed intervals.
pub proof fn lema_permutacion_bien_formada(s: Seq<Intervalo>, t: Seq<Intervalo>)
    requires
        s.to_multiset() == t.to_multiset(),
        bien_formados(s),
    ensures
        bien_formados(t),
{
    assert forall|j: int| 0 <= j < t.len() implies (#[trigger] t[j]).bien_formado() by {
        vstd::seq_lib::to_multiset_contains(t, t[j]);
        vstd::seq_lib::to_multiset_contains(s, t[j]);
        let i = choose|i: int| 0 <= i < s.len() && s[i] == t[j];
        assert(s[i].bien_formado());
    }
}

} // verus!
