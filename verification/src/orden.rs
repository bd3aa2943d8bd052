//! Merge sort of intervals by their left endpoint.
//!
//! The sort is stable: intervals that start at the same point come out in the
//! order in which they went in.

use crate::intervalos::{ordenados, Intervalo};
use vstd::multiset::Multiset;
use vstd::prelude::*;
use vstd::seq_lib::*;

verus! {

/// The intervals of `s` that start at `x`, in the order they have in `s`.
pub open spec fn los_que_empiezan_en(s: Seq<Intervalo>, x: int) -> Seq<Intervalo> {
    s.filter(|iv: Intervalo| iv.inicio == x)
}

/// The intervals that start at the same point have the same order in `s`
/// and in `t`.
pub open spec fn mismo_orden_entre_iguales(s: Seq<Intervalo>, t: Seq<Intervalo>) -> bool {
    forall|x: int| #[trigger] los_que_empiezan_en(s, x) == los_que_empiezan_en(t, x)
}

/// Every interval of `s` starts at or before `x`.
spec fn empiezan_hasta(s: Seq<Intervalo>, x: int) -> bool {
    forall|i: int| 0 <= i < s.len() ==> (#[trigger] s[i]).inicio <= x
}

/// Every interval of `s` starts before `x`.
pub open spec fn empiezan_antes_de(s: Seq<Intervalo>, x: int) -> bool {
    forall|i: int| 0 <= i < s.len() ==> (#[trigger] s[i]).inicio < x
}

/// An empty sequence holds nothing.
proof fn lema_multiset_vacio(s: Seq<Intervalo>)
    requires
        s.len() == 0,
    ensures
        s.to_multiset() == Multiset::<Intervalo>::empty(),
        s.to_multiset().add(s.to_multiset()) == s.to_multiset(),
{
    broadcast use vstd::multiset::group_multiset_axioms;

    to_multiset_len(s);
}

/// An interval added at the end joins those that start where it starts.
proof fn lema_empiezan_push(s: Seq<Intervalo>, iv: Intervalo, x: int)
    ensures
        los_que_empiezan_en(s.push(iv), x) == if iv.inicio == x {
            los_que_empiezan_en(s, x).push(iv)
        } else {
            los_que_empiezan_en(s, x)
        },
{
    reveal(Seq::filter);
    assert(s.push(iv).drop_last() =~= s);
}

/// Where every interval starts before `x`, none starts at `x`.
pub proof fn lema_empiezan_ninguno(s: Seq<Intervalo>, x: int)
    requires
        empiezan_antes_de(s, x),
    ensures
        los_que_empiezan_en(s, x) == Seq::<Intervalo>::empty(),
    decreases s.len(),
{
    reveal(Seq::filter);
    if s.len() > 0 {
        assert(empiezan_antes_de(s.drop_last(), x));
        lema_empiezan_ninguno(s.drop_last(), x);
    }
}

/// The intervals that start at `x` are among the intervals of the sequence,
/// and an interval of the sequence that starts at `x` is among them. Where
/// the last interval of the sequence starts at `x`, it is the last of them.
pub proof fn lema_empiezan_miembros(s: Seq<Intervalo>, x: int)
    ensures
        forall|i: int|
            0 <= i < los_que_empiezan_en(s, x).len() ==> {
                &&& (#[trigger] los_que_empiezan_en(s, x)[i]).inicio == x
                &&& s.contains(los_que_empiezan_en(s, x)[i])
            },
        forall|i: int|
            0 <= i < s.len() && (#[trigger] s[i]).inicio == x ==> los_que_empiezan_en(s, x).len()
                > 0,
        s.len() > 0 && s.last().inicio == x ==> los_que_empiezan_en(s, x) == los_que_empiezan_en(
            s.drop_last(),
            x,
        ).push(s.last()),
        s.len() > 0 && s.last().inicio != x ==> los_que_empiezan_en(s, x) == los_que_empiezan_en(
            s.drop_last(),
            x,
        ),
    decreases s.len(),
{
    reveal(Seq::filter);
    if s.len() > 0 {
        let resto = s.drop_last();
        let f = los_que_empiezan_en(s, x);
        let g = los_que_empiezan_en(resto, x);
        lema_empiezan_miembros(resto, x);
        assert forall|i: int| 0 <= i < f.len() implies (#[trigger] f[i]).inicio == x && s.contains(
            f[i],
        ) by {
            if i < g.len() {
                // an interval of `resto` is an interval of `s`
                let k = choose|k: int| 0 <= k < resto.len() && resto[k] == g[i];
                assert(s[k] == g[i]);
            } else {
                assert(f[i] == s[s.len() - 1]);
            }
        }
        assert forall|i: int| 0 <= i < s.len() && (#[trigger] s[i]).inicio == x implies f.len()
            > 0 by {
            if i < resto.len() {
                assert(resto[i] == s[i]);
            }
        }
    }
}

/// One step of the merge keeps, for every starting point, the intervals of
/// the first run ahead of those of the second.
proof fn lema_mezcla_paso(
    r: Seq<Intervalo>,
    a: Seq<Intervalo>,
    b: Seq<Intervalo>,
    iv: Intervalo,
    de_a: bool,
    x: int,
)
    requires
        los_que_empiezan_en(r, x) == los_que_empiezan_en(a, x) + los_que_empiezan_en(b, x),
        de_a ==> empiezan_antes_de(b, iv.inicio as int),
    ensures
        de_a ==> los_que_empiezan_en(r.push(iv), x) == los_que_empiezan_en(a.push(iv), x)
            + los_que_empiezan_en(b, x),
        !de_a ==> los_que_empiezan_en(r.push(iv), x) == los_que_empiezan_en(a, x)
            + los_que_empiezan_en(b.push(iv), x),
{
    let ra = los_que_empiezan_en(a, x);
    let rb = los_que_empiezan_en(b, x);
    lema_empiezan_push(r, iv, x);
    lema_empiezan_push(a, iv, x);
    lema_empiezan_push(b, iv, x);
    if iv.inicio == x {
        if de_a {
            lema_empiezan_ninguno(b, x);
            assert((ra + rb).push(iv) =~= ra.push(iv) + rb);
        } else {
            assert((ra + rb).push(iv) =~= ra + rb.push(iv));
        }
    }
}

/// Merges two sorted runs into one. Where two intervals start at the same
/// point, those of `a` come first.
fn mezclar(a: &Vec<Intervalo>, b: &Vec<Intervalo>) -> (r: Vec<Intervalo>)
    requires
        ordenados(a@),
        ordenados(b@),
    ensures
        ordenados(r@),
        r@.to_multiset() == a@.to_multiset().add(b@.to_multiset()),
        forall|x: int| #[trigger]
            los_que_empiezan_en(r@, x) == los_que_empiezan_en(a@, x) + los_que_empiezan_en(b@, x),
{
    let mut r: Vec<Intervalo> = Vec::new();
    let mut i: usize = 0;
    let mut j: usize = 0;
    proof {
        lema_multiset_vacio(r@);
        lema_multiset_vacio(a@.take(0));
        lema_multiset_vacio(b@.take(0));
        assert forall|x: int| #[trigger]
            los_que_empiezan_en(r@, x) == los_que_empiezan_en(a@.take(0), x) + los_que_empiezan_en(
                b@.take(0),
                x,
            ) by {
            lema_empiezan_ninguno(r@, x);
            lema_empiezan_ninguno(a@.take(0), x);
            lema_empiezan_ninguno(b@.take(0), x);
        }
    }
    while i < a.len() || j < b.len()
        invariant
            i <= a.len(),
            j <= b.len(),
            ordenados(a@),
            ordenados(b@),
            ordenados(r@),
            i < a.len() ==> empiezan_hasta(r@, a@[i as int].inicio as int),
            j < b.len() ==> empiezan_hasta(r@, b@[j as int].inicio as int),
            i < a.len() ==> empiezan_antes_de(b@.take(j as int), a@[i as int].inicio as int),
            r@.to_multiset() == a@.take(i as int).to_multiset().add(
                b@.take(j as int).to_multiset(),
            ),
            forall|x: int| #[trigger]
                los_que_empiezan_en(r@, x) == los_que_empiezan_en(a@.take(i as int), x)
                    + los_que_empiezan_en(b@.take(j as int), x),
        decreases a.len() - i + b.len() - j,
    {
        let de_a: bool = if i >= a.len() {
            false
        } else if j >= b.len() {
            true
        } else {
            a[i].inicio <= b[j].inicio
        };
        let iv: Intervalo = if de_a {
            a[i]
        } else {
            b[j]
        };
        let ghost antes = r@;
        let ghost vistos_a = a@.take(i as int);
        let ghost vistos_b = b@.take(j as int);
        proof {
            to_multiset_build(r@, iv);
            to_multiset_build(vistos_a, iv);
            to_multiset_build(vistos_b, iv);
            assert forall|x: int| #[trigger]
                los_que_empiezan_en(antes.push(iv), x) == if de_a {
                    los_que_empiezan_en(vistos_a.push(iv), x) + los_que_empiezan_en(vistos_b, x)
                } else {
                    los_que_empiezan_en(vistos_a, x) + los_que_empiezan_en(vistos_b.push(iv), x)
                } by {
                lema_mezcla_paso(antes, vistos_a, vistos_b, iv, de_a, x);
            }
        }
        r.push(iv);
        if de_a {
            i = i + 1;
        } else {
            j = j + 1;
        }
        proof {
            if de_a {
                assert(a@.take(i as int) =~= vistos_a.push(iv));
            } else {
                assert(b@.take(j as int) =~= vistos_b.push(iv));
            }
        }
    }
    proof {
        assert(a@.take(i as int) =~= a@);
        assert(b@.take(j as int) =~= b@);
    }
    r
}

/// A sorted copy of `v[desde..hasta]`.
fn ordenar_tramo(v: &[Intervalo], desde: usize, hasta: usize) -> (r: Vec<Intervalo>)
    requires
        desde <= hasta <= v.len(),
    ensures
        ordenados(r@),
        r@.len() == hasta - desde,
        r@.to_multiset() == v@.subrange(desde as int, hasta as int).to_multiset(),
        mismo_orden_entre_iguales(r@, v@.subrange(desde as int, hasta as int)),
    decreases hasta - desde,
{
    let ghost tramo = v@.subrange(desde as int, hasta as int);
    if hasta - desde <= 1 {
        let mut r: Vec<Intervalo> = Vec::new();
        if hasta - desde == 1 {
            r.push(v[desde]);
        }
        proof {
            assert(r@ =~= tramo);
        }
        r
    } else {
        let medio: usize = desde + (hasta - desde) / 2;
        let a = ordenar_tramo(v, desde, medio);
        let b = ordenar_tramo(v, medio, hasta);
        let r = mezclar(&a, &b);
        proof {
            let izq = v@.subrange(desde as int, medio as int);
            let der = v@.subrange(medio as int, hasta as int);
            assert(tramo =~= izq + der);
            lemma_multiset_commutative(izq, der);
            to_multiset_len(r@);
            to_multiset_len(tramo);
            assert forall|x: int| #[trigger]
                los_que_empiezan_en(r@, x) == los_que_empiezan_en(tramo, x) by {
                Seq::filter_distributes_over_add(izq, der, |iv: Intervalo| iv.inicio == x);
            }
        }
        r
    }
}

/// Sorts the intervals in ascending order of `inicio`. Intervals that start
/// at the same point keep the order they had.
pub fn ordenar(v: &mut [Intervalo])
    ensures
        ordenados(final(v)@),
        final(v)@.to_multiset() == old(v)@.to_multiset(),
        mismo_orden_entre_iguales(final(v)@, old(v)@),
{
    let r = ordenar_tramo(v, 0, v.len());
    proof {
        assert(v@.subrange(0, v.len() as int) =~= v@);
    }
    let mut i: usize = 0;
    while i < r.len()
        invariant
            i <= r.len(),
            v@.len() == r@.len(),
            v@.take(i as int) == r@.take(i as int),
        decreases r.len() - i,
    {
        v[i] = r[i];
        i = i + 1;
    }
    proof {
        assert(v@.take(i as int) =~= v@);
        assert(r@.take(i as int) =~= r@);
    }
}

} // verus!
