//! Flatlanders, the shadows they cast and the intervals these cover.

use crate::intervalos::{bien_formados, Intervalo};
use crate::lineas::{tras_leer, Lecturas, Lineas};
use crate::parametros::{leer_par_de, par_de_lectura, Parametros};
use crate::sombra::{calcular_sombra, sombra};
use crate::{ErrorTipo, ESCALA};
use vstd::prelude::*;

verus! {

/// Least position that a flatlander may stand at.
pub const X_MIN: u32 = 0;

/// Greatest position that a flatlander may stand at.
pub const X_MAX: u32 = 300_000;

/// Least height of a flatlander.
pub const H_MIN: u32 = 1;

/// Greatest height of a flatlander.
pub const H_MAX: u32 = 1000;

/// A flatlander: where it stands, in whole units, and how long a shadow it
/// casts, in ticks.
#[derive(Clone, Copy, Debug, PartialEq, Eq, Structural)]
pub struct Flatlander {
    pub x: u32,
    pub l: u128,
}

impl Flatlander {
    /// The far end of the shadow can be held in an interval.
    pub open spec fn en_rango(self) -> bool {
        self.x * ESCALA + self.l <= i128::MAX
    }

    /// The ground that the shadow covers: from where the flatlander stands
    /// to the length of the shadow further on.
    pub open spec fn intervalo(self) -> Intervalo {
        Intervalo { inicio: (self.x * ESCALA) as i128, fin: (self.x * ESCALA + self.l) as i128 }
    }

    /// A flatlander of height `h` that stands at `x` under a sun at `theta`
    /// degrees.
    pub fn new(x: u32, h: u32, theta: u32) -> (f: Flatlander)
        requires
            0 < theta < 90,
        ensures
            f.x == x,
            f.l == sombra(h, theta),
            f.en_rango(),
    {
        let l: u128 = calcular_sombra(h, theta);
        proof {
            assert(x * ESCALA <= 0xFFFF_FFFF * ESCALA) by (nonlinear_arith)
                requires
                    0 <= x <= 0xFFFF_FFFF,
                    ESCALA > 0,
            ;
        }
        Flatlander { x, l }
    }
}

/// The flatlanders can all be turned into intervals.
pub open spec fn en_rango(fs: Seq<Flatlander>) -> bool {
    forall|i: int| 0 <= i < fs.len() ==> (#[trigger] fs[i]).en_rango()
}

/// The shadow of each flatlander, in the order of the flatlanders.
pub open spec fn intervalos_de(fs: Seq<Flatlander>) -> Seq<Intervalo> {
    Seq::new(fs.len(), |i: int| fs[i].intervalo())
}

/// A shadow ends no earlier than it starts.
pub proof fn lema_sombras_bien_formadas(fs: Seq<Flatlander>)
    requires
        en_rango(fs),
    ensures
        bien_formados(intervalos_de(fs)),
{
    assert forall|i: int| 0 <= i < fs.len() implies (#[trigger] intervalos_de(
        fs,
    )[i]).bien_formado() by {
        assert(fs[i].en_rango());
    }
}

/// Builds the interval that the shadow of each flatlander covers.
pub fn crear_intervalo_de_flatlanders(flatlanders: &[Flatlander]) -> (intervalos: Vec<Intervalo>)
    requires
        en_rango(flatlanders@),
    ensures
        intervalos@ == intervalos_de(flatlanders@),
        bien_formados(intervalos@),
{
    let mut intervalos: Vec<Intervalo> = Vec::new();
    let mut i: usize = 0;
    while i < flatlanders.len()
        invariant
            i <= flatlanders.len(),
            en_rango(flatlanders@),
            intervalos@ == intervalos_de(flatlanders@).take(i as int),
        decreases flatlanders.len() - i,
    {
        let f: Flatlander = flatlanders[i];
        proof {
            assert(f.x * ESCALA >= 0) by (nonlinear_arith)
                requires
                    f.x >= 0,
                    ESCALA > 0,
            ;
        }
        let inicio: u128 = (f.x as u128) * ESCALA;
        let fin: u128 = inicio + f.l;
        intervalos.push(Intervalo { inicio: inicio as i128, fin: fin as i128 });
        i = i + 1;
    }
    proof {
        lema_sombras_bien_formadas(flatlanders@);
    }
    intervalos
}

/// The flatlanders that the next `n` reads of an input give under a sun at
/// `theta` degrees, each read a line of a position and a height; or what is
/// wrong with the first read that gives none.
pub open spec fn flatlanders_de(
    lecturas: Lecturas,
    n: nat,
    theta: u32,
) -> Result<Seq<Flatlander>, ErrorTipo>
    decreases n,
{
    if n == 0 {
        Ok(Seq::empty())
    } else {
        match par_de_lectura(lecturas, X_MIN, X_MAX, H_MIN, H_MAX) {
            Err(e) => Err(e),
            Ok((x, h)) => anteponer(
                seq![Flatlander { x, l: sombra(h, theta) as u128 }],
                flatlanders_de(tras_leer(lecturas, 1), (n - 1) as nat, theta),
            ),
        }
    }
}

/// The flatlanders `primeros` followed by those of `resto`, where it holds
/// any.
pub open spec fn anteponer(
    primeros: Seq<Flatlander>,
    resto: Result<Seq<Flatlander>, ErrorTipo>,
) -> Result<Seq<Flatlander>, ErrorTipo> {
    match resto {
        Err(e) => Err(e),
        Ok(fs) => Ok(primeros + fs),
    }
}

/// How many reads it takes to read `n` flatlanders: `n` where all are there,
/// else those up to the first that gives none.
pub open spec fn leidas(lecturas: Lecturas, n: nat) -> nat
    decreases n,
{
    if n == 0 {
        0
    } else {
        match par_de_lectura(lecturas, X_MIN, X_MAX, H_MIN, H_MAX) {
            Err(_) => 1,
            Ok(_) => 1 + leidas(tras_leer(lecturas, 1), (n - 1) as nat),
        }
    }
}

/// The flatlanders read, as a sequence.
pub open spec fn vista(
    r: Result<Vec<Flatlander>, ErrorTipo>,
) -> Result<Seq<Flatlander>, ErrorTipo> {
    match r {
        Err(e) => Err(e),
        Ok(fs) => Ok(fs@),
    }
}

/// Putting one flatlander before the rest and the ones read before that
/// one is putting all of them before the rest.
proof fn lema_anteponer_paso(
    hechos: Seq<Flatlander>,
    f: Flatlander,
    resto: Result<Seq<Flatlander>, ErrorTipo>,
)
    ensures
        anteponer(hechos, anteponer(seq![f], resto)) == anteponer(hechos.push(f), resto),
{
    if let Ok(fs) = resto {
        assert(hechos + (seq![f] + fs) =~= hechos.push(f) + fs);
    }
}

/// Reads `params.n` flatlanders, one from each of the next lines of the
/// input, and takes those lines off it. At the first line that gives no
/// flatlander the reading stops, with that line taken.
pub fn leer_flatlanders_desde_stdin(
    lineas: &mut Lineas,
    params: &Parametros,
) -> (r: Result<Vec<Flatlander>, ErrorTipo>)
    requires
        0 < params.theta < 90,
    ensures
        vista(r) == flatlanders_de(old(lineas)@, params.n as nat, params.theta),
        final(lineas)@ == tras_leer(old(lineas)@, leidas(old(lineas)@, params.n as nat)),
        r matches Ok(fs) ==> fs@.len() == params.n && en_rango(fs@),
{
    let mut flatlanders: Vec<Flatlander> = Vec::new();
    let mut i: u32 = 0;
    let ghost inicial = lineas@;
    while i < params.n
        invariant
            i <= params.n,
            0 < params.theta < 90,
            inicial == old(lineas)@,
            flatlanders@.len() == i,
            en_rango(flatlanders@),
            flatlanders_de(inicial, params.n as nat, params.theta) == anteponer(
                flatlanders@,
                flatlanders_de(lineas@, (params.n - i) as nat, params.theta),
            ),
            tras_leer(inicial, leidas(inicial, params.n as nat)) == tras_leer(
                lineas@,
                leidas(lineas@, (params.n - i) as nat),
            ),
        decreases params.n - i,
    {
        let ghost antes = lineas@;
        let ghost hechos = flatlanders@;
        match leer_par_de(lineas, X_MIN, X_MAX, H_MIN, H_MAX) {
            Err(e) => {
                return Err(e);
            },
            Ok((x, h)) => {
                let f = Flatlander::new(x, h, params.theta);
                flatlanders.push(f);
                proof {
                    let faltan = (params.n - i - 1) as nat;
                    lema_anteponer_paso(
                        hechos,
                        f,
                        flatlanders_de(tras_leer(antes, 1), faltan, params.theta),
                    );
                    assert forall|k: int| 0 <= k < flatlanders@.len() implies (
                    #[trigger] flatlanders@[k]).en_rango() by {
                        if k < hechos.len() {
                            assert(flatlanders@[k] == hechos[k]);
                        }
                    }
                }
            },
        }
        i = i + 1;
    }
    Ok(flatlanders)
}

} // verus!
