//! The first line of an input: the angle of the sun and the number of
//! flatlanders.

use crate::lineas::{tras_leer, Lectura, Lecturas, Lineas};
use crate::texto::{leer_par, par_de_linea};
use crate::ErrorTipo;
use vstd::prelude::*;

verus! {

/// Least angle of the sun, in degrees.
pub const THETA_MIN: u32 = 10;

/// Greatest angle of the sun, in degrees.
pub const THETA_MAX: u32 = 80;

/// Least number of flatlanders.
pub const N_MIN: u32 = 1;

/// Greatest number of flatlanders.
pub const N_MAX: u32 = 100_000;

/// The angle of the sun, in degrees, and the number of flatlanders.
#[derive(Clone, Copy, Debug, PartialEq, Eq, Structural)]
pub struct Parametros {
    pub theta: u32,
    pub n: u32,
}

/// What the next read of an input gives when it is held to be the line of
/// two numbers, each within its range: the numbers, or why there are none.
pub open spec fn par_de_lectura(
    lecturas: Lecturas,
    min1: u32,
    max1: u32,
    min2: u32,
    max2: u32,
) -> Result<(u32, u32), ErrorTipo> {
    if lecturas.len() == 0 {
        Err(ErrorTipo::LineaFaltante)
    } else {
        match lecturas[0] {
            None => Err(ErrorTipo::IO),
            Some(linea) => par_de_linea(linea, min1, max1, min2, max2),
        }
    }
}

/// The parameters that the next read of an input gives, or why it gives
/// none.
pub open spec fn parametros_de(lecturas: Lecturas) -> Result<Parametros, ErrorTipo> {
    match par_de_lectura(lecturas, THETA_MIN, THETA_MAX, N_MIN, N_MAX) {
        Err(e) => Err(e),
        Ok((theta, n)) => Ok(Parametros { theta, n }),
    }
}

/// Takes the next read off the input and reads two numbers from it.
pub fn leer_par_de(
    lineas: &mut Lineas,
    min1: u32,
    max1: u32,
    min2: u32,
    max2: u32,
) -> (r: Result<(u32, u32), ErrorTipo>)
    ensures
        r == par_de_lectura(old(lineas)@, min1, max1, min2, max2),
        final(lineas)@ == tras_leer(old(lineas)@, 1),
{
    let r = match lineas.actual() {
        None => Err(ErrorTipo::LineaFaltante),
        Some(Lectura::Fallo) => Err(ErrorTipo::IO),
        Some(Lectura::Linea(linea)) => leer_par(linea.as_str(), min1, max1, min2, max2),
    };
    lineas.avanzar();
    r
}

impl Parametros {
    /// Reads the parameters from the next line of the input and takes that
    /// line off it.
    pub fn leer_desde_stdin(lineas: &mut Lineas) -> (r: Result<Parametros, ErrorTipo>)
        ensures
            r == parametros_de(old(lineas)@),
            final(lineas)@ == tras_leer(old(lineas)@, 1),
    {
        match leer_par_de(lineas, THETA_MIN, THETA_MAX, N_MIN, N_MAX) {
            Err(e) => Err(e),
            Ok((theta, n)) => Ok(Parametros { theta, n }),
        }
    }
}

} // verus!
