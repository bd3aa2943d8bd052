//! Total ground covered by the shadows of flatlanders standing on a line.
//!
//! The sun stands at a whole number of degrees above the ground. Each
//! flatlander casts a shadow from where it stands, as long as its height
//! times the cotangent of that angle. The shadows are closed intervals of the
//! line, and the ground in shadow is their union: where shadows overlap or
//! touch, the ground is counted once.
//!
//! Every length in this crate is an integer number of ticks, `ESCALA` ticks to
//! the unit, so that all arithmetic is exact.

use crate::flatlanders::{
    crear_intervalo_de_flatlanders, flatlanders_de, intervalos_de, leer_flatlanders_desde_stdin,
};
use crate::intervalos::{calcular_area, longitud_union};
use crate::lineas::{tras_leer, Lecturas, Lineas};
use crate::parametros::{parametros_de, Parametros};
use vstd::prelude::*;

pub mod celdas;
pub mod flatlanders;
pub mod intervalos;
pub mod leyes;
pub mod lineas;
pub mod orden;
pub mod parametros;
pub mod sombra;
pub mod texto;

verus! {

/// Ticks per unit of length.
pub const ESCALA: u128 = 1_000_000_000_000_000_000;

/// Why an input was turned down.
#[derive(Clone, Copy, Debug, PartialEq, Eq, Structural)]
pub enum ErrorTipo {
    /// A line could not be read.
    IO,
    /// A number lies outside the range allowed for it.
    FueraDeRango,
    /// A line does not hold exactly two values.
    ValorFaltante,
    /// A value is not a number.
    NumeroInvalido,
    /// The input ends before all its lines were read.
    LineaFaltante,
}

impl ErrorTipo {
    /// The message that reports the error, with the line ending after it.
    pub open spec fn texto(self) -> Seq<char> {
        match self {
            ErrorTipo::IO => "Error: \"IO\"\n"@,
            ErrorTipo::FueraDeRango => "Error: \"Fuera de rango\"\n"@,
            ErrorTipo::ValorFaltante => "Error: \"Valor faltante\"\n"@,
            ErrorTipo::NumeroInvalido => "Error: \"Numero invalido\"\n"@,
            ErrorTipo::LineaFaltante => "Error: \"Linea faltante\"\n"@,
        }
    }

    /// The message that reports the error.
    pub fn mensaje(&self) -> (m: &'static str)
        ensures
            m@ == self.texto(),
    {
        match self {
            ErrorTipo::IO => "Error: \"IO\"\n",
            ErrorTipo::FueraDeRango => "Error: \"Fuera de rango\"\n",
            ErrorTipo::ValorFaltante => "Error: \"Valor faltante\"\n",
            ErrorTipo::NumeroInvalido => "Error: \"Numero invalido\"\n",
            ErrorTipo::LineaFaltante => "Error: \"Linea faltante\"\n",
        }
    }
}

/// The ground in shadow that an input describes, in ticks, or why the input
/// is turned down: its first line gives the parameters and the lines after
/// it one flatlander each.
pub open spec fn area_de(lecturas: Lecturas) -> Result<nat, ErrorTipo> {
    match parametros_de(lecturas) {
        Err(e) => Err(e),
        Ok(p) => match flatlanders_de(tras_leer(lecturas, 1), p.n as nat, p.theta) {
            Err(e) => Err(e),
            Ok(fs) => Ok(longitud_union(intervalos_de(fs))),
        },
    }
}

/// Reads the parameters and the flatlanders from the input and measures the
/// ground that their shadows cover, in ticks.
pub fn procesar_entrada(lineas: Lineas) -> (r: Result<u128, ErrorTipo>)
    ensures
        r matches Ok(area) ==> area_de(lineas@) == Ok::<nat, ErrorTipo>(area as nat),
        r matches Err(e) ==> area_de(lineas@) == Err::<nat, ErrorTipo>(e),
{
    let mut lineas = lineas;
    let params: Parametros = match Parametros::leer_desde_stdin(&mut lineas) {
        Err(e) => {
            return Err(e);
        },
        Ok(p) => p,
    };
    let flatlanders = match leer_flatlanders_desde_stdin(&mut lineas, &params) {
        Err(e) => {
            return Err(e);
        },
        Ok(fs) => fs,
    };
    let mut intervalos = crear_intervalo_de_flatlanders(flatlanders.as_slice());
    let area = calcular_area(intervalos.as_mut_slice());
    Ok(area)
}

} // verus!
