use el_rompecabezas_de_las_sombreas::flatlanders::{
    crear_intervalo_de_flatlanders, leer_flatlanders_desde_stdin, Flatlander,
};
use el_rompecabezas_de_las_sombreas::intervalos::Intervalo;
use el_rompecabezas_de_las_sombreas::lineas::{Lectura, Lineas};
use el_rompecabezas_de_las_sombreas::parametros::Parametros;
use el_rompecabezas_de_las_sombreas::{ErrorTipo, ESCALA};
use std::io::BufRead;

const PRECISION_IGUALDAD_FLOAT: f64 = 1e-8;

/// A length in units.
fn unidades(ticks: u128) -> f64 {
    ticks as f64 / ESCALA as f64
}

/// A length given in units.
fn ticks(unidades: f64) -> u128 {
    (unidades * ESCALA as f64).round() as u128
}

/// An interval given in units.
fn intervalo(inicio: f64, fin: f64) -> Intervalo {
    Intervalo { inicio: ticks(inicio) as i128, fin: ticks(fin) as i128 }
}

/// What reading the lines of `lector` gives, one read after the other.
fn lineas_de<R: BufRead>(lector: R) -> Lineas {
    Lineas::new(
        lector
            .lines()
            .map(|linea| match linea {
                Ok(texto) => Lectura::Linea(texto),
                Err(_) => Lectura::Fallo,
            })
            .collect(),
    )
}

fn assert_flatlander_eq(actual: &Flatlander, esperado: &Flatlander) {
    assert_eq!(actual.x, esperado.x);
    assert!((unidades(actual.l) - unidades(esperado.l)).abs() < PRECISION_IGUALDAD_FLOAT);
}

fn assert_intervalo_eq(actual: &Intervalo, esperado: &Intervalo) {
    let a = |t: i128| t as f64 / ESCALA as f64;
    assert!((a(actual.inicio) - a(esperado.inicio)).abs() < PRECISION_IGUALDAD_FLOAT);
    assert!((a(actual.fin) - a(esperado.fin)).abs() < PRECISION_IGUALDAD_FLOAT);
}

#[test]
fn test_comparacion_de_flatlanders_iguales() {
    let flatlander = Flatlander::new(10, 20, 45);
    let esperado = Flatlander { x: 10, l: ticks(20.0) };

    assert_flatlander_eq(&flatlander, &esperado);
}

#[test]
fn test_intervalos_esperados() {
    let flatlanders = vec![
        Flatlander::new(0, 100, 30),
        Flatlander::new(50, 150, 30),
        Flatlander::new(100, 200, 30),
    ];

    let intervalos = crear_intervalo_de_flatlanders(&flatlanders);
    let intervalos_esperado = [
        intervalo(0.0, 173.20508075688772),
        intervalo(50.0, 309.8076211353316),
        intervalo(100.0, 446.41016151377545),
    ];
    for i in 0..3 {
        assert_intervalo_eq(&intervalos[i], &intervalos_esperado[i]);
    }
}

#[test]
fn test_leer_flatlanders_desde_stdin_correcto() {
    let input = "10 20\n5 15\n";
    let reader = std::io::BufReader::new(input.as_bytes());
    let mut lineas = lineas_de(reader);

    let params = Parametros { theta: 45, n: 2 };
    let resultado = leer_flatlanders_desde_stdin(&mut lineas, &params);

    assert!(resultado.is_ok());
    let flatlanders = resultado.unwrap();
    assert_eq!(flatlanders.len(), 2);
    assert_flatlander_eq(&flatlanders[0], &Flatlander::new(10, 20, 45));
    assert_flatlander_eq(&flatlanders[1], &Flatlander::new(5, 15, 45));
}

#[test]
fn test_leer_flatlanders_stdin_valor_faltante() {
    let input = "10\n5 15\n";
    let reader = std::io::BufReader::new(input.as_bytes());
    let mut lineas = lineas_de(reader);

    let params = Parametros { theta: 45, n: 2 };
    let resultado = leer_flatlanders_desde_stdin(&mut lineas, &params);

    assert_eq!(resultado, Err(ErrorTipo::ValorFaltante));
}

#[test]
fn test_leer_flatlanders_stdin_numero_invalido() {
    let input = "abc 20\n5 15\n"; // "abc" is no number
    let reader = std::io::BufReader::new(input.as_bytes());
    let mut lineas = lineas_de(reader);

    let params = Parametros { theta: 45, n: 2 };
    let resultado = leer_flatlanders_desde_stdin(&mut lineas, &params);

    assert_eq!(resultado, Err(ErrorTipo::NumeroInvalido));
}

#[test]
fn test_leer_flatlanders_stdin_linea_faltante() {
    let input = "10 20\n"; // one line only, but params.n = 2
    let reader = std::io::BufReader::new(input.as_bytes());
    let mut lineas = lineas_de(reader);

    let params = Parametros { theta: 45, n: 2 };
    let resultado = leer_flatlanders_desde_stdin(&mut lineas, &params);

    assert_eq!(resultado, Err(ErrorTipo::LineaFaltante));
}

#[test]
fn test_leer_flatlanders_stdin_fuera_de_rango_x() {
    let input = "400000 20\n"; // X > 300_000
    let reader = std::io::BufReader::new(input.as_bytes());
    let mut lineas = lineas_de(reader);

    let params = Parametros { theta: 45, n: 1 };
    let resultado = leer_flatlanders_desde_stdin(&mut lineas, &params);

    assert_eq!(resultado, Err(ErrorTipo::FueraDeRango));
}

#[test]
fn test_leer_flatlanders_stdin_fuera_de_rango_h() {
    let input = "100 2000\n"; // H > 1000
    let reader = std::io::BufReader::new(input.as_bytes());
    let mut lineas = lineas_de(reader);

    let params = Parametros { theta: 45, n: 1 };
    let resultado = leer_flatlanders_desde_stdin(&mut lineas, &params);

    assert_eq!(resultado, Err(ErrorTipo::FueraDeRango));
}
