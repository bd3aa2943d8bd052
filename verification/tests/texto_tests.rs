use el_rompecabezas_de_las_sombreas::flatlanders::{leer_flatlanders_desde_stdin, Flatlander};
use el_rompecabezas_de_las_sombreas::lineas::{Lectura, Lineas};
use el_rompecabezas_de_las_sombreas::parametros::{leer_par_de, Parametros};
use el_rompecabezas_de_las_sombreas::texto::{caracteres, dividir, es_blanco, leer_par, leer_u32};
use el_rompecabezas_de_las_sombreas::{procesar_entrada, ErrorTipo, ESCALA};

fn lineas(textos: &[&str]) -> Lineas {
    Lineas::new(textos.iter().map(|t| Lectura::Linea(t.to_string())).collect())
}

fn palabras(linea: &str) -> Vec<String> {
    dividir(linea).into_iter().map(|p| p.into_iter().collect()).collect()
}

/// A flatlander under a sun at 45 degrees, where a shadow is as long as the
/// flatlander is high.
fn a_45_grados(x: u32, h: u32) -> Flatlander {
    Flatlander { x, l: h as u128 * ESCALA }
}

fn numero(palabra: &str) -> Option<u32> {
    leer_u32(&palabra.chars().collect())
}

#[test]
fn los_caracteres_de_una_linea() {
    assert_eq!(caracteres(""), Vec::<char>::new());
    assert_eq!(caracteres("a ñ\u{3000}z"), vec!['a', ' ', 'ñ', '\u{3000}', 'z']);
}

#[test]
fn el_espacio_en_blanco_es_el_de_unicode() {
    for c in (0..=0x10FFFFu32).filter_map(char::from_u32) {
        assert_eq!(es_blanco(c), c.is_whitespace(), "U+{:04X}", c as u32);
    }
}

#[test]
fn las_palabras_de_una_linea() {
    assert_eq!(palabras("45 2"), vec!["45", "2"]);
    assert_eq!(palabras("  45\t\t2 \r"), vec!["45", "2"]);
    assert_eq!(palabras(""), Vec::<String>::new());
    assert_eq!(palabras(" \t \u{a0}"), Vec::<String>::new());
    assert_eq!(palabras("uno"), vec!["uno"]);
    assert_eq!(palabras("a b  c"), vec!["a", "b", "c"]);
    assert_eq!(palabras("1\u{2003}2\u{3000}3"), vec!["1", "2", "3"]);
}

#[test]
fn las_palabras_son_las_que_da_la_biblioteca_estandar() {
    let casos = [
        "",
        " ",
        "a",
        " a",
        "a ",
        "10 20",
        "10\t20\n",
        "\u{85}x\u{1680}y\u{2028}z\u{2029}",
        "x\u{200b}y z",
        "  +5   -3  ",
        "ñandú\u{205f}árbol\u{202f}¡hola!",
        "a\u{b}b\u{c}c\rd",
    ];
    for caso in casos {
        let esperado: Vec<String> = caso.split_whitespace().map(|p| p.to_string()).collect();
        assert_eq!(palabras(caso), esperado, "{:?}", caso);
    }
}

#[test]
fn los_numeros_que_una_palabra_escribe() {
    assert_eq!(numero("0"), Some(0));
    assert_eq!(numero("45"), Some(45));
    assert_eq!(numero("+45"), Some(45));
    assert_eq!(numero("007"), Some(7));
    assert_eq!(numero("4294967295"), Some(u32::MAX));
    assert_eq!(numero("4294967296"), None);
    assert_eq!(numero("00000000000000000000004294967295"), Some(u32::MAX));
    assert_eq!(numero("99999999999999999999999999"), None);
    assert_eq!(numero(""), None);
    assert_eq!(numero("+"), None);
    assert_eq!(numero("-"), None);
    assert_eq!(numero("-5"), None);
    assert_eq!(numero("++5"), None);
    assert_eq!(numero("5+"), None);
    assert_eq!(numero("12a"), None);
    assert_eq!(numero("1_000"), None);
    assert_eq!(numero("1.5"), None);
    assert_eq!(numero("abc"), None);
    assert_eq!(numero("\u{ff11}\u{ff12}"), None);
    assert_eq!(numero("\u{661}"), None);
}

#[test]
fn los_numeros_son_los_que_lee_la_biblioteca_estandar() {
    let casos = [
        "", "+", "-", "0", "+0", "-0", "1", "+1", "-1", "42", "0042", "4294967295", "4294967296",
        "42949672950", "00004294967295", "+4294967295", "1e3", "0x10", " 1", "1 ", "１", "९",
        "1,0",
        "18446744073709551616", "+-1", "٣",
    ];
    for caso in casos {
        assert_eq!(numero(caso), caso.parse::<u32>().ok(), "{:?}", caso);
    }
}

#[test]
fn un_par_de_numeros_en_una_linea() {
    assert_eq!(leer_par("45 2", 10, 80, 1, 100_000), Ok((45, 2)));
    assert_eq!(leer_par("  10\t100000  ", 10, 80, 1, 100_000), Ok((10, 100_000)));
    assert_eq!(leer_par("+80 +1", 10, 80, 1, 100_000), Ok((80, 1)));
    assert_eq!(leer_par("0 1", 0, 300_000, 1, 1000), Ok((0, 1)));
    assert_eq!(leer_par("300000 1000", 0, 300_000, 1, 1000), Ok((300_000, 1000)));
}

#[test]
fn cada_error_de_una_linea() {
    // not two values
    assert_eq!(leer_par("", 10, 80, 1, 100_000), Err(ErrorTipo::ValorFaltante));
    assert_eq!(leer_par("   ", 10, 80, 1, 100_000), Err(ErrorTipo::ValorFaltante));
    assert_eq!(leer_par("45", 10, 80, 1, 100_000), Err(ErrorTipo::ValorFaltante));
    assert_eq!(leer_par("45 2 7", 10, 80, 1, 100_000), Err(ErrorTipo::ValorFaltante));
    assert_eq!(leer_par("abc def ghi", 10, 80, 1, 100_000), Err(ErrorTipo::ValorFaltante));
    // not a number
    assert_eq!(leer_par("abc 2", 10, 80, 1, 100_000), Err(ErrorTipo::NumeroInvalido));
    assert_eq!(leer_par("45 abc", 10, 80, 1, 100_000), Err(ErrorTipo::NumeroInvalido));
    assert_eq!(leer_par("-45 2", 10, 80, 1, 100_000), Err(ErrorTipo::NumeroInvalido));
    assert_eq!(leer_par("45 4294967296", 10, 80, 1, 100_000), Err(ErrorTipo::NumeroInvalido));
    assert_eq!(leer_par("45.0 2", 10, 80, 1, 100_000), Err(ErrorTipo::NumeroInvalido));
    // out of range
    assert_eq!(leer_par("9 2", 10, 80, 1, 100_000), Err(ErrorTipo::FueraDeRango));
    assert_eq!(leer_par("81 2", 10, 80, 1, 100_000), Err(ErrorTipo::FueraDeRango));
    assert_eq!(leer_par("45 0", 10, 80, 1, 100_000), Err(ErrorTipo::FueraDeRango));
    assert_eq!(leer_par("45 100001", 10, 80, 1, 100_000), Err(ErrorTipo::FueraDeRango));
}

#[test]
fn el_primer_numero_se_juzga_antes_que_el_segundo() {
    assert_eq!(leer_par("5 abc", 10, 80, 1, 100_000), Err(ErrorTipo::FueraDeRango));
    assert_eq!(leer_par("abc 0", 10, 80, 1, 100_000), Err(ErrorTipo::NumeroInvalido));
    assert_eq!(leer_par("5 0", 10, 80, 1, 100_000), Err(ErrorTipo::FueraDeRango));
}

#[test]
fn los_mensajes_de_error() {
    assert_eq!(ErrorTipo::IO.mensaje(), "Error: \"IO\"\n");
    assert_eq!(ErrorTipo::FueraDeRango.mensaje(), "Error: \"Fuera de rango\"\n");
    assert_eq!(ErrorTipo::ValorFaltante.mensaje(), "Error: \"Valor faltante\"\n");
    assert_eq!(ErrorTipo::NumeroInvalido.mensaje(), "Error: \"Numero invalido\"\n");
    assert_eq!(ErrorTipo::LineaFaltante.mensaje(), "Error: \"Linea faltante\"\n");
}

#[test]
fn las_lecturas_se_toman_en_orden() {
    let mut l = Lineas::new(vec![
        Lectura::Linea("uno".to_string()),
        Lectura::Fallo,
        Lectura::Linea("tres".to_string()),
    ]);
    assert!(matches!(l.actual(), Some(Lectura::Linea(t)) if t == "uno"));
    // looking does not take
    assert!(matches!(l.actual(), Some(Lectura::Linea(t)) if t == "uno"));
    l.avanzar();
    assert!(matches!(l.actual(), Some(Lectura::Fallo)));
    l.avanzar();
    assert!(matches!(l.actual(), Some(Lectura::Linea(t)) if t == "tres"));
    l.avanzar();
    assert!(l.actual().is_none());
    l.avanzar();
    assert!(l.actual().is_none());
}

#[test]
fn una_lectura_fallida_es_un_error_de_io() {
    let mut l = Lineas::new(vec![Lectura::Fallo, Lectura::Linea("45 2".to_string())]);
    assert_eq!(Parametros::leer_desde_stdin(&mut l), Err(ErrorTipo::IO));
    // the failed read was taken
    assert_eq!(Parametros::leer_desde_stdin(&mut l), Ok(Parametros { theta: 45, n: 2 }));

    let mut l = Lineas::new(vec![Lectura::Linea("1 1".to_string()), Lectura::Fallo]);
    let params = Parametros { theta: 45, n: 2 };
    assert_eq!(leer_flatlanders_desde_stdin(&mut l, &params), Err(ErrorTipo::IO));

    let l = Lineas::new(vec![Lectura::Linea("45 1".to_string()), Lectura::Fallo]);
    assert_eq!(procesar_entrada(l), Err(ErrorTipo::IO));
}

#[test]
fn una_entrada_vacia_no_tiene_lineas() {
    assert_eq!(Parametros::leer_desde_stdin(&mut lineas(&[])), Err(ErrorTipo::LineaFaltante));
    assert_eq!(leer_par_de(&mut lineas(&[]), 0, 1, 0, 1), Err(ErrorTipo::LineaFaltante));
    assert_eq!(procesar_entrada(lineas(&[])), Err(ErrorTipo::LineaFaltante));
    assert_eq!(procesar_entrada(lineas(&[""])), Err(ErrorTipo::ValorFaltante));
}

#[test]
fn los_limites_de_los_parametros() {
    assert_eq!(
        Parametros::leer_desde_stdin(&mut lineas(&["10 1"])),
        Ok(Parametros { theta: 10, n: 1 })
    );
    assert_eq!(
        Parametros::leer_desde_stdin(&mut lineas(&["80 100000"])),
        Ok(Parametros { theta: 80, n: 100_000 })
    );
    assert_eq!(Parametros::leer_desde_stdin(&mut lineas(&["9 1"])), Err(ErrorTipo::FueraDeRango));
    assert_eq!(Parametros::leer_desde_stdin(&mut lineas(&["81 1"])), Err(ErrorTipo::FueraDeRango));
    assert_eq!(Parametros::leer_desde_stdin(&mut lineas(&["45 0"])), Err(ErrorTipo::FueraDeRango));
    assert_eq!(
        Parametros::leer_desde_stdin(&mut lineas(&["45 100001"])),
        Err(ErrorTipo::FueraDeRango)
    );
}

#[test]
fn los_limites_de_los_flatlanders() {
    let uno = Parametros { theta: 45, n: 1 };
    let leer = |linea: &str| leer_flatlanders_desde_stdin(&mut lineas(&[linea]), &uno);
    assert_eq!(leer("0 1"), Ok(vec![a_45_grados(0, 1)]));
    assert_eq!(leer("300000 1000"), Ok(vec![a_45_grados(300_000, 1000)]));
    assert_eq!(leer("300001 1"), Err(ErrorTipo::FueraDeRango));
    assert_eq!(leer("0 0"), Err(ErrorTipo::FueraDeRango));
    assert_eq!(leer("0 1001"), Err(ErrorTipo::FueraDeRango));
}

#[test]
fn leer_se_detiene_en_la_primera_linea_mala() {
    let mut l = lineas(&["1 1", "malo", "2 2", "3 3"]);
    let params = Parametros { theta: 45, n: 3 };
    assert_eq!(leer_flatlanders_desde_stdin(&mut l, &params), Err(ErrorTipo::ValorFaltante));
    // the bad line was taken, the ones after it were not
    assert!(matches!(l.actual(), Some(Lectura::Linea(t)) if t == "2 2"));
}

#[test]
fn leer_toma_tantas_lineas_como_flatlanders() {
    let mut l = lineas(&["45 2", "1 1", "2 2", "3 3"]);
    let params = Parametros::leer_desde_stdin(&mut l).unwrap();
    assert!(matches!(l.actual(), Some(Lectura::Linea(t)) if t == "1 1"));
    let fs = leer_flatlanders_desde_stdin(&mut l, &params).unwrap();
    assert_eq!(fs, vec![a_45_grados(1, 1), a_45_grados(2, 2)]);
    assert!(matches!(l.actual(), Some(Lectura::Linea(t)) if t == "3 3"));

    let ninguno = Parametros { theta: 45, n: 0 };
    assert_eq!(leer_flatlanders_desde_stdin(&mut l, &ninguno), Ok(vec![]));
    assert!(matches!(l.actual(), Some(Lectura::Linea(t)) if t == "3 3"));
}

#[test]
fn las_lineas_de_mas_no_se_leen() {
    assert_eq!(procesar_entrada(lineas(&["45 1", "0 10", "esto no se lee"])), Ok(10 * ESCALA));
    let con_fallo = Lineas::new(vec![
        Lectura::Linea("45 1".to_string()),
        Lectura::Linea("0 10".to_string()),
        Lectura::Fallo,
    ]);
    assert_eq!(procesar_entrada(con_fallo), Ok(10 * ESCALA));
}

#[test]
fn el_area_de_una_entrada() {
    assert_eq!(procesar_entrada(lineas(&["45 2", "0 10", "5 10"])), Ok(15 * ESCALA));
    assert_eq!(procesar_entrada(lineas(&["45 2", "0 10", "20 10"])), Ok(20 * ESCALA));
    assert_eq!(procesar_entrada(lineas(&["45 2", "0 10", "10 5"])), Ok(15 * ESCALA));
    assert_eq!(
        procesar_entrada(lineas(&["30 3", "0 100", "50 150", "100 200"])),
        Ok(100 * ESCALA + 200 * 1_732_050_807_568_877_294)
    );
    assert_eq!(procesar_entrada(lineas(&["45 2", "0 10"])), Err(ErrorTipo::LineaFaltante));
    assert_eq!(procesar_entrada(lineas(&["45 2", "0 10", "5"])), Err(ErrorTipo::ValorFaltante));
    assert_eq!(procesar_entrada(lineas(&["45 2", "0 10", "5 x"])), Err(ErrorTipo::NumeroInvalido));
    assert_eq!(procesar_entrada(lineas(&["45 2", "0 10", "5 0"])), Err(ErrorTipo::FueraDeRango));
    assert_eq!(procesar_entrada(lineas(&["90 2", "0 10", "5 1"])), Err(ErrorTipo::FueraDeRango));
}
