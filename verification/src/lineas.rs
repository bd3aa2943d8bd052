//! The lines of an input, as they were read.
//!
//! Whoever reads the input records what each read gave, a line or a failure,
//! and the readers of this crate take the records in order. An input that was
//! read to its end holds no more records.

use vstd::prelude::*;

verus! {

/// What one read of the input gave.
#[derive(Debug)]
pub enum Lectura {
    /// A line, without its line ending.
    Linea(String),
    /// The read failed.
    Fallo,
}

impl Lectura {
    /// The text of the line, or `None` for a failed read.
    pub open spec fn texto(self) -> Option<Seq<char>> {
        match self {
            Lectura::Linea(s) => Some(s@),
            Lectura::Fallo => None,
        }
    }
}

/// What the reads of an input gave, in order: the text of a line, or `None`
/// for a read that failed.
pub type Lecturas = Seq<Option<Seq<char>>>;

/// What each of the reads gave.
pub open spec fn textos(lecturas: Seq<Lectura>) -> Lecturas {
    Seq::new(lecturas.len(), |i: int| lecturas[i].texto())
}

/// What is left of the reads once `n` more of them have been taken.
pub open spec fn tras_leer(lecturas: Lecturas, n: nat) -> Lecturas {
    if n <= lecturas.len() {
        lecturas.skip(n as int)
    } else {
        Seq::empty()
    }
}

/// The reads of an input, of which the first `pos` have been taken.
pub struct Lineas {
    lecturas: Vec<Lectura>,
    pos: usize,
}

impl View for Lineas {
    type V = Lecturas;

    /// The reads that have not been taken yet, next first.
    closed spec fn view(&self) -> Lecturas {
        textos(self.lecturas@).skip(self.pos as int)
    }
}

impl Lineas {
    #[verifier::type_invariant]
    spec fn en_rango(self) -> bool {
        self.pos <= self.lecturas.len()
    }

    /// An input of which nothing has been taken.
    pub fn new(lecturas: Vec<Lectura>) -> (l: Lineas)
        ensures
            l@ == textos(lecturas@),
    {
        Lineas { lecturas, pos: 0 }
    }

    /// The next read, if the input has one left.
    pub fn actual(&self) -> (r: Option<&Lectura>)
        ensures
            r is None <==> self@.len() == 0,
            r matches Some(l) ==> l.texto() == self@[0],
    {
        proof {
            use_type_invariant(self);
        }
        if self.pos < self.lecturas.len() {
            Some(&self.lecturas[self.pos])
        } else {
            None
        }
    }

    /// Takes the next read off the input. At the end of the input nothing
    /// changes.
    pub fn avanzar(&mut self)
        ensures
            final(self)@ == tras_leer(old(self)@, 1),
    {
        proof {
            use_type_invariant(&*self);
        }
        if self.pos < self.lecturas.len() {
            self.pos = self.pos + 1;
        }
    }
}

} // verus!
