use vstd::prelude::*;

verus! {

/// The mathematical view of a cell: its identifier, its score and the
/// sequence of bytes that makes up its genetic code.
pub ghost struct CellModel {
    pub id: u64,
    pub score: u64,
    pub code: Seq<u8>,
}

/// One candidate solution: a fixed-length genetic code together with the
/// score it earned in the current generation. Higher scores are better.
/// A score is meaningless (zero) until the cell has been evaluated.
pub struct Cell {
    pub id: u64,
    pub genetic_code: Vec<u8>,
    pub score: u64,
}

/// Single-point crossover: the first half of `a` followed by the second
/// half of `b`, split at `floor(len / 2)`.
pub open spec fn crossover(a: Seq<u8>, b: Seq<u8>) -> Seq<u8>
    recommends
        a.len() == b.len(),
{
    a.subrange(0, (a.len() / 2) as int) + b.subrange((a.len() / 2) as int, b.len() as int)
}

impl Cell {
    pub open spec fn model(self) -> CellModel {
        CellModel { id: self.id, score: self.score, code: self.genetic_code@ }
    }

    /// A fresh, not yet evaluated cell.
    pub fn new(id: u64, code: Vec<u8>) -> (cell: Cell)
        ensures
            cell.id == id,
            cell.genetic_code@ == code@,
            cell.score == 0,
    {
        Cell { id, genetic_code: code, score: 0 }
    }

    /// Combine this cell's genetic code with another of equal length:
    /// the child keeps this cell's bytes up to the pivot `floor(len / 2)`
    /// and takes `other`'s bytes from the pivot on. Callers must guarantee
    /// equal lengths; the engine does so by construction.
    pub fn breed(&self, other: &Self) -> (child: Vec<u8>)
        requires
            self.genetic_code@.len() == other.genetic_code@.len(),
        ensures
            child@ == crossover(self.genetic_code@, other.genetic_code@),
            child@.len() == self.genetic_code@.len(),
            forall|i: int|
                0 <= i < self.genetic_code@.len() / 2 ==> child@[i] == self.genetic_code@[i],
            forall|i: int|
                self.genetic_code@.len() / 2 <= i < self.genetic_code@.len() ==> child@[i]
                    == other.genetic_code@[i],
    {
        let len = self.genetic_code.len();
        let pivot = len / 2;
        let mut child: Vec<u8> = Vec::new();
        let mut i: usize = 0;
        while i < pivot
            invariant
                i <= pivot,
                pivot == len / 2,
                len == self.genetic_code@.len(),
                child@.len() == i,
                forall|j: int| 0 <= j < i ==> child@[j] == self.genetic_code@[j],
            decreases pivot - i,
        {
            child.push(self.genetic_code[i]);
            i += 1;
        }
        while i < len
            invariant
                pivot <= i <= len,
                pivot == len / 2,
                len == self.genetic_code@.len(),
                len == other.genetic_code@.len(),
                child@.len() == i,
                forall|j: int| 0 <= j < pivot ==> child@[j] == self.genetic_code@[j],
                forall|j: int| pivot <= j < i ==> child@[j] == other.genetic_code@[j],
            decreases len - i,
        {
            child.push(other.genetic_code[i]);
            i += 1;
        }
        proof {
            assert(child@ =~= crossover(self.genetic_code@, other.genetic_code@));
        }
        child
    }
}

} // verus!
