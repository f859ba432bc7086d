//! Dot-matrix glyphs.

use vstd::prelude::*;

verus! {

/// Number of dot rows in every glyph.
pub const GLYPH_ROWS: usize = 3;

/// Whether `bits` is a dot matrix: three rows of equal length, stored row
/// after row, every entry 0 (off) or 1 (on).
pub open spec fn is_pattern(bits: Seq<u8>) -> bool {
    &&& bits.len() % 3 == 0
    &&& forall|i: int| 0 <= i < bits.len() ==> #[trigger] bits[i] <= 1
}

/// Number of dot columns of a pattern.
pub open spec fn pattern_columns(bits: Seq<u8>) -> int {
    bits.len() as int / 3
}

/// The dot at `row`, `col` of a pattern.
pub open spec fn pattern_dot(bits: Seq<u8>, row: int, col: int) -> bool {
    bits[pattern_columns(bits) * row + col] == 1
}

/// The dot matrix of one character.
#[derive(Debug)]
pub struct GlyphPattern {
    bits: Vec<u8>,
}

impl View for GlyphPattern {
    type V = Seq<u8>;

    closed spec fn view(&self) -> Seq<u8> {
        self.bits@
    }
}

impl GlyphPattern {
    /// Every pattern that exists is a dot matrix.
    pub open spec fn wf(&self) -> bool {
        is_pattern(self@)
    }

    /// Wraps `bits` when they form a dot matrix; refuses them otherwise.
    pub fn new(bits: Vec<u8>) -> (made: Option<GlyphPattern>)
        ensures
            made is Some <==> is_pattern(bits@),
            made is Some ==> made->0@ == bits@ && made->0.wf(),
    {
        if bits.len() % 3 != 0 {
            return None;
        }
        let mut i: usize = 0;
        while i < bits.len()
            invariant
                i <= bits.len(),
                forall|j: int| 0 <= j < i ==> #[trigger] bits@[j] <= 1,
            decreases bits.len() - i,
        {
            if bits[i] > 1 {
                return None;
            }
            i += 1;
        }
        Some(GlyphPattern { bits })
    }

    /// Number of dot columns.
    pub fn columns(&self) -> (n: usize)
        ensures
            n == pattern_columns(self@),
    {
        self.bits.len() / 3
    }

    /// Whether the dot at `row`, `col` is on.
    pub fn dot(&self, row: usize, col: usize) -> (on: bool)
        requires
            self.wf(),
            row < GLYPH_ROWS,
            col < pattern_columns(self@),
        ensures
            on == pattern_dot(self@, row as int, col as int),
    {
        let n: usize = self.bits.len() / 3;
        assert(n * row + col < self.bits@.len()) by (nonlinear_arith)
            requires
                n == self.bits@.len() / 3,
                self.bits@.len() % 3 == 0,
                row < 3,
                col < n,
        ;
        self.bits[n * row + col] == 1
    }

    /// A copy of the dots, row after row.
    pub fn bits(&self) -> (copy: Vec<u8>)
        ensures
            copy@ == self@,
    {
        self.bits.clone()
    }
}

impl Clone for GlyphPattern {
    fn clone(&self) -> (copy: GlyphPattern)
        ensures
            copy@ == self@,
    {
        GlyphPattern { bits: self.bits.clone() }
    }
}

} // verus!
