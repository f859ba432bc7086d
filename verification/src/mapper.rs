//! The font: which characters have a glyph, and which.

use vstd::prelude::*;
use std::collections::HashMap;
use crate::glyph::{is_pattern, GlyphPattern};

verus! {

/// Whether every entry of a table is a dot matrix.
pub open spec fn is_glyph_table(table: Map<char, Seq<u8>>) -> bool {
    forall|c: char| table.contains_key(c) ==> is_pattern(#[trigger] table[c])
}

/// The built-in font's pattern for `c`, if it has one: the lower-case
/// letters, the digits 1, 2 and 8, and nine punctuation marks.
pub open spec fn standard_pattern(c: char) -> Option<Seq<u8>> {
    match c {
        'a' => Some(seq![0u8, 1, 0, 1, 1, 1, 1, 0, 1]),
        'b' => Some(seq![1u8, 1, 0, 1, 1, 1, 1, 1, 1]),
        'c' => Some(seq![1u8, 1, 1, 0, 1, 1]),
        'd' => Some(seq![1u8, 1, 0, 1, 0, 1, 1, 1, 0]),
        'e' => Some(seq![1u8, 1, 1, 1, 1, 0, 1, 1, 1]),
        'f' => Some(seq![1u8, 1, 1, 1, 1, 0, 1, 0, 0]),
        'g' => Some(seq![1u8, 0, 0, 1, 0, 1, 1, 1, 1]),
        'h' => Some(seq![1u8, 0, 1, 1, 1, 1, 1, 0, 1]),
        'i' => Some(seq![1u8, 1, 1]),
        'j' => Some(seq![0u8, 0, 1, 1, 0, 1, 1, 1, 1]),
        'k' => Some(seq![1u8, 0, 1, 1, 1, 0, 1, 0, 1]),
        'l' => Some(seq![1u8, 0, 1, 0, 1, 1]),
        'm' => Some(seq![1u8, 1, 0, 0, 1, 1, 0, 0, 1]),
        'n' => Some(seq![1u8, 1, 1, 1, 0, 1, 1, 0, 1]),
        'o' => Some(seq![1u8, 1, 1, 1, 0, 1, 1, 1, 1]),
        'p' => Some(seq![1u8, 1, 1, 1, 1, 1, 1, 0, 0]),
        'q' => Some(seq![1u8, 1, 1, 1, 1, 1, 0, 0, 1]),
        'r' => Some(seq![1u8, 1, 1, 0, 1, 0]),
        's' => Some(seq![0u8, 1, 1, 0, 1, 0, 1, 1, 0]),
        't' => Some(seq![1u8, 1, 1, 0, 1, 0, 0, 1, 0]),
        'u' => Some(seq![1u8, 0, 1, 1, 0, 1, 1, 1, 1]),
        'v' => Some(seq![1u8, 0, 1, 1, 0, 1, 0, 1, 0]),
        'w' => Some(seq![1u8, 0, 0, 1, 1, 0, 0, 1, 1]),
        'x' => Some(seq![1u8, 0, 1, 0, 1, 0, 1, 0, 1]),
        'y' => Some(seq![1u8, 0, 1, 1, 1, 1, 0, 1, 0]),
        'z' => Some(seq![1u8, 1, 0, 0, 1, 0, 0, 1, 1]),
        '.' => Some(seq![0u8, 0, 1]),
        ',' => Some(seq![0u8, 1, 1]),
        '"' => Some(seq![1u8, 0, 1, 0, 0, 0, 0, 0, 0]),
        '(' => Some(seq![0u8, 1, 1, 0, 0, 1]),
        ')' => Some(seq![1u8, 0, 0, 1, 1, 0]),
        '!' => Some(seq![1u8, 1, 0]),
        '?' => Some(seq![1u8, 1, 0, 0, 0, 1]),
        ':' => Some(seq![1u8, 0, 1]),
        '-' => Some(seq![0u8, 0, 1, 1, 0, 0]),
        '1' => Some(seq![1u8, 1, 0, 1, 0, 1]),
        '2' => Some(seq![1u8, 1, 0, 0, 1, 0, 0, 1, 1]),
        '8' => Some(seq![0u8, 1, 1, 1, 1, 1, 1, 1, 0]),
        _ => None,
    }
}

/// The built-in font as a table.
pub open spec fn standard_glyphs() -> Map<char, Seq<u8>> {
    Map::new(
        |c: char| standard_pattern(c) is Some,
        |c: char| standard_pattern(c)->0,
    )
}

/// Two characters with one code point are one character.
proof fn lemma_code_identifies_char(a: char, b: char)
    ensures
        a as u32 == b as u32 <==> a == b,
{
}

/// A table from characters to their glyphs. Characters without an entry
/// have no glyph and are left out when text is drawn.
#[derive(Debug, Clone)]
pub struct CharPixelsMapper {
    char_pixels: HashMap<u32, GlyphPattern>,
}

impl View for CharPixelsMapper {
    type V = Map<char, Seq<u8>>;

    closed spec fn view(&self) -> Map<char, Seq<u8>> {
        Map::new(
            |c: char| self.char_pixels@.contains_key(c as u32),
            |c: char| self.char_pixels@[c as u32]@,
        )
    }
}

impl CharPixelsMapper {
    /// Every entry is a dot matrix.
    pub open spec fn wf(&self) -> bool {
        is_glyph_table(self@)
    }

    /// A table without entries.
    pub fn empty() -> (table: CharPixelsMapper)
        ensures
            table@ == Map::<char, Seq<u8>>::empty(),
            table.wf(),
    {
        let table = CharPixelsMapper { char_pixels: HashMap::new() };
        assert(table@ =~= Map::<char, Seq<u8>>::empty());
        table
    }

    /// The built-in font.
    pub fn new() -> (table: CharPixelsMapper)
        ensures
            table@ == standard_glyphs(),
            table.wf(),
    {
        let mut table = CharPixelsMapper::empty();
        table.put('a', vec![0, 1, 0, 1, 1, 1, 1, 0, 1]);
        table.put('b', vec![1, 1, 0, 1, 1, 1, 1, 1, 1]);
        table.put('c', vec![1, 1, 1, 0, 1, 1]);
        table.put('d', vec![1, 1, 0, 1, 0, 1, 1, 1, 0]);
        table.put('e', vec![1, 1, 1, 1, 1, 0, 1, 1, 1]);
        table.put('f', vec![1, 1, 1, 1, 1, 0, 1, 0, 0]);
        table.put('g', vec![1, 0, 0, 1, 0, 1, 1, 1, 1]);
        table.put('h', vec![1, 0, 1, 1, 1, 1, 1, 0, 1]);
        table.put('i', vec![1, 1, 1]);
        table.put('j', vec![0, 0, 1, 1, 0, 1, 1, 1, 1]);
        table.put('k', vec![1, 0, 1, 1, 1, 0, 1, 0, 1]);
        table.put('l', vec![1, 0, 1, 0, 1, 1]);
        table.put('m', vec![1, 1, 0, 0, 1, 1, 0, 0, 1]);
        table.put('n', vec![1, 1, 1, 1, 0, 1, 1, 0, 1]);
        table.put('o', vec![1, 1, 1, 1, 0, 1, 1, 1, 1]);
        table.put('p', vec![1, 1, 1, 1, 1, 1, 1, 0, 0]);
        table.put('q', vec![1, 1, 1, 1, 1, 1, 0, 0, 1]);
        table.put('r', vec![1, 1, 1, 0, 1, 0]);
        table.put('s', vec![0, 1, 1, 0, 1, 0, 1, 1, 0]);
        table.put('t', vec![1, 1, 1, 0, 1, 0, 0, 1, 0]);
        table.put('u', vec![1, 0, 1, 1, 0, 1, 1, 1, 1]);
        table.put('v', vec![1, 0, 1, 1, 0, 1, 0, 1, 0]);
        table.put('w', vec![1, 0, 0, 1, 1, 0, 0, 1, 1]);
        table.put('x', vec![1, 0, 1, 0, 1, 0, 1, 0, 1]);
        table.put('y', vec![1, 0, 1, 1, 1, 1, 0, 1, 0]);
        table.put('z', vec![1, 1, 0, 0, 1, 0, 0, 1, 1]);
        table.put('.', vec![0, 0, 1]);
        table.put(',', vec![0, 1, 1]);
        table.put('"', vec![1, 0, 1, 0, 0, 0, 0, 0, 0]);
        table.put('(', vec![0, 1, 1, 0, 0, 1]);
        table.put(')', vec![1, 0, 0, 1, 1, 0]);
        table.put('!', vec![1, 1, 0]);
        table.put('?', vec![1, 1, 0, 0, 0, 1]);
        table.put(':', vec![1, 0, 1]);
        table.put('-', vec![0, 0, 1, 1, 0, 0]);
        table.put('1', vec![1, 1, 0, 1, 0, 1]);
        table.put('2', vec![1, 1, 0, 0, 1, 0, 0, 1, 1]);
        table.put('8', vec![0, 1, 1, 1, 1, 1, 1, 1, 0]);
        assert(table@ =~= standard_glyphs());
        table
    }

    /// Gives `c` the glyph `pattern`, replacing the one it had.
    pub fn insert(&mut self, c: char, pattern: GlyphPattern)
        requires
            old(self).wf(),
            pattern.wf(),
        ensures
            final(self)@ == old(self)@.insert(c, pattern@),
            final(self).wf(),
    {
        broadcast use vstd::std_specs::hash::group_hash_axioms;

        self.char_pixels.insert(c as u32, pattern);
        assert forall|d: char| #[trigger]
            self@.contains_key(d) == old(self)@.insert(c, pattern@).contains_key(d) && (
            self@.contains_key(d) ==> self@[d] == old(self)@.insert(c, pattern@)[d]) by {
            lemma_code_identifies_char(d, c);
        }
        assert(self@ =~= old(self)@.insert(c, pattern@));
    }

    /// The glyph of `c`, or `None` where the table has none.
    pub fn lookup(&self, c: char) -> (found: Option<&GlyphPattern>)
        requires
            self.wf(),
        ensures
            found is Some <==> self@.contains_key(c),
            found is Some ==> found->0@ == self@[c] && found->0.wf(),
    {
        broadcast use vstd::std_specs::hash::group_hash_axioms;

        let key: u32 = c as u32;
        self.char_pixels.get(&key)
    }

    fn put(&mut self, c: char, bits: Vec<u8>)
        requires
            old(self).wf(),
            is_pattern(bits@),
        ensures
            final(self)@ == old(self)@.insert(c, bits@),
            final(self).wf(),
    {
        let pattern = GlyphPattern::new(bits).unwrap();
        self.insert(c, pattern);
    }
}

} // verus!
