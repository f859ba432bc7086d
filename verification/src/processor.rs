//! The whole pass: from raw text to a drawn canvas.

use vstd::prelude::*;
use crate::canvas::Canvas;
use crate::color::{paper, paper_color};
use crate::layout::{can_render, lemma_layout_by_geometry, render, text_fits, text_of, with_text};
use crate::mapper::CharPixelsMapper;
use crate::text::{normalize, normalized};

verus! {

/// Holds the lines of the text it processed last.
#[derive(Debug, Clone)]
pub struct TextProcessor {
    text_lines: Vec<String>,
}

impl View for TextProcessor {
    type V = Seq<Seq<char>>;

    closed spec fn view(&self) -> Seq<Seq<char>> {
        text_of(self.text_lines@)
    }
}

impl TextProcessor {
    /// A processor that has seen no text yet.
    pub fn new() -> (processor: TextProcessor)
        ensures
            processor@ == Seq::<Seq<char>>::empty(),
    {
        let processor = TextProcessor { text_lines: vec![] };
        assert(processor@ =~= Seq::<Seq<char>>::empty());
        processor
    }

    /// The lines of the text processed last.
    pub fn lines(&self) -> (lines: &Vec<String>)
        ensures
            text_of(lines@) == self@,
    {
        &self.text_lines
    }

    /// Takes the raw text `contents` apart into lines and, where they all fit
    /// on the canvas, clears it and draws them. Where they do not fit, the
    /// canvas is left as it was and the answer is `false`.
    pub fn process(
        &mut self,
        contents: &str,
        canvas: &mut Canvas,
        char_pixels_mapper: &CharPixelsMapper,
    ) -> (drawn: bool)
        requires
            old(canvas).wf(),
            char_pixels_mapper.wf(),
        ensures
            final(self)@ == normalized(contents@),
            drawn == text_fits(char_pixels_mapper@, old(canvas)@, normalized(contents@)),
            drawn ==> final(canvas)@ == with_text(
                char_pixels_mapper@,
                old(canvas)@.cleared(paper_color()),
                normalized(contents@),
            ),
            !drawn ==> final(canvas)@ == old(canvas)@,
            final(canvas).wf(),
    {
        self.text_lines = normalize(contents);
        if !can_render(&self.text_lines, canvas, char_pixels_mapper) {
            return false;
        }
        canvas.clear(paper());
        proof {
            lemma_layout_by_geometry(
                char_pixels_mapper@,
                old(canvas)@,
                canvas@,
                normalized(contents@),
            );
        }
        render(&self.text_lines, canvas, char_pixels_mapper);
        true
    }
}

} // verus!
