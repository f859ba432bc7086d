use poem::canvas::Canvas;
use poem::color::Color;
use poem::glyph::GlyphPattern;
use poem::layout::render;
use poem::mapper::CharPixelsMapper;
use poem::processor::TextProcessor;
use poem::text::{normalize, substitute, substitute_all};

const INK: Color = Color { r: 0, g: 0, b: 0 };
const PAPER: Color = Color { r: 255, g: 255, b: 255 };
const RED: Color = Color { r: 200, g: 10, b: 20 };

fn all_pixels(canvas: &Canvas) -> Vec<Color> {
    let mut pixels = Vec::new();
    for y in 0..canvas.height() {
        for x in 0..canvas.width() {
            pixels.push(canvas.get_pixel(x, y));
        }
    }
    pixels
}

#[test]
fn typographic_punctuation_becomes_plain() {
    assert_eq!(substitute('\u{2026}'), '.');
    assert_eq!(substitute(';'), ',');
    assert_eq!(substitute('\u{ab}'), '"');
    assert_eq!(substitute('\u{bb}'), '"');
    assert_eq!(substitute('\u{2014}'), '-');
}

#[test]
fn diacritics_are_stripped() {
    let pairs = [
        ('à', 'a'),
        ('ę', 'e'),
        ('æ', 'a'),
        ('é', 'e'),
        ('ó', 'o'),
        ('ł', 'l'),
        ('ś', 's'),
        ('ą', 'a'),
        ('ż', 'z'),
        ('ź', 'z'),
        ('ć', 'c'),
        ('ń', 'n'),
    ];
    for (from, to) in pairs {
        assert_eq!(substitute(from), to);
    }
}

#[test]
fn asterisk_becomes_nul() {
    assert_eq!(substitute('*'), '\0');
}

#[test]
fn other_characters_stand_for_themselves() {
    for c in ['a', 'Z', '.', ',', '"', '-', ' ', '\n', '0', 'Ł', 'Ą', 'ü', '\u{2013}', '\0'] {
        assert_eq!(substitute(c), c);
    }
}

#[test]
fn substitution_keeps_length_and_order() {
    assert_eq!(substitute_all(""), "");
    assert_eq!(substitute_all("zażółć gęślą jaźń"), "zazolc gesla jazn");
    assert_eq!(substitute_all("«A»; b\u{2026} — *"), "\"A\", b. - \0");
    assert_eq!(substitute_all("a\nb\r\n"), "a\nb\r\n");
}

#[test]
fn normalize_cuts_trims_and_lowers() {
    assert_eq!(
        normalize("Ab\u{2026} \n  C;d*\r\n\n«X»—é"),
        vec!["ab.".to_string(), "c,d\0".to_string(), "".to_string(), "\"x\"-e".to_string()]
    );
}

#[test]
fn normalize_of_nothing_is_no_line() {
    assert_eq!(normalize(""), Vec::<String>::new());
}

#[test]
fn normalize_keeps_empty_lines() {
    assert_eq!(normalize("\n\n"), vec!["".to_string(), "".to_string()]);
    assert_eq!(normalize("  \n\t\nx"), vec!["".to_string(), "".to_string(), "x".to_string()]);
}

#[test]
fn normalize_ignores_a_final_line_end() {
    assert_eq!(normalize("a\nb\n"), normalize("a\nb"));
    assert_eq!(normalize("a\nb\n"), vec!["a".to_string(), "b".to_string()]);
}

#[test]
fn normalize_lowers_after_substituting() {
    // capital letters with diacritics are not in the table of stand-ins
    assert_eq!(normalize("Łódź"), vec!["łodz".to_string()]);
    assert_eq!(normalize("PAN Tadeusz"), vec!["pan tadeusz".to_string()]);
}

#[test]
fn normalize_keeps_inner_spaces() {
    assert_eq!(normalize("  a   b  "), vec!["a   b".to_string()]);
}

#[test]
fn new_processor_holds_no_lines() {
    let processor = TextProcessor::new();
    assert!(processor.lines().is_empty());
}

#[test]
fn process_clears_and_draws() {
    let mut canvas = Canvas::new(60, 30);
    canvas.clear(RED);
    let table = CharPixelsMapper::new();
    let mut processor = TextProcessor::new();
    assert!(processor.process("  I.\n\nŁ*", &mut canvas, &table));
    assert_eq!(processor.lines(), &vec!["i.".to_string(), "".to_string(), "ł\0".to_string()]);
    for y in 0..30 {
        for x in 0..60 {
            let ink = match (x, y) {
                (45, 6) | (45, 7) | (45, 8) => true,
                (47, 8) => true,
                _ => false,
            };
            assert_eq!(canvas.get_pixel(x, y), if ink { INK } else { PAPER }, "at {} {}", x, y);
        }
    }
}

#[test]
fn process_draws_what_render_draws() {
    let table = CharPixelsMapper::new();
    let mut processed = Canvas::new(120, 40);
    let mut processor = TextProcessor::new();
    assert!(processor.process("Litwo!\n  OjczyznO moja;\n\nty jesteś", &mut processed, &table));
    let mut rendered = Canvas::new(120, 40);
    rendered.clear(PAPER);
    let lines = vec![
        "litwo!".to_string(),
        "ojczyzno moja,".to_string(),
        "".to_string(),
        "ty jestes".to_string(),
    ];
    assert_eq!(processor.lines(), &lines);
    render(&lines, &mut rendered, &table);
    assert_eq!(all_pixels(&processed), all_pixels(&rendered));
    assert!(all_pixels(&processed).contains(&INK));
}

#[test]
fn process_of_empty_lines_leaves_a_blank_canvas() {
    let mut canvas = Canvas::new(50, 30);
    let table = CharPixelsMapper::new();
    let mut processor = TextProcessor::new();
    assert!(processor.process("\n   \n\n\t\n", &mut canvas, &table));
    assert_eq!(processor.lines().len(), 4);
    assert!(all_pixels(&canvas).iter().all(|color| *color == PAPER));
}

#[test]
fn process_of_nothing_leaves_a_blank_canvas() {
    let mut canvas = Canvas::new(50, 30);
    let table = CharPixelsMapper::new();
    let mut processor = TextProcessor::new();
    assert!(processor.process("", &mut canvas, &table));
    assert!(processor.lines().is_empty());
    assert!(all_pixels(&canvas).iter().all(|color| *color == PAPER));
}

#[test]
fn process_refuses_text_that_does_not_fit() {
    let mut canvas = Canvas::new(50, 30);
    canvas.clear(RED);
    canvas.set_pixel(3, 3, INK);
    let before = all_pixels(&canvas);
    let table = CharPixelsMapper::new();
    let mut processor = TextProcessor::new();
    assert!(!processor.process("ab\nabc", &mut canvas, &table));
    assert_eq!(all_pixels(&canvas), before);
    assert_eq!(processor.lines(), &vec!["ab".to_string(), "abc".to_string()]);
}

#[test]
fn process_keeps_the_lines_of_the_last_text() {
    let mut canvas = Canvas::new(80, 30);
    let table = CharPixelsMapper::new();
    let mut processor = TextProcessor::new();
    assert!(processor.process("one\ntwo", &mut canvas, &table));
    assert!(processor.process("three", &mut canvas, &table));
    assert_eq!(processor.lines(), &vec!["three".to_string()]);
}

#[test]
fn process_with_a_custom_table() {
    let mut table = CharPixelsMapper::empty();
    for c in ['a', 'b', 'c', 'd'] {
        table.insert(c, GlyphPattern::new(vec![1, 0, 1]).unwrap());
    }
    let mut canvas = Canvas::new(100, 50);
    let mut processor = TextProcessor::new();
    assert!(processor.process("AB\n\nCD", &mut canvas, &table));
    let mut ink = Vec::new();
    for y in 0..50 {
        for x in 0..100 {
            if canvas.get_pixel(x, y) == INK {
                ink.push((x, y));
            }
        }
    }
    assert_eq!(
        ink,
        vec![(45, 6), (47, 6), (45, 8), (47, 8), (45, 10), (47, 10), (45, 12), (47, 12)]
    );
}

#[test]
fn process_on_the_standard_canvas() {
    let mut canvas = Canvas::new(3840, 2160);
    let table = CharPixelsMapper::new();
    let mut processor = TextProcessor::new();
    assert!(processor.process("ab", &mut canvas, &table));
    assert_eq!(canvas.get_pixel(45, 6), PAPER);
    assert_eq!(canvas.get_pixel(46, 6), INK);
    assert_eq!(canvas.get_pixel(47, 6), PAPER);
    assert_eq!(canvas.get_pixel(48, 6), PAPER);
    assert_eq!(canvas.get_pixel(49, 6), INK);
    assert_eq!(canvas.get_pixel(50, 6), INK);
    assert_eq!(canvas.get_pixel(51, 6), PAPER);
    assert_eq!(canvas.get_pixel(0, 0), PAPER);
    assert_eq!(canvas.get_pixel(3839, 2159), PAPER);
}

#[test]
fn standard_canvas_holds_536_lines_per_column() {
    let mut canvas = Canvas::new(3840, 2160);
    let table = CharPixelsMapper::new();
    let mut processor = TextProcessor::new();
    let text = "i\n".repeat(538);
    assert!(processor.process(&text, &mut canvas, &table));
    assert_eq!(processor.lines().len(), 538);
    // lines start at rows 6, 10, ..; the last that fits starts at 2146
    assert_eq!(canvas.get_pixel(45, 2146), INK);
    assert_eq!(canvas.get_pixel(45, 2148), INK);
    assert_eq!(canvas.get_pixel(45, 2150), PAPER);
    // the two lines left over open the next column
    assert_eq!(canvas.get_pixel(49, 8), INK);
    assert_eq!(canvas.get_pixel(49, 12), INK);
    assert_eq!(canvas.get_pixel(49, 16), PAPER);
    assert_eq!(canvas.get_pixel(49, 6), PAPER);
}
