use poem::glyph::GlyphPattern;
use poem::mapper::CharPixelsMapper;

fn standard_font() -> Vec<(char, Vec<u8>)> {
    vec![
        ('a', vec![0, 1, 0, 1, 1, 1, 1, 0, 1]),
        ('b', vec![1, 1, 0, 1, 1, 1, 1, 1, 1]),
        ('c', vec![1, 1, 1, 0, 1, 1]),
        ('d', vec![1, 1, 0, 1, 0, 1, 1, 1, 0]),
        ('e', vec![1, 1, 1, 1, 1, 0, 1, 1, 1]),
        ('f', vec![1, 1, 1, 1, 1, 0, 1, 0, 0]),
        ('g', vec![1, 0, 0, 1, 0, 1, 1, 1, 1]),
        ('h', vec![1, 0, 1, 1, 1, 1, 1, 0, 1]),
        ('i', vec![1, 1, 1]),
        ('j', vec![0, 0, 1, 1, 0, 1, 1, 1, 1]),
        ('k', vec![1, 0, 1, 1, 1, 0, 1, 0, 1]),
        ('l', vec![1, 0, 1, 0, 1, 1]),
        ('m', vec![1, 1, 0, 0, 1, 1, 0, 0, 1]),
        ('n', vec![1, 1, 1, 1, 0, 1, 1, 0, 1]),
        ('o', vec![1, 1, 1, 1, 0, 1, 1, 1, 1]),
        ('p', vec![1, 1, 1, 1, 1, 1, 1, 0, 0]),
        ('q', vec![1, 1, 1, 1, 1, 1, 0, 0, 1]),
        ('r', vec![1, 1, 1, 0, 1, 0]),
        ('s', vec![0, 1, 1, 0, 1, 0, 1, 1, 0]),
        ('t', vec![1, 1, 1, 0, 1, 0, 0, 1, 0]),
        ('u', vec![1, 0, 1, 1, 0, 1, 1, 1, 1]),
        ('v', vec![1, 0, 1, 1, 0, 1, 0, 1, 0]),
        ('w', vec![1, 0, 0, 1, 1, 0, 0, 1, 1]),
        ('x', vec![1, 0, 1, 0, 1, 0, 1, 0, 1]),
        ('y', vec![1, 0, 1, 1, 1, 1, 0, 1, 0]),
        ('z', vec![1, 1, 0, 0, 1, 0, 0, 1, 1]),
        ('.', vec![0, 0, 1]),
        (',', vec![0, 1, 1]),
        ('"', vec![1, 0, 1, 0, 0, 0, 0, 0, 0]),
        ('(', vec![0, 1, 1, 0, 0, 1]),
        (')', vec![1, 0, 0, 1, 1, 0]),
        ('!', vec![1, 1, 0]),
        ('?', vec![1, 1, 0, 0, 0, 1]),
        (':', vec![1, 0, 1]),
        ('-', vec![0, 0, 1, 1, 0, 0]),
        ('1', vec![1, 1, 0, 1, 0, 1]),
        ('2', vec![1, 1, 0, 0, 1, 0, 0, 1, 1]),
        ('8', vec![0, 1, 1, 1, 1, 1, 1, 1, 0]),
    ]
}

#[test]
fn pattern_accepts_three_rows_of_dots() {
    let pattern = GlyphPattern::new(vec![1, 1, 1, 0, 1, 1]).unwrap();
    assert_eq!(pattern.columns(), 2);
    assert_eq!(pattern.bits(), vec![1, 1, 1, 0, 1, 1]);
    assert!(pattern.dot(0, 0));
    assert!(pattern.dot(0, 1));
    assert!(pattern.dot(1, 0));
    assert!(!pattern.dot(1, 1));
    assert!(pattern.dot(2, 0));
    assert!(pattern.dot(2, 1));
}

#[test]
fn pattern_rejects_length_not_divisible_by_three() {
    assert!(GlyphPattern::new(vec![1]).is_none());
    assert!(GlyphPattern::new(vec![1, 0]).is_none());
    assert!(GlyphPattern::new(vec![1, 0, 1, 1]).is_none());
    assert!(GlyphPattern::new(vec![1, 0, 1, 1, 0, 1, 1, 0]).is_none());
}

#[test]
fn pattern_rejects_values_other_than_zero_and_one() {
    assert!(GlyphPattern::new(vec![1, 0, 2]).is_none());
    assert!(GlyphPattern::new(vec![255, 0, 1]).is_none());
    assert!(GlyphPattern::new(vec![0, 0, 0, 0, 0, 3]).is_none());
}

#[test]
fn pattern_without_columns_is_accepted() {
    let pattern = GlyphPattern::new(vec![]).unwrap();
    assert_eq!(pattern.columns(), 0);
    assert_eq!(pattern.bits(), Vec::<u8>::new());
}

#[test]
fn pattern_clone_keeps_the_dots() {
    let pattern = GlyphPattern::new(vec![0, 1, 0]).unwrap();
    assert_eq!(pattern.clone().bits(), vec![0, 1, 0]);
}

#[test]
fn standard_table_holds_the_whole_font() {
    let table = CharPixelsMapper::new();
    for (c, bits) in standard_font() {
        let pattern = table.lookup(c);
        assert!(pattern.is_some(), "no glyph for {:?}", c);
        assert_eq!(pattern.unwrap().bits(), bits, "glyph of {:?}", c);
    }
}

#[test]
fn standard_patterns_have_three_rows() {
    let table = CharPixelsMapper::new();
    for (c, _) in standard_font() {
        let pattern = table.lookup(c).unwrap();
        let bits = pattern.bits();
        assert_eq!(bits.len() % 3, 0);
        assert_eq!(pattern.columns(), bits.len() / 3);
        assert!(bits.iter().all(|b| *b <= 1));
    }
}

#[test]
fn standard_table_holds_nothing_else() {
    let table = CharPixelsMapper::new();
    let known: Vec<char> = standard_font().into_iter().map(|(c, _)| c).collect();
    for code in 0u32..0x3000 {
        if let Some(c) = char::from_u32(code) {
            assert_eq!(table.lookup(c).is_some(), known.contains(&c), "{:?}", c);
        }
    }
}

#[test]
fn standard_table_has_three_digits_only() {
    let table = CharPixelsMapper::new();
    for c in ['0', '3', '4', '5', '6', '7', '9'] {
        assert!(table.lookup(c).is_none());
    }
    for c in ['1', '2', '8'] {
        assert!(table.lookup(c).is_some());
    }
}

#[test]
fn lookup_is_case_sensitive() {
    let table = CharPixelsMapper::new();
    assert!(table.lookup('a').is_some());
    assert!(table.lookup('A').is_none());
    assert!(table.lookup('Z').is_none());
}

#[test]
fn empty_table_has_no_glyph() {
    let table = CharPixelsMapper::empty();
    assert!(table.lookup('a').is_none());
    assert!(table.lookup(' ').is_none());
}

#[test]
fn insert_adds_and_replaces() {
    let mut table = CharPixelsMapper::empty();
    table.insert('a', GlyphPattern::new(vec![1, 0, 1]).unwrap());
    assert_eq!(table.lookup('a').unwrap().bits(), vec![1, 0, 1]);
    assert!(table.lookup('b').is_none());
    table.insert('a', GlyphPattern::new(vec![0, 1, 0]).unwrap());
    assert_eq!(table.lookup('a').unwrap().bits(), vec![0, 1, 0]);
    table.insert('\u{142}', GlyphPattern::new(vec![1, 1, 1]).unwrap());
    assert_eq!(table.lookup('\u{142}').unwrap().bits(), vec![1, 1, 1]);
    assert!(table.lookup('l').is_none());
}

#[test]
fn cloned_table_keeps_its_glyphs() {
    let table = CharPixelsMapper::new();
    let copy = table.clone();
    assert_eq!(copy.lookup('k').unwrap().bits(), vec![1, 0, 1, 1, 1, 0, 1, 0, 1]);
    assert!(copy.lookup('#').is_none());
}
