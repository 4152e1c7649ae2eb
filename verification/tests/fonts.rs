use trayplay::fonts::{family_name, index_fonts, is_font, needs_writing, FontFile};

/// A name in a font: its platform, its number and its bytes.
type Name = (u16, u16, Vec<u8>);

fn push16(out: &mut Vec<u8>, n: usize) {
    out.extend_from_slice(&(n as u16).to_be_bytes());
}

fn push32(out: &mut Vec<u8>, n: usize) {
    out.extend_from_slice(&(n as u32).to_be_bytes());
}

/// A font with one other table in front of its table of names, standing at `start` in its file.
fn font_at(start: usize, names: &[Name]) -> Vec<u8> {
    let mut out = vec![0, 1, 0, 0];
    push16(&mut out, 2);
    out.extend_from_slice(&[0; 6]);
    for tag in [b"head", b"name"] {
        out.extend_from_slice(tag);
        push32(&mut out, 0);
        push32(&mut out, start + 44);
        push32(&mut out, 0);
    }
    push16(&mut out, 0);
    push16(&mut out, names.len());
    push16(&mut out, 6 + 12 * names.len());
    let mut offset = 0;
    for (platform, id, text) in names {
        push16(&mut out, *platform as usize);
        push16(&mut out, 0);
        push16(&mut out, 0);
        push16(&mut out, *id as usize);
        push16(&mut out, text.len());
        push16(&mut out, offset);
        offset += text.len();
    }
    for (_, _, text) in names {
        out.extend_from_slice(text);
    }
    out
}

fn font(names: &[Name]) -> Vec<u8> {
    font_at(0, names)
}

fn wide(text: &str) -> Vec<u8> {
    text.encode_utf16().flat_map(|unit| unit.to_be_bytes()).collect()
}

fn family(names: &[Name]) -> Option<String> {
    family_name(&font(names))
}

#[test]
fn the_typographic_family_goes_first() {
    let legacy = (3, 1, wide("Inter Semibold"));
    let typographic = (3, 16, wide("Inter"));
    assert_eq!(family(&[legacy.clone()]).as_deref(), Some("Inter Semibold"));
    assert_eq!(family(&[legacy.clone(), typographic.clone()]).as_deref(), Some("Inter"));
    assert_eq!(family(&[typographic, legacy]).as_deref(), Some("Inter"));
    assert_eq!(family(&[(3, 1, wide("One")), (3, 1, wide("Two"))]).as_deref(), Some("One"));
}

#[test]
fn names_are_read_as_their_platform_writes_them() {
    assert_eq!(family(&[(1, 1, b"Caf\xe9".to_vec())]).as_deref(), Some("Café"));
    assert_eq!(family(&[(0, 1, wide("日本𝄞"))]).as_deref(), Some("日本𝄞"));
    // An odd byte at the end is left out.
    let mut odd = wide("Asap");
    odd.push(0);
    assert_eq!(family(&[(3, 1, odd)]).as_deref(), Some("Asap"));
}

#[test]
fn blank_and_other_names_are_passed_over() {
    let blank = (3, 16, wide(" \t"));
    assert_eq!(family(&[blank.clone(), (3, 1, wide("  Asap "))]).as_deref(), Some("Asap"));
    assert_eq!(family(&[blank]), None);
    assert_eq!(family(&[(3, 2, wide("Bold")), (3, 4, wide("Asap Bold"))]), None);
    assert_eq!(family(&[]), None);
}

#[test]
fn broken_fonts_have_no_family() {
    let whole = font(&[(3, 16, wide("Inter")), (3, 1, wide("Inter Bold"))]);
    assert!(family_name(&whole).is_some());
    for len in 0..whole.len() {
        assert_eq!(family_name(&whole[..len]), None);
    }
    // A surrogate alone, in either half, spoils the whole font.
    let inter = (3, 16, wide("Inter"));
    assert_eq!(family(&[inter.clone(), (3, 1, vec![0xd8, 0x00])]), None);
    assert_eq!(family(&[inter.clone(), (3, 1, vec![0xd8, 0x00, 0x00, 0x41])]), None);
    assert_eq!(family(&[inter, (3, 1, vec![0xdc, 0x00])]), None);
    // No table of names.
    let mut nameless = whole;
    nameless[28..32].copy_from_slice(b"glyf");
    assert_eq!(family_name(&nameless), None);
}

#[test]
fn a_collection_is_called_what_its_first_font_is() {
    let mut out = b"ttcf".to_vec();
    out.extend_from_slice(&[0, 1, 0, 0, 0, 0, 0, 1]);
    push32(&mut out, 16);
    let inner = font_at(16, &[(3, 1, wide("Westernic"))]);
    out.extend_from_slice(&inner);
    assert_eq!(family_name(&out).as_deref(), Some("Westernic"));
    assert_eq!(family_name(&out[..14]), None);
}

#[test]
fn files_are_fonts_by_their_extension() {
    assert!(is_font("Asap-Regular.otf"));
    assert!(is_font("Chicoree Em. Bold.OtF"));
    assert!(is_font("Pixelbasel.ttf"));
    assert!(is_font("a.ttc"));
    assert!(!is_font(".ttf"));
    assert!(!is_font("ttf"));
    assert!(!is_font("OFL.txt"));
    assert!(!is_font("a.otc"));
    assert!(!is_font("a.woff2"));
}

#[test]
fn fonts_are_listed_by_file_name() {
    let file = |name: &str, bytes: Vec<u8>| FontFile { name: name.to_string(), bytes };
    let named = |family: &str| font(&[(3, 1, wide(family))]);
    let fonts = index_fonts(&vec![
        file("b.ttf", named("Second")),
        file("README.md", named("No font")),
        file("c.otf", vec![1, 2, 3]),
        file("a.otf", named("First")),
        file("b.ttf.ttc", named("Third")),
        file("B.ttf", named("Upper case")),
    ]);
    let listed: Vec<(&str, &str)> =
        fonts.iter().map(|font| (font.file.as_str(), font.family.as_str())).collect();
    assert_eq!(
        listed,
        vec![
            ("B.ttf", "Upper case"),
            ("a.otf", "First"),
            ("b.ttf", "Second"),
            ("b.ttf.ttc", "Third"),
        ]
    );
    assert!(index_fonts(&vec![]).is_empty());
}

#[test]
fn fonts_are_written_where_they_differ_in_size() {
    assert!(needs_writing(None, 0));
    assert!(needs_writing(Some(9), 10));
    assert!(!needs_writing(Some(10), 10));
}
