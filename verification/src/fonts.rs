//! The bundled fonts: which files are fonts, and what each of them is called.
//!
//! Dropping a font into the directory is the whole procedure, so its family is read out of the
//! font itself.

use vstd::prelude::*;

use crate::text;
use crate::text::{string_of, trim_chars};

verus! {

/// `char::from_u32` gives the character with that code point, and none for a number that is no
/// code point or is a surrogate.
pub assume_specification[ char::from_u32 ](i: u32) -> (r: Option<char>)
    ensures
        match r {
            Some(c) => c as u32 == i,
            None => i > 0x10ffff || 0xd800 <= i <= 0xdfff,
        },
;

// ---------------------------------------------------------------------------------------
// UTF-16.
// ---------------------------------------------------------------------------------------

/// A code unit that starts a pair.
pub open spec fn is_leading(unit: u16) -> bool {
    0xd800 <= unit <= 0xdbff
}

/// A code unit that ends a pair.
pub open spec fn is_trailing(unit: u16) -> bool {
    0xdc00 <= unit <= 0xdfff
}

/// The code point that a pair stands for.
pub open spec fn paired(leading: u16, trailing: u16) -> int {
    0x10000 + (leading - 0xd800) * 0x400 + (trailing - 0xdc00)
}

/// `first` followed by the rest, if there is one.
pub open spec fn preceded(first: Seq<char>, rest: Option<Seq<char>>) -> Option<Seq<char>> {
    match rest {
        Some(rest) => Some(first + rest),
        None => None,
    }
}

/// The text that UTF-16 code units stand for. None where a surrogate has no partner.
pub open spec fn utf16(units: Seq<u16>) -> Option<Seq<char>>
    decreases units.len(),
{
    if units.len() == 0 {
        Some(Seq::empty())
    } else if !is_leading(units[0]) && !is_trailing(units[0]) {
        preceded(seq![units[0] as char], utf16(units.skip(1)))
    } else if is_leading(units[0]) && units.len() > 1 && is_trailing(units[1]) {
        preceded(seq![paired(units[0], units[1]) as char], utf16(units.skip(2)))
    } else {
        None
    }
}

proof fn lemma_known_by_code_point(c: char, code: u32)
    requires
        c as u32 == code,
    ensures
        c == code as char,
{
}

fn decode_utf16(units: &Vec<u16>) -> (r: Option<Vec<char>>)
    ensures
        utf16(units@) == (match r {
            Some(chars) => Some(chars@),
            None => None,
        }),
{
    let mut r: Vec<char> = Vec::new();
    let mut i: usize = 0;
    proof {
        assert(units@.skip(0) =~= units@);
        if utf16(units@) is Some {
            assert(r@ + utf16(units@).unwrap() =~= utf16(units@).unwrap());
        }
    }
    while i < units.len()
        invariant
            i <= units@.len(),
            utf16(units@) == preceded(r@, utf16(units@.skip(i as int))),
        decreases units@.len() - i,
    {
        let ghost before = r@;
        let ghost left = units@.skip(i as int);
        let unit = units[i];
        let mut code: u32 = unit as u32;
        let mut used: usize = 1;
        assert(left[0] == unit);
        if 0xd800 <= unit && unit <= 0xdfff {
            if unit > 0xdbff || units.len() - i < 2 {
                return None;
            }
            let next = units[i + 1];
            assert(left[1] == next);
            if next < 0xdc00 || next > 0xdfff {
                return None;
            }
            code = 0x10000 + (unit as u32 - 0xd800) * 0x400 + (next as u32 - 0xdc00);
            used = 2;
        }
        match char::from_u32(code) {
            Some(c) => {
                r.push(c);
                proof {
                    let rest = left.skip(used as int);
                    assert(rest =~= units@.skip(i + used));
                    lemma_known_by_code_point(c, code);
                    assert(used == 2 ==> code == paired(left[0], left[1]));
                    assert(utf16(left) == preceded(seq![c], utf16(rest)));
                    if utf16(rest) is Some {
                        let tail = utf16(rest).unwrap();
                        assert(before + (seq![c] + tail) =~= r@ + tail);
                    }
                }
            },
            None => {
                return None;
            },
        }
        i += used;
    }
    proof {
        assert(units@.skip(i as int).len() == 0);
        assert(r@ + Seq::<char>::empty() =~= r@);
    }
    Some(r)
}

// ---------------------------------------------------------------------------------------
// The names in a font.
// ---------------------------------------------------------------------------------------

/// How a collection of fonts starts.
pub const COLLECTION_TAG: u32 = 0x7474_6366;

/// What the table of names is called.
pub const NAME_TAG: u32 = 0x6e61_6d65;

/// The legacy family, which for a font of many weights names one of them too.
pub const LEGACY_FAMILY: u16 = 1;

/// The typographic family.
pub const TYPOGRAPHIC_FAMILY: u16 = 16;

/// The platform whose names are one byte per character.
pub const MACINTOSH: u16 = 1;

/// The two bytes at `at`, the high one first. None where the file is cut short.
pub open spec fn be16(bytes: Seq<u8>, at: int) -> Option<int> {
    if 0 <= at && at + 2 <= bytes.len() {
        Some(bytes[at] * 0x100 + bytes[at + 1])
    } else {
        None
    }
}

/// The four bytes at `at`, the highest one first. None where the file is cut short.
pub open spec fn be32(bytes: Seq<u8>, at: int) -> Option<int> {
    if 0 <= at && at + 4 <= bytes.len() {
        Some(
            bytes[at] * 0x100_0000 + bytes[at + 1] * 0x1_0000 + bytes[at + 2] * 0x100 + bytes[at
                + 3],
        )
    } else {
        None
    }
}

/// Where the font starts: in a collection, where its first font does.
pub open spec fn font_start(bytes: Seq<u8>) -> Option<int> {
    match be32(bytes, 0) {
        Some(tag) => if tag == COLLECTION_TAG {
            be32(bytes, 12)
        } else {
            Some(0)
        },
        None => None,
    }
}

/// Where the table of names starts, looked for among the tables from the one at `index` on.
pub open spec fn name_table_from(bytes: Seq<u8>, start: int, index: int, count: int) -> Option<int>
    decreases count - index,
{
    if index >= count {
        None
    } else {
        let record = start + 12 + index * 16;
        match be32(bytes, record) {
            Some(tag) => if tag == NAME_TAG {
                be32(bytes, record + 8)
            } else {
                name_table_from(bytes, start, index + 1, count)
            },
            None => None,
        }
    }
}

/// Where the table of names starts.
pub open spec fn name_table(bytes: Seq<u8>) -> Option<int> {
    match font_start(bytes) {
        Some(start) => match be16(bytes, start + 4) {
            Some(count) => name_table_from(bytes, start, 0, count),
            None => None,
        },
        None => None,
    }
}

/// The code units in bytes, the high byte of each first. An odd byte at the end is left out.
pub open spec fn units_of(raw: Seq<u8>) -> Seq<u16> {
    Seq::new(raw.len() / 2, |i: int| (raw[2 * i] * 0x100 + raw[2 * i + 1]) as u16)
}

/// The text of a name of this platform.
pub open spec fn name_text(platform: int, raw: Seq<u8>) -> Option<Seq<char>> {
    if platform == MACINTOSH {
        Some(raw.map_values(|b: u8| b as char))
    } else {
        utf16(units_of(raw))
    }
}

/// A name in a font. The text of one that is no family is not looked at, and is empty here.
#[verifier::ext_equal]
pub struct NameView {
    pub id: int,
    pub text: Seq<char>,
}

/// The name with this number. None where the file is cut short in it, or its text is broken.
pub open spec fn name_at(bytes: Seq<u8>, table: int, storage: int, index: int) -> Option<NameView> {
    let record = table + 6 + index * 12;
    match (be16(bytes, record), be16(bytes, record + 6)) {
        (Some(platform), Some(id)) => if id != LEGACY_FAMILY && id != TYPOGRAPHIC_FAMILY {
            Some(NameView { id, text: Seq::empty() })
        } else {
            match (be16(bytes, record + 8), be16(bytes, record + 10)) {
                (Some(length), Some(offset)) => {
                    let from = storage + offset;
                    if from + length > bytes.len() {
                        None
                    } else {
                        match name_text(platform, bytes.subrange(from, from + length)) {
                            Some(text) => Some(NameView { id, text: text::trimmed(text) }),
                            None => None,
                        }
                    }
                },
                _ => None,
            }
        },
        _ => None,
    }
}

/// The first name of this kind that is not blank.
pub open spec fn first_named(names: Seq<NameView>, id: int) -> Option<Seq<char>>
    decreases names.len(),
{
    if names.len() == 0 {
        None
    } else {
        match first_named(names.drop_last(), id) {
            Some(text) => Some(text),
            None => if names.last().id == id && names.last().text.len() > 0 {
                Some(names.last().text)
            } else {
                None
            },
        }
    }
}

/// The family that names give: the typographic one where there is one, else the legacy one.
pub open spec fn family_in(names: Seq<NameView>) -> Option<Seq<char>> {
    match first_named(names, TYPOGRAPHIC_FAMILY as int) {
        Some(text) => Some(text),
        None => first_named(names, LEGACY_FAMILY as int),
    }
}

/// The first `count` names.
pub open spec fn names_of(bytes: Seq<u8>, table: int, storage: int, count: int) -> Seq<NameView> {
    Seq::new(count as nat, |i: int| name_at(bytes, table, storage, i).unwrap())
}

/// What a font is called. None where the file is cut short before all names have been looked at,
/// or one of its families is broken.
pub open spec fn family_of(bytes: Seq<u8>) -> Option<Seq<char>> {
    match name_table(bytes) {
        Some(table) => match (be16(bytes, table + 2), be16(bytes, table + 4)) {
            (Some(count), Some(offset)) => if forall|i: int|
                0 <= i < count ==> (#[trigger] name_at(bytes, table, table + offset, i)) is Some {
                family_in(names_of(bytes, table, table + offset, count))
            } else {
                None
            },
            _ => None,
        },
        None => None,
    }
}

fn read_u16(bytes: &[u8], at: u64) -> (r: Option<u16>)
    ensures
        be16(bytes@, at as int) == (match r {
            Some(n) => Some(n as int),
            None => None,
        }),
{
    let len: u64 = bytes.len() as u64;
    if len < 2 || at > len - 2 {
        return None;
    }
    let at: usize = at as usize;
    Some(bytes[at] as u16 * 0x100 + bytes[at + 1] as u16)
}

fn read_u32(bytes: &[u8], at: u64) -> (r: Option<u32>)
    ensures
        be32(bytes@, at as int) == (match r {
            Some(n) => Some(n as int),
            None => None,
        }),
{
    let len: u64 = bytes.len() as u64;
    if len < 4 || at > len - 4 {
        return None;
    }
    let at: usize = at as usize;
    Some(
        bytes[at] as u32 * 0x100_0000 + bytes[at + 1] as u32 * 0x1_0000 + bytes[at + 2] as u32
            * 0x100 + bytes[at + 3] as u32,
    )
}

fn find_name_table(bytes: &[u8]) -> (r: Option<u32>)
    ensures
        name_table(bytes@) == (match r {
            Some(n) => Some(n as int),
            None => None,
        }),
{
    let start: u64 = match read_u32(bytes, 0) {
        Some(COLLECTION_TAG) => match read_u32(bytes, 12) {
            Some(n) => n as u64,
            None => return None,
        },
        Some(_) => 0,
        None => return None,
    };
    let count: u64 = match read_u16(bytes, start + 4) {
        Some(n) => n as u64,
        None => return None,
    };
    let mut index: u64 = 0;
    while index < count
        invariant
            index <= count <= 0xffff,
            start <= 0xffff_ffff,
            name_table(bytes@) == name_table_from(bytes@, start as int, index as int, count as int),
        decreases count - index,
    {
        let record: u64 = start + 12 + index * 16;
        match read_u32(bytes, record) {
            Some(NAME_TAG) => return read_u32(bytes, record + 8),
            Some(_) => {},
            None => return None,
        }
        index += 1;
    }
    None
}

fn bytes_of(bytes: &[u8], from: usize, to: usize) -> (r: Vec<u8>)
    requires
        from <= to <= bytes@.len(),
    ensures
        r@ == bytes@.subrange(from as int, to as int),
{
    let mut r: Vec<u8> = Vec::new();
    let mut i: usize = from;
    while i < to
        invariant
            from <= i <= to <= bytes@.len(),
            r@ == bytes@.subrange(from as int, i as int),
        decreases to - i,
    {
        r.push(bytes[i]);
        i += 1;
        assert(r@ =~= bytes@.subrange(from as int, i as int));
    }
    r
}

fn read_text(platform: u16, raw: &Vec<u8>) -> (r: Option<Vec<char>>)
    ensures
        name_text(platform as int, raw@) == (match r {
            Some(chars) => Some(chars@),
            None => None,
        }),
{
    let mut i: usize = 0;
    if platform == MACINTOSH {
        let mut chars: Vec<char> = Vec::new();
        let ghost all = raw@.map_values(|b: u8| b as char);
        while i < raw.len()
            invariant
                i <= raw@.len(),
                all == raw@.map_values(|b: u8| b as char),
                chars@ == all.take(i as int),
            decreases raw@.len() - i,
        {
            chars.push(raw[i] as char);
            i += 1;
            assert(chars@ =~= all.take(i as int));
        }
        assert(chars@ =~= all);
        return Some(chars);
    }
    let mut units: Vec<u16> = Vec::new();
    while raw.len() - i >= 2
        invariant
            i <= raw@.len(),
            i == 2 * units@.len(),
            units@ =~= units_of(raw@).take(units@.len() as int),
        decreases raw@.len() - i,
    {
        let unit: u16 = raw[i] as u16 * 0x100 + raw[i + 1] as u16;
        units.push(unit);
        i += 2;
    }
    assert(units@ =~= units_of(raw@));
    decode_utf16(&units)
}

fn read_name(bytes: &[u8], table: u32, storage: u64, index: u16) -> (r: Option<(u16, String)>)
    requires
        storage <= 0x1_0000_ffff,
    ensures
        name_at(bytes@, table as int, storage as int, index as int) == (match r {
            Some(name) => Some(NameView { id: name.0 as int, text: name.1@ }),
            None => None,
        }),
{
    let record: u64 = table as u64 + 6 + index as u64 * 12;
    let platform = match read_u16(bytes, record) {
        Some(n) => n,
        None => return None,
    };
    let id = match read_u16(bytes, record + 6) {
        Some(n) => n,
        None => return None,
    };
    if id != LEGACY_FAMILY && id != TYPOGRAPHIC_FAMILY {
        return Some((id, String::new()));
    }
    let length: u64 = match read_u16(bytes, record + 8) {
        Some(n) => n as u64,
        None => return None,
    };
    let offset: u64 = match read_u16(bytes, record + 10) {
        Some(n) => n as u64,
        None => return None,
    };
    let from: u64 = storage + offset;
    let len: u64 = bytes.len() as u64;
    if from + length > len {
        return None;
    }
    let raw = bytes_of(bytes, from as usize, (from + length) as usize);
    match read_text(platform, &raw) {
        Some(chars) => Some((id, string_of(trim_chars(chars.as_slice()).as_slice()))),
        None => None,
    }
}

/// What a font is called: its typographic family, or else its legacy one, whichever of them comes
/// first and is not blank. A font that cannot be read has none.
pub fn family_name(bytes: &[u8]) -> (r: Option<String>)
    ensures
        text::text_opt(r) == family_of(bytes@),
{
    let table = match find_name_table(bytes) {
        Some(n) => n,
        None => return None,
    };
    let count = match read_u16(bytes, table as u64 + 2) {
        Some(n) => n,
        None => return None,
    };
    let storage: u64 = match read_u16(bytes, table as u64 + 4) {
        Some(n) => table as u64 + n as u64,
        None => return None,
    };
    let ghost names = names_of(bytes@, table as int, storage as int, count as int);
    let mut typographic: Option<String> = None;
    let mut legacy: Option<String> = None;
    let mut index: u16 = 0;
    while index < count
        invariant
            index <= count,
            storage <= 0x1_0000_ffff,
            names == names_of(bytes@, table as int, storage as int, count as int),
            forall|i: int|
                0 <= i < index ==> (#[trigger] name_at(
                    bytes@,
                    table as int,
                    storage as int,
                    i,
                )) is Some,
            text::text_opt(typographic) == first_named(
                names.take(index as int),
                TYPOGRAPHIC_FAMILY as int,
            ),
            text::text_opt(legacy) == first_named(names.take(index as int), LEGACY_FAMILY as int),
            name_table(bytes@) == Some(table as int),
            be16(bytes@, table + 2) == Some(count as int),
            be16(bytes@, table + 4) == Some(storage - table),
        decreases count - index,
    {
        let (id, name) = match read_name(bytes, table, storage, index) {
            Some(name) => name,
            None => {
                assert(name_at(bytes@, table as int, table + (storage - table), index as int)
                    is None);
                return None;
            },
        };
        proof {
            let next = names.take(index + 1);
            assert(next.drop_last() =~= names.take(index as int));
            assert(next.last() == (NameView { id: id as int, text: name@ }));
        }
        if !name.as_str().is_empty() {
            if id == TYPOGRAPHIC_FAMILY && typographic.is_none() {
                typographic = Some(name);
            } else if id == LEGACY_FAMILY && legacy.is_none() {
                legacy = Some(name);
            }
        }
        index += 1;
    }
    assert(names.take(index as int) =~= names);
    match typographic {
        Some(name) => Some(name),
        None => legacy,
    }
}

// ---------------------------------------------------------------------------------------
// The directory of fonts.
// ---------------------------------------------------------------------------------------

/// Whether a file is taken for a font, by its name: there is something before one of the three
/// extensions, whose case does not count.
pub open spec fn named_as_font(name: Seq<char>) -> bool {
    let extension = text::ascii_lowercase(name.skip(name.len() - 3));
    name.len() > 4 && name[name.len() - 4] == '.' && (extension == seq!['t', 't', 'f'] || extension
        == seq!['o', 't', 'f'] || extension == seq!['t', 't', 'c'])
}

fn is_letter(c: char, lower: char, upper: char) -> (r: bool)
    requires
        'a' <= lower <= 'z',
        upper as u32 + 0x20 == lower as u32,
    ensures
        r == (text::ascii_lowercase(seq![c])[0] == lower),
{
    c == lower || c == upper
}

/// Whether a file is taken for a font.
pub fn is_font(name: &str) -> (r: bool)
    ensures
        r == named_as_font(name@),
{
    let chars = text::chars_of(name);
    let n = chars.len();
    if n <= 4 || chars[n - 4] != '.' {
        return false;
    }
    let (a, b, c) = (chars[n - 3], chars[n - 2], chars[n - 1]);
    let t = is_letter(b, 't', 'T');
    let r = t && ((is_letter(a, 't', 'T') && (is_letter(c, 'f', 'F') || is_letter(c, 'c', 'C')))
        || (is_letter(a, 'o', 'O') && is_letter(c, 'f', 'F')));
    proof {
        let extension = text::ascii_lowercase(name@.skip(n - 3));
        assert(extension.len() == 3);
        assert(extension[0] == text::ascii_lowercase(seq![a])[0]);
        assert(extension[1] == text::ascii_lowercase(seq![b])[0]);
        assert(extension[2] == text::ascii_lowercase(seq![c])[0]);
        assert(extension =~= seq![extension[0], extension[1], extension[2]]);
    }
    r
}

/// A file in the directory of fonts.
#[derive(Debug)]
pub struct FontFile {
    pub name: String,
    pub bytes: Vec<u8>,
}

/// A font that the panel can use.
#[derive(Debug)]
pub struct Font {
    pub file: String,
    pub family: String,
}

/// What a [`Font`] says.
#[verifier::ext_equal]
pub struct FontView {
    pub file: Seq<char>,
    pub family: Seq<char>,
}

impl View for Font {
    type V = FontView;

    open spec fn view(&self) -> FontView {
        FontView { file: self.file@, family: self.family@ }
    }
}

/// What each font of a list says.
pub open spec fn font_views(fonts: Seq<Font>) -> Seq<FontView> {
    fonts.map_values(|f: Font| f@)
}

/// The font in a file, if it is one that can be read.
pub open spec fn font_in(file: FontFile) -> Option<FontView> {
    match family_of(file.bytes@) {
        Some(family) => if named_as_font(file.name@) {
            Some(FontView { file: file.name@, family })
        } else {
            None
        },
        None => None,
    }
}

/// The fonts among files, as they come.
pub open spec fn fonts_in(files: Seq<FontFile>) -> Seq<FontView>
    decreases files.len(),
{
    if files.len() == 0 {
        Seq::empty()
    } else {
        match font_in(files.last()) {
            Some(font) => fonts_in(files.drop_last()).push(font),
            None => fonts_in(files.drop_last()),
        }
    }
}

/// Whether `a` comes before `b`, by their first characters that differ; a prefix comes first.
pub open spec fn comes_before(a: Seq<char>, b: Seq<char>) -> bool
    decreases a.len(),
{
    if b.len() == 0 {
        false
    } else if a.len() == 0 {
        true
    } else if a[0] == b[0] {
        comes_before(a.drop_first(), b.drop_first())
    } else {
        a[0] < b[0]
    }
}

/// Whether no font comes before the one in front of it.
pub open spec fn by_file_name(fonts: Seq<FontView>) -> bool {
    forall|i: int, j: int|
        0 <= i < j < fonts.len() ==> !comes_before(
            (#[trigger] fonts[j]).file,
            (#[trigger] fonts[i]).file,
        )
}

proof fn lemma_not_both_before(a: Seq<char>, b: Seq<char>)
    ensures
        comes_before(a, b) ==> !comes_before(b, a),
    decreases a.len(),
{
    if a.len() > 0 && b.len() > 0 {
        lemma_not_both_before(a.drop_first(), b.drop_first());
    }
}

proof fn lemma_not_before_is_transitive(a: Seq<char>, b: Seq<char>, c: Seq<char>)
    requires
        !comes_before(a, b),
        !comes_before(b, c),
    ensures
        !comes_before(a, c),
    decreases a.len(),
{
    if a.len() > 0 && b.len() > 0 && c.len() > 0 && a[0] == b[0] && b[0] == c[0] {
        lemma_not_before_is_transitive(a.drop_first(), b.drop_first(), c.drop_first());
    }
}

fn is_before(a: &str, b: &str) -> (r: bool)
    ensures
        r == comes_before(a@, b@),
{
    let x = text::chars_of(a);
    let y = text::chars_of(b);
    let mut i: usize = 0;
    assert(x@.skip(0) =~= x@);
    assert(y@.skip(0) =~= y@);
    while i < x.len() && i < y.len()
        invariant
            i <= x@.len(),
            i <= y@.len(),
            comes_before(a@, b@) == comes_before(x@.skip(i as int), y@.skip(i as int)),
        decreases x@.len() - i,
    {
        assert(x@.skip(i as int)[0] == x@[i as int]);
        assert(y@.skip(i as int)[0] == y@[i as int]);
        if x[i] != y[i] {
            return x[i] < y[i];
        }
        assert(x@.skip(i as int).drop_first() =~= x@.skip(i + 1));
        assert(y@.skip(i as int).drop_first() =~= y@.skip(i + 1));
        i += 1;
    }
    i < y.len()
}

fn insert_font(fonts: &mut Vec<Font>, font: Font)
    requires
        by_file_name(font_views(old(fonts)@)),
    ensures
        by_file_name(font_views(final(fonts)@)),
        font_views(final(fonts)@).to_multiset() == font_views(old(fonts)@).to_multiset().insert(
            font@,
        ),
{
    let ghost was = font_views(fonts@);
    let ghost new = font@;
    let mut at: usize = fonts.len();
    while at > 0 && is_before(font.file.as_str(), fonts[at - 1].file.as_str())
        invariant
            at <= fonts@.len(),
            was == font_views(fonts@),
            new == font@,
            forall|i: int|
                at <= i < was.len() ==> comes_before(new.file, (#[trigger] was[i]).file),
        decreases at,
    {
        at -= 1;
        assert(was[at as int] == fonts@[at as int]@);
    }
    proof {
        if at > 0 {
            assert(was[at - 1] == fonts@[at - 1]@);
        }
    }
    fonts.insert(at, font);
    proof {
        broadcast use vstd::seq_lib::group_to_multiset_ensures;

        let now = font_views(fonts@);
        assert(now =~= was.insert(at as int, new));
        assert forall|i: int, j: int| 0 <= i < j < now.len() implies !comes_before(
            (#[trigger] now[j]).file,
            (#[trigger] now[i]).file,
        ) by {
            if i == at {
                assert(now[j] == was[j - 1]);
                lemma_not_both_before(new.file, was[j - 1].file);
            } else if j == at {
                assert(now[i] == was[i]);
                if i < at - 1 {
                    lemma_not_before_is_transitive(new.file, was[at - 1].file, was[i].file);
                }
            } else {
                let a = if i < at {
                    i
                } else {
                    i - 1
                };
                let b = if j < at {
                    j
                } else {
                    j - 1
                };
                assert(now[i] == was[a]);
                assert(now[j] == was[b]);
            }
        }
    }
}

/// The fonts among files, in the order of the files' names, so that which album gets which font
/// does not depend on the order in which a directory is read. A file that is no font, or whose
/// family cannot be read, is passed over.
pub fn index_fonts(files: &Vec<FontFile>) -> (r: Vec<Font>)
    ensures
        by_file_name(font_views(r@)),
        font_views(r@).to_multiset() == fonts_in(files@).to_multiset(),
{
    let mut r: Vec<Font> = Vec::new();
    let mut i: usize = 0;
    assert(files@.take(0).len() == 0);
    assert(font_views(r@) =~= fonts_in(files@.take(0)));
    while i < files.len()
        invariant
            i <= files@.len(),
            by_file_name(font_views(r@)),
            font_views(r@).to_multiset() == fonts_in(files@.take(i as int)).to_multiset(),
        decreases files@.len() - i,
    {
        let file = &files[i];
        proof {
            broadcast use vstd::seq_lib::group_to_multiset_ensures;

            let next = files@.take(i + 1);
            assert(next.drop_last() =~= files@.take(i as int));
            assert(next.last() == file);
        }
        if is_font(file.name.as_str()) {
            if let Some(family) = family_name(file.bytes.as_slice()) {
                insert_font(&mut r, Font { file: file.name.clone(), family });
            }
        }
        i += 1;
    }
    assert(files@.take(i as int) =~= files@);
    r
}

/// Whether a bundled font has to be written where it is looked for, `on_disk` being how long a
/// file of its name there is.
pub fn needs_writing(on_disk: Option<u64>, len: u64) -> (r: bool)
    ensures
        r == (on_disk != Some(len)),
{
    match on_disk {
        Some(there) => there != len,
        None => true,
    }
}

/// A number is read with its first byte counting most.
pub proof fn law_the_first_byte_counts_most(bytes: Seq<u8>, at: int, n: u32)
    requires
        0 <= at,
        at + 4 <= bytes.len(),
        bytes[at] == n / 0x100_0000,
        bytes[at + 1] == n / 0x1_0000 % 0x100,
        bytes[at + 2] == n / 0x100 % 0x100,
        bytes[at + 3] == n % 0x100,
    ensures
        be32(bytes, at) == Some(n as int),
        be16(bytes, at) == Some(n as int / 0x1_0000),
        be16(bytes, at + 2) == Some(n as int % 0x1_0000),
{
}

/// The units that stand for a character: itself where it fits into one, and otherwise two, the first
/// with the upper ten bits of what is left of it and the second with the lower ten.
pub open spec fn units_for(c: char) -> Seq<u16> {
    if (c as int) < 0x1_0000 {
        seq![c as u16]
    } else {
        seq![
            (0xd800 + (c as int - 0x1_0000) / 0x400) as u16,
            (0xdc00 + (c as int - 0x1_0000) % 0x400) as u16,
        ]
    }
}

/// What was written in units is read back, character by character, and half a pair is not text.
pub proof fn law_written_characters_are_read_back(c: char, rest: Seq<u16>)
    ensures
        utf16(Seq::empty()) == Some(Seq::<char>::empty()),
        utf16(rest) matches Some(text) ==> utf16(units_for(c) + rest) == Some(seq![c] + text),
        utf16(rest) is None ==> utf16(units_for(c) + rest) is None,
        c as int >= 0x1_0000 ==> utf16(units_for(c).take(1)) is None,
        c as int >= 0x1_0000 ==> utf16(units_for(c).skip(1)) is None,
{
    let units = units_for(c) + rest;
    if (c as int) < 0x1_0000 {
        assert(units.skip(1) =~= rest);
        assert(units[0] == c as u16);
        assert(units[0] as char == c);
    } else {
        assert(units.skip(2) =~= rest);
        let high = (c as int - 0x1_0000) / 0x400;
        let low = (c as int - 0x1_0000) % 0x400;
        assert(0 <= high < 0x400 && 0 <= low < 0x400);
        assert(units[0] == 0xd800 + high);
        assert(units[1] == 0xdc00 + low);
        assert(paired(units[0], units[1]) == c as int);
        assert(units_for(c).take(1)[0] == units[0]);
        assert(units_for(c).skip(1)[0] == units[1]);
    }
}

/// A name is the first with its number that is not empty.
pub proof fn law_the_first_name_counts(names: Seq<NameView>, id: int)
    ensures
        match first_named(names, id) {
            Some(text) => exists|i: int| #![trigger names[i]]
                {
                    &&& 0 <= i < names.len()
                    &&& names[i].id == id
                    &&& names[i].text == text
                    &&& text.len() > 0
                    &&& forall|j: int|
                        0 <= j < i && (#[trigger] names[j]).id == id ==> names[j].text.len() == 0
                },
            None => forall|j: int|
                0 <= j < names.len() && (#[trigger] names[j]).id == id ==> names[j].text.len()
                    == 0,
        },
    decreases names.len(),
{
    if names.len() > 0 {
        let front = names.drop_last();
        law_the_first_name_counts(front, id);
        assert forall|j: int| 0 <= j < front.len() implies #[trigger] names[j] == front[j] by {}
        match first_named(front, id) {
            Some(text) => {
                let i = choose|i: int| #![trigger front[i]]
                    {
                        &&& 0 <= i < front.len()
                        &&& front[i].id == id
                        &&& front[i].text == text
                        &&& text.len() > 0
                        &&& forall|j: int|
                            0 <= j < i && (#[trigger] front[j]).id == id ==> front[j].text.len()
                                == 0
                    };
                assert(names[i] == front[i]);
                assert forall|j: int| 0 <= j < i && (#[trigger] names[j]).id == id implies names[j].text.len()
                    == 0 by {
                    assert(names[j] == front[j]);
                }
            },
            None => {
                assert forall|j: int| 0 <= j < names.len() - 1 && (#[trigger] names[j]).id
                    == id implies names[j].text.len() == 0 by {
                    assert(names[j] == front[j]);
                }
                assert(names[names.len() - 1] == names.last());
            },
        }
    }
}

/// The family is the one that groups all its styles, and the older one only where that is not
/// named.
pub proof fn law_the_typographic_family_comes_first(names: Seq<NameView>)
    ensures
        first_named(names, 16) is Some ==> family_in(names) == first_named(names, 16),
        first_named(names, 16) is None ==> family_in(names) == first_named(names, 1),
{
}

/// The names stand in the first table of the directory that is tagged so; where none is, there are
/// none.
pub proof fn law_names_stand_in_the_table_tagged_so(
    bytes: Seq<u8>,
    start: int,
    index: int,
    count: int,
    k: int,
)
    requires
        0 <= index <= k <= count,
        forall|i: int|
            index <= i < k ==> be32(bytes, #[trigger] directory_entry(start, i)) is Some && be32(
                bytes,
                directory_entry(start, i),
            ) != Some(0x6e61_6d65int),
    ensures
        k == count ==> name_table_from(bytes, start, index, count) is None,
        k < count && be32(bytes, directory_entry(start, k)) == Some(0x6e61_6d65int)
            ==> name_table_from(bytes, start, index, count) == be32(
            bytes,
            directory_entry(start, k) + 8,
        ),
    decreases k - index,
{
    assert(start + 12 + index * 16 == directory_entry(start, index));
    if index < k {
        law_names_stand_in_the_table_tagged_so(bytes, start, index + 1, count, k);
    }
}

/// Where an entry of the directory stands: behind the twelve bytes of the header and the sixteen of
/// each entry before it.
pub open spec fn directory_entry(start: int, index: int) -> int {
    start + 12 + 16 * index
}

/// A font starts where its file does, and in a collection where the collection says that its first
/// does.
pub proof fn law_a_collection_says_where_its_first_font_starts(bytes: Seq<u8>)
    ensures
        be32(bytes, 0) == Some(0x7474_6366int) ==> font_start(bytes) == be32(bytes, 12),
        be32(bytes, 0) is Some && be32(bytes, 0) != Some(0x7474_6366int) ==> font_start(bytes)
            == Some(0int),
        be32(bytes, 0) is None ==> font_start(bytes) is None,
{
}

/// Of a font's names the family is read as text from where its entry says; one that is not a family
/// is passed over, and a family that lies outside the file makes the font unreadable.
pub proof fn law_a_name_is_read_from_where_it_lies(
    bytes: Seq<u8>,
    table: int,
    storage: int,
    index: int,
    platform: int,
    id: int,
    length: int,
    offset: int,
)
    requires
        be16(bytes, table + 6 + 12 * index) == Some(platform),
        be16(bytes, table + 12 + 12 * index) == Some(id),
        be16(bytes, table + 14 + 12 * index) == Some(length),
        be16(bytes, table + 16 + 12 * index) == Some(offset),
    ensures
        ({
            let named = name_at(bytes, table, storage, index);
            let family = id == 1 || id == 16;
            &&& !family ==> named is Some && named.unwrap().text.len() == 0
            &&& family && storage + offset + length > bytes.len() ==> named is None
            &&& family && storage + offset + length <= bytes.len() ==> {
                let text = name_text(
                    platform,
                    bytes.subrange(storage + offset, storage + offset + length),
                );
                &&& named is Some <==> text is Some
                &&& named is Some ==> named.unwrap().text == text::trimmed(text.unwrap())
            }
            &&& named is Some ==> named.unwrap().id == id
        }),
{
    assert(table + 6 + index * 12 == table + 6 + 12 * index);
}

/// A text is read byte by byte on the one platform that writes it so, and two bytes at a time on
/// every other.
pub proof fn law_a_text_is_read_as_its_platform_writes_it(platform: int, raw: Seq<u8>, i: int)
    ensures
        platform == 1 ==> name_text(platform, raw) is Some,
        platform == 1 ==> name_text(platform, raw).unwrap().len() == raw.len(),
        platform == 1 && 0 <= i < raw.len() ==> name_text(platform, raw).unwrap()[i] as int
            == raw[i],
        platform != 1 ==> name_text(platform, raw) == utf16(units_of(raw)),
        units_of(raw).len() == raw.len() / 2,
        0 <= i && 2 * i + 1 < raw.len() ==> units_of(raw)[i] == raw[2 * i] * 256 + raw[2 * i + 1],
{
}

/// A file is named as a font by its ending, in whatever case, with a stem before it.
pub proof fn law_a_font_is_named_by_its_ending(stem: Seq<char>, ending: Seq<char>)
    requires
        ending.len() == 3,
    ensures
        stem.len() > 0 && (text::ascii_lowercase(ending) == seq!['t', 't', 'f']
            || text::ascii_lowercase(ending) == seq!['o', 't', 'f'] || text::ascii_lowercase(ending)
            == seq!['t', 't', 'c']) <==> named_as_font(stem + seq!['.'] + ending),
{
    let name = stem + seq!['.'] + ending;
    assert(name.skip(name.len() - 3) =~= ending);
    assert(name[name.len() - 4] == '.');
}

/// Fonts are found file by file: what is in one list of files and then another is what is in the
/// first and then what is in the second. A file holds a font where it is named as one and a family
/// can be read from it.
pub proof fn law_fonts_are_found_file_by_file(a: Seq<FontFile>, b: Seq<FontFile>)
    ensures
        fonts_in(a + b) == fonts_in(a) + fonts_in(b),
        b.len() == 1 ==> ({
            let family = family_of(b[0].bytes@);
            &&& family is Some && named_as_font(b[0].name@) ==> fonts_in(b)
                == seq![FontView { file: b[0].name@, family: family.unwrap() }]
            &&& family is None || !named_as_font(b[0].name@) ==> fonts_in(b).len() == 0
        }),
    decreases b.len(),
{
    if b.len() == 1 {
        assert(b.drop_last() =~= Seq::<FontFile>::empty());
        assert(fonts_in(b.drop_last()) =~= Seq::<FontView>::empty());
    }
    if b.len() == 0 {
        assert(a + b =~= a);
        assert(fonts_in(a) + fonts_in(b) =~= fonts_in(a));
    } else {
        assert((a + b).drop_last() =~= a + b.drop_last());
        assert((a + b).last() == b.last());
        law_fonts_are_found_file_by_file(a, b.drop_last());
        assert(fonts_in(a + b) =~= fonts_in(a) + fonts_in(b));
    }
}

/// Names are compared by the first character in which they differ, and a name comes before every
/// longer one that begins with it.
pub proof fn law_the_first_difference_decides(
    same: Seq<char>,
    a: char,
    b: char,
    more: Seq<char>,
    other: Seq<char>,
)
    ensures
        a != b ==> comes_before(same + seq![a] + more, same + seq![b] + other) == (a < b),
        comes_before(same, same + more) == (more.len() > 0),
        !comes_before(same + more, same),
    decreases same.len(),
{
    let x = same + seq![a] + more;
    let y = same + seq![b] + other;
    let z = same + more;
    if same.len() > 0 {
        let rest = same.drop_first();
        assert(x.drop_first() =~= rest + seq![a] + more);
        assert(y.drop_first() =~= rest + seq![b] + other);
        assert(z.drop_first() =~= rest + more);
        law_the_first_difference_decides(rest, a, b, more, other);
    } else {
        assert(x[0] == a);
        assert(y[0] == b);
    }
}

/// The directory of a font is read from its first entry on, as many as the font says it has.
pub proof fn law_the_directory_is_read_from_its_first_entry(bytes: Seq<u8>, start: int, count: int)
    requires
        font_start(bytes) == Some(start),
        be16(bytes, start + 4) == Some(count),
        count > 0,
        be32(bytes, start + 12) == Some(0x6e61_6d65int),
    ensures
        name_table(bytes) == be32(bytes, start + 20),
{
}

/// Of two fonts in order the first never has the name that comes later.
pub proof fn law_fonts_are_listed_by_file_name(fonts: Seq<FontView>, i: int, j: int)
    requires
        by_file_name(fonts),
        0 <= i < j < fonts.len(),
    ensures
        !comes_before(fonts[j].file, fonts[i].file),
{
}

} // verus!
