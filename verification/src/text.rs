//! Text as sequences of characters: the small string vocabulary that the rest of the
//! library is written in.

use vstd::prelude::*;
use vstd::string::StringExecFns;

verus! {

/// `String::push` appends one character.
pub assume_specification[ String::push ](s: &mut String, c: char)
    ensures
        final(s)@ == old(s)@.push(c),
;

/// The characters of a string, as a vector.
pub fn chars_of(s: &str) -> (r: Vec<char>)
    ensures
        r@ == s@,
{
    let mut r: Vec<char> = Vec::new();
    for c in it: s.chars()
        invariant
            it.seq() == s@,
            r@ == s@.take(it.index() as int),
    {
        r.push(c);
    }
    assert(s@.take(s@.len() as int) =~= s@);
    r
}

/// A string holding exactly `chars`.
pub fn string_of(chars: &[char]) -> (r: String)
    ensures
        r@ == chars@,
{
    let mut r = String::new();
    let mut i: usize = 0;
    while i < chars.len()
        invariant
            i <= chars.len(),
            r@ == chars@.take(i as int),
        decreases chars.len() - i,
    {
        r.push(chars[i]);
        i += 1;
        assert(chars@.take(i as int) =~= chars@.take(i - 1).push(chars@[i - 1]));
    }
    assert(chars@.take(chars@.len() as int) =~= chars@);
    r
}

/// Whether two strings hold the same characters.
pub fn str_eq(a: &str, b: &str) -> (r: bool)
    ensures
        r == (a@ == b@),
{
    let x = a.to_owned();
    let y = b.to_owned();
    x == y
}

/// `a` followed by `b`.
pub fn cat(a: &str, b: &str) -> (r: String)
    ensures
        r@ == a@ + b@,
{
    let mut r = a.to_owned();
    r.append(b);
    r
}

/// The characters of each string of a list.
pub open spec fn texts(v: Seq<String>) -> Seq<Seq<char>> {
    v.map_values(|s: String| s@)
}

/// A copy of a list of strings.
pub fn copy_texts(v: &Vec<String>) -> (r: Vec<String>)
    ensures
        texts(r@) == texts(v@),
{
    let r = v.clone();
    assert(texts(r@) =~= texts(v@));
    r
}

/// A copy of an optional string.
pub fn copy_text(s: &Option<String>) -> (r: Option<String>)
    ensures
        r == *s,
{
    match s {
        Some(x) => Some(x.clone()),
        None => None,
    }
}

/// The characters of an optional string.
pub open spec fn text_opt(s: Option<String>) -> Option<Seq<char>> {
    match s {
        Some(x) => Some(x@),
        None => None,
    }
}

/// Whether an optional string is `text`.
pub fn opt_is(s: &Option<String>, text: &str) -> (r: bool)
    ensures
        r == (text_opt(*s) == Some(text@)),
{
    match s {
        Some(x) => str_eq(x.as_str(), text),
        None => false,
    }
}

// ---------------------------------------------------------------------------------------
// White space.
// ---------------------------------------------------------------------------------------

/// The characters with Unicode's `White_Space` property.
pub open spec fn is_space(c: char) -> bool {
    let n = c as u32;
    ||| 0x9 <= n <= 0xd
    ||| n == 0x20
    ||| n == 0x85
    ||| n == 0xa0
    ||| n == 0x1680
    ||| 0x2000 <= n <= 0x200a
    ||| n == 0x2028
    ||| n == 0x2029
    ||| n == 0x202f
    ||| n == 0x205f
    ||| n == 0x3000
}

/// Whether `c` is white space.
pub fn space(c: char) -> (r: bool)
    ensures
        r == is_space(c),
{
    let n: u32 = c as u32;
    (0x9 <= n && n <= 0xd) || n == 0x20 || n == 0x85 || n == 0xa0 || n == 0x1680 || (0x2000 <= n
        && n <= 0x200a) || n == 0x2028 || n == 0x2029 || n == 0x202f || n == 0x205f || n == 0x3000
}

/// `s` without its leading white space.
pub open spec fn trim_start(s: Seq<char>) -> Seq<char>
    decreases s.len(),
{
    if s.len() > 0 && is_space(s[0]) {
        trim_start(s.drop_first())
    } else {
        s
    }
}

/// `s` without its trailing white space.
pub open spec fn trim_end(s: Seq<char>) -> Seq<char>
    decreases s.len(),
{
    if s.len() > 0 && is_space(s.last()) {
        trim_end(s.drop_last())
    } else {
        s
    }
}

/// `s` without the white space around it.
pub open spec fn trimmed(s: Seq<char>) -> Seq<char> {
    trim_end(trim_start(s))
}

pub proof fn lemma_trimmed_is_ascii(s: Seq<char>)
    requires
        is_ascii(s),
    ensures
        is_ascii(trimmed(s)),
{
    lemma_trim_start_is_ascii(s);
    lemma_trim_end_is_ascii(trim_start(s));
}

proof fn lemma_trim_start_is_ascii(s: Seq<char>)
    requires
        is_ascii(s),
    ensures
        is_ascii(trim_start(s)),
    decreases s.len(),
{
    if s.len() > 0 && is_space(s[0]) {
        lemma_trim_start_is_ascii(s.drop_first());
    }
}

proof fn lemma_trim_end_is_ascii(s: Seq<char>)
    requires
        is_ascii(s),
    ensures
        is_ascii(trim_end(s)),
    decreases s.len(),
{
    if s.len() > 0 && is_space(s.last()) {
        lemma_trim_end_is_ascii(s.drop_last());
    }
}

/// Where the white space that starts at `from` ends.
fn skip_spaces(s: &[char], from: usize) -> (r: usize)
    requires
        from <= s@.len(),
    ensures
        from <= r <= s@.len(),
        s@.skip(r as int) == trim_start(s@.skip(from as int)),
        r < s@.len() ==> !is_space(s@[r as int]),
{
    let mut i: usize = from;
    while i < s.len() && space(s[i])
        invariant
            from <= i <= s@.len(),
            trim_start(s@.skip(i as int)) == trim_start(s@.skip(from as int)),
        decreases s@.len() - i,
    {
        assert(s@.skip(i as int).drop_first() =~= s@.skip(i + 1));
        i += 1;
    }
    i
}

/// Where the white space that ends at `to` starts, not looking below `from`.
fn skip_spaces_back(s: &[char], from: usize, to: usize) -> (r: usize)
    requires
        from <= to <= s@.len(),
    ensures
        from <= r <= to,
        s@.subrange(from as int, r as int) == trim_end(s@.subrange(from as int, to as int)),
{
    let mut i: usize = to;
    while i > from && space(s[i - 1])
        invariant
            from <= i <= to <= s@.len(),
            trim_end(s@.subrange(from as int, i as int)) == trim_end(
                s@.subrange(from as int, to as int),
            ),
        decreases i,
    {
        assert(s@.subrange(from as int, i as int).drop_last() =~= s@.subrange(
            from as int,
            i - 1,
        ));
        assert(s@.subrange(from as int, i as int).last() == s@[i - 1]);
        i -= 1;
    }
    assert(i > from ==> s@.subrange(from as int, i as int).last() == s@[i - 1]);
    i
}

/// A copy of part of a run of characters.
pub fn part(s: &[char], from: usize, to: usize) -> (r: Vec<char>)
    requires
        from <= to <= s@.len(),
    ensures
        r@ == s@.subrange(from as int, to as int),
{
    let mut r: Vec<char> = Vec::new();
    let mut i: usize = from;
    while i < to
        invariant
            from <= i <= to <= s@.len(),
            r@ == s@.subrange(from as int, i as int),
        decreases to - i,
    {
        r.push(s[i]);
        i += 1;
        assert(s@.subrange(from as int, i as int) =~= s@.subrange(from as int, i - 1).push(
            s@[i - 1],
        ));
    }
    r
}

/// `s` without the white space around it.
pub fn trim_chars(s: &[char]) -> (r: Vec<char>)
    ensures
        r@ == trimmed(s@),
{
    assert(s@.skip(0) =~= s@);
    let from = skip_spaces(s, 0);
    let to = skip_spaces_back(s, from, s.len());
    assert(s@.skip(from as int) =~= s@.subrange(from as int, s@.len() as int));
    part(s, from, to)
}

/// `s` without the white space around it.
pub fn trim(s: &str) -> (r: String)
    ensures
        r@ == trimmed(s@),
{
    let c = chars_of(s);
    string_of(trim_chars(c.as_slice()).as_slice())
}

/// `s` without any `c` at its end.
pub open spec fn trim_end_char(s: Seq<char>, c: char) -> Seq<char>
    decreases s.len(),
{
    if s.len() > 0 && s.last() == c {
        trim_end_char(s.drop_last(), c)
    } else {
        s
    }
}

pub proof fn lemma_trim_end_char_once(s: Seq<char>, c: char)
    ensures
        trim_end_char(trim_end_char(s, c), c) == trim_end_char(s, c),
    decreases s.len(),
{
    if s.len() > 0 && s.last() == c {
        lemma_trim_end_char_once(s.drop_last(), c);
    }
}

/// `s` without any `c` at its end.
pub fn trim_end_of(s: &str, c: char) -> (r: String)
    ensures
        r@ == trim_end_char(s@, c),
{
    let v = chars_of(s);
    let mut i: usize = v.len();
    assert(s@.take(i as int) =~= s@);
    while i > 0 && v[i - 1] == c
        invariant
            i <= v.len(),
            v@ == s@,
            trim_end_char(s@.take(i as int), c) == trim_end_char(s@, c),
        decreases i,
    {
        assert(s@.take(i as int).drop_last() =~= s@.take(i - 1));
        i -= 1;
    }
    assert(i > 0 ==> s@.take(i as int).last() == s@[i - 1]);
    assert(s@.take(i as int) =~= v@.subrange(0, i as int));
    string_of(part(v.as_slice(), 0, i).as_slice())
}

// ---------------------------------------------------------------------------------------
// Words.
// ---------------------------------------------------------------------------------------

/// The longest prefix of `s` without white space.
pub open spec fn leading_word(s: Seq<char>) -> Seq<char>
    decreases s.len(),
{
    if s.len() == 0 || is_space(s[0]) {
        Seq::empty()
    } else {
        seq![s[0]] + leading_word(s.drop_first())
    }
}

pub proof fn lemma_leading_word_len(s: Seq<char>)
    ensures
        leading_word(s).len() <= s.len(),
        s.len() > 0 && !is_space(s[0]) ==> leading_word(s).len() > 0,
    decreases s.len(),
{
    if s.len() != 0 && !is_space(s[0]) {
        lemma_leading_word_len(s.drop_first());
    }
}

pub proof fn lemma_trim_start_len(s: Seq<char>)
    ensures
        trim_start(s).len() <= s.len(),
        trim_start(s).len() > 0 ==> !is_space(trim_start(s)[0]),
    decreases s.len(),
{
    if s.len() > 0 && is_space(s[0]) {
        lemma_trim_start_len(s.drop_first());
    }
}

proof fn lemma_leading_word_of_longer(s: Seq<char>, more: Seq<char>)
    ensures
        leading_word(s).is_prefix_of(leading_word(s + more)),
        leading_word(s).len() < s.len() ==> leading_word(s + more) == leading_word(s),
        leading_word(s).len() == s.len() ==> leading_word(s) == s,
    decreases s.len(),
{
    if s.len() > 0 && !is_space(s[0]) {
        let rest = s.drop_first();
        lemma_leading_word_of_longer(rest, more);
        assert((s + more).drop_first() =~= rest + more);
        assert(leading_word(s) == seq![s[0]] + leading_word(rest));
        assert(leading_word(s + more) == seq![s[0]] + leading_word(rest + more));
        assert(leading_word(s).len() == s.len() ==> leading_word(s) =~= s);
    } else {
        assert(s.len() == 0 ==> leading_word(s) =~= s);
        if s.len() > 0 {
            assert((s + more)[0] == s[0]);
        }
    }
}

proof fn lemma_trim_start_of_longer(s: Seq<char>, more: Seq<char>)
    requires
        trim_start(s).len() > 0,
    ensures
        trim_start(s + more) == trim_start(s) + more,
    decreases s.len(),
{
    if s.len() > 0 {
        assert((s + more)[0] == s[0]);
        if is_space(s[0]) {
            lemma_trim_start_of_longer(s.drop_first(), more);
            assert((s + more).drop_first() =~= s.drop_first() + more);
        }
    }
}

/// Each word of a text is still there, or has become longer, in a longer text.
pub proof fn lemma_words_of_longer(s: Seq<char>, more: Seq<char>)
    ensures
        words(s).len() <= words(s + more).len(),
        forall|i: int|
            0 <= i < words(s).len() ==> (#[trigger] words(s)[i]).is_prefix_of(
                words(s + more)[i],
            ),
    decreases s.len(),
{
    let t = trim_start(s);
    if t.len() > 0 {
        lemma_trim_start_len(s);
        lemma_leading_word_len(t);
        lemma_trim_start_of_longer(s, more);
        lemma_leading_word_of_longer(t, more);
        let n = leading_word(t).len() as int;
        let rest = t.skip(n);
        if n < t.len() {
            lemma_words_of_longer(rest, more);
            assert((t + more).skip(n) =~= rest + more);
            assert forall|i: int| 0 <= i < words(s).len() implies (
            #[trigger] words(s)[i]).is_prefix_of(words(s + more)[i]) by {
                if i > 0 {
                    assert(words(s)[i] == words(rest)[i - 1]);
                    assert(words(s + more)[i] == words(rest + more)[i - 1]);
                }
            }
        } else {
            assert(rest.len() == 0);
            assert(words(rest) =~= Seq::empty());
        }
    }
}

/// The words of `s`: its maximal runs without white space, in order.
pub open spec fn words(s: Seq<char>) -> Seq<Seq<char>>
    decreases s.len(),
{
    let t = trim_start(s);
    if t.len() == 0 {
        Seq::empty()
    } else {
        proof {
            lemma_trim_start_len(s);
            lemma_leading_word_len(t);
        }
        seq![leading_word(t)] + words(t.skip(leading_word(t).len() as int))
    }
}

/// Where the word that starts at `from` ends.
fn word_end(s: &[char], from: usize) -> (r: usize)
    requires
        from <= s@.len(),
    ensures
        from <= r <= s@.len(),
        s@.subrange(from as int, r as int) == leading_word(s@.skip(from as int)),
{
    let mut i: usize = from;
    while i < s.len() && !space(s[i])
        invariant
            from <= i <= s@.len(),
            leading_word(s@.skip(from as int)) == s@.subrange(from as int, i as int)
                + leading_word(s@.skip(i as int)),
        decreases s@.len() - i,
    {
        assert(s@.skip(i as int).drop_first() =~= s@.skip(i + 1));
        assert(leading_word(s@.skip(i as int)) =~= seq![s@[i as int]] + leading_word(
            s@.skip(i + 1),
        ));
        assert(s@.subrange(from as int, i as int) + (seq![s@[i as int]] + leading_word(
            s@.skip(i + 1),
        )) =~= s@.subrange(from as int, i + 1) + leading_word(s@.skip(i + 1)));
        i += 1;
    }
    assert(leading_word(s@.skip(i as int)) =~= Seq::empty());
    i
}

/// The characters of each run of a list.
pub open spec fn runs(v: Seq<Vec<char>>) -> Seq<Seq<char>> {
    v.map_values(|s: Vec<char>| s@)
}

/// The words of `s`, in order.
pub fn words_of(s: &[char]) -> (r: Vec<Vec<char>>)
    ensures
        runs(r@) == words(s@),
{
    let mut r: Vec<Vec<char>> = Vec::new();
    let mut i: usize = 0;
    assert(s@.skip(0) =~= s@);
    assert(runs(r@) + words(s@) =~= words(s@));
    while i < s.len()
        invariant
            i <= s@.len(),
            runs(r@) + words(s@.skip(i as int)) == words(s@),
        decreases s@.len() - i,
    {
        let from = skip_spaces(s, i);
        let ghost before = runs(r@);
        let ghost t = s@.skip(from as int);
        if from == s.len() {
            assert(words(s@.skip(i as int)) =~= Seq::empty());
            assert(runs(r@) =~= words(s@));
            return r;
        }
        let to = word_end(s, from);
        proof {
            lemma_leading_word_len(t);
            assert(t[0] == s@[from as int]);
            assert(t.skip(leading_word(t).len() as int) =~= s@.skip(to as int));
        }
        let w = part(s, from, to);
        r.push(w);
        assert(runs(r@) =~= before.push(leading_word(t)));
        assert(before + (seq![leading_word(t)] + words(s@.skip(to as int))) =~= before.push(
            leading_word(t),
        ) + words(s@.skip(to as int)));
        i = to;
    }
    assert(words(s@.skip(i as int)) =~= Seq::empty());
    assert(runs(r@) =~= words(s@));
    r
}

// ---------------------------------------------------------------------------------------
// Searching.
// ---------------------------------------------------------------------------------------

/// Whether `needle` stands in `hay` at position `i`.
pub open spec fn stands_at(hay: Seq<char>, needle: Seq<char>, i: int) -> bool {
    0 <= i && i + needle.len() <= hay.len() && hay.subrange(i, i + needle.len()) == needle
}

/// Whether `needle` stands anywhere in `hay`.
pub open spec fn contains(hay: Seq<char>, needle: Seq<char>) -> bool {
    exists|i: int| #[trigger] stands_at(hay, needle, i)
}

fn stands_here(hay: &[char], needle: &[char], i: usize) -> (r: bool)
    requires
        i + needle@.len() <= hay@.len(),
    ensures
        r == stands_at(hay@, needle@, i as int),
{
    let size = hay.len();
    let mut j: usize = 0;
    while j < needle.len()
        invariant
            size == hay@.len(),
            j <= needle@.len(),
            i + needle@.len() <= hay@.len(),
            forall|k: int| 0 <= k < j ==> hay@[i + k] == needle@[k],
        decreases needle@.len() - j,
    {
        if hay[i + j] != needle[j] {
            assert(hay@.subrange(i as int, i + needle@.len())[j as int] != needle@[j as int]);
            return false;
        }
        j += 1;
    }
    assert(hay@.subrange(i as int, i + needle@.len()) =~= needle@);
    true
}

/// Whether `needle` stands anywhere in `hay`.
pub fn contains_chars(hay: &[char], needle: &[char]) -> (r: bool)
    ensures
        r == contains(hay@, needle@),
{
    if needle.len() > hay.len() {
        return false;
    }
    let last = hay.len() - needle.len();
    let mut i: usize = 0;
    while i <= last
        invariant
            last == hay@.len() - needle@.len(),
            i <= last + 1,
            forall|k: int| 0 <= k < i ==> !#[trigger] stands_at(hay@, needle@, k),
        decreases last + 1 - i,
    {
        if stands_here(hay, needle, i) {
            return true;
        }
        if i == last {
            return false;
        }
        i += 1;
    }
    false
}

/// Whether `needle` stands anywhere in `hay`.
pub fn contains_text(hay: &str, needle: &str) -> (r: bool)
    ensures
        r == contains(hay@, needle@),
{
    let h = chars_of(hay);
    let n = chars_of(needle);
    contains_chars(h.as_slice(), n.as_slice())
}

// ---------------------------------------------------------------------------------------
// Numbers.
// ---------------------------------------------------------------------------------------

/// The digit for a value below ten.
pub open spec fn digit(d: int) -> char {
    if d == 0 {
        '0'
    } else if d == 1 {
        '1'
    } else if d == 2 {
        '2'
    } else if d == 3 {
        '3'
    } else if d == 4 {
        '4'
    } else if d == 5 {
        '5'
    } else if d == 6 {
        '6'
    } else if d == 7 {
        '7'
    } else if d == 8 {
        '8'
    } else {
        '9'
    }
}

/// `n` written in `base`, without leading zeros.
pub open spec fn numeral(n: nat, base: nat) -> Seq<char>
    decreases n,
{
    if base < 2 || n < base {
        seq![digit(n as int)]
    } else {
        proof {
            assert(n / base < n) by (nonlinear_arith)
                requires
                    n >= base,
                    base >= 2,
            ;
        }
        numeral(n / base, base).push(digit((n % base) as int))
    }
}

/// `n` written in decimal.
pub open spec fn decimal(n: nat) -> Seq<char> {
    numeral(n, 10)
}

/// `n` written in decimal, with a sign when it is negative.
pub open spec fn signed_decimal(n: int) -> Seq<char> {
    if n < 0 {
        "-"@ + decimal((-n) as nat)
    } else {
        decimal(n as nat)
    }
}

fn digit_char(d: u64) -> (r: char)
    requires
        d < 10,
    ensures
        r == digit(d as int),
{
    match d {
        0 => '0',
        1 => '1',
        2 => '2',
        3 => '3',
        4 => '4',
        5 => '5',
        6 => '6',
        7 => '7',
        8 => '8',
        _ => '9',
    }
}

/// `n` written in `base`.
pub fn write_numeral(n: u64, base: u64) -> (r: String)
    requires
        2 <= base <= 10,
    ensures
        r@ == numeral(n as nat, base as nat),
    decreases n,
{
    if n < base {
        let mut r = String::new();
        r.push(digit_char(n));
        assert(r@ =~= seq![digit(n as int)]);
        r
    } else {
        assert(n / base < n) by (nonlinear_arith)
            requires
                n >= base,
                base >= 2,
        ;
        assert(n % base < base) by (nonlinear_arith)
            requires
                base >= 2,
        ;
        let mut r = write_numeral(n / base, base);
        r.push(digit_char(n % base));
        r
    }
}

/// `n` written in decimal.
pub fn write_decimal(n: u64) -> (r: String)
    ensures
        r@ == decimal(n as nat),
{
    write_numeral(n, 10)
}

/// `n` written in decimal, with a sign when it is negative.
pub fn write_signed(n: i32) -> (r: String)
    ensures
        r@ == signed_decimal(n as int),
{
    let wide: i64 = n as i64;
    if wide < 0 {
        cat("-", write_decimal((-wide) as u64).as_str())
    } else {
        write_decimal(wide as u64)
    }
}

/// `s` with `fill` in front of it until it is `width` long.
pub open spec fn padded(s: Seq<char>, width: nat, fill: char) -> Seq<char> {
    if s.len() < width {
        Seq::new((width - s.len()) as nat, |i: int| fill) + s
    } else {
        s
    }
}

/// `s` with `fill` in front of it until it is `width` long.
pub fn pad(s: &str, width: usize, fill: char) -> (r: String)
    ensures
        r@ == padded(s@, width as nat, fill),
{
    let chars = chars_of(s);
    if chars.len() >= width {
        return s.to_owned();
    }
    let missing = width - chars.len();
    let mut r = String::new();
    let mut i: usize = 0;
    while i < missing
        invariant
            i <= missing,
            r@ == Seq::new(i as nat, |i: int| fill),
        decreases missing - i,
    {
        r.push(fill);
        i += 1;
        assert(r@ =~= Seq::new(i as nat, |i: int| fill));
    }
    r.append(s);
    r
}

// ---------------------------------------------------------------------------------------
// Joining.
// ---------------------------------------------------------------------------------------

/// `parts` one after the other, with `sep` between each two.
pub open spec fn joined(parts: Seq<Seq<char>>, sep: Seq<char>) -> Seq<char>
    decreases parts.len(),
{
    if parts.len() == 0 {
        Seq::empty()
    } else if parts.len() == 1 {
        parts[0]
    } else {
        joined(parts.drop_last(), sep) + sep + parts.last()
    }
}

/// `parts` one after the other, with `sep` between each two.
pub fn join(parts: &Vec<String>, sep: &str) -> (r: String)
    ensures
        r@ == joined(texts(parts@), sep@),
{
    let mut r = String::new();
    let mut i: usize = 0;
    let ghost all = texts(parts@);
    while i < parts.len()
        invariant
            i <= parts.len(),
            all == texts(parts@),
            r@ == joined(all.take(i as int), sep@),
        decreases parts.len() - i,
    {
        if i > 0 {
            r.append(sep);
        }
        r.append(parts[i].as_str());
        proof {
            let next = all.take(i + 1);
            assert(next.drop_last() =~= all.take(i as int));
            assert(next.last() == parts@[i as int]@);
            if i == 0 {
                assert(r@ =~= next[0]);
            }
        }
        i += 1;
    }
    assert(all.take(all.len() as int) =~= all);
    r
}

// ---------------------------------------------------------------------------------------
// Letter case.
// ---------------------------------------------------------------------------------------

/// Whether every character is an ASCII one.
pub open spec fn is_ascii(s: Seq<char>) -> bool {
    forall|i: int| 0 <= i < s.len() ==> (#[trigger] s[i]) as u32 <= 0x7f
}

/// `s` with its ASCII letters in lower case, and nothing else changed.
pub open spec fn ascii_lowercase(s: Seq<char>) -> Seq<char> {
    s.map_values(|c: char| if 'A' <= c && c <= 'Z' {
        (c as u32 + 0x20) as char
    } else {
        c
    })
}

/// What `str::to_lowercase` makes of a text.
pub uninterp spec fn lowercase(s: Seq<char>) -> Seq<char>;

/// `str::to_lowercase`. The result is a function of the text alone: Unicode's lower-case
/// mapping, which takes no locale. On ASCII text that is `A` to `Z` made `a` to `z`.
#[verifier::external_body]
pub(crate) fn to_lowercase(s: &str) -> (r: String)
    ensures
        r@ == lowercase(s@),
        is_ascii(s@) ==> r@ == ascii_lowercase(s@),
{
    s.to_lowercase()
}

/// What `str::to_uppercase` makes of a text.
pub uninterp spec fn uppercase(s: Seq<char>) -> Seq<char>;

/// `str::to_uppercase`. The result is a function of the text alone: Unicode's upper-case
/// mapping, which takes no locale.
#[verifier::external_body]
pub(crate) fn to_uppercase(s: &str) -> (r: String)
    ensures
        r@ == uppercase(s@),
{
    s.to_uppercase()
}

// ---------------------------------------------------------------------------------------
// What holds of all this.
// ---------------------------------------------------------------------------------------

/// Trimming takes white space off both ends, all of it, and nothing else: what is left stands in
/// the text as one piece, neither begins nor ends with white space, and everything around it is
/// white space.
pub proof fn law_trimming_takes_the_white_space_around(s: Seq<char>)
    ensures
        trimmed(s).len() > 0 ==> !is_space(trimmed(s)[0]) && !is_space(trimmed(s).last()),
        exists|from: int, to: int| #![trigger s.subrange(from, to)]
            {
                &&& 0 <= from <= to <= s.len()
                &&& trimmed(s) == s.subrange(from, to)
                &&& forall|i: int| 0 <= i < from || to <= i < s.len() ==> is_space(#[trigger] s[i])
            },
{
    let t = trim_start(s);
    lemma_trim_start_is_a_suffix(s);
    lemma_trim_end_is_a_prefix(t);
    let from = s.len() - t.len();
    let to = from + trim_end(t).len();
    assert(trimmed(s) =~= s.subrange(from, to));
    assert forall|i: int| 0 <= i < from || to <= i < s.len() implies is_space(#[trigger] s[i]) by {
        if i >= to {
            assert(s[i] == t[i - from]);
        }
    }
    lemma_trim_start_len(s);
    if trimmed(s).len() > 0 {
        assert(trimmed(s)[0] == t[0]);
    }
}

proof fn lemma_trim_start_is_a_suffix(s: Seq<char>)
    ensures
        trim_start(s).len() <= s.len(),
        trim_start(s) == s.skip(s.len() - trim_start(s).len()),
        forall|i: int| 0 <= i < s.len() - trim_start(s).len() ==> is_space(#[trigger] s[i]),
    decreases s.len(),
{
    if s.len() > 0 && is_space(s[0]) {
        let rest = s.drop_first();
        lemma_trim_start_is_a_suffix(rest);
        assert(trim_start(s) =~= s.skip(s.len() - trim_start(s).len()));
        assert forall|i: int| 0 <= i < s.len() - trim_start(s).len() implies is_space(
            #[trigger] s[i],
        ) by {
            if i > 0 {
                assert(s[i] == rest[i - 1]);
            }
        }
    } else {
        assert(s.skip(0) =~= s);
    }
}

proof fn lemma_trim_end_is_a_prefix(s: Seq<char>)
    ensures
        trim_end(s).len() <= s.len(),
        trim_end(s) == s.take(trim_end(s).len() as int),
        trim_end(s).len() > 0 ==> !is_space(trim_end(s).last()),
        forall|i: int| trim_end(s).len() <= i < s.len() ==> is_space(#[trigger] s[i]),
    decreases s.len(),
{
    if s.len() > 0 && is_space(s.last()) {
        let rest = s.drop_last();
        lemma_trim_end_is_a_prefix(rest);
        assert(trim_end(s) =~= s.take(trim_end(s).len() as int));
        assert forall|i: int| trim_end(s).len() <= i < s.len() implies is_space(#[trigger] s[i]) by {
            if i < rest.len() {
                assert(s[i] == rest[i]);
            }
        }
    } else {
        assert(s.take(s.len() as int) =~= s);
    }
}

/// Taking a character off the end takes all of it that stands there, and nothing else.
pub proof fn law_trimming_the_end_takes_one_character_only(s: Seq<char>, c: char)
    ensures
        trim_end_char(s, c).is_prefix_of(s),
        trim_end_char(s, c).len() > 0 ==> trim_end_char(s, c).last() != c,
        forall|i: int| trim_end_char(s, c).len() <= i < s.len() ==> #[trigger] s[i] == c,
    decreases s.len(),
{
    if s.len() > 0 && s.last() == c {
        let rest = s.drop_last();
        law_trimming_the_end_takes_one_character_only(rest, c);
        assert forall|i: int| trim_end_char(s, c).len() <= i < s.len() implies #[trigger] s[i]
            == c by {
            if i < rest.len() {
                assert(s[i] == rest[i]);
            }
        }
    }
}

/// Words are what stands between white space: text without any is one word, white space in front
/// or between makes no word of its own, and the words on both sides of it are all there are.
pub proof fn law_words_are_what_white_space_parts(a: Seq<char>, c: char, b: Seq<char>)
    requires
        is_space(c),
    ensures
        words(a + seq![c] + b) == words(a) + words(b),
        a.len() > 0 && (forall|i: int| 0 <= i < a.len() ==> !is_space(#[trigger] a[i])) ==> words(a)
            == seq![a],
        words(Seq::empty()) == Seq::<Seq<char>>::empty(),
    decreases a.len(),
{
    assert(trim_start(Seq::<char>::empty()) =~= Seq::empty());
    assert(words(Seq::<char>::empty()) =~= Seq::<Seq<char>>::empty());
    let t = trim_start(a);
    let more = seq![c] + b;
    assert(a + seq![c] + b =~= a + more);
    lemma_trim_start_len(a);
    lemma_leading_word_len(t);
    if t.len() == 0 {
        lemma_all_space_is_trimmed(a, more);
        assert(more[0] == c);
        assert(more.drop_first() =~= b);
        assert(trim_start(more) == trim_start(b));
        assert(words(a + more) =~= words(b));
        assert(words(a) + words(b) =~= words(b));
        if a.len() > 0 && (forall|i: int| 0 <= i < a.len() ==> !is_space(#[trigger] a[i])) {
            assert(!is_space(a[0]));
        }
    } else {
        lemma_trim_start_of_longer(a, more);
        lemma_leading_word_of_longer(t, more);
        lemma_leading_word_stops(t, more);
        let n = leading_word(t).len() as int;
        let rest = t.skip(n);
        law_words_are_what_white_space_parts(rest, c, b);
        assert(rest + seq![c] + b =~= rest + more);
        assert((t + more).skip(n) =~= rest + more);
        assert(words(a + more) =~= seq![leading_word(t)] + (words(rest) + words(b)));
        assert(words(a) + words(b) =~= seq![leading_word(t)] + (words(rest) + words(b)));
        if forall|i: int| 0 <= i < a.len() ==> !is_space(#[trigger] a[i]) {
            assert(!is_space(a[0]));
            assert(t == a);
            lemma_leading_word_is_all(a);
            assert(rest =~= Seq::empty());
            assert(words(a) =~= seq![a]);
        }
    }
}

proof fn lemma_all_space_is_trimmed(a: Seq<char>, more: Seq<char>)
    requires
        trim_start(a).len() == 0,
    ensures
        trim_start(a + more) == trim_start(more),
    decreases a.len(),
{
    if a.len() == 0 {
        assert(a + more =~= more);
    } else {
        assert(is_space(a[0]));
        assert((a + more)[0] == a[0]);
        assert((a + more).drop_first() =~= a.drop_first() + more);
        lemma_all_space_is_trimmed(a.drop_first(), more);
    }
}

proof fn lemma_leading_word_stops(t: Seq<char>, more: Seq<char>)
    requires
        more.len() > 0,
        is_space(more[0]),
    ensures
        leading_word(t + more) == leading_word(t),
    decreases t.len(),
{
    if t.len() == 0 {
        assert(t + more =~= more);
    } else {
        assert((t + more)[0] == t[0]);
        if !is_space(t[0]) {
            assert((t + more).drop_first() =~= t.drop_first() + more);
            lemma_leading_word_stops(t.drop_first(), more);
        }
    }
}

proof fn lemma_leading_word_is_all(s: Seq<char>)
    requires
        forall|i: int| 0 <= i < s.len() ==> !is_space(#[trigger] s[i]),
    ensures
        leading_word(s) == s,
    decreases s.len(),
{
    if s.len() > 0 {
        let rest = s.drop_first();
        assert forall|i: int| 0 <= i < rest.len() implies !is_space(#[trigger] rest[i]) by {
            assert(rest[i] == s[i + 1]);
        }
        lemma_leading_word_is_all(rest);
        assert(!is_space(s[0]));
        assert(leading_word(s) =~= s);
    } else {
        assert(leading_word(s) =~= s);
    }
}

/// The number that a row of digits stands for in `base`.
pub open spec fn value_of(s: Seq<char>, base: nat) -> int
    decreases s.len(),
{
    if s.len() == 0 {
        0
    } else {
        value_of(s.drop_last(), base) * base + (s.last() as u32 - '0' as u32)
    }
}

/// A number that has been written reads as that number: every character of it is a digit of the
/// base, and no zero stands in front.
pub proof fn law_a_written_number_reads_as_itself(n: nat, base: nat)
    requires
        2 <= base <= 10,
    ensures
        value_of(numeral(n, base), base) == n,
        numeral(n, base).len() > 0,
        forall|i: int|
            0 <= i < numeral(n, base).len() ==> {
                let d = (#[trigger] numeral(n, base)[i]) as u32 - '0' as u32;
                0 <= d < base
            },
        n > 0 ==> numeral(n, base)[0] != '0',
        n == 0 ==> numeral(n, base) == seq!['0'],
    decreases n,
{
    let s = numeral(n, base);
    if n < base {
        assert(s.drop_last() =~= Seq::<char>::empty());
        assert(value_of(s.drop_last(), base) == 0);
        assert(0 * base == 0) by (nonlinear_arith);
        if n == 0 {
            assert(s =~= seq!['0']);
        }
    } else {
        assert(n / base < n && n / base >= 1) by (nonlinear_arith)
            requires
                n >= base,
                base >= 2,
        ;
        assert(n == (n / base) * base + n % base && n % base < base) by (nonlinear_arith)
            requires
                base >= 2,
        ;
        law_a_written_number_reads_as_itself(n / base, base);
        let front = numeral(n / base, base);
        assert(s == front.push(digit((n % base) as int)));
        assert(s.drop_last() =~= front);
        assert forall|i: int| 0 <= i < s.len() implies {
            let d = (#[trigger] s[i]) as u32 - '0' as u32;
            0 <= d < base
        } by {
            if i < front.len() {
                assert(s[i] == front[i]);
            }
        }
        assert(s[0] == front[0]);
    }
}

/// Filling up puts as many characters in front as are missing, and no more.
pub proof fn law_padding_fills_up_from_the_front(s: Seq<char>, width: nat, fill: char)
    ensures
        ({
            let r = padded(s, width, fill);
            let missing = if s.len() < width {
                width - s.len()
            } else {
                0
            };
            &&& r.len() == s.len() + missing
            &&& r.skip(missing) == s
            &&& forall|i: int| 0 <= i < missing ==> #[trigger] r[i] == fill
        }),
{
    let r = padded(s, width, fill);
    let missing = if s.len() < width {
        width - s.len()
    } else {
        0
    };
    assert(r.skip(missing) =~= s);
}

/// One part joined is that part; the parts of two lists joined are the one list joined, the
/// separator, and the other list joined.
pub proof fn law_joining_puts_the_separator_between(
    a: Seq<Seq<char>>,
    b: Seq<Seq<char>>,
    sep: Seq<char>,
)
    requires
        a.len() > 0,
        b.len() > 0,
    ensures
        a.len() == 1 ==> joined(a, sep) == a[0],
        joined(a + b, sep) == joined(a, sep) + sep + joined(b, sep),
        joined(Seq::empty(), sep) == Seq::<char>::empty(),
    decreases b.len(),
{
    let all = a + b;
    assert(all.last() == b.last());
    if b.len() == 1 {
        assert(all.drop_last() =~= a);
    } else {
        assert(all.drop_last() =~= a + b.drop_last());
        law_joining_puts_the_separator_between(a, b.drop_last(), sep);
        assert(joined(all, sep) =~= joined(a, sep) + sep + joined(b, sep));
    }
}

/// In lower case every ASCII capital is its small letter, and every other character is itself.
pub proof fn law_lower_case_changes_capitals_only(s: Seq<char>, i: int)
    requires
        0 <= i < s.len(),
    ensures
        ascii_lowercase(s).len() == s.len(),
        'A' <= s[i] && s[i] <= 'Z' ==> ascii_lowercase(s)[i] as u32 == s[i] as u32 + 32,
        !('A' <= s[i] && s[i] <= 'Z') ==> ascii_lowercase(s)[i] == s[i],
{
}

} // verus!
