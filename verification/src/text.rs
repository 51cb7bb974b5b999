//! Text as a sequence of characters: trimming, ASCII case, decimal numbers and UTF-16.

use vstd::prelude::*;
use vstd::utf8::{decode_utf8, valid_utf8};

verus! {

/// What is left of a text when characters that `drop` picks are cut from its front.
pub open spec fn trim_start_by(s: Seq<char>, drop: spec_fn(char) -> bool) -> Seq<char>
    decreases s.len(),
{
    if s.len() > 0 && drop(s[0]) {
        trim_start_by(s.subrange(1, s.len() as int), drop)
    } else {
        s
    }
}

/// What is left of a text when characters that `drop` picks are cut from its end.
pub open spec fn trim_end_by(s: Seq<char>, drop: spec_fn(char) -> bool) -> Seq<char>
    decreases s.len(),
{
    if s.len() > 0 && drop(s.last()) {
        trim_end_by(s.drop_last(), drop)
    } else {
        s
    }
}

/// Unicode's `White_Space` property.
pub open spec fn is_white(c: char) -> bool {
    let u = c as u32;
    ||| 0x09 <= u <= 0x0d
    ||| u == 0x20
    ||| u == 0x85
    ||| u == 0xa0
    ||| u == 0x1680
    ||| 0x2000 <= u <= 0x200a
    ||| u == 0x2028
    ||| u == 0x2029
    ||| u == 0x202f
    ||| u == 0x205f
    ||| u == 0x3000
}

/// A text without the white space at its two ends.
pub open spec fn trimmed(s: Seq<char>) -> Seq<char> {
    trim_end_by(trim_start_by(s, |c: char| is_white(c)), |c: char| is_white(c))
}

/// A text without the NULs at its end.
pub open spec fn without_trailing_nuls(s: Seq<char>) -> Seq<char> {
    trim_end_by(s, |c: char| c == '\0')
}

/// A text without the NULs and spaces at its end.
pub open spec fn without_padding(s: Seq<char>) -> Seq<char> {
    trim_end_by(s, |c: char| c == '\0' || c == ' ')
}

/// The lower-case form of an ASCII letter; every other character as it is.
pub open spec fn ascii_lower(c: char) -> char {
    if 'A' <= c <= 'Z' {
        ((c as u32 + 32) as u32) as char
    } else {
        c
    }
}

/// A text with its ASCII letters in lower case.
pub open spec fn ascii_lowered(s: Seq<char>) -> Seq<char> {
    s.map_values(|c: char| ascii_lower(c))
}

/// The decimal digit of a number below ten.
pub open spec fn digit(d: nat) -> char {
    ((d + 48) as u32) as char
}

/// A number in decimal, without leading zeros.
pub open spec fn decimal(n: nat) -> Seq<char>
    decreases n,
{
    if n < 10 {
        seq![digit(n)]
    } else {
        decimal(n / 10).push(digit(n % 10))
    }
}

/// A text with a comma before every group of three characters, counted from its end.
pub open spec fn grouped(s: Seq<char>) -> Seq<char>
    decreases s.len(),
{
    if s.len() <= 3 {
        s
    } else {
        grouped(s.take(s.len() - 3)).push(',') + s.skip(s.len() - 3)
    }
}

/// The UTF-16 code units of one character.
pub open spec fn utf16_units(c: char) -> Seq<u16> {
    let u = c as u32;
    if u < 0x10000 {
        seq![u as u16]
    } else {
        seq![
            (0xd800 + (u - 0x10000) / 0x400) as u16,
            (0xdc00 + (u - 0x10000) % 0x400) as u16,
        ]
    }
}

/// A text in UTF-16.
pub open spec fn utf16(s: Seq<char>) -> Seq<u16>
    decreases s.len(),
{
    if s.len() == 0 {
        Seq::empty()
    } else {
        utf16(s.drop_last()) + utf16_units(s.last())
    }
}

/// A UTF-16 code unit that opens a surrogate pair.
pub open spec fn is_high_surrogate(unit: u16) -> bool {
    0xd800 <= unit < 0xdc00
}

/// A UTF-16 code unit that closes a surrogate pair.
pub open spec fn is_low_surrogate(unit: u16) -> bool {
    0xdc00 <= unit < 0xe000
}

/// The character that a surrogate pair stands for.
pub open spec fn surrogate_pair(high: u16, low: u16) -> char {
    ((0x10000 + (high - 0xd800) * 0x400 + (low - 0xdc00)) as u32) as char
}

/// The text that UTF-16 code units hold, with U+FFFD for every surrogate without its partner.
pub open spec fn utf16_lossy(units: Seq<u16>) -> Seq<char>
    decreases units.len(),
{
    if units.len() == 0 {
        Seq::empty()
    } else if !is_high_surrogate(units[0]) && !is_low_surrogate(units[0]) {
        seq![units[0] as char] + utf16_lossy(units.skip(1))
    } else if is_high_surrogate(units[0]) && units.len() > 1 && is_low_surrogate(units[1]) {
        seq![surrogate_pair(units[0], units[1])] + utf16_lossy(units.skip(2))
    } else {
        seq!['\u{fffd}'] + utf16_lossy(units.skip(1))
    }
}

/// A hexadecimal digit, in lower case.
pub open spec fn hex_digit(d: nat) -> char {
    if d < 10 {
        digit(d)
    } else {
        ((d + 87) as u32) as char
    }
}

/// A 16-bit number as four hexadecimal digits.
pub open spec fn hex4(n: u16) -> Seq<char> {
    seq![
        hex_digit((n / 0x1000) as nat),
        hex_digit((n / 0x100 % 0x10) as nat),
        hex_digit((n / 0x10 % 0x10) as nat),
        hex_digit((n % 0x10) as nat),
    ]
}

/// What `String::from_utf8_lossy` makes of the bytes.
pub uninterp spec fn utf8_lossy(bytes: Seq<u8>) -> Seq<char>;

/// `String::from_utf8_lossy`: bytes that are UTF-8 decode to their text. Which characters stand
/// for bytes that are not is left to the name.
#[verifier::external_body]
pub(crate) fn from_utf8_lossy(bytes: &[u8]) -> (s: String)
    ensures
        s@ == utf8_lossy(bytes@),
        valid_utf8(bytes@) ==> s@ == decode_utf8(bytes@),
{
    String::from_utf8_lossy(bytes).into_owned()
}

/// `String::from_iter`: the string that holds exactly these characters, in order.
#[verifier::external_body]
pub(crate) fn string_of(chars: Vec<char>) -> (s: String)
    ensures
        s@ == chars@,
{
    String::from_iter(chars)
}

/// `char::from_u32`: the character with this code point. Every number below 0x110000 but the
/// surrogates is one.
#[verifier::external_body]
pub(crate) fn char_of(code: u32) -> (c: char)
    requires
        code < 0xd800 || 0xe000 <= code < 0x110000,
    ensures
        c as u32 == code,
{
    char::from_u32(code).unwrap()
}

/// The characters of `s`, in order.
pub fn chars_of(s: &str) -> (chars: Vec<char>)
    ensures
        chars@ == s@,
{
    let mut chars: Vec<char> = Vec::new();
    for c in iter: s.chars()
        invariant
            chars@ == iter.seq().take(iter.index() as int),
            iter.seq() == s@,
    {
        chars.push(c);
    }
    chars
}

/// A copy of some of the characters, from `from` up to `to`.
pub fn sub_chars(chars: &Vec<char>, from: usize, to: usize) -> (part: Vec<char>)
    requires
        from <= to <= chars.len(),
    ensures
        part@ == chars@.subrange(from as int, to as int),
{
    let mut part: Vec<char> = Vec::new();
    for i in from..to
        invariant
            to <= chars.len(),
            part@ == chars@.subrange(from as int, i as int),
    {
        part.push(chars[i]);
    }
    part
}

/// Whether a character is white space.
pub fn white(c: char) -> (yes: bool)
    ensures
        yes == is_white(c),
{
    let u: u32 = c as u32;
    (0x09 <= u && u <= 0x0d) || u == 0x20 || u == 0x85 || u == 0xa0 || u == 0x1680 || (0x2000 <= u
        && u <= 0x200a) || u == 0x2028 || u == 0x2029 || u == 0x202f || u == 0x205f || u == 0x3000
}

/// Appends a text to characters.
pub fn push_text(out: &mut Vec<char>, s: &str)
    ensures
        final(out)@ == old(out)@ + s@,
{
    let ghost before = out@;
    for c in iter: s.chars()
        invariant
            out@ == before + iter.seq().take(iter.index() as int),
            iter.seq() == s@,
    {
        out.push(c);
    }
    assert(s@.take(s@.len() as int) =~= s@);
}

/// Appends characters to characters.
pub fn push_chars(out: &mut Vec<char>, more: &Vec<char>)
    ensures
        final(out)@ == old(out)@ + more@,
{
    let ghost before = out@;
    for i in 0..more.len()
        invariant
            out@ == before + more@.take(i as int),
    {
        out.push(more[i]);
    }
    assert(more@.take(more@.len() as int) =~= more@);
}

/// Whether two runs of characters are the same.
pub fn same_chars(a: &Vec<char>, b: &Vec<char>) -> (same: bool)
    ensures
        same == (a@ == b@),
{
    if a.len() != b.len() {
        return false;
    }
    for i in 0..a.len()
        invariant
            a.len() == b.len(),
            forall|j: int| 0 <= j < i ==> a[j] == b[j],
    {
        if a[i] != b[i] {
            return false;
        }
    }
    assert(a@ =~= b@);
    true
}

/// Cuts the white space at both ends.
pub fn trim(chars: &Vec<char>) -> (kept: Vec<char>)
    ensures
        kept@ == trimmed(chars@),
{
    let ghost drop = |c: char| is_white(c);
    let mut from: usize = 0;
    assert(chars@.subrange(0, chars@.len() as int) =~= chars@);
    while from < chars.len() && white(chars[from])
        invariant
            from <= chars.len(),
            drop == (|c: char| is_white(c)),
            trim_start_by(chars@, drop) == trim_start_by(
                chars@.subrange(from as int, chars@.len() as int),
                drop,
            ),
        decreases chars.len() - from,
    {
        assert(chars@.subrange(from as int, chars@.len() as int).subrange(
            1,
            chars@.len() - from,
        ) =~= chars@.subrange(from + 1, chars@.len() as int));
        from = from + 1;
    }
    let ghost front = chars@.subrange(from as int, chars@.len() as int);
    assert(trim_start_by(chars@, drop) == front);
    let mut to: usize = chars.len();
    assert(chars@.subrange(from as int, to as int) =~= front);
    while to > from && white(chars[to - 1])
        invariant
            from <= to <= chars.len(),
            drop == (|c: char| is_white(c)),
            trim_end_by(front, drop) == trim_end_by(
                chars@.subrange(from as int, to as int),
                drop,
            ),
        decreases to - from,
    {
        assert(chars@.subrange(from as int, to as int).drop_last() =~= chars@.subrange(
            from as int,
            to - 1,
        ));
        to = to - 1;
    }
    sub_chars(chars, from, to)
}

/// Cuts the NULs at the end.
pub fn trim_nuls(chars: &Vec<char>) -> (kept: Vec<char>)
    ensures
        kept@ == without_trailing_nuls(chars@),
{
    let ghost drop = |c: char| c == '\0';
    let mut to: usize = chars.len();
    assert(chars@.take(to as int) =~= chars@);
    while to > 0 && chars[to - 1] == '\0'
        invariant
            to <= chars.len(),
            drop == (|c: char| c == '\0'),
            trim_end_by(chars@, drop) == trim_end_by(chars@.take(to as int), drop),
        decreases to,
    {
        assert(chars@.take(to as int).drop_last() =~= chars@.take(to - 1));
        to = to - 1;
    }
    sub_chars(chars, 0, to)
}

/// Cuts the NULs and spaces at the end.
pub fn trim_padding(chars: &Vec<char>) -> (kept: Vec<char>)
    ensures
        kept@ == without_padding(chars@),
{
    let ghost drop = |c: char| c == '\0' || c == ' ';
    let mut to: usize = chars.len();
    assert(chars@.take(to as int) =~= chars@);
    while to > 0 && (chars[to - 1] == '\0' || chars[to - 1] == ' ')
        invariant
            to <= chars.len(),
            drop == (|c: char| c == '\0' || c == ' '),
            trim_end_by(chars@, drop) == trim_end_by(chars@.take(to as int), drop),
        decreases to,
    {
        assert(chars@.take(to as int).drop_last() =~= chars@.take(to - 1));
        to = to - 1;
    }
    sub_chars(chars, 0, to)
}

/// Lower-cases one ASCII letter.
pub fn lower(c: char) -> (l: char)
    ensures
        l == ascii_lower(c),
{
    if 'A' <= c && c <= 'Z' {
        ((c as u8) + 32) as char
    } else {
        c
    }
}

/// Whether two texts differ at most in the case of ASCII letters.
pub fn eq_ignoring_ascii_case(a: &str, b: &str) -> (same: bool)
    ensures
        same == (ascii_lowered(a@) == ascii_lowered(b@)),
{
    let x: Vec<char> = chars_of(a);
    let y: Vec<char> = chars_of(b);
    if x.len() != y.len() {
        assert(ascii_lowered(x@).len() != ascii_lowered(y@).len());
        return false;
    }
    let mut i: usize = 0;
    while i < x.len()
        invariant
            i <= x.len(),
            x.len() == y.len(),
            x@ == a@,
            y@ == b@,
            forall|j: int| 0 <= j < i ==> ascii_lower(x[j]) == ascii_lower(y[j]),
        decreases x.len() - i,
    {
        if lower(x[i]) != lower(y[i]) {
            assert(ascii_lowered(x@)[i as int] != ascii_lowered(y@)[i as int]);
            return false;
        }
        i = i + 1;
    }
    assert(ascii_lowered(x@) =~= ascii_lowered(y@));
    true
}

/// The decimal digits of a number.
pub fn decimal_chars(n: u64) -> (chars: Vec<char>)
    ensures
        chars@ == decimal(n as nat),
    decreases n,
{
    if n < 10 {
        let mut chars: Vec<char> = Vec::new();
        chars.push((48u8 + n as u8) as char);
        assert(chars@ =~= decimal(n as nat));
        chars
    } else {
        let mut chars: Vec<char> = decimal_chars(n / 10);
        chars.push((48u8 + (n % 10) as u8) as char);
        chars
    }
}

/// Puts a comma before every group of three characters, counted from the end.
pub fn group_in_threes(chars: &Vec<char>) -> (out: Vec<char>)
    ensures
        out@ == grouped(chars@),
{
    let len: usize = chars.len();
    if len <= 3 {
        return sub_chars(chars, 0, len);
    }
    let mut i: usize = (len - 1) % 3 + 1;
    let mut out: Vec<char> = sub_chars(chars, 0, i);
    assert(out@ =~= chars@.take(i as int));
    while i < len
        invariant
            0 < i <= len,
            len == chars.len(),
            (len - i) % 3 == 0,
            out@ == grouped(chars@.take(i as int)),
        decreases len - i,
    {
        let ghost next = chars@.take(i + 3);
        assert(next.take(next.len() - 3) =~= chars@.take(i as int));
        assert(next.skip(next.len() - 3) =~= seq![
            chars[i as int],
            chars[i + 1],
            chars[i + 2],
        ]);
        out.push(',');
        out.push(chars[i]);
        out.push(chars[i + 1]);
        out.push(chars[i + 2]);
        assert(out@ =~= grouped(next));
        i = i + 3;
    }
    assert(chars@.take(len as int) =~= chars@);
    out
}

/// A number in decimal with a comma before every group of three digits: `24,000,000`.
pub fn with_separators(n: u64) -> (s: String)
    ensures
        s@ == grouped(decimal(n as nat)),
{
    string_of(group_in_threes(&decimal_chars(n)))
}

/// One hexadecimal digit.
fn hex_char(d: u16) -> (c: char)
    requires
        d < 16,
    ensures
        c == hex_digit(d as nat),
{
    if d < 10 {
        (48u8 + d as u8) as char
    } else {
        (87u8 + d as u8) as char
    }
}

/// A 16-bit number as four hexadecimal digits.
pub fn hex4_chars(n: u16) -> (chars: Vec<char>)
    ensures
        chars@ == hex4(n),
{
    let mut chars: Vec<char> = Vec::new();
    chars.push(hex_char(n / 0x1000));
    chars.push(hex_char(n / 0x100 % 0x10));
    chars.push(hex_char(n / 0x10 % 0x10));
    chars.push(hex_char(n % 0x10));
    assert(chars@ =~= hex4(n));
    chars
}

/// Encodes a text in UTF-16.
pub fn encode_utf16(s: &str) -> (units: Vec<u16>)
    ensures
        units@ == utf16(s@),
{
    let chars: Vec<char> = chars_of(s);
    let mut units: Vec<u16> = Vec::new();
    let mut i: usize = 0;
    while i < chars.len()
        invariant
            i <= chars.len(),
            units@ == utf16(chars@.take(i as int)),
        decreases chars.len() - i,
    {
        let u: u32 = chars[i] as u32;
        assert(chars@.take(i + 1).drop_last() =~= chars@.take(i as int));
        if u < 0x10000 {
            units.push(u as u16);
        } else {
            units.push((0xd800 + (u - 0x10000) / 0x400) as u16);
            units.push((0xdc00 + (u - 0x10000) % 0x400) as u16);
        }
        assert(units@ =~= utf16(chars@.take(i + 1)));
        i = i + 1;
    }
    assert(chars@.take(i as int) =~= chars@);
    units
}

/// Decodes UTF-16, with U+FFFD for every surrogate without its partner.
pub fn decode_utf16_lossy(units: &Vec<u16>) -> (chars: Vec<char>)
    ensures
        chars@ == utf16_lossy(units@),
{
    let mut chars: Vec<char> = Vec::new();
    let mut i: usize = 0;
    assert(units@.skip(0) =~= units@);
    assert(chars@ + utf16_lossy(units@) =~= utf16_lossy(units@));
    while i < units.len()
        invariant
            i <= units.len(),
            chars@ + utf16_lossy(units@.skip(i as int)) == utf16_lossy(units@),
        decreases units.len() - i,
    {
        let unit: u16 = units[i];
        let ghost before = chars@;
        let ghost rest = units@.skip(i as int);
        assert(rest.skip(1) =~= units@.skip(i + 1));
        if unit < 0xd800 || 0xe000 <= unit {
            chars.push(char_of(unit as u32));
            i = i + 1;
            assert(before + (seq![unit as char] + utf16_lossy(rest.skip(1))) =~= chars@
                + utf16_lossy(rest.skip(1)));
        } else if unit < 0xdc00 && i + 1 < units.len() && 0xdc00 <= units[i + 1] && units[i + 1]
            < 0xe000 {
            let low: u16 = units[i + 1];
            assert(rest[1] == low);
            assert(rest.skip(2) =~= units@.skip(i + 2));
            chars.push(
                char_of(0x10000 + (unit as u32 - 0xd800) * 0x400 + (low as u32 - 0xdc00)),
            );
            i = i + 2;
            assert(before + (seq![surrogate_pair(unit, low)] + utf16_lossy(rest.skip(2)))
                =~= chars@ + utf16_lossy(rest.skip(2)));
        } else {
            chars.push('\u{fffd}');
            assert(i + 1 < units.len() ==> rest[1] == units[i + 1]);
            i = i + 1;
            assert(before + (seq!['\u{fffd}'] + utf16_lossy(rest.skip(1))) =~= chars@
                + utf16_lossy(rest.skip(1)));
        }
    }
    assert(chars@ + utf16_lossy(units@.skip(i as int)) =~= chars@);
    chars
}

proof fn lemma_utf16_from_the_front(s: Seq<char>)
    requires
        s.len() > 0,
    ensures
        utf16(s) == utf16_units(s[0]) + utf16(s.skip(1)),
    decreases s.len(),
{
    if s.len() == 1 {
        assert(s.drop_last() =~= Seq::empty());
        assert(s.skip(1) =~= Seq::empty());
        assert(utf16(s) =~= utf16_units(s[0]) + utf16(s.skip(1)));
    } else {
        let front = s.drop_last();
        lemma_utf16_from_the_front(front);
        assert(front.skip(1) =~= s.skip(1).drop_last());
        assert(utf16(s) =~= utf16_units(s[0]) + utf16(s.skip(1)));
    }
}

proof fn lemma_surrogates_round_trip(c: char)
    requires
        c as u32 >= 0x10000,
    ensures
        is_high_surrogate(utf16_units(c)[0]),
        is_low_surrogate(utf16_units(c)[1]),
        surrogate_pair(utf16_units(c)[0], utf16_units(c)[1]) == c,
{
    let above = c as u32 - 0x10000;
    assert(0 <= above / 0x400 < 0x400);
    assert(above / 0x400 * 0x400 + above % 0x400 == above);
}

proof fn lemma_single_units_round_trip(c: char)
    requires
        (c as u32) < 0x10000,
    ensures
        !is_high_surrogate(utf16_units(c)[0]),
        !is_low_surrogate(utf16_units(c)[0]),
        utf16_units(c)[0] as char == c,
{
}

/// A text survives the way into UTF-16 and back.
pub proof fn utf16_round_trips(s: Seq<char>)
    ensures
        utf16_lossy(utf16(s)) == s,
    decreases s.len(),
{
    if s.len() > 0 {
        lemma_utf16_from_the_front(s);
        utf16_round_trips(s.skip(1));
        let head = utf16_units(s[0]);
        let units = utf16(s);
        assert(units[0] == head[0]);
        if head.len() == 1 {
            lemma_single_units_round_trip(s[0]);
            assert(units.skip(1) =~= utf16(s.skip(1)));
        } else {
            assert(units[1] == head[1]);
            assert(units.skip(2) =~= utf16(s.skip(1)));
            lemma_surrogates_round_trip(s[0]);
        }
        assert(utf16_lossy(units) =~= s);
    }
}

// ----- laws on numbers and trimming -----

/// The number that a text spells in decimal, commas left out.
pub open spec fn amount(s: Seq<char>) -> int
    decreases s.len(),
{
    if s.len() == 0 {
        0
    } else if s.last() == ',' {
        amount(s.drop_last())
    } else {
        10 * amount(s.drop_last()) + (s.last() as u32 - 48)
    }
}

/// A number in decimal spells that number, in digits alone, and starts with no zero but for zero
/// itself.
pub proof fn decimals_spell_their_number(n: nat)
    ensures
        amount(decimal(n)) == n,
        decimal(n).len() > 0,
        forall|i: int| 0 <= i < decimal(n).len() ==> '0' <= #[trigger] decimal(n)[i] <= '9',
        n > 0 ==> decimal(n)[0] != '0',
    decreases n,
{
    let s = decimal(n);
    if n < 10 {
        assert(s.drop_last() =~= Seq::empty());
        assert(amount(Seq::<char>::empty()) == 0);
    } else {
        decimals_spell_their_number(n / 10);
        assert(s.drop_last() =~= decimal(n / 10));
        assert(s[0] == decimal(n / 10)[0]);
    }
}

/// Grouping a text of digits puts a comma at every fourth place from the end and changes neither
/// the digits nor their order.
pub proof fn commas_stand_at_every_fourth_place(s: Seq<char>)
    requires
        forall|i: int| 0 <= i < s.len() ==> '0' <= #[trigger] s[i] <= '9',
    ensures
        s.len() > 0 ==> grouped(s).len() == s.len() + (s.len() - 1) / 3,
        s.len() == 0 ==> grouped(s).len() == 0,
        forall|k: int|
            #![trigger grouped(s)[grouped(s).len() - 1 - k]]
            0 <= k < grouped(s).len() ==> grouped(s)[grouped(s).len() - 1 - k] == if k % 4 == 3 {
                ','
            } else {
                s[s.len() - 1 - (k - k / 4)]
            },
        amount(grouped(s)) == amount(s),
    decreases s.len(),
{
    if s.len() > 3 {
        let front = s.take(s.len() - 3);
        let tail = s.skip(s.len() - 3);
        commas_stand_at_every_fourth_place(front);
        let g = grouped(front);
        let all = grouped(s);
        assert(all == g.push(',') + tail);
        assert forall|k: int|
            #![trigger all[all.len() - 1 - k]]
            0 <= k < all.len() implies all[all.len() - 1 - k] == if k % 4 == 3 {
            ','
        } else {
            s[s.len() - 1 - (k - k / 4)]
        } by {
            if k < 3 {
                assert(all[all.len() - 1 - k] == tail[2 - k]);
            } else if k > 3 {
                let m = k - 4;
                assert(all[all.len() - 1 - k] == g[g.len() - 1 - m]);
                assert(m % 4 == k % 4 && m / 4 == k / 4 - 1);
                if m % 4 != 3 {
                    assert(front[front.len() - 1 - (m - m / 4)] == s[s.len() - 1 - (k - k / 4)]);
                }
            }
        }
        let (a, b, c) = (tail[0], tail[1], tail[2]);
        assert(all.drop_last() =~= g.push(',').push(a).push(b));
        assert(all.drop_last().drop_last() =~= g.push(',').push(a));
        assert(all.drop_last().drop_last().drop_last() =~= g.push(','));
        assert(g.push(',').drop_last() =~= g);
        assert(s.drop_last().drop_last().drop_last() =~= front);
        assert(amount(all.drop_last().drop_last().drop_last()) == amount(g));
        assert(all.last() == c && all.drop_last().last() == b && all.drop_last().drop_last().last()
            == a);
        assert(s.last() == c && s.drop_last().last() == b && s.drop_last().drop_last().last() == a);
        reveal_with_fuel(amount, 4);
    }
}

/// Four hexadecimal digits, in lower case, spell the number.
#[verifier::spinoff_prover]
pub proof fn hex_digits_spell_their_number(n: u16, digits: Vec<char>)
    requires
        call_ensures(hex4_chars, (n,), digits),
    ensures
        digits@.len() == 4,
        forall|i: int|
            0 <= i < 4 ==> '0' <= #[trigger] digits@[i] <= '9' || 'a' <= digits@[i] <= 'f',
        n == 4096 * hex_value(digits@[0]) + 256 * hex_value(digits@[1]) + 16 * hex_value(digits@[2])
            + hex_value(digits@[3]),
{
    lemma_hex_places(n);
    lemma_hex_digit((n / 0x1000) as nat);
    lemma_hex_digit((n / 0x100 % 0x10) as nat);
    lemma_hex_digit((n / 0x10 % 0x10) as nat);
    lemma_hex_digit((n % 0x10) as nat);
    assert(digits@[0] == hex_digit((n / 0x1000) as nat));
    assert(digits@[1] == hex_digit((n / 0x100 % 0x10) as nat));
    assert(digits@[2] == hex_digit((n / 0x10 % 0x10) as nat));
    assert(digits@[3] == hex_digit((n % 0x10) as nat));
    assert(hex_value(digits@[0]) == n / 0x1000);
    assert(hex_value(digits@[1]) == n / 0x100 % 0x10);
    assert(hex_value(digits@[2]) == n / 0x10 % 0x10);
    assert(hex_value(digits@[3]) == n % 0x10);
}

proof fn lemma_hex_places(n: u16)
    ensures
        n / 0x1000 < 16,
        n == 4096 * (n / 0x1000) + 256 * (n / 0x100 % 0x10) + 16 * (n / 0x10 % 0x10) + n % 0x10,
{
    assert(n / 0x1000 < 16 && n == 4096 * (n / 0x1000) + 256 * (n / 0x100 % 0x10) + 16 * (n / 0x10
        % 0x10) + n % 0x10) by (bit_vector);
}

proof fn lemma_hex_digit(d: nat)
    requires
        d < 16,
    ensures
        hex_value(hex_digit(d)) == d,
        '0' <= hex_digit(d) <= '9' || 'a' <= hex_digit(d) <= 'f',
{
}

/// The number that a hexadecimal digit stands for.
pub open spec fn hex_value(c: char) -> int {
    if c <= '9' {
        c as u32 - 48
    } else {
        c as u32 - 97 + 10
    }
}

/// Trimming takes a stretch of the text: all that's before it and after it is white space, and
/// neither its first nor its last character is.
pub proof fn trimming_takes_the_middle(s: Seq<char>) -> (bounds: (int, int))
    ensures
        0 <= bounds.0 <= bounds.1 <= s.len(),
        trimmed(s) == s.subrange(bounds.0, bounds.1),
        forall|i: int| 0 <= i < bounds.0 ==> is_white(#[trigger] s[i]),
        forall|i: int| bounds.1 <= i < s.len() ==> is_white(#[trigger] s[i]),
        trimmed(s).len() > 0 ==> !is_white(trimmed(s)[0]) && !is_white(trimmed(s).last()),
{
    let white = |c: char| is_white(c);
    let a = lemma_trim_start(s, white);
    let front = s.subrange(a, s.len() as int);
    let b = lemma_trim_end(front, white);
    assert(front.subrange(0, b) =~= s.subrange(a, a + b));
    assert forall|i: int| a + b <= i < s.len() implies is_white(#[trigger] s[i]) by {
        assert(white(front[i - a]));
    }
    if b > 0 {
        assert(trimmed(s)[0] == front[0]);
    }
    (a, a + b)
}

proof fn lemma_trim_start(s: Seq<char>, drop: spec_fn(char) -> bool) -> (start: int)
    ensures
        0 <= start <= s.len(),
        trim_start_by(s, drop) == s.subrange(start, s.len() as int),
        forall|i: int| 0 <= i < start ==> drop(#[trigger] s[i]),
        start < s.len() ==> !drop(s[start]),
    decreases s.len(),
{
    if s.len() > 0 && drop(s[0]) {
        let rest = s.subrange(1, s.len() as int);
        let start = lemma_trim_start(rest, drop);
        assert(rest.subrange(start, rest.len() as int) =~= s.subrange(start + 1, s.len() as int));
        assert forall|i: int| 0 <= i < start + 1 implies drop(#[trigger] s[i]) by {
            if i > 0 {
                assert(drop(rest[i - 1]));
            }
        }
        start + 1
    } else {
        assert(s.subrange(0, s.len() as int) =~= s);
        0
    }
}

proof fn lemma_trim_end(s: Seq<char>, drop: spec_fn(char) -> bool) -> (end: int)
    ensures
        0 <= end <= s.len(),
        trim_end_by(s, drop) == s.subrange(0, end),
        forall|i: int| end <= i < s.len() ==> drop(#[trigger] s[i]),
        end > 0 ==> !drop(s[end - 1]),
    decreases s.len(),
{
    if s.len() > 0 && drop(s.last()) {
        let end = lemma_trim_end(s.drop_last(), drop);
        assert(s.drop_last().subrange(0, end) =~= s.subrange(0, end));
        assert forall|i: int| end <= i < s.len() implies drop(#[trigger] s[i]) by {
            if i < s.len() - 1 {
                assert(drop(s.drop_last()[i]));
            }
        }
        end
    } else {
        assert(s.subrange(0, s.len() as int) =~= s);
        s.len() as int
    }
}

/// Cutting NULs takes the front of the text: only NULs follow it, and it doesn't end with one.
/// Cutting padding does the same with spaces as well.
pub proof fn cutting_takes_the_front(s: Seq<char>) -> (ends: (int, int))
    ensures
        0 <= ends.0 <= s.len(),
        without_trailing_nuls(s) == s.subrange(0, ends.0),
        forall|i: int| ends.0 <= i < s.len() ==> #[trigger] s[i] == '\0',
        ends.0 > 0 ==> s[ends.0 - 1] != '\0',
        0 <= ends.1 <= s.len(),
        without_padding(s) == s.subrange(0, ends.1),
        forall|i: int| ends.1 <= i < s.len() ==> #[trigger] s[i] == '\0' || s[i] == ' ',
        ends.1 > 0 ==> s[ends.1 - 1] != '\0' && s[ends.1 - 1] != ' ',
{
    let a = lemma_trim_end(s, |c: char| c == '\0');
    let b = lemma_trim_end(s, |c: char| c == '\0' || c == ' ');
    (a, b)
}

/// What counts as white space: the space, the tab and the line ends do, and no visible character
/// of ASCII does.
pub proof fn visible_characters_are_not_white(c: char)
    ensures
        c == ' ' || c == '\t' || c == '\n' || c == '\r' ==> is_white(c),
        '!' <= c <= '~' ==> !is_white(c),
        c == '\u{a0}' || c == '\u{2003}' || c == '\u{3000}' ==> is_white(c),
{
}

/// Lower case moves the 26 capitals of ASCII to their small letters and nothing else.
pub proof fn lower_case_moves_capitals_only(c: char)
    ensures
        'A' <= c <= 'Z' ==> ascii_lower(c) as u32 == c as u32 + 32 && 'a' <= ascii_lower(c) <= 'z',
        !('A' <= c <= 'Z') ==> ascii_lower(c) == c,
{
}

/// A text's UTF-16 grows by one unit for a character below 0x10000, which is its number, and by a
/// high and a low surrogate for one above.
pub proof fn units_follow_the_characters(s: Seq<char>, c: char)
    ensures
        utf16(Seq::<char>::empty()).len() == 0,
        c as u32 <= 0xffff ==> utf16(s.push(c)) == utf16(s).push(c as u16),
        c as u32 > 0xffff ==> {
            let more = utf16(s.push(c));
            &&& more.len() == utf16(s).len() + 2
            &&& more.take(more.len() - 2) == utf16(s)
            &&& 0xd800 <= more[more.len() - 2] < 0xdc00
            &&& 0xdc00 <= more[more.len() - 1] < 0xe000
            &&& (more[more.len() - 2] - 0xd800) * 0x400 + (more[more.len() - 1] - 0xdc00) + 0x10000
                == c as u32
        },
{
    assert(s.push(c).drop_last() =~= s);
    let more = utf16(s.push(c));
    if c as u32 <= 0xffff {
        assert(more =~= utf16(s).push(c as u16));
    } else {
        assert(more.take(more.len() - 2) =~= utf16(s));
    }
}

/// UTF-16 is read from the front: a unit that's no surrogate is its character, a pair is one
/// character beyond the first 65,536, and a surrogate without its partner is U+FFFD. The rest is
/// read as it would be by itself.
pub proof fn units_are_read_from_the_front(
    units: &Vec<u16>,
    chars: Vec<char>,
    after_one: &Vec<u16>,
    one_less: Vec<char>,
    after_two: &Vec<u16>,
    two_less: Vec<char>,
)
    requires
        call_ensures(decode_utf16_lossy, (units,), chars),
        call_ensures(decode_utf16_lossy, (after_one,), one_less),
        call_ensures(decode_utf16_lossy, (after_two,), two_less),
        units@.len() > 0,
        after_one@ == units@.skip(1),
        units@.len() > 1 ==> after_two@ == units@.skip(2),
    ensures
        chars@.len() > 0,
        units@[0] < 55_296 || units@[0] >= 57_344 ==> chars@[0] as u32 == units@[0]
            && chars@.skip(1) == one_less@,
        55_296 <= units@[0] < 56_320 && units@.len() > 1 && 56_320 <= units@[1] < 57_344
            ==> chars@[0] as u32 == 65_536 + (units@[0] - 55_296) * 1_024 + (units@[1] - 56_320)
            && chars@.skip(1) == two_less@,
        55_296 <= units@[0] < 56_320 && (units@.len() == 1 || units@[1] < 56_320 || units@[1]
            >= 57_344) ==> chars@[0] as u32 == 65_533 && chars@.skip(1) == one_less@,
        56_320 <= units@[0] < 57_344 ==> chars@[0] as u32 == 65_533 && chars@.skip(1) == one_less@,
{
    if units@[0] < 55_296 || units@[0] >= 57_344 || !(units@[0] < 56_320 && units@.len() > 1
        && 56_320 <= units@[1] < 57_344) {
        assert(chars@.skip(1) =~= one_less@);
    } else {
        assert(chars@.skip(1) =~= two_less@);
    }
}

/// Two texts are the same but for capitals exactly where each character of one is that of the
/// other, or its capital, or what it's the capital of.
pub proof fn capitals_do_not_count(a: &str, b: &str, same: bool)
    requires
        call_ensures(eq_ignoring_ascii_case, (a, b), same),
    ensures
        same <==> a@.len() == b@.len() && forall|i: int|
            0 <= i < a@.len() ==> ({
                ||| #[trigger] a@[i] == b@[i]
                ||| 'A' <= a@[i] <= 'Z' && b@[i] as int == a@[i] as int + 32
                ||| 'A' <= b@[i] <= 'Z' && a@[i] as int == b@[i] as int + 32
            }),
{
    let x = ascii_lowered(a@);
    let y = ascii_lowered(b@);
    assert(x.len() == a@.len() && y.len() == b@.len());
    if a@.len() == b@.len() {
        assert forall|i: int| 0 <= i < a@.len() implies (x[i] == y[i]) == ({
            ||| #[trigger] a@[i] == b@[i]
            ||| 'A' <= a@[i] <= 'Z' && b@[i] as int == a@[i] as int + 32
            ||| 'A' <= b@[i] <= 'Z' && a@[i] as int == b@[i] as int + 32
        }) by {
            assert(x[i] == ascii_lower(a@[i]) && y[i] == ascii_lower(b@[i]));
        }
        if same {
            assert forall|i: int| 0 <= i < a@.len() implies ({
                ||| #[trigger] a@[i] == b@[i]
                ||| 'A' <= a@[i] <= 'Z' && b@[i] as int == a@[i] as int + 32
                ||| 'A' <= b@[i] <= 'Z' && a@[i] as int == b@[i] as int + 32
            }) by {
                assert(x[i] == y[i]);
            }
        } else {
            assert(!(x =~= y));
        }
    }
}

} // verus!
