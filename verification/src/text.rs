//! Character-level text operations and what they mean.
//!
//! A text is modelled by the sequence of its characters.

use vstd::prelude::*;

verus! {

broadcast use crate::model::group_model;

/// Rust's `String::push` appends one character.
pub assume_specification[ String::push ](text: &mut String, c: char)
    ensures
        final(text)@ == old(text)@.push(c),
;

/// Rust's `String::push_str` appends a whole text.
pub assume_specification[ String::push_str ](text: &mut String, tail: &str)
    ensures
        final(text)@ == old(text)@ + tail@,
;

/// Rust's `==` on `str`: two texts are equal when they hold the same characters.
#[verifier::external_body]
pub(crate) fn same_text(a: &str, b: &str) -> (r: bool)
    ensures
        r == (a@ == b@),
{
    a == b
}

/// What `{:?}` writes for a text: the text in double quotes, with escapes.
pub uninterp spec fn debug_text(text: Seq<char>) -> Seq<char>;

/// Rust's `{:?}` formatting of a `str`, which depends on the text alone.
#[verifier::external_body]
pub(crate) fn debug(text: &str) -> (r: String)
    ensures
        r@ == debug_text(text@),
{
    format!("{:?}", text)
}

/// Building a text from its parts.
pub(crate) trait Plus: Sized {
    /// The text so far.
    spec fn so_far(self) -> Seq<char>;

    /// Appends a part.
    fn plus(self, part: &str) -> (r: String)
        ensures
            r@ == self.so_far() + part@,
    ;
}

impl Plus for String {
    open spec fn so_far(self) -> Seq<char> {
        self@
    }

    fn plus(self, part: &str) -> (r: String) {
        let mut out = self;
        out.push_str(part);
        out
    }
}

/// Whether the text is one of the candidates.
pub(crate) fn is_among(text: &str, candidates: &Vec<&'static str>) -> (r: bool)
    ensures
        r == candidates.deep_view().contains(text@),
{
    let mut i: usize = 0;
    while i < candidates.len()
        invariant
            i <= candidates.len(),
            forall|j: int| 0 <= j < i ==> #[trigger] candidates.deep_view()[j] != text@,
        decreases candidates.len() - i,
    {
        if same_text(candidates[i], text) {
            assert(candidates.deep_view()[i as int] == text@);
            return true;
        }
        i += 1;
    }
    false
}

/// Whether the text is one of the items.
pub(crate) fn is_member(text: &str, items: &Vec<String>) -> (r: bool)
    ensures
        r == items.deep_view().contains(text@),
{
    let mut i: usize = 0;
    while i < items.len()
        invariant
            i <= items.len(),
            forall|j: int| 0 <= j < i ==> #[trigger] items.deep_view()[j] != text@,
        decreases items.len() - i,
    {
        if same_text(items[i].as_str(), text) {
            assert(items.deep_view()[i as int] == text@);
            return true;
        }
        i += 1;
    }
    false
}

// ---------------------------------------------------------------------------
// Character classes
// ---------------------------------------------------------------------------

/// The characters with the Unicode property `White_Space`.
pub open spec fn white_space(c: char) -> bool {
    let n = c as u32;
    ||| 0x9 <= n <= 0xd
    ||| n == 0x20
    ||| n == 0x85
    ||| n == 0xa0
    ||| n == 0x1680
    ||| 0x2000 <= n <= 0x200a
    ||| n == 0x2028
    ||| n == 0x2029
    ||| n == 0x202f
    ||| n == 0x205f
    ||| n == 0x3000
}

/// `a` to `z`.
pub open spec fn lower(c: char) -> bool {
    'a' <= c <= 'z'
}

/// `A` to `Z`.
pub open spec fn upper(c: char) -> bool {
    'A' <= c <= 'Z'
}

/// `0` to `9`.
pub open spec fn digit(c: char) -> bool {
    '0' <= c <= '9'
}

/// ASCII letters, ASCII digits and the underscore.
pub open spec fn word(c: char) -> bool {
    lower(c) || upper(c) || digit(c) || c == '_'
}

/// Whether the character has the Unicode property `White_Space`.
pub(crate) fn is_white_space(c: char) -> (r: bool)
    ensures
        r == white_space(c),
{
    let n: u32 = c as u32;
    (0x9 <= n && n <= 0xd) || n == 0x20 || n == 0x85 || n == 0xa0 || n == 0x1680 || (0x2000 <= n
        && n <= 0x200a) || n == 0x2028 || n == 0x2029 || n == 0x202f || n == 0x205f || n == 0x3000
}

/// Whether the character is one of `a` to `z`.
pub(crate) fn is_lower(c: char) -> (r: bool)
    ensures
        r == lower(c),
{
    'a' <= c && c <= 'z'
}

/// Whether the character is one of `A` to `Z`.
pub(crate) fn is_upper(c: char) -> (r: bool)
    ensures
        r == upper(c),
{
    'A' <= c && c <= 'Z'
}

/// Whether the character is one of `0` to `9`.
pub(crate) fn is_digit(c: char) -> (r: bool)
    ensures
        r == digit(c),
{
    '0' <= c && c <= '9'
}

/// The ASCII capital of an ASCII small letter; other characters stay.
pub open spec fn upper_char(c: char) -> char {
    if lower(c) {
        (c as u8 - 32) as char
    } else {
        c
    }
}

/// The ASCII small letter of an ASCII capital; other characters stay.
pub open spec fn lower_char(c: char) -> char {
    if upper(c) {
        (c as u8 + 32) as char
    } else {
        c
    }
}

/// Every ASCII small letter replaced by its capital.
pub open spec fn upper_text(text: Seq<char>) -> Seq<char> {
    Seq::new(text.len(), |i: int| upper_char(text[i]))
}

/// Every ASCII capital replaced by its small letter.
pub open spec fn lower_text(text: Seq<char>) -> Seq<char> {
    Seq::new(text.len(), |i: int| lower_char(text[i]))
}

// ---------------------------------------------------------------------------
// Conversion
// ---------------------------------------------------------------------------

/// The characters of a text.
pub(crate) fn chars(text: &str) -> (r: Vec<char>)
    ensures
        r@ == text@,
{
    let mut out: Vec<char> = Vec::new();
    for c in it: text.chars()
        invariant
            out@ == text@.take(it.index()),
            it.seq() == text@,
    {
        out.push(c);
        assert(text@.take(it.index() + 1) == text@.take(it.index()).push(c));
    }
    assert(text@.take(text@.len() as int) == text@);
    out
}

/// The text of a run of characters.
pub(crate) fn from_chars(chars: &Vec<char>) -> (r: String)
    ensures
        r@ == chars@,
{
    let mut out = String::new();
    let mut i: usize = 0;
    while i < chars.len()
        invariant
            i <= chars.len(),
            out@ == chars@.take(i as int),
        decreases chars.len() - i,
    {
        out.push(chars[i]);
        assert(chars@.take(i + 1) == chars@.take(i as int).push(chars@[i as int]));
        i += 1;
    }
    assert(chars@.take(chars@.len() as int) == chars@);
    out
}

/// The characters from `from` up to `to`.
pub(crate) fn part(chars: &Vec<char>, from: usize, to: usize) -> (r: Vec<char>)
    requires
        from <= to <= chars@.len(),
    ensures
        r@ == chars@.subrange(from as int, to as int),
{
    let mut out: Vec<char> = Vec::new();
    let mut i: usize = from;
    while i < to
        invariant
            from <= i <= to <= chars@.len(),
            out@ == chars@.subrange(from as int, i as int),
        decreases to - i,
    {
        out.push(chars[i]);
        assert(chars@.subrange(from as int, i + 1) == chars@.subrange(from as int, i as int).push(
            chars@[i as int],
        ));
        i += 1;
    }
    out
}

/// Every ASCII small letter replaced by its capital.
pub(crate) fn to_upper(chars: &Vec<char>) -> (r: Vec<char>)
    ensures
        r@ == upper_text(chars@),
{
    let mut out: Vec<char> = Vec::new();
    let mut i: usize = 0;
    while i < chars.len()
        invariant
            i <= chars.len(),
            out@ == upper_text(chars@).take(i as int),
        decreases chars.len() - i,
    {
        let c = chars[i];
        if is_lower(c) {
            out.push((c as u8 - 32) as char);
        } else {
            out.push(c);
        }
        assert(upper_text(chars@).take(i + 1) == upper_text(chars@).take(i as int).push(
            upper_char(c),
        ));
        i += 1;
    }
    assert(upper_text(chars@).take(chars@.len() as int) == upper_text(chars@));
    out
}

/// Every ASCII capital replaced by its small letter.
pub(crate) fn to_lower(chars: &Vec<char>) -> (r: Vec<char>)
    ensures
        r@ == lower_text(chars@),
{
    let mut out: Vec<char> = Vec::new();
    let mut i: usize = 0;
    while i < chars.len()
        invariant
            i <= chars.len(),
            out@ == lower_text(chars@).take(i as int),
        decreases chars.len() - i,
    {
        let c = chars[i];
        if is_upper(c) {
            out.push((c as u8 + 32) as char);
        } else {
            out.push(c);
        }
        assert(lower_text(chars@).take(i + 1) == lower_text(chars@).take(i as int).push(
            lower_char(c),
        ));
        i += 1;
    }
    assert(lower_text(chars@).take(chars@.len() as int) == lower_text(chars@));
    out
}

/// The text of the error for bytes that are not UTF-8.
pub uninterp spec fn utf8_error(bytes: Seq<u8>) -> Seq<char>;

/// Rust's `String::from_utf8`, which accepts exactly the UTF-8 byte sequences. The text of its
/// error depends on the bytes alone.
#[verifier::external_body]
pub(crate) fn decode_text(bytes: Vec<u8>) -> (r: Result<String, String>)
    ensures
        match r {
            Ok(text) => vstd::utf8::valid_utf8(bytes@) && vstd::utf8::encode_utf8(text@) == bytes@,
            Err(message) => !vstd::utf8::valid_utf8(bytes@) && message@ == utf8_error(bytes@),
        },
{
    String::from_utf8(bytes).map_err(|error| error.to_string())
}

/// The characters of UTF-8 bytes.
pub open spec fn text_of(bytes: Seq<u8>) -> Seq<char> {
    vstd::utf8::decode_utf8(bytes)
}

/// Reads bytes as UTF-8.
pub(crate) fn read_text(bytes: &Vec<u8>) -> (r: Result<String, String>)
    ensures
        match r {
            Ok(text) => vstd::utf8::valid_utf8(bytes@) && text@ == text_of(bytes@),
            Err(message) => !vstd::utf8::valid_utf8(bytes@) && message@ == utf8_error(bytes@),
        },
{
    match decode_text(crate::model::copy_bytes(bytes)) {
        Ok(text) => {
            proof {
                vstd::utf8::encode_utf8_decode_utf8(text@);
            }
            Ok(text)
        },
        Err(message) => Err(message),
    }
}

// ---------------------------------------------------------------------------
// Numbers
// ---------------------------------------------------------------------------

/// The character of a decimal digit.
pub open spec fn digit_char(n: nat) -> char {
    (48 + n) as char
}

/// A number in decimal, without leading zeros.
pub open spec fn decimal_text(n: nat) -> Seq<char>
    decreases n,
{
    if n < 10 {
        seq![digit_char(n)]
    } else {
        decimal_text(n / 10).push(digit_char(n % 10))
    }
}

/// Writes a number in decimal.
pub(crate) fn decimal(n: u64) -> (r: String)
    ensures
        r@ == decimal_text(n as nat),
    decreases n,
{
    let last: u8 = (n % 10) as u8;
    let mut out = if n < 10 {
        String::new()
    } else {
        decimal(n / 10)
    };
    out.push((48 + last) as char);
    assert(Seq::<char>::empty().push(digit_char(last as nat)) =~= seq![digit_char(last as nat)]);
    out
}

/// Only decimal digits, and at least one.
pub open spec fn digits(text: Seq<char>) -> bool {
    text.len() > 0 && forall|i: int| 0 <= i < text.len() ==> digit(#[trigger] text[i])
}

/// The number that decimal digits stand for.
pub open spec fn number_of(text: Seq<char>) -> nat
    decreases text.len(),
{
    if text.len() == 0 {
        0
    } else {
        number_of(text.drop_last()) * 10 + (text.last() as int - 48) as nat
    }
}

/// The number that a text stands for: decimal digits behind an optional plus sign.
pub open spec fn numeral(text: Seq<char>) -> Option<nat> {
    if digits(text) {
        Some(number_of(text))
    } else if text.len() > 1 && text[0] == '+' && digits(text.drop_first()) {
        Some(number_of(text.drop_first()))
    } else {
        None
    }
}

/// The text of the error for a text that stands for no 64-bit number.
pub uninterp spec fn number_error(text: Seq<char>) -> Seq<char>;

/// Rust's `str::parse::<u64>`, which accepts an optional plus sign and then digits only, up to
/// the largest number that fits. The text of its error depends on the parsed text alone.
#[verifier::external_body]
pub(crate) fn parse_number(text: &str) -> (r: Result<u64, String>)
    ensures
        match r {
            Ok(n) => numeral(text@) == Some(n as nat),
            Err(message) => message@ == number_error(text@) && match numeral(text@) {
                Some(n) => n > u64::MAX,
                None => true,
            },
        },
{
    text.parse::<u64>().map_err(|error| error.to_string())
}

/// A number written in decimal reads back as that number.
pub proof fn decimal_reads_back(n: nat)
    ensures
        digits(decimal_text(n)),
        number_of(decimal_text(n)) == n,
        numeral(decimal_text(n)) == Some(n),
    decreases n,
{
    let text = decimal_text(n);
    if n < 10 {
        assert(text.drop_last() =~= Seq::<char>::empty());
        reveal_with_fuel(number_of, 2);
        assert(digit(digit_char(n)));
    } else {
        decimal_reads_back(n / 10);
        let before = decimal_text(n / 10);
        assert(text.drop_last() =~= before);
        assert forall|i: int| 0 <= i < text.len() implies digit(#[trigger] text[i]) by {
            if i < before.len() {
                assert(text[i] == before[i]);
            }
        }
    }
}

/// Different numbers are written differently.
pub proof fn decimal_tells_apart(a: nat, b: nat)
    requires
        decimal_text(a) == decimal_text(b),
    ensures
        a == b,
{
    decimal_reads_back(a);
    decimal_reads_back(b);
}

// ---------------------------------------------------------------------------
// Trimming
// ---------------------------------------------------------------------------

/// The text without its leading white space.
pub open spec fn trim_start(text: Seq<char>) -> Seq<char>
    decreases text.len(),
{
    if text.len() > 0 && white_space(text[0]) {
        trim_start(text.drop_first())
    } else {
        text
    }
}

/// The text without its trailing white space.
pub open spec fn trim_end(text: Seq<char>) -> Seq<char>
    decreases text.len(),
{
    if text.len() > 0 && white_space(text.last()) {
        trim_end(text.drop_last())
    } else {
        text
    }
}

/// The text without white space at either end.
pub open spec fn trim_text(text: Seq<char>) -> Seq<char> {
    trim_end(trim_start(text))
}

/// The text without the given character at its end.
pub open spec fn trim_end_mark(text: Seq<char>, mark: char) -> Seq<char>
    decreases text.len(),
{
    if text.len() > 0 && text.last() == mark {
        trim_end_mark(text.drop_last(), mark)
    } else {
        text
    }
}

/// Removes white space from either end.
pub(crate) fn trim(chars: &Vec<char>) -> (r: Vec<char>)
    ensures
        r@ == trim_text(chars@),
{
    let mut from: usize = 0;
    assert(chars@.skip(0) == chars@);
    while from < chars.len() && is_white_space(chars[from])
        invariant
            from <= chars@.len(),
            trim_start(chars@) == trim_start(chars@.skip(from as int)),
        decreases chars.len() - from,
    {
        assert(chars@.skip(from as int).drop_first() == chars@.skip(from + 1));
        from += 1;
    }
    let ghost rest = chars@.skip(from as int);
    assert(trim_start(chars@) == rest);
    let mut to: usize = chars.len();
    assert(rest.take(rest.len() as int) == rest);
    while from < to && is_white_space(chars[to - 1])
        invariant
            from <= to <= chars@.len(),
            rest == chars@.skip(from as int),
            trim_end(rest) == trim_end(rest.take(to - from)),
        decreases to,
    {
        assert(rest.take(to - from).drop_last() == rest.take(to - from - 1));
        to -= 1;
    }
    assert(rest.take(to - from) == chars@.subrange(from as int, to as int));
    part(chars, from, to)
}

/// Removes every copy of the character from the end.
pub(crate) fn trim_mark(chars: &Vec<char>, mark: char) -> (r: Vec<char>)
    ensures
        r@ == trim_end_mark(chars@, mark),
{
    let mut to: usize = chars.len();
    assert(chars@.take(chars@.len() as int) == chars@);
    while 0 < to && chars[to - 1] == mark
        invariant
            to <= chars@.len(),
            trim_end_mark(chars@, mark) == trim_end_mark(chars@.take(to as int), mark),
        decreases to,
    {
        assert(chars@.take(to as int).drop_last() == chars@.take(to - 1));
        to -= 1;
    }
    assert(chars@.take(to as int) == chars@.subrange(0, to as int));
    part(chars, 0, to)
}

// ---------------------------------------------------------------------------
// Splitting and joining
// ---------------------------------------------------------------------------

/// What ends a field.
#[derive(Clone, Copy, Debug, PartialEq, Eq)]
pub enum Separator {
    /// One given character.
    Mark(char),
    /// Any character outside ASCII letters, digits and the underscore.
    NonWord,
    /// Any white space.
    Blank,
}

impl Separator {
    /// Whether the character ends a field.
    pub open spec fn ends(self, c: char) -> bool {
        match self {
            Separator::Mark(mark) => c == mark,
            Separator::NonWord => !word(c),
            Separator::Blank => white_space(c),
        }
    }

    fn is_end(self, c: char) -> (r: bool)
        ensures
            r == self.ends(c),
    {
        match self {
            Separator::Mark(mark) => c == mark,
            Separator::NonWord => !(is_lower(c) || is_upper(c) || is_digit(c) || c == '_'),
            Separator::Blank => is_white_space(c),
        }
    }
}

/// The fields of a text: there is one more field than there are separators, and a field may be
/// empty.
pub open spec fn fields(text: Seq<char>, separator: Separator) -> Seq<Seq<char>>
    decreases text.len(),
{
    if text.len() == 0 {
        seq![Seq::<char>::empty()]
    } else {
        let before = fields(text.drop_last(), separator);
        if separator.ends(text.last()) {
            before.push(Seq::empty())
        } else {
            before.update(before.len() - 1, before.last().push(text.last()))
        }
    }
}

/// The pieces that are not empty.
pub open spec fn occupied(pieces: Seq<Seq<char>>) -> Seq<Seq<char>>
    decreases pieces.len(),
{
    if pieces.len() == 0 {
        seq![]
    } else if pieces.last().len() == 0 {
        occupied(pieces.drop_last())
    } else {
        occupied(pieces.drop_last()).push(pieces.last())
    }
}

/// The pieces in order, with the separator between neighbours.
pub open spec fn joined(pieces: Seq<Seq<char>>, separator: Seq<char>) -> Seq<char>
    decreases pieces.len(),
{
    if pieces.len() == 0 {
        seq![]
    } else if pieces.len() == 1 {
        pieces[0]
    } else {
        joined(pieces.drop_last(), separator) + separator + pieces.last()
    }
}

/// A line without the carriage return that ends it, if one does.
pub open spec fn without_return(line: Seq<char>) -> Seq<char> {
    if line.len() > 0 && line.last() == '\r' {
        line.drop_last()
    } else {
        line
    }
}

/// The lines of a text. A line ends at a line feed, which may follow a carriage return; what
/// follows the last line feed is a line unless it is empty.
pub open spec fn lines_of(text: Seq<char>) -> Seq<Seq<char>> {
    let pieces = fields(text, Separator::Mark('\n'));
    let ended = Seq::new((pieces.len() - 1) as nat, |i: int| without_return(pieces[i]));
    if pieces.last().len() == 0 {
        ended
    } else {
        ended.push(pieces.last())
    }
}

/// A text has at least one field.
pub proof fn fields_not_empty(text: Seq<char>, separator: Separator)
    ensures
        fields(text, separator).len() > 0,
    decreases text.len(),
{
    if text.len() > 0 {
        fields_not_empty(text.drop_last(), separator);
    }
}

/// Splits a text into its fields.
pub(crate) fn split(chars: &Vec<char>, separator: Separator) -> (r: Vec<Vec<char>>)
    ensures
        r.deep_view() == fields(chars@, separator),
{
    let mut out: Vec<Vec<char>> = Vec::new();
    let mut current: Vec<char> = Vec::new();
    let mut i: usize = 0;
    assert(out.deep_view().push(current@) =~= seq![Seq::<char>::empty()]);
    while i < chars.len()
        invariant
            i <= chars.len(),
            out.deep_view().push(current@) == fields(chars@.take(i as int), separator),
        decreases chars.len() - i,
    {
        let c = chars[i];
        let ghost before = out.deep_view().push(current@);
        assert(chars@.take(i + 1).drop_last() == chars@.take(i as int));
        if separator.is_end(c) {
            let ghost earlier = out.deep_view();
            let ghost field = current@;
            out.push(current);
            current = Vec::new();
            assert(out.deep_view() =~= earlier.push(field));
            assert(out.deep_view().push(current@) =~= before.push(Seq::<char>::empty()));
        } else {
            current.push(c);
            assert(out.deep_view().push(current@) =~= before.update(
                before.len() - 1,
                before.last().push(c),
            ));
        }
        i += 1;
    }
    assert(chars@.take(chars@.len() as int) == chars@);
    let ghost earlier = out.deep_view();
    let ghost field = current@;
    out.push(current);
    assert(out.deep_view() =~= earlier.push(field));
    out
}

/// Keeps the pieces that are not empty.
pub(crate) fn keep_occupied(pieces: Vec<Vec<char>>) -> (r: Vec<Vec<char>>)
    ensures
        r.deep_view() == occupied(pieces.deep_view()),
{
    let mut out: Vec<Vec<char>> = Vec::new();
    let mut i: usize = 0;
    assert(out.deep_view() =~= occupied(pieces.deep_view().take(0)));
    while i < pieces.len()
        invariant
            i <= pieces.len(),
            out.deep_view() == occupied(pieces.deep_view().take(i as int)),
        decreases pieces.len() - i,
    {
        assert(pieces.deep_view().take(i + 1).drop_last() == pieces.deep_view().take(i as int));
        if pieces[i].len() > 0 {
            let piece = part(&pieces[i], 0, pieces[i].len());
            assert(piece@ =~= pieces@[i as int]@);
            out.push(piece);
        }
        i += 1;
    }
    assert(pieces.deep_view().take(pieces.len() as int) == pieces.deep_view());
    out
}

/// Writes the pieces in order, with the separator between neighbours.
pub(crate) fn join(pieces: &Vec<Vec<char>>, separator: char) -> (r: Vec<char>)
    ensures
        r@ == joined(pieces.deep_view(), seq![separator]),
{
    let mut out: Vec<char> = Vec::new();
    let mut i: usize = 0;
    assert(out@ =~= joined(pieces.deep_view().take(0), seq![separator]));
    while i < pieces.len()
        invariant
            i <= pieces.len(),
            out@ == joined(pieces.deep_view().take(i as int), seq![separator]),
        decreases pieces.len() - i,
    {
        let ghost all = pieces.deep_view();
        assert(all.take(i + 1).drop_last() == all.take(i as int));
        let mut piece = part(&pieces[i], 0, pieces[i].len());
        assert(piece@ =~= all[i as int]);
        let ghost before = out@;
        if i > 0 {
            out.push(separator);
            assert(out@ =~= before + seq![separator]);
        }
        let ghost start = out@;
        out.append(&mut piece);
        assert(out@ =~= start + all[i as int]);
        assert(out@ =~= joined(all.take(i + 1), seq![separator]));
        i += 1;
    }
    assert(pieces.deep_view().take(pieces.len() as int) == pieces.deep_view());
    out
}

/// Splits a text into its lines.
pub(crate) fn lines(chars: &Vec<char>) -> (r: Vec<Vec<char>>)
    ensures
        r.deep_view() == lines_of(chars@),
{
    let pieces = split(chars, Separator::Mark('\n'));
    proof {
        fields_not_empty(chars@, Separator::Mark('\n'));
    }
    let last: usize = pieces.len() - 1;
    let mut out: Vec<Vec<char>> = Vec::new();
    let ghost all = pieces.deep_view();
    let ghost ended = Seq::new((all.len() - 1) as nat, |i: int| without_return(all[i]));
    let mut i: usize = 0;
    while i < last
        invariant
            i <= last,
            last == pieces.len() - 1,
            all == pieces.deep_view(),
            ended == Seq::new((all.len() - 1) as nat, |i: int| without_return(all[i])),
            out.deep_view() == ended.take(i as int),
        decreases last - i,
    {
        let piece = &pieces[i];
        let size = piece.len();
        let end: usize = if size > 0 && piece[size - 1] == '\r' {
            size - 1
        } else {
            size
        };
        let line = part(piece, 0, end);
        assert(line@ =~= without_return(all[i as int]));
        out.push(line);
        assert(ended.take(i + 1) == ended.take(i as int).push(without_return(all[i as int])));
        i += 1;
    }
    assert(ended.take(last as int) == ended);
    if pieces[last].len() > 0 {
        let line = part(&pieces[last], 0, pieces[last].len());
        assert(line@ =~= all.last());
        out.push(line);
    }
    out
}

/// The prefix at the start of the text.
pub open spec fn starts_with(text: Seq<char>, prefix: Seq<char>) -> bool {
    prefix.len() <= text.len() && text.take(prefix.len() as int) == prefix
}

/// The pattern stands in the text at the position.
pub open spec fn occurs_at(text: Seq<char>, pattern: Seq<char>, at: int) -> bool {
    0 <= at && at + pattern.len() <= text.len() && text.subrange(at, at + pattern.len()) == pattern
}

/// The first position, at or after `from`, at which the pattern stands in the text.
pub open spec fn first_from(text: Seq<char>, pattern: Seq<char>, from: int) -> Option<int>
    decreases text.len() + 1 - from,
{
    if from + pattern.len() > text.len() {
        None
    } else if occurs_at(text, pattern, from) {
        Some(from)
    } else {
        first_from(text, pattern, from + 1)
    }
}

/// The first position at which the pattern stands in the text.
pub open spec fn first_of(text: Seq<char>, pattern: Seq<char>) -> Option<int> {
    first_from(text, pattern, 0)
}

/// The last position at which the character stands in the text.
pub open spec fn last_of(text: Seq<char>, mark: char) -> Option<int>
    decreases text.len(),
{
    if text.len() == 0 {
        None
    } else if text.last() == mark {
        Some(text.len() - 1)
    } else {
        last_of(text.drop_last(), mark)
    }
}

/// What stands before and after the first copy of the pattern.
pub open spec fn cut_at(text: Seq<char>, pattern: Seq<char>) -> Option<(Seq<char>, Seq<char>)> {
    match first_of(text, pattern) {
        Some(at) => Some((text.take(at), text.skip(at + pattern.len()))),
        None => None,
    }
}

/// What stands before and after the last copy of the character.
pub open spec fn cut_at_last(text: Seq<char>, mark: char) -> Option<(Seq<char>, Seq<char>)> {
    match last_of(text, mark) {
        Some(at) => Some((text.take(at), text.skip(at + 1))),
        None => None,
    }
}

/// A position that `first_from` gives is one at which the pattern stands.
pub proof fn first_from_occurs(text: Seq<char>, pattern: Seq<char>, from: int)
    requires
        0 <= from,
    ensures
        first_from(text, pattern, from) matches Some(at) ==> from <= at && occurs_at(
            text,
            pattern,
            at,
        ),
    decreases text.len() + 1 - from,
{
    if from + pattern.len() <= text.len() && !occurs_at(text, pattern, from) {
        first_from_occurs(text, pattern, from + 1);
    }
}

/// A position that `last_of` gives lies in the text.
pub proof fn last_of_inside(text: Seq<char>, mark: char)
    ensures
        last_of(text, mark) matches Some(at) ==> 0 <= at < text.len() && text[at] == mark,
    decreases text.len(),
{
    if text.len() > 0 && text.last() != mark {
        last_of_inside(text.drop_last(), mark);
    }
}

/// Whether the pattern stands in the text at the position.
fn stands_at(chars: &Vec<char>, pattern: &Vec<char>, at: usize) -> (r: bool)
    requires
        at + pattern@.len() <= chars@.len(),
    ensures
        r == occurs_at(chars@, pattern@, at as int),
{
    let size: usize = chars.len();
    let mut i: usize = 0;
    while i < pattern.len()
        invariant
            i <= pattern@.len(),
            at + pattern@.len() <= chars@.len(),
            size == chars@.len(),
            forall|j: int| 0 <= j < i ==> chars@[at + j] == pattern@[j],
        decreases pattern.len() - i,
    {
        if chars[at + i] != pattern[i] {
            assert(chars@.subrange(at as int, at + pattern@.len())[i as int] != pattern@[i as int]);
            return false;
        }
        i += 1;
    }
    assert(chars@.subrange(at as int, at + pattern@.len()) =~= pattern@);
    true
}

/// Whether the text begins with the prefix.
pub(crate) fn begins_with(chars: &Vec<char>, prefix: &Vec<char>) -> (r: bool)
    ensures
        r == starts_with(chars@, prefix@),
{
    if prefix.len() > chars.len() {
        return false;
    }
    assert(chars@.take(prefix@.len() as int) == chars@.subrange(0, prefix@.len() as int));
    stands_at(chars, prefix, 0)
}

/// Splits at the first copy of the pattern.
pub(crate) fn split_once(chars: &Vec<char>, pattern: &str) -> (r: Option<(Vec<char>, Vec<char>)>)
    ensures
        match r {
            Some((head, tail)) => cut_at(chars@, pattern@) == Some((head@, tail@)),
            None => cut_at(chars@, pattern@) is None,
        },
{
    let mark = self::chars(pattern);
    if mark.len() > chars.len() {
        return None;
    }
    let end: usize = chars.len() - mark.len();
    let mut i: usize = 0;
    while i < end && !stands_at(chars, &mark, i)
        invariant
            mark@ == pattern@,
            end == chars@.len() - mark@.len(),
            i <= end,
            first_of(chars@, pattern@) == first_from(chars@, pattern@, i as int),
        decreases end - i,
    {
        i += 1;
    }
    if stands_at(chars, &mark, i) {
        let head = part(chars, 0, i);
        let tail = part(chars, i + mark.len(), chars.len());
        assert(head@ =~= chars@.take(i as int));
        assert(tail@ =~= chars@.skip(i + mark@.len()));
        Some((head, tail))
    } else {
        reveal_with_fuel(first_from, 2);
        None
    }
}

/// Splits at the last copy of the character.
pub(crate) fn split_last(chars: &Vec<char>, mark: char) -> (r: Option<(Vec<char>, Vec<char>)>)
    ensures
        match r {
            Some((head, tail)) => cut_at_last(chars@, mark) == Some((head@, tail@)),
            None => cut_at_last(chars@, mark) is None,
        },
{
    let mut to: usize = chars.len();
    assert(chars@.take(chars@.len() as int) == chars@);
    while 0 < to
        invariant
            to <= chars@.len(),
            last_of(chars@, mark) == last_of(chars@.take(to as int), mark),
        decreases to,
    {
        if chars[to - 1] == mark {
            let head = part(chars, 0, to - 1);
            let tail = part(chars, to, chars.len());
            assert(head@ =~= chars@.take(to - 1));
            assert(tail@ =~= chars@.skip(to as int));
            return Some((head, tail));
        }
        assert(chars@.take(to as int).drop_last() == chars@.take(to - 1));
        to -= 1;
    }
    None
}

// ---------------------------------------------------------------------------
// Replacement
// ---------------------------------------------------------------------------

/// Every copy of one character replaced by another.
pub open spec fn replaced(text: Seq<char>, from: char, to: char) -> Seq<char> {
    Seq::new(text.len(), |i: int| if text[i] == from { to } else { text[i] })
}

/// Every copy of the character doubled.
pub open spec fn doubled(text: Seq<char>, mark: char) -> Seq<char>
    decreases text.len(),
{
    if text.len() == 0 {
        seq![]
    } else if text.last() == mark {
        doubled(text.drop_last(), mark).push(mark).push(mark)
    } else {
        doubled(text.drop_last(), mark).push(text.last())
    }
}

/// Replaces every copy of one character by another.
pub(crate) fn replace(chars: &Vec<char>, from: char, to: char) -> (r: Vec<char>)
    ensures
        r@ == replaced(chars@, from, to),
{
    let mut out: Vec<char> = Vec::new();
    let mut i: usize = 0;
    while i < chars.len()
        invariant
            i <= chars.len(),
            out@ == replaced(chars@, from, to).take(i as int),
        decreases chars.len() - i,
    {
        let c = if chars[i] == from {
            to
        } else {
            chars[i]
        };
        out.push(c);
        assert(replaced(chars@, from, to).take(i + 1) == replaced(chars@, from, to).take(
            i as int,
        ).push(c));
        i += 1;
    }
    assert(replaced(chars@, from, to).take(chars@.len() as int) == replaced(chars@, from, to));
    out
}

/// Doubles every copy of the character.
pub(crate) fn double(chars: &Vec<char>, mark: char) -> (r: Vec<char>)
    ensures
        r@ == doubled(chars@, mark),
{
    let mut out: Vec<char> = Vec::new();
    let mut i: usize = 0;
    while i < chars.len()
        invariant
            i <= chars.len(),
            out@ == doubled(chars@.take(i as int), mark),
        decreases chars.len() - i,
    {
        assert(chars@.take(i + 1).drop_last() == chars@.take(i as int));
        let c = chars[i];
        if c == mark {
            out.push(mark);
        }
        out.push(c);
        i += 1;
    }
    assert(chars@.take(chars@.len() as int) == chars@);
    out
}

}
