//! Work on texts as sequences of characters, and the calls into the
//! standard library that come without a contract of their own.

use vstd::prelude::*;
use vstd::utf8::*;

verus! {

/// The text that `str::to_uppercase` gives.
pub uninterp spec fn uppercase_of(text: Seq<char>) -> Seq<char>;

/// The text that `str::to_lowercase` gives.
pub uninterp spec fn lowercase_of(text: Seq<char>) -> Seq<char>;

/// Calls `String::from_utf8`. The contract claims that the call succeeds on
/// exactly the well-formed UTF-8 byte strings, that the text is then the one
/// those bytes encode, and that a failure hands the bytes back as they were.
#[verifier::external_body]
pub(crate) fn string_from_utf8(bytes: Vec<u8>) -> (r: Result<String, Vec<u8>>)
    ensures
        r is Ok <==> valid_utf8(bytes@),
        r matches Ok(text) ==> text@ == decode_utf8(bytes@),
        r matches Err(back) ==> back@ == bytes@,
{
    String::from_utf8(bytes).map_err(|e| e.into_bytes())
}

/// Collects characters into a `String` with `String::from_iter`. The contract
/// claims that the text holds those characters in that order.
#[verifier::external_body]
pub(crate) fn string_from_chars(chars: &Vec<char>) -> (text: String)
    ensures
        text@ == chars@,
{
    String::from_iter(chars.iter())
}

/// Collects the characters of a text with `str::chars`. The contract claims
/// that they come in the order of the text.
#[verifier::external_body]
pub(crate) fn str_chars(text: &str) -> (chars: Vec<char>)
    ensures
        chars@ == text@,
{
    text.chars().collect()
}

/// Calls `str::to_uppercase`, the upper-casing of Unicode. The contract names the result.
#[verifier::external_body]
pub(crate) fn str_to_uppercase(text: &str) -> (upper: String)
    ensures
        upper@ == uppercase_of(text@),
{
    text.to_uppercase()
}

/// Calls `str::to_lowercase`, the lower-casing of Unicode. The contract names the result.
#[verifier::external_body]
pub(crate) fn str_to_lowercase(text: &str) -> (lower: String)
    ensures
        lower@ == lowercase_of(text@),
{
    text.to_lowercase()
}

/// The bytes of a text, which are its UTF-8 encoding.
pub open spec fn bytes_of(text: Seq<char>) -> Seq<u8> {
    encode_utf8(text)
}

/// The UTF-8 encoding of a text, as a vector of its own.
pub fn text_bytes(text: &str) -> (bytes: Vec<u8>)
    ensures
        bytes@ == bytes_of(text@),
{
    text.as_bytes_vec()
}

/// Whether `pat` stands in `text` at index `i`.
pub open spec fn occurs_at(text: Seq<char>, pat: Seq<char>, i: int) -> bool {
    0 <= i && i + pat.len() <= text.len() && text.subrange(i, i + pat.len()) == pat
}

/// The least index at or after `from` at which `pat` stands in `text`, or the
/// length of `text` where there is none.
pub open spec fn find_from(text: Seq<char>, pat: Seq<char>, from: int) -> int
    decreases text.len() - from,
{
    if from < 0 || from >= text.len() || from + pat.len() > text.len() {
        text.len() as int
    } else if occurs_at(text, pat, from) {
        from
    } else {
        find_from(text, pat, from + 1)
    }
}

/// The pieces of `text` between the occurrences of `pat`, taken from the
/// left without overlap. A text without an occurrence is one piece, and an
/// empty `pat` occurs nowhere.
pub open spec fn split_on(text: Seq<char>, pat: Seq<char>) -> Seq<Seq<char>>
    decreases text.len(),
{
    let i = find_from(text, pat, 0);
    if pat.len() == 0 || i < 0 || i + pat.len() > text.len() {
        seq![text]
    } else {
        seq![text.take(i)] + split_on(text.skip(i + pat.len()), pat)
    }
}

/// The views of a list of texts.
pub open spec fn piece_views(pieces: Seq<Vec<char>>) -> Seq<Seq<char>> {
    pieces.map_values(|p: Vec<char>| p@)
}

/// The characters of `text` from `from` up to `to`.
pub fn copy_range(text: &Vec<char>, from: usize, to: usize) -> (r: Vec<char>)
    requires
        from <= to <= text.len(),
    ensures
        r@ == text@.subrange(from as int, to as int),
{
    let mut r: Vec<char> = Vec::new();
    let mut i: usize = from;
    while i < to
        invariant
            from <= i <= to <= text.len(),
            r@ == text@.subrange(from as int, i as int),
        decreases to - i,
    {
        r.push(text[i]);
        i += 1;
        assert(r@ =~= text@.subrange(from as int, i as int));
    }
    r
}

/// Whether `pat` stands in `text` at index `i`.
pub fn stands_at(text: &Vec<char>, pat: &Vec<char>, i: usize) -> (r: bool)
    requires
        i + pat.len() <= text.len(),
    ensures
        r == occurs_at(text@, pat@, i as int),
{
    let mut k: usize = 0;
    while k < pat.len()
        invariant
            k <= pat.len(),
            i + pat.len() <= text.len(),
            forall|j: int| 0 <= j < k ==> text@[i + j] == pat@[j],
        decreases pat.len() - k,
    {
        if text[i + k] != pat[k] {
            assert(text@.subrange(i as int, i + pat.len())[k as int] == text@[i + k]);
            return false;
        }
        k += 1;
    }
    assert(text@.subrange(i as int, i + pat.len()) =~= pat@);
    true
}

/// The least index at which `pat` stands in `text`, or the length of `text`
/// where it stands nowhere.
pub fn find(text: &Vec<char>, pat: &Vec<char>) -> (r: usize)
    ensures
        r == find_from(text@, pat@, 0),
        r <= text.len(),
{
    let n = text.len();
    let m = pat.len();
    let mut i: usize = 0;
    while i < n && m <= n - i
        invariant
            n == text.len(),
            m == pat.len(),
            i <= n,
            find_from(text@, pat@, 0) == find_from(text@, pat@, i as int),
        decreases n - i,
    {
        if stands_at(text, pat, i) {
            return i;
        }
        i += 1;
    }
    n
}

/// Splits `text` at the occurrences of `pat`. An empty `pat` occurs
/// nowhere, so the text is then one piece.
pub fn split(text: &Vec<char>, pat: &Vec<char>) -> (pieces: Vec<Vec<char>>)
    ensures
        piece_views(pieces@) == split_on(text@, pat@),
        pieces.len() > 0,
{
    let mut pieces: Vec<Vec<char>> = Vec::new();
    let mut start: usize = 0;
    let mut i: usize = 0;
    let n = text.len();
    let m = pat.len();
    if m == 0 {
        let whole = copy_range(text, 0, n);
        assert(whole@ =~= text@);
        pieces.push(whole);
        assert(piece_views(pieces@) =~= seq![text@]);
        return pieces;
    }
    proof {
        assert(text@.skip(0) =~= text@);
        assert(piece_views(pieces@) =~= Seq::<Seq<char>>::empty());
        assert(Seq::<Seq<char>>::empty() + split_on(text@, pat@) =~= split_on(text@, pat@));
    }
    while i < n && m <= n - i
        invariant
            n == text.len(),
            m == pat.len(),
            m > 0,
            start <= i <= n,
            find_from(text@.skip(start as int), pat@, 0) == find_from(
                text@.skip(start as int),
                pat@,
                i - start,
            ),
            split_on(text@, pat@) == piece_views(pieces@) + split_on(
                text@.skip(start as int),
                pat@,
            ),
        decreases n - i,
    {
        let ghost rest = text@.skip(start as int);
        proof {
            assert(rest.subrange(i - start, i - start + m) =~= text@.subrange(
                i as int,
                i + m,
            ));
        }
        if stands_at(text, pat, i) {
            let piece = copy_range(text, start, i);
            proof {
                assert(occurs_at(rest, pat@, i - start));
                assert(find_from(rest, pat@, 0) == i - start);
                assert(rest.take(i - start) =~= text@.subrange(start as int, i as int));
                assert(rest.skip(i - start + m) =~= text@.skip(i + m));
                assert(piece_views(pieces@.push(piece)) =~= piece_views(pieces@) + seq![piece@]);
            }
            pieces.push(piece);
            start = i + m;
            i = start;
        } else {
            i += 1;
        }
    }
    let piece = copy_range(text, start, n);
    proof {
        let rest = text@.skip(start as int);
        assert(find_from(rest, pat@, i - start) == rest.len());
        assert(piece@ =~= rest);
        assert(piece_views(pieces@.push(piece)) =~= piece_views(pieces@) + seq![piece@]);
    }
    pieces.push(piece);
    pieces
}

/// The pieces put end to end.
pub open spec fn join(pieces: Seq<Seq<char>>) -> Seq<char>
    decreases pieces.len(),
{
    if pieces.len() == 0 {
        Seq::empty()
    } else {
        join(pieces.drop_last()) + pieces.last()
    }
}

/// `text` without the occurrences of `pat`, taken from the left without
/// overlap.
pub open spec fn without(text: Seq<char>, pat: Seq<char>) -> Seq<char> {
    join(split_on(text, pat))
}

/// Removes the occurrences of `pat` from `text`. An empty `pat` occurs
/// nowhere, so the text then stays as it is.
pub fn remove_all(text: &Vec<char>, pat: &Vec<char>) -> (r: Vec<char>)
    ensures
        r@ == without(text@, pat@),
{
    let pieces = split(text, pat);
    let mut r: Vec<char> = Vec::new();
    let mut k: usize = 0;
    assert(piece_views(pieces@).take(0) =~= Seq::empty());
    while k < pieces.len()
        invariant
            k <= pieces.len(),
            r@ == join(piece_views(pieces@).take(k as int)),
        decreases pieces.len() - k,
    {
        let piece = &pieces[k];
        let ghost before = r@;
        let ghost prefix = piece_views(pieces@).take(k + 1);
        assert(prefix.drop_last() =~= piece_views(pieces@).take(k as int));
        assert(prefix.last() == piece@);
        let mut j: usize = 0;
        while j < piece.len()
            invariant
                j <= piece.len(),
                r@ == before + piece@.take(j as int),
            decreases piece.len() - j,
        {
            r.push(piece[j]);
            j += 1;
            assert(r@ =~= before + piece@.take(j as int));
        }
        assert(piece@.take(j as int) =~= piece@);
        k += 1;
    }
    assert(piece_views(pieces@).take(k as int) =~= piece_views(pieces@));
    r
}

/// The character of a decimal digit.
pub open spec fn digit_char(d: int) -> char {
    (48 + d) as u8 as char
}

/// A number in decimal, without leading zeros.
pub open spec fn decimal_of(n: nat) -> Seq<char>
    decreases n,
{
    if n < 10 {
        seq![digit_char(n as int)]
    } else {
        decimal_of(n / 10).push(digit_char((n % 10) as int))
    }
}

/// Appends a number in decimal.
fn push_decimal(n: u16, out: &mut Vec<char>)
    ensures
        final(out)@ == old(out)@ + decimal_of(n as nat),
    decreases n,
{
    if n >= 10 {
        push_decimal(n / 10, out);
    }
    let d: u8 = (n % 10) as u8;
    out.push((48 + d) as char);
    assert(final(out)@ =~= old(out)@ + decimal_of(n as nat));
}

/// A number in decimal, without leading zeros.
pub fn decimal_text(n: u16) -> (text: String)
    ensures
        text@ == decimal_of(n as nat),
{
    let mut chars: Vec<char> = Vec::new();
    push_decimal(n, &mut chars);
    assert(chars@ =~= decimal_of(n as nat));
    string_from_chars(&chars)
}

/// Whether every character is a decimal digit.
pub open spec fn all_digits(text: Seq<char>) -> bool {
    forall|i: int| 0 <= i < text.len() ==> '0' <= #[trigger] text[i] && text[i] <= '9'
}

/// The number that decimal digits write.
pub open spec fn digits_value(digits: Seq<char>) -> nat
    decreases digits.len(),
{
    if digits.len() == 0 {
        0
    } else {
        digits_value(digits.drop_last()) * 10 + (digits.last() as u8 - 48) as nat
    }
}

/// The port-sized number that a text writes in decimal: digits, with any
/// number of leading zeros and at most one `+` before them, that come to
/// no more than 65535.
pub open spec fn parsed_u16(text: Seq<char>) -> Option<u16> {
    let digits = if text.len() > 1 && text[0] == '+' {
        text.skip(1)
    } else {
        text
    };
    if digits.len() > 0 && all_digits(digits) && digits_value(digits) <= 65535 {
        Some(digits_value(digits) as u16)
    } else {
        None
    }
}

/// Calls `str::parse::<u16>`. The contract claims `parsed_u16`: the call
/// takes decimal digits after at most one `+`, allows leading zeros, and
/// refuses the empty text, any other character and a number above 65535.
#[verifier::external_body]
pub(crate) fn parse_u16(text: &str) -> (r: Option<u16>)
    ensures
        r == parsed_u16(text@),
{
    text.parse::<u16>().ok()
}

} // verus!
