//! The text form of a pattern: one bit for each cell of a rectangle, row by
//! row, six bits to a symbol of a 64-symbol alphabet, behind an optional
//! header `=<W>x<H>=` that gives the rectangle's size.

use vstd::prelude::*;

verus! {

/// The symbol that stands for the six-bit value `v`: `A`–`Z`, `a`–`z`,
/// `0`–`9`, `+`, `/`.
pub open spec fn symbol_of(v: int) -> u8 {
    if v < 26 {
        (65 + v) as u8
    } else if v < 52 {
        (97 + (v - 26)) as u8
    } else if v < 62 {
        (48 + (v - 52)) as u8
    } else if v == 62 {
        43u8
    } else {
        47u8
    }
}

/// The six-bit value that `symbol` stands for, if it is of the alphabet.
pub open spec fn value_of(symbol: u8) -> Option<int> {
    if 65 <= symbol <= 90 {
        Some(symbol - 65)
    } else if 97 <= symbol <= 122 {
        Some(symbol - 97 + 26)
    } else if 48 <= symbol <= 57 {
        Some(symbol - 48 + 52)
    } else if symbol == 43 {
        Some(62)
    } else if symbol == 47 {
        Some(63)
    } else {
        None
    }
}

/// Weight of bit `b` of a group, the first bit being the most significant.
pub open spec fn weight(b: int) -> int {
    if b == 0 {
        32
    } else if b == 1 {
        16
    } else if b == 2 {
        8
    } else if b == 3 {
        4
    } else if b == 4 {
        2
    } else {
        1
    }
}

/// Whether bit `b` of the six-bit value `v` is set.
pub open spec fn bit_of(v: int, b: int) -> bool {
    (v / weight(b)) % 2 == 1
}

/// 1 if the rectangle has a cell `t` and it is set, else 0.
pub open spec fn bit_at(bits: Seq<bool>, t: int) -> int {
    if 0 <= t < bits.len() && bits[t] {
        1
    } else {
        0
    }
}

/// Value of the `g`-th group of six bits; past the end the bits are 0.
pub open spec fn group_value(bits: Seq<bool>, g: int) -> int {
    32 * bit_at(bits, 6 * g) + 16 * bit_at(bits, 6 * g + 1) + 8 * bit_at(bits, 6 * g + 2) + 4
        * bit_at(bits, 6 * g + 3) + 2 * bit_at(bits, 6 * g + 4) + bit_at(bits, 6 * g + 5)
}

/// Whether the last group of `bits` is short of six bits and all zero. Such a
/// group is left out of the text.
pub open spec fn drops_tail(bits: Seq<bool>) -> bool {
    bits.len() % 6 != 0 && group_value(bits, bits.len() as int / 6) == 0
}

/// The symbols that stand for `bits`: one for each full group, and one for a
/// last, shorter group unless all its bits are 0.
pub open spec fn encoded(bits: Seq<bool>) -> Seq<u8> {
    let full = bits.len() / 6;
    let body = Seq::new(full, |g: int| symbol_of(group_value(bits, g)));
    if bits.len() % 6 != 0 && !drops_tail(bits) {
        body.push(symbol_of(group_value(bits, full as int)))
    } else {
        body
    }
}

/// The symbol that gives cell `t` its bit: the text is read round and round.
pub open spec fn symbol_for_cell(symbols: Seq<u8>, t: int) -> u8 {
    symbols[(t / 6) % (symbols.len() as int)]
}

/// The bit that the text gives to cell `t`, or `None` where the symbol in
/// turn is not of the alphabet. The text must not be empty.
pub open spec fn stream_bit(symbols: Seq<u8>, t: int) -> Option<bool> {
    match value_of(symbol_for_cell(symbols, t)) {
        Some(v) => Some(bit_of(v, t % 6)),
        None => None,
    }
}

/// Whether every symbol that the first `n` cells read is of the alphabet.
pub open spec fn readable(symbols: Seq<u8>, n: int) -> bool {
    forall|t: int| 0 <= t < n ==> (#[trigger] stream_bit(symbols, t)) is Some
}

/// Number of cells that a paste into `n` cells fills from `symbols`: all of
/// them, or those before the first symbol that is not of the alphabet; none
/// from an empty text.
pub open spec fn readable_cells(symbols: Seq<u8>, n: int) -> int
    decreases n,
{
    if n <= 0 || symbols.len() == 0 {
        0
    } else if readable(symbols, n) {
        n
    } else {
        readable_cells(symbols, n - 1)
    }
}

/// A paste fills no more cells than the rectangle has.
pub proof fn lemma_readable_range(symbols: Seq<u8>, n: int)
    requires
        0 <= n,
    ensures
        0 <= readable_cells(symbols, n) <= n,
    decreases n,
{
    if n > 0 && symbols.len() > 0 && !readable(symbols, n) {
        lemma_readable_range(symbols, n - 1);
    }
}

/// Where every cell can read its bit, all cells are filled.
pub proof fn lemma_readable_all(symbols: Seq<u8>, n: int)
    requires
        symbols.len() > 0,
        0 <= n,
        forall|t: int| 0 <= t < n ==> (#[trigger] stream_bit(symbols, t)) is Some,
    ensures
        readable_cells(symbols, n) == n,
{
}

/// Where a cell cannot read its bit, the cells before the first such cell
/// are filled.
pub proof fn lemma_readable_stop(symbols: Seq<u8>, stop: int, n: int)
    requires
        symbols.len() > 0,
        0 <= stop < n,
        forall|t: int| 0 <= t < stop ==> (#[trigger] stream_bit(symbols, t)) is Some,
        stream_bit(symbols, stop) is None,
    ensures
        readable_cells(symbols, n) == stop,
    decreases n,
{
    assert(!readable(symbols, n));
    if n - 1 == stop {
        lemma_readable_all(symbols, stop);
    } else {
        lemma_readable_stop(symbols, stop, n - 1);
    }
}

/// Every value has a symbol, and the symbol gives the value back.
pub proof fn lemma_symbol_value(v: int)
    requires
        0 <= v < 64,
    ensures
        value_of(symbol_of(v)) == Some(v),
{
}

/// A group's value is below 64, and its bits are the bits it was made of.
pub proof fn lemma_group_bits(bits: Seq<bool>, g: int, b: int)
    requires
        0 <= b < 6,
    ensures
        0 <= group_value(bits, g) < 64,
        bit_of(group_value(bits, g), b) == (bit_at(bits, 6 * g + b) == 1),
{
}

/// Whether cell `t` lies in a dropped last group of a text that is not
/// empty, and reads a set bit there: the reader, past the end of the text,
/// starts over at the first symbol.
pub open spec fn echoed(bits: Seq<bool>, t: int) -> bool {
    drops_tail(bits) && bits.len() >= 6 && t >= 6 * (bits.len() as int / 6) && bits[t % 6]
}

/// Clipboard round trip: the text of a rectangle gives every cell its bit
/// back, but for a cell that reads an echo of the first symbol. An empty text
/// stands for a rectangle without a set bit.
pub proof fn lemma_round_trip(bits: Seq<bool>, t: int)
    requires
        0 <= t < bits.len(),
        !echoed(bits, t),
    ensures
        encoded(bits).len() == 0 ==> !bits[t],
        encoded(bits).len() > 0 ==> stream_bit(encoded(bits), t) == Some(bits[t]),
{
    let symbols = encoded(bits);
    let full = bits.len() as int / 6;
    let g = t / 6;
    let b = t % 6;
    lemma_group_bits(bits, g, b);
    if symbols.len() == 0 {
        assert(full == 0);
        assert(g == 0);
    } else if g < symbols.len() {
        assert((t / 6) % (symbols.len() as int) == g) by {
            vstd::arithmetic::div_mod::lemma_small_mod(g as nat, symbols.len());
        }
        assert(symbols[g] == symbol_of(group_value(bits, g)));
        lemma_symbol_value(group_value(bits, g));
    } else {
        assert(g == full && symbols.len() == full);
        assert(full % full == 0) by {
            vstd::arithmetic::div_mod::lemma_mod_self_0(full);
        }
        lemma_group_bits(bits, 0, b);
        assert(symbols[0] == symbol_of(group_value(bits, 0)));
        lemma_symbol_value(group_value(bits, 0));
    }
}

/// The symbol that stands for the six-bit value `v`.
pub fn symbol_for(v: u8) -> (symbol: u8)
    requires
        v < 64,
    ensures
        symbol == symbol_of(v as int),
{
    if v < 26 {
        65 + v
    } else if v < 52 {
        97 + (v - 26)
    } else if v < 62 {
        48 + (v - 52)
    } else if v == 62 {
        43
    } else {
        47
    }
}

/// The six-bit value that `symbol` stands for, if it is of the alphabet.
pub fn symbol_value(symbol: u8) -> (value: Option<u8>)
    ensures
        value is Some <==> value_of(symbol) is Some,
        value matches Some(v) ==> value_of(symbol) == Some(v as int) && v < 64,
{
    if 65 <= symbol && symbol <= 90 {
        Some(symbol - 65)
    } else if 97 <= symbol && symbol <= 122 {
        Some(symbol - 97 + 26)
    } else if 48 <= symbol && symbol <= 57 {
        Some(symbol - 48 + 52)
    } else if symbol == 43 {
        Some(62)
    } else if symbol == 47 {
        Some(63)
    } else {
        None
    }
}

/// Sum of the first `b` bits of group `g`, each with its weight.
pub open spec fn group_prefix(bits: Seq<bool>, g: int, b: int) -> int
    decreases b,
{
    if b <= 0 {
        0
    } else {
        group_prefix(bits, g, b - 1) + weight(b - 1) * bit_at(bits, 6 * g + b - 1)
    }
}

proof fn lemma_group_prefix(bits: Seq<bool>, g: int)
    ensures
        group_prefix(bits, g, 6) == group_value(bits, g),
        bits.len() <= 6 * g + 6 ==> group_prefix(bits, g, bits.len() - 6 * g) == group_value(
            bits,
            g,
        ),
{
    reveal_with_fuel(group_prefix, 7);
}

/// Packs `bits` into symbols, six bits to a symbol, the first bit of a group
/// being its most significant. A last group of fewer than six bits is
/// written only if one of its bits is set.
pub fn encode_bits(bits: &Vec<bool>) -> (symbols: Vec<u8>)
    ensures
        symbols@ == encoded(bits@),
{
    let mut symbols: Vec<u8> = Vec::new();
    let mut value: u8 = 0;
    let mut bit: u8 = 32;
    let mut t: usize = 0;
    while t < bits.len()
        invariant
            t <= bits@.len(),
            bit as int == weight(t as int % 6),
            value as int == group_prefix(bits@, t as int / 6, t as int % 6),
            0 <= value < 64,
            value as int + 2 * bit <= 64,
            symbols@ == Seq::new((t / 6) as nat, |g: int| symbol_of(group_value(bits@, g))),
        decreases bits@.len() - t,
    {
        let ghost g = t as int / 6;
        let ghost b = t as int % 6;
        proof {
            reveal_with_fuel(group_prefix, 2);
            assert(group_prefix(bits@, g, b + 1) == group_prefix(bits@, g, b) + weight(b) * bit_at(
                bits@,
                t as int,
            ));
        }
        if bits[t] {
            value = value + bit;
        }
        if bit == 1 {
            proof {
                lemma_group_prefix(bits@, g);
                assert(value as int == group_value(bits@, g));
            }
            symbols.push(symbol_for(value));
            value = 0;
            bit = 32;
            proof {
                assert((t + 1) / 6 == g + 1);
                assert((t + 1) % 6 == 0);
                assert(symbols@ =~= Seq::new(
                    ((t + 1) / 6) as nat,
                    |g: int| symbol_of(group_value(bits@, g)),
                ));
            }
        } else {
            bit = bit / 2;
            proof {
                assert((t + 1) / 6 == g);
                assert((t + 1) % 6 == b + 1);
            }
        }
        t += 1;
    }
    proof {
        lemma_group_prefix(bits@, t as int / 6);
    }
    if value != 0 {
        symbols.push(symbol_for(value));
    }
    assert(symbols@ =~= encoded(bits@));
    symbols
}

/// Why a text was not pasted, or not all of it.
#[derive(Clone, Copy, Debug, PartialEq, Eq, Structural)]
pub enum PasteError {
    /// The text starts like a header but is not one, or gives a number too
    /// large for a coordinate.
    BadHeader,
    /// The header gives a width or a height of zero.
    EmptySize,
    /// No symbol follows the header, or the text is empty.
    NoSymbols,
    /// A symbol that a cell had to read is not of the alphabet.
    InvalidSymbol,
}

/// What a text says before its symbols.
#[derive(Clone, Copy, Debug)]
pub struct ClipHeader {
    /// Width and height given by the header, if the text has one.
    pub size: Option<(i32, i32)>,
    /// Index of the first symbol in the text.
    pub start: usize,
}

/// Whether `b` is an ASCII digit.
pub open spec fn is_digit(b: u8) -> bool {
    48 <= b <= 57
}

/// The decimal digits of `v`, without leading zeros.
pub open spec fn decimal(v: nat) -> Seq<u8>
    decreases v,
{
    if v < 10 {
        seq![(48 + v) as u8]
    } else {
        decimal(v / 10).push((48 + v % 10) as u8)
    }
}

/// The number that a run of decimal digits stands for; 0 for an empty run.
pub open spec fn decimal_value(digits: Seq<u8>) -> int
    decreases digits.len(),
{
    if digits.len() == 0 {
        0
    } else {
        decimal_value(digits.drop_last()) * 10 + (digits.last() - 48)
    }
}

/// Index of the first byte at or after `from` that is not a digit; the
/// length of the text if there is none.
pub open spec fn digits_end(text: Seq<u8>, from: int) -> int
    decreases text.len() - from,
{
    if 0 <= from < text.len() && is_digit(text[from]) {
        digits_end(text, from + 1)
    } else {
        from
    }
}

/// The header of a rectangle `width` wide and `height` high.
pub open spec fn header_of(width: nat, height: nat) -> Seq<u8> {
    seq![61u8] + decimal(width) + seq![120u8] + decimal(height) + seq![61u8]
}

/// What `text` says before its symbols. A text that does not start with `=`
/// has no header. After `=` come the digits of the width, one byte that
/// parts the numbers, the digits of the height, and then the symbols, with
/// one `=` before them left out.
pub open spec fn header_spec(text: Seq<u8>) -> Result<(Option<(int, int)>, int), PasteError> {
    if text.len() == 0 {
        Err(PasteError::NoSymbols)
    } else if text[0] != 61 {
        Ok((None, 0))
    } else {
        let width_end = digits_end(text, 1);
        let height_end = digits_end(text, width_end + 1);
        let width = decimal_value(text.subrange(1, width_end));
        let height = decimal_value(text.subrange(width_end + 1, height_end));
        if width_end == 1 || width_end >= text.len() || height_end == width_end + 1 || height_end
            >= text.len() || width > i32::MAX || height > i32::MAX {
            Err(PasteError::BadHeader)
        } else if width == 0 || height == 0 {
            Err(PasteError::EmptySize)
        } else {
            let start = if text[height_end] == 61 {
                height_end + 1
            } else {
                height_end
            };
            if start >= text.len() {
                Err(PasteError::NoSymbols)
            } else {
                Ok((Some((width, height)), start))
            }
        }
    }
}

/// The digits of a number are digits, and stand for the number.
pub proof fn lemma_decimal(v: nat)
    ensures
        decimal(v).len() >= 1,
        forall|i: int| 0 <= i < decimal(v).len() ==> is_digit(#[trigger] decimal(v)[i]),
        decimal_value(decimal(v)) == v,
    decreases v,
{
    if v >= 10 {
        lemma_decimal(v / 10);
        let longer = decimal(v);
        assert(longer.drop_last() =~= decimal(v / 10));
        assert(longer.last() == (48 + v % 10) as u8);
    } else {
        let one = decimal(v);
        assert(one.drop_last() =~= Seq::<u8>::empty());
        assert(decimal_value(one.drop_last()) == 0);
    }
}

/// A header is read as it was written: the size is the size written, and
/// the symbols start behind the header. Without a symbol behind it, and
/// with a size of zero, the header is refused.
pub proof fn lemma_header_round_trip(width: nat, height: nat, symbols: Seq<u8>)
    requires
        width <= i32::MAX,
        height <= i32::MAX,
    ensures
        header_spec(header_of(width, height) + symbols) == (if width == 0 || height == 0 {
            Err::<(Option<(int, int)>, int), PasteError>(PasteError::EmptySize)
        } else if symbols.len() == 0 {
            Err::<(Option<(int, int)>, int), PasteError>(PasteError::NoSymbols)
        } else {
            Ok::<(Option<(int, int)>, int), PasteError>(
                (Some((width as int, height as int)), header_of(width, height).len() as int),
            )
        }),
        (header_of(width, height) + symbols).subrange(
            header_of(width, height).len() as int,
            (header_of(width, height) + symbols).len() as int,
        ) == symbols,
{
    let w = decimal(width);
    let h = decimal(height);
    let head = header_of(width, height);
    let text = head + symbols;
    lemma_decimal(width);
    lemma_decimal(height);
    let width_end = 1 + w.len() as int;
    let height_end = width_end + 1 + h.len() as int;
    assert(head.len() == height_end + 1);
    assert(text[0] == 61);
    assert forall|i: int| 1 <= i < width_end implies is_digit(#[trigger] text[i]) by {
        assert(text[i] == w[i - 1]);
    }
    assert(text[width_end] == 120);
    lemma_digits_end_found(text, 1, width_end);
    assert forall|i: int| width_end + 1 <= i < height_end implies is_digit(#[trigger] text[i]) by {
        assert(text[i] == h[i - width_end - 1]);
    }
    assert(text[height_end] == 61);
    lemma_digits_end_found(text, width_end + 1, height_end);
    assert(text.subrange(1, width_end) =~= w);
    assert(text.subrange(width_end + 1, height_end) =~= h);
    assert(text.subrange(head.len() as int, text.len() as int) =~= symbols);
}

proof fn lemma_digits_end_range(text: Seq<u8>, from: int)
    requires
        0 <= from <= text.len(),
    ensures
        from <= digits_end(text, from) <= text.len(),
        forall|i: int| from <= i < digits_end(text, from) ==> is_digit(#[trigger] text[i]),
        digits_end(text, from) < text.len() ==> !is_digit(text[digits_end(text, from)]),
    decreases text.len() - from,
{
    if from < text.len() && is_digit(text[from]) {
        lemma_digits_end_range(text, from + 1);
    }
}

proof fn lemma_digits_end_found(text: Seq<u8>, from: int, end: int)
    requires
        0 <= from <= end <= text.len(),
        forall|i: int| from <= i < end ==> is_digit(#[trigger] text[i]),
        end < text.len() ==> !is_digit(text[end]),
    ensures
        digits_end(text, from) == end,
    decreases end - from,
{
    if from < end {
        lemma_digits_end_found(text, from + 1, end);
    }
}

/// Reads the run of digits that starts at `from`. Gives the index after the
/// run, and the number it stands for unless that is too large for an `i32`.
pub fn read_digits(text: &[u8], from: usize) -> (r: (usize, Option<i32>))
    requires
        from <= text@.len(),
    ensures
        r.0 == digits_end(text@, from as int),
        from <= r.0 <= text@.len(),
        r.1 is Some <==> decimal_value(text@.subrange(from as int, r.0 as int)) <= i32::MAX,
        r.1 matches Some(v) ==> v == decimal_value(text@.subrange(from as int, r.0 as int)),
{
    let mut i: usize = from;
    let mut value: i64 = 0;
    let mut fits: bool = true;
    proof {
        lemma_digits_end_range(text@, from as int);
        assert(text@.subrange(from as int, from as int) =~= Seq::<u8>::empty());
    }
    while i < text.len() && text[i] >= 48 && text[i] <= 57
        invariant
            from <= i <= text@.len(),
            forall|k: int| from <= k < i ==> is_digit(#[trigger] text@[k]),
            fits <==> decimal_value(text@.subrange(from as int, i as int)) <= i32::MAX,
            fits ==> value == decimal_value(text@.subrange(from as int, i as int)),
            0 <= value <= i32::MAX,
            0 <= decimal_value(text@.subrange(from as int, i as int)),
        decreases text@.len() - i,
    {
        let ghost before = text@.subrange(from as int, i as int);
        let ghost after = text@.subrange(from as int, i + 1);
        proof {
            assert(after.drop_last() =~= before);
            assert(after.last() == text@[i as int]);
        }
        if fits {
            let next: i64 = value * 10 + (text[i] - 48) as i64;
            if next > 0x7fff_ffff {
                fits = false;
            } else {
                value = next;
            }
        }
        i += 1;
    }
    proof {
        lemma_digits_end_found(text@, from as int, i as int);
    }
    if fits {
        (i, Some(value as i32))
    } else {
        (i, None)
    }
}

/// Reads what `text` says before its symbols.
pub fn parse_header(text: &[u8]) -> (r: Result<ClipHeader, PasteError>)
    ensures
        match r {
            Ok(header) => header_spec(text@) == Ok::<(Option<(int, int)>, int), PasteError>(
                (
                    match header.size {
                        Some(size) => Some((size.0 as int, size.1 as int)),
                        None => None,
                    },
                    header.start as int,
                ),
            ) && header.start < text@.len(),
            Err(e) => header_spec(text@) == Err::<(Option<(int, int)>, int), PasteError>(e),
        },
{
    if text.len() == 0 {
        return Err(PasteError::NoSymbols);
    }
    if text[0] != 61 {
        return Ok(ClipHeader { size: None, start: 0 });
    }
    let (width_end, width) = read_digits(text, 1);
    if width_end == 1 || width_end >= text.len() {
        return Err(PasteError::BadHeader);
    }
    let (height_end, height) = read_digits(text, width_end + 1);
    if height_end == width_end + 1 || height_end >= text.len() {
        return Err(PasteError::BadHeader);
    }
    match (width, height) {
        (Some(w), Some(h)) => {
            if w == 0 || h == 0 {
                return Err(PasteError::EmptySize);
            }
            let start: usize = if text[height_end] == 61 {
                height_end + 1
            } else {
                height_end
            };
            if start >= text.len() {
                return Err(PasteError::NoSymbols);
            }
            Ok(ClipHeader { size: Some((w, h)), start })
        },
        _ => Err(PasteError::BadHeader),
    }
}

/// Appends the decimal digits of `v`.
pub fn push_decimal(out: &mut Vec<u8>, v: u32)
    ensures
        final(out)@ == old(out)@ + decimal(v as nat),
    decreases v,
{
    if v >= 10 {
        push_decimal(out, v / 10);
    }
    out.push(48 + (v % 10) as u8);
}

/// The header of a rectangle `width` wide and `height` high.
pub fn write_header(width: u32, height: u32) -> (text: Vec<u8>)
    ensures
        text@ == header_of(width as nat, height as nat),
{
    let mut text: Vec<u8> = Vec::new();
    text.push(61);
    push_decimal(&mut text, width);
    text.push(120);
    push_decimal(&mut text, height);
    text.push(61);
    assert(text@ =~= header_of(width as nat, height as nat));
    text
}

} // verus!
