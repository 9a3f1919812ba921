//! Frame sizes in their text form, `WIDTHxHEIGHT`.
//!
//! A size is written as two runs of ASCII digits with a lower-case `x`
//! between them, such as `640x480`. Each run is a positive number that fits
//! in 32 bits; leading zeros are read and ignored. Nothing else is a size: no
//! sign, no blank, no other separator.

use crate::error::{ErrorKind, MediaError};
use vstd::prelude::*;
use vstd::string::*;

verus! {

/// A frame size in pixels.
#[derive(Clone, Copy, Debug, PartialEq, Eq, Structural)]
pub struct Resolution {
    pub width: u32,
    pub height: u32,
}

/// `c` is one of the ten ASCII digits.
pub open spec fn is_digit(c: char) -> bool {
    '0' <= c && c <= '9'
}

/// The number that the digit `c` stands for.
pub open spec fn digit_value(c: char) -> nat {
    (c as u32 - '0' as u32) as nat
}

/// The character that stands for `d`, a number below ten.
pub open spec fn digit_char(d: nat) -> char {
    if d == 0 {
        '0'
    } else if d == 1 {
        '1'
    } else if d == 2 {
        '2'
    } else if d == 3 {
        '3'
    } else if d == 4 {
        '4'
    } else if d == 5 {
        '5'
    } else if d == 6 {
        '6'
    } else if d == 7 {
        '7'
    } else if d == 8 {
        '8'
    } else {
        '9'
    }
}

/// Every character of `s` is a digit.
pub open spec fn all_digits(s: Seq<char>) -> bool {
    forall|k: int| 0 <= k < s.len() ==> is_digit(#[trigger] s[k])
}

/// The number that a run of digits denotes in base ten.
pub open spec fn decimal_value(s: Seq<char>) -> nat
    decreases s.len(),
{
    if s.len() == 0 {
        0
    } else {
        decimal_value(s.drop_last()) * 10 + digit_value(s.last())
    }
}

/// The shortest run of digits that denotes `n`.
pub open spec fn decimal_digits(n: nat) -> Seq<char>
    decreases n,
{
    if n < 10 {
        seq![digit_char(n)]
    } else {
        decimal_digits(n / 10).push(digit_char(n % 10))
    }
}

/// `s` is one side of a size: digits only, at least one, and a positive
/// value that fits in 32 bits.
pub open spec fn is_dimension(s: Seq<char>) -> bool {
    &&& s.len() > 0
    &&& all_digits(s)
    &&& 0 < decimal_value(s) <= u32::MAX
}

/// `s` is a size whose separator stands at index `i`.
pub open spec fn splits_at(s: Seq<char>, i: int) -> bool {
    &&& 0 <= i < s.len()
    &&& s[i] == 'x'
    &&& is_dimension(s.subrange(0, i))
    &&& is_dimension(s.subrange(i + 1, s.len() as int))
}

/// The size that `s` denotes when its separator stands at index `i`.
pub open spec fn size_at(s: Seq<char>, i: int) -> Resolution {
    Resolution {
        width: decimal_value(s.subrange(0, i)) as u32,
        height: decimal_value(s.subrange(i + 1, s.len() as int)) as u32,
    }
}

/// What a text denotes: a size, or nothing.
pub open spec fn parsed(s: Seq<char>) -> Option<Resolution> {
    if exists|i: int| splits_at(s, i) {
        Some(size_at(s, choose|i: int| splits_at(s, i)))
    } else {
        None
    }
}

/// The text form of a size.
pub open spec fn rendered(r: Resolution) -> Seq<char> {
    decimal_digits(r.width as nat) + seq!['x'] + decimal_digits(r.height as nat)
}

/// A text has at most one place where it splits into two sides.
pub proof fn lemma_split_is_unique(s: Seq<char>, i: int, j: int)
    requires
        splits_at(s, i),
        splits_at(s, j),
    ensures
        i == j,
{
    if i < j {
        assert(s.subrange(0, j)[i] == s[i]);
        assert(!is_digit(s.subrange(0, j)[i]));
    } else if j < i {
        assert(s.subrange(0, i)[j] == s[j]);
        assert(!is_digit(s.subrange(0, i)[j]));
    }
}

/// A text that splits at `i` denotes the size read there.
pub proof fn lemma_parsed_at(s: Seq<char>, i: int)
    requires
        splits_at(s, i),
    ensures
        parsed(s) == Some(size_at(s, i)),
{
    let j = choose|j: int| splits_at(s, j);
    lemma_split_is_unique(s, i, j);
}

/// A run of digits denotes at least what any of its prefixes denotes.
proof fn lemma_prefix_value(s: Seq<char>, k: int)
    requires
        0 <= k <= s.len(),
    ensures
        decimal_value(s.subrange(0, k)) <= decimal_value(s),
    decreases s.len(),
{
    if k == s.len() {
        assert(s.subrange(0, k) =~= s);
    } else {
        lemma_prefix_value(s.drop_last(), k);
        assert(s.drop_last().subrange(0, k) =~= s.subrange(0, k));
    }
}

/// The digits written for a number are digits, and denote that number.
pub proof fn lemma_decimal_digits(n: nat)
    ensures
        decimal_digits(n).len() > 0,
        all_digits(decimal_digits(n)),
        decimal_value(decimal_digits(n)) == n,
    decreases n,
{
    if n < 10 {
        let s = decimal_digits(n);
        assert(s.drop_last() =~= Seq::<char>::empty());
        assert(decimal_value(s.drop_last()) == 0);
        assert(s.last() == digit_char(n));
    } else {
        lemma_decimal_digits(n / 10);
        let s = decimal_digits(n);
        assert(s.drop_last() =~= decimal_digits(n / 10));
        assert(s.last() == digit_char(n % 10));
        assert forall|k: int| 0 <= k < s.len() implies is_digit(#[trigger] s[k]) by {
            if k < s.len() - 1 {
                assert(s[k] == decimal_digits(n / 10)[k]);
            }
        }
    }
}

/// Writing a size with two positive sides and reading the text again gives
/// the same size.
pub proof fn lemma_render_then_parse(r: Resolution)
    requires
        r.width > 0,
        r.height > 0,
    ensures
        parsed(rendered(r)) == Some(r),
{
    let w = decimal_digits(r.width as nat);
    let h = decimal_digits(r.height as nat);
    let s = rendered(r);
    let i = w.len() as int;
    lemma_decimal_digits(r.width as nat);
    lemma_decimal_digits(r.height as nat);
    assert(s.subrange(0, i) =~= w);
    assert(s.subrange(i + 1, s.len() as int) =~= h);
    assert(s[i] == 'x');
    assert(splits_at(s, i));
    lemma_parsed_at(s, i);
}

/// A text with anything but digits and `x` in it denotes no size.
pub proof fn lemma_foreign_character(s: Seq<char>, k: int)
    requires
        0 <= k < s.len(),
        !is_digit(s[k]),
        s[k] != 'x',
    ensures
        parsed(s).is_none(),
{
    assert forall|i: int| !splits_at(s, i) by {
        if splits_at(s, i) {
            if k < i {
                assert(s.subrange(0, i)[k] == s[k]);
            } else if k > i {
                assert(s.subrange(i + 1, s.len() as int)[k - i - 1] == s[k]);
            }
        }
    }
}

/// A text without an `x` denotes no size.
pub proof fn lemma_missing_separator(s: Seq<char>)
    requires
        forall|k: int| 0 <= k < s.len() ==> s[k] != 'x',
    ensures
        parsed(s).is_none(),
{
    assert forall|i: int| !splits_at(s, i) by {}
}

/// A text with an `x` at index `i` and a side next to it that is empty or
/// denotes zero denotes no size.
pub proof fn lemma_zero_side(s: Seq<char>, i: int)
    requires
        0 <= i < s.len(),
        s[i] == 'x',
        decimal_value(s.subrange(0, i)) == 0 || decimal_value(s.subrange(i + 1, s.len() as int))
            == 0,
    ensures
        parsed(s).is_none(),
{
    assert forall|j: int| !splits_at(s, j) by {
        if splits_at(s, j) {
            if j < i {
                assert(s.subrange(j + 1, s.len() as int)[i - j - 1] == s[i]);
            } else if j > i {
                assert(s.subrange(0, j)[i] == s[i]);
            }
        }
    }
}

/// `bytes` holds the characters of `chars`, one byte for each.
spec fn holds_text(bytes: Seq<u8>, chars: Seq<char>) -> bool {
    &&& bytes.len() == chars.len()
    &&& forall|k: int|
        0 <= k < chars.len() ==> '\0' <= (#[trigger] chars[k]) <= '\u{7f}' && bytes[k]
            == chars[k] as u8
}

/// Reads one side of a size from `bytes[start..end]`.
fn parse_dimension(bytes: &[u8], Ghost(chars): Ghost<Seq<char>>, start: usize, end: usize) -> (r:
    Option<u32>)
    requires
        holds_text(bytes@, chars),
        start <= end <= bytes@.len(),
    ensures
        match r {
            Some(v) => is_dimension(chars.subrange(start as int, end as int)) && v
                == decimal_value(chars.subrange(start as int, end as int)),
            None => !is_dimension(chars.subrange(start as int, end as int)),
        },
{
    let ghost side = chars.subrange(start as int, end as int);
    let mut value: u64 = 0;
    let mut i: usize = start;
    while i < end
        invariant
            holds_text(bytes@, chars),
            start <= i <= end <= bytes@.len(),
            side == chars.subrange(start as int, end as int),
            all_digits(side.subrange(0, i - start)),
            value == decimal_value(side.subrange(0, i - start)),
            value <= u32::MAX,
        decreases end - i,
    {
        let b: u8 = bytes[i];
        assert(chars[i as int] == side[i - start]);
        if b < 48 || b > 57 {
            assert(!is_digit(side[i - start]));
            return None;
        }
        let ghost shorter = side.subrange(0, i - start);
        let ghost longer = side.subrange(0, i - start + 1);
        assert(longer.drop_last() =~= shorter);
        assert(longer.last() == side[i - start]);
        assert(digit_value(side[i - start]) == b - 48);
        value = value * 10 + (b - 48) as u64;
        assert(value == decimal_value(longer));
        assert forall|k: int| 0 <= k < longer.len() implies is_digit(#[trigger] longer[k]) by {
            if k < shorter.len() {
                assert(longer[k] == shorter[k]);
            }
        }
        if value > 0xFFFF_FFFF {
            proof {
                lemma_prefix_value(side, i - start + 1);
            }
            return None;
        }
        i = i + 1;
    }
    assert(side.subrange(0, i - start) =~= side);
    if start == end || value == 0 {
        None
    } else {
        Some(value as u32)
    }
}

/// The index of the first `x` in `bytes`, if there is one.
fn find_separator(bytes: &[u8], Ghost(chars): Ghost<Seq<char>>) -> (r: Option<usize>)
    requires
        holds_text(bytes@, chars),
    ensures
        match r {
            Some(i) => i < chars.len() && chars[i as int] == 'x' && forall|k: int|
                0 <= k < i ==> #[trigger] chars[k] != 'x',
            None => forall|k: int| 0 <= k < chars.len() ==> #[trigger] chars[k] != 'x',
        },
{
    let mut i: usize = 0;
    while i < bytes.len()
        invariant
            holds_text(bytes@, chars),
            i <= bytes@.len(),
            forall|k: int| 0 <= k < i ==> #[trigger] chars[k] != 'x',
        decreases bytes@.len() - i,
    {
        let b: u8 = bytes[i];
        assert(chars[i as int] as u8 == b);
        if b == 120 {
            return Some(i);
        }
        i = i + 1;
    }
    None
}

/// The one-character text of a number below ten.
fn digit_text(d: u32) -> (t: &'static str)
    requires
        d < 10,
    ensures
        t@ == seq![digit_char(d as nat)],
{
    proof {
        reveal_strlit("0");
        reveal_strlit("1");
        reveal_strlit("2");
        reveal_strlit("3");
        reveal_strlit("4");
        reveal_strlit("5");
        reveal_strlit("6");
        reveal_strlit("7");
        reveal_strlit("8");
        reveal_strlit("9");
    }
    let t = if d == 0 {
        "0"
    } else if d == 1 {
        "1"
    } else if d == 2 {
        "2"
    } else if d == 3 {
        "3"
    } else if d == 4 {
        "4"
    } else if d == 5 {
        "5"
    } else if d == 6 {
        "6"
    } else if d == 7 {
        "7"
    } else if d == 8 {
        "8"
    } else {
        "9"
    };
    assert(t@ =~= seq![digit_char(d as nat)]);
    t
}

/// Writes a number in base ten, without leading zeros.
pub fn render_decimal(n: u32) -> (text: String)
    ensures
        text@ == decimal_digits(n as nat),
    decreases n,
{
    if n < 10 {
        digit_text(n).to_owned()
    } else {
        let mut text = render_decimal(n / 10);
        text.append(digit_text(n % 10));
        assert(text@ =~= decimal_digits(n as nat));
        text
    }
}

impl Resolution {
    /// Reads a size from its text form.
    ///
    /// Succeeds exactly on the texts that denote a size, with that size;
    /// every other text is an `InputError`.
    pub fn parse(text: &str) -> (r: Result<Resolution, MediaError>)
        ensures
            match r {
                Ok(size) => parsed(text@) == Some(size),
                Err(e) => parsed(text@).is_none() && e.kind == ErrorKind::InputError,
            },
    {
        if !text.is_ascii() {
            proof {
                let k = choose|k: int| 0 <= k < text@.len() && !('\0' <= #[trigger] text@[k] <= '\u{7f}');
                lemma_foreign_character(text@, k);
            }
            return Err(MediaError::new(ErrorKind::InputError, "resolution holds a character that is not ASCII"));
        }
        let bytes = text.as_bytes();
        proof {
            is_ascii_spec_bytes(text);
        }
        let ghost chars = text@;
        assert(holds_text(bytes@, chars));
        let i: usize = match find_separator(bytes, Ghost(chars)) {
            Some(i) => i,
            None => {
                assert forall|j: int| !splits_at(chars, j) by {}
                return Err(MediaError::new(ErrorKind::InputError, "resolution has no 'x' between width and height"));
            },
        };
        let n: usize = bytes.len();
        let width = parse_dimension(bytes, Ghost(chars), 0, i);
        let height = parse_dimension(bytes, Ghost(chars), i + 1, n);
        proof {
            assert forall|j: int| splits_at(chars, j) implies j == i by {
                if j > i {
                    assert(chars.subrange(0, j)[i as int] == chars[i as int]);
                }
            }
        }
        match (width, height) {
            (Some(w), Some(h)) => {
                proof {
                    lemma_parsed_at(chars, i as int);
                }
                Ok(Resolution { width: w, height: h })
            },
            _ => Err(MediaError::new(ErrorKind::InputError, "resolution must be two positive numbers, as in 640x480")),
        }
    }

    /// Writes the size in its text form.
    pub fn render(&self) -> (text: String)
        ensures
            text@ == rendered(*self),
    {
        proof {
            reveal_strlit("x");
        }
        let mut text = render_decimal(self.width);
        text.append("x");
        let height = render_decimal(self.height);
        text.append(height.as_str());
        assert("x"@ =~= seq!['x']);
        text
    }
}

} // verus!
