//! The numeric convenience terminal: a digit-matching terminal composed with
//! a verified decimal conversion to a bounded integer type.
//!
//! The conversion targets `u64`: a conversion generic over a numeric trait
//! of an outside crate cannot be spoken of in contracts, so the widest
//! unsigned type is read and a caller needing a narrower width range-checks
//! the value.

use vstd::prelude::*;
use vstd::string::StrSliceExecFns;
use crate::buffer::Buffer;
use crate::parser::Parser;
use crate::terminal::regex_valid;
use crate::terminal::PatternError;
use crate::terminal::RegexParser;
use crate::terminal::RegexParserMatch;
use crate::terminal::regex_captures;

verus! {

/// A decimal digit.
pub open spec fn is_digit(c: char) -> bool {
    '0' as int <= c as int && c as int <= '9' as int
}

/// All characters are decimal digits.
pub open spec fn is_digit_seq(s: Seq<char>) -> bool {
    forall|i: int| 0 <= i < s.len() ==> is_digit(#[trigger] s[i])
}

/// The value a sequence of decimal digits denotes, most significant first.
pub open spec fn dec_value(s: Seq<char>) -> int
    decreases s.len(),
{
    if s.len() == 0 {
        0
    } else {
        10 * dec_value(s.drop_last()) + (s.last() as int - '0' as int)
    }
}

/// A digit sequence denotes a non-negative value.
proof fn lemma_dec_value_nonneg(s: Seq<char>)
    requires
        is_digit_seq(s),
    ensures
        dec_value(s) >= 0,
    decreases s.len(),
{
    if s.len() > 0 {
        assert(is_digit_seq(s.drop_last()));
        lemma_dec_value_nonneg(s.drop_last());
    }
}

/// Extending a digit sequence never shrinks its value.
proof fn lemma_dec_value_prefix_le(s: Seq<char>, j: int)
    requires
        is_digit_seq(s),
        0 <= j <= s.len(),
    ensures
        dec_value(s.subrange(0, j)) <= dec_value(s),
    decreases s.len() - j,
{
    assert(is_digit_seq(s.subrange(0, j)));
    if j == s.len() {
        assert(s.subrange(0, j) == s);
    } else {
        assert(s.subrange(0, j + 1).drop_last() == s.subrange(0, j));
        lemma_dec_value_nonneg(s.subrange(0, j));
        lemma_dec_value_prefix_le(s, j + 1);
    }
}

/// Failure conditions of the numeric terminal.
#[derive(Debug)]
pub enum NumberError {
    /// The digit pattern found no match in the remaining input.
    NoMatch,
    /// The matched text is not a representation of the requested numeric type
    /// or is out of its representable range.
    Numeric,
}

/// Reads a decimal number, most significant digit first. Succeeds exactly on
/// non-empty all-digit texts whose value is representable.
pub fn parse_decimal_u64(s: &str) -> (r: Option<u64>)
    ensures
        r is Some <==> (s@.len() > 0 && is_digit_seq(s@) && dec_value(s@) <= u64::MAX),
        r matches Some(n) ==> n == dec_value(s@),
{
    let n = s.unicode_len();
    if n == 0 {
        return None;
    }
    let mut val: u64 = 0;
    let mut i: usize = 0;
    while i < n
        invariant
            i <= n,
            n == s@.len(),
            is_digit_seq(s@.subrange(0, i as int)),
            val == dec_value(s@.subrange(0, i as int)),
        decreases n - i,
    {
        let c = s.get_char(i);
        let u = c as u32;
        if u < 48 || u > 57 {
            proof {
                assert(s@[i as int] == c);
                assert(!is_digit(c));
                assert(!is_digit_seq(s@));
            }
            return None;
        }
        let d = (u - 48) as u64;
        if val > (u64::MAX - d) / 10 {
            proof {
                assert(s@.subrange(0, i as int + 1).drop_last() == s@.subrange(0, i as int));
                assert(s@.subrange(0, i as int + 1).last() == s@[i as int]);
                assert(10 * (val as int) + (d as int) > u64::MAX) by (nonlinear_arith)
                    requires
                        val as int > (u64::MAX as int - d as int) / 10,
                        0 <= d as int <= 9,
                ;
                assert(dec_value(s@.subrange(0, i as int + 1)) > u64::MAX);
                if is_digit_seq(s@) {
                    lemma_dec_value_prefix_le(s@, i as int + 1);
                }
            }
            return None;
        }
        proof {
            assert(10 * (val as int) + (d as int) <= u64::MAX) by (nonlinear_arith)
                requires
                    val as int <= (u64::MAX as int - d as int) / 10,
                    0 <= d as int <= 9,
                    val as int >= 0,
            ;
            assert(s@.subrange(0, i as int + 1).drop_last() == s@.subrange(0, i as int));
            assert(s@.subrange(0, i as int + 1).last() == s@[i as int]);
        }
        val = val * 10 + d;
        i = i + 1;
    }
    proof {
        assert(s@.subrange(0, n as int) == s@);
    }
    Some(val)
}

/// The convenience terminal: matches a run of digits with a regex terminal
/// and converts the whole match to a `u64` with [`parse_decimal_u64`].
///
/// Unlike a plain terminal followed by a transform, a failed conversion also
/// restores the cursor, so the capability backtracks on every failure.
pub struct NumberParser {
    digits: RegexParser,
}

impl NumberParser {
    /// The digit pattern this terminal matches with.
    pub closed spec fn pattern(&self) -> Seq<char> {
        self.digits.pattern()
    }
}

/// Builds the numeric terminal; fails exactly when the regex engine rejects
/// the digit pattern.
pub fn number_parser() -> (r: Result<NumberParser, PatternError>)
    ensures
        r is Ok <==> regex_valid("[0-9]*"@),
        r matches Ok(p) ==> p.pattern() == "[0-9]*"@,
{
    match RegexParser::new("[0-9]*") {
        Ok(digits) => Ok(NumberParser { digits }),
        Err(e) => Err(e),
    }
}

impl<'a> Parser<'a, u64, NumberError> for NumberParser {
    open spec fn backtracks(&self) -> bool {
        true
    }

    open spec fn parsed(&self, src: Seq<char>, entry: int, exit: int, r: Result<
        u64,
        NumberError,
    >) -> bool {
        let spans = regex_captures(self.pattern(), src.subrange(entry, src.len() as int));
        let whole = spans->Some_0[0]->Some_0;
        let mtext = src.subrange(entry + whole.0, entry + whole.1);
        &&& (r is Ok <==> (spans is Some && mtext.len() > 0 && is_digit_seq(mtext) && dec_value(
            mtext,
        ) <= u64::MAX))
        &&& (r matches Ok(n) ==> n == dec_value(mtext) && exit == entry + whole.1)
        &&& (r is Err ==> exit == entry)
        &&& (r matches Err(e) ==> (e is NoMatch <==> spans is None))
    }

    fn parse(&self, buf: &mut Buffer<'a>) -> (r: Result<u64, NumberError>) {
        let entry = buf.index();
        let matches: Vec<RegexParserMatch<'a>> = match self.digits.parse(buf) {
            Ok(v) => v,
            Err(_) => {
                return Err(NumberError::NoMatch);
            },
        };
        let whole = matches[0].matched;
        match parse_decimal_u64(whole) {
            Some(n) => Ok(n),
            None => {
                buf.set_index(entry);
                Err(NumberError::Numeric)
            },
        }
    }
}

} // verus!
