use parser_combinators::buffer::Buffer;
use parser_combinators::choice::Choice;
use parser_combinators::ignore::Ignore;
use parser_combinators::numeric::number_parser;
use parser_combinators::numeric::parse_decimal_u64;
use parser_combinators::numeric::NumberError;
use parser_combinators::parser::Parser;
use parser_combinators::parser::ParserExt;
use parser_combinators::repeat::Repeat;
use parser_combinators::choice::ParserExt3;
use parser_combinators::terminal::IntoRegexParser;
use parser_combinators::terminal::RegexParser;
use parser_combinators::terminal::RegexParserError;

#[test]
fn buffer_tracks_position() {
    let mut buf = Buffer::new("hello");
    assert_eq!(buf.index(), 0);
    assert_eq!(buf.remaining(), "hello");
    assert_eq!(buf.len(), 5);
    buf.add_offset(2);
    assert_eq!(buf.index(), 2);
    assert_eq!(buf.remaining(), "llo");
    buf.set_index(1);
    assert_eq!(buf.index(), 1);
    assert_eq!(buf.remaining(), "ello");
}

#[test]
fn buffer_counts_characters_not_bytes() {
    let mut buf = Buffer::new("déjà vu");
    assert_eq!(buf.len(), 7);
    buf.add_offset(4);
    assert_eq!(buf.remaining(), " vu");
}

#[test]
fn terminal_whole_match_single_element() {
    // A regex with no capture groups yields a single-element match sequence.
    let word = RegexParser::new("[a-z]+").unwrap();
    let mut buf = Buffer::new("hello world");
    let matches = word.parse(&mut buf).unwrap();
    assert_eq!(matches.len(), 1);
    assert_eq!(matches[0].matched, "hello");
    assert_eq!(matches[0].start, 0);
    assert_eq!(matches[0].end, 5);
    assert_eq!(buf.index(), 5);
}

#[test]
fn terminal_groups_yield_one_element_each() {
    // Two capture groups yield three elements, the whole match first.
    let pair = RegexParser::new("([a-z]+)=([0-9]+)").unwrap();
    let mut buf = Buffer::new("x=42;");
    let matches = pair.parse(&mut buf).unwrap();
    assert_eq!(matches.len(), 3);
    assert_eq!(matches[0].matched, "x=42");
    assert_eq!(matches[1].matched, "x");
    assert_eq!(matches[2].matched, "42");
    assert_eq!(matches[1].start, 0);
    assert_eq!(matches[1].end, 1);
    assert_eq!(matches[2].start, 2);
    assert_eq!(matches[2].end, 4);
    assert_eq!(buf.index(), 4);
}

#[test]
fn terminal_failure_leaves_cursor() {
    let digits = RegexParser::new("[0-9]+").unwrap();
    let mut buf = Buffer::new("abc");
    assert!(digits.parse(&mut buf).is_err());
    assert_eq!(buf.index(), 0);
}

#[test]
fn terminal_searches_leftmost_anywhere() {
    // An unanchored pattern skips unmatched leading characters silently and
    // the cursor lands after the end of the whole match.
    let digits = RegexParser::new("[0-9]+").unwrap();
    let mut buf = Buffer::new("ab12cd");
    let matches = digits.parse(&mut buf).unwrap();
    assert_eq!(matches[0].matched, "12");
    assert_eq!(matches[0].start, 2);
    assert_eq!(matches[0].end, 4);
    assert_eq!(buf.index(), 4);
}

#[test]
fn terminal_rejects_invalid_pattern() {
    assert!(RegexParser::new("(unclosed").is_err());
}

#[test]
fn terminal_offsets_count_characters() {
    let digits = RegexParser::new("[0-9]+").unwrap();
    let mut buf = Buffer::new("été 42");
    let matches = digits.parse(&mut buf).unwrap();
    assert_eq!(matches[0].matched, "42");
    assert_eq!(matches[0].start, 4);
    assert_eq!(matches[0].end, 6);
    assert_eq!(buf.index(), 6);
}

#[test]
fn sequence_runs_children_in_order() {
    let word = RegexParser::new("^[a-z]+").unwrap();
    let digits = RegexParser::new("^[0-9]+").unwrap();
    let mut buf = Buffer::new("ab12");
    let (w, d) = (&word, &digits).parse(&mut buf).unwrap();
    assert_eq!(w[0].matched, "ab");
    assert_eq!(d[0].matched, "12");
    assert_eq!(buf.index(), 4);
}

#[test]
fn sequence_failure_is_atomic() {
    // The first child consumes input, the second fails: the cursor ends
    // exactly where the sequence started.
    let word = RegexParser::new("^[a-z]+").unwrap();
    let digits = RegexParser::new("^[0-9]+").unwrap();
    let mut buf = Buffer::new("abcd!");
    assert!((&word, &digits).parse(&mut buf).is_err());
    assert_eq!(buf.index(), 0);
}

#[test]
fn sequence_failure_is_atomic_at_later_child() {
    let a = RegexParser::new("^a").unwrap();
    let b = RegexParser::new("^b").unwrap();
    let c = RegexParser::new("^c").unwrap();
    let d = RegexParser::new("^d").unwrap();
    let mut buf = Buffer::new("abcX");
    assert!((&a, &b, &c, &d).parse(&mut buf).is_err());
    assert_eq!(buf.index(), 0);
}

#[test]
fn choice_first_match_wins() {
    // Both alternatives match; the first wins even though the second would
    // consume more input.
    let one = RegexParser::new("^[a-z]").unwrap();
    let many = RegexParser::new("^[a-z]+").unwrap();
    let choice = Choice::new((&one, &many));
    let mut buf = Buffer::new("abc");
    let matches = choice.parse(&mut buf).unwrap();
    assert_eq!(matches[0].matched, "a");
    assert_eq!(buf.index(), 1);
}

#[test]
fn choice_falls_through_to_second() {
    let digits = RegexParser::new("^[0-9]+").unwrap();
    let word = RegexParser::new("^[a-z]+").unwrap();
    let choice = Choice::new((&digits, &word));
    let mut buf = Buffer::new("abc");
    let matches = choice.parse(&mut buf).unwrap();
    assert_eq!(matches[0].matched, "abc");
    assert_eq!(buf.index(), 3);
}

#[test]
fn choice_aggregates_every_failure() {
    let digits = RegexParser::new("^[0-9]+").unwrap();
    let upper = RegexParser::new("^[A-Z]+").unwrap();
    let choice = Choice::new((&digits, &upper));
    let mut buf = Buffer::new("abc");
    let errs = choice.parse(&mut buf).unwrap_err();
    assert_eq!(errs.len(), 2);
    assert_eq!(buf.index(), 0);
}

#[test]
fn repeat_collects_matches() {
    let item = RegexParser::new("^[a-z][0-9]").unwrap();
    let repeat = Repeat::new(&item, 0);
    let mut buf = Buffer::new("a1b2c3!");
    let out = repeat.parse(&mut buf).unwrap();
    assert_eq!(out.len(), 3);
    assert_eq!(out[0][0].matched, "a1");
    assert_eq!(out[2][0].matched, "c3");
    assert_eq!(buf.index(), 6);
}

#[test]
fn repeat_enforces_minimum() {
    // Two matches available, three required: failure, cursor restored.
    let item = RegexParser::new("^[a-z]").unwrap();
    let mut buf = Buffer::new("ab1");
    assert!(Repeat::new(&item, 3).parse(&mut buf).is_err());
    assert_eq!(buf.index(), 0);
    // Two required: success with exactly two results, cursor after them.
    let out = Repeat::new(&item, 2).parse(&mut buf).unwrap();
    assert_eq!(out.len(), 2);
    assert_eq!(buf.index(), 2);
}

#[test]
fn repeat_zero_minimum_never_fails_for_lack_of_matches() {
    let digits = RegexParser::new("^[0-9]").unwrap();
    let mut buf = Buffer::new("abc");
    let out = Repeat::new(&digits, 0).parse(&mut buf).unwrap();
    assert_eq!(out.len(), 0);
    assert_eq!(buf.index(), 0);
}

#[test]
fn repeated_method_builds_repeat() {
    let item = RegexParser::new("^x").unwrap();
    let mut buf = Buffer::new("xxy");
    let out = item.repeated(1).parse(&mut buf).unwrap();
    assert_eq!(out.len(), 2);
    assert_eq!(buf.index(), 2);
}

#[test]
fn mapped_reshapes_output() {
    let digits = RegexParser::new("^[0-9]+").unwrap();
    let len_of_match = digits.map(
        |r: Result<Vec<parser_combinators::terminal::RegexParserMatch>, RegexParserError>| {
            r.map(|v| v[0].matched.len())
        },
    );
    let mut buf = Buffer::new("1234x");
    assert_eq!(len_of_match.parse(&mut buf).unwrap(), 4);
    assert_eq!(buf.index(), 4);
}

#[test]
fn mapped_converts_error_and_restores() {
    let digits = RegexParser::new("^[0-9]+").unwrap();
    let renamed = digits.map(
        |r: Result<Vec<parser_combinators::terminal::RegexParserMatch>, RegexParserError>| {
            r.map_err(|_| "no digits")
        },
    );
    let mut buf = Buffer::new("abc");
    assert_eq!(renamed.parse(&mut buf).unwrap_err(), "no digits");
    assert_eq!(buf.index(), 0);
}

#[test]
fn ignore_discards_payload() {
    let word = RegexParser::new("^[a-z]+").unwrap();
    let mut buf = Buffer::new("abc1");
    let ignored: Result<(), RegexParserError> = Ignore::new(&word).parse(&mut buf);
    assert!(ignored.is_ok());
    assert_eq!(buf.index(), 3);
}

#[test]
fn ignore_forwards_failure() {
    let word = RegexParser::new("^[a-z]+").unwrap();
    let mut buf = Buffer::new("123");
    let ignored: Result<(), RegexParserError> = word.ignored().parse(&mut buf);
    assert!(ignored.is_err());
    assert_eq!(buf.index(), 0);
}

#[test]
fn decimal_conversion_exact_values() {
    assert_eq!(parse_decimal_u64("0"), Some(0));
    assert_eq!(parse_decimal_u64("42"), Some(42));
    assert_eq!(parse_decimal_u64("007"), Some(7));
    assert_eq!(parse_decimal_u64("18446744073709551615"), Some(u64::MAX));
}

#[test]
fn decimal_conversion_rejections() {
    assert_eq!(parse_decimal_u64(""), None);
    assert_eq!(parse_decimal_u64("12a"), None);
    assert_eq!(parse_decimal_u64("-1"), None);
    // One past the largest representable value.
    assert_eq!(parse_decimal_u64("18446744073709551616"), None);
    assert_eq!(parse_decimal_u64("99999999999999999999999"), None);
}

#[test]
fn number_parser_reads_value() {
    let num = number_parser().unwrap();
    let mut buf = Buffer::new("42 left");
    assert_eq!(num.parse(&mut buf).unwrap(), 42);
    assert_eq!(buf.index(), 2);
}

#[test]
fn number_parser_numeric_failure_restores_cursor() {
    let num = number_parser().unwrap();
    // The digit pattern matches the empty prefix, so the conversion fails.
    let mut buf = Buffer::new("abc");
    assert!(matches!(num.parse(&mut buf), Err(NumberError::Numeric)));
    assert_eq!(buf.index(), 0);
    // Out of range: the match is consumed, the failure hands the cursor back.
    let mut buf = Buffer::new("18446744073709551616");
    assert!(matches!(num.parse(&mut buf), Err(NumberError::Numeric)));
    assert_eq!(buf.index(), 0);
}

#[test]
fn boxed_parser_still_parses() {
    let word = RegexParser::new("^[a-z]+").unwrap();
    let boxed = word.boxed();
    let mut buf = Buffer::new("abc");
    let matches = boxed.parse(&mut buf).unwrap();
    assert_eq!(matches[0].matched, "abc");
}

#[test]
fn try_match_regex_reports_captures_without_moving() {
    let buf = Buffer::new("a=1");
    let re = regex::Regex::new("([a-z])=([0-9])").unwrap();
    let caps = buf.try_match_regex(&re).unwrap();
    assert_eq!(caps.len(), 3);
    assert_eq!(caps[0].unwrap().1, "a=1");
    assert_eq!(caps[1].unwrap().1, "a");
    assert_eq!(caps[2].unwrap().1, "1");
    assert_eq!(buf.index(), 0);
}

#[test]
fn any_builds_an_ordered_choice() {
    let digits = RegexParser::new("^[0-9]+").unwrap();
    let word = RegexParser::new("^[a-z]+").unwrap();
    let upper = RegexParser::new("^[A-Z]+").unwrap();
    let choice = (&digits, &word, &upper).any();
    let mut buf = Buffer::new("abc9");
    let matches = choice.parse(&mut buf).unwrap();
    assert_eq!(matches[0].matched, "abc");
    let mut buf = Buffer::new("!");
    let errs = choice.parse(&mut buf).unwrap_err();
    assert_eq!(errs.len(), 3);
    assert_eq!(buf.index(), 0);
}

#[test]
fn str_into_parser_builds_terminal() {
    let word = "^[a-z]+".into_parser().unwrap();
    let mut buf = Buffer::new("abc");
    assert_eq!(word.parse(&mut buf).unwrap()[0].matched, "abc");
    assert!("(bad".into_parser().is_err());
}

#[test]
fn terminal_empty_match_is_success() {
    // A pattern that matches the empty prefix succeeds without consuming.
    let star = RegexParser::new("[0-9]*").unwrap();
    let mut buf = Buffer::new("abc");
    let matches = star.parse(&mut buf).unwrap();
    assert_eq!(matches[0].matched, "");
    assert_eq!(buf.index(), 0);
}

#[test]
fn repeat_stops_after_an_empty_success() {
    // A repetition whose child succeeds without consuming would repeat in
    // place forever; once the minimum is reached it stops after one such
    // success.
    let star = RegexParser::new("[0-9]*").unwrap();
    let mut buf = Buffer::new("abc");
    let out = Repeat::new(&star, 0).parse(&mut buf).unwrap();
    assert_eq!(out.len(), 1);
    assert_eq!(buf.index(), 0);
}

#[test]
fn mapped_flipping_transform_keeps_consumed_input() {
    // A transform that turns a child success into a failure is the one
    // capability that does not backtrack: the consumed input stays consumed.
    let word = RegexParser::new("^[a-z]+").unwrap();
    let always_fail = word.map(
        |r: Result<Vec<parser_combinators::terminal::RegexParserMatch>, RegexParserError>| {
            let out: Result<(), &str> = match r {
                Ok(_) => Err("flipped"),
                Err(_) => Err("failed"),
            };
            out
        },
    );
    let mut buf = Buffer::new("abc");
    assert_eq!(always_fail.parse(&mut buf).unwrap_err(), "flipped");
    assert_eq!(buf.index(), 3);
}

#[test]
fn shared_parser_behind_rc_still_parses() {
    let word = std::rc::Rc::new(RegexParser::new("^[a-z]+").unwrap());
    let other = word.clone();
    let mut buf = Buffer::new("abc");
    assert_eq!(word.parse(&mut buf).unwrap()[0].matched, "abc");
    let mut buf = Buffer::new("def");
    assert_eq!(other.parse(&mut buf).unwrap()[0].matched, "def");
}

#[test]
fn cloned_terminal_keeps_its_pattern() {
    let word = RegexParser::new("^[a-z]+").unwrap();
    let copy = word.clone();
    let mut buf = Buffer::new("abc1");
    assert_eq!(copy.parse(&mut buf).unwrap()[0].matched, "abc");
}

#[test]
fn absent_group_yields_empty_slice() {
    // Two capture groups make three entries even when one group took part in
    // no alternative of the match: the absent group contributes an empty
    // slice at the whole match's start.
    let opt = RegexParser::new("^(a)|(b)").unwrap();
    let mut buf = Buffer::new("a");
    let matches = opt.parse(&mut buf).unwrap();
    assert_eq!(matches.len(), 3);
    assert_eq!(matches[0].matched, "a");
    assert_eq!(matches[1].matched, "a");
    assert_eq!(matches[2].matched, "");
    assert_eq!(matches[2].start, 0);
    assert_eq!(matches[2].end, 0);
    assert_eq!(buf.index(), 1);
}
