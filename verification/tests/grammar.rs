use parser_combinators::buffer::Buffer;
use parser_combinators::choice::Choice;
use parser_combinators::numeric::number_parser;
use parser_combinators::numeric::NumberError;
use parser_combinators::numeric::NumberParser;
use parser_combinators::parser::Parser;
use parser_combinators::parser::ParserExt;
use parser_combinators::recursive::Recursive;
use parser_combinators::terminal::RegexParser;
use parser_combinators::terminal::RegexParserError;

#[derive(Debug, PartialEq)]
enum Node {
    Assign(String, u64),
    Block(Vec<Node>),
}

/// One rule of a self-referential grammar: an item is an assignment or a
/// brace-delimited block of items, and blocks nest through the recursive
/// reference handle.
struct ItemGrammar {
    ident: RegexParser,
    eq: RegexParser,
    num: NumberParser,
    open_b: RegexParser,
    close_b: RegexParser,
    rec: Recursive<ItemGrammar>,
}

impl<'a> Parser<'a, Node, ()> for ItemGrammar {
    fn parse(&self, buf: &mut Buffer<'a>) -> Result<Node, ()> {
        let entry = buf.index();
        if let Ok(m) = self.ident.parse(buf) {
            if self.eq.parse(buf).is_ok() {
                if let Ok(v) = self.num.parse(buf) {
                    return Ok(Node::Assign(m[1].matched.to_string(), v));
                }
            }
            buf.set_index(entry);
        }
        if self.open_b.parse(buf).is_ok() {
            let mut items = Vec::new();
            loop {
                let before = buf.index();
                match self.rec.parse(buf) {
                    Ok(n) => items.push(n),
                    Err(_) => {
                        buf.set_index(before);
                        break;
                    },
                }
            }
            if self.close_b.parse(buf).is_ok() {
                return Ok(Node::Block(items));
            }
        }
        buf.set_index(entry);
        Err(())
    }
}

fn item_grammar() -> Recursive<ItemGrammar> {
    Recursive::new(|rec| ItemGrammar {
        ident: RegexParser::new(r"^\s*([a-z][a-z0-9]*)").unwrap(),
        eq: RegexParser::new(r"^\s*=\s*").unwrap(),
        num: number_parser().unwrap(),
        open_b: RegexParser::new(r"^\s*\{").unwrap(),
        close_b: RegexParser::new(r"^\s*\}").unwrap(),
        rec,
    })
}

#[test]
fn recursive_grammar_parses_nested_blocks() {
    let grammar = item_grammar();
    let source = "{\n  x = 1\n  {\n    y = 2\n    z = 3\n  }\n}";
    let mut buf = Buffer::new(source);
    let tree = grammar.parse(&mut buf).unwrap();
    assert_eq!(
        tree,
        Node::Block(vec![
            Node::Assign("x".to_string(), 1),
            Node::Block(vec![
                Node::Assign("y".to_string(), 2),
                Node::Assign("z".to_string(), 3),
            ]),
        ])
    );
    assert_eq!(buf.index(), source.chars().count());
}

#[test]
fn recursive_grammar_fails_cleanly_on_trivial_input() {
    // Only the terminator (end of input) is present: the grammar fails as an
    // ordinary parse failure, without exhausting the stack, and the cursor
    // is back at the entry position.
    let grammar = item_grammar();
    let mut buf = Buffer::new("");
    assert!(grammar.parse(&mut buf).is_err());
    assert_eq!(buf.index(), 0);
}

#[test]
fn recursive_owner_delegates() {
    // An owning node over a plain terminal behaves exactly as the terminal.
    let owner = Recursive::new(|_rec: Recursive<RegexParser>| {
        RegexParser::new("^[a-z]+").unwrap()
    });
    let mut buf = Buffer::new("abc1");
    let matches = owner.parse(&mut buf).unwrap();
    assert_eq!(matches[0].matched, "abc");
    assert_eq!(buf.index(), 3);
    let mut buf = Buffer::new("123");
    assert!(owner.parse(&mut buf).is_err());
    assert_eq!(buf.index(), 0);
}

#[test]
fn recursive_handle_is_shareable() {
    let grammar = item_grammar();
    let clone = grammar.clone();
    let mut buf = Buffer::new("{ a = 7 }");
    assert_eq!(
        clone.parse(&mut buf).unwrap(),
        Node::Block(vec![Node::Assign("a".to_string(), 7)])
    );
}

#[test]
fn statement_grammar_end_to_end() {
    // statement := identifier, optional whitespace, "=", optional
    // whitespace, digits.
    let ident = RegexParser::new("^[a-z][a-z0-9]*").unwrap();
    let ws = RegexParser::new("^ *").unwrap();
    let eq = RegexParser::new("^=").unwrap();
    let num = number_parser().unwrap().map(|r: Result<u64, NumberError>| {
        r.map_err(|_| RegexParserError)
    });
    let statement = (&ident, &ws, &eq, &ws, &num);

    let mut buf = Buffer::new("x = 42");
    let (id, _, _, _, value) = statement.parse(&mut buf).unwrap();
    assert_eq!(id[0].matched, "x");
    assert_eq!(value, 42);
    assert_eq!(buf.index(), 6);
}

#[test]
fn statement_grammar_missing_equals_restores_cursor() {
    let ident = RegexParser::new("^[a-z][a-z0-9]*").unwrap();
    let ws = RegexParser::new("^ *").unwrap();
    let eq = RegexParser::new("^=").unwrap();
    let num = number_parser().unwrap().map(|r: Result<u64, NumberError>| {
        r.map_err(|_| RegexParserError)
    });
    let statement = (&ident, &ws, &eq, &ws, &num);

    // The identifier and the whitespace consume input, then the equals
    // terminal fails: the whole statement fails with the cursor back at the
    // start of the attempt.
    let mut buf = Buffer::new("x 42");
    assert!(statement.parse(&mut buf).is_err());
    assert_eq!(buf.index(), 0);
}

#[test]
fn aggregated_errors_keep_one_cause_per_alternative() {
    let let_kw = RegexParser::new("^let +").unwrap();
    let ident = RegexParser::new("^[a-z][a-z0-9]*").unwrap();
    let ws = RegexParser::new("^ *").unwrap();
    let eq = RegexParser::new("^=").unwrap();
    let digits = RegexParser::new("^[0-9]+").unwrap();

    let declare = (&let_kw, &ident, &ws, &eq, &ws, &digits).ignored();
    let assign = (&ident, &ws, &eq, &ws, &digits).ignored();
    let statement = Choice::new((&declare, &assign));

    let mut buf = Buffer::new("1bad = 2");
    let errs = statement.parse(&mut buf).unwrap_err();
    assert_eq!(errs.len(), 2);
    assert_eq!(buf.index(), 0);
}
