use vasm::error::ParseError;
use vasm::op::Op;
use vasm::parser::{assemble, chars_of, number, parse_line, split_text, words, Item};

fn chars(s: &str) -> Vec<char> {
    s.chars().collect()
}

fn strings(pieces: Vec<Vec<char>>) -> Vec<String> {
    pieces.into_iter().map(|p| p.into_iter().collect()).collect()
}

#[test]
fn a_source_becomes_a_program() {
    let program = assemble("push 5\n  push 0x10\nadd\n\n.word 7\nstore 0x1000\nsend 1 2\nhalt\n").unwrap();
    assert_eq!(
        program.ops,
        vec![Op::Push(5), Op::Push(16), Op::Add, Op::Store(0x1000), Op::Send(1, 2), Op::Halt]
    );
    assert_eq!(program.symbols.data, vec![7]);
    assert!(program.symbols.table.is_empty());
}

#[test]
fn every_mnemonic_is_known() {
    let source = "noop\npush 1\npop\nadd\nsub\nload 2\nstore 3\nget 4\nset 5\njump 6\njumpz 7\ncall 8\nreturn\nsend 9 10\nreceive\nprint\nsleep 11\nhalt";
    assert_eq!(
        assemble(source).unwrap().ops,
        vec![
            Op::Noop,
            Op::Push(1),
            Op::Pop,
            Op::Add,
            Op::Sub,
            Op::Load(2),
            Op::Store(3),
            Op::GetReg(4),
            Op::SetReg(5),
            Op::Jump(6),
            Op::JumpZero(7),
            Op::Call(8),
            Op::Return,
            Op::Send(9, 10),
            Op::Receive,
            Op::Print,
            Op::Sleep(11),
            Op::Halt,
        ]
    );
}

#[test]
fn an_empty_source_is_an_empty_program() {
    let program = assemble("").unwrap();
    assert!(program.ops.is_empty());
    assert!(program.symbols.data.is_empty());
    let program = assemble("\n \t\r\n\n").unwrap();
    assert!(program.ops.is_empty());
}

#[test]
fn the_first_bad_line_is_reported() {
    assert_eq!(assemble("noop\nfoo\nbar"), Err(ParseError::UnknownInstruction { line: 2 }));
    assert_eq!(assemble("push"), Err(ParseError::MissingOperand { line: 1 }));
    assert_eq!(assemble("\n\nsend 1"), Err(ParseError::MissingOperand { line: 3 }));
    assert_eq!(assemble("push 1 2"), Err(ParseError::TrailingInput { line: 1 }));
    assert_eq!(assemble("halt 1"), Err(ParseError::TrailingInput { line: 1 }));
    assert_eq!(assemble("push x"), Err(ParseError::InvalidOperand { line: 1 }));
    assert_eq!(assemble("push 65536"), Err(ParseError::InvalidOperand { line: 1 }));
    assert_eq!(assemble("push 0x10000"), Err(ParseError::InvalidOperand { line: 1 }));
    assert_eq!(assemble("push 0x"), Err(ParseError::InvalidOperand { line: 1 }));
    assert_eq!(assemble("push -1"), Err(ParseError::InvalidOperand { line: 1 }));
    assert_eq!(assemble(".word"), Err(ParseError::MissingOperand { line: 1 }));
    assert_eq!(assemble(".word 1 2"), Err(ParseError::TrailingInput { line: 1 }));
    assert_eq!(assemble("PUSH 1"), Err(ParseError::UnknownInstruction { line: 1 }));
    assert_eq!(assemble("send 1 z\nfoo"), Err(ParseError::InvalidOperand { line: 1 }));
}

#[test]
fn too_many_lines_are_refused() {
    let source = "\n".repeat(0xFFFF);
    assert_eq!(assemble(&source), Err(ParseError::TooManyLines));
    let source = "\n".repeat(0xFFFE);
    assert!(assemble(&source).is_ok());
    let mut source = "\n".repeat(0xFFFE);
    source.push_str("bad");
    assert_eq!(assemble(&source), Err(ParseError::UnknownInstruction { line: 0xFFFF }));
}

#[test]
fn numbers() {
    assert_eq!(number(&chars("0")), Some(0));
    assert_eq!(number(&chars("007")), Some(7));
    assert_eq!(number(&chars("65535")), Some(65535));
    assert_eq!(number(&chars("65536")), None);
    assert_eq!(number(&chars("99999999999999999999")), None);
    assert_eq!(number(&chars("0xFFFF")), Some(0xFFFF));
    assert_eq!(number(&chars("0xabcd")), Some(0xABCD));
    assert_eq!(number(&chars("0x0")), Some(0));
    assert_eq!(number(&chars("0x10000")), None);
    assert_eq!(number(&chars("0X10")), None);
    assert_eq!(number(&chars("")), None);
    assert_eq!(number(&chars("12a")), None);
    assert_eq!(number(&chars("a12")), None);
    assert_eq!(number(&chars("0xg")), None);
    assert_eq!(number(&chars("+1")), None);
}

#[test]
fn lines_and_words() {
    assert_eq!(strings(split_text(&chars("a\nb c\n"), true)), vec!["a", "b c", ""]);
    assert_eq!(strings(split_text(&chars(""), true)), vec![""]);
    assert_eq!(strings(split_text(&chars("a  b"), false)), vec!["a", "", "b"]);
    assert_eq!(strings(words(&chars("  push \t 1\r"))), vec!["push", "1"]);
    assert_eq!(strings(words(&chars(" \t "))), Vec::<String>::new());
    assert_eq!(chars_of("héllo"), vec!['h', 'é', 'l', 'l', 'o']);
}

#[test]
fn single_lines() {
    assert_eq!(parse_line(&chars(""), 1), Ok(Item::Blank));
    assert_eq!(parse_line(&chars("sleep 5"), 1), Ok(Item::Instruction(Op::Sleep(5))));
    assert_eq!(parse_line(&chars(".word 0x20"), 1), Ok(Item::Datum(32)));
    assert_eq!(parse_line(&chars("sleep"), 9), Err(ParseError::MissingOperand { line: 9 }));
}
