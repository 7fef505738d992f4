//! The assembler: from a source text to a program.
//!
//! A source is a sequence of lines. A line holds words, set apart by spaces
//! or tabs; a line without words says nothing. The first word of a line
//! names an instruction, and the words after it are its operands: numbers in
//! decimal, or in hexadecimal after `0x`. A line that starts with `.word`
//! adds its one operand to the data of the program.

use vstd::prelude::*;
use vstd::std_specs::iter::IteratorSpec;
use vstd::string::StrSliceExecFns;
use crate::error::ParseError;
use crate::op::{arity, arity_spec, build, build_spec, Op};
use crate::program::{parsed_view, Program, ProgramView, Symbol, Symbols};

verus! {

/// Whether a character sets words apart.
pub open spec fn is_space(c: char) -> bool {
    c == ' ' || c == '\t' || c == '\r'
}

/// Whether a character ends a piece: a line feed where lines are split, a
/// space where words are.
pub open spec fn is_separator(c: char, by_line: bool) -> bool {
    if by_line {
        c == '\n'
    } else {
        is_space(c)
    }
}

/// The pieces of a text between its separators, empty ones included. A text
/// with `n` separators has `n + 1` pieces.
pub open spec fn split(text: Seq<char>, by_line: bool) -> Seq<Seq<char>>
    decreases text.len(),
{
    if text.len() == 0 {
        seq![Seq::empty()]
    } else {
        let before = split(text.drop_last(), by_line);
        if is_separator(text.last(), by_line) {
            before.push(Seq::empty())
        } else {
            before.update(before.len() - 1, before.last().push(text.last()))
        }
    }
}

/// The pieces that are not empty, in order.
pub open spec fn nonempty(pieces: Seq<Seq<char>>) -> Seq<Seq<char>>
    decreases pieces.len(),
{
    if pieces.len() == 0 {
        pieces
    } else if pieces.last().len() == 0 {
        nonempty(pieces.drop_last())
    } else {
        nonempty(pieces.drop_last()).push(pieces.last())
    }
}

/// The pieces that are not empty are those that a filter for them keeps.
pub proof fn lemma_nonempty_is_filter(pieces: Seq<Seq<char>>)
    ensures
        nonempty(pieces) == pieces.filter(|p: Seq<char>| p.len() > 0),
    decreases pieces.len(),
{
    reveal(Seq::filter);
    if pieces.len() > 0 {
        lemma_nonempty_is_filter(pieces.drop_last());
    }
}

/// The number of separators of a text.
pub open spec fn separators(text: Seq<char>, by_line: bool) -> int
    decreases text.len(),
{
    if text.len() == 0 {
        0
    } else {
        separators(text.drop_last(), by_line) + if is_separator(text.last(), by_line) {
            1int
        } else {
            0
        }
    }
}

/// A text is split at each of its separators: it has one piece more than
/// separators, and no piece holds a separator.
pub proof fn lemma_split_pieces(text: Seq<char>, by_line: bool)
    ensures
        0 <= separators(text, by_line) <= text.len(),
        split(text, by_line).len() == separators(text, by_line) + 1,
        forall|i: int, j: int|
            0 <= i < split(text, by_line).len() && 0 <= j < split(text, by_line)[i].len()
                ==> !is_separator(#[trigger] split(text, by_line)[i][j], by_line),
    decreases text.len(),
{
    if text.len() > 0 {
        lemma_split_pieces(text.drop_last(), by_line);
        let before = split(text.drop_last(), by_line);
        let after = split(text, by_line);
        assert forall|i: int, j: int|
            0 <= i < after.len() && 0 <= j < after[i].len() implies !is_separator(
            #[trigger] after[i][j],
            by_line,
        ) by {
            if i < before.len() - 1 {
                assert(after[i] == before[i]);
                assert(!is_separator(before[i][j], by_line));
            } else if is_separator(text.last(), by_line) {
                if i == before.len() - 1 {
                    assert(after[i] == before[i]);
                    assert(!is_separator(before[i][j], by_line));
                }
            } else if j < before.last().len() {
                assert(after[i][j] == before[before.len() - 1][j]);
                assert(!is_separator(before[before.len() - 1][j], by_line));
            }
        }
    }
}

/// The words of a line.
pub open spec fn words_of(line: Seq<char>) -> Seq<Seq<char>> {
    nonempty(split(line, false))
}

/// The lines of a source.
pub open spec fn lines_of(source: Seq<char>) -> Seq<Seq<char>> {
    split(source, true)
}

/// The texts that a sequence of vectors of characters holds.
pub open spec fn texts(pieces: Seq<Vec<char>>) -> Seq<Seq<char>> {
    pieces.map_values(|p: Vec<char>| p@)
}

/// The value of a digit in a base of ten or sixteen.
pub open spec fn digit_value(c: char, base: int) -> Option<int> {
    if '0' <= c <= '9' {
        Some(c as int - '0' as int)
    } else if base == 16 && 'a' <= c <= 'f' {
        Some(c as int - 'a' as int + 10)
    } else if base == 16 && 'A' <= c <= 'F' {
        Some(c as int - 'A' as int + 10)
    } else {
        None
    }
}

/// The number that digits write in a base, if there is at least one and all
/// of them are digits of the base.
pub open spec fn value_of(digits: Seq<char>, base: int) -> Option<int>
    decreases digits.len(),
{
    if digits.len() == 0 {
        None
    } else {
        match digit_value(digits.last(), base) {
            None => None,
            Some(d) => if digits.len() == 1 {
                Some(d)
            } else {
                match value_of(digits.drop_last(), base) {
                    None => None,
                    Some(v) => Some(v * base + d),
                }
            },
        }
    }
}

/// Whether a word starts with `0x`.
pub open spec fn is_hexadecimal(word: Seq<char>) -> bool {
    word.len() >= 2 && word[0] == '0' && word[1] == 'x'
}

/// The word that a text writes: hexadecimal after `0x`, decimal otherwise;
/// none if the text is no number or the number does not fit in a word.
pub open spec fn number_spec(word: Seq<char>) -> Option<u16> {
    let value = if is_hexadecimal(word) {
        value_of(word.subrange(2, word.len() as int), 16)
    } else {
        value_of(word, 10)
    };
    match value {
        Some(n) if n <= 0xFFFF => Some(n as u16),
        _ => None,
    }
}

/// Gives the characters of a text.
pub fn chars_of(source: &str) -> (chars: Vec<char>)
    ensures
        chars@ == source@,
{
    broadcast use vstd::string::axiom_spec_iter;

    let mut chars: Vec<char> = Vec::new();
    for c in it: source.chars()
        invariant
            it.seq() == source@,
            chars@ == source@.subrange(0, it.index()),
    {
        chars.push(c);
        assert(chars@ =~= source@.subrange(0, it.index() + 1));
    }
    assert(chars@ =~= source@);
    chars
}

/// Tells whether a character sets words apart.
pub fn separates(c: char, by_line: bool) -> (b: bool)
    ensures
        b == is_separator(c, by_line),
{
    if by_line {
        c == '\n'
    } else {
        c == ' ' || c == '\t' || c == '\r'
    }
}

/// Splits a text at its separators.
pub fn split_text(text: &Vec<char>, by_line: bool) -> (pieces: Vec<Vec<char>>)
    ensures
        texts(pieces@) == split(text@, by_line),
{
    let mut done: Vec<Vec<char>> = Vec::new();
    let mut current: Vec<char> = Vec::new();
    let mut i: usize = 0;
    assert(texts(done@).push(current@) =~= split(text@.subrange(0, 0), by_line));
    while i < text.len()
        invariant
            i <= text.len(),
            texts(done@).push(current@) == split(text@.subrange(0, i as int), by_line),
        decreases text.len() - i,
    {
        let c = text[i];
        let ghost before = split(text@.subrange(0, i as int), by_line);
        proof {
            let next = text@.subrange(0, i + 1);
            assert(next.drop_last() =~= text@.subrange(0, i as int));
            assert(next.last() == c);
        }
        if separates(c, by_line) {
            done.push(current);
            current = Vec::new();
            assert(texts(done@).push(current@) =~= before.push(Seq::empty()));
        } else {
            let ghost open = current@;
            current.push(c);
            assert(before.last() == open);
            assert(texts(done@).push(current@) =~= before.update(
                before.len() - 1,
                open.push(c),
            ));
        }
        i += 1;
    }
    assert(text@.subrange(0, i as int) =~= text@);
    let ghost last = current@;
    done.push(current);
    assert(texts(done@) =~= texts(done@.drop_last()).push(last));
    done
}

/// Copies a vector of characters.
fn copy_chars(text: &Vec<char>) -> (r: Vec<char>)
    ensures
        r@ == text@,
{
    let mut r: Vec<char> = Vec::new();
    let mut i: usize = 0;
    while i < text.len()
        invariant
            i <= text.len(),
            r@ == text@.subrange(0, i as int),
        decreases text.len() - i,
    {
        r.push(text[i]);
        assert(r@ =~= text@.subrange(0, i + 1));
        i += 1;
    }
    assert(r@ =~= text@);
    r
}

/// Gives the words of a line.
pub fn words(line: &Vec<char>) -> (r: Vec<Vec<char>>)
    ensures
        texts(r@) == words_of(line@),
{
    let pieces = split_text(line, false);
    let mut r: Vec<Vec<char>> = Vec::new();
    let mut i: usize = 0;
    assert(texts(r@) =~= nonempty(texts(pieces@).subrange(0, 0)));
    while i < pieces.len()
        invariant
            i <= pieces.len(),
            texts(r@) == nonempty(texts(pieces@).subrange(0, i as int)),
        decreases pieces.len() - i,
    {
        proof {
            let next = texts(pieces@).subrange(0, i + 1);
            assert(next.drop_last() =~= texts(pieces@).subrange(0, i as int));
            assert(next.last() == pieces@[i as int]@);
        }
        if pieces[i].len() > 0 {
            let ghost before = texts(r@);
            r.push(copy_chars(&pieces[i]));
            assert(texts(r@) =~= before.push(pieces@[i as int]@));
        }
        i += 1;
    }
    assert(texts(pieces@).subrange(0, i as int) =~= texts(pieces@));
    r
}

/// Tells whether a word is the given text.
pub fn same_text(word: &Vec<char>, name: &str) -> (b: bool)
    ensures
        b == (word@ == name@),
{
    let n = name.unicode_len();
    if word.len() != n {
        return false;
    }
    let mut i: usize = 0;
    while i < n
        invariant
            i <= n,
            n == name@.len(),
            n == word@.len(),
            forall|j: int| 0 <= j < i ==> word@[j] == name@[j],
        decreases n - i,
    {
        if word[i] != name.get_char(i) {
            return false;
        }
        i += 1;
    }
    assert(word@ =~= name@);
    true
}

/// Gives the value of a digit in a base of ten or sixteen.
pub fn digit(c: char, base: u32) -> (r: Option<u32>)
    requires
        base == 10 || base == 16,
    ensures
        match r {
            Some(d) => digit_value(c, base as int) == Some(d as int) && d < base,
            None => digit_value(c, base as int) is None,
        },
{
    if '0' <= c && c <= '9' {
        Some(c as u32 - '0' as u32)
    } else if base == 16 && 'a' <= c && c <= 'f' {
        Some(c as u32 - 'a' as u32 + 10)
    } else if base == 16 && 'A' <= c && c <= 'F' {
        Some(c as u32 - 'A' as u32 + 10)
    } else {
        None
    }
}

/// A text with a character that is no digit writes no number.
pub proof fn lemma_value_needs_digits(digits: Seq<char>, base: int, at: int)
    requires
        0 <= at < digits.len(),
        digit_value(digits[at], base) is None,
    ensures
        value_of(digits, base) is None,
    decreases digits.len(),
{
    if at < digits.len() - 1 {
        lemma_value_needs_digits(digits.drop_last(), base, at);
    }
}

/// The number that a text writes is no smaller than the number that any
/// start of the text writes.
pub proof fn lemma_value_grows(digits: Seq<char>, base: int, len: int)
    requires
        base == 10 || base == 16,
        1 <= len <= digits.len(),
        value_of(digits, base) is Some,
    ensures
        value_of(digits.subrange(0, len), base) is Some,
        0 <= value_of(digits.subrange(0, len), base)->0 <= value_of(digits, base)->0,
    decreases digits.len(),
{
    if len == digits.len() {
        assert(digits.subrange(0, len) =~= digits);
        lemma_value_is_natural(digits, base);
    } else {
        lemma_value_grows(digits.drop_last(), base, len);
        assert(digits.drop_last().subrange(0, len) =~= digits.subrange(0, len));
        let v = value_of(digits.drop_last(), base)->0;
        assert(v * base >= v) by (nonlinear_arith)
            requires
                v >= 0,
                base >= 1,
        ;
    }
}

/// The number that a text writes is not negative.
pub proof fn lemma_value_is_natural(digits: Seq<char>, base: int)
    requires
        base == 10 || base == 16,
    ensures
        value_of(digits, base) matches Some(v) ==> v >= 0,
    decreases digits.len(),
{
    if digits.len() > 1 {
        lemma_value_is_natural(digits.drop_last(), base);
        if let Some(v) = value_of(digits.drop_last(), base) {
            assert(v * base >= 0) by (nonlinear_arith)
                requires
                    v >= 0,
                    base >= 1,
            ;
        }
    }
}

/// Reads the digits of `word` from `from` on as a number in a base.
fn digits_value(word: &Vec<char>, from: usize, base: u32) -> (r: Option<u16>)
    requires
        base == 10 || base == 16,
        from <= word.len(),
    ensures
        r == match value_of(word@.subrange(from as int, word@.len() as int), base as int) {
            Some(n) if n <= 0xFFFF => Some(n as u16),
            _ => None,
        },
{
    let ghost digits = word@.subrange(from as int, word@.len() as int);
    if from == word.len() {
        return None;
    }
    let mut acc: u32 = 0;
    let mut i: usize = from;
    while i < word.len()
        invariant
            base == 10 || base == 16,
            from <= i <= word.len(),
            from < word.len(),
            digits == word@.subrange(from as int, word@.len() as int),
            acc <= 0xFFFF,
            i > from ==> value_of(digits.subrange(0, i - from), base as int) == Some(acc as int),
            i == from ==> acc == 0,
        decreases word.len() - i,
    {
        let c = word[i];
        assert(digits[i - from] == c);
        let ghost next = digits.subrange(0, i - from + 1);
        proof {
            assert(next.drop_last() =~= digits.subrange(0, i - from));
            assert(next.last() == c);
        }
        match digit(c, base) {
            None => {
                proof {
                    lemma_value_needs_digits(digits, base as int, i - from);
                }
                return None;
            },
            Some(d) => {
                let grown = acc * base + d;
                assert(value_of(next, base as int) == Some(grown as int)) by {
                    if i == from {
                        assert(next.len() == 1);
                    }
                }
                if grown > 0xFFFF {
                    proof {
                        if value_of(digits, base as int) is Some {
                            lemma_value_grows(digits, base as int, i - from + 1);
                        }
                    }
                    return None;
                }
                acc = grown;
            },
        }
        i += 1;
    }
    assert(digits.subrange(0, i - from) =~= digits);
    Some(acc as u16)
}

/// Reads a word as a number: hexadecimal after `0x`, decimal otherwise.
pub fn number(word: &Vec<char>) -> (r: Option<u16>)
    ensures
        r == number_spec(word@),
{
    if word.len() >= 2 && word[0] == '0' && word[1] == 'x' {
        digits_value(word, 2, 16)
    } else {
        assert(word@.subrange(0, word@.len() as int) =~= word@);
        digits_value(word, 0, 10)
    }
}

/// The opcode of the instruction that a word names.
pub open spec fn mnemonic_spec(word: Seq<char>) -> Option<u16> {
    if word == "noop"@ {
        Some(0)
    } else if word == "push"@ {
        Some(1)
    } else if word == "pop"@ {
        Some(2)
    } else if word == "add"@ {
        Some(3)
    } else if word == "sub"@ {
        Some(4)
    } else if word == "load"@ {
        Some(5)
    } else if word == "store"@ {
        Some(6)
    } else if word == "get"@ {
        Some(7)
    } else if word == "set"@ {
        Some(8)
    } else if word == "jump"@ {
        Some(9)
    } else if word == "jumpz"@ {
        Some(10)
    } else if word == "call"@ {
        Some(11)
    } else if word == "return"@ {
        Some(12)
    } else if word == "send"@ {
        Some(13)
    } else if word == "receive"@ {
        Some(14)
    } else if word == "print"@ {
        Some(15)
    } else if word == "sleep"@ {
        Some(16)
    } else if word == "halt"@ {
        Some(17)
    } else {
        None
    }
}

/// Finds the opcode of the instruction that a word names.
pub fn mnemonic(word: &Vec<char>) -> (r: Option<u16>)
    ensures
        r == mnemonic_spec(word@),
        r matches Some(opcode) ==> arity_spec(opcode) is Some,
{
    if same_text(word, "noop") {
        Some(0)
    } else if same_text(word, "push") {
        Some(1)
    } else if same_text(word, "pop") {
        Some(2)
    } else if same_text(word, "add") {
        Some(3)
    } else if same_text(word, "sub") {
        Some(4)
    } else if same_text(word, "load") {
        Some(5)
    } else if same_text(word, "store") {
        Some(6)
    } else if same_text(word, "get") {
        Some(7)
    } else if same_text(word, "set") {
        Some(8)
    } else if same_text(word, "jump") {
        Some(9)
    } else if same_text(word, "jumpz") {
        Some(10)
    } else if same_text(word, "call") {
        Some(11)
    } else if same_text(word, "return") {
        Some(12)
    } else if same_text(word, "send") {
        Some(13)
    } else if same_text(word, "receive") {
        Some(14)
    } else if same_text(word, "print") {
        Some(15)
    } else if same_text(word, "sleep") {
        Some(16)
    } else if same_text(word, "halt") {
        Some(17)
    } else {
        None
    }
}

/// What a line says.
#[derive(Clone, Copy, Debug, PartialEq, Eq, Structural)]
pub enum Item {
    /// Nothing: the line has no words.
    Blank,
    /// An instruction of the program.
    Instruction(Op),
    /// A word of the data of the program.
    Datum(u16),
}

/// What the operands of a line are, for a line that needs `n` of them after
/// its first word: the numbers that they write, and zero for each that is
/// not needed.
pub open spec fn operands_spec(words: Seq<Seq<char>>, n: int, line: u16) -> Result<
    (u16, u16),
    ParseError,
> {
    if words.len() < 1 + n {
        Err(ParseError::MissingOperand { line })
    } else if words.len() > 1 + n {
        Err(ParseError::TrailingInput { line })
    } else {
        let a = if n >= 1 {
            number_spec(words[1])
        } else {
            Some(0u16)
        };
        let b = if n >= 2 {
            number_spec(words[2])
        } else {
            Some(0u16)
        };
        match (a, b) {
            (Some(a), Some(b)) => Ok((a, b)),
            _ => Err(ParseError::InvalidOperand { line }),
        }
    }
}

/// What the line with the given number says, or why it says nothing that
/// the assembler understands.
pub open spec fn parse_line_spec(text: Seq<char>, line: u16) -> Result<Item, ParseError> {
    let words = words_of(text);
    if words.len() == 0 {
        Ok(Item::Blank)
    } else if words[0] == ".word"@ {
        match operands_spec(words, 1, line) {
            Err(e) => Err(e),
            Ok((a, _)) => Ok(Item::Datum(a)),
        }
    } else {
        match mnemonic_spec(words[0]) {
            None => Err(ParseError::UnknownInstruction { line }),
            Some(opcode) => match operands_spec(words, arity_spec(opcode)->0, line) {
                Err(e) => Err(e),
                Ok((a, b)) => Ok(Item::Instruction(build_spec(opcode, a, b))),
            },
        }
    }
}

/// A program without instructions and data.
pub open spec fn empty_program() -> ProgramView {
    ProgramView { ops: Seq::empty(), data: Seq::empty() }
}

/// The program that lines say, or the error of the first line that has
/// one. Lines are numbered from one, and a source has no more lines than a
/// word counts.
pub open spec fn assemble_lines(lines: Seq<Seq<char>>) -> Result<ProgramView, ParseError>
    decreases lines.len(),
{
    if lines.len() == 0 {
        Ok(empty_program())
    } else {
        match assemble_lines(lines.drop_last()) {
            Err(e) => Err(e),
            Ok(program) => if lines.len() > 0xFFFF {
                Err(ParseError::TooManyLines)
            } else {
                match parse_line_spec(lines.last(), lines.len() as u16) {
                    Err(e) => Err(e),
                    Ok(Item::Blank) => Ok(program),
                    Ok(Item::Instruction(op)) => Ok(
                        ProgramView { ops: program.ops.push(op), ..program },
                    ),
                    Ok(Item::Datum(word)) => Ok(
                        ProgramView { data: program.data.push(word), ..program },
                    ),
                }
            },
        }
    }
}

/// The program that a source says, or the error of its first line that has
/// one.
pub open spec fn assemble_spec(source: Seq<char>) -> Result<ProgramView, ParseError> {
    assemble_lines(lines_of(source))
}

/// An error in the first lines of a source is the error of the source.
pub proof fn lemma_first_error_wins(lines: Seq<Seq<char>>, len: int)
    requires
        0 <= len <= lines.len(),
        assemble_lines(lines.subrange(0, len)) is Err,
    ensures
        assemble_lines(lines) == assemble_lines(lines.subrange(0, len)),
    decreases lines.len() - len,
{
    if len == lines.len() {
        assert(lines.subrange(0, len) =~= lines);
    } else {
        let next = lines.subrange(0, len + 1);
        assert(next.drop_last() =~= lines.subrange(0, len));
        lemma_first_error_wins(lines, len + 1);
    }
}

/// Reads the operands of a line that needs `n` of them after its first
/// word.
fn operands(words: &Vec<Vec<char>>, n: u16, line: u16) -> (r: Result<(u16, u16), ParseError>)
    requires
        n <= 2,
    ensures
        r == operands_spec(texts(words@), n as int, line),
{
    if words.len() < 1 + n as usize {
        return Err(ParseError::MissingOperand { line });
    }
    if words.len() > 1 + n as usize {
        return Err(ParseError::TrailingInput { line });
    }
    let a = if n >= 1 {
        number(&words[1])
    } else {
        Some(0)
    };
    let b = if n >= 2 {
        number(&words[2])
    } else {
        Some(0)
    };
    match (a, b) {
        (Some(a), Some(b)) => Ok((a, b)),
        _ => Err(ParseError::InvalidOperand { line }),
    }
}

/// Reads the line with the given number.
pub fn parse_line(text: &Vec<char>, line: u16) -> (r: Result<Item, ParseError>)
    ensures
        r == parse_line_spec(text@, line),
{
    let words = words(text);
    if words.len() == 0 {
        return Ok(Item::Blank);
    }
    assert(texts(words@)[0] == words@[0]@);
    if same_text(&words[0], ".word") {
        return match operands(&words, 1, line) {
            Err(e) => Err(e),
            Ok((a, _)) => Ok(Item::Datum(a)),
        };
    }
    match mnemonic(&words[0]) {
        None => Err(ParseError::UnknownInstruction { line }),
        Some(opcode) => {
            let n = match arity(opcode) {
                Some(n) => n,
                None => 0,
            };
            match operands(&words, n, line) {
                Err(e) => Err(e),
                Ok((a, b)) => Ok(Item::Instruction(build(opcode, a, b))),
            }
        },
    }
}

/// Assembles a source: reads its lines in order and collects the
/// instructions and the data that they say. The first line that the
/// assembler does not understand ends it with the error of that line. The
/// program names no symbols.
pub fn assemble(source: &str) -> (r: Result<Program, ParseError>)
    ensures
        parsed_view(r) == assemble_spec(source@),
        r matches Ok(program) ==> program.symbols.table@ == Seq::<Symbol>::empty(),
{
    let chars = chars_of(source);
    let lines = split_text(&chars, true);
    let mut ops: Vec<Op> = Vec::new();
    let mut data: Vec<u16> = Vec::new();
    let mut i: usize = 0;
    assert(texts(lines@).subrange(0, 0) =~= Seq::<Seq<char>>::empty());
    assert(ops@ =~= Seq::<Op>::empty());
    assert(data@ =~= Seq::<u16>::empty());
    while i < lines.len()
        invariant
            i <= lines.len(),
            texts(lines@) == lines_of(source@),
            assemble_lines(texts(lines@).subrange(0, i as int)) == Ok::<ProgramView, ParseError>(
                ProgramView { ops: ops@, data: data@ },
            ),
        decreases lines.len() - i,
    {
        let ghost next = texts(lines@).subrange(0, i + 1);
        proof {
            assert(next.drop_last() =~= texts(lines@).subrange(0, i as int));
            assert(next.last() == lines@[i as int]@);
        }
        if i >= 0xFFFF {
            proof {
                lemma_first_error_wins(texts(lines@), i + 1);
            }
            return Err(ParseError::TooManyLines);
        }
        match parse_line(&lines[i], (i + 1) as u16) {
            Err(e) => {
                proof {
                    lemma_first_error_wins(texts(lines@), i + 1);
                }
                return Err(e);
            },
            Ok(Item::Blank) => {},
            Ok(Item::Instruction(op)) => {
                ops.push(op);
            },
            Ok(Item::Datum(word)) => {
                data.push(word);
            },
        }
        i += 1;
    }
    assert(texts(lines@).subrange(0, i as int) =~= texts(lines@));
    let mut symbols = Symbols::new();
    symbols.data = data;
    Ok(Program { ops, symbols })
}

} // verus!
