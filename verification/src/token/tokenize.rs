use vstd::prelude::*;
use crate::general::text::{
    alphabetic, alphanumeric, chars_of, digit_value, is_alphabetic, is_alphanumeric, to_digit,
};
use crate::general::TryReader;
use crate::sourcecode::Code;
use crate::sourcecode::Position;
use crate::sourcecode::Span;
use crate::token::token::{
    symbol_table, token_models, Dictionary, ReservedWord, Token, TokenModel,
};

verus! {

/// The number of decimal digits that stand in a row from `pos` on.
pub open spec fn digit_run(chars: Seq<char>, pos: int) -> nat
    decreases chars.len() - pos,
{
    if 0 <= pos < chars.len() && digit_value(chars[pos]) is Some {
        1 + digit_run(chars, pos + 1)
    } else {
        0
    }
}

/// The number of alphanumeric characters that stand in a row from `pos` on.
pub open spec fn word_run(chars: Seq<char>, pos: int) -> nat
    decreases chars.len() - pos,
{
    if 0 <= pos < chars.len() && alphanumeric(chars[pos]) {
        1 + word_run(chars, pos + 1)
    } else {
        0
    }
}

/// The number that the digits `chars[from..to]` spell in base ten.
pub open spec fn decimal_value(chars: Seq<char>, from: int, to: int) -> int
    decreases to - from,
{
    if to <= from {
        0
    } else {
        decimal_value(chars, from, to - 1) * 10 + digit_value(chars[to - 1]).unwrap()
    }
}

/// The integer literal at `pos`: the value of the longest run of digits and
/// the length of the run. There is none where no digit stands at `pos`, and
/// none where the value does not fit in 64 bits.
pub open spec fn number_at(chars: Seq<char>, pos: int) -> Option<(i64, nat)> {
    let run = digit_run(chars, pos);
    let value = decimal_value(chars, pos, pos + run);
    if run > 0 && value <= i64::MAX {
        Some((value as i64, run))
    } else {
        None
    }
}

/// The length of the run of digits at `pos`, where a digit stands at `pos`.
pub open spec fn number_length(chars: Seq<char>, pos: int) -> nat {
    1 + digit_run(chars, pos + 1)
}

/// The length of the word at `pos`, where a letter stands at `pos`.
pub open spec fn word_length(chars: Seq<char>, pos: int) -> nat {
    1 + word_run(chars, pos + 1)
}

/// The length of the word at `pos`: a letter followed by the longest run of
/// alphanumeric characters.
pub open spec fn word_at(chars: Seq<char>, pos: int) -> Option<nat> {
    if 0 <= pos < chars.len() && alphabetic(chars[pos]) {
        Some(word_length(chars, pos))
    } else {
        None
    }
}

/// The token for a word: a reserved word where the language has one of that
/// spelling, else an identifier.
pub open spec fn word_token(word: Seq<char>) -> TokenModel {
    if word == "let"@ {
        TokenModel::ReservedWord(ReservedWord::Let)
    } else if word == "return"@ {
        TokenModel::ReservedWord(ReservedWord::Return)
    } else if word == "if"@ {
        TokenModel::ReservedWord(ReservedWord::If)
    } else if word == "then"@ {
        TokenModel::ReservedWord(ReservedWord::Then)
    } else if word == "else"@ {
        TokenModel::ReservedWord(ReservedWord::Else)
    } else if word == "func"@ {
        TokenModel::ReservedWord(ReservedWord::Func)
    } else {
        TokenModel::Identifier(word)
    }
}

/// The symbol at `pos`, with its length: the longest spelling of the symbol
/// table that the text shows there.
pub open spec fn symbol_at(chars: Seq<char>, pos: int) -> Option<(Token, nat)> {
    if 0 <= pos && pos + 2 <= chars.len() && symbol_table(chars.subrange(pos, pos + 2)) is Some {
        Some((symbol_table(chars.subrange(pos, pos + 2)).unwrap(), 2))
    } else if 0 <= pos && pos + 1 <= chars.len() && symbol_table(chars.subrange(pos, pos + 1))
        is Some {
        Some((symbol_table(chars.subrange(pos, pos + 1)).unwrap(), 1))
    } else {
        None
    }
}

/// Puts a token in front of the tokens that follow it, if there are any.
pub open spec fn prepend(
    token: Code<TokenModel>,
    rest: Result<Seq<Code<TokenModel>>, Position>,
) -> Result<Seq<Code<TokenModel>>, Position> {
    match rest {
        Ok(tokens) => Ok(seq![token] + tokens),
        Err(position) => Err(position),
    }
}

/// What stands at `pos`, with its length: a token, or `None` for a space
/// that only separates tokens. There is nothing where the character at
/// `pos` starts no token.
///
/// A line feed gives a `LineBreak`. Then, in this order: a digit starts an
/// integer literal, a letter starts a word, and anything else has to start a
/// symbol.
pub open spec fn lexeme_at(chars: Seq<char>, pos: int) -> Option<(Option<TokenModel>, nat)> {
    if chars[pos] == ' ' {
        Some((None, 1))
    } else if chars[pos] == '\n' {
        Some((Some(TokenModel::LineBreak), 1))
    } else if digit_value(chars[pos]) is Some {
        match number_at(chars, pos) {
            Some((value, length)) => Some((Some(TokenModel::Number(value)), length)),
            None => None,
        }
    } else if alphabetic(chars[pos]) {
        let length = word_length(chars, pos);
        Some((Some(word_token(chars.subrange(pos, pos + length))), length))
    } else {
        match symbol_at(chars, pos) {
            Some((token, length)) => Some((Some(token@), length)),
            None => None,
        }
    }
}

/// The tokens of `chars[pos..]`, where `pos` stands on the given line at the
/// given column; or the position of the first character that starts no token.
pub open spec fn lex(chars: Seq<char>, pos: int, line: usize, column: usize) -> Result<
    Seq<Code<TokenModel>>,
    Position,
>
    decreases (if pos < chars.len() { chars.len() - pos } else { 0 }),
{
    if pos < 0 || pos >= chars.len() {
        Ok(Seq::empty())
    } else {
        match lexeme_at(chars, pos) {
            None => Err(Position { line, pos: column }),
            Some((_, length)) if length == 0 => Err(Position { line, pos: column }),
            Some((None, length)) => lex(chars, pos + length, line, (column + length) as usize),
            Some((Some(TokenModel::LineBreak), length)) => prepend(
                Code {
                    value: TokenModel::LineBreak,
                    span: Span::on_line(line, column, length as usize),
                },
                lex(chars, pos + length, (line + 1) as usize, 0),
            ),
            Some((Some(token), length)) => prepend(
                Code { value: token, span: Span::on_line(line, column, length as usize) },
                lex(chars, pos + length, line, (column + length) as usize),
            ),
        }
    }
}

/// What `tokenize` gives for a source text.
pub open spec fn tokens_of(source: Seq<char>) -> Result<Seq<Code<TokenModel>>, Position> {
    lex(source, 0, 0, 0)
}

/// The tokens read so far, followed by what the rest of the text gives.
pub open spec fn followed_by(
    tokens: Seq<Code<TokenModel>>,
    rest: Result<Seq<Code<TokenModel>>, Position>,
) -> Result<Seq<Code<TokenModel>>, Position> {
    match rest {
        Ok(more) => Ok(tokens + more),
        Err(position) => Err(position),
    }
}

proof fn lemma_followed_by_prepend(
    tokens: Seq<Code<TokenModel>>,
    token: Code<TokenModel>,
    rest: Result<Seq<Code<TokenModel>>, Position>,
)
    ensures
        followed_by(tokens, prepend(token, rest)) == followed_by(tokens.push(token), rest),
{
    match rest {
        Ok(more) => {
            assert(tokens + (seq![token] + more) =~= tokens.push(token) + more);
        },
        Err(_) => {},
    }
}

proof fn lemma_models_push(tokens: Seq<Code<Token>>, token: Code<Token>)
    ensures
        token_models(tokens.push(token)) == token_models(tokens).push(token@),
{
    assert(token_models(tokens.push(token)) =~= token_models(tokens).push(token@));
}

/// Splits a text into tokens, each with the span of text it came from. Fails
/// with the position of the first character that starts no token.
pub fn tokenize(s: &String) -> (r: Result<Vec<Code<Token>>, Position>)
    ensures
        match r {
            Ok(tokens) => tokens_of(s@) == Ok::<Seq<Code<TokenModel>>, Position>(
                token_models(tokens@),
            ),
            Err(position) => tokens_of(s@) == Err::<Seq<Code<TokenModel>>, Position>(position),
        },
{
    let dictionary = Dictionary::default();
    let cs = chars_of(s.as_str());
    let mut reader = TryReader::new(&cs);
    let mut tokens: Vec<Code<Token>> = Vec::new();
    let mut line: usize = 0;
    let mut pos: usize = 0;
    assert(token_models(tokens@) =~= Seq::empty());
    assert(followed_by(Seq::empty(), lex(cs@, 0, 0, 0)) == lex(cs@, 0, 0, 0)) by {
        match lex(cs@, 0, 0, 0) {
            Ok(more) => {
                assert(Seq::<Code<TokenModel>>::empty() + more =~= more);
            },
            Err(_) => {},
        }
    }
    while reader.has_next()
        invariant
            reader.items() == cs@,
            cs@ == s@,
            0 <= reader.position() <= cs@.len(),
            line <= reader.position(),
            pos <= reader.position(),
            forall|key: Seq<char>| dictionary.get(key) == symbol_table(key),
            tokens_of(s@) == followed_by(
                token_models(tokens@),
                lex(cs@, reader.position(), line, pos),
            ),
        decreases cs@.len() - reader.position(),
    {
        let ghost at = reader.position();
        let ghost before = tokens@;
        let start = reader.offset();
        match lexeme(&mut reader, &dictionary) {
            None => {
                return Err(Position { line, pos });
            },
            Some(None) => {
                pos += reader.offset() - start;
            },
            Some(Some(value)) => {
                let length = reader.offset() - start;
                let breaks = value.same_as(&Token::LineBreak);
                let token = Code { value, span: Span::new(line, pos, length) };
                proof {
                    lemma_models_push(before, token);
                    lemma_followed_by_prepend(
                        token_models(before),
                        token@,
                        if breaks {
                            lex(cs@, at + length, (line + 1) as usize, 0)
                        } else {
                            lex(cs@, at + length, line, (pos + length) as usize)
                        },
                    );
                }
                tokens.push(token);
                if breaks {
                    pos = 0;
                    line += 1;
                } else {
                    pos += length;
                }
            },
        }
    }
    proof {
        assert(token_models(tokens@) + Seq::<Code<TokenModel>>::empty() =~= token_models(tokens@));
    }
    Ok(tokens)
}

/// Reads what stands at the cursor: a token, or a space, for which it gives
/// `Some(None)`. Where the next character starts no token, gives `None` and
/// leaves the cursor where it was.
fn lexeme(reader: &mut TryReader<char>, dictionary: &Dictionary) -> (r: Option<Option<Token>>)
    requires
        old(reader).position() < old(reader).items().len(),
        forall|key: Seq<char>| dictionary.get(key) == symbol_table(key),
    ensures
        final(reader).items() == old(reader).items(),
        0 <= old(reader).position() <= final(reader).position() <= old(reader).items().len(),
        match r {
            Some(found) => lexeme_at(old(reader).items(), old(reader).position()) == Some(
                (
                    match found {
                        Some(token) => Some(token@),
                        None => None,
                    },
                    (final(reader).position() - old(reader).position()) as nat,
                ),
            ) && final(reader).position() > old(reader).position(),
            None => lexeme_at(old(reader).items(), old(reader).position()) is None
                && final(reader).position() == old(reader).position(),
        },
{
    let ghost cs = reader.items();
    let ghost at = reader.position();
    let c = *reader.peek().unwrap();
    if c == ' ' {
        let _ = reader.next();
        Some(None)
    } else if c == '\n' {
        let _ = reader.next();
        Some(Some(Token::LineBreak))
    } else if to_digit(c).is_some() {
        match number(reader) {
            Ok(n) => Some(Some(Token::Number(n))),
            Err(_) => None,
        }
    } else if is_alphabetic(c) {
        match word(reader) {
            Ok(w) => Some(Some(classify(w))),
            Err(_) => {
                assert(false);
                None
            },
        }
    } else {
        match operator(reader, dictionary) {
            Ok(value) => {
                proof {
                    let length = reader.position() - at;
                    lemma_symbol_lengths(cs.subrange(at, at + length));
                    if length == 1 && at + 2 <= cs.len() {
                        assert(dictionary.get(cs.subrange(at, at + 2)) is None);
                    }
                }
                Some(Some(value))
            },
            Err(_) => {
                proof {
                    if at + 2 <= cs.len() {
                        assert(dictionary.get(cs.subrange(at, at + 2)) is None);
                    }
                    assert(dictionary.get(cs.subrange(at, at + 1)) is None);
                }
                None
            },
        }
    }
}

/// The symbol read at a position is the longest spelling of the symbol
/// table that the text shows there: no longer stretch of the text from that
/// position is a symbol, and where no symbol is read, no stretch is one.
pub proof fn lemma_symbol_is_longest(chars: Seq<char>, pos: int, end: int)
    requires
        0 <= pos < end <= chars.len(),
    ensures
        match symbol_at(chars, pos) {
            Some((token, length)) => symbol_table(chars.subrange(pos, pos + length)) == Some(token)
                && (end > pos + length ==> symbol_table(chars.subrange(pos, end)) is None),
            None => symbol_table(chars.subrange(pos, end)) is None,
        },
{
    lemma_symbol_lengths(chars.subrange(pos, end));
}

/// Every spelling of the symbol table has one or two characters.
proof fn lemma_symbol_lengths(key: Seq<char>)
    ensures
        symbol_table(key) is Some ==> key.len() == 1 || key.len() == 2,
{
}

/// Turns a word into its token.
fn classify(word: String) -> (t: Token)
    ensures
        t@ == word_token(word@),
{
    if word == "let".to_owned() {
        Token::ReservedWord(ReservedWord::Let)
    } else if word == "return".to_owned() {
        Token::ReservedWord(ReservedWord::Return)
    } else if word == "if".to_owned() {
        Token::ReservedWord(ReservedWord::If)
    } else if word == "then".to_owned() {
        Token::ReservedWord(ReservedWord::Then)
    } else if word == "else".to_owned() {
        Token::ReservedWord(ReservedWord::Else)
    } else if word == "func".to_owned() {
        Token::ReservedWord(ReservedWord::Func)
    } else {
        Token::Identifier(word)
    }
}

/// Reads the longest spelling of `dict` that the text shows at the cursor
/// and gives its token. Where the text shows none, fails and leaves the
/// cursor where it was.
pub fn operator(reader: &mut TryReader<char>, dict: &Dictionary) -> (r: Result<
    Token,
    Option<Token>,
>)
    ensures
        final(reader).items() == old(reader).items(),
        0 <= old(reader).position() <= final(reader).position() <= old(reader).items().len(),
        match r {
            Ok(token) => dict.get(
                old(reader).items().subrange(old(reader).position(), final(reader).position()),
            ) == Some(token) && forall|end: int|
                final(reader).position() < end <= old(reader).items().len() ==> dict.get(
                    #[trigger] old(reader).items().subrange(old(reader).position(), end),
                ) is None,
            Err(e) => e is None && final(reader).position() == old(reader).position()
                && forall|end: int|
                old(reader).position() <= end <= old(reader).items().len() ==> dict.get(
                    #[trigger] old(reader).items().subrange(old(reader).position(), end),
                ) is None,
        },
{
    let start = reader.offset();
    let ghost items = reader.items();
    let mut node: &Dictionary = dict;
    let mut best: Option<Token> = match node.terminal() {
        Some(token) => Some(token.clone()),
        None => None,
    };
    let mut best_end = start;
    let mut open = true;
    assert(items.subrange(start as int, start as int) =~= Seq::empty());
    assert forall|key: Seq<char>|
        node.get(key) == dict.get(items.subrange(start as int, start as int) + key) by {
        assert(items.subrange(start as int, start as int) + key =~= key);
    }
    while open
        invariant
            reader.items() == items,
            start <= best_end <= reader.position() <= items.len(),
            forall|key: Seq<char>|
                node.get(key) == dict.get(
                    items.subrange(start as int, reader.position()) + key,
                ),
            best == dict.get(items.subrange(start as int, best_end as int)),
            best is None ==> best_end == start,
            forall|end: int|
                best_end < end <= reader.position() ==> dict.get(
                    #[trigger] items.subrange(start as int, end),
                ) is None,
            !open ==> forall|end: int|
                reader.position() < end <= items.len() ==> dict.get(
                    #[trigger] items.subrange(start as int, end),
                ) is None,
        decreases items.len() - reader.position() + (if open { 1int } else { 0int }),
    {
        let ghost cur = reader.position();
        let ghost prefix = items.subrange(start as int, cur);
        match reader.peek() {
            None => {
                open = false;
            },
            Some(c) => {
                match node.dig(*c) {
                    Ok(child) => {
                        let _ = reader.next();
                        let ghost grown = items.subrange(start as int, cur + 1);
                        assert(grown =~= prefix + seq![*c]);
                        assert forall|key: Seq<char>|
                            child.get(key) == dict.get(grown + key) by {
                            assert(grown + key =~= prefix + (seq![*c] + key));
                            assert(child.get(key) == node.get(seq![*c] + key));
                        }
                        assert(child.get(Seq::empty()) == dict.get(grown)) by {
                            assert(grown + Seq::<char>::empty() =~= grown);
                        }
                        node = child;
                        match child.terminal() {
                            Some(token) => {
                                best = Some(token.clone());
                                best_end = reader.offset();
                            },
                            None => {},
                        }
                    },
                    Err(_) => {
                        assert forall|end: int| cur < end <= items.len() implies dict.get(
                            #[trigger] items.subrange(start as int, end),
                        ) is None by {
                            let rest = items.subrange(cur + 1, end);
                            assert(items.subrange(start as int, end) =~= prefix + (seq![*c]
                                + rest));
                            assert(node.get(seq![*c] + rest) is None);
                        }
                        open = false;
                    },
                }
            },
        }
    }
    reader.rewind(best_end);
    match best {
        Some(token) => Ok(token),
        None => {
            assert(best_end == start);
            Err(None)
        },
    }
}

/// Reads the character `target`. Where another character or none comes
/// next, fails and leaves the cursor where it was.
pub fn character(reader: &mut TryReader<char>, target: char) -> (r: Result<(), Option<()>>)
    ensures
        final(reader).items() == old(reader).items(),
        0 <= old(reader).position() <= old(reader).items().len(),
        match r {
            Ok(_) => old(reader).position() < old(reader).items().len()
                && old(reader).items()[old(reader).position()] == target
                && final(reader).position() == old(reader).position() + 1,
            Err(e) => e is None && final(reader).position() == old(reader).position() && !(old(
                reader).position() < old(reader).items().len()
                && old(reader).items()[old(reader).position()] == target),
        },
{
    match reader.peek() {
        Some(c) => {
            if *c == target {
                let _ = reader.next();
                Ok(())
            } else {
                Err(None)
            }
        },
        None => Err(None),
    }
}

/// Reads a word: a letter and the alphanumeric characters that follow it.
/// Where no letter comes next, fails and leaves the cursor where it was.
pub fn word(reader: &mut TryReader<char>) -> (r: Result<String, Option<String>>)
    ensures
        final(reader).items() == old(reader).items(),
        0 <= old(reader).position() <= old(reader).items().len(),
        match r {
            Ok(text) => word_at(old(reader).items(), old(reader).position()) == Some(
                (final(reader).position() - old(reader).position()) as nat,
            ) && text@ == old(reader).items().subrange(
                old(reader).position(),
                final(reader).position(),
            ) && old(reader).position() < final(reader).position() <= old(reader).items().len(),
            Err(e) => e is None && final(reader).position() == old(reader).position() && word_at(
                old(reader).items(),
                old(reader).position(),
            ) is None,
        },
{
    let ghost items = reader.items();
    let ghost start = reader.position();
    let first = match reader.peek() {
        Some(c) => *c,
        None => {
            return Err(None);
        },
    };
    if !is_alphabetic(first) {
        return Err(None);
    }
    let _ = reader.next();
    let mut text = String::new();
    text.push(first);
    let mut open = true;
    assert(items.subrange(start, start + 1) =~= seq![first]);
    while open
        invariant
            reader.items() == items,
            0 <= start < reader.position() <= items.len(),
            text@ == items.subrange(start, reader.position()),
            word_run(items, start + 1) == reader.position() - (start + 1) + word_run(
                items,
                reader.position(),
            ),
            !open ==> word_run(items, reader.position()) == 0,
        decreases items.len() - reader.position() + (if open { 1int } else { 0int }),
    {
        let ghost cur = reader.position();
        match reader.peek() {
            Some(c) => {
                if is_alphanumeric(*c) {
                    let _ = reader.next();
                    text.push(*c);
                    assert(items.subrange(start, cur + 1) =~= items.subrange(start, cur).push(*c));
                } else {
                    open = false;
                }
            },
            None => {
                open = false;
            },
        }
    }
    Ok(text)
}

/// The value of a run of digits is not negative.
proof fn lemma_decimal_value_positive(chars: Seq<char>, from: int, to: int)
    requires
        forall|i: int| from <= i < to ==> digit_value(#[trigger] chars[i]) is Some,
    ensures
        0 <= decimal_value(chars, from, to),
    decreases to - from,
{
    if from < to {
        lemma_decimal_value_positive(chars, from, to - 1);
        assert(digit_value(chars[to - 1]) is Some);
    }
}

/// The value of a run of digits does not shrink when the run grows.
proof fn lemma_decimal_value_grows(chars: Seq<char>, from: int, mid: int, to: int)
    requires
        from <= mid <= to,
        forall|i: int| from <= i < to ==> digit_value(#[trigger] chars[i]) is Some,
    ensures
        0 <= decimal_value(chars, from, mid) <= decimal_value(chars, from, to),
    decreases to - mid,
{
    lemma_decimal_value_positive(chars, from, mid);
    if mid < to {
        lemma_decimal_value_grows(chars, from, mid, to - 1);
        assert(digit_value(chars[to - 1]) is Some);
    }
}

/// Every character of a run of digits is a digit.
proof fn lemma_digit_run_digits(chars: Seq<char>, pos: int)
    ensures
        pos + digit_run(chars, pos) <= chars.len() || digit_run(chars, pos) == 0,
        forall|i: int|
            pos <= i < pos + digit_run(chars, pos) ==> digit_value(#[trigger] chars[i]) is Some,
    decreases chars.len() - pos,
{
    if 0 <= pos < chars.len() && digit_value(chars[pos]) is Some {
        lemma_digit_run_digits(chars, pos + 1);
    }
}

/// Reads an integer literal: the longest run of decimal digits. Where no
/// digit comes next, or the digits spell a number that does not fit in 64
/// bits, fails and leaves the cursor where it was.
pub fn number(reader: &mut TryReader<char>) -> (r: Result<i64, Option<i64>>)
    ensures
        final(reader).items() == old(reader).items(),
        0 <= old(reader).position() <= old(reader).items().len(),
        match r {
            Ok(value) => number_at(old(reader).items(), old(reader).position()) == Some(
                (value, (final(reader).position() - old(reader).position()) as nat),
            ) && old(reader).position() < final(reader).position() <= old(reader).items().len(),
            Err(e) => e is None && final(reader).position() == old(reader).position()
                && number_at(old(reader).items(), old(reader).position()) is None,
        },
{
    let ghost items = reader.items();
    let start = reader.offset();
    let mut value: i64 = 0;
    let mut open = true;
    let mut fits = true;
    while open
        invariant
            reader.items() == items,
            0 <= start <= reader.position() <= items.len(),
            0 <= value,
            value == decimal_value(items, start as int, reader.position()),
            digit_run(items, start as int) == reader.position() - start + digit_run(
                items,
                reader.position(),
            ),
            !open && fits ==> digit_run(items, reader.position()) == 0,
            !fits ==> !open && number_at(items, start as int) is None,
        decreases items.len() - reader.position() + (if open { 1int } else { 0int }),
    {
        let ghost cur = reader.position();
        match reader.peek() {
            Some(c) => {
                match to_digit(*c) {
                    Some(d) => {
                        if value > (i64::MAX - d as i64) / 10 {
                            proof {
                                let run = digit_run(items, start as int);
                                lemma_digit_run_digits(items, start as int);
                                lemma_decimal_value_grows(
                                    items,
                                    start as int,
                                    cur + 1,
                                    start + run,
                                );
                            }
                            fits = false;
                            open = false;
                        } else {
                            let _ = reader.next();
                            value = value * 10 + d as i64;
                        }
                    },
                    None => {
                        open = false;
                    },
                }
            },
            None => {
                open = false;
            },
        }
    }
    if !fits {
        reader.rewind(start);
        Err(None)
    } else if reader.offset() == start {
        Err(None)
    } else {
        Ok(value)
    }
}

} // verus!
