use std::collections::HashMap;
use vstd::prelude::*;
use vstd::std_specs::hash::*;
use crate::sourcecode::Code;

verus! {

broadcast use group_hash_axioms;

/// One lexical unit of the language.
#[derive(Debug, PartialEq)]
pub enum Token {
    Operator(Operator),
    ReservedWord(ReservedWord),
    Number(i64),
    Bracket(BracketSide),
    Identifier(String),
    LineBreak,
    Comma,
}

/// What a token is, with an identifier's name as a sequence of characters.
pub enum TokenModel {
    Operator(Operator),
    ReservedWord(ReservedWord),
    Number(i64),
    Bracket(BracketSide),
    Identifier(Seq<char>),
    LineBreak,
    Comma,
}

impl View for Token {
    type V = TokenModel;

    open spec fn view(&self) -> TokenModel {
        match *self {
            Token::Operator(operator) => TokenModel::Operator(operator),
            Token::ReservedWord(word) => TokenModel::ReservedWord(word),
            Token::Number(n) => TokenModel::Number(n),
            Token::Bracket(side) => TokenModel::Bracket(side),
            Token::Identifier(name) => TokenModel::Identifier(name@),
            Token::LineBreak => TokenModel::LineBreak,
            Token::Comma => TokenModel::Comma,
        }
    }
}

/// The models of a sequence of tokens.
pub open spec fn token_models(tokens: Seq<Code<Token>>) -> Seq<Code<TokenModel>> {
    Seq::new(tokens.len(), |i: int| tokens[i]@)
}

impl Clone for Token {
    fn clone(&self) -> (r: Token)
        ensures
            r == *self,
    {
        match self {
            Token::Operator(operator) => Token::Operator(*operator),
            Token::ReservedWord(word) => Token::ReservedWord(*word),
            Token::Number(n) => Token::Number(*n),
            Token::Bracket(side) => Token::Bracket(*side),
            Token::Identifier(name) => Token::Identifier(name.clone()),
            Token::LineBreak => Token::LineBreak,
            Token::Comma => Token::Comma,
        }
    }
}

impl Token {
    /// Tells whether two tokens are the same.
    pub fn same_as(&self, other: &Token) -> (r: bool)
        ensures
            r == (self@ == other@),
    {
        match (self, other) {
            (Token::Operator(a), Token::Operator(b)) => *a == *b,
            (Token::ReservedWord(a), Token::ReservedWord(b)) => *a == *b,
            (Token::Number(a), Token::Number(b)) => *a == *b,
            (Token::Bracket(a), Token::Bracket(b)) => *a == *b,
            (Token::Identifier(a), Token::Identifier(b)) => *a == *b,
            (Token::LineBreak, Token::LineBreak) => true,
            (Token::Comma, Token::Comma) => true,
            _ => false,
        }
    }

    /// The token of the operator `+`.
    pub fn add() -> (t: Token)
        ensures
            t == Token::Operator(Operator::Add),
    {
        Token::Operator(Operator::Add)
    }

    /// The token of the operator `-`.
    pub fn sub() -> (t: Token)
        ensures
            t == Token::Operator(Operator::Sub),
    {
        Token::Operator(Operator::Sub)
    }

    /// The token of the operator `*`.
    pub fn mul() -> (t: Token)
        ensures
            t == Token::Operator(Operator::Mul),
    {
        Token::Operator(Operator::Mul)
    }

    /// The token of the operator `/`.
    pub fn div() -> (t: Token)
        ensures
            t == Token::Operator(Operator::Div),
    {
        Token::Operator(Operator::Div)
    }

    /// The token of the operator `==`.
    pub fn eq() -> (t: Token)
        ensures
            t == Token::Operator(Operator::Equal),
    {
        Token::Operator(Operator::Equal)
    }

    /// The token of the operator `!=`.
    pub fn neq() -> (t: Token)
        ensures
            t == Token::Operator(Operator::NotEqual),
    {
        Token::Operator(Operator::NotEqual)
    }

    /// The token of the operator `<`.
    pub fn lt() -> (t: Token)
        ensures
            t == Token::Operator(Operator::Less),
    {
        Token::Operator(Operator::Less)
    }

    /// The token of the operator `>`.
    pub fn gt() -> (t: Token)
        ensures
            t == Token::Operator(Operator::Greater),
    {
        Token::Operator(Operator::Greater)
    }

    /// The token of the operator `<=`.
    pub fn le() -> (t: Token)
        ensures
            t == Token::Operator(Operator::LessEq),
    {
        Token::Operator(Operator::LessEq)
    }

    /// The token of the operator `>=`.
    pub fn ge() -> (t: Token)
        ensures
            t == Token::Operator(Operator::GreaterEq),
    {
        Token::Operator(Operator::GreaterEq)
    }

    /// The token of the operator `:=`.
    pub fn assign() -> (t: Token)
        ensures
            t == Token::Operator(Operator::Assign),
    {
        Token::Operator(Operator::Assign)
    }
}

#[derive(Debug, PartialEq, Eq, Clone, Copy, Hash, Structural)]
pub enum Operator {
    Add,
    Sub,
    Mul,
    Div,
    Equal,
    NotEqual,
    Less,
    Greater,
    LessEq,
    GreaterEq,
    Assign,
}

#[derive(Debug, PartialEq, Eq, Clone, Copy, Hash, Structural)]
pub enum ReservedWord {
    Let,
    Return,
    If,
    Then,
    Else,
    Func,
}

#[derive(Debug, PartialEq, Eq, Clone, Copy, Structural)]
pub enum BracketSide {
    Left(Bracket),
    Right(Bracket),
}

#[derive(Debug, PartialEq, Eq, Clone, Copy, Structural)]
pub enum Bracket {
    Round,
    Curly,
}

/// The symbols of the language: operators, brackets and the comma, each with
/// its spelling.
pub open spec fn symbol_table(key: Seq<char>) -> Option<Token> {
    if key == seq!['+'] {
        Some(Token::Operator(Operator::Add))
    } else if key == seq!['-'] {
        Some(Token::Operator(Operator::Sub))
    } else if key == seq!['*'] {
        Some(Token::Operator(Operator::Mul))
    } else if key == seq!['/'] {
        Some(Token::Operator(Operator::Div))
    } else if key == seq!['<'] {
        Some(Token::Operator(Operator::Less))
    } else if key == seq!['<', '='] {
        Some(Token::Operator(Operator::LessEq))
    } else if key == seq!['>'] {
        Some(Token::Operator(Operator::Greater))
    } else if key == seq!['>', '='] {
        Some(Token::Operator(Operator::GreaterEq))
    } else if key == seq!['=', '='] {
        Some(Token::Operator(Operator::Equal))
    } else if key == seq!['!', '='] {
        Some(Token::Operator(Operator::NotEqual))
    } else if key == seq!['('] {
        Some(Token::Bracket(BracketSide::Left(Bracket::Round)))
    } else if key == seq![')'] {
        Some(Token::Bracket(BracketSide::Right(Bracket::Round)))
    } else if key == seq!['{'] {
        Some(Token::Bracket(BracketSide::Left(Bracket::Curly)))
    } else if key == seq!['}'] {
        Some(Token::Bracket(BracketSide::Right(Bracket::Curly)))
    } else if key == seq![':', '='] {
        Some(Token::Operator(Operator::Assign))
    } else if key == seq![','] {
        Some(Token::Comma)
    } else {
        None
    }
}

/// Two characters with the same code point are the same character.
proof fn lemma_code_injective(a: char, b: char)
    ensures
        a as u32 == b as u32 ==> a == b,
{
}

/// A trie from spellings to tokens. Each node holds the token whose spelling
/// ends there, if any, and one child per next character.
pub struct Dictionary {
    terminal: Option<Token>,
    next: HashMap<u32, Box<Dictionary>>,
}

impl Dictionary {
    /// The token spelled `key`, if the dictionary has one.
    pub closed spec fn get(&self, key: Seq<char>) -> Option<Token>
        decreases key.len(),
    {
        if key.len() == 0 {
            self.terminal
        } else if self.next@.contains_key(key[0] as u32) {
            (*self.next@[key[0] as u32]).get(key.drop_first())
        } else {
            None
        }
    }

    /// Tells whether some spelling in the dictionary may go on with `c`.
    pub closed spec fn has_child(&self, c: char) -> bool {
        self.next@.contains_key(c as u32)
    }

    fn empty() -> (r: Dictionary)
        ensures
            forall|key: Seq<char>| r.get(key) is None,
    {
        let r = Dictionary { terminal: None, next: HashMap::new() };
        assert forall|key: Seq<char>| r.get(key) is None by {
        }
        r
    }

    /// The dictionary that holds every entry of `entries`, a later entry
    /// replacing an earlier one with the same spelling.
    fn of(entries: Vec<(Vec<char>, Token)>) -> (r: Dictionary)
        ensures
            forall|key: Seq<char>| r.get(key) == Self::entries_get(entries@, key),
    {
        let mut result = Dictionary::empty();
        let mut entries = entries;
        let ghost all = entries@;
        while entries.len() > 0
            invariant
                entries@.len() <= all.len(),
                forall|i: int| 0 <= i < entries@.len() ==> entries@[i] == all[i],
                forall|key: Seq<char>|
                    result.get(key) == Self::entries_get_from(all, entries@.len() as int, key),
            decreases entries@.len(),
        {
            let ghost before = result;
            let ghost n = entries@.len() as int;
            let entry = entries.pop().unwrap();
            let (spelling, token) = entry;
            result = result.insert(&spelling, 0, token);
            assert forall|key: Seq<char>|
                result.get(key) == Self::entries_get_from(all, n - 1, key) by {
                assert(spelling@.skip(0) == spelling@);
                assert(before.get(key) == Self::entries_get_from(all, n, key));
            }
        }
        result
    }

    /// What `of` finds under `key` when it has still to add the entries
    /// below index `upto`: the last entry spelled `key` at or above `upto`.
    pub closed spec fn entries_get_from(
        entries: Seq<(Vec<char>, Token)>,
        upto: int,
        key: Seq<char>,
    ) -> Option<Token>
        decreases entries.len() - upto,
    {
        if upto < 0 || upto >= entries.len() {
            None
        } else if entries[upto].0@ == key {
            Some(entries[upto].1)
        } else {
            Self::entries_get_from(entries, upto + 1, key)
        }
    }

    /// The token of the first entry spelled `key`.
    pub closed spec fn entries_get(entries: Seq<(Vec<char>, Token)>, key: Seq<char>) -> Option<
        Token,
    > {
        Self::entries_get_from(entries, 0, key)
    }

    /// Follows the edge for `c`. Gives the child, whose entries are those of
    /// this node that start with `c`, without that first character; or, when
    /// there is no such child, the token that ends at this node.
    pub fn dig(&self, c: char) -> (r: Result<&Dictionary, &Option<Token>>)
        ensures
            match r {
                Ok(child) => self.has_child(c) && forall|key: Seq<char>|
                    child.get(key) == #[trigger] self.get(seq![c] + key),
                Err(terminal) => !self.has_child(c) && *terminal == self.get(Seq::empty())
                    && forall|key: Seq<char>| #[trigger] self.get(seq![c] + key) is None,
            },
    {
        let code = c as u32;
        match self.next.get(&code) {
            Some(child) => {
                assert forall|key: Seq<char>|
                    child.get(key) == #[trigger] self.get(seq![c] + key) by {
                    assert((seq![c] + key).drop_first() == key);
                }
                Ok(&**child)
            },
            None => {
                Err(&self.terminal)
            },
        }
    }

    /// The token whose spelling ends at this node.
    pub fn terminal(&self) -> (r: &Option<Token>)
        ensures
            *r == self.get(Seq::empty()),
    {
        &self.terminal
    }

    /// Adds the spelling `key[from..]` with `token`, replacing what was there.
    fn insert(self, key: &Vec<char>, from: usize, token: Token) -> (r: Dictionary)
        requires
            from <= key@.len(),
        ensures
            forall|k: Seq<char>|
                r.get(k) == if k == key@.skip(from as int) {
                    Some(token)
                } else {
                    self.get(k)
                },
        decreases key@.len() - from,
    {
        let Dictionary { terminal, next } = self;
        let mut next = next;
        if from == key.len() {
            let r = Dictionary { terminal: Some(token), next };
            assert forall|k: Seq<char>|
                r.get(k) == if k == key@.skip(from as int) {
                    Some(token)
                } else {
                    self.get(k)
                } by {
                assert(key@.skip(from as int).len() == 0);
                if k.len() == 0 {
                    assert(k == key@.skip(from as int));
                }
            }
            r
        } else {
            let c = key[from];
            let code = c as u32;
            let ghost old_next = next@;
            let child = match next.remove(&code) {
                Some(boxed) => *boxed,
                None => Dictionary::empty(),
            };
            let grown = child.insert(key, from + 1, token);
            next.insert(code, Box::new(grown));
            let r = Dictionary { terminal, next };
            assert forall|k: Seq<char>|
                r.get(k) == if k == key@.skip(from as int) {
                    Some(token)
                } else {
                    self.get(k)
                } by {
                let rest = key@.skip(from as int);
                assert(rest.len() > 0 && rest[0] == c);
                assert(rest.drop_first() == key@.skip(from + 1));
                if k.len() == 0 {
                } else if k[0] == c {
                    let tail = k.drop_first();
                    assert(r.next@.contains_key(code));
                    assert(r.get(k) == grown.get(tail));
                    assert(self.get(k) == child.get(tail));
                    assert(k == rest <==> tail == rest.drop_first()) by {
                        if tail == rest.drop_first() {
                            assert(k =~= seq![c] + tail);
                            assert(rest =~= seq![c] + rest.drop_first());
                        }
                    }
                } else {
                    lemma_code_injective(k[0], c);
                    assert(r.next@.contains_key(k[0] as u32) == old_next.contains_key(k[0] as u32));
                    if old_next.contains_key(k[0] as u32) {
                        assert(r.next@[k[0] as u32] == old_next[k[0] as u32]);
                    }
                }
            }
            r
        }
    }

    /// The dictionary of the language's symbols.
    pub fn default() -> (r: Dictionary)
        ensures
            forall|key: Seq<char>| r.get(key) == symbol_table(key),
    {
        let mut entries: Vec<(Vec<char>, Token)> = Vec::new();
        entries.push((vec![','], Token::Comma));
        entries.push((vec![':', '='], Token::assign()));
        entries.push((vec!['}'], Token::Bracket(BracketSide::Right(Bracket::Curly))));
        entries.push((vec!['{'], Token::Bracket(BracketSide::Left(Bracket::Curly))));
        entries.push((vec![')'], Token::Bracket(BracketSide::Right(Bracket::Round))));
        entries.push((vec!['('], Token::Bracket(BracketSide::Left(Bracket::Round))));
        entries.push((vec!['!', '='], Token::neq()));
        entries.push((vec!['=', '='], Token::eq()));
        entries.push((vec!['>', '='], Token::ge()));
        entries.push((vec!['>'], Token::gt()));
        entries.push((vec!['<', '='], Token::le()));
        entries.push((vec!['<'], Token::lt()));
        entries.push((vec!['/'], Token::div()));
        entries.push((vec!['*'], Token::mul()));
        entries.push((vec!['-'], Token::sub()));
        entries.push((vec!['+'], Token::add()));
        let r = Dictionary::of(entries);
        assert forall|key: Seq<char>| r.get(key) == symbol_table(key) by {
            reveal_with_fuel(Dictionary::entries_get_from, 17);
            assert(entries@.len() == 16);
            assert(entries@[0].0@ =~= seq![',']);
            assert(entries@[1].0@ =~= seq![':', '=']);
            assert(entries@[2].0@ =~= seq!['}']);
            assert(entries@[3].0@ =~= seq!['{']);
            assert(entries@[4].0@ =~= seq![')']);
            assert(entries@[5].0@ =~= seq!['(']);
            assert(entries@[6].0@ =~= seq!['!', '=']);
            assert(entries@[7].0@ =~= seq!['=', '=']);
            assert(entries@[8].0@ =~= seq!['>', '=']);
            assert(entries@[9].0@ =~= seq!['>']);
            assert(entries@[10].0@ =~= seq!['<', '=']);
            assert(entries@[11].0@ =~= seq!['<']);
            assert(entries@[12].0@ =~= seq!['/']);
            assert(entries@[13].0@ =~= seq!['*']);
            assert(entries@[14].0@ =~= seq!['-']);
            assert(entries@[15].0@ =~= seq!['+']);
            assert(r.get(key) == Dictionary::entries_get_from(entries@, 0, key));
        }
        r
    }
}

} // verus!
