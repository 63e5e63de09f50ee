use vstd::prelude::*;

verus! {

/// The kind of a source token.
#[derive(Debug, Clone, Copy, PartialEq, Eq, Structural)]
pub enum TokenType {
    Ident,
    Integer,
    Str,
    Let,
    Const,
    Eof,
    Other,
}

/// A source token: its text, kind and position.
#[derive(Debug, Clone)]
pub struct Token {
    pub value: String,
    pub token_type: TokenType,
    pub file: String,
    pub line: usize,
    pub column: usize,
}

impl Token {
    pub fn new(value: String, token_type: TokenType, file: String, line: usize, column: usize) -> (r: Token)
        ensures
            r.value == value,
            r.token_type == token_type,
            r.file == file,
            r.line == line,
            r.column == column,
    {
        Token { value, token_type, file, line, column }
    }

    /// The end-of-file token of `file` at the given position.
    pub fn eof(file: String, line: usize, column: usize) -> (r: Token)
        ensures
            r.value@ == Seq::<char>::empty(),
            r.token_type == TokenType::Eof,
            r.file == file,
            r.line == line,
            r.column == column,
    {
        Token { value: String::new(), token_type: TokenType::Eof, file, line, column }
    }

    /// A copy of this token.
    pub fn copy(&self) -> (r: Token)
        ensures
            r == *self,
    {
        Token {
            value: self.value.clone(),
            token_type: self.token_type,
            file: self.file.clone(),
            line: self.line,
            column: self.column,
        }
    }
}

} // verus!
