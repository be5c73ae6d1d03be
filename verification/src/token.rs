//! Token and node kinds of the syntax tree, and the operator binding powers
//! that drive the expression parser.

use vstd::prelude::*;

verus! {

/// Every kind of leaf token and of composite node in the syntax tree.
#[allow(non_camel_case_types)]
#[derive(Debug, Clone, Copy, PartialEq, Eq, PartialOrd, Ord, Hash, Structural)]
pub enum Token {
    // Keywords
    COMP,
    RES,
    SYS,
    QUERY,
    FN,
    IF,
    ELSE,
    WHILE,
    LET,
    DEL,
    USE,
    // Whitespace
    WHITE_SPACE,
    NEW_LINE,
    // Comment
    COMMENT,
    // User
    NUMBER,
    IDENT,
    // Operators and punctuation
    PLUS,
    PLUSEQ,
    MINUS,
    MINUSEQ,
    STAR,
    STAREQ,
    SLASH,
    SLASHEQ,
    COLON,
    LBRACE,
    RBRACE,
    LBRACKET,
    RBRACKET,
    LPAREN,
    RPAREN,
    DOT,
    EQ,
    SEMICOLON,
    COMMA,
    EQEQ,
    LESS,
    LESSEQ,
    GREATER,
    GREATEREQ,
    EXCLAMATION,
    OROR,
    ANDAND,
    // Composite
    Error,
    Root,
    Resource,
    Component,
    System,
    Function,
    Import,
    // Composite, types
    FieldType,
    StructType,
    // Composite, expressions
    Paren,
    Query,
    Block,
    Prefix,
    Infix,
    Literal,
    ComponentAccess,
    ResourceAccess,
    Call,
    Let,
    Del,
    While,
    If,
    Struct,
    // Other
    UNKNOWN,
    EOF,
}

impl Token {
    /// Left and right binding power of an infix operator, `None` for any
    /// other kind.
    pub open spec fn spec_infix_binding_power(self) -> Option<(u8, u8)> {
        match self {
            Token::EQ | Token::PLUSEQ | Token::MINUSEQ | Token::STAREQ | Token::SLASHEQ
            | Token::OROR | Token::ANDAND => Some((2u8, 1u8)),
            Token::EQEQ | Token::GREATER | Token::GREATEREQ | Token::LESS | Token::LESSEQ => Some(
                (3u8, 4u8),
            ),
            Token::PLUS | Token::MINUS | Token::EXCLAMATION => Some((5u8, 6u8)),
            Token::STAR | Token::SLASH => Some((7u8, 8u8)),
            Token::DOT | Token::LBRACKET | Token::LPAREN => Some((9u8, 10u8)),
            _ => None,
        }
    }

    /// Binding power of a prefix operator, `None` for any other kind.
    pub open spec fn spec_prefix_binding_power(self) -> Option<u8> {
        match self {
            Token::PLUS | Token::MINUS | Token::EXCLAMATION | Token::LBRACKET => Some(8u8),
            _ => None,
        }
    }

    #[verifier::when_used_as_spec(spec_infix_binding_power)]
    pub fn infix_binding_power(self) -> (r: Option<(u8, u8)>)
        ensures
            r == self.spec_infix_binding_power(),
    {
        match self {
            Token::EQ | Token::PLUSEQ | Token::MINUSEQ | Token::STAREQ | Token::SLASHEQ
            | Token::OROR | Token::ANDAND => Some((2, 1)),
            Token::EQEQ | Token::GREATER | Token::GREATEREQ | Token::LESS | Token::LESSEQ => Some(
                (3, 4),
            ),
            Token::PLUS | Token::MINUS | Token::EXCLAMATION => Some((5, 6)),
            Token::STAR | Token::SLASH => Some((7, 8)),
            Token::DOT | Token::LBRACKET | Token::LPAREN => Some((9, 10)),
            _ => None,
        }
    }

    pub fn is_infix_op(self) -> (r: bool)
        ensures
            r == self.spec_infix_binding_power().is_some(),
    {
        self.infix_binding_power().is_some()
    }

    #[verifier::when_used_as_spec(spec_prefix_binding_power)]
    pub fn prefix_binding_power(self) -> (r: Option<u8>)
        ensures
            r == self.spec_prefix_binding_power(),
    {
        match self {
            Token::PLUS | Token::MINUS | Token::EXCLAMATION | Token::LBRACKET => Some(8),
            _ => None,
        }
    }

    pub fn is_prefix_op(self) -> (r: bool)
        ensures
            r == self.spec_prefix_binding_power().is_some(),
    {
        self.prefix_binding_power().is_some()
    }
}

impl Token {
    /// The name of the kind, as it is written in this enum.
    pub open spec fn spec_name(self) -> &'static str {
        match self {
            Token::COMP => "COMP",
            Token::RES => "RES",
            Token::SYS => "SYS",
            Token::QUERY => "QUERY",
            Token::FN => "FN",
            Token::IF => "IF",
            Token::ELSE => "ELSE",
            Token::WHILE => "WHILE",
            Token::LET => "LET",
            Token::DEL => "DEL",
            Token::USE => "USE",
            Token::WHITE_SPACE => "WHITE_SPACE",
            Token::NEW_LINE => "NEW_LINE",
            Token::COMMENT => "COMMENT",
            Token::NUMBER => "NUMBER",
            Token::IDENT => "IDENT",
            Token::PLUS => "PLUS",
            Token::PLUSEQ => "PLUSEQ",
            Token::MINUS => "MINUS",
            Token::MINUSEQ => "MINUSEQ",
            Token::STAR => "STAR",
            Token::STAREQ => "STAREQ",
            Token::SLASH => "SLASH",
            Token::SLASHEQ => "SLASHEQ",
            Token::COLON => "COLON",
            Token::LBRACE => "LBRACE",
            Token::RBRACE => "RBRACE",
            Token::LBRACKET => "LBRACKET",
            Token::RBRACKET => "RBRACKET",
            Token::LPAREN => "LPAREN",
            Token::RPAREN => "RPAREN",
            Token::DOT => "DOT",
            Token::EQ => "EQ",
            Token::SEMICOLON => "SEMICOLON",
            Token::COMMA => "COMMA",
            Token::EQEQ => "EQEQ",
            Token::LESS => "LESS",
            Token::LESSEQ => "LESSEQ",
            Token::GREATER => "GREATER",
            Token::GREATEREQ => "GREATEREQ",
            Token::EXCLAMATION => "EXCLAMATION",
            Token::OROR => "OROR",
            Token::ANDAND => "ANDAND",
            Token::Error => "Error",
            Token::Root => "Root",
            Token::Resource => "Resource",
            Token::Component => "Component",
            Token::System => "System",
            Token::Function => "Function",
            Token::Import => "Import",
            Token::FieldType => "FieldType",
            Token::StructType => "StructType",
            Token::Paren => "Paren",
            Token::Query => "Query",
            Token::Block => "Block",
            Token::Prefix => "Prefix",
            Token::Infix => "Infix",
            Token::Literal => "Literal",
            Token::ComponentAccess => "ComponentAccess",
            Token::ResourceAccess => "ResourceAccess",
            Token::Call => "Call",
            Token::Let => "Let",
            Token::Del => "Del",
            Token::While => "While",
            Token::If => "If",
            Token::Struct => "Struct",
            Token::UNKNOWN => "UNKNOWN",
            Token::EOF => "EOF",
        }
    }

    #[verifier::when_used_as_spec(spec_name)]
    pub fn name(self) -> (r: &'static str)
        ensures
            r == self.spec_name(),
    {
        match self {
            Token::COMP => "COMP",
            Token::RES => "RES",
            Token::SYS => "SYS",
            Token::QUERY => "QUERY",
            Token::FN => "FN",
            Token::IF => "IF",
            Token::ELSE => "ELSE",
            Token::WHILE => "WHILE",
            Token::LET => "LET",
            Token::DEL => "DEL",
            Token::USE => "USE",
            Token::WHITE_SPACE => "WHITE_SPACE",
            Token::NEW_LINE => "NEW_LINE",
            Token::COMMENT => "COMMENT",
            Token::NUMBER => "NUMBER",
            Token::IDENT => "IDENT",
            Token::PLUS => "PLUS",
            Token::PLUSEQ => "PLUSEQ",
            Token::MINUS => "MINUS",
            Token::MINUSEQ => "MINUSEQ",
            Token::STAR => "STAR",
            Token::STAREQ => "STAREQ",
            Token::SLASH => "SLASH",
            Token::SLASHEQ => "SLASHEQ",
            Token::COLON => "COLON",
            Token::LBRACE => "LBRACE",
            Token::RBRACE => "RBRACE",
            Token::LBRACKET => "LBRACKET",
            Token::RBRACKET => "RBRACKET",
            Token::LPAREN => "LPAREN",
            Token::RPAREN => "RPAREN",
            Token::DOT => "DOT",
            Token::EQ => "EQ",
            Token::SEMICOLON => "SEMICOLON",
            Token::COMMA => "COMMA",
            Token::EQEQ => "EQEQ",
            Token::LESS => "LESS",
            Token::LESSEQ => "LESSEQ",
            Token::GREATER => "GREATER",
            Token::GREATEREQ => "GREATEREQ",
            Token::EXCLAMATION => "EXCLAMATION",
            Token::OROR => "OROR",
            Token::ANDAND => "ANDAND",
            Token::Error => "Error",
            Token::Root => "Root",
            Token::Resource => "Resource",
            Token::Component => "Component",
            Token::System => "System",
            Token::Function => "Function",
            Token::Import => "Import",
            Token::FieldType => "FieldType",
            Token::StructType => "StructType",
            Token::Paren => "Paren",
            Token::Query => "Query",
            Token::Block => "Block",
            Token::Prefix => "Prefix",
            Token::Infix => "Infix",
            Token::Literal => "Literal",
            Token::ComponentAccess => "ComponentAccess",
            Token::ResourceAccess => "ResourceAccess",
            Token::Call => "Call",
            Token::Let => "Let",
            Token::Del => "Del",
            Token::While => "While",
            Token::If => "If",
            Token::Struct => "Struct",
            Token::UNKNOWN => "UNKNOWN",
            Token::EOF => "EOF",
        }
    }

    /// Whether the kind is whitespace or a comment.
    pub open spec fn spec_is_trivia(self) -> bool {
        self == Token::WHITE_SPACE || self == Token::NEW_LINE || self == Token::COMMENT
    }

    #[verifier::when_used_as_spec(spec_is_trivia)]
    pub fn is_trivia(self) -> (r: bool)
        ensures
            r == self.spec_is_trivia(),
    {
        self == Token::WHITE_SPACE || self == Token::NEW_LINE || self == Token::COMMENT
    }
}

impl Token {
    /// The number of the kind: its place in this enum, from 0.
    pub open spec fn spec_to_raw(self) -> u16 {
        match self {
            Token::COMP => 0,
            Token::RES => 1,
            Token::SYS => 2,
            Token::QUERY => 3,
            Token::FN => 4,
            Token::IF => 5,
            Token::ELSE => 6,
            Token::WHILE => 7,
            Token::LET => 8,
            Token::DEL => 9,
            Token::USE => 10,
            Token::WHITE_SPACE => 11,
            Token::NEW_LINE => 12,
            Token::COMMENT => 13,
            Token::NUMBER => 14,
            Token::IDENT => 15,
            Token::PLUS => 16,
            Token::PLUSEQ => 17,
            Token::MINUS => 18,
            Token::MINUSEQ => 19,
            Token::STAR => 20,
            Token::STAREQ => 21,
            Token::SLASH => 22,
            Token::SLASHEQ => 23,
            Token::COLON => 24,
            Token::LBRACE => 25,
            Token::RBRACE => 26,
            Token::LBRACKET => 27,
            Token::RBRACKET => 28,
            Token::LPAREN => 29,
            Token::RPAREN => 30,
            Token::DOT => 31,
            Token::EQ => 32,
            Token::SEMICOLON => 33,
            Token::COMMA => 34,
            Token::EQEQ => 35,
            Token::LESS => 36,
            Token::LESSEQ => 37,
            Token::GREATER => 38,
            Token::GREATEREQ => 39,
            Token::EXCLAMATION => 40,
            Token::OROR => 41,
            Token::ANDAND => 42,
            Token::Error => 43,
            Token::Root => 44,
            Token::Resource => 45,
            Token::Component => 46,
            Token::System => 47,
            Token::Function => 48,
            Token::Import => 49,
            Token::FieldType => 50,
            Token::StructType => 51,
            Token::Paren => 52,
            Token::Query => 53,
            Token::Block => 54,
            Token::Prefix => 55,
            Token::Infix => 56,
            Token::Literal => 57,
            Token::ComponentAccess => 58,
            Token::ResourceAccess => 59,
            Token::Call => 60,
            Token::Let => 61,
            Token::Del => 62,
            Token::While => 63,
            Token::If => 64,
            Token::Struct => 65,
            Token::UNKNOWN => 66,
            Token::EOF => 67,
        }
    }

    #[verifier::when_used_as_spec(spec_to_raw)]
    pub fn to_raw(self) -> (r: u16)
        ensures
            r == self.spec_to_raw(),
    {
        match self {
            Token::COMP => 0,
            Token::RES => 1,
            Token::SYS => 2,
            Token::QUERY => 3,
            Token::FN => 4,
            Token::IF => 5,
            Token::ELSE => 6,
            Token::WHILE => 7,
            Token::LET => 8,
            Token::DEL => 9,
            Token::USE => 10,
            Token::WHITE_SPACE => 11,
            Token::NEW_LINE => 12,
            Token::COMMENT => 13,
            Token::NUMBER => 14,
            Token::IDENT => 15,
            Token::PLUS => 16,
            Token::PLUSEQ => 17,
            Token::MINUS => 18,
            Token::MINUSEQ => 19,
            Token::STAR => 20,
            Token::STAREQ => 21,
            Token::SLASH => 22,
            Token::SLASHEQ => 23,
            Token::COLON => 24,
            Token::LBRACE => 25,
            Token::RBRACE => 26,
            Token::LBRACKET => 27,
            Token::RBRACKET => 28,
            Token::LPAREN => 29,
            Token::RPAREN => 30,
            Token::DOT => 31,
            Token::EQ => 32,
            Token::SEMICOLON => 33,
            Token::COMMA => 34,
            Token::EQEQ => 35,
            Token::LESS => 36,
            Token::LESSEQ => 37,
            Token::GREATER => 38,
            Token::GREATEREQ => 39,
            Token::EXCLAMATION => 40,
            Token::OROR => 41,
            Token::ANDAND => 42,
            Token::Error => 43,
            Token::Root => 44,
            Token::Resource => 45,
            Token::Component => 46,
            Token::System => 47,
            Token::Function => 48,
            Token::Import => 49,
            Token::FieldType => 50,
            Token::StructType => 51,
            Token::Paren => 52,
            Token::Query => 53,
            Token::Block => 54,
            Token::Prefix => 55,
            Token::Infix => 56,
            Token::Literal => 57,
            Token::ComponentAccess => 58,
            Token::ResourceAccess => 59,
            Token::Call => 60,
            Token::Let => 61,
            Token::Del => 62,
            Token::While => 63,
            Token::If => 64,
            Token::Struct => 65,
            Token::UNKNOWN => 66,
            Token::EOF => 67,
        }
    }

    /// The kind of the number `raw`, if it is the number of a kind.
    pub fn from_raw(raw: u16) -> (r: Option<Token>)
        ensures
            match r {
                Some(t) => t.spec_to_raw() == raw,
                None => raw > Token::EOF.spec_to_raw(),
            },
    {
        if raw == 0 {
            Some(Token::COMP)
        } else if raw == 1 {
            Some(Token::RES)
        } else if raw == 2 {
            Some(Token::SYS)
        } else if raw == 3 {
            Some(Token::QUERY)
        } else if raw == 4 {
            Some(Token::FN)
        } else if raw == 5 {
            Some(Token::IF)
        } else if raw == 6 {
            Some(Token::ELSE)
        } else if raw == 7 {
            Some(Token::WHILE)
        } else if raw == 8 {
            Some(Token::LET)
        } else if raw == 9 {
            Some(Token::DEL)
        } else if raw == 10 {
            Some(Token::USE)
        } else if raw == 11 {
            Some(Token::WHITE_SPACE)
        } else if raw == 12 {
            Some(Token::NEW_LINE)
        } else if raw == 13 {
            Some(Token::COMMENT)
        } else if raw == 14 {
            Some(Token::NUMBER)
        } else if raw == 15 {
            Some(Token::IDENT)
        } else if raw == 16 {
            Some(Token::PLUS)
        } else if raw == 17 {
            Some(Token::PLUSEQ)
        } else if raw == 18 {
            Some(Token::MINUS)
        } else if raw == 19 {
            Some(Token::MINUSEQ)
        } else if raw == 20 {
            Some(Token::STAR)
        } else if raw == 21 {
            Some(Token::STAREQ)
        } else if raw == 22 {
            Some(Token::SLASH)
        } else if raw == 23 {
            Some(Token::SLASHEQ)
        } else if raw == 24 {
            Some(Token::COLON)
        } else if raw == 25 {
            Some(Token::LBRACE)
        } else if raw == 26 {
            Some(Token::RBRACE)
        } else if raw == 27 {
            Some(Token::LBRACKET)
        } else if raw == 28 {
            Some(Token::RBRACKET)
        } else if raw == 29 {
            Some(Token::LPAREN)
        } else if raw == 30 {
            Some(Token::RPAREN)
        } else if raw == 31 {
            Some(Token::DOT)
        } else if raw == 32 {
            Some(Token::EQ)
        } else if raw == 33 {
            Some(Token::SEMICOLON)
        } else if raw == 34 {
            Some(Token::COMMA)
        } else if raw == 35 {
            Some(Token::EQEQ)
        } else if raw == 36 {
            Some(Token::LESS)
        } else if raw == 37 {
            Some(Token::LESSEQ)
        } else if raw == 38 {
            Some(Token::GREATER)
        } else if raw == 39 {
            Some(Token::GREATEREQ)
        } else if raw == 40 {
            Some(Token::EXCLAMATION)
        } else if raw == 41 {
            Some(Token::OROR)
        } else if raw == 42 {
            Some(Token::ANDAND)
        } else if raw == 43 {
            Some(Token::Error)
        } else if raw == 44 {
            Some(Token::Root)
        } else if raw == 45 {
            Some(Token::Resource)
        } else if raw == 46 {
            Some(Token::Component)
        } else if raw == 47 {
            Some(Token::System)
        } else if raw == 48 {
            Some(Token::Function)
        } else if raw == 49 {
            Some(Token::Import)
        } else if raw == 50 {
            Some(Token::FieldType)
        } else if raw == 51 {
            Some(Token::StructType)
        } else if raw == 52 {
            Some(Token::Paren)
        } else if raw == 53 {
            Some(Token::Query)
        } else if raw == 54 {
            Some(Token::Block)
        } else if raw == 55 {
            Some(Token::Prefix)
        } else if raw == 56 {
            Some(Token::Infix)
        } else if raw == 57 {
            Some(Token::Literal)
        } else if raw == 58 {
            Some(Token::ComponentAccess)
        } else if raw == 59 {
            Some(Token::ResourceAccess)
        } else if raw == 60 {
            Some(Token::Call)
        } else if raw == 61 {
            Some(Token::Let)
        } else if raw == 62 {
            Some(Token::Del)
        } else if raw == 63 {
            Some(Token::While)
        } else if raw == 64 {
            Some(Token::If)
        } else if raw == 65 {
            Some(Token::Struct)
        } else if raw == 66 {
            Some(Token::UNKNOWN)
        } else if raw == 67 {
            Some(Token::EOF)
        } else {
            None
        }
    }

    /// Two kinds of the same number are the same kind.
    pub proof fn lemma_raw_injective(a: Token, b: Token)
        requires
            a.spec_to_raw() == b.spec_to_raw(),
        ensures
            a == b,
    {
    }
}

} // verus!
