//! Diagnostics: what went wrong, in which module, and where in its source.

use crate::resolved_type::{render_type, InnerResolvedType, TypeModel};
use crate::token::Token;
use vstd::prelude::*;
use vstd::string::StringExecFns;

verus! {

/// Identifies a module of a compilation.
pub type ModuleID = usize;

/// How severe a diagnostic is: an error in the program, or a broken
/// invariant of the compiler itself.
#[derive(Debug, Clone, Copy, PartialEq, Eq, Structural)]
pub enum ReportKind {
    Error,
    Internal,
}

/// What a diagnostic is about.
#[derive(Debug, Clone, Copy, PartialEq, Eq, Structural)]
pub enum ErrorCode {
    /// The parser met a token that cannot stand where it stands.
    UnexpectedToken,
    /// A construct lacks a part that it needs.
    MissingSyntax,
    /// An identifier names nothing in scope.
    NameNotFound,
    /// The name of a type names nothing in scope.
    TypeNameNotFound,
    /// The name of a struct literal names nothing in scope.
    StructNameNotFound,
    /// A type refers to itself.
    RecursiveType,
    /// What is called is no function.
    CallRequiresFunction,
    /// A call passes more arguments than the function takes.
    TooManyArguments,
    /// A call passes fewer arguments than the function takes.
    TooFewArguments,
    /// The member of a member access is no plain name.
    MemberNotName,
    /// A member access on a value that is no struct.
    NotAStruct,
    /// A member access names a field that the struct does not have.
    UnknownField,
    /// A condition that is neither a boolean nor an access to the store.
    ExpectedTruthy,
    /// A value of another type than the one required.
    TypeMismatch,
    /// A type that does not come from the store where one must.
    NotFromStore,
    /// A query whose body touches, through the entities of another query,
    /// a component that one of the two writes.
    NestedQueryConflict,
}

/// One diagnostic.
#[derive(Debug)]
pub struct Report {
    pub kind: ReportKind,
    pub code: ErrorCode,
    pub module: ModuleID,
    /// Offset in the source at which the diagnostic points.
    pub offset: usize,
    /// The labelled byte range, if the diagnostic has a label.
    pub label: Option<(usize, usize)>,
    /// The token that the parser expected, if it expected one.
    pub expected: Option<Token>,
    /// The type that was expected, if the diagnostic is about one.
    pub wanted: Option<InnerResolvedType>,
    /// What more there is to say.
    pub note: Note,
}

/// What a diagnostic says beyond its headline.
#[derive(Debug)]
pub enum Note {
    /// Nothing.
    Absent,
    /// The type that the value has instead.
    InsteadType(InnerResolvedType),
    /// The type that was found.
    Found(InnerResolvedType),
    /// The number of arguments that the function takes.
    Takes(usize),
}

/// Mathematical model of a note.
pub enum NoteModel {
    Absent,
    InsteadType(TypeModel),
    Found(TypeModel),
    Takes(usize),
}

/// Mathematical model of a diagnostic.
pub struct ReportModel {
    pub kind: ReportKind,
    pub code: ErrorCode,
    pub module: ModuleID,
    pub offset: usize,
    pub label: Option<(usize, usize)>,
    pub expected: Option<Token>,
    pub wanted: Option<TypeModel>,
    pub note: NoteModel,
}

impl View for Note {
    type V = NoteModel;

    open spec fn view(&self) -> NoteModel {
        match self {
            Note::Absent => NoteModel::Absent,
            Note::InsteadType(t) => NoteModel::InsteadType(t@),
            Note::Found(t) => NoteModel::Found(t@),
            Note::Takes(n) => NoteModel::Takes(*n),
        }
    }
}

impl View for Report {
    type V = ReportModel;

    open spec fn view(&self) -> ReportModel {
        ReportModel {
            kind: self.kind,
            code: self.code,
            module: self.module,
            offset: self.offset,
            label: self.label,
            expected: self.expected,
            wanted: match self.wanted {
                Some(t) => Some(t@),
                None => None,
            },
            note: self.note@,
        }
    }
}

/// The models of a sequence of diagnostics.
pub open spec fn reports_model(rs: Seq<Report>) -> Seq<ReportModel> {
    Seq::new(rs.len(), |i: int| rs[i]@)
}

impl Note {
    /// A copy of the note.
    pub fn clone(&self) -> (r: Note)
        ensures
            r@ == self@,
    {
        match self {
            Note::Absent => Note::Absent,
            Note::InsteadType(t) => Note::InsteadType(t.clone()),
            Note::Found(t) => Note::Found(t.clone()),
            Note::Takes(n) => Note::Takes(*n),
        }
    }
}

impl Report {
    /// A copy of the diagnostic.
    pub fn clone(&self) -> (r: Report)
        ensures
            r@ == self@,
    {
        Report {
            kind: self.kind,
            code: self.code,
            module: self.module,
            offset: self.offset,
            label: self.label,
            expected: self.expected,
            wanted: match &self.wanted {
                Some(t) => Some(t.clone()),
                None => None,
            },
            note: self.note.clone(),
        }
    }

    /// A labelled error at the range `start..end` of `module`.
    pub open spec fn spec_at(code: ErrorCode, module: ModuleID, start: usize, end: usize) -> Report {
        Report {
            kind: ReportKind::Error,
            code,
            module,
            offset: start,
            label: Some((start, end)),
            expected: None,
            wanted: None,
            note: Note::Absent,
        }
    }

    #[verifier::when_used_as_spec(spec_at)]
    pub fn at(code: ErrorCode, module: ModuleID, start: usize, end: usize) -> (r: Report)
        ensures
            r == Self::spec_at(code, module, start, end),
    {
        Report {
            kind: ReportKind::Error,
            code,
            module,
            offset: start,
            label: Some((start, end)),
            expected: None,
            wanted: None,
            note: Note::Absent,
        }
    }

    /// The headline of the diagnostic. For a value of another type than
    /// the one required it names the type required.
    pub fn message(&self) -> (r: String)
        ensures
            r@ == match self.wanted {
                Some(t) => "Expected "@ + render_type(t@),
                None => message_text(self.code)@,
            },
    {
        match &self.wanted {
            Some(t) => String::from_str("Expected ").concat(t.display().as_str()),
            None => String::from_str(message_str(self.code)),
        }
    }

    /// The text of the note, if the diagnostic has one.
    pub fn note_text(&self) -> (r: Option<String>)
        ensures
            match r {
                Some(text) => Some(text@) == note_model_text(self.note@),
                None => note_model_text(self.note@).is_none(),
            },
    {
        match &self.note {
            Note::Absent => None,
            Note::InsteadType(t) => Some(
                String::from_str("instead it has type ").concat(t.display().as_str()),
            ),
            Note::Found(t) => Some(String::from_str("found ").concat(t.display().as_str())),
            Note::Takes(n) => Some(
                String::from_str("function takes ").concat(decimal(*n).as_str()).concat(
                    " arguments",
                ),
            ),
        }
    }

    /// The text of the label, if the diagnostic has one.
    pub fn label_text(&self) -> (r: Option<String>)
        ensures
            r.is_some() == self.label.is_some(),
            r.is_some() ==> r.unwrap()@ == label_str(self.code)@,
    {
        match self.label {
            Some(_) => Some(String::from_str(label_str(self.code))),
            None => None,
        }
    }

    /// The help text: which token was expected, if one was.
    pub fn help(&self) -> (r: Option<String>)
        ensures
            r.is_some() == self.expected.is_some(),
            r.is_some() ==> r.unwrap()@ == "Expected "@ + self.expected.unwrap().name()@,
    {
        match self.expected {
            Some(t) => Some(String::from_str("Expected ").concat(t.name())),
            None => None,
        }
    }
}

/// The text of a note.
pub open spec fn note_model_text(note: NoteModel) -> Option<Seq<char>> {
    match note {
        NoteModel::Absent => None,
        NoteModel::InsteadType(t) => Some("instead it has type "@ + render_type(t)),
        NoteModel::Found(t) => Some("found "@ + render_type(t)),
        NoteModel::Takes(n) => Some("function takes "@ + decimal_text(n as nat) + " arguments"@),
    }
}

/// The text of a digit.
pub open spec fn digit_text(d: nat) -> &'static str {
    if d == 0 {
        "0"
    } else if d == 1 {
        "1"
    } else if d == 2 {
        "2"
    } else if d == 3 {
        "3"
    } else if d == 4 {
        "4"
    } else if d == 5 {
        "5"
    } else if d == 6 {
        "6"
    } else if d == 7 {
        "7"
    } else if d == 8 {
        "8"
    } else {
        "9"
    }
}

/// The text of a number in decimal.
pub open spec fn decimal_text(n: nat) -> Seq<char>
    decreases n,
{
    if n < 10 {
        digit_text(n)@
    } else {
        decimal_text(n / 10) + digit_text(n % 10)@
    }
}

fn digit(d: usize) -> (r: &'static str)
    requires
        d < 10,
    ensures
        r == digit_text(d as nat),
{
    if d == 0 {
        "0"
    } else if d == 1 {
        "1"
    } else if d == 2 {
        "2"
    } else if d == 3 {
        "3"
    } else if d == 4 {
        "4"
    } else if d == 5 {
        "5"
    } else if d == 6 {
        "6"
    } else if d == 7 {
        "7"
    } else if d == 8 {
        "8"
    } else {
        "9"
    }
}

/// The text of `n` in decimal.
pub fn decimal(n: usize) -> (r: String)
    ensures
        r@ == decimal_text(n as nat),
    decreases n,
{
    if n < 10 {
        String::from_str(digit(n))
    } else {
        decimal(n / 10).concat(digit(n % 10))
    }
}

/// The headline that belongs to a code.
pub open spec fn message_text(code: ErrorCode) -> &'static str {
    match code {
        ErrorCode::UnexpectedToken => "Unexpected token",
        ErrorCode::MissingSyntax => "",
        ErrorCode::NameNotFound => "Couldn't find name",
        ErrorCode::TypeNameNotFound => "Couldn't find name of type",
        ErrorCode::StructNameNotFound => "Couldn't find name of a type",
        ErrorCode::RecursiveType => "Found recursive type",
        ErrorCode::CallRequiresFunction => "Call expression requires function",
        ErrorCode::TooManyArguments => "Too many arguments",
        ErrorCode::TooFewArguments => "Too few arguments",
        ErrorCode::MemberNotName => "You can get a field only with a literal string names",
        ErrorCode::NotAStruct => "Only structs contain fields",
        ErrorCode::UnknownField => "Struct has no such field",
        ErrorCode::ExpectedTruthy => "Expected 'bool' or ECS access",
        ErrorCode::TypeMismatch => "Type mismatch",
        ErrorCode::NotFromStore => "Type should be a component",
        ErrorCode::NestedQueryConflict => "Queries over the same component are nested",
    }
}

#[verifier::when_used_as_spec(message_text)]
pub fn message_str(code: ErrorCode) -> (r: &'static str)
    ensures
        r == message_text(code),
{
    match code {
        ErrorCode::UnexpectedToken => "Unexpected token",
        ErrorCode::MissingSyntax => "",
        ErrorCode::NameNotFound => "Couldn't find name",
        ErrorCode::TypeNameNotFound => "Couldn't find name of type",
        ErrorCode::StructNameNotFound => "Couldn't find name of a type",
        ErrorCode::RecursiveType => "Found recursive type",
        ErrorCode::CallRequiresFunction => "Call expression requires function",
        ErrorCode::TooManyArguments => "Too many arguments",
        ErrorCode::TooFewArguments => "Too few arguments",
        ErrorCode::MemberNotName => "You can get a field only with a literal string names",
        ErrorCode::NotAStruct => "Only structs contain fields",
        ErrorCode::UnknownField => "Struct has no such field",
        ErrorCode::ExpectedTruthy => "Expected 'bool' or ECS access",
        ErrorCode::TypeMismatch => "Type mismatch",
        ErrorCode::NotFromStore => "Type should be a component",
        ErrorCode::NestedQueryConflict => "Queries over the same component are nested",
    }
}

/// The text of the label that belongs to a code.
pub open spec fn label_text_of(code: ErrorCode) -> &'static str {
    match code {
        ErrorCode::TooManyArguments | ErrorCode::TooFewArguments => "in this function call",
        _ => "here",
    }
}

#[verifier::when_used_as_spec(label_text_of)]
pub fn label_str(code: ErrorCode) -> (r: &'static str)
    ensures
        r == label_text_of(code),
{
    match code {
        ErrorCode::TooManyArguments | ErrorCode::TooFewArguments => "in this function call",
        _ => "here",
    }
}

} // verus!
