//! What the library needs to know from the server it runs in.
//!
//! The library itself never calls the server. Where a decision depends on a catalog entry, a
//! type's input, output or comparison function, or the result of a statement, the deciding
//! function takes what is known so far and names the one thing that it needs next as a
//! [`Question`]. The caller finds the answer out, notes it, and asks for the decision again.
//!
//! Types, operators, procedures and collations are named by their object identifiers; a value
//! of a server type is named by its datum word, which the library only carries around.

use vstd::prelude::*;
use crate::index_storage::opt_text;

verus! {

/// The object identifier that names nothing.
pub const INVALID_OID: u32 = 0;

/// One thing to find out from the server.
#[derive(Clone, Debug, PartialEq)]
pub enum Question {
    /// Which btree strategy the operator has in the default operator family of the type.
    Strategy { opno: u32, typ: u32 },
    /// The operator's name.
    OperatorName { opno: u32 },
    /// The value's text by the type's output function.
    Render { typ: u32, value: u64 },
    /// The type's SQL name.
    SqlType { typ: u32 },
    /// The elements of an array constant.
    ArrayElements { typ: u32, value: u64 },
    /// The type's default btree comparison procedure.
    CompareProc { typ: u32 },
    /// The procedure of the type's default btree operator family that compares the type's values
    /// with those of another type.
    CrossProc { typ: u32, other: u32 },
    /// The value a constant of the query denotes, by the type's input function. The same
    /// constant comes up for every partition of a table.
    ParseConst { typ: u32, text: String },
    /// The value a stored text denotes, by the type's input function.
    Parse { typ: u32, text: String },
    /// How two values compare.
    Compare { proc: u32, collation: u32, left: u64, right: u64 },
    /// How the value that a text denotes, by the type's input function, compares with the value
    /// that the text was made of.
    ReadBack { typ: u32, proc: u32, collation: u32, text: String, value: u64 },
    /// The truth value a statement selects.
    SelectBool { sql: String },
    /// The text a statement selects.
    SelectText { sql: String },
}

/// What a [`Question`] says, with its texts as character sequences.
pub enum QuestionModel {
    Strategy { opno: u32, typ: u32 },
    OperatorName { opno: u32 },
    Render { typ: u32, value: u64 },
    SqlType { typ: u32 },
    ArrayElements { typ: u32, value: u64 },
    CompareProc { typ: u32 },
    CrossProc { typ: u32, other: u32 },
    ParseConst { typ: u32, text: Seq<char> },
    Parse { typ: u32, text: Seq<char> },
    Compare { proc: u32, collation: u32, left: u64, right: u64 },
    ReadBack { typ: u32, proc: u32, collation: u32, text: Seq<char>, value: u64 },
    SelectBool { sql: Seq<char> },
    SelectText { sql: Seq<char> },
}

impl View for Question {
    type V = QuestionModel;

    open spec fn view(&self) -> QuestionModel {
        match *self {
            Question::Strategy { opno, typ } => QuestionModel::Strategy { opno, typ },
            Question::OperatorName { opno } => QuestionModel::OperatorName { opno },
            Question::Render { typ, value } => QuestionModel::Render { typ, value },
            Question::SqlType { typ } => QuestionModel::SqlType { typ },
            Question::ArrayElements { typ, value } => QuestionModel::ArrayElements { typ, value },
            Question::CompareProc { typ } => QuestionModel::CompareProc { typ },
            Question::CrossProc { typ, other } => QuestionModel::CrossProc { typ, other },
            Question::ParseConst { typ, text } => QuestionModel::ParseConst { typ, text: text@ },
            Question::Parse { typ, text } => QuestionModel::Parse { typ, text: text@ },
            Question::Compare { proc, collation, left, right } => QuestionModel::Compare {
                proc,
                collation,
                left,
                right,
            },
            Question::ReadBack { typ, proc, collation, text, value } => QuestionModel::ReadBack {
                typ,
                proc,
                collation,
                text: text@,
                value,
            },
            Question::SelectBool { sql } => QuestionModel::SelectBool { sql: sql@ },
            Question::SelectText { sql } => QuestionModel::SelectText { sql: sql@ },
        }
    }
}

/// One element of an array constant: its datum word, and what its output function gave.
#[derive(Clone, Debug, PartialEq)]
pub struct ArrayElem {
    pub is_null: bool,
    pub value: u64,
    pub text: Option<String>,
}

/// An array constant.
#[derive(Clone, Debug, PartialEq)]
pub struct ArrayConst {
    /// The type of the elements.
    pub elem_type: u32,
    pub elems: Vec<ArrayElem>,
}

/// What an [`ArrayElem`] says: nothing for a null element, otherwise its value, and its text if it
/// has one.
pub open spec fn elem_model(e: ArrayElem) -> Option<(u64, Option<Seq<char>>)> {
    if e.is_null {
        None
    } else {
        Some((e.value, opt_text(e.text)))
    }
}

pub open spec fn elem_models(v: Seq<ArrayElem>) -> Seq<Option<(u64, Option<Seq<char>>)>> {
    Seq::new(v.len(), |i: int| elem_model(v[i]))
}

/// What became of a statement that selects a text.
#[derive(Clone, Debug, PartialEq)]
pub enum Selection {
    /// The server could not carry the statement out.
    Failed,
    /// It selected null.
    Null,
    Text(String),
}

/// What a [`Selection`] says.
pub enum SelectionModel {
    Failed,
    Null,
    Text(Seq<char>),
}

impl View for Selection {
    type V = SelectionModel;

    open spec fn view(&self) -> SelectionModel {
        match *self {
            Selection::Failed => SelectionModel::Failed,
            Selection::Null => SelectionModel::Null,
            Selection::Text(t) => SelectionModel::Text(t@),
        }
    }
}

/// What the server said to a [`Question`].
#[derive(Clone, Debug, PartialEq)]
pub enum Answer {
    /// To [`Question::Strategy`].
    Strategy(Option<i16>),
    /// To [`Question::OperatorName`].
    OperatorName(Option<String>),
    /// To [`Question::Render`].
    Text(Option<String>),
    /// To [`Question::SqlType`].
    SqlType(Option<String>),
    /// To [`Question::ArrayElements`].
    Elements(Option<ArrayConst>),
    /// To [`Question::CompareProc`].
    Proc(Option<u32>),
    /// To [`Question::CrossProc`].
    CrossProc(Option<u32>),
    /// To [`Question::ParseConst`].
    Constant(Option<u64>),
    /// To [`Question::Parse`].
    Value(Option<u64>),
    /// To [`Question::Compare`].
    Comparison(i32),
    /// To [`Question::ReadBack`]; nothing where the text denotes no value.
    ReadBack(Option<i32>),
    /// To [`Question::SelectBool`].
    Truth(Option<bool>),
    /// To [`Question::SelectText`].
    Selected(Selection),
}

/// The server settings that decide how values are written as text, and how texts and the literals
/// of a statement are read.
pub open spec fn text_settings() -> Seq<(Seq<char>, Seq<char>)> {
    seq![
        ("DateStyle"@, "ISO, MDY"@),
        ("IntervalStyle"@, "postgres"@),
        ("extra_float_digits"@, "3"@),
        ("lc_monetary"@, "C"@),
        ("array_nulls"@, "on"@),
        ("standard_conforming_strings"@, "on"@),
    ]
}

/// The settings under which every text is written and read that the library asks for, by name and
/// value. A summary written in one session is read in others, so that all of them have to use the
/// same ones.
pub fn fixed_settings() -> (r: Vec<(&'static str, &'static str)>)
    ensures
        r@.len() == text_settings().len(),
        forall|i: int|
            0 <= i < r@.len() ==> ((#[trigger] r@[i]).0@, r@[i].1@) == text_settings()[i],
{
    let mut r: Vec<(&'static str, &'static str)> = Vec::new();
    r.push(("DateStyle", "ISO, MDY"));
    r.push(("IntervalStyle", "postgres"));
    r.push(("extra_float_digits", "3"));
    r.push(("lc_monetary", "C"));
    r.push(("array_nulls", "on"));
    r.push(("standard_conforming_strings", "on"));
    r
}

/// The type of object identifiers, which are written as numbers.
pub const OID_TYPE: u32 = 26;

/// The types whose texts are names of catalog objects, such as `regclass`.
pub open spec fn names_objects(typ: u32) -> bool {
    // regproc, regprocedure, regoper, regoperator, regclass, regtype
    ||| typ == 24 || typ == 2202 || typ == 2203 || typ == 2204 || typ == 2205 || typ == 2206
    // regconfig, regdictionary, regnamespace, regrole, regcollation
    ||| typ == 3734 || typ == 3769 || typ == 4089 || typ == 4096 || typ == 4191
}

/// The type whose output function writes the values of a type. How the name of a catalog object is
/// read depends on a session's search path; the object's number, which the types that name objects
/// read too, does not.
pub fn written_as(typ: u32) -> (r: u32)
    ensures
        r == (if names_objects(typ) {
            OID_TYPE
        } else {
            typ
        }),
{
    match typ {
        24 | 2202 | 2203 | 2204 | 2205 | 2206 | 3734 | 3769 | 4089 | 4096 | 4191 => OID_TYPE,
        _ => typ,
    }
}

/// An object identifier, where it names something.
pub open spec fn named(oid: u32) -> Option<u32> {
    if oid == INVALID_OID {
        None
    } else {
        Some(oid)
    }
}

/// The object identifier a catalog lookup found, if it found one.
pub fn found_oid(oid: u32) -> (r: Option<u32>)
    ensures
        r == named(oid),
{
    if oid == INVALID_OID {
        None
    } else {
        Some(oid)
    }
}

/// The strategy number a catalog lookup found; zero says that the operator is not a member
/// of the family. Only the low sixteen bits of a strategy number are kept.
pub open spec fn strategy_found(n: i32) -> Option<i16> {
    if n == 0 {
        None
    } else {
        Some(n as i16)
    }
}

pub fn found_strategy(n: i32) -> (r: Option<i16>)
    ensures
        r == strategy_found(n),
{
    if n == 0 {
        None
    } else {
        Some(#[verifier::truncate] (n as i16))
    }
}

} // verus!
