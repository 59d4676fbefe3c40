//! Planner-time pruning: which restriction clauses prove, from a partition's summary, that
//! the partition holds no matching row.

use vstd::prelude::*;
use crate::backend::{Answer, ArrayConst, ArrayElem, Question, QuestionModel};
use crate::index_storage::{col_models, opt_text, ColModel, ColSummary};
use crate::text::{quote_with, quoted, same_text};

verus! {

// ---- restriction clauses ---------------------------------------------------------

/// An operand of a restriction clause, as far as the pruning logic looks into it.
pub enum Operand {
    /// A column of the relation, with its type and collation.
    Var { attno: i16, vartype: u32, collation: u32 },
    /// A constant; `value` is its datum word.
    Const { consttype: u32, value: u64, is_null: bool },
    /// A binary-compatible relabelling of another operand as a type.
    Relabel { typ: u32, arg: Box<Operand> },
    /// Anything else, or no operand at all.
    Other,
}

/// Which null test a clause makes.
#[derive(Clone, Copy, Debug, PartialEq, Eq, Structural)]
pub enum NullTestKind {
    IsNull,
    IsNotNull,
    Other,
}

/// A clause without boolean structure of its own.
pub enum LeafExpr {
    /// An operator applied to its operands.
    Op { opno: u32, inputcollid: u32, args: Vec<Operand> },
    /// `arg IS [NOT] NULL`; `arg_is_row` says that the test is made field by field.
    NullTest { kind: NullTestKind, arg_is_row: bool, arg: Operand },
    /// `left op ANY (right)` where `use_or` holds, `left op ALL (right)` otherwise.
    ScalarArrayOp { opno: u32, inputcollid: u32, use_or: bool, args: Vec<Operand> },
    /// Any other expression.
    Other,
}

/// A leaf of a clause tree; `id` names it among the leaves of one relation's clauses.
pub struct Leaf {
    pub id: usize,
    pub expr: LeafExpr,
}

#[derive(Clone, Copy, Debug, PartialEq, Eq, Structural)]
pub enum BoolOp {
    And,
    Or,
    Not,
}

/// A restriction clause.
pub enum Clause {
    Bool { op: BoolOp, args: Vec<Clause> },
    Leaf(Leaf),
}

/// An operand without its relabellings.
pub open spec fn bare(o: Operand) -> Operand
    decreases o,
{
    match o {
        Operand::Relabel { arg, .. } => bare(*arg),
        _ => o,
    }
}

/// The operand below all relabellings.
pub fn strip_relabel(o: &Operand) -> (r: &Operand)
    ensures
        *r == bare(*o),
    decreases *o,
{
    match o {
        Operand::Relabel { arg, .. } => strip_relabel(arg),
        _ => o,
    }
}

/// The type that an operand has for the operator it stands under.
pub open spec fn seen_type(o: Operand) -> u32 {
    match o {
        Operand::Var { vartype, .. } => vartype,
        Operand::Const { consttype, .. } => consttype,
        Operand::Relabel { typ, .. } => typ,
        Operand::Other => 0,
    }
}

fn type_seen(o: &Operand) -> (r: u32)
    ensures
        r == seen_type(*o),
{
    match o {
        Operand::Var { vartype, .. } => *vartype,
        Operand::Const { consttype, .. } => *consttype,
        Operand::Relabel { typ, .. } => *typ,
        Operand::Other => 0,
    }
}

// ---- clause extraction -----------------------------------------------------------

/// A clause the summaries can decide.
#[derive(Clone, Debug, PartialEq)]
pub enum QualSpec {
    /// `Var op Const`: decided by the column type's btree comparison. The constant is `value`, of
    /// type `other`; `const_text` is its text.
    Compare {
        attnum: i16,
        strategy: i16,
        typ: u32,
        collation: u32,
        other: u32,
        value: u64,
        const_text: String,
    },
    /// `Var IS [NOT] NULL`: decided by the summary's null flags.
    Null { attnum: i16, is_null: bool },
    /// `Var IN (constants)` or `Var = ANY (constant array)`: prunes where no listed value
    /// falls into the column's range.
    InList {
        attnum: i16,
        typ: u32,
        collation: u32,
        elem_type: u32,
        elems: Vec<Option<ListElem>>,
    },
    /// `Var && Const`: prunes where the column's extent does not overlap the constant.
    Overlap { attnum: i16, const_text: String, const_type: String },
}

/// A list element that is not null: its datum word and its text.
#[derive(Clone, Debug, PartialEq)]
pub struct ListElem {
    pub value: u64,
    pub text: String,
}

/// What a [`QualSpec`] says, with its texts as character sequences.
pub enum QualModel {
    Compare {
        attnum: i16,
        strategy: i16,
        typ: u32,
        collation: u32,
        other: u32,
        value: u64,
        const_text: Seq<char>,
    },
    Null { attnum: i16, is_null: bool },
    InList {
        attnum: i16,
        typ: u32,
        collation: u32,
        elem_type: u32,
        elems: Seq<Option<(u64, Seq<char>)>>,
    },
    Overlap { attnum: i16, const_text: Seq<char>, const_type: Seq<char> },
}

/// What an element of a list says.
pub open spec fn listed(e: Option<ListElem>) -> Option<(u64, Seq<char>)> {
    match e {
        Some(x) => Some((x.value, x.text@)),
        None => None,
    }
}

pub open spec fn list_models(v: Seq<Option<ListElem>>) -> Seq<Option<(u64, Seq<char>)>> {
    Seq::new(v.len(), |i: int| listed(v[i]))
}

impl View for QualSpec {
    type V = QualModel;

    open spec fn view(&self) -> QualModel {
        match *self {
            QualSpec::Compare {
                attnum,
                strategy,
                typ,
                collation,
                other,
                value,
                const_text,
            } => {
                QualModel::Compare {
                    attnum,
                    strategy,
                    typ,
                    collation,
                    other,
                    value,
                    const_text: const_text@,
                }
            },
            QualSpec::Null { attnum, is_null } => QualModel::Null { attnum, is_null },
            QualSpec::InList { attnum, typ, collation, elem_type, elems } => QualModel::InList {
                attnum,
                typ,
                collation,
                elem_type,
                elems: list_models(elems@),
            },
            QualSpec::Overlap { attnum, const_text, const_type } => QualModel::Overlap {
                attnum,
                const_text: const_text@,
                const_type: const_type@,
            },
        }
    }
}

/// What is known of the server for one leaf's extraction; `None` is not known yet.
#[derive(Clone, Debug, PartialEq)]
pub struct ExtractFacts {
    pub strategy: Option<Option<i16>>,
    pub operator_name: Option<Option<String>>,
    pub text: Option<Option<String>>,
    pub sql_type: Option<Option<String>>,
    pub elems: Option<Option<ArrayConst>>,
}

/// An extraction: the next question, or the clause that came out, if any did.
#[derive(Clone, Debug, PartialEq)]
pub enum Extraction {
    Ask(Question),
    Found(Option<QualSpec>),
}

/// What an [`Extraction`] says.
pub enum ExtractionModel {
    Ask(QuestionModel),
    Found(Option<QualModel>),
}

impl View for Extraction {
    type V = ExtractionModel;

    open spec fn view(&self) -> ExtractionModel {
        match *self {
            Extraction::Ask(q) => ExtractionModel::Ask(q@),
            Extraction::Found(None) => ExtractionModel::Found(None),
            Extraction::Found(Some(q)) => ExtractionModel::Found(Some(q@)),
        }
    }
}

impl ExtractFacts {
    /// Nothing known yet.
    pub fn new() -> (r: Self)
        ensures
            r.strategy is None,
            r.operator_name is None,
            r.text is None,
            r.sql_type is None,
            r.elems is None,
    {
        ExtractFacts {
            strategy: None,
            operator_name: None,
            text: None,
            sql_type: None,
            elems: None,
        }
    }
}

/// The strategy of the operator that holds with its operands exchanged.
pub open spec fn commuted(strategy: i16) -> i16 {
    if 1 <= strategy <= 5 {
        (6 - strategy) as i16
    } else {
        strategy
    }
}

/// `c op x` as a comparison of `x`: `<` becomes `>`, `<=` becomes `>=`, and so on.
pub fn commute_strategy(strategy: i16) -> (r: i16)
    ensures
        r == commuted(strategy),
{
    if strategy == 1 {
        5
    } else if strategy == 2 {
        4
    } else if strategy == 4 {
        2
    } else if strategy == 5 {
        1
    } else {
        strategy
    }
}

/// A column compared with a constant.
#[derive(Clone, Copy, Debug, PartialEq, Eq, Structural)]
pub struct ColumnAndConst {
    pub attnum: i16,
    pub vartype: u32,
    /// The column's collation.
    pub collation: u32,
    pub consttype: u32,
    /// The type that the constant has for the operator.
    pub seen_as: u32,
    pub value: u64,
    /// The constant stood on the left.
    pub commuted: bool,
}

/// Two operands, one a user column and the other a constant that is not null.
pub open spec fn column_and_const(args: Seq<Operand>) -> Option<ColumnAndConst> {
    if args.len() != 2 {
        None
    } else {
        match (bare(args[0]), bare(args[1])) {
            (
                Operand::Var { attno, vartype, collation },
                Operand::Const { consttype, value, is_null },
            ) => {
                if attno > 0 && !is_null {
                    Some(
                        ColumnAndConst {
                            attnum: attno,
                            vartype,
                            collation,
                            consttype,
                            seen_as: seen_type(args[1]),
                            value,
                            commuted: false,
                        },
                    )
                } else {
                    None
                }
            },
            (
                Operand::Const { consttype, value, is_null },
                Operand::Var { attno, vartype, collation },
            ) => {
                if attno > 0 && !is_null {
                    Some(
                        ColumnAndConst {
                            attnum: attno,
                            vartype,
                            collation,
                            consttype,
                            seen_as: seen_type(args[0]),
                            value,
                            commuted: true,
                        },
                    )
                } else {
                    None
                }
            },
            _ => None,
        }
    }
}

fn column_against_const(args: &Vec<Operand>) -> (r: Option<ColumnAndConst>)
    ensures
        r == column_and_const(args@),
{
    if args.len() != 2 {
        return None;
    }
    match (strip_relabel(&args[0]), strip_relabel(&args[1])) {
        (
            Operand::Var { attno, vartype, collation },
            Operand::Const { consttype, value, is_null },
        ) => {
            if *attno <= 0 || *is_null {
                None
            } else {
                Some(
                    ColumnAndConst {
                        attnum: *attno,
                        vartype: *vartype,
                        collation: *collation,
                        consttype: *consttype,
                        seen_as: type_seen(&args[1]),
                        value: *value,
                        commuted: false,
                    },
                )
            }
        },
        (
            Operand::Const { consttype, value, is_null },
            Operand::Var { attno, vartype, collation },
        ) => {
            if *attno <= 0 || *is_null {
                None
            } else {
                Some(
                    ColumnAndConst {
                        attnum: *attno,
                        vartype: *vartype,
                        collation: *collation,
                        consttype: *consttype,
                        seen_as: type_seen(&args[0]),
                        value: *value,
                        commuted: true,
                    },
                )
            }
        },
        _ => None,
    }
}

/// The strategy of a comparison as seen from its column.
pub open spec fn column_strategy(c: ColumnAndConst, strategy: i16) -> i16 {
    if c.commuted {
        commuted(strategy)
    } else {
        strategy
    }
}

/// What becomes of an operator clause, given what is known: a btree comparison where the
/// operator has one of the five strategies over the column's type and compares under the column's
/// collation, an overlap test where it has no strategy there and is called `&&`, nothing
/// otherwise. Under another collation the summary's bounds need not be the extremes.
pub open spec fn op_extraction(
    opno: u32,
    inputcollid: u32,
    args: Seq<Operand>,
    facts: ExtractFacts,
) -> ExtractionModel {
    match column_and_const(args) {
        None => ExtractionModel::Found(None),
        Some(c) => match facts.strategy {
            None => ExtractionModel::Ask(QuestionModel::Strategy { opno, typ: c.vartype }),
            Some(Some(s)) => if 1 <= column_strategy(c, s) <= 5 && inputcollid == c.collation {
                match facts.text {
                    None => ExtractionModel::Ask(
                        QuestionModel::Render { typ: c.consttype, value: c.value },
                    ),
                    Some(None) => ExtractionModel::Found(None),
                    Some(Some(t)) => ExtractionModel::Found(
                        Some(
                            QualModel::Compare {
                                attnum: c.attnum,
                                strategy: column_strategy(c, s),
                                typ: c.vartype,
                                collation: inputcollid,
                                other: c.seen_as,
                                value: c.value,
                                const_text: t@,
                            },
                        ),
                    ),
                }
            } else {
                ExtractionModel::Found(None)
            },
            Some(None) => match facts.operator_name {
                None => ExtractionModel::Ask(QuestionModel::OperatorName { opno }),
                Some(name) => if opt_text(name) == Some("&&"@) {
                    match (facts.text, facts.sql_type) {
                        (None, _) => ExtractionModel::Ask(
                            QuestionModel::Render { typ: c.consttype, value: c.value },
                        ),
                        (Some(None), _) => ExtractionModel::Found(None),
                        (Some(Some(_)), None) => ExtractionModel::Ask(
                            QuestionModel::SqlType { typ: c.consttype },
                        ),
                        (Some(Some(_)), Some(None)) => ExtractionModel::Found(None),
                        (Some(Some(t)), Some(Some(n))) => ExtractionModel::Found(
                            Some(
                                QualModel::Overlap {
                                    attnum: c.attnum,
                                    const_text: t@,
                                    const_type: n@,
                                },
                            ),
                        ),
                    }
                } else {
                    ExtractionModel::Found(None)
                },
            },
        },
    }
}

/// Extracts `Var op Const` and `Const op Var`.
pub fn extract_opexpr(
    opno: u32,
    inputcollid: u32,
    args: &Vec<Operand>,
    facts: &ExtractFacts,
) -> (r: Extraction)
    ensures
        r@ == op_extraction(opno, inputcollid, args@, *facts),
{
    let c = match column_against_const(args) {
        Some(c) => c,
        None => return Extraction::Found(None),
    };
    match facts.strategy {
        None => Extraction::Ask(Question::Strategy { opno, typ: c.vartype }),
        Some(Some(found)) => {
            let strategy: i16 = if c.commuted {
                commute_strategy(found)
            } else {
                found
            };
            if 1 <= strategy && strategy <= 5 && inputcollid == c.collation {
                match &facts.text {
                    None => Extraction::Ask(Question::Render { typ: c.consttype, value: c.value }),
                    Some(None) => Extraction::Found(None),
                    Some(Some(t)) => Extraction::Found(
                        Some(
                            QualSpec::Compare {
                                attnum: c.attnum,
                                strategy,
                                typ: c.vartype,
                                collation: inputcollid,
                                other: c.seen_as,
                                value: c.value,
                                const_text: t.clone(),
                            },
                        ),
                    ),
                }
            } else {
                Extraction::Found(None)
            }
        },
        Some(None) => match &facts.operator_name {
            None => Extraction::Ask(Question::OperatorName { opno }),
            Some(None) => Extraction::Found(None),
            Some(Some(name)) => {
                if !same_text(name, "&&") {
                    return Extraction::Found(None);
                }
                match &facts.text {
                    None => Extraction::Ask(Question::Render { typ: c.consttype, value: c.value }),
                    Some(None) => Extraction::Found(None),
                    Some(Some(t)) => match &facts.sql_type {
                        None => Extraction::Ask(Question::SqlType { typ: c.consttype }),
                        Some(None) => Extraction::Found(None),
                        Some(Some(n)) => Extraction::Found(
                            Some(
                                QualSpec::Overlap {
                                    attnum: c.attnum,
                                    const_text: t.clone(),
                                    const_type: n.clone(),
                                },
                            ),
                        ),
                    },
                }
            },
        },
    }
}

/// What becomes of a null test: a null clause where it tests a user column as a whole. A test made
/// field by field also holds of values that are not null, so that the flags do not decide it.
pub open spec fn null_test_qual(kind: NullTestKind, arg_is_row: bool, arg: Operand) -> Option<
    QualModel,
> {
    match bare(arg) {
        Operand::Var { attno, .. } => if attno > 0 && !arg_is_row && kind != NullTestKind::Other {
            Some(QualModel::Null { attnum: attno, is_null: kind == NullTestKind::IsNull })
        } else {
            None
        },
        _ => None,
    }
}

/// Extracts `Var IS [NOT] NULL`.
pub fn extract_nulltest(kind: NullTestKind, arg_is_row: bool, arg: &Operand) -> (r: Option<
    QualSpec,
>)
    ensures
        match r {
            Some(q) => null_test_qual(kind, arg_is_row, *arg) == Some(q@),
            None => null_test_qual(kind, arg_is_row, *arg) is None,
        },
{
    if arg_is_row {
        return None;
    }
    match strip_relabel(arg) {
        Operand::Var { attno, .. } => {
            if *attno <= 0 {
                return None;
            }
            match kind {
                NullTestKind::IsNull => Some(QualSpec::Null { attnum: *attno, is_null: true }),
                NullTestKind::IsNotNull => Some(QualSpec::Null { attnum: *attno, is_null: false }),
                NullTestKind::Other => None,
            }
        },
        _ => None,
    }
}

/// Every element that is not null has its text.
pub open spec fn all_rendered(elems: Seq<ArrayElem>) -> bool {
    forall|i: int| 0 <= i < elems.len() ==> (#[trigger] elems[i]).is_null || elems[i].text is Some
}

/// The elements with their texts, nothing in the place of a null element.
pub open spec fn elem_texts(elems: Seq<ArrayElem>) -> Seq<Option<(u64, Seq<char>)>> {
    Seq::new(
        elems.len(),
        |i: int|
            match elems[i].text {
                Some(t) => if elems[i].is_null {
                    None
                } else {
                    Some((elems[i].value, t@))
                },
                None => None,
            },
    )
}

/// The elements of an array constant with their texts. Where an element that is not null could not
/// be rendered there is no list: such an element could still match.
pub fn array_const_texts(elems: &Vec<ArrayElem>) -> (r: Option<Vec<Option<ListElem>>>)
    ensures
        r is Some == all_rendered(elems@),
        r matches Some(v) ==> list_models(v@) == elem_texts(elems@),
{
    let mut out: Vec<Option<ListElem>> = Vec::new();
    let mut i: usize = 0;
    while i < elems.len()
        invariant
            0 <= i <= elems@.len(),
            out@.len() == i,
            forall|j: int|
                0 <= j < i ==> (#[trigger] elems@[j]).is_null || elems@[j].text is Some,
            forall|j: int| 0 <= j < i ==> listed(#[trigger] out@[j]) == elem_texts(elems@)[j],
        decreases elems@.len() - i,
    {
        if elems[i].is_null {
            out.push(None);
        } else {
            match &elems[i].text {
                Some(t) => out.push(Some(ListElem { value: elems[i].value, text: t.clone() })),
                None => {
                    assert(!(elems@[i as int].is_null || elems@[i as int].text is Some));
                    return None;
                },
            }
        }
        i += 1;
    }
    assert(list_models(out@) =~= elem_texts(elems@));
    Some(out)
}

/// What becomes of an array operator clause: an in-list where it is `Var = ANY (Const)` for
/// the type's btree equality, under the column's collation, and every element could be rendered.
pub open spec fn array_op_extraction(
    opno: u32,
    inputcollid: u32,
    use_or: bool,
    args: Seq<Operand>,
    facts: ExtractFacts,
) -> ExtractionModel {
    match column_and_const(args) {
        None => ExtractionModel::Found(None),
        Some(c) => if !use_or || c.commuted {
            ExtractionModel::Found(None)
        } else {
            match (facts.strategy, facts.elems) {
                (None, _) => ExtractionModel::Ask(
                    QuestionModel::Strategy { opno, typ: c.vartype },
                ),
                (Some(s), known) => if s != Some(3i16) || inputcollid != c.collation {
                    ExtractionModel::Found(None)
                } else {
                    match known {
                        None => ExtractionModel::Ask(
                            QuestionModel::ArrayElements { typ: c.consttype, value: c.value },
                        ),
                        Some(None) => ExtractionModel::Found(None),
                        Some(Some(v)) => if all_rendered(v.elems@) {
                            ExtractionModel::Found(
                                Some(
                                    QualModel::InList {
                                        attnum: c.attnum,
                                        typ: c.vartype,
                                        collation: inputcollid,
                                        elem_type: v.elem_type,
                                        elems: elem_texts(v.elems@),
                                    },
                                ),
                            )
                        } else {
                            ExtractionModel::Found(None)
                        },
                    }
                },
            }
        },
    }
}

/// Extracts `Var = ANY (Const)`.
pub fn extract_saop(
    opno: u32,
    inputcollid: u32,
    use_or: bool,
    args: &Vec<Operand>,
    facts: &ExtractFacts,
) -> (r: Extraction)
    ensures
        r@ == array_op_extraction(opno, inputcollid, use_or, args@, *facts),
{
    if !use_or {
        return Extraction::Found(None);
    }
    let c = match column_against_const(args) {
        Some(c) => c,
        None => return Extraction::Found(None),
    };
    if c.commuted {
        return Extraction::Found(None);
    }
    match facts.strategy {
        None => return Extraction::Ask(Question::Strategy { opno, typ: c.vartype }),
        // Only the equality operator gives the "any element in range" meaning.
        Some(Some(3)) => {},
        Some(_) => return Extraction::Found(None),
    }
    if inputcollid != c.collation {
        return Extraction::Found(None);
    }
    match &facts.elems {
        None => Extraction::Ask(Question::ArrayElements { typ: c.consttype, value: c.value }),
        Some(None) => Extraction::Found(None),
        Some(Some(v)) => match array_const_texts(&v.elems) {
            Some(elems) => Extraction::Found(
                Some(
                    QualSpec::InList {
                        attnum: c.attnum,
                        typ: c.vartype,
                        collation: inputcollid,
                        elem_type: v.elem_type,
                        elems,
                    },
                ),
            ),
            None => Extraction::Found(None),
        },
    }
}

/// What becomes of a leaf clause, given what is known.
pub open spec fn extraction(expr: LeafExpr, facts: ExtractFacts) -> ExtractionModel {
    match expr {
        LeafExpr::Op { opno, inputcollid, args } => op_extraction(opno, inputcollid, args@, facts),
        LeafExpr::NullTest { kind, arg_is_row, arg } => ExtractionModel::Found(
            null_test_qual(kind, arg_is_row, arg),
        ),
        LeafExpr::ScalarArrayOp { opno, inputcollid, use_or, args } => array_op_extraction(
            opno,
            inputcollid,
            use_or,
            args@,
            facts,
        ),
        LeafExpr::Other => ExtractionModel::Found(None),
    }
}

/// Extracts a clause the summaries can decide from a leaf, if it is one.
pub fn extract_qual(expr: &LeafExpr, facts: &ExtractFacts) -> (r: Extraction)
    ensures
        r@ == extraction(*expr, *facts),
{
    match expr {
        LeafExpr::Op { opno, inputcollid, args } => extract_opexpr(
            *opno,
            *inputcollid,
            args,
            facts,
        ),
        LeafExpr::NullTest { kind, arg_is_row, arg } => Extraction::Found(
            extract_nulltest(*kind, *arg_is_row, arg),
        ),
        LeafExpr::ScalarArrayOp { opno, inputcollid, use_or, args } => extract_saop(
            *opno,
            *inputcollid,
            *use_or,
            args,
            facts,
        ),
        LeafExpr::Other => Extraction::Found(None),
    }
}

// ---- evaluation against a summary ------------------------------------------------

/// What is known of the server for one clause's evaluation; `None` is not known yet.
#[derive(Clone, Copy, Debug, PartialEq, Eq, Structural)]
pub struct EvalFacts {
    /// The comparison procedure of the column's type.
    pub proc: Option<Option<u32>>,
    /// The procedure that compares the column's type with the constants'.
    pub cross: Option<Option<u32>>,
    /// The constant, or the list element looked at, as a value of the column's type.
    pub konst: Option<Option<u64>>,
    /// How that value compares with the constant itself.
    pub same: Option<i32>,
    /// The summary's minimum and maximum as values.
    pub min: Option<Option<u64>>,
    pub max: Option<Option<u64>>,
    /// The results of the first and the second comparison.
    pub first: Option<i32>,
    pub second: Option<i32>,
    /// The list elements before this one are null or out of range.
    pub next: usize,
    /// Whether the server found extent and constant disjoint.
    pub disjoint: Option<Option<bool>>,
}

impl EvalFacts {
    pub open spec fn nothing() -> EvalFacts {
        EvalFacts {
            proc: None,
            cross: None,
            konst: None,
            same: None,
            min: None,
            max: None,
            first: None,
            second: None,
            next: 0,
            disjoint: None,
        }
    }

    /// Nothing known yet.
    pub fn new() -> (r: Self)
        ensures
            r == EvalFacts::nothing(),
    {
        EvalFacts {
            proc: None,
            cross: None,
            konst: None,
            same: None,
            min: None,
            max: None,
            first: None,
            second: None,
            next: 0,
            disjoint: None,
        }
    }

    /// The facts with which the element after the current one is looked at.
    pub open spec fn advanced(self) -> EvalFacts {
        EvalFacts {
            konst: None,
            same: None,
            first: None,
            second: None,
            next: (self.next + 1) as usize,
            ..self
        }
    }
}

/// An evaluation: the next question, or whether the clause proves that no row matches.
#[derive(Clone, Debug, PartialEq)]
pub enum Evaluation {
    Ask(Question),
    Verdict(bool),
}

/// What an [`Evaluation`] says.
pub enum EvaluationModel {
    Ask(QuestionModel),
    Verdict(bool),
}

impl View for Evaluation {
    type V = EvaluationModel;

    open spec fn view(&self) -> EvaluationModel {
        match *self {
            Evaluation::Ask(q) => EvaluationModel::Ask(q@),
            Evaluation::Verdict(b) => EvaluationModel::Verdict(b),
        }
    }
}

/// The comparison of two values as a question.
pub open spec fn comparison(proc: u32, collation: u32, left: u64, right: u64) -> EvaluationModel {
    EvaluationModel::Ask(QuestionModel::Compare { proc, collation, left, right })
}

/// The evaluation of `col op constant` once constant and bounds are values:
/// `col < K` proves where min >= K, `col <= K` where min > K, `col = K` where K lies outside
/// of [min, max], `col >= K` where max < K, `col > K` where max <= K.
pub open spec fn bounds_evaluation(
    strategy: i16,
    proc: u32,
    collation: u32,
    k: u64,
    min: u64,
    max: u64,
    facts: EvalFacts,
) -> EvaluationModel {
    if strategy == 1 {
        match facts.first {
            None => comparison(proc, collation, min, k),
            Some(c) => EvaluationModel::Verdict(c >= 0),
        }
    } else if strategy == 2 {
        match facts.first {
            None => comparison(proc, collation, min, k),
            Some(c) => EvaluationModel::Verdict(c > 0),
        }
    } else if strategy == 3 {
        match (facts.first, facts.second) {
            (None, _) => comparison(proc, collation, k, min),
            (Some(c), second) => if c < 0 {
                EvaluationModel::Verdict(true)
            } else {
                match second {
                    None => comparison(proc, collation, k, max),
                    Some(d) => EvaluationModel::Verdict(d > 0),
                }
            },
        }
    } else if strategy == 4 {
        match facts.first {
            None => comparison(proc, collation, max, k),
            Some(c) => EvaluationModel::Verdict(c < 0),
        }
    } else if strategy == 5 {
        match facts.first {
            None => comparison(proc, collation, max, k),
            Some(c) => EvaluationModel::Verdict(c <= 0),
        }
    } else {
        EvaluationModel::Verdict(false)
    }
}

/// The evaluation of `col op constant`. Without a range, without comparison procedures, or where a
/// text does not convert, nothing is proved; nor where the constant's text denotes, in the
/// column's type, a value that is not the constant's own.
pub open spec fn compare_evaluation(
    row: ColModel,
    strategy: i16,
    typ: u32,
    collation: u32,
    other: u32,
    value: u64,
    const_text: Seq<char>,
    facts: EvalFacts,
) -> EvaluationModel {
    match (row.min, row.max) {
        (Some(lo), Some(hi)) => match (facts.proc, facts.cross, facts.konst) {
            (None, _, _) => EvaluationModel::Ask(QuestionModel::CompareProc { typ }),
            (Some(None), _, _) => EvaluationModel::Verdict(false),
            (_, None, _) => EvaluationModel::Ask(
                QuestionModel::CrossProc { typ, other },
            ),
            (_, Some(None), _) => EvaluationModel::Verdict(false),
            (_, _, None) => EvaluationModel::Ask(
                QuestionModel::ParseConst { typ, text: const_text },
            ),
            (_, _, Some(None)) => EvaluationModel::Verdict(false),
            (Some(Some(proc)), Some(Some(cross)), Some(Some(k))) => match (
                facts.same,
                facts.min,
                facts.max,
            ) {
                (None, _, _) => comparison(cross, collation, k, value),
                (Some(c), min, max) => if c != 0 {
                    EvaluationModel::Verdict(false)
                } else {
                    match (min, max) {
                        (None, _) => EvaluationModel::Ask(
                            QuestionModel::Parse { typ, text: lo },
                        ),
                        (Some(None), _) => EvaluationModel::Verdict(false),
                        (_, None) => EvaluationModel::Ask(QuestionModel::Parse { typ, text: hi }),
                        (_, Some(None)) => EvaluationModel::Verdict(false),
                        (Some(Some(a)), Some(Some(b))) => bounds_evaluation(
                            strategy,
                            proc,
                            collation,
                            k,
                            a,
                            b,
                            facts,
                        ),
                    }
                },
            },
        },
        _ => EvaluationModel::Verdict(false),
    }
}

fn compare(proc: u32, collation: u32, left: u64, right: u64) -> (r: Evaluation)
    ensures
        r@ == comparison(proc, collation, left, right),
{
    Evaluation::Ask(Question::Compare { proc, collation, left, right })
}

/// Whether `col op constant` proves that the partition holds no match.
pub fn eval_compare(
    row: &ColSummary,
    strategy: i16,
    typ: u32,
    collation: u32,
    other: u32,
    value: u64,
    const_text: &String,
    facts: &EvalFacts,
) -> (r: Evaluation)
    ensures
        r@ == compare_evaluation(
            row@,
            strategy,
            typ,
            collation,
            other,
            value,
            const_text@,
            *facts,
        ),
{
    let (lo, hi) = match (&row.min, &row.max) {
        (Some(lo), Some(hi)) => (lo, hi),
        _ => return Evaluation::Verdict(false),
    };
    let proc: u32 = match facts.proc {
        None => return Evaluation::Ask(Question::CompareProc { typ }),
        Some(None) => return Evaluation::Verdict(false),
        Some(Some(p)) => p,
    };
    let cross: u32 = match facts.cross {
        None => return Evaluation::Ask(Question::CrossProc { typ, other }),
        Some(None) => return Evaluation::Verdict(false),
        Some(Some(p)) => p,
    };
    let k: u64 = match facts.konst {
        None => return Evaluation::Ask(Question::ParseConst { typ, text: const_text.clone() }),
        Some(None) => return Evaluation::Verdict(false),
        Some(Some(d)) => d,
    };
    match facts.same {
        None => return compare(cross, collation, k, value),
        Some(c) => if c != 0 {
            return Evaluation::Verdict(false);
        },
    }
    let min: u64 = match facts.min {
        None => return Evaluation::Ask(Question::Parse { typ, text: lo.clone() }),
        Some(None) => return Evaluation::Verdict(false),
        Some(Some(d)) => d,
    };
    let max: u64 = match facts.max {
        None => return Evaluation::Ask(Question::Parse { typ, text: hi.clone() }),
        Some(None) => return Evaluation::Verdict(false),
        Some(Some(d)) => d,
    };
    if strategy == 1 {
        match facts.first {
            None => compare(proc, collation, min, k),
            Some(c) => Evaluation::Verdict(c >= 0),
        }
    } else if strategy == 2 {
        match facts.first {
            None => compare(proc, collation, min, k),
            Some(c) => Evaluation::Verdict(c > 0),
        }
    } else if strategy == 3 {
        match facts.first {
            None => compare(proc, collation, k, min),
            Some(c) => if c < 0 {
                Evaluation::Verdict(true)
            } else {
                match facts.second {
                    None => compare(proc, collation, k, max),
                    Some(d) => Evaluation::Verdict(d > 0),
                }
            },
        }
    } else if strategy == 4 {
        match facts.first {
            None => compare(proc, collation, max, k),
            Some(c) => Evaluation::Verdict(c < 0),
        }
    } else if strategy == 5 {
        match facts.first {
            None => compare(proc, collation, max, k),
            Some(c) => Evaluation::Verdict(c <= 0),
        }
    } else {
        Evaluation::Verdict(false)
    }
}

/// The walk over a list of constants once procedures and bounds are values: null elements and
/// elements outside of [min, max] are passed over, an element inside (or one that does not
/// convert to its own value) ends the walk without a proof, and the end of the list proves.
pub open spec fn elements_evaluation(
    typ: u32,
    collation: u32,
    elems: Seq<Option<(u64, Seq<char>)>>,
    proc: u32,
    cross: u32,
    min: u64,
    max: u64,
    facts: EvalFacts,
) -> (EvalFacts, EvaluationModel)
    decreases elems.len() - facts.next,
{
    if facts.next >= elems.len() {
        (facts, EvaluationModel::Verdict(true))
    } else {
        // A list held in memory is never longer than `usize::MAX`.
        let passed = if facts.next < usize::MAX {
            elements_evaluation(typ, collation, elems, proc, cross, min, max, facts.advanced())
        } else {
            (facts, EvaluationModel::Verdict(false))
        };
        match elems[facts.next as int] {
            None => passed,
            Some((value, t)) => match facts.konst {
                None => (facts, EvaluationModel::Ask(QuestionModel::ParseConst { typ, text: t })),
                Some(None) => (facts, EvaluationModel::Verdict(false)),
                Some(Some(d)) => match (facts.same, facts.first, facts.second) {
                    (None, _, _) => (facts, comparison(cross, collation, d, value)),
                    (Some(c), first, second) => if c != 0 {
                        (facts, EvaluationModel::Verdict(false))
                    } else {
                        match first {
                            None => (facts, comparison(proc, collation, d, min)),
                            Some(c) => if c < 0 {
                                passed
                            } else {
                                match second {
                                    None => (facts, comparison(proc, collation, d, max)),
                                    Some(e) => if e <= 0 {
                                        (facts, EvaluationModel::Verdict(false))
                                    } else {
                                        passed
                                    },
                                }
                            },
                        }
                    },
                },
            },
        }
    }
}

/// The evaluation of `col IN (elems)`, with the facts as the walk leaves them.
pub open spec fn in_list_evaluation(
    row: ColModel,
    typ: u32,
    collation: u32,
    elem_type: u32,
    elems: Seq<Option<(u64, Seq<char>)>>,
    facts: EvalFacts,
) -> (EvalFacts, EvaluationModel) {
    match (row.min, row.max) {
        (Some(lo), Some(hi)) => match (facts.proc, facts.cross, facts.min, facts.max) {
            (None, _, _, _) => (facts, EvaluationModel::Ask(QuestionModel::CompareProc { typ })),
            (Some(None), _, _, _) => (facts, EvaluationModel::Verdict(false)),
            (_, None, _, _) => (
                facts,
                EvaluationModel::Ask(QuestionModel::CrossProc { typ, other: elem_type }),
            ),
            (_, Some(None), _, _) => (facts, EvaluationModel::Verdict(false)),
            (_, _, None, _) => (
                facts,
                EvaluationModel::Ask(QuestionModel::Parse { typ, text: lo }),
            ),
            (_, _, Some(None), _) => (facts, EvaluationModel::Verdict(false)),
            (_, _, _, None) => (
                facts,
                EvaluationModel::Ask(QuestionModel::Parse { typ, text: hi }),
            ),
            (_, _, _, Some(None)) => (facts, EvaluationModel::Verdict(false)),
            (Some(Some(proc)), Some(Some(cross)), Some(Some(min)), Some(Some(max))) => {
                elements_evaluation(typ, collation, elems, proc, cross, min, max, facts)
            },
        },
        _ => (facts, EvaluationModel::Verdict(false)),
    }
}

/// Whether `col IN (elems)` proves that the partition holds no match. `facts` moves on with
/// the elements that are settled.
pub fn eval_in_list(
    row: &ColSummary,
    typ: u32,
    collation: u32,
    elem_type: u32,
    elems: &Vec<Option<ListElem>>,
    facts: &mut EvalFacts,
) -> (r: Evaluation)
    ensures
        in_list_evaluation(row@, typ, collation, elem_type, list_models(elems@), *old(facts)) == (
            *final(facts),
            r@,
        ),
{
    let (lo, hi) = match (&row.min, &row.max) {
        (Some(lo), Some(hi)) => (lo, hi),
        _ => return Evaluation::Verdict(false),
    };
    let proc: u32 = match facts.proc {
        None => return Evaluation::Ask(Question::CompareProc { typ }),
        Some(None) => return Evaluation::Verdict(false),
        Some(Some(p)) => p,
    };
    let cross: u32 = match facts.cross {
        None => return Evaluation::Ask(Question::CrossProc { typ, other: elem_type }),
        Some(None) => return Evaluation::Verdict(false),
        Some(Some(p)) => p,
    };
    let min: u64 = match facts.min {
        None => return Evaluation::Ask(Question::Parse { typ, text: lo.clone() }),
        Some(None) => return Evaluation::Verdict(false),
        Some(Some(d)) => d,
    };
    let max: u64 = match facts.max {
        None => return Evaluation::Ask(Question::Parse { typ, text: hi.clone() }),
        Some(None) => return Evaluation::Verdict(false),
        Some(Some(d)) => d,
    };
    let ghost models = list_models(elems@);
    let ghost outcome = elements_evaluation(typ, collation, models, proc, cross, min, max, *facts);
    while facts.next < elems.len()
        invariant
            models == list_models(elems@),
            outcome == elements_evaluation(typ, collation, models, proc, cross, min, max, *facts),
            in_list_evaluation(row@, typ, collation, elem_type, models, *old(facts)) == outcome,
        decreases elems@.len() - facts.next,
    {
        match &elems[facts.next] {
            None => {},
            Some(e) => match facts.konst {
                None => return Evaluation::Ask(
                    Question::ParseConst { typ, text: e.text.clone() },
                ),
                Some(None) => return Evaluation::Verdict(false),
                Some(Some(d)) => {
                    match facts.same {
                        None => return compare(cross, collation, d, e.value),
                        Some(c) => if c != 0 {
                            return Evaluation::Verdict(false);
                        },
                    }
                    match facts.first {
                        None => return compare(proc, collation, d, min),
                        Some(c) => if c >= 0 {
                            match facts.second {
                                None => return compare(proc, collation, d, max),
                                Some(x) => if x <= 0 {
                                    return Evaluation::Verdict(false);
                                },
                            }
                        },
                    }
                },
            },
        }
        facts.konst = None;
        facts.same = None;
        facts.first = None;
        facts.second = None;
        facts.next = facts.next + 1;
    }
    Evaluation::Verdict(true)
}

/// A text as an SQL string literal: between single quotes, the ones inside doubled.
pub fn sql_literal(s: &str) -> (r: String)
    ensures
        r@ == quoted(s@, '\''),
{
    quote_with(s, '\'')
}

/// The statement that tells whether an extent and a constant are disjoint.
pub open spec fn disjoint_statement(
    extent: Seq<char>,
    extent_type: Seq<char>,
    konst: Seq<char>,
    const_type: Seq<char>,
) -> Seq<char> {
    "SELECT NOT (CAST("@ + quoted(extent, '\'') + " AS "@ + extent_type + ") && CAST("@ + quoted(
        konst,
        '\'',
    ) + " AS "@ + const_type + "))"@
}

fn disjoint_sql(extent: &str, extent_type: &str, konst: &str, const_type: &str) -> (r: String)
    ensures
        r@ == disjoint_statement(extent@, extent_type@, konst@, const_type@),
{
    let mut sql = "SELECT NOT (CAST(".to_string();
    sql.append(&sql_literal(extent));
    sql.append(" AS ");
    sql.append(extent_type);
    sql.append(") && CAST(");
    sql.append(&sql_literal(konst));
    sql.append(" AS ");
    sql.append(const_type);
    sql.append("))");
    sql
}

/// The evaluation of `col && constant`: the server tells whether the stored extent and the
/// constant are disjoint. Without an extent or a type name, and wherever the server gives no
/// answer, nothing is proved.
pub open spec fn overlap_evaluation(
    row: ColModel,
    const_text: Seq<char>,
    const_type: Seq<char>,
    facts: EvalFacts,
) -> EvaluationModel {
    match row.min {
        None => EvaluationModel::Verdict(false),
        Some(extent) => if row.sql_type.len() == 0 {
            EvaluationModel::Verdict(false)
        } else {
            match facts.disjoint {
                None => EvaluationModel::Ask(
                    QuestionModel::SelectBool {
                        sql: disjoint_statement(extent, row.sql_type, const_text, const_type),
                    },
                ),
                Some(answer) => EvaluationModel::Verdict(answer == Some(true)),
            }
        },
    }
}

/// Whether `col && constant` proves that the partition holds no match.
pub fn eval_overlap(
    row: &ColSummary,
    const_text: &String,
    const_type: &String,
    facts: &EvalFacts,
) -> (r: Evaluation)
    ensures
        r@ == overlap_evaluation(row@, const_text@, const_type@, *facts),
{
    let extent = match &row.min {
        Some(e) => e,
        None => return Evaluation::Verdict(false),
    };
    if row.sql_type.as_str().is_empty() {
        return Evaluation::Verdict(false);
    }
    match facts.disjoint {
        None => Evaluation::Ask(
            Question::SelectBool {
                sql: disjoint_sql(extent, &row.sql_type, const_text, const_type),
            },
        ),
        Some(Some(answer)) => Evaluation::Verdict(answer),
        Some(None) => Evaluation::Verdict(false),
    }
}

/// The column a clause is about.
pub open spec fn qual_attnum(q: QualModel) -> i16 {
    match q {
        QualModel::Compare { attnum, .. } => attnum,
        QualModel::Null { attnum, .. } => attnum,
        QualModel::InList { attnum, .. } => attnum,
        QualModel::Overlap { attnum, .. } => attnum,
    }
}

/// The evaluation of a clause against its column's summary, with the facts as it leaves
/// them. Null flags count for both kinds of summary, comparisons and lists only for a btree
/// range, overlaps only for an extent.
pub open spec fn qual_evaluation(q: QualModel, row: ColModel, facts: EvalFacts) -> (
    EvalFacts,
    EvaluationModel,
) {
    match q {
        QualModel::Null { is_null, .. } => (
            facts,
            EvaluationModel::Verdict(
                if is_null {
                    !row.has_nulls
                } else {
                    row.all_nulls
                },
            ),
        ),
        QualModel::Compare { strategy, typ, collation, other, value, const_text, .. } => {
            if row.overlap {
                (facts, EvaluationModel::Verdict(false))
            } else {
                (
                    facts,
                    compare_evaluation(
                        row,
                        strategy,
                        typ,
                        collation,
                        other,
                        value,
                        const_text,
                        facts,
                    ),
                )
            }
        },
        QualModel::InList { typ, collation, elem_type, elems, .. } => if row.overlap {
            (facts, EvaluationModel::Verdict(false))
        } else {
            in_list_evaluation(row, typ, collation, elem_type, elems, facts)
        },
        QualModel::Overlap { const_text, const_type, .. } => if row.overlap {
            (facts, overlap_evaluation(row, const_text, const_type, facts))
        } else {
            (facts, EvaluationModel::Verdict(false))
        },
    }
}

impl QualSpec {
    /// The column this clause is about.
    pub fn attnum(&self) -> (r: i16)
        ensures
            r == qual_attnum(self@),
    {
        match self {
            QualSpec::Compare { attnum, .. } => *attnum,
            QualSpec::Null { attnum, .. } => *attnum,
            QualSpec::InList { attnum, .. } => *attnum,
            QualSpec::Overlap { attnum, .. } => *attnum,
        }
    }

    /// Whether this clause proves that the partition holds no match.
    pub fn proves_prune(&self, row: &ColSummary, facts: &mut EvalFacts) -> (r: Evaluation)
        ensures
            qual_evaluation(self@, row@, *old(facts)) == (*final(facts), r@),
    {
        match self {
            QualSpec::Null { is_null, .. } => {
                if *is_null {
                    Evaluation::Verdict(!row.has_nulls)
                } else {
                    Evaluation::Verdict(row.all_nulls)
                }
            },
            QualSpec::Compare { strategy, typ, collation, other, value, const_text, .. } => {
                if row.overlap {
                    Evaluation::Verdict(false)
                } else {
                    eval_compare(
                        row,
                        *strategy,
                        *typ,
                        *collation,
                        *other,
                        *value,
                        const_text,
                        facts,
                    )
                }
            },
            QualSpec::InList { typ, collation, elem_type, elems, .. } => {
                if row.overlap {
                    Evaluation::Verdict(false)
                } else {
                    eval_in_list(row, *typ, *collation, *elem_type, elems, facts)
                }
            },
            QualSpec::Overlap { const_text, const_type, .. } => {
                if row.overlap {
                    eval_overlap(row, const_text, const_type, facts)
                } else {
                    Evaluation::Verdict(false)
                }
            },
        }
    }
}

/// The place of the first summary for a column, or the number of summaries where there is
/// none.
pub open spec fn position(rows: Seq<ColModel>, attnum: i16) -> int
    decreases rows.len(),
{
    if rows.len() == 0 {
        0
    } else if rows[0].attnum == attnum {
        0
    } else {
        1 + position(rows.skip(1), attnum)
    }
}

proof fn lemma_position(rows: Seq<ColModel>, attnum: i16, at: int)
    requires
        0 <= at <= rows.len(),
        forall|j: int| 0 <= j < at ==> (#[trigger] rows[j]).attnum != attnum,
        at < rows.len() ==> rows[at].attnum == attnum,
    ensures
        position(rows, attnum) == at,
    decreases rows.len(),
{
    if at > 0 {
        let tail = rows.skip(1);
        assert forall|j: int| 0 <= j < at - 1 implies (#[trigger] tail[j]).attnum != attnum by {
            assert(tail[j] == rows[j + 1]);
        }
        assert(rows[0].attnum != attnum);
        lemma_position(tail, attnum, at - 1);
    }
}

/// The first summary for a column.
pub fn find_row(rows: &Vec<ColSummary>, attnum: i16) -> (r: Option<usize>)
    ensures
        match r {
            Some(i) => i < rows@.len() && i == position(col_models(rows@), attnum),
            None => position(col_models(rows@), attnum) == rows@.len(),
        },
{
    let mut i: usize = 0;
    while i < rows.len()
        invariant
            0 <= i <= rows@.len(),
            forall|j: int|
                0 <= j < i ==> (#[trigger] col_models(rows@)[j]).attnum != attnum,
        decreases rows@.len() - i,
    {
        if rows[i].attnum == attnum {
            proof {
                lemma_position(col_models(rows@), attnum, i as int);
            }
            return Some(i);
        }
        i += 1;
    }
    proof {
        lemma_position(col_models(rows@), attnum, i as int);
    }
    None
}

// ---- one leaf --------------------------------------------------------------------

/// How far the decision on one leaf has come.
pub struct LeafRun {
    /// What is known for the extraction.
    pub extract: ExtractFacts,
    /// The extracted clause and the place of its column's summary, once both are found.
    pub qual: Option<(QualSpec, usize)>,
    /// What is known for the evaluation.
    pub eval: EvalFacts,
}

/// A leaf's decision: extraction first, then, where the leaf is a clause about a summarised
/// column, its evaluation. A leaf that is none proves nothing.
pub open spec fn leaf_evaluation(expr: LeafExpr, rows: Seq<ColModel>, run: LeafRun) -> (
    EvalFacts,
    EvaluationModel,
) {
    match run.qual {
        Some((q, row)) => if row < rows.len() {
            qual_evaluation(q@, rows[row as int], run.eval)
        } else {
            (run.eval, EvaluationModel::Verdict(false))
        },
        None => match extraction(expr, run.extract) {
            ExtractionModel::Ask(q) => (run.eval, EvaluationModel::Ask(q)),
            ExtractionModel::Found(None) => (run.eval, EvaluationModel::Verdict(false)),
            ExtractionModel::Found(Some(q)) => {
                let row = position(rows, qual_attnum(q));
                if row < rows.len() {
                    qual_evaluation(q, rows[row], run.eval)
                } else {
                    (run.eval, EvaluationModel::Verdict(false))
                }
            },
        },
    }
}

/// A run that has learned an answer: it goes to the fact it is about. A parsed bound is the
/// minimum first and then the maximum, a comparison that with the constant itself, then the first
/// and then the second.
pub open spec fn leaf_learned(run: LeafRun, answer: Answer) -> LeafRun {
    let x = run.extract;
    let e = run.eval;
    match answer {
        Answer::Strategy(a) => LeafRun {
            extract: ExtractFacts { strategy: Some(a), ..x },
            ..run
        },
        Answer::OperatorName(a) => LeafRun {
            extract: ExtractFacts { operator_name: Some(a), ..x },
            ..run
        },
        Answer::Text(a) => LeafRun { extract: ExtractFacts { text: Some(a), ..x }, ..run },
        Answer::SqlType(a) => LeafRun { extract: ExtractFacts { sql_type: Some(a), ..x }, ..run },
        Answer::Elements(a) => LeafRun { extract: ExtractFacts { elems: Some(a), ..x }, ..run },
        Answer::Proc(a) => LeafRun { eval: EvalFacts { proc: Some(a), ..e }, ..run },
        Answer::CrossProc(a) => LeafRun { eval: EvalFacts { cross: Some(a), ..e }, ..run },
        Answer::Constant(a) => LeafRun { eval: EvalFacts { konst: Some(a), ..e }, ..run },
        Answer::Value(a) => if e.min is None {
            LeafRun { eval: EvalFacts { min: Some(a), ..e }, ..run }
        } else {
            LeafRun { eval: EvalFacts { max: Some(a), ..e }, ..run }
        },
        Answer::Comparison(a) => if e.same is None {
            LeafRun { eval: EvalFacts { same: Some(a), ..e }, ..run }
        } else if e.first is None {
            LeafRun { eval: EvalFacts { first: Some(a), ..e }, ..run }
        } else {
            LeafRun { eval: EvalFacts { second: Some(a), ..e }, ..run }
        },
        Answer::Truth(a) => LeafRun { eval: EvalFacts { disjoint: Some(a), ..e }, ..run },
        Answer::ReadBack(_) => run,
        Answer::Selected(_) => run,
    }
}

/// One step of a leaf's decision, from `before` to `after`: the outcome is the decision's, and
/// a clause about a summarised column is kept once it is found.
pub open spec fn leaf_advanced(
    expr: LeafExpr,
    rows: Seq<ColModel>,
    before: LeafRun,
    after: LeafRun,
    outcome: EvaluationModel,
) -> bool {
    &&& leaf_evaluation(expr, rows, before) == (after.eval, outcome)
    &&& after.extract == before.extract
    &&& before.belongs(expr, rows) ==> after.belongs(expr, rows)
    &&& before.qual is Some ==> after.qual == before.qual
    &&& after.qual is Some <==> {
        ||| before.qual is Some
        ||| extraction(expr, before.extract) matches ExtractionModel::Found(Some(q)) && position(
            rows,
            qual_attnum(q),
        ) < rows.len()
    }
}

impl LeafRun {
    /// The kept clause, if there is one, is the leaf's own and belongs to a summary of `rows`.
    pub open spec fn belongs(self, expr: LeafExpr, rows: Seq<ColModel>) -> bool {
        self.qual matches Some((q, row)) ==> {
            &&& extraction(expr, self.extract) == ExtractionModel::Found(Some(q@))
            &&& row < rows.len()
            &&& row == position(rows, qual_attnum(q@))
        }
    }

    /// A decision not begun.
    pub fn new() -> (r: Self)
        ensures
            r.qual is None,
            r.eval == EvalFacts::nothing(),
            r.extract.strategy is None,
            r.extract.operator_name is None,
            r.extract.text is None,
            r.extract.sql_type is None,
            r.extract.elems is None,
    {
        LeafRun { extract: ExtractFacts::new(), qual: None, eval: EvalFacts::new() }
    }

    /// Takes the decision on a leaf as far as what is known carries it.
    pub fn advance(&mut self, expr: &LeafExpr, rows: &Vec<ColSummary>) -> (r: Evaluation)
        ensures
            leaf_advanced(*expr, col_models(rows@), *old(self), *final(self), r@),
    {
        if self.qual.is_none() {
            let q = match extract_qual(expr, &self.extract) {
                Extraction::Ask(q) => return Evaluation::Ask(q),
                Extraction::Found(None) => return Evaluation::Verdict(false),
                Extraction::Found(Some(q)) => q,
            };
            match find_row(rows, q.attnum()) {
                Some(row) => {
                    self.qual = Some((q, row));
                },
                None => return Evaluation::Verdict(false),
            }
        }
        match &self.qual {
            Some((q, row)) => if *row < rows.len() {
                q.proves_prune(&rows[*row], &mut self.eval)
            } else {
                Evaluation::Verdict(false)
            },
            None => Evaluation::Verdict(false),
        }
    }
}

impl LeafRun {
    /// Notes the answer to the question that [`LeafRun::advance`] asked.
    pub fn learn(&mut self, answer: Answer)
        ensures
            *final(self) == leaf_learned(*old(self), answer),
    {
        match answer {
            Answer::Strategy(a) => self.extract.strategy = Some(a),
            Answer::OperatorName(a) => self.extract.operator_name = Some(a),
            Answer::Text(a) => self.extract.text = Some(a),
            Answer::SqlType(a) => self.extract.sql_type = Some(a),
            Answer::Elements(a) => self.extract.elems = Some(a),
            Answer::Proc(a) => self.eval.proc = Some(a),
            Answer::CrossProc(a) => self.eval.cross = Some(a),
            Answer::Constant(a) => self.eval.konst = Some(a),
            Answer::Value(a) => {
                if self.eval.min.is_none() {
                    self.eval.min = Some(a);
                } else {
                    self.eval.max = Some(a);
                }
            },
            Answer::Comparison(a) => {
                if self.eval.same.is_none() {
                    self.eval.same = Some(a);
                } else if self.eval.first.is_none() {
                    self.eval.first = Some(a);
                } else {
                    self.eval.second = Some(a);
                }
            },
            Answer::Truth(a) => self.eval.disjoint = Some(a),
            Answer::ReadBack(_) => {},
            Answer::Selected(_) => {},
        }
    }
}

// ---- clause trees ----------------------------------------------------------------

/// A walk over a clause tree: decided, or held up by a leaf without a verdict.
pub enum Walk<'a> {
    Decided(bool),
    Pending(&'a Leaf),
}

/// What a [`Walk`] says.
pub enum WalkModel {
    Decided(bool),
    Pending(Leaf),
}

impl<'a> View for Walk<'a> {
    type V = WalkModel;

    open spec fn view(&self) -> WalkModel {
        match *self {
            Walk::Decided(b) => WalkModel::Decided(b),
            Walk::Pending(leaf) => WalkModel::Pending(*leaf),
        }
    }
}

/// The verdict on the leaf `id`, where there is one.
pub open spec fn verdict(known: Seq<Option<bool>>, id: usize) -> Option<bool> {
    if id < known.len() {
        known[id as int]
    } else {
        None
    }
}

/// Whether a clause proves that no row matches, given the verdicts on its leaves: a
/// conjunction where any part does, a disjunction where it has parts and each of them does, a
/// negation never.
pub open spec fn clause_walk(clause: Clause, known: Seq<Option<bool>>) -> WalkModel
    decreases clause, 0int,
{
    match clause {
        Clause::Leaf(leaf) => match verdict(known, leaf.id) {
            Some(b) => WalkModel::Decided(b),
            None => WalkModel::Pending(leaf),
        },
        Clause::Bool { op, args } => match op {
            BoolOp::And => any_walk(args, 0, known),
            BoolOp::Or => if args@.len() == 0 {
                WalkModel::Decided(false)
            } else {
                all_walk(args, 0, known)
            },
            BoolOp::Not => WalkModel::Decided(false),
        },
    }
}

/// Whether any clause from the `i`-th on proves that no row matches.
pub open spec fn any_walk(args: Vec<Clause>, i: int, known: Seq<Option<bool>>) -> WalkModel
    decreases args, args@.len() - i,
{
    if 0 <= i < args@.len() {
        match clause_walk(args@[i], known) {
            WalkModel::Decided(false) => any_walk(args, i + 1, known),
            other => other,
        }
    } else {
        WalkModel::Decided(false)
    }
}

/// Whether every clause from the `i`-th on proves that no row matches.
pub open spec fn all_walk(args: Vec<Clause>, i: int, known: Seq<Option<bool>>) -> WalkModel
    decreases args, args@.len() - i,
{
    if 0 <= i < args@.len() {
        match clause_walk(args@[i], known) {
            WalkModel::Decided(true) => all_walk(args, i + 1, known),
            other => other,
        }
    } else {
        WalkModel::Decided(true)
    }
}

/// Decides whether a clause proves that the partition cannot contain a matching row, however
/// deeply it is nested.
pub fn clause_proves_prune<'a>(clause: &'a Clause, known: &Vec<Option<bool>>) -> (r: Walk<'a>)
    ensures
        r@ == clause_walk(*clause, known@),
    decreases *clause,
{
    match clause {
        Clause::Leaf(leaf) => {
            if leaf.id < known.len() {
                match known[leaf.id] {
                    Some(b) => Walk::Decided(b),
                    None => Walk::Pending(leaf),
                }
            } else {
                Walk::Pending(leaf)
            }
        },
        Clause::Bool { op, args } => match op {
            BoolOp::And => {
                let mut i: usize = 0;
                while i < args.len()
                    invariant
                        0 <= i <= args@.len(),
                        decreases_to!(*clause => *args),
                        any_walk(*args, 0, known@) == any_walk(*args, i as int, known@),
                        clause_walk(*clause, known@) == any_walk(*args, 0, known@),
                    decreases args@.len() - i,
                {
                    match clause_proves_prune(&args[i], known) {
                        Walk::Decided(false) => {},
                        other => return other,
                    }
                    i += 1;
                }
                Walk::Decided(false)
            },
            BoolOp::Or => {
                if args.len() == 0 {
                    return Walk::Decided(false);
                }
                let mut i: usize = 0;
                while i < args.len()
                    invariant
                        0 <= i <= args@.len(),
                        decreases_to!(*clause => *args),
                        all_walk(*args, 0, known@) == all_walk(*args, i as int, known@),
                        clause_walk(*clause, known@) == all_walk(*args, 0, known@),
                    decreases args@.len() - i,
                {
                    match clause_proves_prune(&args[i], known) {
                        Walk::Decided(true) => {},
                        other => return other,
                    }
                    i += 1;
                }
                Walk::Decided(true)
            },
            // A negation is not looked into.
            BoolOp::Not => Walk::Decided(false),
        },
    }
}

/// The decision on a relation: its restriction clauses are implicitly a conjunction, and
/// without a summary nothing is pruned.
pub open spec fn relation_walk(
    clauses: Vec<Clause>,
    rows: Seq<ColModel>,
    known: Seq<Option<bool>>,
) -> WalkModel {
    if rows.len() == 0 {
        WalkModel::Decided(false)
    } else {
        any_walk(clauses, 0, known)
    }
}

/// Decides whether some restriction clause proves that the partition cannot match.
pub fn evaluate_relation<'a>(
    clauses: &'a Vec<Clause>,
    rows: &Vec<ColSummary>,
    known: &Vec<Option<bool>>,
) -> (r: Walk<'a>)
    ensures
        r@ == relation_walk(*clauses, col_models(rows@), known@),
{
    if rows.len() == 0 {
        return Walk::Decided(false);
    }
    let mut i: usize = 0;
    while i < clauses.len()
        invariant
            0 <= i <= clauses@.len(),
            any_walk(*clauses, 0, known@) == any_walk(*clauses, i as int, known@),
            relation_walk(*clauses, col_models(rows@), known@) == any_walk(*clauses, 0, known@),
        decreases clauses@.len() - i,
    {
        match clause_proves_prune(&clauses[i], known) {
            Walk::Decided(false) => {},
            other => return other,
        }
        i += 1;
    }
    Walk::Decided(false)
}

} // verus!
