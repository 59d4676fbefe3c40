//! What one planner invocation remembers, and what the planner hooks decide around the
//! evaluation of a relation.
//!
//! Summaries, the access method and everything that is the same for all partitions of a column
//! are found out once per top-level planner invocation and forgotten when it ends.

use vstd::prelude::*;
use std::collections::HashMap;
use std::rc::Rc;
use crate::backend::{Answer, Question, QuestionModel, INVALID_OID};
use crate::index_storage::{col_models, ColModel, ColSummary, IndexSummary};
use crate::text::{decimal, push_decimal, same_text};

verus! {

broadcast use vstd::std_specs::hash::group_hash_axioms;

// ---- the memory of a planner invocation ------------------------------------------

/// The memory of the planner invocation that is under way.
pub struct PlanState {
    summaries: HashMap<u32, Rc<Vec<ColSummary>>>,
    am_oid: Option<u32>,
    strategies: HashMap<u64, Option<i16>>,
    compare_procs: HashMap<u32, Option<u32>>,
    cross_procs: HashMap<u64, Option<u32>>,
    input_functions: HashMap<u32, (u32, u32)>,
    constants: HashMap<u32, Vec<(String, u64)>>,
    depth: u32,
    in_hook: bool,
}

/// What a [`PlanState`] holds.
#[verifier::ext_equal]
pub struct PlanModel {
    /// The summaries by relation; an empty one says that the relation has none.
    pub summaries: Map<u32, Seq<ColModel>>,
    /// The access method's identifier, once it was looked up.
    pub am_oid: Option<u32>,
    /// The strategies by operator and type.
    pub strategies: Map<(u32, u32), Option<i16>>,
    /// The comparison procedures by type.
    pub compare_procs: Map<u32, Option<u32>>,
    /// The comparison procedures by type and other type.
    pub cross_procs: Map<(u32, u32), Option<u32>>,
    /// The input functions by type, with the parameter that each is called with.
    pub input_functions: Map<u32, (u32, u32)>,
    /// The parsed constants by type and text.
    pub constants: Map<(u32, Seq<char>), u64>,
    /// How many planner invocations are nested.
    pub depth: nat,
    /// The evaluation of a relation is under way.
    pub in_hook: bool,
}

/// The value kept for a text, from the `i`-th entry on.
pub open spec fn entry_from(entries: Seq<(String, u64)>, text: Seq<char>, i: int) -> Option<u64>
    decreases entries.len() - i,
{
    if 0 <= i < entries.len() {
        if entries[i].0@ == text {
            Some(entries[i].1)
        } else {
            entry_from(entries, text, i + 1)
        }
    } else {
        None
    }
}

/// A pair of identifiers as one number.
pub open spec fn pair_number(k: (u32, u32)) -> u64 {
    (k.0 * 0x1_0000_0000 + k.1) as u64
}

fn pair_key(x: u32, y: u32) -> (r: u64)
    ensures
        r == pair_number((x, y)),
{
    x as u64 * 0x1_0000_0000 + y as u64
}

/// A map by pairs of identifiers, from one by their numbers.
pub open spec fn by_pair<V>(m: Map<u64, V>) -> Map<(u32, u32), V> {
    Map::new(|k: (u32, u32)| m.contains_key(pair_number(k)), |k: (u32, u32)| m[pair_number(k)])
}

proof fn lemma_by_pair<V>(m: Map<u64, V>, k: (u32, u32), v: V)
    ensures
        by_pair(m.insert(pair_number(k), v)) == by_pair(m).insert(k, v),
{
    assert forall|j: (u32, u32)| #[trigger] pair_number(j) == pair_number(k) implies j == k by {}
    assert(by_pair(m.insert(pair_number(k), v)) =~= by_pair(m).insert(k, v));
}

impl View for PlanState {
    type V = PlanModel;

    closed spec fn view(&self) -> PlanModel {
        PlanModel {
            summaries: self.summaries@.map_values(|v: Rc<Vec<ColSummary>>| col_models(v@)),
            am_oid: self.am_oid,
            strategies: by_pair(self.strategies@),
            compare_procs: self.compare_procs@,
            cross_procs: by_pair(self.cross_procs@),
            input_functions: self.input_functions@,
            constants: Map::new(
                |k: (u32, Seq<char>)|
                    self.constants@.contains_key(k.0) && entry_from(
                        self.constants@[k.0]@,
                        k.1,
                        0,
                    ) is Some,
                |k: (u32, Seq<char>)| entry_from(self.constants@[k.0]@, k.1, 0)->0,
            ),
            depth: self.depth as nat,
            in_hook: self.in_hook,
        }
    }
}

impl PlanModel {
    /// The memory of no invocation at all.
    pub open spec fn empty() -> PlanModel {
        PlanModel {
            summaries: Map::empty(),
            am_oid: None,
            strategies: Map::empty(),
            compare_procs: Map::empty(),
            cross_procs: Map::empty(),
            input_functions: Map::empty(),
            constants: Map::empty(),
            depth: 0,
            in_hook: false,
        }
    }

    /// Everything found out is forgotten.
    pub open spec fn cleared(self) -> PlanModel {
        PlanModel { depth: self.depth, in_hook: self.in_hook, ..PlanModel::empty() }
    }

    /// A planner invocation begins; the outermost one begins with nothing remembered.
    pub open spec fn entered(self) -> PlanModel {
        let deeper = PlanModel { depth: self.depth + 1, ..self };
        if self.depth == 0 {
            deeper.cleared()
        } else {
            deeper
        }
    }

    /// A planner invocation ends; with the outermost one everything is forgotten.
    pub open spec fn left(self) -> PlanModel {
        let outer = PlanModel { depth: (self.depth - 1) as nat, ..self };
        if outer.depth == 0 {
            outer.cleared()
        } else {
            outer
        }
    }
}

impl PlanState {
    /// The memory before the first planner invocation.
    pub fn new() -> (r: Self)
        ensures
            r@ == PlanModel::empty(),
    {
        let r = PlanState {
            summaries: HashMap::new(),
            am_oid: None,
            strategies: HashMap::new(),
            compare_procs: HashMap::new(),
            cross_procs: HashMap::new(),
            input_functions: HashMap::new(),
            constants: HashMap::new(),
            depth: 0,
            in_hook: false,
        };
        assert(r@ =~= PlanModel::empty());
        r
    }

    fn clear_cache(&mut self)
        ensures
            final(self)@ == old(self)@.cleared(),
    {
        self.summaries.clear();
        self.am_oid = None;
        self.strategies.clear();
        self.compare_procs.clear();
        self.cross_procs.clear();
        self.input_functions.clear();
        self.constants.clear();
        assert(self@ =~= old(self)@.cleared());
    }

    /// How many planner invocations are nested.
    pub fn depth(&self) -> (r: u32)
        ensures
            r == self@.depth,
    {
        self.depth
    }

    /// Begins a planner invocation.
    pub fn enter(&mut self)
        requires
            old(self)@.depth < u32::MAX,
        ensures
            final(self)@ == old(self)@.entered(),
    {
        let outermost: bool = self.depth == 0;
        self.depth = self.depth + 1;
        if outermost {
            self.clear_cache();
        }
        assert(self@ =~= old(self)@.entered());
    }

    /// Ends a planner invocation.
    pub fn leave(&mut self)
        requires
            old(self)@.depth > 0,
        ensures
            final(self)@ == old(self)@.left(),
    {
        self.depth = self.depth - 1;
        if self.depth == 0 {
            self.clear_cache();
        }
        assert(self@ =~= old(self)@.left());
    }

    /// Notes that the evaluation of a relation begins or ends.
    pub fn set_in_hook(&mut self, in_hook: bool)
        ensures
            final(self)@ == (PlanModel { in_hook, ..old(self)@ }),
    {
        self.in_hook = in_hook;
        assert(self@ =~= (PlanModel { in_hook, ..old(self)@ }));
    }

    /// The summary of a relation, if it was loaded before.
    pub fn summary(&self, relid: u32) -> (r: Option<Rc<Vec<ColSummary>>>)
        ensures
            r is Some == self@.summaries.contains_key(relid),
            r matches Some(s) ==> col_models(s@) == self@.summaries[relid],
    {
        match self.summaries.get(&relid) {
            Some(s) => Some(s.clone()),
            None => None,
        }
    }

    /// Keeps the summary of a relation for the invocation.
    pub fn note_summary(&mut self, relid: u32, summary: Rc<Vec<ColSummary>>)
        ensures
            final(self)@ == (PlanModel {
                summaries: old(self)@.summaries.insert(relid, col_models(summary@)),
                ..old(self)@
            }),
    {
        self.summaries.insert(relid, summary);
        assert(self@ =~= (PlanModel {
            summaries: old(self)@.summaries.insert(relid, col_models(summary@)),
            ..old(self)@
        }));
    }

    /// The access method's identifier, if it was looked up before.
    pub fn am_oid(&self) -> (r: Option<u32>)
        ensures
            r == self@.am_oid,
    {
        self.am_oid
    }

    /// Keeps the access method's identifier for the invocation.
    pub fn note_am_oid(&mut self, oid: u32)
        ensures
            final(self)@ == (PlanModel { am_oid: Some(oid), ..old(self)@ }),
    {
        self.am_oid = Some(oid);
        assert(self@ =~= (PlanModel { am_oid: Some(oid), ..old(self)@ }));
    }

    /// The comparison procedure of a type, if it was looked up before.
    fn compare_proc(&self, typ: u32) -> (r: Option<Option<u32>>)
        ensures
            r == (if self@.compare_procs.contains_key(typ) {
                Some(self@.compare_procs[typ])
            } else {
                None
            }),
    {
        match self.compare_procs.get(&typ) {
            Some(p) => Some(*p),
            None => None,
        }
    }

    /// Keeps the comparison procedure of a type, or that it has none.
    fn note_compare_proc(&mut self, typ: u32, proc: Option<u32>)
        ensures
            final(self)@ == (PlanModel {
                compare_procs: old(self)@.compare_procs.insert(typ, proc),
                ..old(self)@
            }),
    {
        self.compare_procs.insert(typ, proc);
        assert(self@ =~= (PlanModel {
            compare_procs: old(self)@.compare_procs.insert(typ, proc),
            ..old(self)@
        }));
    }

    /// The strategy of an operator in a type's operator family, if it was looked up before.
    fn strategy(&self, opno: u32, typ: u32) -> (r: Option<Option<i16>>)
        ensures
            r == (if self@.strategies.contains_key((opno, typ)) {
                Some(self@.strategies[(opno, typ)])
            } else {
                None
            }),
    {
        match self.strategies.get(&pair_key(opno, typ)) {
            Some(n) => Some(*n),
            None => None,
        }
    }

    /// Keeps the strategy of an operator in a type's operator family, or that it has none.
    fn note_strategy(&mut self, opno: u32, typ: u32, strategy: Option<i16>)
        ensures
            final(self)@ == (PlanModel {
                strategies: old(self)@.strategies.insert((opno, typ), strategy),
                ..old(self)@
            }),
    {
        self.strategies.insert(pair_key(opno, typ), strategy);
        proof {
            lemma_by_pair(old(self).strategies@, (opno, typ), strategy);
        }
        assert(self@ =~= (PlanModel {
            strategies: old(self)@.strategies.insert((opno, typ), strategy),
            ..old(self)@
        }));
    }

    /// The procedure that compares a type with another, if it was looked up before.
    fn cross_proc(&self, typ: u32, other: u32) -> (r: Option<Option<u32>>)
        ensures
            r == (if self@.cross_procs.contains_key((typ, other)) {
                Some(self@.cross_procs[(typ, other)])
            } else {
                None
            }),
    {
        match self.cross_procs.get(&pair_key(typ, other)) {
            Some(p) => Some(*p),
            None => None,
        }
    }

    /// Keeps the procedure that compares a type with another, or that there is none.
    fn note_cross_proc(&mut self, typ: u32, other: u32, proc: Option<u32>)
        ensures
            final(self)@ == (PlanModel {
                cross_procs: old(self)@.cross_procs.insert((typ, other), proc),
                ..old(self)@
            }),
    {
        self.cross_procs.insert(pair_key(typ, other), proc);
        proof {
            lemma_by_pair(old(self).cross_procs@, (typ, other), proc);
        }
        assert(self@ =~= (PlanModel {
            cross_procs: old(self)@.cross_procs.insert((typ, other), proc),
            ..old(self)@
        }));
    }

    /// The input function of a type and the parameter that it is called with, if they were looked
    /// up before.
    pub fn input_function(&self, typ: u32) -> (r: Option<(u32, u32)>)
        ensures
            r == (if self@.input_functions.contains_key(typ) {
                Some(self@.input_functions[typ])
            } else {
                None
            }),
    {
        match self.input_functions.get(&typ) {
            Some(f) => Some(*f),
            None => None,
        }
    }

    /// Keeps the input function of a type and the parameter that it is called with.
    pub fn note_input_function(&mut self, typ: u32, function: u32, parameter: u32)
        ensures
            final(self)@ == (PlanModel {
                input_functions: old(self)@.input_functions.insert(typ, (function, parameter)),
                ..old(self)@
            }),
    {
        self.input_functions.insert(typ, (function, parameter));
        assert(self@ =~= (PlanModel {
            input_functions: old(self)@.input_functions.insert(typ, (function, parameter)),
            ..old(self)@
        }));
    }

    /// The value of a constant, if it was parsed before.
    fn constant(&self, typ: u32, text: &str) -> (r: Option<u64>)
        ensures
            r == (if self@.constants.contains_key((typ, text@)) {
                Some(self@.constants[(typ, text@)])
            } else {
                None
            }),
    {
        match self.constants.get(&typ) {
            Some(entries) => {
                let mut i: usize = 0;
                while i < entries.len()
                    invariant
                        0 <= i <= entries@.len(),
                        self.constants@.contains_key(typ),
                        entries@ == self.constants@[typ]@,
                        entry_from(entries@, text@, 0) == entry_from(entries@, text@, i as int),
                    decreases entries@.len() - i,
                {
                    if same_text(&entries[i].0, text) {
                        return Some(entries[i].1);
                    }
                    i += 1;
                }
                None
            },
            None => None,
        }
    }

    /// Keeps the value that a constant was parsed to. A constant that did not parse is not
    /// kept.
    fn note_constant(&mut self, typ: u32, text: &str, parsed: Option<u64>)
        ensures
            final(self)@ == (match parsed {
                Some(value) => PlanModel {
                    constants: old(self)@.constants.insert((typ, text@), value),
                    ..old(self)@
                },
                None => old(self)@,
            }),
    {
        if let Some(value) = parsed {
            let ghost before = if self.constants@.contains_key(typ) {
                self.constants@[typ]@
            } else {
                Seq::<(String, u64)>::empty()
            };
            let mut entries: Vec<(String, u64)> = match self.constants.remove(&typ) {
                Some(entries) => entries,
                None => Vec::new(),
            };
            // The entry in front is the one that counts.
            entries.insert(0, (text.to_string(), value));
            let ghost after = entries@;
            self.constants.insert(typ, entries);
            proof {
                assert(after.skip(1) =~= before);
                assert forall|t: Seq<char>| #[trigger]
                    entry_from(after, t, 0) == (if t == text@ {
                        Some(value)
                    } else {
                        entry_from(before, t, 0)
                    }) by {
                    lemma_entry_behind(after, t, 1);
                }
                assert(self@.constants =~= old(self)@.constants.insert((typ, text@), value));
            }
        }
        assert(self@.summaries == old(self)@.summaries);
    }
}

/// The answer that is remembered for a question, if one is: strategies, comparison procedures and
/// constants come up again for every partition of a table.
pub open spec fn remembered_answer(m: PlanModel, q: QuestionModel) -> Option<Answer> {
    match q {
        QuestionModel::Strategy { opno, typ } => if m.strategies.contains_key((opno, typ)) {
            Some(Answer::Strategy(m.strategies[(opno, typ)]))
        } else {
            None
        },
        QuestionModel::CrossProc { typ, other } => if m.cross_procs.contains_key((typ, other)) {
            Some(Answer::CrossProc(m.cross_procs[(typ, other)]))
        } else {
            None
        },
        QuestionModel::CompareProc { typ } => if m.compare_procs.contains_key(typ) {
            Some(Answer::Proc(m.compare_procs[typ]))
        } else {
            None
        },
        QuestionModel::ParseConst { typ, text } => if m.constants.contains_key((typ, text)) {
            Some(Answer::Constant(Some(m.constants[(typ, text)])))
        } else {
            None
        },
        _ => None,
    }
}

/// The memory with an answer kept. A constant that did not parse is not kept.
pub open spec fn answer_kept(m: PlanModel, q: QuestionModel, a: Answer) -> PlanModel {
    match (q, a) {
        (QuestionModel::Strategy { opno, typ }, Answer::Strategy(n)) => PlanModel {
            strategies: m.strategies.insert((opno, typ), n),
            ..m
        },
        (QuestionModel::CrossProc { typ, other }, Answer::CrossProc(p)) => PlanModel {
            cross_procs: m.cross_procs.insert((typ, other), p),
            ..m
        },
        (QuestionModel::CompareProc { typ }, Answer::Proc(p)) => PlanModel {
            compare_procs: m.compare_procs.insert(typ, p),
            ..m
        },
        (QuestionModel::ParseConst { typ, text }, Answer::Constant(Some(value))) => PlanModel {
            constants: m.constants.insert((typ, text), value),
            ..m
        },
        _ => m,
    }
}

impl PlanState {
    /// The answer to a question, if it is remembered.
    pub fn remembered(&self, q: &Question) -> (r: Option<Answer>)
        ensures
            r == remembered_answer(self@, q@),
    {
        match q {
            Question::Strategy { opno, typ } => match self.strategy(*opno, *typ) {
                Some(n) => Some(Answer::Strategy(n)),
                None => None,
            },
            Question::CrossProc { typ, other } => match self.cross_proc(*typ, *other) {
                Some(p) => Some(Answer::CrossProc(p)),
                None => None,
            },
            Question::CompareProc { typ } => match self.compare_proc(*typ) {
                Some(p) => Some(Answer::Proc(p)),
                None => None,
            },
            Question::ParseConst { typ, text } => match self.constant(*typ, text) {
                Some(value) => Some(Answer::Constant(Some(value))),
                None => None,
            },
            _ => None,
        }
    }

    /// Keeps the answer to a question, where it is of a kind that is remembered.
    pub fn remember(&mut self, q: &Question, a: &Answer)
        ensures
            final(self)@ == answer_kept(old(self)@, q@, *a),
    {
        match (q, a) {
            (Question::Strategy { opno, typ }, Answer::Strategy(n)) => self.note_strategy(
                *opno,
                *typ,
                *n,
            ),
            (Question::CrossProc { typ, other }, Answer::CrossProc(p)) => self.note_cross_proc(
                *typ,
                *other,
                *p,
            ),
            (Question::CompareProc { typ }, Answer::Proc(p)) => self.note_compare_proc(*typ, *p),
            (Question::ParseConst { typ, text }, Answer::Constant(value)) => self.note_constant(
                *typ,
                text,
                *value,
            ),
            _ => {},
        }
    }
}

/// The entries behind the first one, looked at by themselves.
proof fn lemma_entry_behind(entries: Seq<(String, u64)>, text: Seq<char>, i: int)
    requires
        1 <= i <= entries.len(),
    ensures
        entry_from(entries, text, i) == entry_from(entries.skip(1), text, i - 1),
    decreases entries.len() - i,
{
    if i < entries.len() {
        lemma_entry_behind(entries, text, i + 1);
        assert(entries.skip(1)[i - 1] == entries[i]);
    }
}

// ---- around the evaluation of a relation -----------------------------------------

/// The planner's kinds of relations, as far as pruning tells them apart.
#[derive(Clone, Copy, Debug, PartialEq, Eq, Structural)]
pub enum RelKind {
    /// A relation of the query itself.
    Base,
    /// A member of one, such as a partition.
    OtherMember,
    /// A join or an upper relation.
    Other,
}

/// A relation that the planner builds paths for.
#[derive(Clone, Copy, Debug, PartialEq, Eq, Structural)]
pub struct RelationInfo {
    pub kind: RelKind,
    /// The range table entry names a relation, not a subquery or a function.
    pub is_table: bool,
    pub relid: u32,
}

/// Whether a relation is looked at: pruning is enabled, no evaluation is under way, and the
/// relation is a table that has an identifier.
pub open spec fn looked_at(in_hook: bool, enabled: bool, rel: Option<RelationInfo>) -> bool {
    &&& !in_hook
    &&& enabled
    &&& rel matches Some(r) && r.kind != RelKind::Other && r.is_table && r.relid != INVALID_OID
}

impl PlanState {
    /// The relation to evaluate, if the one the planner shows is to be evaluated; `None` for
    /// `rel` says that the planner showed none.
    pub fn relation_to_evaluate(&self, enabled: bool, rel: Option<RelationInfo>) -> (r: Option<u32>)
        ensures
            r == (if looked_at(self@.in_hook, enabled, rel) {
                Some(rel->0.relid)
            } else {
                None
            }),
    {
        if self.in_hook || !enabled {
            return None;
        }
        match rel {
            Some(info) => {
                if info.kind == RelKind::Other || !info.is_table || info.relid == INVALID_OID {
                    None
                } else {
                    Some(info.relid)
                }
            },
            None => None,
        }
    }
}

/// What the log says of a pruned relation.
pub open spec fn prune_notice(relid: u32) -> Seq<char> {
    "table_range: pruning partition relid="@ + decimal(relid as nat)
}

/// The log line for a relation that was evaluated, if there is one to write: the relation is
/// pruned and `log` asks for it.
pub fn pruning_notice(prune: bool, log: bool, relid: u32) -> (r: Option<String>)
    ensures
        r is Some == (prune && log),
        r matches Some(line) ==> line@ == prune_notice(relid),
{
    if !prune || !log {
        return None;
    }
    let mut line = "table_range: pruning partition relid=".to_string();
    push_decimal(&mut line, relid);
    Some(line)
}

/// An index in the planner's list.
#[derive(Clone, Copy, Debug, PartialEq, Eq, Structural)]
pub struct IndexInfo {
    pub oid: u32,
    /// The index's access method.
    pub am: u32,
}

/// The first index of access method `am` from the `i`-th on.
pub open spec fn first_index(am: u32, indexes: Seq<IndexInfo>, i: int) -> Option<u32>
    decreases indexes.len() - i,
{
    if 0 <= i < indexes.len() {
        if indexes[i].am == am {
            Some(indexes[i].oid)
        } else {
            first_index(am, indexes, i + 1)
        }
    } else {
        None
    }
}

/// The index that holds a relation's summary: the first one of this access method. Without the
/// access method there is none.
pub fn summary_index(am: u32, indexes: &Vec<IndexInfo>) -> (r: Option<u32>)
    ensures
        r == (if am == INVALID_OID {
            None
        } else {
            first_index(am, indexes@, 0)
        }),
{
    if am == INVALID_OID {
        return None;
    }
    let mut i: usize = 0;
    while i < indexes.len()
        invariant
            am != INVALID_OID,
            0 <= i <= indexes@.len(),
            first_index(am, indexes@, 0) == first_index(am, indexes@, i as int),
        decreases indexes@.len() - i,
    {
        if indexes[i].am == am {
            return Some(indexes[i].oid);
        }
        i += 1;
    }
    None
}

/// Whether an index has storage; `relkind` is its kind in the catalog. The index of a
/// partitioned table (kind `I`) has none: only the indexes of its leaves hold summaries.
pub fn has_storage(relkind: u8) -> (r: bool)
    ensures
        r == (relkind != 73),
{
    relkind != 73
}

/// The columns of the summary that an index was found to hold; none where it holds none.
pub fn summary_columns(summary: Option<IndexSummary>) -> (r: Vec<ColSummary>)
    ensures
        match summary {
            Some(s) => col_models(r@) == s@,
            None => r@.len() == 0,
        },
{
    match summary {
        Some(s) => s.cols,
        None => Vec::new(),
    }
}

// ---- laws ------------------------------------------------------------------------

/// A planner invocation within another one, as a statement run during planning makes it, changes
/// nothing of what the outer one remembers.
pub proof fn law_nested_planning_keeps_the_memory(m: PlanModel)
    requires
        m.depth > 0,
    ensures
        m.entered().left() == m,
{
    assert(m.entered().left() =~= m);
}

/// An outermost planner invocation begins with nothing remembered, and when the outermost one
/// ends nothing is.
pub proof fn law_nothing_outlives_a_planner_invocation(m: PlanModel)
    ensures
        m.depth == 0 ==> m.entered() == (PlanModel { depth: 1, ..m.cleared() }),
        m.depth == 1 ==> m.left() == (PlanModel { in_hook: m.in_hook, ..PlanModel::empty() }),
{
}

} // verus!
