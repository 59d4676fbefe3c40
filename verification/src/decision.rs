//! Deciding whether a relation is pruned: the walk over its clauses, the leaves that the walk
//! needs, and the questions that those ask.

use vstd::prelude::*;
use crate::backend::{Answer, QuestionModel};
use crate::index_storage::{col_models, ColModel, ColSummary};
use crate::prune_hook::{
    all_walk, any_walk, clause_walk, evaluate_relation, leaf_advanced, leaf_evaluation,
    leaf_learned, relation_walk, verdict, Clause, EvalFacts, Evaluation, EvaluationModel, LeafExpr,
    LeafRun, Walk, WalkModel,
};
use crate::soundness::{
    all_numbered, answers, closer, law_answers_keep_agreement, law_decisions_are_the_servers,
    law_new_runs_agree, law_questions_run_out, law_unanswered_questions_are_asked_again,
    law_verdicts_are_the_servers, leaf_proves, relation_pruned, run_agrees, verdicts_agree, Server,
};

verus! {

/// How far the decision on a relation has come.
pub struct Decision {
    /// The verdicts on the leaves, by their numbers.
    pub known: Vec<Option<bool>>,
    /// The decision on the leaf that is needed next.
    pub leaf: LeafRun,
}

/// How many leaves of a clause have no verdict.
pub open spec fn open_leaves(clause: Clause, known: Seq<Option<bool>>) -> nat
    decreases clause, 0int,
{
    match clause {
        Clause::Leaf(leaf) => if verdict(known, leaf.id) is None {
            1
        } else {
            0
        },
        Clause::Bool { args, .. } => open_from(args, 0, known),
    }
}

/// How many leaves of the clauses from the `i`-th on have no verdict.
pub open spec fn open_from(args: Vec<Clause>, i: int, known: Seq<Option<bool>>) -> nat
    decreases args, args@.len() - i,
{
    if 0 <= i < args@.len() {
        open_leaves(args@[i], known) + open_from(args, i + 1, known)
    } else {
        0
    }
}

/// `after` is `before` with the verdict on one leaf added.
pub open spec fn settled(
    before: Seq<Option<bool>>,
    after: Seq<Option<bool>>,
    id: usize,
    b: bool,
) -> bool {
    forall|i: usize| #[trigger]
        verdict(after, i) == if i == id {
            Some(b)
        } else {
            verdict(before, i)
        }
}

/// A decision whose verdicts and facts all came from the server; `exprs` are the leaves'
/// expressions by their numbers.
pub open spec fn decision_agrees(
    s: Server,
    exprs: spec_fn(usize) -> LeafExpr,
    clauses: Vec<Clause>,
    rows: Seq<ColModel>,
    d: Decision,
) -> bool {
    &&& all_numbered(clauses, 0, exprs)
    &&& verdicts_agree(s, exprs, rows, d.known@)
    &&& relation_walk(clauses, rows, d.known@) matches WalkModel::Pending(leaf) ==> run_agrees(
        s,
        leaf.expr,
        rows,
        d.leaf,
    )
}

/// `after` is closer to a verdict than `before`: fewer leaves are open, or as many and the one
/// under way is closer to its verdict.
pub open spec fn decision_closer(clauses: Vec<Clause>, before: Decision, after: Decision) -> bool {
    let x = open_from(clauses, 0, before.known@);
    let y = open_from(clauses, 0, after.known@);
    y < x || y == x && closer(before.leaf, after.leaf)
}

/// The decision with an answer noted.
pub open spec fn decision_learned(d: Decision, a: Answer) -> Decision {
    Decision { leaf: leaf_learned(d.leaf, a), ..d }
}

/// One step of a decision: a verdict is the one that the walk gives for the leaves' verdicts, and a
/// question is the one that the leaf which the walk waits for asks. For
/// every server that all that is known came from, the verdict is the one that the server's answers
/// determine, and its answer to a question keeps the agreement and brings the verdict closer.
pub open spec fn decision_advanced(
    clauses: Vec<Clause>,
    rows: Seq<ColModel>,
    before: Decision,
    after: Decision,
    outcome: EvaluationModel,
) -> bool {
    &&& outcome matches EvaluationModel::Verdict(b) ==> relation_walk(clauses, rows, after.known@)
        == WalkModel::Decided(b)
    &&& outcome matches EvaluationModel::Ask(q) ==> relation_walk(
        clauses,
        rows,
        after.known@,
    ) matches WalkModel::Pending(leaf) && leaf_evaluation(leaf.expr, rows, after.leaf)
        == (after.leaf.eval, EvaluationModel::Ask(q))
    &&& forall|s: Server, exprs: spec_fn(usize) -> LeafExpr| #[trigger]
        decision_agrees(s, exprs, clauses, rows, before) ==> {
            &&& decision_agrees(s, exprs, clauses, rows, after)
            &&& outcome matches EvaluationModel::Verdict(b) ==> b == relation_pruned(
                s,
                clauses,
                rows,
            )
            &&& outcome matches EvaluationModel::Ask(q) ==> forall|a: Answer| #[trigger]
                answers(s, q, a) ==> decision_agrees(
                    s,
                    exprs,
                    clauses,
                    rows,
                    decision_learned(after, a),
                ) && decision_closer(clauses, before, decision_learned(after, a))
        }
}

proof fn lemma_clause_settled(
    clause: Clause,
    before: Seq<Option<bool>>,
    after: Seq<Option<bool>>,
    id: usize,
    b: bool,
)
    requires
        settled(before, after, id, b),
    ensures
        open_leaves(clause, after) <= open_leaves(clause, before),
        (clause_walk(clause, before) matches WalkModel::Pending(leaf) && leaf.id == id)
            ==> open_leaves(clause, after) < open_leaves(clause, before),
    decreases clause, 0int,
{
    match clause {
        Clause::Leaf(leaf) => {
            assert(verdict(after, leaf.id) == verdict(after, leaf.id));
        },
        Clause::Bool { op, args } => {
            lemma_clauses_settled(args, 0, before, after, id, b);
        },
    }
}

proof fn lemma_clauses_settled(
    args: Vec<Clause>,
    i: int,
    before: Seq<Option<bool>>,
    after: Seq<Option<bool>>,
    id: usize,
    b: bool,
)
    requires
        settled(before, after, id, b),
    ensures
        open_from(args, i, after) <= open_from(args, i, before),
        (any_walk(args, i, before) matches WalkModel::Pending(leaf) && leaf.id == id)
            ==> open_from(args, i, after) < open_from(args, i, before),
        (all_walk(args, i, before) matches WalkModel::Pending(leaf) && leaf.id == id)
            ==> open_from(args, i, after) < open_from(args, i, before),
    decreases args, args@.len() - i,
{
    if 0 <= i < args@.len() {
        lemma_clause_settled(args@[i], before, after, id, b);
        lemma_clauses_settled(args, i + 1, before, after, id, b);
    }
}

fn settle(known: &mut Vec<Option<bool>>, id: usize, b: bool)
    ensures
        settled(old(known)@, final(known)@, id, b),
{
    while known.len() <= id
        invariant
            forall|i: usize| #[trigger] verdict(known@, i) == verdict(old(known)@, i),
        decreases id + 1 - known@.len(),
    {
        let ghost shorter = known@;
        known.push(None);
        assert forall|i: usize| #[trigger] verdict(known@, i) == verdict(old(known)@, i) by {
            assert(verdict(shorter, i) == verdict(old(known)@, i));
        }
    }
    let ghost padded = known@;
    known.set(id, Some(b));
    assert forall|i: usize| #[trigger] verdict(known@, i) == if i == id {
        Some(b)
    } else {
        verdict(old(known)@, i)
    } by {
        assert(verdict(padded, i) == verdict(old(known)@, i));
    }
}

impl Decision {
    /// A decision not begun.
    pub fn new() -> (r: Self)
        ensures
            r.known@.len() == 0,
            r.leaf.qual is None,
            r.leaf.eval == EvalFacts::nothing(),
            r.leaf.extract.strategy is None,
            r.leaf.extract.operator_name is None,
            r.leaf.extract.text is None,
            r.leaf.extract.sql_type is None,
            r.leaf.extract.elems is None,
            forall|
                s: Server,
                exprs: spec_fn(usize) -> LeafExpr,
                clauses: Vec<Clause>,
                rows: Seq<ColModel>,
            |
                all_numbered(clauses, 0, exprs) ==> #[trigger] decision_agrees(
                    s,
                    exprs,
                    clauses,
                    rows,
                    r,
                ),
    {
        let r = Decision { known: Vec::new(), leaf: LeafRun::new() };
        proof {
            assert forall|
                s: Server,
                exprs: spec_fn(usize) -> LeafExpr,
                clauses: Vec<Clause>,
                rows: Seq<ColModel>,
            |
                all_numbered(clauses, 0, exprs) implies #[trigger] decision_agrees(
                s,
                exprs,
                clauses,
                rows,
                r,
            ) by {
                if let WalkModel::Pending(leaf) = relation_walk(clauses, rows, r.known@) {
                    law_new_runs_agree(s, leaf.expr, rows, r.leaf);
                }
            }
        }
        r
    }

    /// Notes the answer to the question that [`Decision::advance`] asked.
    pub fn learn(&mut self, answer: Answer)
        ensures
            *final(self) == decision_learned(*old(self), answer),
    {
        self.leaf.learn(answer);
    }

    /// Takes the decision as far as what is known carries it.
    pub fn advance(&mut self, clauses: &Vec<Clause>, rows: &Vec<ColSummary>) -> (r: Evaluation)
        ensures
            decision_advanced(*clauses, col_models(rows@), *old(self), *final(self), r@),
    {
        let ghost models = col_models(rows@);
        loop
            invariant
                models == col_models(rows@),
                forall|s: Server, exprs: spec_fn(usize) -> LeafExpr| #[trigger]
                    decision_agrees(s, exprs, *clauses, models, *old(self)) ==> decision_agrees(
                        s,
                        exprs,
                        *clauses,
                        models,
                        *self,
                    ),
                *self == *old(self) || open_from(*clauses, 0, self.known@) < open_from(
                    *clauses,
                    0,
                    old(self).known@,
                ),
            decreases open_from(*clauses, 0, self.known@),
        {
            let ghost start = *self;
            let leaf = match evaluate_relation(clauses, rows, &self.known) {
                Walk::Decided(b) => {
                    proof {
                        assert forall|s: Server, exprs: spec_fn(usize) -> LeafExpr| #[trigger]
                            decision_agrees(s, exprs, *clauses, models, *old(self)) implies b
                            == relation_pruned(s, *clauses, models) by {
                            assert(decision_agrees(s, exprs, *clauses, models, *self));
                            law_decisions_are_the_servers(s, *clauses, exprs, models, self.known@);
                        }
                    }
                    return Evaluation::Verdict(b);
                },
                Walk::Pending(leaf) => leaf,
            };
            let outcome = self.leaf.advance(&leaf.expr, rows);
            match outcome {
                Evaluation::Ask(q) => {
                    proof {
                        law_unanswered_questions_are_asked_again(
                            leaf.expr,
                            models,
                            start.leaf,
                            self.leaf,
                            q@,
                        );
                        assert forall|s: Server, exprs: spec_fn(usize) -> LeafExpr| #[trigger]
                            decision_agrees(
                                s,
                                exprs,
                                *clauses,
                                models,
                                *old(self),
                            ) implies decision_agrees(s, exprs, *clauses, models, *self) && (
                        forall|a: Answer| #[trigger]
                            answers(s, q@, a) ==> decision_agrees(
                                s,
                                exprs,
                                *clauses,
                                models,
                                decision_learned(*self, a),
                            ) && decision_closer(
                                *clauses,
                                *old(self),
                                decision_learned(*self, a),
                            )) by {
                            assert(decision_agrees(s, exprs, *clauses, models, start));
                            lemma_asked(s, leaf.expr, models, start.leaf, self.leaf, q@);
                        }
                    }
                    return Evaluation::Ask(q);
                },
                Evaluation::Verdict(b) => {
                    settle(&mut self.known, leaf.id, b);
                    let ghost reached = self.leaf;
                    self.leaf = LeafRun::new();
                    proof {
                        lemma_clauses_settled(
                            *clauses,
                            0,
                            start.known@,
                            self.known@,
                            leaf.id,
                            b,
                        );
                        assert forall|s: Server, exprs: spec_fn(usize) -> LeafExpr| #[trigger]
                            decision_agrees(
                                s,
                                exprs,
                                *clauses,
                                models,
                                *old(self),
                            ) implies decision_agrees(s, exprs, *clauses, models, *self) by {
                            assert(decision_agrees(s, exprs, *clauses, models, start));
                            law_decisions_are_the_servers(
                                s,
                                *clauses,
                                exprs,
                                models,
                                start.known@,
                            );
                            law_verdicts_are_the_servers(
                                s,
                                leaf.expr,
                                models,
                                start.leaf,
                                reached,
                                EvaluationModel::Verdict(b),
                            );
                            assert(verdicts_agree(s, exprs, models, self.known@)) by {
                                assert forall|id: usize|
                                    (#[trigger] verdict(self.known@, id) matches Some(v) ==> v
                                        == leaf_proves(s, exprs(id), models)) by {
                                    if id != leaf.id {
                                        assert(verdict(self.known@, id) == verdict(
                                            start.known@,
                                            id,
                                        ));
                                    }
                                }
                            }
                            if let WalkModel::Pending(next) = relation_walk(
                                *clauses,
                                models,
                                self.known@,
                            ) {
                                law_new_runs_agree(s, next.expr, models, self.leaf);
                            }
                        }
                    }
                },
            }
        }
    }
}

/// A leaf that asked agrees with the server, before and after its answer.
proof fn lemma_asked(
    s: Server,
    expr: LeafExpr,
    rows: Seq<ColModel>,
    before: LeafRun,
    after: LeafRun,
    q: QuestionModel,
)
    requires
        run_agrees(s, expr, rows, before),
        leaf_advanced(expr, rows, before, after, EvaluationModel::Ask(q)),
    ensures
        run_agrees(s, expr, rows, after),
        forall|a: Answer| #[trigger]
            answers(s, q, a) ==> run_agrees(s, expr, rows, leaf_learned(after, a)) && closer(
                before,
                leaf_learned(after, a),
            ),
{
    law_verdicts_are_the_servers(s, expr, rows, before, after, EvaluationModel::Ask(q));
    assert forall|a: Answer| #[trigger] answers(s, q, a) implies run_agrees(
        s,
        expr,
        rows,
        leaf_learned(after, a),
    ) && closer(before, leaf_learned(after, a)) by {
        law_answers_keep_agreement(s, expr, rows, before, after, q, a);
        law_questions_run_out(s, expr, rows, before, after, q, a);
    }
}

} // verus!
