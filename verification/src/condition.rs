//! The condition tree, its evaluation on one record, and the three ways of
//! filtering a collection of records with it.
//!
//! The model of a `Condition` is its view, a `Node`. What a tree decides is
//! the spec function `Node::verdict`; what a filter keeps is `Node::passing`.
//! Every executable function here is proved against those two.

use crate::error::Error;
use crate::operators::{get_operator_fn, operator_named, ComparisonFn, Operator};
use crate::value::{items_view, Json, Value};
use rayon::iter::{IntoParallelRefIterator, ParallelIterator};
use vstd::prelude::*;
use vstd::rwlock::RwLock;

verus! {

/// The record count up to which `adaptive_filter` works sequentially when
/// the caller names no threshold.
pub const DEFAULT_THRESHOLD: usize = 20000;

/// The two ways in which a collection is filtered.
#[derive(Clone, Copy, Debug, PartialEq, Eq, Structural)]
pub enum Strategy {
    /// Record after record, on the calling thread.
    Sequential,
    /// On a pool of worker threads.
    Parallel,
}

/// The strategy of `adaptive_filter` for `count` records: sequential up to
/// the threshold, parallel above it. The threshold is `DEFAULT_THRESHOLD`
/// where the caller names none.
pub open spec fn strategy_of(count: nat, threshold: Option<usize>) -> Strategy {
    let limit = match threshold {
        Some(limit) => limit,
        None => DEFAULT_THRESHOLD,
    };
    if count <= limit {
        Strategy::Sequential
    } else {
        Strategy::Parallel
    }
}

/// How the children of a node are combined.
#[derive(Clone, Copy, Debug, PartialEq, Eq, Structural)]
pub enum Logic {
    And,
    Or,
}

/// The model of a `Condition`.
pub ghost struct Node {
    /// The name of the comparison operator.
    pub operator: Option<Seq<char>>,
    /// The key that is read from the record.
    pub property: Option<Seq<char>>,
    /// The literal comparand.
    pub value: Option<Json>,
    /// The key of the context under which the comparand is found. Where a
    /// node has both this and `value`, this one counts.
    pub variable: Option<Seq<char>>,
    /// How the children are combined: `And` where it is absent.
    pub logic: Option<Logic>,
    /// The children.
    pub conditions: Option<Seq<Node>>,
}

/// The operator that a node with the operator name `operator` resolves to.
pub open spec fn resolution(operator: Option<Seq<char>>) -> Result<Operator, Error> {
    match operator {
        None => Err(Error::OperatorMissing),
        Some(name) => match operator_named(name) {
            Some(found) => Ok(found),
            None => Err(Error::OperatorNotFound),
        },
    }
}

/// The verdict on the first `n` of `children` taken together by `And`: that
/// of the first child that does not pass, and `Ok(true)` if they all pass.
pub open spec fn all_pass(children: Seq<Node>, item: Json, context: Json, n: nat) -> Result<
    bool,
    Error,
>
    decreases children, n,
{
    if n == 0 || n > children.len() {
        Ok(true)
    } else {
        match all_pass(children, item, context, (n - 1) as nat) {
            Ok(true) => children[n - 1].verdict(item, context),
            decided => decided,
        }
    }
}

/// The verdict on the first `n` of `children` taken together by `Or`: that
/// of the first child that passes or fails with an error, and `Ok(false)`
/// if there is none.
pub open spec fn any_passes(children: Seq<Node>, item: Json, context: Json, n: nat) -> Result<
    bool,
    Error,
>
    decreases children, n,
{
    if n == 0 || n > children.len() {
        Ok(false)
    } else {
        match any_passes(children, item, context, (n - 1) as nat) {
            Ok(false) => children[n - 1].verdict(item, context),
            decided => decided,
        }
    }
}

impl Node {
    /// The value that the record's value is compared with.
    pub open spec fn comparand(self, context: Json) -> Result<Json, Error> {
        match self.variable {
            Some(name) => match context.member(name) {
                Some(found) => Ok(found),
                None => Err(Error::ContextValueNotFound),
            },
            None => match self.value {
                Some(literal) => Ok(literal),
                None => Err(Error::ValueMissing),
            },
        }
    }

    /// The verdict of the node's own predicate. A node without `property`
    /// has none and passes. A wildcard comparand passes; then a record
    /// without the property fails; then a wildcard in the record passes;
    /// only then is the operator resolved and applied.
    pub open spec fn leaf(self, item: Json, context: Json) -> Result<bool, Error> {
        match self.property {
            None => Ok(true),
            Some(property) => match self.comparand(context) {
                Err(e) => Err(e),
                Ok(comparand) => if comparand.wildcard() {
                    Ok(true)
                } else {
                    match item.member(property) {
                        None => Ok(false),
                        Some(found) => if found.wildcard() {
                            Ok(true)
                        } else {
                            match resolution(self.operator) {
                                Err(e) => Err(e),
                                Ok(operator) => operator.outcome(found, comparand),
                            }
                        },
                    }
                },
            },
        }
    }

    /// The verdict of the node's children: `Ok(true)` where it has none.
    pub open spec fn combined(self, item: Json, context: Json) -> Result<bool, Error>
        decreases self, 0nat,
    {
        match self.conditions {
            Some(children) => if children.len() == 0 {
                Ok(true)
            } else {
                match self.logic {
                    Some(Logic::Or) => any_passes(children, item, context, children.len()),
                    _ => all_pass(children, item, context, children.len()),
                }
            },
            None => Ok(true),
        }
    }

    /// The verdict of the node on a record: its own predicate and its
    /// children must both pass, and the children are not looked at unless
    /// the predicate passes.
    pub open spec fn verdict(self, item: Json, context: Json) -> Result<bool, Error>
        decreases self, 1nat,
    {
        match self.leaf(item, context) {
            Ok(true) => self.combined(item, context),
            decided => decided,
        }
    }

    /// The indices of those of the first `n` records that pass, in rising
    /// order; or the error of the first record on which the node fails.
    pub open spec fn passing(self, items: Seq<Json>, context: Json, n: nat) -> Result<
        Seq<int>,
        Error,
    >
        decreases n,
    {
        if n == 0 || n > items.len() {
            Ok(Seq::empty())
        } else {
            match self.passing(items, context, (n - 1) as nat) {
                Err(e) => Err(e),
                Ok(kept) => match self.verdict(items[n - 1], context) {
                    Err(e) => Err(e),
                    Ok(true) => Ok(kept.push(n - 1)),
                    Ok(false) => Ok(kept),
                },
            }
        }
    }

    /// The verdicts of the node on each of `items`.
    pub open spec fn verdicts(self, items: Seq<Json>, context: Json) -> Seq<Result<bool, Error>> {
        Seq::new(items.len(), |i: int| self.verdict(items[i], context))
    }
}

/// What the first `n` of `verdicts` select: the indices of the passing
/// verdicts in rising order, or the first error among them.
pub open spec fn selected(verdicts: Seq<Result<bool, Error>>, n: nat) -> Result<Seq<int>, Error>
    decreases n,
{
    if n == 0 || n > verdicts.len() {
        Ok(Seq::empty())
    } else {
        match selected(verdicts, (n - 1) as nat) {
            Err(e) => Err(e),
            Ok(kept) => match verdicts[n - 1] {
                Err(e) => Err(e),
                Ok(true) => Ok(kept.push(n - 1)),
                Ok(false) => Ok(kept),
            },
        }
    }
}

/// `kept` holds, in order, the records of `items` at the indices `at`.
pub open spec fn picks(kept: Seq<&Value>, items: Seq<Value>, at: Seq<int>) -> bool {
    &&& kept.len() == at.len()
    &&& forall|i: int|
        0 <= i < at.len() ==> 0 <= #[trigger] at[i] < items.len() && *kept[i] == items[at[i]]
}

/// `result` is what filtering `items` comes to when `expected` are the
/// indices to keep, or the error to fail with.
pub open spec fn filtered(
    result: Result<Vec<&Value>, Error>,
    items: Seq<Value>,
    expected: Result<Seq<int>, Error>,
) -> bool {
    match result {
        Ok(kept) => expected matches Ok(at) && picks(kept@, items, at),
        Err(e) => expected == Err::<Seq<int>, Error>(e),
    }
}

/// The text of an optional string.
pub open spec fn text_of(text: Option<String>) -> Option<Seq<char>> {
    match text {
        Some(s) => Some(s@),
        None => None,
    }
}

/// The model of an optional value.
pub open spec fn json_of(value: Option<Value>) -> Option<Json> {
    match value {
        Some(v) => Some(v@),
        None => None,
    }
}

/// The models of a sequence of conditions.
pub open spec fn nodes_view(conditions: Seq<Condition>) -> Seq<Node>
    decreases conditions,
{
    Seq::new(
        conditions.len(),
        |i: int|
            if 0 <= i < conditions.len() {
                conditions[i]@
            } else {
                arbitrary()
            },
    )
}

/// The models of an optional list of conditions.
pub open spec fn nodes_of(conditions: Option<Vec<Condition>>) -> Option<Seq<Node>>
    decreases conditions,
{
    match conditions {
        Some(children) => Some(nodes_view(children@)),
        None => None,
    }
}

/// What the memo of a node may hold: nothing, or the operator that the node
/// resolves to.
pub open spec fn memo_holds(resolved: Result<Operator, Error>) -> spec_fn(Option<Operator>) -> bool {
    |cached: Option<Operator>| cached matches Some(operator) ==> resolved == Ok::<Operator, Error>(operator)
}

/// One node of a rule: an optional predicate on one property of a record,
/// and optional children that are combined by `And` or `Or`.
///
/// The resolved operator is remembered in a lock-guarded memo. The memo is
/// either empty or holds the operator that the registry gives for the node's
/// operator name, so to read it is the same as to look the name up again.
pub struct Condition {
    operator: Option<String>,
    property: Option<String>,
    value: Option<Value>,
    variable: Option<String>,
    logic: Option<Logic>,
    conditions: Option<Vec<Condition>>,
    memo: RwLock<Option<Operator>, spec_fn(Option<Operator>) -> bool>,
}

/// The inputs of a filter: the records, the lookup context, and the record
/// count above which `adaptive_filter` works in parallel.
pub struct FilterFnParams<'a> {
    pub items: &'a [Value],
    pub context: &'a Value,
    pub threshold: Option<usize>,
}

impl View for Condition {
    type V = Node;

    closed spec fn view(&self) -> Node
        decreases self,
    {
        Node {
            operator: text_of(self.operator),
            property: text_of(self.property),
            value: json_of(self.value),
            variable: text_of(self.variable),
            logic: self.logic,
            conditions: nodes_of(self.conditions),
        }
    }
}

impl Condition {
    #[verifier::type_invariant]
    spec fn memo_is_sound(&self) -> bool {
        self.memo.pred() == memo_holds(resolution(text_of(self.operator)))
    }

    /// A node with the given parts and an empty memo.
    pub fn new(
        operator: Option<String>,
        property: Option<String>,
        value: Option<Value>,
        variable: Option<String>,
        logic: Option<Logic>,
        conditions: Option<Vec<Condition>>,
    ) -> (node: Condition)
        ensures
            node@ == (Node {
                operator: text_of(operator),
                property: text_of(property),
                value: json_of(value),
                variable: text_of(variable),
                logic: logic,
                conditions: nodes_of(conditions),
            }),
    {
        let ghost resolved = resolution(text_of(operator));
        let memo = RwLock::new(None, Ghost(memo_holds(resolved)));
        Condition { operator, property, value, variable, logic, conditions, memo }
    }

    /// The name of the comparison operator.
    pub fn operator(&self) -> (operator: Option<&String>)
        ensures
            match operator {
                Some(name) => self@.operator == Some(name@),
                None => self@.operator is None,
            },
    {
        self.operator.as_ref()
    }

    /// The key that is read from the record.
    pub fn property(&self) -> (property: Option<&String>)
        ensures
            match property {
                Some(key) => self@.property == Some(key@),
                None => self@.property is None,
            },
    {
        self.property.as_ref()
    }

    /// The literal comparand.
    pub fn value(&self) -> (value: Option<&Value>)
        ensures
            match value {
                Some(literal) => self@.value == Some(literal@),
                None => self@.value is None,
            },
    {
        self.value.as_ref()
    }

    /// The key of the context under which the comparand is found.
    pub fn variable(&self) -> (variable: Option<&String>)
        ensures
            match variable {
                Some(key) => self@.variable == Some(key@),
                None => self@.variable is None,
            },
    {
        self.variable.as_ref()
    }

    /// How the children are combined.
    pub fn logic(&self) -> (logic: Option<Logic>)
        ensures
            logic == self@.logic,
    {
        self.logic
    }

    /// The children.
    pub fn conditions(&self) -> (conditions: Option<&Vec<Condition>>)
        ensures
            match conditions {
                Some(children) => self@.conditions == Some(nodes_view(children@)),
                None => self@.conditions is None,
            },
    {
        self.conditions.as_ref()
    }

    /// What the memo holds at the moment: `None` while it is empty, else the
    /// operator that this node resolves to. Any thread that shares the node
    /// may fill the memo at any time, and the lock keeps no history, so
    /// nothing is promised of when the result is `Some`: only that it is
    /// never a wrong operator, and so always `None` for a node whose
    /// operator does not resolve.
    pub fn cached_operator(&self) -> (cached: Option<ComparisonFn>)
        ensures
            cached matches Some(operator) ==> resolution(self@.operator) == Ok::<Operator, Error>(
                operator,
            ),
    {
        proof {
            use_type_invariant(self);
        }
        let reading = self.memo.acquire_read();
        let cached: Option<Operator> = *reading.borrow();
        reading.release_read();
        cached
    }

    /// The operator of this node, resolved in the registry.
    ///
    /// The first successful call stores the operator in the node's memo, and
    /// later calls read it there. A node without an operator name fails with
    /// `OperatorMissing`, one with a name that the registry does not hold
    /// with `OperatorNotFound`; a failure leaves the memo empty.
    pub fn get_cached_operator_fn(&self) -> (result: Result<ComparisonFn, Error>)
        ensures
            result == resolution(self@.operator),
    {
        if let Some(operator) = self.cached_operator() {
            return Ok(operator);
        }
        proof {
            use_type_invariant(self);
        }
        let (held, writing) = self.memo.acquire_write();
        match held {
            Some(operator) => {
                writing.release_write(held);
                Ok(operator)
            },
            None => {
                let looked_up: Result<Operator, Error> = match &self.operator {
                    None => Err(Error::OperatorMissing),
                    Some(name) => match get_operator_fn(name.as_str()) {
                        Some(operator) => Ok(operator),
                        None => Err(Error::OperatorNotFound),
                    },
                };
                match looked_up {
                    Ok(operator) => {
                        writing.release_write(Some(operator));
                        Ok(operator)
                    },
                    Err(e) => {
                        writing.release_write(None);
                        Err(e)
                    },
                }
            },
        }
    }

    /// Decides whether `item` satisfies this tree, given `context`.
    pub fn evaluate(&self, item: &Value, context: &Value) -> (result: Result<bool, Error>)
        ensures
            result == self@.verdict(item@, context@),
        decreases self, 1nat,
    {
        if let Some(property) = &self.property {
            let comparison_value: &Value = match &self.variable {
                Some(variable) => match context.get(variable.as_str()) {
                    Some(found) => found,
                    None => {
                        return Err(Error::ContextValueNotFound);
                    },
                },
                None => match &self.value {
                    Some(literal) => literal,
                    None => {
                        return Err(Error::ValueMissing);
                    },
                },
            };
            if !comparison_value.is_wildcard() {
                match item.get(property.as_str()) {
                    None => {
                        return Ok(false);
                    },
                    Some(item_value) => {
                        if !item_value.is_wildcard() {
                            let operator: Operator = match self.get_cached_operator_fn() {
                                Ok(operator) => operator,
                                Err(e) => {
                                    return Err(e);
                                },
                            };
                            match operator.apply(item_value, comparison_value) {
                                Ok(true) => {},
                                decided => {
                                    return decided;
                                },
                            }
                        }
                    },
                }
            }
        }
        match &self.conditions {
            Some(children) => {
                assert(nodes_view(children@).len() == children@.len());
                if children.len() == 0 {
                    Ok(true)
                } else {
                    match self.logic {
                        Some(Logic::Or) => self.satisfies_any(item, context),
                        _ => self.satisfies_all(item, context),
                    }
                }
            },
            None => Ok(true),
        }
    }

    /// The verdict of the children taken together by `And`: `Ok(false)` at
    /// the first child that does not pass, without a look at the later ones.
    /// A node without `conditions` fails with `ConditionsMissing`.
    pub fn satisfies_all(&self, item: &Value, context: &Value) -> (result: Result<bool, Error>)
        ensures
            result == (match self@.conditions {
                Some(children) => all_pass(children, item@, context@, children.len()),
                None => Err(Error::ConditionsMissing),
            }),
        decreases self, 0nat,
    {
        let children: &Vec<Condition> = match &self.conditions {
            Some(children) => children,
            None => {
                return Err(Error::ConditionsMissing);
            },
        };
        let ghost nodes = nodes_view(children@);
        let mut i: usize = 0;
        while i < children.len()
            invariant
                i <= children@.len(),
                self.conditions == Some(*children),
                nodes == nodes_view(children@),
                all_pass(nodes, item@, context@, i as nat) == Ok::<bool, Error>(true),
            decreases children@.len() - i,
        {
            match children[i].evaluate(item, context) {
                Ok(true) => {},
                decided => {
                    proof {
                        lemma_all_pass_decided(nodes, item@, context@, (i + 1) as nat, nodes.len());
                    }
                    return decided;
                },
            }
            i = i + 1;
        }
        Ok(true)
    }

    /// The verdict of the children taken together by `Or`: `Ok(true)` at the
    /// first child that passes, without a look at the later ones. A node
    /// without `conditions` fails with `ConditionsMissing`.
    pub fn satisfies_any(&self, item: &Value, context: &Value) -> (result: Result<bool, Error>)
        ensures
            result == (match self@.conditions {
                Some(children) => any_passes(children, item@, context@, children.len()),
                None => Err(Error::ConditionsMissing),
            }),
        decreases self, 0nat,
    {
        let children: &Vec<Condition> = match &self.conditions {
            Some(children) => children,
            None => {
                return Err(Error::ConditionsMissing);
            },
        };
        let ghost nodes = nodes_view(children@);
        let mut i: usize = 0;
        while i < children.len()
            invariant
                i <= children@.len(),
                self.conditions == Some(*children),
                nodes == nodes_view(children@),
                any_passes(nodes, item@, context@, i as nat) == Ok::<bool, Error>(false),
            decreases children@.len() - i,
        {
            match children[i].evaluate(item, context) {
                Ok(false) => {},
                decided => {
                    proof {
                        lemma_any_passes_decided(nodes, item@, context@, (i + 1) as nat, nodes.len());
                    }
                    return decided;
                },
            }
            i = i + 1;
        }
        Ok(false)
    }

    /// The records that satisfy this tree, in their order in `params.items`;
    /// or the error of the first record on which the evaluation fails.
    pub fn filter<'a>(&self, params: &'a FilterFnParams) -> (result: Result<Vec<&'a Value>, Error>)
        ensures
            filtered(
                result,
                params.items@,
                self@.passing(items_view(params.items@), params.context@, params.items@.len()),
            ),
    {
        let items: &'a [Value] = params.items;
        let ghost models = items_view(items@);
        let ghost context = params.context@;
        let mut kept: Vec<&'a Value> = Vec::new();
        let mut i: usize = 0;
        while i < items.len()
            invariant
                i <= items@.len(),
                items@ == params.items@,
                models == items_view(items@),
                context == params.context@,
                self@.passing(models, context, i as nat) matches Ok(at) && picks(kept@, items@, at),
            decreases items@.len() - i,
        {
            match self.evaluate(&items[i], params.context) {
                Ok(true) => {
                    kept.push(&items[i]);
                },
                Ok(false) => {},
                Err(e) => {
                    proof {
                        lemma_passing_failed(self@, models, context, (i + 1) as nat, models.len());
                    }
                    return Err(e);
                },
            }
            i = i + 1;
        }
        Ok(kept)
    }

    /// The same as `filter`, with the records evaluated on a pool of worker
    /// threads.
    pub fn parallel_filter<'a>(&self, params: &'a FilterFnParams) -> (result: Result<
        Vec<&'a Value>,
        Error,
    >)
        ensures
            filtered(
                result,
                params.items@,
                self@.passing(items_view(params.items@), params.context@, params.items@.len()),
            ),
    {
        let verdicts: Vec<Result<bool, Error>> = par_verdicts(self, params.items, params.context);
        proof {
            assert(verdicts@ =~= self@.verdicts(items_view(params.items@), params.context@));
            lemma_selected_is_passing(
                self@,
                items_view(params.items@),
                params.context@,
                params.items@.len(),
            );
        }
        select(params.items, &verdicts)
    }

    /// The same as `filter`, by the strategy that `strategy_for` gives for
    /// the number of records and `params.threshold`.
    pub fn adaptive_filter<'a>(&self, params: &'a FilterFnParams) -> (result: Result<
        Vec<&'a Value>,
        Error,
    >)
        ensures
            filtered(
                result,
                params.items@,
                self@.passing(items_view(params.items@), params.context@, params.items@.len()),
            ),
    {
        match strategy_for(params.items.len(), params.threshold) {
            Strategy::Sequential => self.filter(params),
            Strategy::Parallel => self.parallel_filter(params),
        }
    }
}

/// The strategy of `adaptive_filter` for `count` records.
pub fn strategy_for(count: usize, threshold: Option<usize>) -> (strategy: Strategy)
    ensures
        strategy == strategy_of(count as nat, threshold),
{
    let limit: usize = match threshold {
        Some(limit) => limit,
        None => DEFAULT_THRESHOLD,
    };
    if count <= limit {
        Strategy::Sequential
    } else {
        Strategy::Parallel
    }
}

/// The verdict of this tree on each record, computed in parallel by rayon:
/// `par_iter` on the slice, `map`, and `collect` into a vector. The three
/// together apply the closure once to each record and put the results in the
/// order of the records; the closure is one call of `evaluate`, whose result
/// is the verdict.
#[verifier::external_body]
fn par_verdicts(node: &Condition, items: &[Value], context: &Value) -> (verdicts: Vec<
    Result<bool, Error>,
>)
    ensures
        verdicts@.len() == items@.len(),
        forall|i: int|
            0 <= i < items@.len() ==> #[trigger] verdicts@[i] == node@.verdict(
                items@[i]@,
                context@,
            ),
{
    items.par_iter().map(|item| node.evaluate(item, context)).collect()
}

/// How many records and verdicts pair up index by index, which is the
/// shorter of the two lengths.
pub open spec fn paired(items: Seq<Value>, verdicts: Seq<Result<bool, Error>>) -> nat {
    if items.len() <= verdicts.len() {
        items.len()
    } else {
        verdicts.len()
    }
}

/// The records of `items` whose verdict is `Ok(true)`, in order; or the
/// first error among the verdicts. The verdict of a record is the one at
/// its index; records without a verdict and verdicts without a record are
/// passed over.
pub fn select<'a>(items: &'a [Value], verdicts: &Vec<Result<bool, Error>>) -> (result: Result<
    Vec<&'a Value>,
    Error,
>)
    ensures
        filtered(result, items@, selected(verdicts@, paired(items@, verdicts@))),
{
    let count: usize = if items.len() <= verdicts.len() {
        items.len()
    } else {
        verdicts.len()
    };
    let mut kept: Vec<&'a Value> = Vec::new();
    let mut i: usize = 0;
    while i < count
        invariant
            i <= count,
            count == paired(items@, verdicts@),
            selected(verdicts@, i as nat) matches Ok(at) && picks(kept@, items@, at),
        decreases count - i,
    {
        match verdicts[i] {
            Ok(true) => {
                kept.push(&items[i]);
            },
            Ok(false) => {},
            Err(e) => {
                proof {
                    lemma_selected_failed(verdicts@, (i + 1) as nat, count as nat);
                }
                return Err(e);
            },
        }
        i = i + 1;
    }
    Ok(kept)
}

/// Once the first `n` children have decided otherwise than `Ok(true)`, more
/// children change nothing.
pub proof fn lemma_all_pass_decided(children: Seq<Node>, item: Json, context: Json, n: nat, m: nat)
    requires
        n <= m <= children.len(),
        all_pass(children, item, context, n) != Ok::<bool, Error>(true),
    ensures
        all_pass(children, item, context, m) == all_pass(children, item, context, n),
    decreases m,
{
    if n < m {
        lemma_all_pass_decided(children, item, context, n, (m - 1) as nat);
    }
}

/// Once the first `n` children have decided otherwise than `Ok(false)`, more
/// children change nothing.
pub proof fn lemma_any_passes_decided(
    children: Seq<Node>,
    item: Json,
    context: Json,
    n: nat,
    m: nat,
)
    requires
        n <= m <= children.len(),
        any_passes(children, item, context, n) != Ok::<bool, Error>(false),
    ensures
        any_passes(children, item, context, m) == any_passes(children, item, context, n),
    decreases m,
{
    if n < m {
        lemma_any_passes_decided(children, item, context, n, (m - 1) as nat);
    }
}

/// Once the evaluation has failed on one of the first `n` records, more
/// records change nothing.
pub proof fn lemma_passing_failed(node: Node, items: Seq<Json>, context: Json, n: nat, m: nat)
    requires
        n <= m <= items.len(),
        node.passing(items, context, n) is Err,
    ensures
        node.passing(items, context, m) == node.passing(items, context, n),
    decreases m,
{
    if n < m {
        lemma_passing_failed(node, items, context, n, (m - 1) as nat);
    }
}

/// Once one of the first `n` verdicts is an error, more verdicts change
/// nothing.
pub proof fn lemma_selected_failed(verdicts: Seq<Result<bool, Error>>, n: nat, m: nat)
    requires
        n <= m <= verdicts.len(),
        selected(verdicts, n) is Err,
    ensures
        selected(verdicts, m) == selected(verdicts, n),
    decreases m,
{
    if n < m {
        lemma_selected_failed(verdicts, n, (m - 1) as nat);
    }
}

/// To evaluate every record and then select by the verdicts gives what
/// evaluating record by record gives.
pub proof fn lemma_selected_is_passing(node: Node, items: Seq<Json>, context: Json, n: nat)
    requires
        n <= items.len(),
    ensures
        selected(node.verdicts(items, context), n) == node.passing(items, context, n),
    decreases n,
{
    if n > 0 {
        lemma_selected_is_passing(node, items, context, (n - 1) as nat);
    }
}

} // verus!
