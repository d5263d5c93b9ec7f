//! The comparison operators and the registry that finds them by name.

use crate::error::Error;
use crate::number::lemma_rank_orders_values;
use crate::text::{occurs_in, str_contains, str_eq};
use crate::value::{items_view, Json, Value};
use vstd::hash_map::StringHashMap;
use vstd::prelude::*;

verus! {

/// A comparison of a record's value with a comparand.
#[derive(Clone, Copy, Debug, PartialEq, Eq, Structural)]
pub enum Operator {
    Equals,
    NotEquals,
    GreaterThan,
    LessThan,
    GreaterThanOrEqual,
    LessThanOrEqual,
    Contains,
    NotContains,
}

/// What the registry hands out for a name.
pub type ComparisonFn = Operator;

/// The operator registered under `name`, if there is one.
pub open spec fn operator_named(name: Seq<char>) -> Option<Operator> {
    if name == "equals"@ {
        Some(Operator::Equals)
    } else if name == "!equals"@ {
        Some(Operator::NotEquals)
    } else if name == "greater_than"@ {
        Some(Operator::GreaterThan)
    } else if name == "less_than"@ {
        Some(Operator::LessThan)
    } else if name == "greater_than_or_equal"@ {
        Some(Operator::GreaterThanOrEqual)
    } else if name == "less_than_or_equal"@ {
        Some(Operator::LessThanOrEqual)
    } else if name == "contains"@ {
        Some(Operator::Contains)
    } else if name == "not_contains"@ {
        Some(Operator::NotContains)
    } else {
        None
    }
}

/// The registry: the map from each registered name to its operator.
pub open spec fn registry() -> Map<Seq<char>, Operator> {
    Map::new(
        |name: Seq<char>| operator_named(name) is Some,
        |name: Seq<char>| operator_named(name)->Some_0,
    )
}

/// The registry holds eight entries: the eight names are eight different
/// strings, and each stands for its own operator.
pub proof fn lemma_registry_entries()
    ensures
        operator_named("equals"@) == Some(Operator::Equals),
        operator_named("!equals"@) == Some(Operator::NotEquals),
        operator_named("greater_than"@) == Some(Operator::GreaterThan),
        operator_named("less_than"@) == Some(Operator::LessThan),
        operator_named("greater_than_or_equal"@) == Some(Operator::GreaterThanOrEqual),
        operator_named("less_than_or_equal"@) == Some(Operator::LessThanOrEqual),
        operator_named("contains"@) == Some(Operator::Contains),
        operator_named("not_contains"@) == Some(Operator::NotContains),
{
    reveal_strlit("equals");
    reveal_strlit("!equals");
    reveal_strlit("greater_than");
    reveal_strlit("less_than");
    reveal_strlit("greater_than_or_equal");
    reveal_strlit("less_than_or_equal");
    reveal_strlit("contains");
    reveal_strlit("not_contains");
    assert("equals"@.len() == 6);
    assert("!equals"@.len() == 7);
    assert("greater_than"@.len() == 12 && "greater_than"@[0] == 'g');
    assert("less_than"@.len() == 9);
    assert("greater_than_or_equal"@.len() == 21);
    assert("less_than_or_equal"@.len() == 18);
    assert("contains"@.len() == 8);
    assert("not_contains"@.len() == 12 && "not_contains"@[0] == 'n');
}

/// The values of the two operands of an ordering, each times 2^1074:
/// `Ok(None)` unless both operands are numbers, and a failure when both are
/// numbers and one of them is an infinity or a NaN.
pub open spec fn operands(item: Json, value: Json) -> Result<Option<(int, int)>, Error> {
    match item {
        Json::Number(a) => match value {
            Json::Number(b) => if a.finite() && b.finite() {
                Ok(Some((a.scaled(), b.scaled())))
            } else {
                Err(Error::InvalidNumber)
            },
            _ => Ok(None),
        },
        _ => Ok(None),
    }
}

/// `equals`: structural equality.
pub open spec fn equals_holds(item: Json, value: Json) -> bool {
    item.same(value)
}

/// `contains`: a string holds the comparand as a substring, or an array
/// holds the comparand, a string, as one of its items.
pub open spec fn contains_holds(item: Json, value: Json) -> bool {
    match value {
        Json::String(wanted) => match item {
            Json::String(text) => occurs_in(wanted, text),
            Json::Array(items) => exists|i: int|
                0 <= i < items.len() && #[trigger] items[i] == Json::String(wanted),
            _ => false,
        },
        _ => false,
    }
}

impl Operator {
    /// The result of this operator on a record's value and a comparand.
    pub open spec fn outcome(self, item: Json, value: Json) -> Result<bool, Error> {
        match self {
            Operator::Equals => Ok(equals_holds(item, value)),
            Operator::NotEquals => Ok(!equals_holds(item, value)),
            Operator::Contains => Ok(contains_holds(item, value)),
            Operator::NotContains => Ok(!contains_holds(item, value)),
            _ => match operands(item, value) {
                Err(e) => Err(e),
                Ok(None) => Ok(false),
                Ok(Some((a, b))) => Ok(
                    match self {
                        Operator::GreaterThan => a > b,
                        Operator::LessThan => a < b,
                        Operator::GreaterThanOrEqual => a >= b,
                        _ => a <= b,
                    },
                ),
            },
        }
    }

    /// Applies this operator to a record's value and a comparand.
    pub fn apply(&self, item_value: &Value, value: &Value) -> (result: Result<bool, Error>)
        ensures
            result == self.outcome(item_value@, value@),
    {
        match self {
            Operator::Equals => equals(item_value, value),
            Operator::NotEquals => not_equals(item_value, value),
            Operator::GreaterThan => greater_than(item_value, value),
            Operator::LessThan => less_than(item_value, value),
            Operator::GreaterThanOrEqual => greater_than_or_equal(item_value, value),
            Operator::LessThanOrEqual => less_than_or_equal(item_value, value),
            Operator::Contains => contains(item_value, value),
            Operator::NotContains => not_contains(item_value, value),
        }
    }
}

/// The registry as a map from names to operators.
pub fn get_operator_map() -> (map: StringHashMap<Operator>)
    ensures
        map@ == registry(),
{
    let mut m: StringHashMap<Operator> = StringHashMap::new();
    m.insert(String::from_str("equals"), Operator::Equals);
    m.insert(String::from_str("!equals"), Operator::NotEquals);
    m.insert(String::from_str("greater_than"), Operator::GreaterThan);
    m.insert(String::from_str("less_than"), Operator::LessThan);
    m.insert(String::from_str("greater_than_or_equal"), Operator::GreaterThanOrEqual);
    m.insert(String::from_str("less_than_or_equal"), Operator::LessThanOrEqual);
    m.insert(String::from_str("contains"), Operator::Contains);
    m.insert(String::from_str("not_contains"), Operator::NotContains);
    proof {
        lemma_registry_entries();
    }
    m
}

/// The operator registered under `operator`; `None` for any other name.
pub fn get_operator_fn(operator: &str) -> (found: Option<ComparisonFn>)
    ensures
        found == operator_named(operator@),
{
    let map: StringHashMap<Operator> = get_operator_map();
    match map.get(operator) {
        Some(op) => Some(*op),
        None => None,
    }
}

/// The ranks of the two operands of an ordering.
fn ranks(item_value: &Value, value: &Value) -> (result: Result<Option<(i64, i64)>, Error>)
    ensures
        match result {
            Ok(Some((a, b))) => {
                &&& item_value@ matches Json::Number(x)
                &&& value@ matches Json::Number(y)
                &&& x.finite() && y.finite()
                &&& a == x.rank_of() && b == y.rank_of()
                &&& operands(item_value@, value@) == Ok::<Option<(int, int)>, Error>(
                    Some((x.scaled(), y.scaled())),
                )
            },
            Ok(None) => operands(item_value@, value@) == Ok::<Option<(int, int)>, Error>(None),
            Err(e) => operands(item_value@, value@) == Err::<Option<(int, int)>, Error>(e),
        },
{
    match item_value {
        Value::Number(a) => match value {
            Value::Number(b) => match a.rank() {
                Some(x) => match b.rank() {
                    Some(y) => Ok(Some((x, y))),
                    None => Err(Error::InvalidNumber),
                },
                None => Err(Error::InvalidNumber),
            },
            _ => Ok(None),
        },
        _ => Ok(None),
    }
}

/// `equals`: whether the two values are structurally equal.
pub fn equals(item_value: &Value, value: &Value) -> (result: Result<bool, Error>)
    ensures
        result == Operator::Equals.outcome(item_value@, value@),
{
    Ok(item_value.equals(value))
}

/// `!equals`: the negation of `equals`.
pub fn not_equals(item_value: &Value, value: &Value) -> (result: Result<bool, Error>)
    ensures
        result == Operator::NotEquals.outcome(item_value@, value@),
{
    Ok(!item_value.equals(value))
}

/// `greater_than`: both operands are numbers and the record's is the greater.
pub fn greater_than(item_value: &Value, value: &Value) -> (result: Result<bool, Error>)
    ensures
        result == Operator::GreaterThan.outcome(item_value@, value@),
{
    match ranks(item_value, value) {
        Err(e) => Err(e),
        Ok(None) => Ok(false),
        Ok(Some((a, b))) => {
            proof {
                lemma_rank_orders_values(item_value@->Number_0, value@->Number_0);
            }
            Ok(a > b)
        },
    }
}

/// `less_than`: both operands are numbers and the record's is the smaller.
pub fn less_than(item_value: &Value, value: &Value) -> (result: Result<bool, Error>)
    ensures
        result == Operator::LessThan.outcome(item_value@, value@),
{
    match ranks(item_value, value) {
        Err(e) => Err(e),
        Ok(None) => Ok(false),
        Ok(Some((a, b))) => {
            proof {
                lemma_rank_orders_values(item_value@->Number_0, value@->Number_0);
            }
            Ok(a < b)
        },
    }
}

/// `greater_than_or_equal`: both operands are numbers and the record's is
/// not the smaller.
pub fn greater_than_or_equal(item_value: &Value, value: &Value) -> (result: Result<bool, Error>)
    ensures
        result == Operator::GreaterThanOrEqual.outcome(item_value@, value@),
{
    match ranks(item_value, value) {
        Err(e) => Err(e),
        Ok(None) => Ok(false),
        Ok(Some((a, b))) => {
            proof {
                lemma_rank_orders_values(item_value@->Number_0, value@->Number_0);
            }
            Ok(a >= b)
        },
    }
}

/// `less_than_or_equal`: both operands are numbers and the record's is not
/// the greater.
pub fn less_than_or_equal(item_value: &Value, value: &Value) -> (result: Result<bool, Error>)
    ensures
        result == Operator::LessThanOrEqual.outcome(item_value@, value@),
{
    match ranks(item_value, value) {
        Err(e) => Err(e),
        Ok(None) => Ok(false),
        Ok(Some((a, b))) => {
            proof {
                lemma_rank_orders_values(item_value@->Number_0, value@->Number_0);
            }
            Ok(a <= b)
        },
    }
}

/// Whether one of `items` is the string `wanted`.
fn holds_string(items: &Vec<Value>, wanted: &str) -> (found: bool)
    ensures
        found == exists|i: int|
            0 <= i < items@.len() && #[trigger] items_view(items@)[i] == Json::String(wanted@),
{
    let mut i: usize = 0;
    while i < items.len()
        invariant
            i <= items@.len(),
            forall|k: int| 0 <= k < i ==> #[trigger] items_view(items@)[k] != Json::String(wanted@),
        decreases items@.len() - i,
    {
        let is_wanted: bool = match &items[i] {
            Value::String(s) => str_eq(s.as_str(), wanted),
            _ => false,
        };
        if is_wanted {
            assert(items_view(items@)[i as int] == Json::String(wanted@));
            return true;
        }
        i = i + 1;
    }
    false
}

/// `contains`: substring of a string, or membership of a string in an array.
pub fn contains(item_value: &Value, value: &Value) -> (result: Result<bool, Error>)
    ensures
        result == Operator::Contains.outcome(item_value@, value@),
{
    match value {
        Value::String(wanted) => match item_value {
            Value::String(text) => Ok(str_contains(text.as_str(), wanted.as_str())),
            Value::Array(items) => Ok(holds_string(items, wanted.as_str())),
            _ => Ok(false),
        },
        _ => Ok(false),
    }
}

/// `not_contains`: the negation of `contains`.
pub fn not_contains(item_value: &Value, value: &Value) -> (result: Result<bool, Error>)
    ensures
        result == Operator::NotContains.outcome(item_value@, value@),
{
    match contains(item_value, value) {
        Ok(found) => Ok(!found),
        Err(e) => Err(e),
    }
}

} // verus!
