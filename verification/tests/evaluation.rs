use rust_ruleengine::error::{Error, ErrorKind};
use rust_ruleengine::number::Number;
use rust_ruleengine::operators::Operator;
use rust_ruleengine::value::Value;
use rust_ruleengine::{Condition, Logic};

fn num(x: f64) -> Value {
    Value::Number(Number::from_bits(x.to_bits()))
}

fn text(s: &str) -> Value {
    Value::String(s.to_string())
}

fn object(members: Vec<(&str, Value)>) -> Value {
    Value::Object(members.into_iter().map(|(k, v)| (k.to_string(), v)).collect())
}

fn leaf(property: &str, operator: &str, value: Value) -> Condition {
    Condition::new(
        Some(operator.to_string()),
        Some(property.to_string()),
        Some(value),
        None,
        None,
        None,
    )
}

fn from_context(property: &str, operator: &str, variable: &str) -> Condition {
    Condition::new(
        Some(operator.to_string()),
        Some(property.to_string()),
        None,
        Some(variable.to_string()),
        None,
        None,
    )
}

fn group(logic: Option<Logic>, children: Vec<Condition>) -> Condition {
    Condition::new(None, None, None, None, logic, Some(children))
}

fn empty() -> Value {
    object(vec![])
}

#[test]
fn adult_and_active_is_included() {
    let rule = group(
        Some(Logic::And),
        vec![leaf("age", "greater_than", num(18.0)), leaf("status", "equals", text("active"))],
    );
    let record = object(vec![("age", num(20.0)), ("status", text("active"))]);
    assert_eq!(rule.evaluate(&record, &empty()), Ok(true));
}

#[test]
fn minor_is_excluded() {
    let rule = group(
        Some(Logic::And),
        vec![leaf("age", "greater_than", num(18.0)), leaf("status", "equals", text("active"))],
    );
    let record = object(vec![("age", num(15.0)), ("status", text("active"))]);
    assert_eq!(rule.evaluate(&record, &empty()), Ok(false));
}

#[test]
fn record_without_age_is_excluded_without_error() {
    let rule = group(
        Some(Logic::And),
        vec![leaf("age", "greater_than", num(18.0)), leaf("status", "equals", text("active"))],
    );
    let record = object(vec![("status", text("active"))]);
    assert_eq!(rule.evaluate(&record, &empty()), Ok(false));
}

#[test]
fn comparand_from_context_is_used() {
    let rule = from_context("score", "greater_than_or_equal", "min_score");
    let context = object(vec![("min_score", num(50.0))]);
    let record = object(vec![("score", num(50.0))]);
    assert_eq!(rule.evaluate(&record, &context), Ok(true));
    let lower = object(vec![("score", num(49.5))]);
    assert_eq!(rule.evaluate(&lower, &context), Ok(false));
}

#[test]
fn variable_counts_where_a_node_has_both() {
    let rule = Condition::new(
        Some("equals".to_string()),
        Some("score".to_string()),
        Some(num(1.0)),
        Some("wanted".to_string()),
        None,
        None,
    );
    let context = object(vec![("wanted", num(2.0))]);
    assert_eq!(rule.evaluate(&object(vec![("score", num(2.0))]), &context), Ok(true));
    assert_eq!(rule.evaluate(&object(vec![("score", num(1.0))]), &context), Ok(false));
    assert_eq!(
        rule.evaluate(&object(vec![("score", num(1.0))]), &empty()),
        Err(Error::ContextValueNotFound)
    );
}

#[test]
fn missing_key_is_false_not_an_error() {
    let rule = leaf("x", "equals", num(1.0));
    assert_eq!(rule.evaluate(&empty(), &empty()), Ok(false));
}

#[test]
fn record_that_is_no_object_has_no_keys() {
    let rule = leaf("x", "equals", num(1.0));
    assert_eq!(rule.evaluate(&num(1.0), &empty()), Ok(false));
    assert_eq!(rule.evaluate(&Value::Null, &empty()), Ok(false));
    assert_eq!(rule.evaluate(&Value::Array(vec![num(1.0)]), &empty()), Ok(false));
}

#[test]
fn wildcard_comparand_passes_whatever_the_record_holds() {
    let rule = leaf("x", "greater_than", text("*"));
    assert_eq!(rule.evaluate(&object(vec![("x", num(3.0))]), &empty()), Ok(true));
    assert_eq!(rule.evaluate(&object(vec![("x", text("abc"))]), &empty()), Ok(true));
    assert_eq!(rule.evaluate(&object(vec![("x", Value::Null)]), &empty()), Ok(true));
    assert_eq!(rule.evaluate(&empty(), &empty()), Ok(true));
}

#[test]
fn wildcard_comparand_from_context_passes() {
    let rule = from_context("x", "equals", "any");
    let context = object(vec![("any", text("*"))]);
    assert_eq!(rule.evaluate(&object(vec![("x", num(3.0))]), &context), Ok(true));
}

#[test]
fn wildcard_comparand_needs_no_operator() {
    let rule = Condition::new(None, Some("x".to_string()), Some(text("*")), None, None, None);
    assert_eq!(rule.evaluate(&object(vec![("x", num(3.0))]), &empty()), Ok(true));
    let unknown = leaf("x", "no_such_operator", text("*"));
    assert_eq!(unknown.evaluate(&object(vec![("x", num(3.0))]), &empty()), Ok(true));
}

#[test]
fn wildcard_in_the_record_passes_where_the_key_exists() {
    let rule = leaf("x", "equals", num(1.0));
    assert_eq!(rule.evaluate(&object(vec![("x", text("*"))]), &empty()), Ok(true));
    let ordering = leaf("x", "less_than", num(1.0));
    assert_eq!(ordering.evaluate(&object(vec![("x", text("*"))]), &empty()), Ok(true));
    assert_eq!(ordering.evaluate(&object(vec![("y", text("*"))]), &empty()), Ok(false));
}

#[test]
fn wildcard_does_not_skip_the_children() {
    let rule = Condition::new(
        Some("equals".to_string()),
        Some("x".to_string()),
        Some(text("*")),
        None,
        Some(Logic::And),
        Some(vec![leaf("y", "equals", num(1.0))]),
    );
    assert_eq!(rule.evaluate(&object(vec![("x", num(0.0)), ("y", num(1.0))]), &empty()), Ok(true));
    assert_eq!(rule.evaluate(&object(vec![("x", num(0.0)), ("y", num(2.0))]), &empty()), Ok(false));
}

#[test]
fn node_without_constraint_passes() {
    let bare = Condition::new(None, None, None, None, None, None);
    assert_eq!(bare.evaluate(&empty(), &empty()), Ok(true));
    assert_eq!(bare.evaluate(&num(7.0), &Value::Null), Ok(true));
    let no_children = group(Some(Logic::Or), vec![]);
    assert_eq!(no_children.evaluate(&empty(), &empty()), Ok(true));
    let only_operator = Condition::new(
        Some("no_such_operator".to_string()),
        None,
        Some(num(1.0)),
        Some("missing".to_string()),
        Some(Logic::And),
        Some(vec![]),
    );
    assert_eq!(only_operator.evaluate(&object(vec![("x", num(1.0))]), &empty()), Ok(true));
}

#[test]
fn predicate_and_children_must_both_pass() {
    let rule = Condition::new(
        Some("equals".to_string()),
        Some("kind".to_string()),
        Some(text("user")),
        None,
        Some(Logic::Or),
        Some(vec![leaf("age", "less_than", num(10.0)), leaf("age", "greater_than", num(60.0))]),
    );
    let young = object(vec![("kind", text("user")), ("age", num(5.0))]);
    let middle = object(vec![("kind", text("user")), ("age", num(30.0))]);
    let old_robot = object(vec![("kind", text("robot")), ("age", num(70.0))]);
    assert_eq!(rule.evaluate(&young, &empty()), Ok(true));
    assert_eq!(rule.evaluate(&middle, &empty()), Ok(false));
    assert_eq!(rule.evaluate(&old_robot, &empty()), Ok(false));
}

#[test]
fn failed_predicate_hides_malformed_children() {
    let rule = Condition::new(
        Some("equals".to_string()),
        Some("kind".to_string()),
        Some(text("user")),
        None,
        None,
        Some(vec![leaf("age", "no_such_operator", num(10.0))]),
    );
    let robot = object(vec![("kind", text("robot")), ("age", num(70.0))]);
    let user = object(vec![("kind", text("user")), ("age", num(70.0))]);
    assert_eq!(rule.evaluate(&robot, &empty()), Ok(false));
    assert_eq!(rule.evaluate(&user, &empty()), Err(Error::OperatorNotFound));
}

#[test]
fn and_is_the_default_logic() {
    let rule = group(None, vec![leaf("a", "equals", num(1.0)), leaf("b", "equals", num(2.0))]);
    assert_eq!(rule.evaluate(&object(vec![("a", num(1.0)), ("b", num(2.0))]), &empty()), Ok(true));
    assert_eq!(rule.evaluate(&object(vec![("a", num(1.0)), ("b", num(3.0))]), &empty()), Ok(false));
}

#[test]
fn and_stops_at_the_first_false_child() {
    let malformed = leaf("a", "no_such_operator", num(1.0));
    let rule = group(Some(Logic::And), vec![leaf("a", "equals", num(2.0)), malformed]);
    let record = object(vec![("a", num(1.0))]);
    assert_eq!(rule.evaluate(&record, &empty()), Ok(false));
    assert_eq!(rule.satisfies_all(&record, &empty()), Ok(false));
}

#[test]
fn and_reports_an_error_that_comes_first() {
    let malformed = leaf("a", "no_such_operator", num(1.0));
    let rule = group(Some(Logic::And), vec![malformed, leaf("a", "equals", num(2.0))]);
    let record = object(vec![("a", num(1.0))]);
    assert_eq!(rule.evaluate(&record, &empty()), Err(Error::OperatorNotFound));
}

#[test]
fn and_reports_an_error_after_true_children() {
    let malformed = Condition::new(None, Some("a".to_string()), Some(num(1.0)), None, None, None);
    let rule = group(Some(Logic::And), vec![leaf("a", "equals", num(1.0)), malformed]);
    let record = object(vec![("a", num(1.0))]);
    assert_eq!(rule.evaluate(&record, &empty()), Err(Error::OperatorMissing));
}

#[test]
fn or_stops_at_the_first_true_child() {
    let malformed = leaf("a", "no_such_operator", num(1.0));
    let rule = group(Some(Logic::Or), vec![leaf("a", "equals", num(1.0)), malformed]);
    let record = object(vec![("a", num(1.0))]);
    assert_eq!(rule.evaluate(&record, &empty()), Ok(true));
    assert_eq!(rule.satisfies_any(&record, &empty()), Ok(true));
}

#[test]
fn or_reports_an_error_after_false_children() {
    let malformed = leaf("a", "no_such_operator", num(1.0));
    let rule = group(Some(Logic::Or), vec![leaf("a", "equals", num(2.0)), malformed]);
    let record = object(vec![("a", num(1.0))]);
    assert_eq!(rule.evaluate(&record, &empty()), Err(Error::OperatorNotFound));
}

#[test]
fn or_is_false_where_no_child_passes() {
    let rule = group(
        Some(Logic::Or),
        vec![leaf("a", "equals", num(2.0)), leaf("a", "equals", num(3.0))],
    );
    assert_eq!(rule.evaluate(&object(vec![("a", num(1.0))]), &empty()), Ok(false));
    assert_eq!(rule.evaluate(&object(vec![("a", num(3.0))]), &empty()), Ok(true));
}

#[test]
fn nested_groups_are_evaluated() {
    let rule = group(
        Some(Logic::And),
        vec![
            leaf("country", "equals", text("NL")),
            group(
                Some(Logic::Or),
                vec![
                    leaf("tags", "contains", text("vip")),
                    group(
                        None,
                        vec![
                            leaf("age", "greater_than_or_equal", num(18.0)),
                            leaf("age", "less_than", num(65.0)),
                        ],
                    ),
                ],
            ),
        ],
    );
    let vip = object(vec![
        ("country", text("NL")),
        ("tags", Value::Array(vec![text("new"), text("vip")])),
        ("age", num(80.0)),
    ]);
    let adult = object(vec![
        ("country", text("NL")),
        ("tags", Value::Array(vec![])),
        ("age", num(18.0)),
    ]);
    let senior = object(vec![
        ("country", text("NL")),
        ("tags", Value::Array(vec![])),
        ("age", num(65.0)),
    ]);
    let abroad = object(vec![
        ("country", text("BE")),
        ("tags", Value::Array(vec![text("vip")])),
        ("age", num(30.0)),
    ]);
    assert_eq!(rule.evaluate(&vip, &empty()), Ok(true));
    assert_eq!(rule.evaluate(&adult, &empty()), Ok(true));
    assert_eq!(rule.evaluate(&senior, &empty()), Ok(false));
    assert_eq!(rule.evaluate(&abroad, &empty()), Ok(false));
}

#[test]
fn missing_context_value_is_a_lookup_error() {
    let rule = from_context("score", "equals", "min_score");
    let record = object(vec![("score", num(50.0))]);
    let result = rule.evaluate(&record, &empty());
    assert_eq!(result, Err(Error::ContextValueNotFound));
    assert_eq!(Error::ContextValueNotFound.kind(), ErrorKind::Lookup);
    assert_eq!(rule.evaluate(&record, &Value::Null), Err(Error::ContextValueNotFound));
}

#[test]
fn context_is_read_before_the_record() {
    let rule = from_context("score", "equals", "min_score");
    assert_eq!(rule.evaluate(&empty(), &empty()), Err(Error::ContextValueNotFound));
}

#[test]
fn missing_comparand_is_a_configuration_error() {
    let rule = Condition::new(
        Some("equals".to_string()),
        Some("score".to_string()),
        None,
        None,
        None,
        None,
    );
    let record = object(vec![("score", num(50.0))]);
    assert_eq!(rule.evaluate(&record, &empty()), Err(Error::ValueMissing));
    assert_eq!(rule.evaluate(&empty(), &empty()), Err(Error::ValueMissing));
    assert_eq!(Error::ValueMissing.kind(), ErrorKind::Configuration);
}

#[test]
fn missing_operator_is_a_configuration_error() {
    let rule = Condition::new(None, Some("score".to_string()), Some(num(1.0)), None, None, None);
    let record = object(vec![("score", num(50.0))]);
    assert_eq!(rule.evaluate(&record, &empty()), Err(Error::OperatorMissing));
    assert_eq!(rule.get_cached_operator_fn(), Err(Error::OperatorMissing));
    assert_eq!(Error::OperatorMissing.kind(), ErrorKind::Configuration);
}

#[test]
fn unknown_operator_is_a_configuration_error() {
    let rule = leaf("score", "roughly", num(1.0));
    let record = object(vec![("score", num(50.0))]);
    assert_eq!(rule.evaluate(&record, &empty()), Err(Error::OperatorNotFound));
    assert_eq!(rule.get_cached_operator_fn(), Err(Error::OperatorNotFound));
    assert_eq!(rule.get_cached_operator_fn(), Err(Error::OperatorNotFound));
    assert_eq!(Error::OperatorNotFound.kind(), ErrorKind::Configuration);
}

#[test]
fn unknown_operator_is_not_looked_at_where_the_key_is_missing() {
    let rule = leaf("score", "roughly", num(1.0));
    assert_eq!(rule.evaluate(&empty(), &empty()), Ok(false));
}

#[test]
fn children_of_a_node_without_conditions_are_an_error() {
    let rule = leaf("score", "equals", num(1.0));
    let record = object(vec![("score", num(1.0))]);
    assert_eq!(rule.satisfies_all(&record, &empty()), Err(Error::ConditionsMissing));
    assert_eq!(rule.satisfies_any(&record, &empty()), Err(Error::ConditionsMissing));
    assert_eq!(Error::ConditionsMissing.kind(), ErrorKind::Configuration);
}

#[test]
fn empty_conditions_combine_to_their_neutral_verdict() {
    let rule = group(None, vec![]);
    assert_eq!(rule.satisfies_all(&empty(), &empty()), Ok(true));
    assert_eq!(rule.satisfies_any(&empty(), &empty()), Ok(false));
}

#[test]
fn ordering_of_a_nan_is_a_type_error() {
    let rule = leaf("score", "greater_than", num(f64::NAN));
    let record = object(vec![("score", num(50.0))]);
    assert_eq!(rule.evaluate(&record, &empty()), Err(Error::InvalidNumber));
    assert_eq!(Error::InvalidNumber.kind(), ErrorKind::Type);
}

#[test]
fn memo_is_filled_by_the_first_resolution() {
    let rule = leaf("score", "contains", text("a"));
    assert_eq!(rule.cached_operator(), None);
    assert_eq!(rule.get_cached_operator_fn(), Ok(Operator::Contains));
    assert_eq!(rule.cached_operator(), Some(Operator::Contains));
    assert_eq!(rule.get_cached_operator_fn(), Ok(Operator::Contains));
    assert_eq!(rule.cached_operator(), Some(Operator::Contains));
}

#[test]
fn memo_is_filled_by_an_evaluation_that_needs_the_operator() {
    let rule = leaf("score", "greater_than", num(1.0));
    assert_eq!(rule.evaluate(&empty(), &empty()), Ok(false));
    assert_eq!(rule.cached_operator(), None);
    assert_eq!(rule.evaluate(&object(vec![("score", text("*"))]), &empty()), Ok(true));
    assert_eq!(rule.cached_operator(), None);
    assert_eq!(rule.evaluate(&object(vec![("score", num(2.0))]), &empty()), Ok(true));
    assert_eq!(rule.cached_operator(), Some(Operator::GreaterThan));
}

#[test]
fn memo_stays_empty_where_the_resolution_fails() {
    let unknown = leaf("score", "roughly", num(1.0));
    assert_eq!(unknown.get_cached_operator_fn(), Err(Error::OperatorNotFound));
    assert_eq!(unknown.cached_operator(), None);
    let unnamed = Condition::new(None, Some("score".to_string()), Some(num(1.0)), None, None, None);
    assert_eq!(unnamed.get_cached_operator_fn(), Err(Error::OperatorMissing));
    assert_eq!(unnamed.cached_operator(), None);
}

#[test]
fn resolved_operator_is_remembered() {
    let rule = leaf("score", "less_than_or_equal", num(1.0));
    assert_eq!(rule.get_cached_operator_fn(), Ok(Operator::LessThanOrEqual));
    assert_eq!(rule.get_cached_operator_fn(), Ok(Operator::LessThanOrEqual));
    let record = object(vec![("score", num(1.0))]);
    assert_eq!(rule.evaluate(&record, &empty()), Ok(true));
    assert_eq!(rule.evaluate(&record, &empty()), Ok(true));
    assert_eq!(rule.evaluate(&object(vec![("score", num(1.5))]), &empty()), Ok(false));
}

#[test]
fn parts_of_a_node_can_be_read_back() {
    let child = leaf("b", "contains", text("x"));
    let rule = Condition::new(
        Some("equals".to_string()),
        Some("a".to_string()),
        Some(num(1.0)),
        Some("v".to_string()),
        Some(Logic::Or),
        Some(vec![child]),
    );
    assert_eq!(rule.operator(), Some(&"equals".to_string()));
    assert_eq!(rule.property(), Some(&"a".to_string()));
    assert_eq!(rule.value(), Some(&num(1.0)));
    assert_eq!(rule.variable(), Some(&"v".to_string()));
    assert_eq!(rule.logic(), Some(Logic::Or));
    let children = rule.conditions().unwrap();
    assert_eq!(children.len(), 1);
    assert_eq!(children[0].property(), Some(&"b".to_string()));
    assert_eq!(children[0].logic(), None);
    assert!(children[0].conditions().is_none());
    assert!(children[0].variable().is_none());
}

#[test]
fn error_messages_name_the_failure() {
    assert_eq!(Error::ContextValueNotFound.message(), "Error getting context value");
    assert_eq!(Error::ValueMissing.message(), "Error getting value");
    assert_eq!(Error::OperatorMissing.message(), "Operator is required");
    assert_eq!(Error::OperatorNotFound.message(), "Operator not found");
    assert_eq!(Error::ConditionsMissing.message(), "Error with conditions");
    assert_eq!(Error::InvalidNumber.message(), "Invalid number conversion");
}
