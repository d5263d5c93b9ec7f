//! Rules as documents.
//!
//! A rule is written down as a JSON object with the keys `operator`,
//! `property`, `value`, `variable`, `logic` and `conditions`. A key that is
//! absent and a key that holds `null` both stand for a part that the node
//! does not have. `logic` is one of the strings `"And"` and `"Or"`, and
//! `conditions` an array of such objects. Other keys are passed over.

use crate::condition::{nodes_view, text_of, Condition, Logic, Node};
use crate::text::str_eq;
use crate::value::{
    items_view, lemma_binding, lemma_live_is_binding, live, members_view, Json, Value,
};
use vstd::prelude::*;

verus! {

/// What is wrong with a document that is no rule.
#[derive(Clone, Copy, Debug, PartialEq, Eq, Structural)]
pub enum ShapeError {
    /// The document, or one of the conditions in it, is no object.
    NotAnObject,
    /// `operator` is neither a string nor null.
    Operator,
    /// `property` is neither a string nor null.
    Property,
    /// `variable` is neither a string nor null.
    Variable,
    /// `logic` is none of `"And"`, `"Or"` and null.
    Logic,
    /// `conditions` is neither an array nor null.
    Conditions,
}

impl ShapeError {
    /// The text of this failure.
    pub open spec fn text(self) -> Seq<char> {
        match self {
            ShapeError::NotAnObject => "a rule must be an object"@,
            ShapeError::Operator => "operator must be a string"@,
            ShapeError::Property => "property must be a string"@,
            ShapeError::Variable => "variable must be a string"@,
            ShapeError::Logic => "logic must be \"And\" or \"Or\""@,
            ShapeError::Conditions => "conditions must be an array"@,
        }
    }

    /// The text of this failure, for messages.
    pub fn message(&self) -> (message: String)
        ensures
            message@ == self.text(),
    {
        match self {
            ShapeError::NotAnObject => String::from_str("a rule must be an object"),
            ShapeError::Operator => String::from_str("operator must be a string"),
            ShapeError::Property => String::from_str("property must be a string"),
            ShapeError::Variable => String::from_str("variable must be a string"),
            ShapeError::Logic => String::from_str("logic must be \"And\" or \"Or\""),
            ShapeError::Conditions => String::from_str("conditions must be an array"),
        }
    }
}

/// What `document` holds under `key`, with null taken as absent.
pub open spec fn present(document: Json, key: Seq<char>) -> Option<Json> {
    match document.member(key) {
        Some(Json::Null) => None,
        found => found,
    }
}

/// The optional string that `document` holds under `key`; `error` where it
/// holds something else.
pub open spec fn text_part(document: Json, key: Seq<char>, error: ShapeError) -> Result<
    Option<Seq<char>>,
    ShapeError,
> {
    match present(document, key) {
        None => Ok(None),
        Some(Json::String(text)) => Ok(Some(text)),
        Some(_) => Err(error),
    }
}

/// The optional logic that `document` holds under `logic`.
pub open spec fn logic_part(document: Json) -> Result<Option<Logic>, ShapeError> {
    match present(document, "logic"@) {
        None => Ok(None),
        Some(Json::String(name)) => if name == "And"@ {
            Ok(Some(Logic::And))
        } else if name == "Or"@ {
            Ok(Some(Logic::Or))
        } else {
            Err(ShapeError::Logic)
        },
        Some(_) => Err(ShapeError::Logic),
    }
}

/// The nodes that the first `n` of `documents` stand for, or what is wrong
/// with the first of them that is no rule.
pub open spec fn nodes_from(documents: Seq<Json>, n: nat) -> Result<Seq<Node>, ShapeError>
    decreases documents, n,
{
    if n == 0 || n > documents.len() {
        Ok(Seq::empty())
    } else {
        match nodes_from(documents, (n - 1) as nat) {
            Err(e) => Err(e),
            Ok(front) => match node_of(documents[n - 1]) {
                Err(e) => Err(e),
                Ok(node) => Ok(front.push(node)),
            },
        }
    }
}

/// The optional children that `document` holds under `conditions`.
pub open spec fn conditions_part(document: Json) -> Result<Option<Seq<Node>>, ShapeError>
    decreases document, 0nat,
{
    match present(document, "conditions"@) {
        None => Ok(None),
        Some(Json::Array(documents)) => {
            proof {
                if document is Object {
                    lemma_binding(document->Object_0, "conditions"@);
                }
            }
            match nodes_from(documents, documents.len()) {
                Err(e) => Err(e),
                Ok(nodes) => Ok(Some(nodes)),
            }
        },
        Some(_) => Err(ShapeError::Conditions),
    }
}

/// The node that `document` stands for, or what is wrong with it. The
/// parts are looked at in the order `operator`, `property`, `variable`,
/// `logic`, `conditions`, and the first that is malformed decides.
pub open spec fn node_of(document: Json) -> Result<Node, ShapeError>
    decreases document, 1nat,
{
    if !(document is Object) {
        Err(ShapeError::NotAnObject)
    } else {
        match text_part(document, "operator"@, ShapeError::Operator) {
            Err(e) => Err(e),
            Ok(operator) => match text_part(document, "property"@, ShapeError::Property) {
                Err(e) => Err(e),
                Ok(property) => match text_part(document, "variable"@, ShapeError::Variable) {
                    Err(e) => Err(e),
                    Ok(variable) => match logic_part(document) {
                        Err(e) => Err(e),
                        Ok(logic) => match conditions_part(document) {
                            Err(e) => Err(e),
                            Ok(conditions) => Ok(
                                Node {
                                    operator,
                                    property,
                                    value: present(document, "value"@),
                                    variable,
                                    logic,
                                    conditions,
                                },
                            ),
                        },
                    },
                },
            },
        }
    }
}

/// An optional string as a JSON value.
pub open spec fn text_json(text: Option<Seq<char>>) -> Json {
    match text {
        Some(s) => Json::String(s),
        None => Json::Null,
    }
}

/// An optional logic as a JSON value.
pub open spec fn logic_json(logic: Option<Logic>) -> Json {
    match logic {
        Some(Logic::And) => Json::String("And"@),
        Some(Logic::Or) => Json::String("Or"@),
        None => Json::Null,
    }
}

/// The documents of a sequence of nodes.
pub open spec fn documents_of(nodes: Seq<Node>) -> Seq<Json>
    decreases nodes, 0nat,
{
    Seq::new(
        nodes.len(),
        |i: int|
            if 0 <= i < nodes.len() {
                document_of(nodes[i])
            } else {
                Json::Null
            },
    )
}

/// The document of a node: an object with all six keys, in which a part
/// that the node does not have is null.
pub open spec fn document_of(node: Node) -> Json
    decreases node, 0nat,
{
    Json::Object(
        seq![
            ("operator"@, text_json(node.operator)),
            ("property"@, text_json(node.property)),
            (
                "value"@,
                match node.value {
                    Some(literal) => literal,
                    None => Json::Null,
                },
            ),
            ("variable"@, text_json(node.variable)),
            ("logic"@, logic_json(node.logic)),
            (
                "conditions"@,
                match node.conditions {
                    Some(children) => Json::Array(documents_of(children)),
                    None => Json::Null,
                },
            ),
        ],
    )
}

/// No node of the tree has the literal null as its comparand. In a
/// document such a comparand cannot be told from one that is absent.
pub open spec fn plain(node: Node) -> bool
    decreases node,
{
    &&& node.value != Some(Json::Null)
    &&& node.conditions matches Some(children) ==> forall|i: int|
        0 <= i < children.len() ==> plain(#[trigger] children[i])
}

/// The six keys are six different strings, and `"And"` is not `"Or"`.
proof fn lemma_keys_differ()
    ensures
        "operator"@ != "property"@,
        "operator"@ != "value"@,
        "operator"@ != "variable"@,
        "operator"@ != "logic"@,
        "operator"@ != "conditions"@,
        "property"@ != "value"@,
        "property"@ != "variable"@,
        "property"@ != "logic"@,
        "property"@ != "conditions"@,
        "value"@ != "variable"@,
        "value"@ != "logic"@,
        "value"@ != "conditions"@,
        "variable"@ != "logic"@,
        "variable"@ != "conditions"@,
        "logic"@ != "conditions"@,
        "And"@ != "Or"@,
{
    reveal_strlit("operator");
    reveal_strlit("property");
    reveal_strlit("value");
    reveal_strlit("variable");
    reveal_strlit("logic");
    reveal_strlit("conditions");
    reveal_strlit("And");
    reveal_strlit("Or");
    assert("operator"@.len() == 8 && "operator"@[0] == 'o');
    assert("property"@.len() == 8 && "property"@[0] == 'p');
    assert("variable"@.len() == 8 && "variable"@[0] == 'v');
    assert("value"@.len() == 5 && "value"@[0] == 'v');
    assert("logic"@.len() == 5 && "logic"@[0] == 'l');
    assert("conditions"@.len() == 10);
    assert("And"@.len() == 3);
    assert("Or"@.len() == 2);
}

/// What the document of a node holds under each of the six keys.
proof fn lemma_document_members(node: Node)
    ensures
        document_of(node) is Object,
        document_of(node).member("operator"@) == Some(text_json(node.operator)),
        document_of(node).member("property"@) == Some(text_json(node.property)),
        document_of(node).member("value"@) == Some(
            match node.value {
                Some(literal) => literal,
                None => Json::Null,
            },
        ),
        document_of(node).member("variable"@) == Some(text_json(node.variable)),
        document_of(node).member("logic"@) == Some(logic_json(node.logic)),
        document_of(node).member("conditions"@) == Some(
            match node.conditions {
                Some(children) => Json::Array(documents_of(children)),
                None => Json::Null,
            },
        ),
{
    lemma_keys_differ();
    let members = document_of(node)->Object_0;
    lemma_live_is_binding(members, "operator"@, 0);
    lemma_live_is_binding(members, "property"@, 1);
    lemma_live_is_binding(members, "value"@, 2);
    lemma_live_is_binding(members, "variable"@, 3);
    lemma_live_is_binding(members, "logic"@, 4);
    lemma_live_is_binding(members, "conditions"@, 5);
}

/// The documents of plain nodes stand for those nodes.
proof fn lemma_round_trip_all(nodes: Seq<Node>, n: nat)
    requires
        n <= nodes.len(),
        forall|i: int| 0 <= i < nodes.len() ==> plain(#[trigger] nodes[i]),
    ensures
        nodes_from(documents_of(nodes), n) == Ok::<Seq<Node>, ShapeError>(nodes.subrange(0, n as int)),
    decreases nodes, n,
{
    if n > 0 {
        lemma_round_trip_all(nodes, (n - 1) as nat);
        lemma_round_trip(nodes[n - 1]);
        assert(nodes.subrange(0, n - 1).push(nodes[n - 1]) =~= nodes.subrange(0, n as int));
    } else {
        assert(nodes.subrange(0, 0) =~= Seq::<Node>::empty());
    }
}

/// To write a rule down and to read it again gives the rule back, so the
/// rule that was read decides on every record and context as the rule that
/// was written does. This holds of every plain rule: a literal null as a
/// comparand is read back as no comparand.
pub proof fn lemma_round_trip(node: Node)
    requires
        plain(node),
    ensures
        node_of(document_of(node)) == Ok::<Node, ShapeError>(node),
        forall|item: Json, context: Json|
            (#[trigger] node_of(document_of(node))->Ok_0.verdict(item, context)) == node.verdict(
                item,
                context,
            ),
    decreases node, 1nat,
{
    lemma_document_members(node);
    lemma_keys_differ();
    if let Some(children) = node.conditions {
        lemma_round_trip_all(children, children.len());
        assert(children.subrange(0, children.len() as int) =~= children);
    }
}

/// An optional string as a value.
fn text_value(text: Option<&String>) -> (value: Value)
    ensures
        value@ == text_json(
            match text {
                Some(s) => Some(s@),
                None => None,
            },
        ),
{
    match text {
        Some(s) => Value::String(s.clone()),
        None => Value::Null,
    }
}

/// An optional logic as a value.
fn logic_value(logic: Option<Logic>) -> (value: Value)
    ensures
        value@ == logic_json(logic),
{
    match logic {
        Some(Logic::And) => Value::String(String::from_str("And")),
        Some(Logic::Or) => Value::String(String::from_str("Or")),
        None => Value::Null,
    }
}

/// The optional string that `document` holds under `key`.
fn text_member(document: &Value, key: &str, error: ShapeError) -> (result: Result<
    Option<String>,
    ShapeError,
>)
    ensures
        match result {
            Ok(text) => text_part(document@, key@, error) == Ok::<Option<Seq<char>>, ShapeError>(
                text_of(text),
            ),
            Err(e) => text_part(document@, key@, error) == Err::<Option<Seq<char>>, ShapeError>(e),
        },
{
    match document.get(key) {
        None => Ok(None),
        Some(Value::Null) => Ok(None),
        Some(Value::String(text)) => Ok(Some(text.clone())),
        Some(_) => Err(error),
    }
}

/// The optional logic that `document` holds under `logic`.
fn logic_member(document: &Value) -> (result: Result<Option<Logic>, ShapeError>)
    ensures
        result == logic_part(document@),
{
    match document.get("logic") {
        None => Ok(None),
        Some(Value::Null) => Ok(None),
        Some(Value::String(name)) => {
            if str_eq(name.as_str(), "And") {
                Ok(Some(Logic::And))
            } else if str_eq(name.as_str(), "Or") {
                Ok(Some(Logic::Or))
            } else {
                Err(ShapeError::Logic)
            }
        },
        Some(_) => Err(ShapeError::Logic),
    }
}

impl Condition {
    /// The document of this rule: an object with all six keys.
    pub fn to_value(&self) -> (document: Value)
        ensures
            document@ == document_of(self@),
        decreases self@,
    {
        let conditions: Value = match self.conditions() {
            Some(children) => {
                let ghost nodes = nodes_view(children@);
                let mut documents: Vec<Value> = Vec::new();
                let mut i: usize = 0;
                while i < children.len()
                    invariant
                        i <= children@.len(),
                        nodes == nodes_view(children@),
                        decreases_to!(self@ => nodes),
                        documents@.len() == i,
                        forall|k: int|
                            0 <= k < i ==> (#[trigger] documents@[k])@ == document_of(nodes[k]),
                    decreases children@.len() - i,
                {
                    assert(decreases_to!(nodes => nodes[i as int]));
                    documents.push(children[i].to_value());
                    i = i + 1;
                }
                assert(items_view(documents@) =~= documents_of(nodes));
                Value::Array(documents)
            },
            None => Value::Null,
        };
        let mut members: Vec<(String, Value)> = Vec::new();
        members.push((String::from_str("operator"), text_value(self.operator())));
        members.push((String::from_str("property"), text_value(self.property())));
        members.push(
            (
                String::from_str("value"),
                match self.value() {
                    Some(literal) => literal.clone(),
                    None => Value::Null,
                },
            ),
        );
        members.push((String::from_str("variable"), text_value(self.variable())));
        members.push((String::from_str("logic"), logic_value(self.logic())));
        members.push((String::from_str("conditions"), conditions));
        assert(members_view(members@) =~= document_of(self@)->Object_0);
        Value::Object(members)
    }

    /// The rule that `document` stands for, or what is wrong with the
    /// document.
    #[verifier::loop_isolation(false)]
    pub fn from_value(document: &Value) -> (result: Result<Condition, ShapeError>)
        ensures
            match result {
                Ok(rule) => node_of(document@) == Ok::<Node, ShapeError>(rule@),
                Err(e) => node_of(document@) == Err::<Node, ShapeError>(e),
            },
        decreases document@,
    {
        match document {
            Value::Object(_) => {},
            _ => {
                return Err(ShapeError::NotAnObject);
            },
        }
        let operator: Option<String> = match text_member(document, "operator", ShapeError::Operator) {
            Ok(text) => text,
            Err(e) => {
                return Err(e);
            },
        };
        let property: Option<String> = match text_member(document, "property", ShapeError::Property) {
            Ok(text) => text,
            Err(e) => {
                return Err(e);
            },
        };
        let variable: Option<String> = match text_member(document, "variable", ShapeError::Variable) {
            Ok(text) => text,
            Err(e) => {
                return Err(e);
            },
        };
        let logic: Option<Logic> = match logic_member(document) {
            Ok(logic) => logic,
            Err(e) => {
                return Err(e);
            },
        };
        let conditions: Option<Vec<Condition>> = match document.get("conditions") {
            None => None,
            Some(Value::Null) => None,
            Some(Value::Array(documents)) => {
                let ghost models = items_view(documents@);
                proof {
                    lemma_binding(document@->Object_0, "conditions"@);
                }
                let mut children: Vec<Condition> = Vec::new();
                let mut i: usize = 0;
                assert(nodes_view(children@) =~= Seq::<Node>::empty());
                while i < documents.len()
                    invariant
                        i <= documents@.len(),
                        models == items_view(documents@),
                        present(document@, "conditions"@) == Some(Json::Array(models)),
                        decreases_to!(document@ => models),
                        nodes_from(models, i as nat) == Ok::<Seq<Node>, ShapeError>(
                            nodes_view(children@),
                        ),
                    decreases documents@.len() - i,
                {
                    assert(decreases_to!(models => models[i as int]));
                    match Condition::from_value(&documents[i]) {
                        Ok(child) => {
                            let ghost before = nodes_view(children@);
                            children.push(child);
                            assert(nodes_view(children@) =~= before.push(child@));
                        },
                        Err(e) => {
                            proof {
                                lemma_nodes_from_failed(models, (i + 1) as nat, models.len());
                            }
                            return Err(e);
                        },
                    }
                    i = i + 1;
                }
                Some(children)
            },
            Some(_) => {
                return Err(ShapeError::Conditions);
            },
        };
        let value: Option<Value> = match document.get("value") {
            None => None,
            Some(Value::Null) => None,
            Some(literal) => Some(literal.clone()),
        };
        Ok(Condition::new(operator, property, value, variable, logic, conditions))
    }
}

/// Once one of the first `n` documents is no rule, more documents change
/// nothing.
proof fn lemma_nodes_from_failed(documents: Seq<Json>, n: nat, m: nat)
    requires
        n <= m <= documents.len(),
        nodes_from(documents, n) is Err,
    ensures
        nodes_from(documents, m) == nodes_from(documents, n),
    decreases m,
{
    if n < m {
        lemma_nodes_from_failed(documents, n, (m - 1) as nat);
    }
}

} // verus!
