//! A builder for queries, with names after MongoDB: find, sort, limit.
//!
//! A query compiles to the query text that the server evaluates, or to a
//! structured query object that needs no evaluation.

use crate::json::{
    json_array, json_bool, json_list_text, json_list_to_text, json_member, json_shape,
    json_shapes, json_string, json_text, json_to_text, JsonShape,
};
use crate::text::{decimal_chars, decimal_string};
use vstd::prelude::*;

verus! {

/// The direction of a sort.
#[derive(Debug, Clone, Copy, PartialEq, Eq, Structural)]
pub enum SortDir {
    Asc,
    Desc,
}

impl SortDir {
    /// The word for the direction: `asc` or `desc`.
    pub open spec fn word(self) -> Seq<char> {
        match self {
            SortDir::Asc => "asc"@,
            SortDir::Desc => "desc"@,
        }
    }

    /// The word for the direction: `asc` or `desc`.
    pub fn to_string(&self) -> (text: String)
        ensures
            text@ == self.word(),
    {
        match self {
            SortDir::Asc => String::from_str("asc"),
            SortDir::Desc => String::from_str("desc"),
        }
    }
}

/// One key of a sort: a field and, where it is given, the direction.
#[derive(Debug, Clone)]
pub struct SortSpec {
    pub field: String,
    pub direction: Option<String>,
}

/// How a subscription to changes starts.
#[derive(Debug, Clone)]
pub struct ChangesSpec {
    pub include_initial: bool,
}

/// A query as an object, for the server to run without evaluating text.
#[derive(Debug, Clone)]
pub struct StructuredQuery {
    pub table: String,
    pub filter: Option<serde_json::Value>,
    pub sort: Option<Vec<SortSpec>>,
    pub limit: Option<usize>,
    pub skip: Option<usize>,
    pub changes: Option<ChangesSpec>,
}

/// A number to compare a field with, in the two forms in which a query
/// carries it: the text that stands in the query text, and the JSON value
/// that stands in the structured query.
#[derive(Debug)]
pub struct Number {
    pub text: String,
    pub json: serde_json::Value,
}

impl Clone for Number {
    fn clone(&self) -> (n: Self)
        ensures
            n.text@ == self.text@,
            json_shape(n.json) == json_shape(self.json),
    {
        Number { text: self.text.clone(), json: self.json.clone() }
    }
}

impl Number {
    /// The number with the given text and JSON value.
    pub fn new(text: &str, json: serde_json::Value) -> (n: Self)
        ensures
            n.text@ == text@,
            n.json == json,
    {
        Number { text: String::from_str(text), json }
    }
}

/// A condition on the documents of a table.
#[derive(Debug)]
pub enum Filter {
    Eq(String, serde_json::Value),
    Ne(String, serde_json::Value),
    Gt(String, Number),
    Gte(String, Number),
    Lt(String, Number),
    Lte(String, Number),
    In(String, Vec<serde_json::Value>),
    NotIn(String, Vec<serde_json::Value>),
    Contains(String, String),
    StartsWith(String, String),
    EndsWith(String, String),
    Exists(String, bool),
    And(Vec<Filter>),
    Or(Vec<Filter>),
    Not(Box<Filter>),
}

/// The texts of `parts` with `sep` between each two of them.
pub open spec fn joined(parts: Seq<Seq<char>>, sep: Seq<char>) -> Seq<char>
    decreases parts.len(),
{
    if parts.len() == 0 {
        Seq::empty()
    } else if parts.len() == 1 {
        parts[0]
    } else {
        joined(parts.drop_last(), sep) + sep + parts.last()
    }
}

/// The text of a list of values in a query text: their compact JSON as one
/// array, or an empty array where that cannot be written.
pub open spec fn list_text(values: Seq<serde_json::Value>) -> Seq<char> {
    match json_list_text(json_shapes(values)) {
        Some(text) => text,
        None => "[]"@,
    }
}

/// The text of a string in a query text: the string as JSON, in quotes and
/// with its special characters escaped.
pub open spec fn quoted(s: Seq<char>) -> Seq<char> {
    json_text(JsonShape::String(s))
}

impl Filter {
    /// The condition as an expression over `doc`, the document under test.
    pub open spec fn compiled(self) -> Seq<char>
        decreases self,
    {
        match self {
            Filter::Eq(field, value) => "doc."@ + field@ + " === "@ + json_text(json_shape(value)),
            Filter::Ne(field, value) => "doc."@ + field@ + " !== "@ + json_text(json_shape(value)),
            Filter::Gt(field, n) => "doc."@ + field@ + " > "@ + n.text@,
            Filter::Gte(field, n) => "doc."@ + field@ + " >= "@ + n.text@,
            Filter::Lt(field, n) => "doc."@ + field@ + " < "@ + n.text@,
            Filter::Lte(field, n) => "doc."@ + field@ + " <= "@ + n.text@,
            Filter::In(field, values) => list_text(values@) + ".includes(doc."@ + field@ + ")"@,
            Filter::NotIn(field, values) => "!"@ + list_text(values@) + ".includes(doc."@ + field@
                + ")"@,
            Filter::Contains(field, s) => "doc."@ + field@ + ".includes("@ + quoted(s@) + ")"@,
            Filter::StartsWith(field, s) => "doc."@ + field@ + ".startsWith("@ + quoted(s@)
                + ")"@,
            Filter::EndsWith(field, s) => "doc."@ + field@ + ".endsWith("@ + quoted(s@) + ")"@,
            Filter::Exists(field, present) => if present {
                "doc."@ + field@ + " !== undefined"@
            } else {
                "doc."@ + field@ + " === undefined"@
            },
            Filter::And(conditions) => "("@ + joined(compiled_all(conditions@), " && "@) + ")"@,
            Filter::Or(conditions) => "("@ + joined(compiled_all(conditions@), " || "@) + ")"@,
            Filter::Not(condition) => "!("@ + condition.compiled() + ")"@,
        }
    }
}

/// The expressions of a run of conditions, in order.
pub open spec fn compiled_all(conditions: Seq<Filter>) -> Seq<Seq<char>>
    decreases conditions,
{
    if conditions.len() == 0 {
        Seq::empty()
    } else {
        compiled_all(conditions.drop_last()).push(conditions.last().compiled())
    }
}

/// The expressions of a run of conditions are the conditions' expressions,
/// place by place.
pub proof fn lemma_compiled_all(conditions: Seq<Filter>)
    ensures
        compiled_all(conditions).len() == conditions.len(),
        forall|i: int|
            0 <= i < conditions.len() ==> (#[trigger] compiled_all(conditions)[i])
                == conditions[i].compiled(),
    decreases conditions.len(),
{
    if conditions.len() > 0 {
        lemma_compiled_all(conditions.drop_last());
    }
}

/// The texts of `parts` with `sep` between each two of them.
fn join_texts(parts: &Vec<String>, sep: &str) -> (text: String)
    ensures
        text@ == joined(parts.deep_view(), sep@),
{
    let mut text = String::new();
    let ghost all = parts.deep_view();
    let mut i: usize = 0;
    assert(all.take(0) =~= Seq::<Seq<char>>::empty());
    while i < parts.len()
        invariant
            i <= parts.len(),
            all == parts.deep_view(),
            text@ == joined(all.take(i as int), sep@),
        decreases parts.len() - i,
    {
        proof {
            let next = all.take(i + 1);
            assert(next.drop_last() =~= all.take(i as int));
            assert(next.last() == parts@[i as int]@);
        }
        if i > 0 {
            text.append(sep);
        }
        text.append(parts[i].as_str());
        i += 1;
        assert(text@ =~= joined(all.take(i as int), sep@));
    }
    assert(all.take(i as int) =~= all);
    text
}

/// `head`, then `field`, then `tail`.
fn around(head: &str, field: &String, tail: &str) -> (text: String)
    ensures
        text@ == head@ + field@ + tail@,
{
    String::from_str(head).concat(field.as_str()).concat(tail)
}

impl Filter {
    /// Compiles the condition to an expression over `doc`, the document
    /// under test.
    pub fn compile(&self) -> (text: String)
        ensures
            text@ == self.compiled(),
        decreases self,
    {
        match self {
            Filter::Eq(field, value) => {
                let operand = json_to_text(value);
                around("doc.", field, " === ").concat(operand.as_str())
            },
            Filter::Ne(field, value) => {
                let operand = json_to_text(value);
                around("doc.", field, " !== ").concat(operand.as_str())
            },
            Filter::Gt(field, n) => around("doc.", field, " > ").concat(n.text.as_str()),
            Filter::Gte(field, n) => around("doc.", field, " >= ").concat(n.text.as_str()),
            Filter::Lt(field, n) => around("doc.", field, " < ").concat(n.text.as_str()),
            Filter::Lte(field, n) => around("doc.", field, " <= ").concat(n.text.as_str()),
            Filter::In(field, values) => {
                let list = match json_list_to_text(values) {
                    Some(text) => text,
                    None => String::from_str("[]"),
                };
                let tail = around(".includes(doc.", field, ")");
                let text = list.concat(tail.as_str());
                assert(text@ =~= self.compiled());
                text
            },
            Filter::NotIn(field, values) => {
                let list = match json_list_to_text(values) {
                    Some(text) => text,
                    None => String::from_str("[]"),
                };
                let tail = around(".includes(doc.", field, ")");
                let text = String::from_str("!").concat(list.as_str()).concat(tail.as_str());
                assert(text@ =~= self.compiled());
                text
            },
            Filter::Contains(field, s) => {
                let operand = json_to_text(&json_string(s.as_str()));
                around("doc.", field, ".includes(").concat(operand.as_str()).concat(")")
            },
            Filter::StartsWith(field, s) => {
                let operand = json_to_text(&json_string(s.as_str()));
                around("doc.", field, ".startsWith(").concat(operand.as_str()).concat(")")
            },
            Filter::EndsWith(field, s) => {
                let operand = json_to_text(&json_string(s.as_str()));
                around("doc.", field, ".endsWith(").concat(operand.as_str()).concat(")")
            },
            Filter::Exists(field, present) => {
                if *present {
                    around("doc.", field, " !== undefined")
                } else {
                    around("doc.", field, " === undefined")
                }
            },
            Filter::And(conditions) => {
                let parts = compile_all(conditions);
                let inner = join_texts(&parts, " && ");
                String::from_str("(").concat(inner.as_str()).concat(")")
            },
            Filter::Or(conditions) => {
                let parts = compile_all(conditions);
                let inner = join_texts(&parts, " || ");
                String::from_str("(").concat(inner.as_str()).concat(")")
            },
            Filter::Not(condition) => {
                let inner = condition.compile();
                String::from_str("!(").concat(inner.as_str()).concat(")")
            },
        }
    }
}

/// Compiles each of `conditions`, in order.
fn compile_all(conditions: &Vec<Filter>) -> (parts: Vec<String>)
    ensures
        parts.deep_view() == compiled_all(conditions@),
    decreases conditions,
{
    let mut parts: Vec<String> = Vec::new();
    let mut i: usize = 0;
    proof {
        lemma_compiled_all(conditions@);
    }
    while i < conditions.len()
        invariant
            i <= conditions.len(),
            parts.len() == i,
            forall|j: int| 0 <= j < i ==> (#[trigger] parts@[j])@ == conditions@[j].compiled(),
        decreases conditions.len() - i,
    {
        proof {
            vstd::std_specs::vec::axiom_vec_index_decreases(*conditions, i as int);
        }
        parts.push(conditions[i].compile());
        i += 1;
    }
    assert(parts.deep_view() =~= compiled_all(conditions@));
    parts
}

/// The JSON object whose one member is `name` with a value of shape `member`.
pub open spec fn object_of(name: Seq<char>, member: JsonShape) -> JsonShape {
    JsonShape::Object(Map::empty().insert(name, member))
}

/// The structured form of a comparison: the field, and under it the
/// operator with its operand.
pub open spec fn comparison(field: Seq<char>, operator: Seq<char>, operand: JsonShape) -> JsonShape {
    object_of(field, object_of(operator, operand))
}

impl Filter {
    /// The condition as a JSON object, as a structured query carries it.
    pub open spec fn structured(self) -> JsonShape
        decreases self,
    {
        match self {
            Filter::Eq(field, value) => comparison(field@, "$eq"@, json_shape(value)),
            Filter::Ne(field, value) => comparison(field@, "$ne"@, json_shape(value)),
            Filter::Gt(field, n) => comparison(field@, "$gt"@, json_shape(n.json)),
            Filter::Gte(field, n) => comparison(field@, "$gte"@, json_shape(n.json)),
            Filter::Lt(field, n) => comparison(field@, "$lt"@, json_shape(n.json)),
            Filter::Lte(field, n) => comparison(field@, "$lte"@, json_shape(n.json)),
            Filter::In(field, values) => comparison(
                field@,
                "$in"@,
                JsonShape::Array(json_shapes(values@)),
            ),
            Filter::NotIn(field, values) => comparison(
                field@,
                "$nin"@,
                JsonShape::Array(json_shapes(values@)),
            ),
            Filter::Contains(field, s) => comparison(field@, "$contains"@, JsonShape::String(s@)),
            Filter::StartsWith(field, s) => comparison(
                field@,
                "$startsWith"@,
                JsonShape::String(s@),
            ),
            Filter::EndsWith(field, s) => comparison(field@, "$endsWith"@, JsonShape::String(s@)),
            Filter::Exists(field, present) => comparison(
                field@,
                "$exists"@,
                JsonShape::Bool(present),
            ),
            Filter::And(conditions) => object_of(
                "$and"@,
                JsonShape::Array(structured_all(conditions@)),
            ),
            Filter::Or(conditions) => object_of(
                "$or"@,
                JsonShape::Array(structured_all(conditions@)),
            ),
            Filter::Not(condition) => object_of("$not"@, condition.structured()),
        }
    }
}

/// The structured forms of a run of conditions, in order.
pub open spec fn structured_all(conditions: Seq<Filter>) -> Seq<JsonShape>
    decreases conditions,
{
    if conditions.len() == 0 {
        Seq::empty()
    } else {
        structured_all(conditions.drop_last()).push(conditions.last().structured())
    }
}

/// The structured forms of a run of conditions are the conditions'
/// structured forms, place by place.
pub proof fn lemma_structured_all(conditions: Seq<Filter>)
    ensures
        structured_all(conditions).len() == conditions.len(),
        forall|i: int|
            0 <= i < conditions.len() ==> (#[trigger] structured_all(conditions)[i])
                == conditions[i].structured(),
    decreases conditions.len(),
{
    if conditions.len() > 0 {
        lemma_structured_all(conditions.drop_last());
    }
}

/// A copy of each of `values`, in order.
fn clone_values(values: &Vec<serde_json::Value>) -> (copy: Vec<serde_json::Value>)
    ensures
        json_shapes(copy@) == json_shapes(values@),
{
    let mut copy: Vec<serde_json::Value> = Vec::new();
    let mut i: usize = 0;
    while i < values.len()
        invariant
            i <= values.len(),
            copy.len() == i,
            forall|j: int| 0 <= j < i ==> json_shape(#[trigger] copy@[j]) == json_shape(values@[j]),
        decreases values.len() - i,
    {
        copy.push(values[i].clone());
        i += 1;
    }
    assert(json_shapes(copy@) =~= json_shapes(values@));
    copy
}

/// The comparison of `field` with `operand` under `operator`.
fn compare(field: &String, operator: &str, operand: serde_json::Value) -> (value: serde_json::Value)
    ensures
        json_shape(value) == comparison(field@, operator@, json_shape(operand)),
{
    json_member(field.as_str(), json_member(operator, operand))
}

impl Filter {
    /// Converts the condition to the JSON object that a structured query
    /// carries.
    pub fn to_structured(&self) -> (value: serde_json::Value)
        ensures
            json_shape(value) == self.structured(),
        decreases self,
    {
        match self {
            Filter::Eq(field, operand) => compare(field, "$eq", operand.clone()),
            Filter::Ne(field, operand) => compare(field, "$ne", operand.clone()),
            Filter::Gt(field, n) => compare(field, "$gt", n.json.clone()),
            Filter::Gte(field, n) => compare(field, "$gte", n.json.clone()),
            Filter::Lt(field, n) => compare(field, "$lt", n.json.clone()),
            Filter::Lte(field, n) => compare(field, "$lte", n.json.clone()),
            Filter::In(field, values) => compare(field, "$in", json_array(clone_values(values))),
            Filter::NotIn(field, values) => compare(
                field,
                "$nin",
                json_array(clone_values(values)),
            ),
            Filter::Contains(field, s) => compare(field, "$contains", json_string(s.as_str())),
            Filter::StartsWith(field, s) => compare(field, "$startsWith", json_string(s.as_str())),
            Filter::EndsWith(field, s) => compare(field, "$endsWith", json_string(s.as_str())),
            Filter::Exists(field, present) => compare(field, "$exists", json_bool(*present)),
            Filter::And(conditions) => json_member("$and", json_array(structure_all(conditions))),
            Filter::Or(conditions) => json_member("$or", json_array(structure_all(conditions))),
            Filter::Not(condition) => json_member("$not", condition.to_structured()),
        }
    }
}

/// Converts each of `conditions`, in order.
fn structure_all(conditions: &Vec<Filter>) -> (values: Vec<serde_json::Value>)
    ensures
        json_shapes(values@) == structured_all(conditions@),
    decreases conditions,
{
    let mut values: Vec<serde_json::Value> = Vec::new();
    let mut i: usize = 0;
    proof {
        lemma_structured_all(conditions@);
    }
    while i < conditions.len()
        invariant
            i <= conditions.len(),
            values.len() == i,
            forall|j: int|
                0 <= j < i ==> json_shape(#[trigger] values@[j]) == conditions@[j].structured(),
        decreases conditions.len() - i,
    {
        proof {
            vstd::std_specs::vec::axiom_vec_index_decreases(*conditions, i as int);
        }
        values.push(conditions[i].to_structured());
        i += 1;
    }
    assert(json_shapes(values@) =~= structured_all(conditions@));
    values
}

impl Clone for Filter {
    /// A copy that compiles to the same text and the same object.
    fn clone(&self) -> (copy: Self)
        ensures
            copy.compiled() == self.compiled(),
            copy.structured() == self.structured(),
        decreases self,
    {
        match self {
            Filter::Eq(field, value) => Filter::Eq(field.clone(), value.clone()),
            Filter::Ne(field, value) => Filter::Ne(field.clone(), value.clone()),
            Filter::Gt(field, n) => Filter::Gt(field.clone(), n.clone()),
            Filter::Gte(field, n) => Filter::Gte(field.clone(), n.clone()),
            Filter::Lt(field, n) => Filter::Lt(field.clone(), n.clone()),
            Filter::Lte(field, n) => Filter::Lte(field.clone(), n.clone()),
            Filter::In(field, values) => Filter::In(field.clone(), clone_values(values)),
            Filter::NotIn(field, values) => Filter::NotIn(field.clone(), clone_values(values)),
            Filter::Contains(field, s) => Filter::Contains(field.clone(), s.clone()),
            Filter::StartsWith(field, s) => Filter::StartsWith(field.clone(), s.clone()),
            Filter::EndsWith(field, s) => Filter::EndsWith(field.clone(), s.clone()),
            Filter::Exists(field, present) => Filter::Exists(field.clone(), *present),
            Filter::And(conditions) => Filter::And(clone_all(conditions)),
            Filter::Or(conditions) => Filter::Or(clone_all(conditions)),
            Filter::Not(condition) => Filter::Not(Box::new((**condition).clone())),
        }
    }
}

/// A copy of each of `conditions`, in order.
fn clone_all(conditions: &Vec<Filter>) -> (copy: Vec<Filter>)
    ensures
        compiled_all(copy@) == compiled_all(conditions@),
        structured_all(copy@) == structured_all(conditions@),
    decreases conditions,
{
    let mut copy: Vec<Filter> = Vec::new();
    let mut i: usize = 0;
    while i < conditions.len()
        invariant
            i <= conditions.len(),
            copy.len() == i,
            forall|j: int|
                0 <= j < i ==> (#[trigger] copy@[j]).compiled() == conditions@[j].compiled()
                    && copy@[j].structured() == conditions@[j].structured(),
        decreases conditions.len() - i,
    {
        proof {
            vstd::std_specs::vec::axiom_vec_index_decreases(*conditions, i as int);
        }
        copy.push(conditions[i].clone());
        i += 1;
    }
    proof {
        lemma_compiled_all(copy@);
        lemma_compiled_all(conditions@);
        lemma_structured_all(copy@);
        lemma_structured_all(conditions@);
        assert(compiled_all(copy@) =~= compiled_all(conditions@));
        assert(structured_all(copy@) =~= structured_all(conditions@));
    }
    copy
}

/// A field of a document, from which a condition is built.
pub struct Field {
    name: String,
}

impl Field {
    /// The name of the field.
    pub closed spec fn name(self) -> Seq<char> {
        self.name@
    }

    /// The field called `name`.
    pub fn new(name: &str) -> (f: Self)
        ensures
            f.name() == name@,
    {
        Field { name: String::from_str(name) }
    }

    /// The field equals `value`.
    pub fn eq(self, value: serde_json::Value) -> (c: Filter)
        ensures
            c matches Filter::Eq(field, operand) && field@ == self.name() && operand == value,
    {
        Filter::Eq(self.name, value)
    }

    /// The field differs from `value`.
    pub fn ne(self, value: serde_json::Value) -> (c: Filter)
        ensures
            c matches Filter::Ne(field, operand) && field@ == self.name() && operand == value,
    {
        Filter::Ne(self.name, value)
    }

    /// The field is greater than `value`.
    pub fn gt(self, value: Number) -> (c: Filter)
        ensures
            c matches Filter::Gt(field, operand) && field@ == self.name() && operand == value,
    {
        Filter::Gt(self.name, value)
    }

    /// The field is greater than or equal to `value`.
    pub fn gte(self, value: Number) -> (c: Filter)
        ensures
            c matches Filter::Gte(field, operand) && field@ == self.name() && operand == value,
    {
        Filter::Gte(self.name, value)
    }

    /// The field is less than `value`.
    pub fn lt(self, value: Number) -> (c: Filter)
        ensures
            c matches Filter::Lt(field, operand) && field@ == self.name() && operand == value,
    {
        Filter::Lt(self.name, value)
    }

    /// The field is less than or equal to `value`.
    pub fn lte(self, value: Number) -> (c: Filter)
        ensures
            c matches Filter::Lte(field, operand) && field@ == self.name() && operand == value,
    {
        Filter::Lte(self.name, value)
    }

    /// The field is one of `values`.
    pub fn is_in(self, values: Vec<serde_json::Value>) -> (c: Filter)
        ensures
            c matches Filter::In(field, operands) && field@ == self.name() && operands == values,
    {
        Filter::In(self.name, values)
    }

    /// The field is none of `values`.
    pub fn not_in(self, values: Vec<serde_json::Value>) -> (c: Filter)
        ensures
            c matches Filter::NotIn(field, operands) && field@ == self.name() && operands
                == values,
    {
        Filter::NotIn(self.name, values)
    }

    /// The field holds `value` somewhere in it.
    pub fn contains(self, value: &str) -> (c: Filter)
        ensures
            c matches Filter::Contains(field, operand) && field@ == self.name() && operand@
                == value@,
    {
        Filter::Contains(self.name, String::from_str(value))
    }

    /// The field starts with `value`.
    pub fn starts_with(self, value: &str) -> (c: Filter)
        ensures
            c matches Filter::StartsWith(field, operand) && field@ == self.name() && operand@
                == value@,
    {
        Filter::StartsWith(self.name, String::from_str(value))
    }

    /// The field ends with `value`.
    pub fn ends_with(self, value: &str) -> (c: Filter)
        ensures
            c matches Filter::EndsWith(field, operand) && field@ == self.name() && operand@
                == value@,
    {
        Filter::EndsWith(self.name, String::from_str(value))
    }

    /// The field is present, or absent where `value` is `false`.
    pub fn is_present(self, value: bool) -> (c: Filter)
        ensures
            c matches Filter::Exists(field, present) && field@ == self.name() && present == value,
    {
        Filter::Exists(self.name, value)
    }
}

/// The field called `name`.
pub fn field(name: &str) -> (f: Field)
    ensures
        f.name() == name@,
{
    Field::new(name)
}

/// All of `filters` hold.
pub fn and(filters: Vec<Filter>) -> (c: Filter)
    ensures
        c == Filter::And(filters),
{
    Filter::And(filters)
}

/// At least one of `filters` holds.
pub fn or(filters: Vec<Filter>) -> (c: Filter)
    ensures
        c == Filter::Or(filters),
{
    Filter::Or(filters)
}

/// `filter` does not hold.
pub fn not(filter: Filter) -> (c: Filter)
    ensures
        c == Filter::Not(Box::new(filter)),
{
    Filter::Not(Box::new(filter))
}

/// One key of a sort, as plain values.
pub struct SortModel {
    pub field: Seq<char>,
    pub direction: Option<Seq<char>>,
}

/// What a query builder holds, as plain values.
pub struct QueryModel {
    pub table: Seq<char>,
    pub filter: Option<Filter>,
    pub sorts: Seq<SortModel>,
    pub limit: Option<usize>,
    pub skip: Option<usize>,
    pub changes: bool,
}

/// A sort key as plain values.
pub open spec fn sort_model(spec: SortSpec) -> SortModel {
    SortModel {
        field: spec.field@,
        direction: match spec.direction {
            Some(d) => Some(d@),
            None => None,
        },
    }
}

/// The sort keys of a run of specifications, in order.
pub open spec fn sort_models(specs: Seq<SortSpec>) -> Seq<SortModel> {
    specs.map_values(|spec: SortSpec| sort_model(spec))
}

/// The call that sorts by one key. Only the direction `desc` is written
/// out; ascending is what the server does unasked.
pub open spec fn sort_text(sort: SortModel) -> Seq<char> {
    if sort.direction == Some("desc"@) {
        ".orderBy(\""@ + sort.field + "\", \"desc\")"@
    } else {
        ".orderBy(\""@ + sort.field + "\")"@
    }
}

/// The calls that sort by each key, in order.
pub open spec fn sorts_text(sorts: Seq<SortModel>) -> Seq<char>
    decreases sorts.len(),
{
    if sorts.len() == 0 {
        Seq::empty()
    } else {
        sorts_text(sorts.drop_last()) + sort_text(sorts.last())
    }
}

/// The call that carries a count, where one is set.
pub open spec fn count_text(call: Seq<char>, count: Option<usize>) -> Seq<char> {
    match count {
        Some(n) => call + decimal_chars(n as nat) + ")"@,
        None => Seq::empty(),
    }
}

/// The call that filters, where a condition is set.
pub open spec fn filter_text(filter: Option<Filter>) -> Seq<char> {
    match filter {
        Some(filter) => ".filter(doc => "@ + filter.compiled() + ")"@,
        None => Seq::empty(),
    }
}

/// The query text: the table, then the filter, the sorts, the limit and
/// the offset as far as they are set, and at the end `.changes()` for a
/// subscription or `.run()` for a query.
pub open spec fn query_text(q: QueryModel) -> Seq<char> {
    "db.table(\""@ + q.table + "\")"@ + filter_text(q.filter) + sorts_text(q.sorts) + count_text(".limit("@, q.limit) + count_text(".skip("@, q.skip) + (
    if q.changes {
        ".changes()"@
    } else {
        ".run()"@
    })
}

/// Appends the call that filters, where a condition is set.
fn append_filter(query: &mut String, filter: &Option<Filter>)
    ensures
        final(query)@ == old(query)@ + filter_text(*filter),
{
    match filter {
        Some(filter) => {
            let condition = filter.compile();
            let call = String::from_str(".filter(doc => ").concat(condition.as_str()).concat(")");
            query.append(call.as_str());
        },
        None => {
            assert(query@ =~= old(query)@ + filter_text(*filter));
        },
    }
}

/// Appends the calls that sort by each key, in order.
fn append_sorts(query: &mut String, specs: &Vec<SortSpec>)
    ensures
        final(query)@ == old(query)@ + sorts_text(sort_models(specs@)),
{
    let ghost head = query@;
    let ghost sorts = sort_models(specs@);
    let mut i: usize = 0;
    assert(sorts.take(0) =~= Seq::<SortModel>::empty());
    assert(query@ =~= head + sorts_text(sorts.take(0)));
    while i < specs.len()
        invariant
            i <= specs.len(),
            sorts == sort_models(specs@),
            query@ == head + sorts_text(sorts.take(i as int)),
        decreases specs.len() - i,
    {
        let spec = &specs[i];
        proof {
            let next = sorts.take(i + 1);
            assert(next.drop_last() =~= sorts.take(i as int));
            assert(next.last() == sort_model(*spec));
        }
        let descending = match &spec.direction {
            Some(d) => *d == String::from_str("desc"),
            None => false,
        };
        let call = if descending {
            around(".orderBy(\"", &spec.field, "\", \"desc\")")
        } else {
            around(".orderBy(\"", &spec.field, "\")")
        };
        query.append(call.as_str());
        i += 1;
        assert(query@ =~= head + sorts_text(sorts.take(i as int)));
    }
    assert(sorts.take(i as int) =~= sorts);
}

/// Appends the call that carries a count, where one is set.
fn append_count(query: &mut String, call: &str, count: Option<usize>)
    ensures
        final(query)@ == old(query)@ + count_text(call@, count),
{
    match count {
        Some(n) => {
            let digits = decimal_string(n as u64);
            let text = String::from_str(call).concat(digits.as_str()).concat(")");
            query.append(text.as_str());
        },
        None => {
            assert(query@ =~= old(query)@ + count_text(call@, count));
        },
    }
}

/// A query under construction.
pub struct QueryBuilder {
    table_name: String,
    filter: Option<Filter>,
    sort_specs: Vec<SortSpec>,
    limit_value: Option<usize>,
    skip_value: Option<usize>,
    is_changes: bool,
}

impl QueryBuilder {
    /// What the builder holds.
    pub closed spec fn view(&self) -> QueryModel {
        QueryModel {
            table: self.table_name@,
            filter: self.filter,
            sorts: sort_models(self.sort_specs@),
            limit: self.limit_value,
            skip: self.skip_value,
            changes: self.is_changes,
        }
    }

    /// A query on the table `name`, with nothing else set.
    pub fn table(name: &str) -> (q: Self)
        ensures
            q@ == (QueryModel {
                table: name@,
                filter: None,
                sorts: Seq::empty(),
                limit: None,
                skip: None,
                changes: false,
            }),
    {
        let q = QueryBuilder {
            table_name: String::from_str(name),
            filter: None,
            sort_specs: Vec::new(),
            limit_value: None,
            skip_value: None,
            is_changes: false,
        };
        assert(q@.sorts =~= Seq::<SortModel>::empty());
        q
    }

    /// Sets the condition. A condition set before is replaced.
    pub fn find(self, filter: Filter) -> (q: Self)
        ensures
            q@ == (QueryModel { filter: Some(filter), ..self@ }),
    {
        QueryBuilder {
            table_name: self.table_name,
            filter: Some(filter),
            sort_specs: self.sort_specs,
            limit_value: self.limit_value,
            skip_value: self.skip_value,
            is_changes: self.is_changes,
        }
    }

    /// Adds a sort key behind those already set.
    pub fn sort(self, field: &str, direction: SortDir) -> (q: Self)
        ensures
            q@ == (QueryModel {
                sorts: self@.sorts.push(
                    SortModel { field: field@, direction: Some(direction.word()) },
                ),
                ..self@
            }),
    {
        let mut sort_specs = self.sort_specs;
        sort_specs.push(
            SortSpec { field: String::from_str(field), direction: Some(direction.to_string()) },
        );
        let q = QueryBuilder {
            table_name: self.table_name,
            filter: self.filter,
            sort_specs,
            limit_value: self.limit_value,
            skip_value: self.skip_value,
            is_changes: self.is_changes,
        };
        assert(q@.sorts =~= self@.sorts.push(
            SortModel { field: field@, direction: Some(direction.word()) },
        ));
        q
    }

    /// Sets the largest number of results.
    pub fn limit(self, n: usize) -> (q: Self)
        ensures
            q@ == (QueryModel { limit: Some(n), ..self@ }),
    {
        QueryBuilder {
            table_name: self.table_name,
            filter: self.filter,
            sort_specs: self.sort_specs,
            limit_value: Some(n),
            skip_value: self.skip_value,
            is_changes: self.is_changes,
        }
    }

    /// Sets the number of results to pass over.
    pub fn skip(self, n: usize) -> (q: Self)
        ensures
            q@ == (QueryModel { skip: Some(n), ..self@ }),
    {
        QueryBuilder {
            table_name: self.table_name,
            filter: self.filter,
            sort_specs: self.sort_specs,
            limit_value: self.limit_value,
            skip_value: Some(n),
            is_changes: self.is_changes,
        }
    }

    /// Makes the query a subscription to changes.
    pub fn changes(self) -> (q: Self)
        ensures
            q@ == (QueryModel { changes: true, ..self@ }),
    {
        QueryBuilder {
            table_name: self.table_name,
            filter: self.filter,
            sort_specs: self.sort_specs,
            limit_value: self.limit_value,
            skip_value: self.skip_value,
            is_changes: true,
        }
    }

    /// Compiles the query to the query text that the server evaluates.
    pub fn compile(&self) -> (text: String)
        ensures
            text@ == query_text(self@),
    {
        let mut query = around("db.table(\"", &self.table_name, "\")");
        append_filter(&mut query, &self.filter);
        append_sorts(&mut query, &self.sort_specs);
        append_count(&mut query, ".limit(", self.limit_value);
        append_count(&mut query, ".skip(", self.skip_value);
        if self.is_changes {
            query.append(".changes()");
        } else {
            query.append(".run()");
        }
        query
    }

    /// The query text, as `compile` gives it.
    pub fn to_string(&self) -> (text: String)
        ensures
            text@ == query_text(self@),
    {
        self.compile()
    }

    /// Compiles the query to a structured query object: the table, the
    /// condition as a JSON object, the sort keys where there are any, the
    /// limit and the offset, and for a subscription the request for changes
    /// without the initial documents.
    pub fn compile_structured(&self) -> (q: StructuredQuery)
        ensures
            q.table@ == self@.table,
            self@.filter matches Some(filter) ==> (q.filter matches Some(value) && json_shape(value)
                == filter.structured()),
            self@.filter is None ==> q.filter is None,
            self@.sorts.len() == 0 ==> q.sort is None,
            self@.sorts.len() > 0 ==> (q.sort matches Some(specs) && sort_models(specs@)
                == self@.sorts),
            q.limit == self@.limit,
            q.skip == self@.skip,
            self@.changes ==> (q.changes matches Some(spec) && !spec.include_initial),
            !self@.changes ==> q.changes is None,
    {
        let filter = match &self.filter {
            Some(filter) => Some(filter.to_structured()),
            None => None,
        };
        let sort = if self.sort_specs.len() == 0 {
            None
        } else {
            let mut specs: Vec<SortSpec> = Vec::new();
            let mut i: usize = 0;
            while i < self.sort_specs.len()
                invariant
                    i <= self.sort_specs.len(),
                    specs.len() == i,
                    forall|j: int|
                        0 <= j < i ==> sort_model(#[trigger] specs@[j]) == sort_model(
                            self.sort_specs@[j],
                        ),
                decreases self.sort_specs.len() - i,
            {
                let spec = &self.sort_specs[i];
                let direction = match &spec.direction {
                    Some(d) => Some(d.clone()),
                    None => None,
                };
                specs.push(SortSpec { field: spec.field.clone(), direction });
                i += 1;
            }
            assert(sort_models(specs@) =~= sort_models(self.sort_specs@));
            Some(specs)
        };
        let changes = if self.is_changes {
            Some(ChangesSpec { include_initial: false })
        } else {
            None
        };
        StructuredQuery {
            table: self.table_name.clone(),
            filter,
            sort,
            limit: self.limit_value,
            skip: self.skip_value,
            changes,
        }
    }
}

/// A query on the table `name`.
pub fn table(name: &str) -> (q: QueryBuilder)
    ensures
        q@ == (QueryModel {
            table: name@,
            filter: None,
            sorts: Seq::empty(),
            limit: None,
            skip: None,
            changes: false,
        }),
{
    QueryBuilder::table(name)
}

} // verus!
