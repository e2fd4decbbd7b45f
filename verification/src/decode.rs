//! The schema decoder: a strict structural decode of a parsed JSON value
//! into the schema model, and the scan that recovers the first decodable
//! object from arbitrary surrounding prose.

use vstd::prelude::*;
use crate::errors::SchemaError;
use crate::json::{json_value_at, parse_json_prefix, JsonVal, JsonValue};
use crate::schema::{
    CaseValue, CaseValueView, Field, FieldView, MatrixSpec, MatrixSpecView, MatrixValue,
    MatrixValueView, OutputField, OutputFieldView, QueueCase, QueueCaseView, QueueSpec,
    QueueSpecView, Schema, SchemaView,
};
use crate::text::str_to_chars;

verus! {

/// The value of the first key equal to `key`.
pub open spec fn obj_get(fields: Seq<(Seq<char>, JsonVal)>, key: Seq<char>) -> Option<JsonVal>
    decreases fields.len(),
{
    if fields.len() == 0 {
        Option::None
    } else if fields[0].0 == key {
        Option::Some(fields[0].1)
    } else {
        obj_get(fields.drop_first(), key)
    }
}


proof fn lemma_vec_jv_deep(items: &Vec<JsonValue>)
    ensures
        items.deep_view().len() == items@.len(),
        forall|k: int| 0 <= k < items@.len() ==> #[trigger] items.deep_view()[k] == items@[k]@,
{
    assert forall|k: int| 0 <= k < items@.len() implies #[trigger] items.deep_view()[k]
        == items@[k]@ by {
        assert(items.deep_view()[k] == items@[k].deep_view());
    }
}

proof fn lemma_vec_pair_deep(fields: &Vec<(String, JsonValue)>)
    ensures
        fields.deep_view().len() == fields@.len(),
        forall|k: int|
            0 <= k < fields@.len() ==> #[trigger] fields.deep_view()[k] == (
                fields@[k].0@,
                fields@[k].1@,
            ),
{
    assert forall|k: int|
        0 <= k < fields@.len() implies #[trigger] fields.deep_view()[k] == (
        fields@[k].0@,
        fields@[k].1@,
    ) by {
        assert(fields.deep_view()[k] == fields@[k].deep_view());
    }
}

/// A required string member: present and a string, or the decode fails.
pub open spec fn dec_req_string(fields: Seq<(Seq<char>, JsonVal)>, key: Seq<char>) -> Option<
    Seq<char>,
> {
    match obj_get(fields, key) {
        Option::Some(JsonVal::Text(s)) => Option::Some(s),
        _ => Option::None,
    }
}

/// An optional string member: absent or null reads as nothing; any other
/// non-string value fails the decode.
pub open spec fn dec_opt_string(fields: Seq<(Seq<char>, JsonVal)>, key: Seq<char>) -> Option<
    Option<Seq<char>>,
> {
    match obj_get(fields, key) {
        Option::None => Option::Some(Option::None),
        Option::Some(JsonVal::Null) => Option::Some(Option::None),
        Option::Some(JsonVal::Text(s)) => Option::Some(Option::Some(s)),
        Option::Some(_) => Option::None,
    }
}

/// A required unsigned 32-bit member: an integer in range, or the decode
/// fails.
pub open spec fn dec_req_u32(fields: Seq<(Seq<char>, JsonVal)>, key: Seq<char>) -> Option<u32> {
    match obj_get(fields, key) {
        Option::Some(JsonVal::Int(i)) => if 0 <= i <= u32::MAX {
            Option::Some(i as u32)
        } else {
            Option::None
        },
        _ => Option::None,
    }
}

/// An optional boolean member.
pub open spec fn dec_opt_bool(fields: Seq<(Seq<char>, JsonVal)>, key: Seq<char>) -> Option<
    Option<bool>,
> {
    match obj_get(fields, key) {
        Option::None => Option::Some(Option::None),
        Option::Some(JsonVal::Null) => Option::Some(Option::None),
        Option::Some(JsonVal::Bool(b)) => Option::Some(Option::Some(b)),
        Option::Some(_) => Option::None,
    }
}

/// An array of strings, or nothing when any element is not a string.
pub open spec fn dec_strings(items: Seq<JsonVal>) -> Option<Seq<Seq<char>>>
    decreases items.len(),
{
    if items.len() == 0 {
        Option::Some(Seq::empty())
    } else {
        match items[0] {
            JsonVal::Text(s) => match dec_strings(items.drop_first()) {
                Option::Some(rest) => Option::Some(seq![s] + rest),
                Option::None => Option::None,
            },
            _ => Option::None,
        }
    }
}

/// An optional array-of-strings member.
pub open spec fn dec_opt_strings(fields: Seq<(Seq<char>, JsonVal)>, key: Seq<char>) -> Option<
    Option<Seq<Seq<char>>>,
> {
    match obj_get(fields, key) {
        Option::None => Option::Some(Option::None),
        Option::Some(JsonVal::Null) => Option::Some(Option::None),
        Option::Some(JsonVal::Arr(items)) => match dec_strings(items) {
            Option::Some(ss) => Option::Some(Option::Some(ss)),
            Option::None => Option::None,
        },
        Option::Some(_) => Option::None,
    }
}

/// One input field, decoded from a JSON object.
pub open spec fn dec_field(v: JsonVal) -> Option<FieldView> {
    match v {
        JsonVal::Obj(fs) => {
            let name = dec_req_string(fs, "Name"@);
            let prompt = dec_opt_string(fs, "Prompt"@);
            let kind = dec_req_string(fs, "Type"@);
            let order = dec_req_u32(fs, "Order"@);
            let required = dec_opt_bool(fs, "Required"@);
            let default = dec_opt_string(fs, "Default"@);
            let choices = dec_opt_strings(fs, "Choices"@);
            let arg = dec_opt_string(fs, "Arg"@);
            if name is Some && prompt is Some && kind is Some && order is Some && required is Some
                && default is Some && choices is Some && arg is Some {
                Option::Some(
                    FieldView {
                        name: name->Some_0,
                        prompt: prompt->Some_0,
                        kind: kind->Some_0,
                        order: order->Some_0,
                        required: required->Some_0,
                        default: default->Some_0,
                        choices: choices->Some_0,
                        arg: arg->Some_0,
                    },
                )
            } else {
                Option::None
            }
        },
        _ => Option::None,
    }
}

pub open spec fn dec_fields(items: Seq<JsonVal>) -> Option<Seq<FieldView>>
    decreases items.len(),
{
    if items.len() == 0 {
        Option::Some(Seq::empty())
    } else {
        match dec_field(items[0]) {
            Option::Some(f) => match dec_fields(items.drop_first()) {
                Option::Some(rest) => Option::Some(seq![f] + rest),
                Option::None => Option::None,
            },
            Option::None => Option::None,
        }
    }
}

/// One output field, decoded from a JSON object.
pub open spec fn dec_output(v: JsonVal) -> Option<OutputFieldView> {
    match v {
        JsonVal::Obj(fs) => {
            let name = dec_req_string(fs, "Name"@);
            let kind = dec_req_string(fs, "Type"@);
            if name is Some && kind is Some {
                Option::Some(OutputFieldView { name: name->Some_0, kind: kind->Some_0 })
            } else {
                Option::None
            }
        },
        _ => Option::None,
    }
}

pub open spec fn dec_outputs(items: Seq<JsonVal>) -> Option<Seq<OutputFieldView>>
    decreases items.len(),
{
    if items.len() == 0 {
        Option::Some(Seq::empty())
    } else {
        match dec_output(items[0]) {
            Option::Some(o) => match dec_outputs(items.drop_first()) {
                Option::Some(rest) => Option::Some(seq![o] + rest),
                Option::None => Option::None,
            },
            Option::None => Option::None,
        }
    }
}

/// One matrix axis: a name and its values.
pub open spec fn dec_matrix_value(v: JsonVal) -> Option<MatrixValueView> {
    match v {
        JsonVal::Obj(fs) => {
            let name = dec_req_string(fs, "Name"@);
            let values = match obj_get(fs, "Values"@) {
                Option::Some(JsonVal::Arr(items)) => dec_strings(items),
                _ => Option::None,
            };
            if name is Some && values is Some {
                Option::Some(MatrixValueView { name: name->Some_0, values: values->Some_0 })
            } else {
                Option::None
            }
        },
        _ => Option::None,
    }
}

pub open spec fn dec_matrix_values(items: Seq<JsonVal>) -> Option<Seq<MatrixValueView>>
    decreases items.len(),
{
    if items.len() == 0 {
        Option::Some(Seq::empty())
    } else {
        match dec_matrix_value(items[0]) {
            Option::Some(m) => match dec_matrix_values(items.drop_first()) {
                Option::Some(rest) => Option::Some(seq![m] + rest),
                Option::None => Option::None,
            },
            Option::None => Option::None,
        }
    }
}

pub open spec fn dec_matrix(v: JsonVal) -> Option<MatrixSpecView> {
    match v {
        JsonVal::Obj(fs) => {
            let values = match obj_get(fs, "Values"@) {
                Option::Some(JsonVal::Arr(items)) => dec_matrix_values(items),
                _ => Option::None,
            };
            match values {
                Option::Some(vs) => Option::Some(MatrixSpecView { values: vs }),
                Option::None => Option::None,
            }
        },
        _ => Option::None,
    }
}

/// One case assignment: a field name and the value it takes.
pub open spec fn dec_case_value(v: JsonVal) -> Option<CaseValueView> {
    match v {
        JsonVal::Obj(fs) => {
            let name = dec_req_string(fs, "Name"@);
            let value = dec_req_string(fs, "Value"@);
            if name is Some && value is Some {
                Option::Some(CaseValueView { name: name->Some_0, value: value->Some_0 })
            } else {
                Option::None
            }
        },
        _ => Option::None,
    }
}

pub open spec fn dec_case_values(items: Seq<JsonVal>) -> Option<Seq<CaseValueView>>
    decreases items.len(),
{
    if items.len() == 0 {
        Option::Some(Seq::empty())
    } else {
        match dec_case_value(items[0]) {
            Option::Some(c) => match dec_case_values(items.drop_first()) {
                Option::Some(rest) => Option::Some(seq![c] + rest),
                Option::None => Option::None,
            },
            Option::None => Option::None,
        }
    }
}

pub open spec fn dec_queue_case(v: JsonVal) -> Option<QueueCaseView> {
    match v {
        JsonVal::Obj(fs) => {
            let name = dec_opt_string(fs, "Name"@);
            let values = match obj_get(fs, "Values"@) {
                Option::Some(JsonVal::Arr(items)) => dec_case_values(items),
                _ => Option::None,
            };
            if name is Some && values is Some {
                Option::Some(QueueCaseView { name: name->Some_0, values: values->Some_0 })
            } else {
                Option::None
            }
        },
        _ => Option::None,
    }
}

pub open spec fn dec_queue_cases(items: Seq<JsonVal>) -> Option<Seq<QueueCaseView>>
    decreases items.len(),
{
    if items.len() == 0 {
        Option::Some(Seq::empty())
    } else {
        match dec_queue_case(items[0]) {
            Option::Some(c) => match dec_queue_cases(items.drop_first()) {
                Option::Some(rest) => Option::Some(seq![c] + rest),
                Option::None => Option::None,
            },
            Option::None => Option::None,
        }
    }
}

pub open spec fn dec_queue(v: JsonVal) -> Option<QueueSpecView> {
    match v {
        JsonVal::Obj(fs) => {
            let matrix = match obj_get(fs, "Matrix"@) {
                Option::None => Option::Some(Option::None),
                Option::Some(JsonVal::Null) => Option::Some(Option::None),
                Option::Some(m) => match dec_matrix(m) {
                    Option::Some(ms) => Option::Some(Option::Some(ms)),
                    Option::None => Option::None,
                },
            };
            let cases = match obj_get(fs, "Cases"@) {
                Option::None => Option::Some(Option::None),
                Option::Some(JsonVal::Null) => Option::Some(Option::None),
                Option::Some(JsonVal::Arr(items)) => match dec_queue_cases(items) {
                    Option::Some(cs) => Option::Some(Option::Some(cs)),
                    Option::None => Option::None,
                },
                Option::Some(_) => Option::None,
            };
            if matrix is Some && cases is Some {
                Option::Some(QueueSpecView { matrix: matrix->Some_0, cases: cases->Some_0 })
            } else {
                Option::None
            }
        },
        _ => Option::None,
    }
}

/// The whole schema shape: `Name` and `Fields` required, the rest optional.
pub open spec fn dec_schema(v: JsonVal) -> Option<SchemaView> {
    match v {
        JsonVal::Obj(fs) => {
            let name = dec_req_string(fs, "Name"@);
            let description = dec_opt_string(fs, "Description"@);
            let tags = dec_opt_strings(fs, "Tags"@);
            let fields = match obj_get(fs, "Fields"@) {
                Option::Some(JsonVal::Arr(items)) => dec_fields(items),
                _ => Option::None,
            };
            let outputs = match obj_get(fs, "Outputs"@) {
                Option::None => Option::Some(Option::None),
                Option::Some(JsonVal::Null) => Option::Some(Option::None),
                Option::Some(JsonVal::Arr(items)) => match dec_outputs(items) {
                    Option::Some(os) => Option::Some(Option::Some(os)),
                    Option::None => Option::None,
                },
                Option::Some(_) => Option::None,
            };
            let queue = match obj_get(fs, "Queue"@) {
                Option::None => Option::Some(Option::None),
                Option::Some(JsonVal::Null) => Option::Some(Option::None),
                Option::Some(q) => match dec_queue(q) {
                    Option::Some(qs) => Option::Some(Option::Some(qs)),
                    Option::None => Option::None,
                },
            };
            if name is Some && description is Some && tags is Some && fields is Some && outputs
                is Some && queue is Some {
                Option::Some(
                    SchemaView {
                        name: name->Some_0,
                        description: description->Some_0,
                        tags: tags->Some_0,
                        fields: fields->Some_0,
                        outputs: outputs->Some_0,
                        queue: queue->Some_0,
                    },
                )
            } else {
                Option::None
            }
        },
        _ => Option::None,
    }
}

fn get_member<'a>(fields: &'a Vec<(String, JsonValue)>, key: &str) -> (r: Option<
    &'a JsonValue,
>)
    ensures
        match r {
            Option::Some(v) => obj_get(fields.deep_view(), key@) == Option::Some(v@),
            Option::None => obj_get(fields.deep_view(), key@) is None,
        },
{
    let kc = str_to_chars(key);
    let ghost full = fields.deep_view();
    proof {
        assert(full.subrange(0, full.len() as int) =~= full);
    }
    let mut i: usize = 0;
    while i < fields.len()
        invariant
            i <= fields@.len(),
            full == fields.deep_view(),
            full.len() == fields@.len(),
            forall|j: int|
                0 <= j < fields@.len() ==> #[trigger] full[j] == (fields@[j].0@, fields@[j].1@),
            kc@ == key@,
            obj_get(full, key@) == obj_get(full.subrange(i as int, full.len() as int), key@),
        decreases fields@.len() - i,
    {
        let ghost rest = full.subrange(i as int, full.len() as int);
        proof {
            assert(rest[0] == full[i as int]);
            assert(rest.drop_first() =~= full.subrange(i + 1, full.len() as int));
        }
        let name = str_to_chars(fields[i].0.as_str());
        if crate::text::eq_chars(&name, &kc) {
            return Option::Some(&fields[i].1);
        }
        i = i + 1;
    }
    proof {
        assert(full.subrange(full.len() as int, full.len() as int) =~= Seq::<
            (Seq<char>, JsonVal),
        >::empty());
    }
    Option::None
}

fn get_req_string(fields: &Vec<(String, JsonValue)>, key: &str) -> (r: Option<String>)
    ensures
        match r {
            Option::Some(s) => dec_req_string(fields.deep_view(), key@) == Option::Some(s@),
            Option::None => dec_req_string(fields.deep_view(), key@) is None,
        },
{
    match get_member(fields, key) {
        Option::Some(v) => match v {
            JsonValue::Text(s) => Option::Some(s.clone()),
            _ => Option::None,
        },
        Option::None => Option::None,
    }
}

fn get_opt_string(fields: &Vec<(String, JsonValue)>, key: &str) -> (r: Option<Option<String>>)
    ensures
        match r {
            Option::Some(opt) => dec_opt_string(fields.deep_view(), key@) == Option::Some(
                crate::schema::opt_str_view(opt),
            ),
            Option::None => dec_opt_string(fields.deep_view(), key@) is None,
        },
{
    match get_member(fields, key) {
        Option::None => Option::Some(Option::None),
        Option::Some(v) => match v {
            JsonValue::Null => Option::Some(Option::None),
            JsonValue::Text(s) => Option::Some(Option::Some(s.clone())),
            _ => Option::None,
        },
    }
}

fn get_req_u32(fields: &Vec<(String, JsonValue)>, key: &str) -> (r: Option<u32>)
    ensures
        match r {
            Option::Some(n) => dec_req_u32(fields.deep_view(), key@) == Option::Some(n),
            Option::None => dec_req_u32(fields.deep_view(), key@) is None,
        },
{
    match get_member(fields, key) {
        Option::Some(v) => match v {
            JsonValue::Int(i) => {
                let i = *i;
                if 0 <= i && i <= u32::MAX as i64 {
                    Option::Some(i as u32)
                } else {
                    Option::None
                }
            },
            _ => Option::None,
        },
        Option::None => Option::None,
    }
}

fn get_opt_bool(fields: &Vec<(String, JsonValue)>, key: &str) -> (r: Option<Option<bool>>)
    ensures
        match r {
            Option::Some(opt) => dec_opt_bool(fields.deep_view(), key@) == Option::Some(opt),
            Option::None => dec_opt_bool(fields.deep_view(), key@) is None,
        },
{
    match get_member(fields, key) {
        Option::None => Option::Some(Option::None),
        Option::Some(v) => match v {
            JsonValue::Null => Option::Some(Option::None),
            JsonValue::Bool(b) => Option::Some(Option::Some(*b)),
            _ => Option::None,
        },
    }
}

fn dec_strings_exec(items: &Vec<JsonValue>) -> (r: Option<Vec<String>>)
    ensures
        match r {
            Option::Some(v) => dec_strings(items.deep_view()) == Option::Some(v.deep_view()),
            Option::None => dec_strings(items.deep_view()) is None,
        },
{
    let ghost full = items.deep_view();
    let mut acc: Vec<String> = Vec::new();
    proof {
        assert(full.subrange(0, full.len() as int) =~= full);
        assert(acc.deep_view() =~~= Seq::<Seq<char>>::empty());
    }
    let mut i: usize = 0;
    while i < items.len()
        invariant
            i <= items@.len(),
            full == items.deep_view(),
            full.len() == items@.len(),
            forall|j: int| 0 <= j < items@.len() ==> #[trigger] full[j] == items@[j]@,
            dec_strings(full) == (match dec_strings(
                full.subrange(i as int, full.len() as int),
            ) {
                Option::Some(t) => Option::Some(acc.deep_view() + t),
                Option::None => Option::<Seq<Seq<char>>>::None,
            }),
        decreases items@.len() - i,
    {
        let ghost rest = full.subrange(i as int, full.len() as int);
        proof {
            assert(rest[0] == full[i as int]);
            assert(rest.drop_first() =~= full.subrange(i + 1, full.len() as int));
        }
        match &items[i] {
            JsonValue::Text(s) => {
                let ghost old_deep = acc.deep_view();
                acc.push(s.clone());
                proof {
                    assert(acc.deep_view() =~~= old_deep.push(s@));
                    if dec_strings(rest.drop_first()) is Some {
                        let t2 = dec_strings(rest.drop_first())->Some_0;
                        assert(old_deep + (seq![s@] + t2) =~= old_deep.push(s@) + t2);
                    }
                }
            },
            _ => {
                return Option::None;
            },
        }
        i = i + 1;
    }
    proof {
        assert(full.subrange(full.len() as int, full.len() as int) =~= Seq::<JsonVal>::empty());
        assert(acc.deep_view() + Seq::<Seq<char>>::empty() =~= acc.deep_view());
    }
    Option::Some(acc)
}

fn get_opt_strings(fields: &Vec<(String, JsonValue)>, key: &str) -> (r: Option<
    Option<Vec<String>>,
>)
    ensures
        match r {
            Option::Some(opt) => dec_opt_strings(fields.deep_view(), key@) == Option::Some(
                crate::schema::opt_strings_view(opt),
            ),
            Option::None => dec_opt_strings(fields.deep_view(), key@) is None,
        },
{
    match get_member(fields, key) {
        Option::None => Option::Some(Option::None),
        Option::Some(v) => match v {
            JsonValue::Null => Option::Some(Option::None),
            JsonValue::Arr(items) => {
                proof {
                    lemma_vec_jv_deep(items);
                    assert(v@ is Arr);
                    assert(v@->Arr_0 =~= items.deep_view());
                }
                match dec_strings_exec(items) {
                    Option::Some(ss) => Option::Some(Option::Some(ss)),
                    Option::None => Option::None,
                }
            },
            _ => Option::None,
        },
    }
}

fn dec_field_exec(v: &JsonValue) -> (r: Option<Field>)
    ensures
        match r {
            Option::Some(f) => dec_field(v@) == Option::Some(f@),
            Option::None => dec_field(v@) is None,
        },
{
    match v {
        JsonValue::Obj(fs) => {
            proof {
                lemma_vec_pair_deep(fs);
                assert(v@ is Obj);
                assert(v@->Obj_0 =~= fs.deep_view());
            }
            let name = match get_req_string(fs, "Name") {
                Option::Some(s) => s,
                Option::None => {
                    return Option::None;
                },
            };
            let prompt = match get_opt_string(fs, "Prompt") {
                Option::Some(o) => o,
                Option::None => {
                    return Option::None;
                },
            };
            let kind = match get_req_string(fs, "Type") {
                Option::Some(s) => s,
                Option::None => {
                    return Option::None;
                },
            };
            let order = match get_req_u32(fs, "Order") {
                Option::Some(n) => n,
                Option::None => {
                    return Option::None;
                },
            };
            let required = match get_opt_bool(fs, "Required") {
                Option::Some(o) => o,
                Option::None => {
                    return Option::None;
                },
            };
            let default = match get_opt_string(fs, "Default") {
                Option::Some(o) => o,
                Option::None => {
                    return Option::None;
                },
            };
            let choices = match get_opt_strings(fs, "Choices") {
                Option::Some(o) => o,
                Option::None => {
                    return Option::None;
                },
            };
            let arg = match get_opt_string(fs, "Arg") {
                Option::Some(o) => o,
                Option::None => {
                    return Option::None;
                },
            };
            Option::Some(Field { name, prompt, kind, order, required, default, choices, arg })
        },
        _ => Option::None,
    }
}

fn dec_fields_exec(items: &Vec<JsonValue>) -> (r: Option<Vec<Field>>)
    ensures
        match r {
            Option::Some(v) => dec_fields(items.deep_view()) == Option::Some(
                v@.map_values(|f: Field| f@),
            ),
            Option::None => dec_fields(items.deep_view()) is None,
        },
{
    let ghost full = items.deep_view();
    let mut acc: Vec<Field> = Vec::new();
    proof {
        assert(full.subrange(0, full.len() as int) =~= full);
        assert(acc@.map_values(|f: Field| f@) =~= Seq::<FieldView>::empty());
    }
    let mut i: usize = 0;
    while i < items.len()
        invariant
            i <= items@.len(),
            full == items.deep_view(),
            full.len() == items@.len(),
            forall|j: int| 0 <= j < items@.len() ==> #[trigger] full[j] == items@[j]@,
            dec_fields(full) == (match dec_fields(full.subrange(i as int, full.len() as int)) {
                Option::Some(t) => Option::Some(acc@.map_values(|f: Field| f@) + t),
                Option::None => Option::<Seq<FieldView>>::None,
            }),
        decreases items@.len() - i,
    {
        let ghost rest = full.subrange(i as int, full.len() as int);
        proof {
            assert(rest[0] == full[i as int]);
            assert(rest.drop_first() =~= full.subrange(i + 1, full.len() as int));
        }
        match dec_field_exec(&items[i]) {
            Option::Some(f) => {
                let ghost old_map = acc@.map_values(|x: Field| x@);
                let ghost fv = f@;
                acc.push(f);
                proof {
                    assert(acc@.map_values(|x: Field| x@) =~= old_map.push(fv));
                    if dec_fields(rest.drop_first()) is Some {
                        let t2 = dec_fields(rest.drop_first())->Some_0;
                        assert(old_map + (seq![fv] + t2) =~= old_map.push(fv) + t2);
                    }
                }
            },
            Option::None => {
                return Option::None;
            },
        }
        i = i + 1;
    }
    proof {
        assert(full.subrange(full.len() as int, full.len() as int) =~= Seq::<JsonVal>::empty());
        assert(acc@.map_values(|f: Field| f@) + Seq::<FieldView>::empty() =~= acc@.map_values(
            |f: Field| f@,
        ));
    }
    Option::Some(acc)
}

fn dec_output_exec(v: &JsonValue) -> (r: Option<OutputField>)
    ensures
        match r {
            Option::Some(o) => dec_output(v@) == Option::Some(o@),
            Option::None => dec_output(v@) is None,
        },
{
    match v {
        JsonValue::Obj(fs) => {
            proof {
                lemma_vec_pair_deep(fs);
                assert(v@ is Obj);
                assert(v@->Obj_0 =~= fs.deep_view());
            }
            let name = match get_req_string(fs, "Name") {
                Option::Some(s) => s,
                Option::None => {
                    return Option::None;
                },
            };
            let kind = match get_req_string(fs, "Type") {
                Option::Some(s) => s,
                Option::None => {
                    return Option::None;
                },
            };
            Option::Some(OutputField { name, kind })
        },
        _ => Option::None,
    }
}

fn dec_outputs_exec(items: &Vec<JsonValue>) -> (r: Option<Vec<OutputField>>)
    ensures
        match r {
            Option::Some(v) => dec_outputs(items.deep_view()) == Option::Some(
                v@.map_values(|o: OutputField| o@),
            ),
            Option::None => dec_outputs(items.deep_view()) is None,
        },
{
    let ghost full = items.deep_view();
    let mut acc: Vec<OutputField> = Vec::new();
    proof {
        assert(full.subrange(0, full.len() as int) =~= full);
        assert(acc@.map_values(|o: OutputField| o@) =~= Seq::<OutputFieldView>::empty());
    }
    let mut i: usize = 0;
    while i < items.len()
        invariant
            i <= items@.len(),
            full == items.deep_view(),
            full.len() == items@.len(),
            forall|j: int| 0 <= j < items@.len() ==> #[trigger] full[j] == items@[j]@,
            dec_outputs(full) == (match dec_outputs(
                full.subrange(i as int, full.len() as int),
            ) {
                Option::Some(t) => Option::Some(acc@.map_values(|o: OutputField| o@) + t),
                Option::None => Option::<Seq<OutputFieldView>>::None,
            }),
        decreases items@.len() - i,
    {
        let ghost rest = full.subrange(i as int, full.len() as int);
        proof {
            assert(rest[0] == full[i as int]);
            assert(rest.drop_first() =~= full.subrange(i + 1, full.len() as int));
        }
        match dec_output_exec(&items[i]) {
            Option::Some(o) => {
                let ghost old_map = acc@.map_values(|x: OutputField| x@);
                let ghost ov = o@;
                acc.push(o);
                proof {
                    assert(acc@.map_values(|x: OutputField| x@) =~= old_map.push(ov));
                    if dec_outputs(rest.drop_first()) is Some {
                        let t2 = dec_outputs(rest.drop_first())->Some_0;
                        assert(old_map + (seq![ov] + t2) =~= old_map.push(ov) + t2);
                    }
                }
            },
            Option::None => {
                return Option::None;
            },
        }
        i = i + 1;
    }
    proof {
        assert(full.subrange(full.len() as int, full.len() as int) =~= Seq::<JsonVal>::empty());
        assert(acc@.map_values(|o: OutputField| o@) + Seq::<OutputFieldView>::empty()
            =~= acc@.map_values(|o: OutputField| o@));
    }
    Option::Some(acc)
}

fn dec_matrix_value_exec(v: &JsonValue) -> (r: Option<MatrixValue>)
    ensures
        match r {
            Option::Some(m) => dec_matrix_value(v@) == Option::Some(m@),
            Option::None => dec_matrix_value(v@) is None,
        },
{
    match v {
        JsonValue::Obj(fs) => {
            proof {
                lemma_vec_pair_deep(fs);
                assert(v@ is Obj);
                assert(v@->Obj_0 =~= fs.deep_view());
            }
            let name = match get_req_string(fs, "Name") {
                Option::Some(s) => s,
                Option::None => {
                    return Option::None;
                },
            };
            let values = match get_member(fs, "Values") {
                Option::Some(member) => match member {
                    JsonValue::Arr(items) => {
                        proof {
                            lemma_vec_jv_deep(items);
                            assert(member@ is Arr);
                            assert(member@->Arr_0 =~= items.deep_view());
                        }
                        match dec_strings_exec(items) {
                        Option::Some(ss) => ss,
                        Option::None => {
                            return Option::None;
                        },
                        }
                    },

                    _ => {
                        return Option::None;
                    },
                },
                Option::None => {
                    return Option::None;
                },
            };
            Option::Some(MatrixValue { name, values })
        },
        _ => Option::None,
    }
}

fn dec_matrix_values_exec(items: &Vec<JsonValue>) -> (r: Option<Vec<MatrixValue>>)
    ensures
        match r {
            Option::Some(v) => dec_matrix_values(items.deep_view()) == Option::Some(
                v@.map_values(|m: MatrixValue| m@),
            ),
            Option::None => dec_matrix_values(items.deep_view()) is None,
        },
{
    let ghost full = items.deep_view();
    let mut acc: Vec<MatrixValue> = Vec::new();
    proof {
        assert(full.subrange(0, full.len() as int) =~= full);
        assert(acc@.map_values(|m: MatrixValue| m@) =~= Seq::<MatrixValueView>::empty());
    }
    let mut i: usize = 0;
    while i < items.len()
        invariant
            i <= items@.len(),
            full == items.deep_view(),
            full.len() == items@.len(),
            forall|j: int| 0 <= j < items@.len() ==> #[trigger] full[j] == items@[j]@,
            dec_matrix_values(full) == (match dec_matrix_values(
                full.subrange(i as int, full.len() as int),
            ) {
                Option::Some(t) => Option::Some(acc@.map_values(|m: MatrixValue| m@) + t),
                Option::None => Option::<Seq<MatrixValueView>>::None,
            }),
        decreases items@.len() - i,
    {
        let ghost rest = full.subrange(i as int, full.len() as int);
        proof {
            assert(rest[0] == full[i as int]);
            assert(rest.drop_first() =~= full.subrange(i + 1, full.len() as int));
        }
        match dec_matrix_value_exec(&items[i]) {
            Option::Some(m) => {
                let ghost old_map = acc@.map_values(|x: MatrixValue| x@);
                let ghost mv = m@;
                acc.push(m);
                proof {
                    assert(acc@.map_values(|x: MatrixValue| x@) =~= old_map.push(mv));
                    if dec_matrix_values(rest.drop_first()) is Some {
                        let t2 = dec_matrix_values(rest.drop_first())->Some_0;
                        assert(old_map + (seq![mv] + t2) =~= old_map.push(mv) + t2);
                    }
                }
            },
            Option::None => {
                return Option::None;
            },
        }
        i = i + 1;
    }
    proof {
        assert(full.subrange(full.len() as int, full.len() as int) =~= Seq::<JsonVal>::empty());
        assert(acc@.map_values(|m: MatrixValue| m@) + Seq::<MatrixValueView>::empty()
            =~= acc@.map_values(|m: MatrixValue| m@));
    }
    Option::Some(acc)
}

fn dec_matrix_exec(v: &JsonValue) -> (r: Option<MatrixSpec>)
    ensures
        match r {
            Option::Some(m) => dec_matrix(v@) == Option::Some(m@),
            Option::None => dec_matrix(v@) is None,
        },
{
    match v {
        JsonValue::Obj(fs) => {
            proof {
                lemma_vec_pair_deep(fs);
                assert(v@ is Obj);
                assert(v@->Obj_0 =~= fs.deep_view());
            }
            let values = match get_member(fs, "Values") {
                Option::Some(member) => match member {
                    JsonValue::Arr(items) => {
                        proof {
                            lemma_vec_jv_deep(items);
                            assert(member@ is Arr);
                            assert(member@->Arr_0 =~= items.deep_view());
                        }
                        match dec_matrix_values_exec(items) {
                        Option::Some(vs) => vs,
                        Option::None => {
                            return Option::None;
                        },
                        }
                    },

                    _ => {
                        return Option::None;
                    },
                },
                Option::None => {
                    return Option::None;
                },
            };
            Option::Some(MatrixSpec { values })
        },
        _ => Option::None,
    }
}

fn dec_case_value_exec(v: &JsonValue) -> (r: Option<CaseValue>)
    ensures
        match r {
            Option::Some(c) => dec_case_value(v@) == Option::Some(c@),
            Option::None => dec_case_value(v@) is None,
        },
{
    match v {
        JsonValue::Obj(fs) => {
            proof {
                lemma_vec_pair_deep(fs);
                assert(v@ is Obj);
                assert(v@->Obj_0 =~= fs.deep_view());
            }
            let name = match get_req_string(fs, "Name") {
                Option::Some(s) => s,
                Option::None => {
                    return Option::None;
                },
            };
            let value = match get_req_string(fs, "Value") {
                Option::Some(s) => s,
                Option::None => {
                    return Option::None;
                },
            };
            Option::Some(CaseValue { name, value })
        },
        _ => Option::None,
    }
}

fn dec_case_values_exec(items: &Vec<JsonValue>) -> (r: Option<Vec<CaseValue>>)
    ensures
        match r {
            Option::Some(v) => dec_case_values(items.deep_view()) == Option::Some(
                v@.map_values(|c: CaseValue| c@),
            ),
            Option::None => dec_case_values(items.deep_view()) is None,
        },
{
    let ghost full = items.deep_view();
    let mut acc: Vec<CaseValue> = Vec::new();
    proof {
        assert(full.subrange(0, full.len() as int) =~= full);
        assert(acc@.map_values(|c: CaseValue| c@) =~= Seq::<CaseValueView>::empty());
    }
    let mut i: usize = 0;
    while i < items.len()
        invariant
            i <= items@.len(),
            full == items.deep_view(),
            full.len() == items@.len(),
            forall|j: int| 0 <= j < items@.len() ==> #[trigger] full[j] == items@[j]@,
            dec_case_values(full) == (match dec_case_values(
                full.subrange(i as int, full.len() as int),
            ) {
                Option::Some(t) => Option::Some(acc@.map_values(|c: CaseValue| c@) + t),
                Option::None => Option::<Seq<CaseValueView>>::None,
            }),
        decreases items@.len() - i,
    {
        let ghost rest = full.subrange(i as int, full.len() as int);
        proof {
            assert(rest[0] == full[i as int]);
            assert(rest.drop_first() =~= full.subrange(i + 1, full.len() as int));
        }
        match dec_case_value_exec(&items[i]) {
            Option::Some(c) => {
                let ghost old_map = acc@.map_values(|x: CaseValue| x@);
                let ghost cv = c@;
                acc.push(c);
                proof {
                    assert(acc@.map_values(|x: CaseValue| x@) =~= old_map.push(cv));
                    if dec_case_values(rest.drop_first()) is Some {
                        let t2 = dec_case_values(rest.drop_first())->Some_0;
                        assert(old_map + (seq![cv] + t2) =~= old_map.push(cv) + t2);
                    }
                }
            },
            Option::None => {
                return Option::None;
            },
        }
        i = i + 1;
    }
    proof {
        assert(full.subrange(full.len() as int, full.len() as int) =~= Seq::<JsonVal>::empty());
        assert(acc@.map_values(|c: CaseValue| c@) + Seq::<CaseValueView>::empty()
            =~= acc@.map_values(|c: CaseValue| c@));
    }
    Option::Some(acc)
}

fn dec_queue_case_exec(v: &JsonValue) -> (r: Option<QueueCase>)
    ensures
        match r {
            Option::Some(c) => dec_queue_case(v@) == Option::Some(c@),
            Option::None => dec_queue_case(v@) is None,
        },
{
    match v {
        JsonValue::Obj(fs) => {
            proof {
                lemma_vec_pair_deep(fs);
                assert(v@ is Obj);
                assert(v@->Obj_0 =~= fs.deep_view());
            }
            let name = match get_opt_string(fs, "Name") {
                Option::Some(o) => o,
                Option::None => {
                    return Option::None;
                },
            };
            let values = match get_member(fs, "Values") {
                Option::Some(member) => match member {
                    JsonValue::Arr(items) => {
                        proof {
                            lemma_vec_jv_deep(items);
                            assert(member@ is Arr);
                            assert(member@->Arr_0 =~= items.deep_view());
                        }
                        match dec_case_values_exec(items) {
                        Option::Some(cs) => cs,
                        Option::None => {
                            return Option::None;
                        },
                        }
                    },

                    _ => {
                        return Option::None;
                    },
                },
                Option::None => {
                    return Option::None;
                },
            };
            Option::Some(QueueCase { name, values })
        },
        _ => Option::None,
    }
}

fn dec_queue_cases_exec(items: &Vec<JsonValue>) -> (r: Option<Vec<QueueCase>>)
    ensures
        match r {
            Option::Some(v) => dec_queue_cases(items.deep_view()) == Option::Some(
                v@.map_values(|c: QueueCase| c@),
            ),
            Option::None => dec_queue_cases(items.deep_view()) is None,
        },
{
    let ghost full = items.deep_view();
    let mut acc: Vec<QueueCase> = Vec::new();
    proof {
        assert(full.subrange(0, full.len() as int) =~= full);
        assert(acc@.map_values(|c: QueueCase| c@) =~= Seq::<QueueCaseView>::empty());
    }
    let mut i: usize = 0;
    while i < items.len()
        invariant
            i <= items@.len(),
            full == items.deep_view(),
            full.len() == items@.len(),
            forall|j: int| 0 <= j < items@.len() ==> #[trigger] full[j] == items@[j]@,
            dec_queue_cases(full) == (match dec_queue_cases(
                full.subrange(i as int, full.len() as int),
            ) {
                Option::Some(t) => Option::Some(acc@.map_values(|c: QueueCase| c@) + t),
                Option::None => Option::<Seq<QueueCaseView>>::None,
            }),
        decreases items@.len() - i,
    {
        let ghost rest = full.subrange(i as int, full.len() as int);
        proof {
            assert(rest[0] == full[i as int]);
            assert(rest.drop_first() =~= full.subrange(i + 1, full.len() as int));
        }
        match dec_queue_case_exec(&items[i]) {
            Option::Some(c) => {
                let ghost old_map = acc@.map_values(|x: QueueCase| x@);
                let ghost cv = c@;
                acc.push(c);
                proof {
                    assert(acc@.map_values(|x: QueueCase| x@) =~= old_map.push(cv));
                    if dec_queue_cases(rest.drop_first()) is Some {
                        let t2 = dec_queue_cases(rest.drop_first())->Some_0;
                        assert(old_map + (seq![cv] + t2) =~= old_map.push(cv) + t2);
                    }
                }
            },
            Option::None => {
                return Option::None;
            },
        }
        i = i + 1;
    }
    proof {
        assert(full.subrange(full.len() as int, full.len() as int) =~= Seq::<JsonVal>::empty());
        assert(acc@.map_values(|c: QueueCase| c@) + Seq::<QueueCaseView>::empty()
            =~= acc@.map_values(|c: QueueCase| c@));
    }
    Option::Some(acc)
}

fn dec_queue_exec(v: &JsonValue) -> (r: Option<QueueSpec>)
    ensures
        match r {
            Option::Some(q) => dec_queue(v@) == Option::Some(q@),
            Option::None => dec_queue(v@) is None,
        },
{
    match v {
        JsonValue::Obj(fs) => {
            proof {
                lemma_vec_pair_deep(fs);
                assert(v@ is Obj);
                assert(v@->Obj_0 =~= fs.deep_view());
            }
            let matrix: Option<MatrixSpec> = match get_member(fs, "Matrix") {
                Option::None => Option::None,
                Option::Some(member) => match member {
                    JsonValue::Null => Option::None,
                    _ => match dec_matrix_exec(member) {
                        Option::Some(m) => Option::Some(m),
                        Option::None => {
                            return Option::None;
                        },
                    },
                },
            };
            let cases: Option<Vec<QueueCase>> = match get_member(fs, "Cases") {
                Option::None => Option::None,
                Option::Some(member) => match member {
                    JsonValue::Null => Option::None,
                    JsonValue::Arr(items) => {
                        proof {
                            lemma_vec_jv_deep(items);
                            assert(member@ is Arr);
                            assert(member@->Arr_0 =~= items.deep_view());
                        }
                        match dec_queue_cases_exec(items) {
                        Option::Some(cs) => Option::Some(cs),
                        Option::None => {
                            return Option::None;
                        },
                        }
                    },

                    _ => {
                        return Option::None;
                    },
                },
            };
            Option::Some(QueueSpec { matrix, cases })
        },
        _ => Option::None,
    }
}

/// Decodes a parsed JSON value into a schema, or nothing when the value does
/// not have the schema shape.
pub fn decode_schema(v: &JsonValue) -> (r: Option<Schema>)
    ensures
        match r {
            Option::Some(s) => dec_schema(v@) == Option::Some(s@),
            Option::None => dec_schema(v@) is None,
        },
{
    match v {
        JsonValue::Obj(fs) => {
            proof {
                lemma_vec_pair_deep(fs);
                assert(v@ is Obj);
                assert(v@->Obj_0 =~= fs.deep_view());
            }
            let name = match get_req_string(fs, "Name") {
                Option::Some(s) => s,
                Option::None => {
                    return Option::None;
                },
            };
            let description = match get_opt_string(fs, "Description") {
                Option::Some(o) => o,
                Option::None => {
                    return Option::None;
                },
            };
            let tags = match get_opt_strings(fs, "Tags") {
                Option::Some(o) => o,
                Option::None => {
                    return Option::None;
                },
            };
            let fields = match get_member(fs, "Fields") {
                Option::Some(member) => match member {
                    JsonValue::Arr(items) => {
                        proof {
                            lemma_vec_jv_deep(items);
                            assert(member@ is Arr);
                            assert(member@->Arr_0 =~= items.deep_view());
                        }
                        match dec_fields_exec(items) {
                        Option::Some(v2) => v2,
                        Option::None => {
                            return Option::None;
                        },
                        }
                    },

                    _ => {
                        return Option::None;
                    },
                },
                Option::None => {
                    return Option::None;
                },
            };
            let outputs: Option<Vec<OutputField>> = match get_member(fs, "Outputs") {
                Option::None => Option::None,
                Option::Some(member) => match member {
                    JsonValue::Null => Option::None,
                    JsonValue::Arr(items) => {
                        proof {
                            lemma_vec_jv_deep(items);
                            assert(member@ is Arr);
                            assert(member@->Arr_0 =~= items.deep_view());
                        }
                        match dec_outputs_exec(items) {
                        Option::Some(os) => Option::Some(os),
                        Option::None => {
                            return Option::None;
                        },
                        }
                    },

                    _ => {
                        return Option::None;
                    },
                },
            };
            let queue: Option<QueueSpec> = match get_member(fs, "Queue") {
                Option::None => Option::None,
                Option::Some(member) => match member {
                    JsonValue::Null => Option::None,
                    _ => match dec_queue_exec(member) {
                        Option::Some(q) => Option::Some(q),
                        Option::None => {
                            return Option::None;
                        },
                    },
                },
            };
            Option::Some(Schema { name, description, tags, fields, outputs, queue })
        },
        _ => Option::None,
    }
}

/// The schema recovered at position `i` of the text, through the JSON value
/// standing there.
pub open spec fn parse_at(s: Seq<char>, i: int) -> Option<SchemaView> {
    match json_value_at(s.subrange(i, s.len() as int)) {
        Option::None => Option::None,
        Option::Some(v) => dec_schema(v),
    }
}

/// The first position at or after `i` holding `{` where a schema decodes,
/// and its schema.
pub open spec fn first_schema_from(s: Seq<char>, i: int) -> Option<SchemaView>
    decreases s.len() - i,
{
    if i < 0 || i >= s.len() {
        Option::None
    } else if s[i] == '{' && parse_at(s, i) is Some {
        parse_at(s, i)
    } else {
        first_schema_from(s, i + 1)
    }
}

/// What scanning a whole text for a schema yields: the first `{` position
/// whose JSON value decodes into the schema shape wins, whatever prose
/// stands around it.
pub open spec fn parse_schema_spec(s: Seq<char>) -> Option<SchemaView> {
    first_schema_from(s, 0)
}

/// Parses a schema JSON object out of arbitrary text.
pub fn parse_schema(output: &str) -> (r: Result<Schema, SchemaError>)
    ensures
        match r {
            Ok(schema) => parse_schema_spec(output@) == Option::Some(schema@),
            Err(e) => e is JsonNotFound && parse_schema_spec(output@) is None,
        },
{
    let chars = str_to_chars(output);
    let n = chars.len();
    let mut i: usize = 0;
    while i < n
        invariant
            i <= n,
            n == chars@.len(),
            chars@ == output@,
            parse_schema_spec(output@) == first_schema_from(output@, i as int),
        decreases n - i,
    {
        if chars[i] == '{' {
            let suffix = vstd::string::StrSliceExecFns::substring_char(output, i, n);
            proof {
                assert(suffix@ == output@.subrange(i as int, output@.len() as int));
            }
            match parse_json_prefix(suffix) {
                Option::Some(v) => {
                    match decode_schema(&v) {
                        Option::Some(schema) => {
                            return Ok(schema);
                        },
                        Option::None => {},
                    }
                },
                Option::None => {},
            }
        }
        i = i + 1;
    }
    Err(SchemaError::JsonNotFound)
}

} // verus!
