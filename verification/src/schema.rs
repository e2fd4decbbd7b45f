//! The schema data model: a script's declared name, inputs, outputs and batch
//! variants, together with the ordering invariant on its fields.

use vstd::prelude::*;

verus! {

/// One named, typed, orderable input declared by a schema.
#[derive(Debug)]
pub struct Field {
    pub name: String,
    pub prompt: Option<String>,
    pub kind: String,
    pub order: u32,
    pub required: Option<bool>,
    pub default: Option<String>,
    pub choices: Option<Vec<String>>,
    pub arg: Option<String>,
}

/// One output declared by a schema.
#[derive(Debug)]
pub struct OutputField {
    pub name: String,
    pub kind: String,
}

/// One axis of a batch matrix.
#[derive(Debug)]
pub struct MatrixValue {
    pub name: String,
    pub values: Vec<String>,
}

/// The matrix form of a batch specification.
#[derive(Debug)]
pub struct MatrixSpec {
    pub values: Vec<MatrixValue>,
}

/// One field assignment inside a named batch case.
#[derive(Debug)]
pub struct CaseValue {
    pub name: String,
    pub value: String,
}

/// One named batch case.
#[derive(Debug)]
pub struct QueueCase {
    pub name: Option<String>,
    pub values: Vec<CaseValue>,
}

/// A batch specification: either a matrix of values or named cases.
#[derive(Debug)]
pub struct QueueSpec {
    pub matrix: Option<MatrixSpec>,
    pub cases: Option<Vec<QueueCase>>,
}

/// A script's machine-readable description.
#[derive(Debug)]
pub struct Schema {
    pub name: String,
    pub description: Option<String>,
    pub tags: Option<Vec<String>>,
    pub fields: Vec<Field>,
    pub outputs: Option<Vec<OutputField>>,
    pub queue: Option<QueueSpec>,
}

/// The mathematical value of a `Field`.
pub struct FieldView {
    pub name: Seq<char>,
    pub prompt: Option<Seq<char>>,
    pub kind: Seq<char>,
    pub order: u32,
    pub required: Option<bool>,
    pub default: Option<Seq<char>>,
    pub choices: Option<Seq<Seq<char>>>,
    pub arg: Option<Seq<char>>,
}

pub open spec fn opt_str_view(o: Option<String>) -> Option<Seq<char>> {
    match o {
        Option::None => Option::None,
        Option::Some(s) => Option::Some(s@),
    }
}

pub open spec fn opt_strings_view(o: Option<Vec<String>>) -> Option<Seq<Seq<char>>> {
    match o {
        Option::None => Option::None,
        Option::Some(v) => Option::Some(v.deep_view()),
    }
}

impl View for Field {
    type V = FieldView;

    open spec fn view(&self) -> FieldView {
        FieldView {
            name: self.name@,
            prompt: opt_str_view(self.prompt),
            kind: self.kind@,
            order: self.order,
            required: self.required,
            default: opt_str_view(self.default),
            choices: opt_strings_view(self.choices),
            arg: opt_str_view(self.arg),
        }
    }
}

/// The mathematical value of an `OutputField`.
pub struct OutputFieldView {
    pub name: Seq<char>,
    pub kind: Seq<char>,
}

impl View for OutputField {
    type V = OutputFieldView;

    open spec fn view(&self) -> OutputFieldView {
        OutputFieldView { name: self.name@, kind: self.kind@ }
    }
}

/// The mathematical value of a `MatrixValue`.
pub struct MatrixValueView {
    pub name: Seq<char>,
    pub values: Seq<Seq<char>>,
}

impl View for MatrixValue {
    type V = MatrixValueView;

    open spec fn view(&self) -> MatrixValueView {
        MatrixValueView { name: self.name@, values: self.values.deep_view() }
    }
}

/// The mathematical value of a `CaseValue`.
pub struct CaseValueView {
    pub name: Seq<char>,
    pub value: Seq<char>,
}

impl View for CaseValue {
    type V = CaseValueView;

    open spec fn view(&self) -> CaseValueView {
        CaseValueView { name: self.name@, value: self.value@ }
    }
}

/// The mathematical value of a `QueueCase`.
pub struct QueueCaseView {
    pub name: Option<Seq<char>>,
    pub values: Seq<CaseValueView>,
}

impl View for QueueCase {
    type V = QueueCaseView;

    open spec fn view(&self) -> QueueCaseView {
        QueueCaseView {
            name: opt_str_view(self.name),
            values: self.values@.map_values(|v: CaseValue| v@),
        }
    }
}

/// The mathematical value of a `MatrixSpec`.
pub struct MatrixSpecView {
    pub values: Seq<MatrixValueView>,
}

impl View for MatrixSpec {
    type V = MatrixSpecView;

    open spec fn view(&self) -> MatrixSpecView {
        MatrixSpecView { values: self.values@.map_values(|v: MatrixValue| v@) }
    }
}

/// The mathematical value of a `QueueSpec`.
pub struct QueueSpecView {
    pub matrix: Option<MatrixSpecView>,
    pub cases: Option<Seq<QueueCaseView>>,
}

impl View for QueueSpec {
    type V = QueueSpecView;

    open spec fn view(&self) -> QueueSpecView {
        QueueSpecView {
            matrix: match self.matrix {
                Option::None => Option::None,
                Option::Some(m) => Option::Some(m@),
            },
            cases: match self.cases {
                Option::None => Option::None,
                Option::Some(cs) => Option::Some(cs@.map_values(|c: QueueCase| c@)),
            },
        }
    }
}

/// The mathematical value of a `Schema`.
pub struct SchemaView {
    pub name: Seq<char>,
    pub description: Option<Seq<char>>,
    pub tags: Option<Seq<Seq<char>>>,
    pub fields: Seq<FieldView>,
    pub outputs: Option<Seq<OutputFieldView>>,
    pub queue: Option<QueueSpecView>,
}

impl View for Schema {
    type V = SchemaView;

    open spec fn view(&self) -> SchemaView {
        SchemaView {
            name: self.name@,
            description: opt_str_view(self.description),
            tags: opt_strings_view(self.tags),
            fields: self.fields@.map_values(|f: Field| f@),
            outputs: match self.outputs {
                Option::None => Option::None,
                Option::Some(os) => Option::Some(os@.map_values(|o: OutputField| o@)),
            },
            queue: match self.queue {
                Option::None => Option::None,
                Option::Some(q) => Option::Some(q@),
            },
        }
    }
}

pub fn clone_opt_string(o: &Option<String>) -> (r: Option<String>)
    ensures
        r == *o,
{
    match o {
        Option::None => Option::None,
        Option::Some(s) => Option::Some(s.clone()),
    }
}

pub fn clone_string_vec(v: &Vec<String>) -> (r: Vec<String>)
    ensures
        r@ == v@,
{
    let mut r: Vec<String> = Vec::new();
    for i in 0..v.len()
        invariant
            r@ == v@.subrange(0, i as int),
    {
        r.push(v[i].clone());
        proof {
            assert(r@ =~= v@.subrange(0, i + 1));
        }
    }
    proof {
        assert(r@ =~= v@);
    }
    r
}

pub fn clone_opt_string_vec(o: &Option<Vec<String>>) -> (r: Option<Vec<String>>)
    ensures
        opt_strings_view(r) == opt_strings_view(*o),
        r is Some <==> *o is Some,
        r matches Option::Some(rv) ==> (o matches Option::Some(ov) && rv@ == ov@),
{
    match o {
        Option::None => Option::None,
        Option::Some(v) => Option::Some(clone_string_vec(v)),
    }
}

impl Clone for Field {
    /// A cloned field has the same mathematical value.
    fn clone(&self) -> (r: Field)
        ensures
            r@ == self@,
    {
        let r = Field {
            name: self.name.clone(),
            prompt: clone_opt_string(&self.prompt),
            kind: self.kind.clone(),
            order: self.order,
            required: self.required,
            default: clone_opt_string(&self.default),
            choices: clone_opt_string_vec(&self.choices),
            arg: clone_opt_string(&self.arg),
        };
        r
    }
}

/// Fields stand in ascending declared order.
pub open spec fn sorted_by_order(fields: Seq<Field>) -> bool {
    forall|i: int, j: int|
        0 <= i < j < fields.len() ==> #[trigger] fields[i].order <= #[trigger] fields[j].order
}

/// Where a field lands among already-sorted fields: after every field whose
/// order is at most its own, so that ties keep their declared order.
pub open spec fn insert_by_order(s: Seq<Field>, f: Field) -> Seq<Field>
    decreases s.len(),
{
    if s.len() == 0 {
        seq![f]
    } else if s.last().order > f.order {
        insert_by_order(s.drop_last(), f).push(s.last())
    } else {
        s.push(f)
    }
}

/// The stable sort of fields by declared `order`: fields with equal orders
/// keep their relative positions.
pub open spec fn sort_by_order_spec(s: Seq<Field>) -> Seq<Field>
    decreases s.len(),
{
    if s.len() == 0 {
        Seq::empty()
    } else {
        insert_by_order(sort_by_order_spec(s.drop_last()), s.last())
    }
}

proof fn lemma_insert_by_order_at(s: Seq<Field>, f: Field, p: int)
    requires
        0 <= p <= s.len(),
        forall|k: int| p <= k < s.len() ==> #[trigger] s[k].order > f.order,
        p == 0 || s[p - 1].order <= f.order,
    ensures
        insert_by_order(s, f) == s.subrange(0, p) + seq![f] + s.subrange(p, s.len() as int),
    decreases s.len() - p,
{
    if p == s.len() {
        if s.len() == 0 {
            assert(insert_by_order(s, f) =~= s.subrange(0, p) + seq![f] + s.subrange(
                p,
                s.len() as int,
            ));
        } else {
            assert(s.last().order <= f.order);
            assert(insert_by_order(s, f) == s.push(f));
            assert(s.push(f) =~= s.subrange(0, p) + seq![f] + s.subrange(p, s.len() as int));
        }
    } else {
        assert(s.last().order > f.order);
        let s2 = s.drop_last();
        assert(forall|k: int| p <= k < s2.len() ==> #[trigger] s2[k].order > f.order);
        lemma_insert_by_order_at(s2, f, p);
        assert(s2.subrange(0, p) =~= s.subrange(0, p));
        assert(insert_by_order(s, f) =~= s.subrange(0, p) + seq![f] + s.subrange(
            p,
            s.len() as int,
        )) by {
            assert(insert_by_order(s, f) == (s2.subrange(0, p) + seq![f] + s2.subrange(
                p,
                s2.len() as int,
            )).push(s.last()));
        }
    }
}

/// Sorts a schema's fields by their declared `order`, the order in which they
/// are presented and validated; fields sharing an order keep their declared
/// relative positions.
pub fn sort_fields_by_order(fields: Vec<Field>) -> (r: Vec<Field>)
    ensures
        r@ == sort_by_order_spec(fields@),
        sorted_by_order(r@),
        r@.to_multiset() == fields@.to_multiset(),
        r@.len() == fields@.len(),
{
    broadcast use vstd::seq_lib::group_to_multiset_ensures;

    let mut rest = fields;
    let mut r: Vec<Field> = Vec::new();
    proof {
        assert(fields@.subrange(0, 0) =~= Seq::<Field>::empty());
    }
    while rest.len() > 0
        invariant
            sorted_by_order(r@),
            r@.to_multiset().add(rest@.to_multiset()) == fields@.to_multiset(),
            r@.len() + rest@.len() == fields@.len(),
            r@ == sort_by_order_spec(fields@.subrange(0, fields@.len() - rest@.len())),
            rest@ == fields@.subrange(fields@.len() - rest@.len(), fields@.len() as int),
        decreases rest.len(),
    {
        let ghost old_r = r@;
        let ghost old_rest = rest@;
        let ghost done = (fields@.len() - old_rest.len()) as int;
        let f = rest.remove(0);
        proof {
            assert(old_rest =~= seq![f] + rest@);
            crate::seqs::lemma_multiset_head(f, rest@);
            assert(f == fields@[done]);
            assert(rest@ =~= fields@.subrange(done + 1, fields@.len() as int));
        }
        let mut p: usize = r.len();
        while p > 0 && r[p - 1].order > f.order
            invariant
                p <= r@.len(),
                forall|k: int| p <= k < r@.len() ==> #[trigger] r@[k].order > f.order,
            decreases p,
        {
            p = p - 1;
        }
        proof {
            crate::seqs::lemma_multiset_insert(r@, p as int, f);
        }
        r.insert(p, f);
        proof {
            broadcast use vstd::multiset::group_multiset_axioms;

            assert(r@ =~= old_r.subrange(0, p as int) + seq![f] + old_r.subrange(
                p as int,
                old_r.len() as int,
            ));
            assert(forall|i: int| 0 <= i < p ==> r@[i] == old_r[i]);
            assert(r@[p as int] == f);
            assert(forall|i: int| p < i < r@.len() ==> r@[i] == old_r[i - 1]);
            assert forall|i: int, j: int| 0 <= i < j < r@.len() implies r@[i].order
                <= r@[j].order by {
                if i < p && j > p {
                    assert(old_r[j - 1].order > f.order);
                }
            }
            assert(r@.to_multiset() == old_r.to_multiset().insert(f));
            assert(r@.to_multiset().add(rest@.to_multiset()) =~= fields@.to_multiset());
            lemma_insert_by_order_at(old_r, f, p as int);
            assert(fields@.subrange(0, done + 1).drop_last() =~= fields@.subrange(0, done));
            assert(fields@.subrange(0, done + 1).last() == fields@[done]);
            assert(r@ =~= insert_by_order(old_r, f));
            assert(r@ == sort_by_order_spec(fields@.subrange(0, done + 1)));
        }
    }
    proof {
        assert(rest@ =~= Seq::<Field>::empty());
        assert(r@.to_multiset() =~= fields@.to_multiset());
        assert(fields@.subrange(0, fields@.len() as int) =~= fields@);
    }
    r
}

impl Clone for OutputField {
    fn clone(&self) -> (r: OutputField)
        ensures
            r@ == self@,
    {
        OutputField { name: self.name.clone(), kind: self.kind.clone() }
    }
}

impl Clone for MatrixValue {
    fn clone(&self) -> (r: MatrixValue)
        ensures
            r@ == self@,
    {
        let r = MatrixValue { name: self.name.clone(), values: clone_string_vec(&self.values) };
        proof {
            assert(r@.values =~= self@.values);
        }
        r
    }
}

impl Clone for CaseValue {
    fn clone(&self) -> (r: CaseValue)
        ensures
            r@ == self@,
    {
        CaseValue { name: self.name.clone(), value: self.value.clone() }
    }
}

fn clone_matrix_values(v: &Vec<MatrixValue>) -> (r: Vec<MatrixValue>)
    ensures
        r@.map_values(|m: MatrixValue| m@) == v@.map_values(|m: MatrixValue| m@),
{
    let mut r: Vec<MatrixValue> = Vec::new();
    for i in 0..v.len()
        invariant
            r@.len() == i,
            forall|j: int| 0 <= j < i ==> #[trigger] r@[j]@ == v@[j]@,
    {
        r.push(v[i].clone());
    }
    proof {
        assert(r@.map_values(|m: MatrixValue| m@) =~= v@.map_values(|m: MatrixValue| m@));
    }
    r
}

fn clone_case_values(v: &Vec<CaseValue>) -> (r: Vec<CaseValue>)
    ensures
        r@.map_values(|c: CaseValue| c@) == v@.map_values(|c: CaseValue| c@),
{
    let mut r: Vec<CaseValue> = Vec::new();
    for i in 0..v.len()
        invariant
            r@.len() == i,
            forall|j: int| 0 <= j < i ==> #[trigger] r@[j]@ == v@[j]@,
    {
        r.push(v[i].clone());
    }
    proof {
        assert(r@.map_values(|c: CaseValue| c@) =~= v@.map_values(|c: CaseValue| c@));
    }
    r
}

impl Clone for MatrixSpec {
    fn clone(&self) -> (r: MatrixSpec)
        ensures
            r@ == self@,
    {
        let r = MatrixSpec { values: clone_matrix_values(&self.values) };
        r
    }
}

impl Clone for QueueCase {
    fn clone(&self) -> (r: QueueCase)
        ensures
            r@ == self@,
    {
        let r = QueueCase {
            name: clone_opt_string(&self.name),
            values: clone_case_values(&self.values),
        };
        r
    }
}

impl Clone for QueueSpec {
    fn clone(&self) -> (r: QueueSpec)
        ensures
            r@ == self@,
    {
        let matrix = match &self.matrix {
            Option::None => Option::None,
            Option::Some(m) => Option::Some(m.clone()),
        };
        let cases = match &self.cases {
            Option::None => Option::None,
            Option::Some(cs) => {
                let mut r: Vec<QueueCase> = Vec::new();
                for i in 0..cs.len()
                    invariant
                        r@.len() == i,
                        forall|j: int| 0 <= j < i ==> #[trigger] r@[j]@ == cs@[j]@,
                {
                    r.push(cs[i].clone());
                }
                proof {
                    assert(r@.map_values(|c: QueueCase| c@) =~= cs@.map_values(|c: QueueCase| c@));
                }
                Option::Some(r)
            },
        };
        let r = QueueSpec { matrix, cases };
        r
    }
}

pub fn clone_fields(v: &Vec<Field>) -> (r: Vec<Field>)
    ensures
        r@.map_values(|f: Field| f@) == v@.map_values(|f: Field| f@),
        r@.len() == v@.len(),
        forall|j: int| 0 <= j < v@.len() ==> #[trigger] r@[j]@ == v@[j]@,
{
    let mut r: Vec<Field> = Vec::new();
    for i in 0..v.len()
        invariant
            r@.len() == i,
            forall|j: int| 0 <= j < i ==> #[trigger] r@[j]@ == v@[j]@,
    {
        r.push(v[i].clone());
    }
    proof {
        assert(r@.map_values(|f: Field| f@) =~= v@.map_values(|f: Field| f@));
    }
    r
}

fn clone_outputs(v: &Vec<OutputField>) -> (r: Vec<OutputField>)
    ensures
        r@.map_values(|o: OutputField| o@) == v@.map_values(|o: OutputField| o@),
{
    let mut r: Vec<OutputField> = Vec::new();
    for i in 0..v.len()
        invariant
            r@.len() == i,
            forall|j: int| 0 <= j < i ==> #[trigger] r@[j]@ == v@[j]@,
    {
        r.push(v[i].clone());
    }
    proof {
        assert(r@.map_values(|o: OutputField| o@) =~= v@.map_values(|o: OutputField| o@));
    }
    r
}

impl Clone for Schema {
    /// A cloned schema has the same mathematical value.
    fn clone(&self) -> (r: Schema)
        ensures
            r@ == self@,
    {
        let r = Schema {
            name: self.name.clone(),
            description: clone_opt_string(&self.description),
            tags: clone_opt_string_vec(&self.tags),
            fields: clone_fields(&self.fields),
            outputs: match &self.outputs {
                Option::None => Option::None,
                Option::Some(os) => Option::Some(clone_outputs(os)),
            },
            queue: match &self.queue {
                Option::None => Option::None,
                Option::Some(q) => Option::Some(q.clone()),
            },
        };
        r
    }
}

} // verus!
