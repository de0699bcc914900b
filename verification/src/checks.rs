//! The document checks of a file stated over what its text reads to: the
//! header records and entities as `grammar` gives them.

use vstd::prelude::*;
use crate::document::first_keyword;
use crate::grammar::{
    entities_model, entity_model, record_model, records_model, value_model, values_model, BodyModel,
    EntityModel, RecordModel, ValueModel,
};
use crate::checklist::raised_issues;
use crate::header::{
    defined_id, duplicate_ids, entity_dangles, entity_reference_checks, entity_refs, header_checks,
    header_violation, id_checks, keyword_count, records_refs, reference_checks_upto, required_header_names,
    schema_issues, schema_violation, value_refs, values_refs, dangling_reference, is_string_ci,
};
use crate::model::{EntityInstance, FileFormat, HeaderSection, ParsedDocument, Record, Value};
use crate::reader::document_issues;
use crate::text::{eq_ci, int_text, nat_text};

verus! {

/// How many records have keyword `kw` (ASCII case-insensitively).
pub open spec fn keyword_count_of(recs: Seq<RecordModel>, kw: Seq<char>) -> int
    decreases recs.len(),
{
    if recs.len() == 0 {
        0
    } else {
        keyword_count_of(recs.drop_last(), kw) + if eq_ci(recs.last().keyword, kw) {
            1int
        } else {
            0int
        }
    }
}

/// Index of the first record whose keyword is `kw` (ASCII case-insensitively).
pub open spec fn first_keyword_of(recs: Seq<RecordModel>, kw: Seq<char>) -> Option<int> {
    if exists|i: int| 0 <= i < recs.len() && eq_ci(#[trigger] recs[i].keyword, kw) {
        Some(
            choose|i: int|
                0 <= i < recs.len() && eq_ci(recs[i].keyword, kw) && forall|j: int|
                    0 <= j < i ==> !eq_ci(#[trigger] recs[j].keyword, kw),
        )
    } else {
        None
    }
}

/// A required header record is missing or repeated.
pub open spec fn header_records_violation(h: Seq<RecordModel>) -> bool {
    exists|n: int| 0 <= n < 3 && keyword_count_of(h, #[trigger] required_header_names()[n]) != 1
}

/// The first of `params` is a list that holds the string
/// `ASSOCIATIVE_DRAUGHTING` (ASCII case-insensitively).
pub open spec fn lists_draughting_schema(params: Seq<ValueModel>) -> bool {
    params.len() > 0 && params[0] is List && exists|i: int|
        0 <= i < params[0]->List_0.len() && string_ci_of(
            #[trigger] params[0]->List_0[i],
            "ASSOCIATIVE_DRAUGHTING"@,
        )
}

/// `FILE_SCHEMA` is present and its first parameter does not list
/// `ASSOCIATIVE_DRAUGHTING`.
pub open spec fn schema_records_violation(h: Seq<RecordModel>) -> bool {
    match first_keyword_of(h, "FILE_SCHEMA"@) {
        None => false,
        Some(k) => !lists_draughting_schema(h[k].parameters),
    }
}

/// Some entity id occurs twice.
pub open spec fn repeated_id(es: Seq<EntityModel>) -> bool {
    exists|j: int, k: int| 0 <= j < k < es.len() && (#[trigger] es[j]).id == (#[trigger] es[k]).id
}

/// The entity ids referenced in a value, in order.
pub open spec fn refs_of_value(v: ValueModel) -> Seq<i64>
    decreases v,
{
    match v {
        ValueModel::Reference(id) => seq![id],
        ValueModel::List(vs) => refs_of_values(vs),
        ValueModel::Typed(_, vs) => refs_of_values(vs),
        _ => Seq::empty(),
    }
}

/// The entity ids referenced in values, in order.
pub open spec fn refs_of_values(vs: Seq<ValueModel>) -> Seq<i64>
    decreases vs,
{
    if vs.len() == 0 {
        Seq::empty()
    } else {
        refs_of_values(vs.subrange(0, vs.len() - 1)) + refs_of_value(vs[vs.len() - 1])
    }
}

/// The entity ids referenced in records, in order.
pub open spec fn refs_of_records(recs: Seq<RecordModel>) -> Seq<i64>
    decreases recs.len(),
{
    if recs.len() == 0 {
        Seq::empty()
    } else {
        refs_of_records(recs.drop_last()) + refs_of_values(recs.last().parameters)
    }
}

/// The entity ids an entity references.
pub open spec fn refs_of_entity(e: EntityModel) -> Seq<i64> {
    match e.body {
        BodyModel::Simple(r) => refs_of_values(r.parameters),
        BodyModel::Complex(rs) => refs_of_records(rs),
    }
}

/// Some entity references an id that no entity has.
pub open spec fn unresolved_reference(es: Seq<EntityModel>) -> bool {
    exists|k: int, j: int|
        0 <= k < es.len() && 0 <= j < refs_of_entity(es[k]).len() && !(exists|m: int|
            0 <= m < es.len() && (#[trigger] es[m]).id == #[trigger] refs_of_entity(es[k])[j])
}

/// A Part 21 file with these header records and entities breaks a rule
/// that the document checks report.
pub open spec fn p21_rules_broken(h: Seq<RecordModel>, es: Seq<EntityModel>) -> bool {
    ||| header_records_violation(h)
    ||| schema_records_violation(h)
    ||| repeated_id(es)
    ||| unresolved_reference(es)
}

proof fn lemma_records_model_drop_last(recs: Seq<Record>)
    requires
        recs.len() > 0,
    ensures
        records_model(recs.drop_last()) == records_model(recs).drop_last(),
        records_model(recs).last() == record_model(recs.last()),
{
    assert(records_model(recs.drop_last()) =~= records_model(recs).drop_last());
}

pub proof fn lemma_keyword_count_of(recs: Seq<Record>, kw: Seq<char>)
    ensures
        keyword_count(recs, kw) == keyword_count_of(records_model(recs), kw),
    decreases recs.len(),
{
    if recs.len() > 0 {
        lemma_records_model_drop_last(recs);
        lemma_keyword_count_of(recs.drop_last(), kw);
    }
}

/// The first record at or before `i` whose keyword is `kw`, when `i` has it.
proof fn lemma_first_match_exists(recs: Seq<RecordModel>, kw: Seq<char>, i: int)
    requires
        0 <= i < recs.len(),
        eq_ci(recs[i].keyword, kw),
    ensures
        exists|c: int| first_match(recs, kw, c),
    decreases i,
{
    if exists|j: int| 0 <= j < i && eq_ci(#[trigger] recs[j].keyword, kw) {
        let j = choose|j: int| 0 <= j < i && eq_ci(#[trigger] recs[j].keyword, kw);
        lemma_first_match_exists(recs, kw, j);
    } else {
        assert(first_match(recs, kw, i));
    }
}

/// `c` is the first record whose keyword is `kw`.
pub open spec fn first_match(recs: Seq<RecordModel>, kw: Seq<char>, c: int) -> bool {
    0 <= c < recs.len() && eq_ci(recs[c].keyword, kw) && forall|j: int|
        0 <= j < c ==> !eq_ci(#[trigger] recs[j].keyword, kw)
}

proof fn lemma_records_model_index(recs: Seq<Record>)
    ensures
        records_model(recs).len() == recs.len(),
        forall|i: int| 0 <= i < recs.len() ==> #[trigger] records_model(recs)[i] == record_model(recs[i]),
{
}

pub proof fn lemma_first_keyword_of(recs: Seq<Record>, kw: Seq<char>)
    ensures
        first_keyword(recs, kw) == first_keyword_of(records_model(recs), kw),
        first_keyword(recs, kw) matches Some(c) ==> 0 <= c < recs.len(),
{
    let rm = records_model(recs);
    lemma_records_model_index(recs);
    assert forall|c: int|
        0 <= c < recs.len() && eq_ci(recs[c].keyword@, kw) && (forall|j: int|
            0 <= j < c ==> !eq_ci(#[trigger] recs[j].keyword@, kw)) <==> #[trigger] first_match(rm, kw, c) by {
        if 0 <= c < recs.len() {
            assert(rm[c].keyword == recs[c].keyword@);
            if forall|j: int| 0 <= j < c ==> !eq_ci(#[trigger] recs[j].keyword@, kw) {
                assert forall|j: int| 0 <= j < c implies !eq_ci(#[trigger] rm[j].keyword, kw) by {
                    assert(rm[j] == record_model(recs[j]));
                }
            }
            if forall|j: int| 0 <= j < c ==> !eq_ci(#[trigger] rm[j].keyword, kw) {
                assert forall|j: int| 0 <= j < c implies !eq_ci(#[trigger] recs[j].keyword@, kw) by {
                    assert(rm[j] == record_model(recs[j]));
                    assert(!eq_ci(rm[j].keyword, kw));
                }
            }
        }
    }
    if exists|i: int| 0 <= i < recs.len() && eq_ci(#[trigger] recs[i].keyword@, kw) {
        let i = choose|i: int| 0 <= i < recs.len() && eq_ci(#[trigger] recs[i].keyword@, kw);
        assert(rm[i].keyword == recs[i].keyword@);
        lemma_first_match_exists(rm, kw, i);
        let c = choose|c: int| first_match(rm, kw, c);
        let c1 = first_keyword(recs, kw).unwrap();
        let c2 = first_keyword_of(rm, kw).unwrap();
        assert(first_match(rm, kw, c1));
        assert(first_match(rm, kw, c2));
        if c1 < c2 {
            assert(eq_ci(rm[c1].keyword, kw));
        } else if c2 < c1 {
            assert(eq_ci(rm[c2].keyword, kw));
        }
    } else {
        assert forall|i: int| 0 <= i < rm.len() implies !eq_ci(#[trigger] rm[i].keyword, kw) by {
            assert(rm[i].keyword == recs[i].keyword@);
        }
    }
}

/// `values_model` keeps the length and maps each value.
pub proof fn lemma_values_model_index(vs: Seq<Value>)
    ensures
        values_model(vs).len() == vs.len(),
        forall|i: int| 0 <= i < vs.len() ==> #[trigger] values_model(vs)[i] == value_model(vs[i]),
    decreases vs.len(),
{
    if vs.len() > 0 {
        lemma_values_model_index(vs.subrange(0, vs.len() - 1));
        assert forall|i: int| 0 <= i < vs.len() implies #[trigger] values_model(vs)[i] == value_model(
            vs[i],
        ) by {
            if i < vs.len() - 1 {
                assert(vs.subrange(0, vs.len() - 1)[i] == vs[i]);
            }
        }
    }
}

pub proof fn lemma_header_violation_of(h: HeaderSection)
    ensures
        header_violation(h) == header_records_violation(records_model(h.entities@)),
{
    let recs = h.entities@;
    let rm = records_model(recs);
    assert forall|n: int| 0 <= n < 3 implies keyword_count(recs, #[trigger] required_header_names()[n])
        == keyword_count_of(rm, required_header_names()[n]) by {
        lemma_keyword_count_of(recs, required_header_names()[n]);
    }
}

/// A string value equal to `target` (ASCII case-insensitively).
pub open spec fn string_ci_of(v: ValueModel, target: Seq<char>) -> bool {
    v matches ValueModel::String(t) && eq_ci(t, target)
}

/// The schema test on the parameters of `FILE_SCHEMA`, on values and on their contents.
proof fn lemma_params_schema(p: Seq<Value>)
    ensures
        (p.len() > 0 && p[0] is List && exists|i: int|
            0 <= i < p[0]->List_0@.len() && is_string_ci(
                #[trigger] p[0]->List_0@[i],
                "ASSOCIATIVE_DRAUGHTING"@,
            )) == lists_draughting_schema(values_model(p)),
{
    lemma_values_model_index(p);
    let m = values_model(p);
    if p.len() > 0 {
        let v0 = p[0];
        assert(m[0] == value_model(v0));
        match v0 {
            Value::List(items) => {
                let q = values_model(items@);
                assert(value_model(v0) == ValueModel::List(q));
                lemma_values_model_index(items@);
                let a = "ASSOCIATIVE_DRAUGHTING"@;
                if exists|i: int| 0 <= i < items@.len() && is_string_ci(#[trigger] items@[i], a) {
                    let i = choose|i: int| 0 <= i < items@.len() && is_string_ci(#[trigger] items@[i], a);
                    assert(q[i] == value_model(items@[i]));
                    assert(string_ci_of(m[0]->List_0[i], a));
                }
                if lists_draughting_schema(m) {
                    let i = choose|i: int| 0 <= i < m[0]->List_0.len() && string_ci_of(#[trigger] m[0]->List_0[i], a);
                    assert(q[i] == value_model(items@[i]));
                    assert(is_string_ci(p[0]->List_0@[i], a));
                }
            },
            _ => {
                assert(!(value_model(v0) is List));
            },
        }
    }
}

pub proof fn lemma_schema_violation_of(h: HeaderSection)
    ensures
        schema_violation(h) == schema_records_violation(records_model(h.entities@)),
{
    let recs = h.entities@;
    let rm = records_model(recs);
    lemma_first_keyword_of(recs, "FILE_SCHEMA"@);
    if first_keyword(recs, "FILE_SCHEMA"@) is Some {
        let k = first_keyword(recs, "FILE_SCHEMA"@).unwrap();
        let p = recs[k].parameters@;
        assert(rm[k] == record_model(recs[k]));
        lemma_params_schema(p);
        assert(schema_records_violation(rm) == !lists_draughting_schema(rm[k].parameters));
    }
}

pub proof fn lemma_value_refs_of(v: Value)
    ensures
        value_refs(v) == refs_of_value(value_model(v)),
    decreases v,
{
    match v {
        Value::List(vs) => lemma_values_refs_of(vs@),
        Value::Typed { parameters, .. } => lemma_values_refs_of(parameters@),
        _ => {},
    }
}

pub proof fn lemma_values_refs_of(vs: Seq<Value>)
    ensures
        values_refs(vs) == refs_of_values(values_model(vs)),
    decreases vs,
{
    if vs.len() > 0 {
        let n = vs.len() - 1;
        let sub = vs.subrange(0, n);
        lemma_values_refs_of(sub);
        lemma_value_refs_of(vs[n]);
        lemma_values_model_index(sub);
        let m = values_model(vs);
        assert(m == values_model(sub).push(value_model(vs[n])));
        assert(m.subrange(0, n) =~= values_model(sub));
    }
}

pub proof fn lemma_records_refs_of(recs: Seq<Record>)
    ensures
        records_refs(recs) == refs_of_records(records_model(recs)),
    decreases recs.len(),
{
    if recs.len() > 0 {
        lemma_records_model_drop_last(recs);
        lemma_records_refs_of(recs.drop_last());
        lemma_values_refs_of(recs.last().parameters@);
    }
}

pub proof fn lemma_entity_refs_of(e: EntityInstance)
    ensures
        entity_refs(e) == refs_of_entity(entity_model(e)),
{
    match e.body {
        crate::model::EntityBody::Simple(r) => lemma_values_refs_of(r.parameters@),
        crate::model::EntityBody::Complex(rs) => lemma_records_refs_of(rs@),
    }
}

/// Duplicate ids and unresolved references, on entities and on their contents.
pub proof fn lemma_entity_checks_of(ents: Seq<EntityInstance>)
    ensures
        duplicate_ids(ents) == repeated_id(entities_model(ents)),
        dangling_reference(ents) == unresolved_reference(entities_model(ents)),
{
    let em = entities_model(ents);
    assert(em.len() == ents.len());
    assert(forall|k: int| 0 <= k < ents.len() ==> #[trigger] em[k] == entity_model(ents[k]));
    if duplicate_ids(ents) {
        let (j, k) = choose|j: int, k: int|
            0 <= j < k < ents.len() && (#[trigger] ents[j]).id == (#[trigger] ents[k]).id;
        assert(em[j].id == ents[j].id && em[k].id == ents[k].id);
    }
    if repeated_id(em) {
        let (j, k) = choose|j: int, k: int| 0 <= j < k < em.len() && (#[trigger] em[j]).id == (#[trigger] em[k]).id;
        assert(em[j].id == ents[j].id && em[k].id == ents[k].id);
    }
    assert forall|k: int| 0 <= k < ents.len() implies entity_refs(#[trigger] ents[k]) == refs_of_entity(em[k]) by {
        lemma_entity_refs_of(ents[k]);
    }
    assert forall|c: i64| defined_id(ents, c) == (exists|m: int| 0 <= m < em.len() && (#[trigger] em[m]).id == c) by {
        if defined_id(ents, c) {
            let m = choose|m: int| 0 <= m < ents.len() && (#[trigger] ents[m]).id == c;
            assert(em[m].id == c);
        }
        if exists|m: int| 0 <= m < em.len() && (#[trigger] em[m]).id == c {
            let m = choose|m: int| 0 <= m < em.len() && (#[trigger] em[m]).id == c;
            assert(ents[m].id == c);
        }
    }
    if dangling_reference(ents) {
        let k = choose|k: int| 0 <= k < ents.len() && entity_dangles(ents, #[trigger] ents[k]);
        let j = choose|j: int| 0 <= j < entity_refs(ents[k]).len() && !defined_id(ents, #[trigger] entity_refs(ents[k])[j]);
        assert(refs_of_entity(em[k])[j] == entity_refs(ents[k])[j]);
        assert(!(exists|m: int| 0 <= m < em.len() && (#[trigger] em[m]).id == refs_of_entity(em[k])[j]));
    }
    if unresolved_reference(em) {
        let (k, j) = choose|k: int, j: int|
            0 <= k < em.len() && 0 <= j < refs_of_entity(em[k]).len() && !(exists|m: int|
                0 <= m < em.len() && (#[trigger] em[m]).id == #[trigger] refs_of_entity(em[k])[j]);
        assert(entity_refs(ents[k])[j] == refs_of_entity(em[k])[j]);
        assert(!defined_id(ents, entity_refs(ents[k])[j]));
        assert(entity_dangles(ents, ents[k]));
    }
}

/// The check that header record `name` occurs exactly once: its pass, its
/// warning code and its message.
pub open spec fn header_check_of(h: Seq<RecordModel>, name: Seq<char>) -> (bool, Seq<char>, Seq<char>) {
    let n = keyword_count_of(h, name);
    if n == 1 {
        (true, Seq::empty(), Seq::empty())
    } else if n == 0 {
        (false, "missing-header-entity"@, "Required header entity "@ + name + " is missing"@)
    } else {
        (false, "duplicate-header-entity"@, "Header entity "@ + name + " appears "@ + nat_text(n as nat)
            + " times"@)
    }
}

/// The checks on the required header records, in order.
pub open spec fn header_checks_of(h: Seq<RecordModel>) -> Seq<(bool, Seq<char>, Seq<char>)> {
    Seq::new(3, |n: int| header_check_of(h, required_header_names()[n]))
}

/// The warning a `FILE_SCHEMA` without `ASSOCIATIVE_DRAUGHTING` raises.
pub open spec fn schema_issues_of(h: Seq<RecordModel>) -> Seq<(Seq<char>, Seq<char>)> {
    if schema_records_violation(h) {
        seq![("unexpected-schema"@, "FILE_SCHEMA should include ASSOCIATIVE_DRAUGHTING"@)]
    } else {
        Seq::empty()
    }
}

/// The check that entity `k` does not reuse an earlier entity's id.
pub open spec fn id_check_of(es: Seq<EntityModel>, k: int) -> (bool, Seq<char>, Seq<char>) {
    (
        !exists|j: int| 0 <= j < k && (#[trigger] es[j]).id == es[k].id,
        "duplicate-entity-id"@,
        "Entity id #"@ + int_text(es[k].id as int) + " is duplicated"@,
    )
}

pub open spec fn id_checks_of(es: Seq<EntityModel>) -> Seq<(bool, Seq<char>, Seq<char>)> {
    Seq::new(es.len(), |k: int| id_check_of(es, k))
}

/// Some entity has id `c`.
pub open spec fn has_id(es: Seq<EntityModel>, c: i64) -> bool {
    exists|m: int| 0 <= m < es.len() && (#[trigger] es[m]).id == c
}

/// The check that reference `c` of entity `e` names an entity.
pub open spec fn reference_check_of(es: Seq<EntityModel>, e: EntityModel, c: i64) -> (bool, Seq<char>, Seq<char>) {
    (
        has_id(es, c),
        "undefined-reference"@,
        "Entity #"@ + int_text(e.id as int) + " references undefined entity #"@ + int_text(c as int),
    )
}

pub open spec fn entity_reference_checks_of(es: Seq<EntityModel>, e: EntityModel) -> Seq<
    (bool, Seq<char>, Seq<char>),
> {
    Seq::new(refs_of_entity(e).len(), |j: int| reference_check_of(es, e, refs_of_entity(e)[j]))
}

pub open spec fn reference_checks_upto_of(es: Seq<EntityModel>, k: nat) -> Seq<(bool, Seq<char>, Seq<char>)>
    decreases k,
{
    if k == 0 {
        Seq::empty()
    } else {
        reference_checks_upto_of(es, (k - 1) as nat) + entity_reference_checks_of(es, es[k - 1])
    }
}

/// The warnings the document checks raise on a Part 21 file with these
/// header records and entities, in order: required header records,
/// `FILE_SCHEMA`, duplicate ids, then unresolved references entity by
/// entity.
pub open spec fn p21_issues(h: Seq<RecordModel>, es: Seq<EntityModel>) -> Seq<(Seq<char>, Seq<char>)> {
    raised_issues(header_checks_of(h)) + schema_issues_of(h) + raised_issues(id_checks_of(es)) + raised_issues(
        reference_checks_upto_of(es, es.len()),
    )
}

/// On a Part 21 document the document checks raise what its header records
/// and entities give.
pub proof fn lemma_p21_issues_of(doc: ParsedDocument)
    requires
        doc.format == FileFormat::P21,
    ensures
        document_issues(doc) == p21_issues(records_model(doc.header.entities@), entities_model(doc.entities@)),
{
    let recs = doc.header.entities@;
    let rm = records_model(recs);
    let ents = doc.entities@;
    let em = entities_model(ents);
    assert(header_checks(doc.header) =~= header_checks_of(rm)) by {
        assert forall|n: int| 0 <= n < 3 implies #[trigger] header_checks(doc.header)[n] == header_checks_of(rm)[n] by {
            lemma_keyword_count_of(recs, required_header_names()[n]);
        }
    }
    lemma_schema_violation_of(doc.header);
    assert(schema_issues(doc.header) == schema_issues_of(rm));
    assert(em.len() == ents.len());
    assert(forall|k: int| 0 <= k < ents.len() ==> #[trigger] em[k] == entity_model(ents[k]));
    assert(id_checks(ents) =~= id_checks_of(em)) by {
        assert forall|k: int| 0 <= k < ents.len() implies #[trigger] id_checks(ents)[k] == id_checks_of(em)[k] by {
            assert(em[k].id == ents[k].id);
            if exists|j: int| 0 <= j < k && (#[trigger] ents[j]).id == ents[k].id {
                let j = choose|j: int| 0 <= j < k && (#[trigger] ents[j]).id == ents[k].id;
                assert(em[j].id == ents[j].id);
            }
            if exists|j: int| 0 <= j < k && (#[trigger] em[j]).id == em[k].id {
                let j = choose|j: int| 0 <= j < k && (#[trigger] em[j]).id == em[k].id;
                assert(em[j].id == ents[j].id);
            }
        }
    }
    assert forall|c: i64| defined_id(ents, c) == has_id(em, c) by {
        if defined_id(ents, c) {
            let m = choose|m: int| 0 <= m < ents.len() && (#[trigger] ents[m]).id == c;
            assert(em[m].id == c);
        }
        if has_id(em, c) {
            let m = choose|m: int| 0 <= m < em.len() && (#[trigger] em[m]).id == c;
            assert(ents[m].id == c);
        }
    }
    lemma_reference_checks_of(ents, ents.len());
    assert(document_issues(doc) =~= p21_issues(rm, em));
}

proof fn lemma_reference_checks_of(ents: Seq<EntityInstance>, k: nat)
    requires
        k <= ents.len(),
        forall|c: i64| defined_id(ents, c) == has_id(entities_model(ents), c),
    ensures
        reference_checks_upto(ents, k) == reference_checks_upto_of(entities_model(ents), k),
    decreases k,
{
    let em = entities_model(ents);
    if k > 0 {
        lemma_reference_checks_of(ents, (k - 1) as nat);
        let e = ents[k - 1];
        assert(em[k - 1] == entity_model(e));
        lemma_entity_refs_of(e);
        assert(entity_reference_checks(ents, e) =~= entity_reference_checks_of(em, em[k - 1]));
    }
}

} // verus!
