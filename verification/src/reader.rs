//! Reading a whole Part 21 or SFC file: syntax, typed features, the SFC
//! model, and the document checks.

use vstd::prelude::*;
use crate::checks::{
    lemma_entity_checks_of, lemma_header_violation_of, lemma_p21_issues_of, lemma_schema_violation_of,
    p21_issues, p21_rules_broken,
};
use crate::containers::{
    components_unique, distinct_ids, in_container, joins_container, sheet_before,
};
use crate::grammar::{entities_model, entity_model, file_at, file_header_at, records_model, BodyModel, EntityModel, RecordModel};
use crate::codes::required_version_spec;
use crate::text::lower_seq;
use crate::document::{
    extraction_issue_is, extraction_issues_are, is_fatal, issue_text, none_fatal, typed_from, typed_selection,
    version_mismatch, yields, ExtractionIssue,
};
use crate::encoding::decode_bytes;
use crate::checklist::raised_issues;
use crate::header::{
    dangling_reference, duplicate_ids, header_checks, header_violation, id_checks, reference_checks,
    schema_issues, schema_violation, sfc_header_issues, sfc_header_violation,
};
use crate::lexer::{
    col_at, line_at, lemma_raises_done, lemma_raises_step, lemma_recorded_chain, matches_ci_at, raises, recorded, skip_ws_from, warning_is, Parser,
};
use crate::model::{
    EntityInstance, FileFormat, ParseError, ParseOutput, ParseWarning, ParsedDocument, SfcModel,
    TypedFeatureInstance,
};
use crate::resolution::{
    attachment_feature, count_before_sheet, count_features, hatch_feature, lemma_count_all_before_sheet,
    placement_count, placement_feature,
};
use crate::rules::{entity_positions, position_of, rules_issues, rules_violation, sheet_position};
use crate::sfc_model::{
    attachments_issues, curve_codes_consecutive, definitions_from, hierarchy_issues, references_resolve, reported,
    structure_built, structure_fault,
};
use crate::tables::{table_seqs, tables_sound, tables_upto};
use crate::text::{int_text, string_from_str};

verus! {

/// The largest input the reader takes: its characters are held in a
/// `Vec<char>`, which must stay within `isize::MAX` bytes.
pub open spec fn max_input_chars() -> int {
    0x2000_0000_0000_0000
}

/// The document breaks a rule that `validate_document` reports.
pub open spec fn document_violation(doc: ParsedDocument) -> bool {
    ||| header_violation(doc.header)
    ||| schema_violation(doc.header)
    ||| (doc.format == FileFormat::Sfc && sfc_header_violation(doc))
    ||| duplicate_ids(doc.entities@)
    ||| dangling_reference(doc.entities@)
    ||| (doc.format == FileFormat::Sfc && rules_violation(doc.typed_features@, doc.entities@))
}

/// The warnings the document checks raise, in order: required header
/// records, `FILE_SCHEMA`, the SFC header, duplicate ids, references, and
/// the SFC ordering and code rules.
pub open spec fn document_issues(doc: ParsedDocument) -> Seq<(Seq<char>, Seq<char>)> {
    let sfc = doc.format == FileFormat::Sfc;
    raised_issues(header_checks(doc.header)) + (schema_issues(doc.header) + ((if sfc {
        sfc_header_issues(doc)
    } else {
        Seq::empty()
    }) + (raised_issues(id_checks(doc.entities@)) + (raised_issues(reference_checks(doc.entities@)) + (
    if sfc {
        rules_issues(doc.typed_features@, doc.entities@)
    } else {
        Seq::empty()
    })))))
}

/// `ws` are the warnings `issues` (code and message), in order.
pub open spec fn warnings_are(ws: Seq<ParseWarning>, issues: Seq<(Seq<char>, Seq<char>)>) -> bool {
    &&& ws.len() == issues.len()
    &&& forall|i: int| 0 <= i < ws.len() ==> warning_is(#[trigger] ws[i], issues[i].0, issues[i].1)
}

/// The warning that text after `END-ISO-10303-21;` (which ends at `end`)
/// raises, if there is any.
pub open spec fn trailing_issues(chars: Seq<char>, end: int) -> Seq<(Seq<char>, Seq<char>)> {
    if skip_ws_from(chars, end) != chars.len() {
        seq![("trailing-data"@, "Unexpected trailing data after END-ISO-10303-21;"@)]
    } else {
        Seq::empty()
    }
}

/// An entity model written in a block whose version its keyword does not
/// allow.
pub open spec fn model_version_mismatch(e: EntityModel) -> bool {
    e.body matches BodyModel::Simple(rec) && required_version_spec(lower_seq(rec.keyword))
        matches Some(v) && e.sfc_version != Some(v)
}

/// An entity is in the wrong block version exactly when its model is.
pub proof fn lemma_model_version_mismatch(ents: Seq<EntityInstance>)
    ensures
        forall|k: int|
            0 <= k < ents.len() ==> (version_mismatch(#[trigger] ents[k]) <==> model_version_mismatch(
                entities_model(ents)[k],
            )),
{
    assert forall|k: int| 0 <= k < ents.len() implies (version_mismatch(#[trigger] ents[k])
        <==> model_version_mismatch(entities_model(ents)[k])) by {
        assert(entities_model(ents)[k] == entity_model(ents[k]));
    }
}

/// The error a strict reader gives on an entity written in a block of the
/// wrong version.
pub open spec fn version_mismatch_message(e: EntityModel) -> Seq<char> {
    match e.body {
        BodyModel::Simple(rec) => {
            let m = required_version_spec(lower_seq(rec.keyword))->0.spec_marker();
            "Entity #"@ + int_text(e.id as int) + " ("@ + rec.keyword + ") must use /*"@ + m + " ... "@ + m
                + "*/"@
        },
        BodyModel::Complex(_) => Seq::empty(),
    }
}

/// `k` is the first of the entities `es` written in a block of the wrong
/// version.
pub open spec fn first_version_mismatch(es: Seq<EntityModel>, k: int) -> bool {
    &&& 0 <= k < es.len()
    &&& model_version_mismatch(es[k])
    &&& forall|j: int| 0 <= j < k ==> !model_version_mismatch(#[trigger] es[j])
}

/// In an SFC file only a block of the wrong version stops the reading of
/// typed features.
proof fn lemma_fatal_is_mismatch(e: EntityInstance, x: Option<ExtractionIssue>)
    requires
        extraction_issue_is(FileFormat::Sfc, e, x),
    ensures
        is_fatal(x) <==> version_mismatch(e),
{
}

/// `doc` is an SFC document whose header records are `h`, whose entities are
/// `es`, and whose typed features are read from those entities.
pub open spec fn sfc_reading(h: Seq<RecordModel>, es: Seq<EntityModel>, doc: ParsedDocument) -> bool {
    &&& doc.format == FileFormat::Sfc
    &&& records_model(doc.header.entities@) == h
    &&& entities_model(doc.entities@) == es
    &&& typed_from(doc.entities@, doc.typed_features@)
}

/// Every check a strict reader makes on the typed features `typed` and on
/// the model built from them passes, whatever model of that structure is
/// taken.
pub open spec fn sfc_model_accepted(typed: Seq<TypedFeatureInstance>) -> bool {
    let n = typed.len() as int;
    &&& tables_upto(typed, n).2.len() == 0
    &&& structure_fault(typed, n) is None
    &&& forall|m: SfcModel| #[trigger] structure_built(typed, m) ==> attachments_issues(typed, m).len() == 0
        && hierarchy_issues(typed, m).len() == 0
}

/// Every check a strict reader makes on the typed features `typed` passes,
/// with `m` the model built from them.
pub open spec fn sfc_model_checks_pass(typed: Seq<TypedFeatureInstance>, m: SfcModel) -> bool {
    let n = typed.len() as int;
    &&& tables_upto(typed, n).2.len() == 0
    &&& structure_fault(typed, n) is None
    &&& structure_built(typed, m)
    &&& attachments_issues(typed, m).len() == 0
    &&& hierarchy_issues(typed, m).len() == 0
}

/// The first error a strict reader's model checks give on the typed
/// features `typed`, with `m` the model built from them once the code tables
/// and the structure are sound.
pub open spec fn sfc_model_error(typed: Seq<TypedFeatureInstance>, m: SfcModel) -> Option<Seq<char>> {
    let n = typed.len() as int;
    let tables = tables_upto(typed, n).2;
    let checks = attachments_issues(typed, m) + hierarchy_issues(typed, m);
    if tables.len() > 0 {
        Some(tables[0].1)
    } else if structure_fault(typed, n) is Some {
        structure_fault(typed, n)
    } else if checks.len() > 0 {
        Some(checks[0].1)
    } else {
        None
    }
}

/// `m` is a model a strict reader builds from `typed` wherever the code
/// tables and the structure are sound.
pub open spec fn sfc_model_of(typed: Seq<TypedFeatureInstance>, m: SfcModel) -> bool {
    let n = typed.len() as int;
    tables_upto(typed, n).2.len() == 0 && structure_fault(typed, n) is None ==> structure_built(typed, m)
}

/// The first error a strict reader gives on `doc` once its typed features
/// are read: that of the model checks, else the first document check's.
pub open spec fn sfc_first_error(doc: ParsedDocument, m: SfcModel) -> Option<Seq<char>> {
    match sfc_model_error(doc.typed_features@, m) {
        Some(message) => Some(message),
        None => if document_issues(doc).len() > 0 {
            Some(document_issues(doc)[0].1)
        } else {
            None
        },
    }
}

/// A strict reader of header records `h` and entities `es` fails with
/// `message`: the first error of the checks on some reading of them.
pub open spec fn sfc_rejects_with(h: Seq<RecordModel>, es: Seq<EntityModel>, message: Seq<char>) -> bool {
    exists|doc: ParsedDocument, m: SfcModel|
        #![trigger sfc_first_error(doc, m)]
        sfc_reading(h, es, doc) && sfc_model_of(doc.typed_features@, m) && sfc_first_error(doc, m) == Some(
            message,
        )
}

/// The model checks and the document checks of a strict reader pass on `doc`.
pub open spec fn sfc_accepted(doc: ParsedDocument) -> bool {
    sfc_model_accepted(doc.typed_features@) && document_issues(doc).len() == 0
}

/// The model checks pass on `doc` with the model `m`, and so do the
/// document checks.
pub open spec fn sfc_checks_pass(doc: ParsedDocument, m: SfcModel) -> bool {
    sfc_model_checks_pass(doc.typed_features@, m) && document_issues(doc).len() == 0
}

pub proof fn lemma_reported_chain(a: Parser, b: Parser, c: Parser, r1: Result<(), ParseError>, r2: Result<(), ParseError>, p: bool, q: bool)
    requires
        reported(a, b, r1, p),
        r1 is Ok,
        reported(b, c, r2, q),
    ensures
        reported(a, c, r2, p || q),
{
}

pub proof fn lemma_reported_err(a: Parser, b: Parser, r: Result<(), ParseError>, p: bool, q: bool)
    requires
        reported(a, b, r, p),
        r is Err,
    ensures
        reported(a, b, r, p || q),
{
}

/// A selection of typed features is no longer than the entities.
pub proof fn lemma_typed_len(ents: Seq<EntityInstance>, typed: Seq<TypedFeatureInstance>)
    requires
        typed_from(ents, typed),
    ensures
        typed.len() <= ents.len(),
{
    let sel = choose|sel: Seq<int>| #[trigger] typed_selection(ents, typed, sel);
    if sel.len() > 0 {
        lemma_increasing_bound(sel, ents.len() as int);
    }
}

/// Typed features taken from entities with distinct ids have distinct ids.
pub proof fn lemma_distinct_typed(ents: Seq<EntityInstance>, typed: Seq<TypedFeatureInstance>)
    requires
        typed_from(ents, typed),
        !duplicate_ids(ents),
    ensures
        distinct_ids(typed),
{
    let sel = choose|sel: Seq<int>| #[trigger] typed_selection(ents, typed, sel);
    assert forall|k1: int, k2: int| 0 <= k1 < k2 < typed.len() implies (#[trigger] typed[k1]).id
        != (#[trigger] typed[k2]).id by {
        assert(yields(ents[sel[k1]], typed[k1]));
        assert(yields(ents[sel[k2]], typed[k2]));
        assert(sel[k1] < sel[k2]);
        assert(ents[sel[k1]].id != ents[sel[k2]].id);
    }
}

/// The checks on a Part 21 document depend only on what its header records
/// and entities hold.
pub proof fn lemma_p21_violation(doc: ParsedDocument)
    requires
        doc.format == FileFormat::P21,
    ensures
        document_violation(doc) == p21_rules_broken(
            records_model(doc.header.entities@),
            entities_model(doc.entities@),
        ),
{
    lemma_header_violation_of(doc.header);
    lemma_schema_violation_of(doc.header);
    lemma_entity_checks_of(doc.entities@);
}

/// A document that breaks a Part 21 rule breaks a rule the checks report,
/// whatever its format.
pub proof fn lemma_p21_rules_in_document(doc: ParsedDocument)
    ensures
        p21_rules_broken(records_model(doc.header.entities@), entities_model(doc.entities@))
            ==> document_violation(doc),
{
    lemma_header_violation_of(doc.header);
    lemma_schema_violation_of(doc.header);
    lemma_entity_checks_of(doc.entities@);
}

/// Every placement, hatch boundary and attribute attachment that the typed
/// features call for is resolved in the model.
pub open spec fn all_resolved(typed: Seq<TypedFeatureInstance>, m: SfcModel) -> bool {
    let n = typed.len() as int;
    &&& placement_count(m) == count_features(typed, n, placement_feature())
    &&& m.hatch_references@.len() == count_features(typed, n, hatch_feature())
    &&& m.attribute_attachments@.len() == count_features(typed, n, attachment_feature())
}

/// A drawing sheet is among the first `k` typed features exactly when the
/// ordering check finds a sheet position there, and that position is the
/// smallest of theirs.
pub proof fn lemma_sheet_position(typed: Seq<TypedFeatureInstance>, ents: Seq<EntityInstance>, k: int)
    requires
        0 <= k <= typed.len(),
    ensures
        sheet_position(typed, ents, k) is Some <==> sheet_before(typed, k),
        sheet_position(typed, ents, k) matches Some(c) ==> forall|q: int|
            0 <= q < k && (#[trigger] typed[q]).feature is DrawingSheet ==> c <= position_of(
                ents,
                typed[q].id,
            ),
    decreases k,
{
    if k > 0 {
        lemma_sheet_position(typed, ents, k - 1);
        if typed[k - 1].feature is DrawingSheet {
            assert(sheet_before(typed, k)) by {
                assert(typed[k - 1].feature is DrawingSheet);
            }
        } else {
            if sheet_before(typed, k) {
                let p = choose|p: int| 0 <= p < k && (#[trigger] typed[p]).feature is DrawingSheet;
                assert(sheet_before(typed, k - 1)) by {
                    assert(typed[p].feature is DrawingSheet);
                }
            }
            if sheet_before(typed, k - 1) {
                let p = choose|p: int| 0 <= p < k - 1 && (#[trigger] typed[p]).feature is DrawingSheet;
                assert(typed[p].feature is DrawingSheet);
            }
        }
    }
}

/// With distinct ids, the position the checks give an entity id is where it stands.
pub proof fn lemma_entity_position(ents: Seq<EntityInstance>, k: int)
    requires
        !duplicate_ids(ents),
        0 <= k <= ents.len(),
        ents.len() <= usize::MAX,
    ensures
        forall|j: int|
            0 <= j < k ==> entity_positions(ents, k).contains_key((#[trigger] ents[j]).id)
                && entity_positions(ents, k)[ents[j].id] == j,
    decreases k,
{
    if k > 0 {
        lemma_entity_position(ents, k - 1);
        assert forall|j: int| 0 <= j < k implies entity_positions(ents, k).contains_key(
            (#[trigger] ents[j]).id,
        ) && entity_positions(ents, k)[ents[j].id] == j by {
            if j < k - 1 {
                assert(ents[j].id != ents[k - 1].id);
            }
        }
    }
}

/// In a document that passes the ordering check, no feature that must come
/// before the drawing sheet comes after one, and a sheet exists.
pub proof fn lemma_ordered_before_sheet(typed: Seq<TypedFeatureInstance>, ents: Seq<EntityInstance>)
    requires
        typed_from(ents, typed),
        !duplicate_ids(ents),
        !rules_violation(typed, ents),
        ents.len() <= usize::MAX,
    ensures
        sheet_before(typed, typed.len() as int),
        forall|k: int|
            0 <= k < typed.len() && (#[trigger] typed[k]).feature.spec_requires_pre_sheet_order()
                ==> !sheet_before(typed, k),
{
    let n = typed.len() as int;
    lemma_sheet_position(typed, ents, n);
    lemma_entity_position(ents, ents.len() as int);
    let sel = choose|sel: Seq<int>| #[trigger] typed_selection(ents, typed, sel);
    assert forall|k: int|
        0 <= k < typed.len() && (#[trigger] typed[k]).feature.spec_requires_pre_sheet_order()
            implies !sheet_before(typed, k) by {
        if sheet_before(typed, k) {
            let q = choose|q: int| 0 <= q < k && (#[trigger] typed[q]).feature is DrawingSheet;
            let c = sheet_position(typed, ents, n).unwrap();
            assert(yields(ents[sel[q]], typed[q]));
            assert(yields(ents[sel[k]], typed[k]));
            assert(sel[q] < sel[k]);
            assert(position_of(ents, typed[q].id) == sel[q]);
            assert(position_of(ents, typed[k].id) == sel[k]);
            assert(c <= position_of(ents, typed[q].id));
            let positions = entity_positions(ents, ents.len() as int);
            assert(positions.contains_key(typed[k].id) && positions[typed[k].id] > c);
            assert(rules_violation(typed, ents));
        }
    }
}

proof fn lemma_increasing_bound(sel: Seq<int>, n: int)
    requires
        sel.len() > 0,
        forall|i: int| 0 <= i < sel.len() ==> 0 <= #[trigger] sel[i] < n,
        forall|i: int, j: int| 0 <= i < j < sel.len() ==> sel[i] < sel[j],
    ensures
        sel.len() <= n,
    decreases sel.len(),
{
    assert(0 <= sel[sel.len() - 1] < n);
    if sel.len() > 1 {
        let s2 = sel.drop_last();
        assert forall|i: int| 0 <= i < s2.len() implies 0 <= #[trigger] s2[i] < sel[sel.len() - 1] by {
            assert(s2[i] == sel[i]);
        }
        lemma_increasing_bound(s2, sel[sel.len() - 1]);
    }
}

impl Parser {
    /// Runs every document check in order: required header records,
    /// `FILE_SCHEMA`, the SFC header, duplicate ids, references, and the
    /// SFC ordering and code rules.
    pub fn validate_document(&mut self, document: &ParsedDocument) -> (r: Result<(), ParseError>)
        requires
            document.typed_features@.len() < 0x4000_0000_0000_0000,
        ensures
            reported(*old(self), *final(self), r, document_violation(*document)),
            raises(*old(self), *final(self), r, document_issues(*document)),
    {
        let ghost s0 = *self;
        let ghost sfc = document.format == FileFormat::Sfc;
        let ghost i1 = raised_issues(header_checks(document.header));
        let ghost i2 = schema_issues(document.header);
        let ghost i3 = if sfc {
            sfc_header_issues(*document)
        } else {
            Seq::<(Seq<char>, Seq<char>)>::empty()
        };
        let ghost i4 = raised_issues(id_checks(document.entities@));
        let ghost i5 = raised_issues(reference_checks(document.entities@));
        let ghost i6 = if sfc {
            rules_issues(document.typed_features@, document.entities@)
        } else {
            Seq::<(Seq<char>, Seq<char>)>::empty()
        };
        let ghost total = document_issues(*document);
        let ghost empty = Seq::<(Seq<char>, Seq<char>)>::empty();
        assert(total == empty + (i1 + (i2 + (i3 + (i4 + (i5 + i6))))));
        let r1 = self.validate_required_header(document);
        proof {
            lemma_raises_step(s0, s0, *self, r1, empty, i1, i2 + (i3 + (i4 + (i5 + i6))), total);
            if r1 is Err {
                lemma_reported_err(s0, *self, r1, header_violation(document.header), document_violation(*document));
            }
        }
        r1?;
        let ghost d1 = empty + i1;
        let ghost s1 = *self;
        let r2 = self.validate_file_schema(document);
        proof {
            lemma_raises_step(s0, s1, *self, r2, d1, i2, i3 + (i4 + (i5 + i6)), total);
            lemma_reported_chain(s0, s1, *self, r1, r2, header_violation(document.header), schema_violation(document.header));
            if r2 is Err {
                lemma_reported_err(s0, *self, r2, header_violation(document.header) || schema_violation(document.header), document_violation(*document));
            }
        }
        r2?;
        let ghost d2 = d1 + i2;
        let ghost p2 = header_violation(document.header) || schema_violation(document.header);
        let ghost s2 = *self;
        let mut r3: Result<(), ParseError> = Ok(());
        if document.format == FileFormat::Sfc {
            r3 = self.validate_sfc_header(document);
        }
        let ghost p3 = p2 || (document.format == FileFormat::Sfc && sfc_header_violation(*document));
        proof {
            lemma_raises_step(s0, s2, *self, r3, d2, i3, i4 + (i5 + i6), total);
            lemma_reported_chain(s0, s2, *self, Ok(()), r3, p2, document.format == FileFormat::Sfc && sfc_header_violation(*document));
            if r3 is Err {
                lemma_reported_err(s0, *self, r3, p3, document_violation(*document));
            }
        }
        r3?;
        let ghost d3 = d2 + i3;
        let ghost s3 = *self;
        let r4 = self.validate_duplicate_ids(document);
        let ghost p4 = p3 || duplicate_ids(document.entities@);
        proof {
            lemma_raises_step(s0, s3, *self, r4, d3, i4, i5 + i6, total);
            lemma_reported_chain(s0, s3, *self, Ok(()), r4, p3, duplicate_ids(document.entities@));
            if r4 is Err {
                lemma_reported_err(s0, *self, r4, p4, document_violation(*document));
            }
        }
        r4?;
        let ghost d4 = d3 + i4;
        let ghost s4 = *self;
        let r5 = self.validate_references(document);
        let ghost p5 = p4 || dangling_reference(document.entities@);
        proof {
            lemma_raises_step(s0, s4, *self, r5, d4, i5, i6, total);
            lemma_reported_chain(s0, s4, *self, Ok(()), r5, p4, dangling_reference(document.entities@));
            if r5 is Err {
                lemma_reported_err(s0, *self, r5, p5, document_violation(*document));
            }
        }
        r5?;
        let ghost d5 = d4 + i5;
        let ghost s5 = *self;
        let mut r6: Result<(), ParseError> = Ok(());
        if document.format == FileFormat::Sfc {
            r6 = self.validate_sfc_model_rules(document);
        }
        proof {
            lemma_raises_step(s0, s5, *self, r6, d5, i6, empty, total);
            assert(i6 + empty =~= i6);
            if r6 is Ok {
                assert(total == d5 + i6);
                lemma_raises_done(s0, *self, d5 + i6);
            }
            lemma_reported_chain(
                s0,
                s5,
                *self,
                Ok(()),
                r6,
                p5,
                document.format == FileFormat::Sfc && rules_violation(document.typed_features@, document.entities@),
            );
        }
        r6
    }

    /// The typed features of an SFC document's entities and its model.
    fn read_sfc_layer(&mut self, document: &mut ParsedDocument) -> (r: Result<(), ParseError>)
        requires
            old(self).format == FileFormat::Sfc,
            old(document).format == FileFormat::Sfc,
            old(document).entities@.len() < 0x4000_0000_0000_0000,
        ensures
            old(self).same_source(&*final(self)),
            final(self).index == old(self).index,
            final(self).line == old(self).line,
            final(self).column == old(self).column,
            old(self).keeps_warnings(&*final(self)),
            final(document).format == old(document).format,
            final(document).header == old(document).header,
            final(document).entities == old(document).entities,
            !old(self).strict ==> r is Ok,
            r is Ok ==> {
                let typed = final(document).typed_features@;
                &&& typed_from(final(document).entities@, typed)
                &&& typed.len() <= final(document).entities@.len()
                &&& final(document).sfc_model matches Some(m) && {
                    &&& tables_sound(table_seqs(m.code_tables))
                    &&& curve_codes_consecutive(m.composite_curve_definitions@)
                    &&& references_resolve(m)
                    &&& definitions_from(typed, m)
                    &&& (distinct_ids(typed) ==> components_unique(m))
                    &&& (m.sheet is Some <==> sheet_before(typed, typed.len() as int))
                    &&& old(self).strict ==> m.hatch_references@.len() == count_before_sheet(
                        typed,
                        typed.len() as int,
                        hatch_feature(),
                    ) && placement_count(m) == count_before_sheet(typed, typed.len() as int, placement_feature())
                        && m.attribute_attachments@.len() == count_before_sheet(
                        typed,
                        typed.len() as int,
                        attachment_feature(),
                    )
                    &&& old(self).strict && distinct_ids(typed) && m.sheet is Some ==> forall|k: int|
                        0 <= k < typed.len() ==> (in_container(m, #[trigger] typed[k].id) <==> joins_container(
                            typed[k].feature,
                        ) && !sheet_before(typed, k))
                    &&& old(self).strict ==> sfc_model_checks_pass(typed, m)
                }
                &&& old(self).strict ==> forall|k: int|
                    0 <= k < final(document).entities@.len() ==> !model_version_mismatch(
                        #[trigger] entities_model(final(document).entities@)[k],
                    )
            },
            old(self).strict ==> forall|k: int|
                #[trigger] first_version_mismatch(entities_model(old(document).entities@), k) ==> (r matches Err(e)
                    && old(self).error_here_is(e, version_mismatch_message(entities_model(old(document).entities@)[k]))),
            old(self).strict ==> (r matches Err(e) ==> (exists|k: int|
                0 <= k < old(document).entities@.len() && model_version_mismatch(
                    #[trigger] entities_model(old(document).entities@)[k],
                )) || (sfc_reading(
                records_model(old(document).header.entities@),
                entities_model(old(document).entities@),
                *final(document),
            ) && exists|m: SfcModel|
                #[trigger] sfc_model_of(final(document).typed_features@, m) && sfc_model_error(
                    final(document).typed_features@,
                    m,
                ) == Some(e.message@) && old(self).error_here_is(e, e.message@))),
            old(self).strict ==> (forall|k: int|
                0 <= k < old(document).entities@.len() ==> !model_version_mismatch(
                    #[trigger] entities_model(old(document).entities@)[k],
                )) ==> (forall|doc: ParsedDocument|
                #[trigger] sfc_reading(
                    records_model(old(document).header.entities@),
                    entities_model(old(document).entities@),
                    doc,
                ) ==> sfc_model_accepted(doc.typed_features@)) ==> r is Ok,
    {
        proof {
            lemma_model_version_mismatch(document.entities@);
        }
        let ghost before = *self;
        let extracted = self.extract_typed_features(document.entities.as_slice());
        proof {
            if self.strict && extracted is Err {
                let e = extracted->Err_0;
                let ents = document.entities@;
                let xs = choose|xs: Seq<Option<ExtractionIssue>>|
                    #[trigger] extraction_issues_are(FileFormat::Sfc, ents, xs) && xs.len() > 0
                        && none_fatal(xs.drop_last()) && is_fatal(xs.last()) && before.error_here_is(
                        e,
                        issue_text(xs.last()),
                    );
                let j = xs.len() - 1;
                assert(extraction_issue_is(FileFormat::Sfc, ents[j], xs[j]));
                lemma_fatal_is_mismatch(ents[j], xs[j]);
                assert forall|k: int| 0 <= k < j implies !version_mismatch(#[trigger] ents[k]) by {
                    assert(extraction_issue_is(FileFormat::Sfc, ents[k], xs[k]));
                    assert(xs.drop_last()[k] == xs[k]);
                    lemma_fatal_is_mismatch(ents[k], xs[k]);
                }
                assert(entities_model(ents)[j] == entity_model(ents[j]));
                assert forall|k: int| #[trigger] first_version_mismatch(entities_model(ents), k) implies k == j by {
                    if k < j {
                        assert(version_mismatch(ents[k]));
                    }
                    if j < k {
                        assert(!model_version_mismatch(entities_model(ents)[j]));
                    }
                }
            }
        }
        let typed = extracted?;
        proof {
            lemma_typed_len(document.entities@, typed@);
        }
        document.typed_features = typed;
        proof {
            assert(sfc_reading(records_model(document.header.entities@), entities_model(document.entities@), *document));
        }
        let built = self.build_sfc_model(&*document);
        proof {
            let typed = document.typed_features@;
            let n = typed.len() as int;
            if self.strict && built is Err {
                if tables_upto(typed, n).2.len() > 0 || structure_fault(typed, n) is Some {
                    let m: SfcModel = vstd::pervasive::arbitrary();
                    assert(sfc_model_of(typed, m));
                } else {
                    let m = choose|m: SfcModel|
                        #[trigger] structure_built(typed, m) && {
                            let checks = attachments_issues(typed, m) + hierarchy_issues(typed, m);
                            &&& (built is Ok <==> checks.len() == 0)
                            &&& (built matches Err(e) ==> old(self).error_here_is(e, checks[0].1))
                        };
                    assert(sfc_model_of(typed, m));
                }
            }
        }
        let model = built?;
        document.sfc_model = Some(model);
        Ok(())
    }

    /// Reads the whole file: `ISO-10303-21;`, the header, the data section,
    /// `END-ISO-10303-21;`; then, for SFC, the typed features and the
    /// model; then the document checks.
    #[verifier::rlimit(80)]
    pub fn parse(self) -> (r: Result<ParseOutput, ParseError>)
        requires
            self.wf(),
            self.index == 0,
            self.warnings@.len() == 0,
            self.chars@.len() < max_input_chars(),
        ensures
            match r {
                Ok(out) => {
                    let doc = out.document;
                    &&& doc.format == self.format
                    &&& matches_ci_at(self.chars@, skip_ws_from(self.chars@, 0), "ISO-10303-21"@)
                    &&& self.format == FileFormat::P21 ==> doc.typed_features@.len() == 0
                        && doc.sfc_model is None && forall|k: int|
                        0 <= k < doc.entities@.len() ==> (#[trigger] doc.entities@[k]).sfc_version is None
                    &&& self.format == FileFormat::Sfc ==> typed_from(doc.entities@, doc.typed_features@)
                        && forall|k: int|
                        0 <= k < doc.entities@.len() ==> (#[trigger] doc.entities@[k]).sfc_version is Some
                    &&& self.format == FileFormat::Sfc ==> (doc.sfc_model matches Some(m) && curve_codes_consecutive(
                        m.composite_curve_definitions@,
                    ) && references_resolve(m) && definitions_from(doc.typed_features@, m) && tables_sound(
                        table_seqs(m.code_tables),
                    ) && (!duplicate_ids(doc.entities@) ==> components_unique(m)))
                    &&& self.strict ==> !document_violation(doc)
                    &&& self.strict && self.format == FileFormat::P21 ==> out.warnings@.len() == 0
                    &&& file_header_at(self.format, self.strict, self.chars@) matches Some((h, _))
                        && records_model(doc.header.entities@) == h
                    &&& (self.format == FileFormat::P21 || self.strict) ==> (file_at(
                        self.format,
                        self.strict,
                        self.chars@,
                    ) matches Some((h, es, end)) && entities_model(doc.entities@) == es && (self.strict
                        ==> skip_ws_from(self.chars@, end) == self.chars@.len() && !p21_rules_broken(
                        h,
                        es,
                    )))
                    &&& self.strict && self.format == FileFormat::Sfc ==> (doc.sfc_model matches Some(m)
                        && forall|k: int|
                        0 <= k < doc.typed_features@.len() ==> (in_container(
                            m,
                            #[trigger] doc.typed_features@[k].id,
                        ) <==> joins_container(doc.typed_features@[k].feature)))
                    &&& self.strict && self.format == FileFormat::Sfc ==> (doc.sfc_model matches Some(m)
                        && all_resolved(doc.typed_features@, m))
                    &&& !self.strict && self.format == FileFormat::P21 ==> (file_at(
                        self.format,
                        self.strict,
                        self.chars@,
                    ) matches Some((h, es, end)) && (out.warnings@.len() > 0 <==> (skip_ws_from(
                        self.chars@,
                        end,
                    ) != self.chars@.len() || p21_rules_broken(h, es))) && (skip_ws_from(self.chars@, end)
                        != self.chars@.len() ==> warning_is(
                        out.warnings@[0],
                        "trailing-data"@,
                        "Unexpected trailing data after END-ISO-10303-21;"@,
                    )) && warnings_are(out.warnings@, trailing_issues(self.chars@, end) + p21_issues(h, es)))
                },
                Err(_) => true,
            },
            self.strict && self.format == FileFormat::P21 ==> (r is Ok <==> (file_at(
                self.format,
                self.strict,
                self.chars@,
            ) matches Some((h, es, end)) && skip_ws_from(self.chars@, end) == self.chars@.len()
                && !p21_rules_broken(h, es))),
            !self.strict ==> (file_at(self.format, self.strict, self.chars@) matches Some((h, es, end))
                ==> r matches Ok(out) && entities_model(out.document.entities@) == es),
            self.strict && self.format == FileFormat::Sfc ==> (r matches Ok(out) ==> (file_at(
                self.format,
                self.strict,
                self.chars@,
            ) matches Some((h, es, end)) && (forall|k: int|
                0 <= k < es.len() ==> !model_version_mismatch(#[trigger] es[k])) && sfc_reading(
                h,
                es,
                out.document,
            ) && (out.document.sfc_model matches Some(m) && sfc_checks_pass(out.document, m)))),
            self.strict && self.format == FileFormat::Sfc ==> (file_at(self.format, self.strict, self.chars@)
                matches Some((h, es, end)) ==> skip_ws_from(self.chars@, end) == self.chars@.len() ==> (
            forall|k: int| 0 <= k < es.len() ==> !model_version_mismatch(#[trigger] es[k])) ==> (forall|
                doc: ParsedDocument,
            | #[trigger] sfc_reading(h, es, doc) ==> sfc_accepted(doc)) ==> r is Ok),
            self.strict && self.format == FileFormat::Sfc ==> (file_at(self.format, self.strict, self.chars@)
                matches Some((h, es, end)) ==> skip_ws_from(self.chars@, end) == self.chars@.len() ==> forall|k: int|
                #[trigger] first_version_mismatch(es, k) ==> (r matches Err(e) && e.message@
                    == version_mismatch_message(es[k]) && e.line == line_at(self.chars@, self.chars@.len() as int)
                    && e.column == col_at(self.chars@, self.chars@.len() as int))),
            self.strict && self.format == FileFormat::Sfc ==> (r matches Err(e) ==> file_at(
                self.format,
                self.strict,
                self.chars@,
            ) matches Some((h, es, end)) ==> skip_ws_from(self.chars@, end) == self.chars@.len() ==> (forall|
                k: int,
            | 0 <= k < es.len() ==> !model_version_mismatch(#[trigger] es[k])) ==> sfc_rejects_with(
                h,
                es,
                e.message@,
            ) && e.line == line_at(self.chars@, self.chars@.len() as int) && e.column == col_at(
                self.chars@,
                self.chars@.len() as int,
            )),
            self.strict && self.format == FileFormat::P21 ==> match file_at(self.format, self.strict, self.chars@) {
                Some((h, es, end)) => skip_ws_from(self.chars@, end) == self.chars@.len() ==> {
                    &&& r is Err <==> p21_issues(h, es).len() > 0
                    &&& r matches Err(e) ==> e.message@ == p21_issues(h, es)[0].1 && e.line == line_at(
                        self.chars@,
                        self.chars@.len() as int,
                    ) && e.column == col_at(self.chars@, self.chars@.len() as int)
                },
                None => true,
            },
    {
        let mut p = self;
        let ghost start = p;
        proof {
            crate::lexer::lemma_skip_ws_idem(p.chars@, 0);
        }
        p.skip_ws();
        p.consume_literal_ci("ISO-10303-21")?;
        p.skip_ws();
        p.consume_char(';')?;
        let header = p.parse_header_section()?;
        let ghost e1 = p.index as int;
        let entities = match p.format {
            FileFormat::P21 => p.parse_data_section_p21()?,
            FileFormat::Sfc => p.parse_data_section_sfc()?,
        };
        let ghost e2 = p.index as int;
        p.skip_ws();
        let ghost m = p.index as int;
        p.consume_literal_ci("END-ISO-10303-21")?;
        p.skip_ws();
        p.consume_char(';')?;
        let ghost end = p.index as int;
        p.skip_ws();
        let ghost before_trailing = p;
        if !p.is_eof() {
            p.issue_or_error(
                "trailing-data",
                string_from_str("Unexpected trailing data after END-ISO-10303-21;"),
            )?;
        }
        let ghost after_trailing = p;
        assert(recorded(before_trailing, p, trailing_issues(p.chars@, end)));
        let mut document = ParsedDocument {
            format: p.format,
            header,
            entities,
            typed_features: Vec::new(),
            sfc_model: None,
        };
        let ghost fa = file_at(p.format, p.strict, p.chars@);
        if p.format == FileFormat::Sfc {
            proof {
                if p.strict {
                    if let Some((h, es, _)) = fa {
                        assert(h == records_model(document.header.entities@));
                        assert(es == entities_model(document.entities@));
                        assert forall|doc: ParsedDocument|
                            #[trigger] sfc_reading(
                                records_model(document.header.entities@),
                                entities_model(document.entities@),
                                doc,
                            ) && (forall|d: ParsedDocument| #[trigger] sfc_reading(h, es, d) ==> sfc_accepted(d))
                            implies sfc_model_accepted(doc.typed_features@) by {
                            assert(sfc_reading(h, es, doc));
                        }
                    }
                }
            }
            let ghost before_layer = p;
            let ghost old_document = document;
            let layer = p.read_sfc_layer(&mut document);
            proof {
                if p.strict && layer is Err {
                    let e = layer->Err_0;
                    if let Some((h, es, end)) = fa {
                        if skip_ws_from(p.chars@, end) == p.chars@.len() && forall|k: int|
                            0 <= k < es.len() ==> !model_version_mismatch(#[trigger] es[k]) {
                            assert(es == entities_model(old_document.entities@));
                            let m = choose|m: SfcModel|
                                #[trigger] sfc_model_of(document.typed_features@, m) && sfc_model_error(
                                    document.typed_features@,
                                    m,
                                ) == Some(e.message@) && before_layer.error_here_is(e, e.message@);
                            assert(sfc_first_error(document, m) == Some(e.message@));
                            assert(sfc_reading(h, es, document));
                        }
                    }
                }
            }
            layer?;
            proof {
                if !duplicate_ids(document.entities@) {
                    lemma_distinct_typed(document.entities@, document.typed_features@);
                }
                if p.strict {
                    if let Some((h, es, _)) = fa {
                        assert(sfc_reading(h, es, document));
                    }
                }
            }
        }
        proof {
            lemma_p21_rules_in_document(document);
            if document.format == FileFormat::P21 {
                lemma_p21_violation(document);
            }
        }
        let ghost before_checks = p;
        let checked = p.validate_document(&document);
        proof {
            if document.format == FileFormat::P21 {
                lemma_p21_issues_of(document);
            }
        }
        proof {
            if p.strict && document.format == FileFormat::Sfc {
                if checked is Err {
                    let e = checked->Err_0;
                    let m = document.sfc_model->0;
                    assert(sfc_model_of(document.typed_features@, m));
                    assert(sfc_first_error(document, m) == Some(e.message@));
                    if let Some((h, es, _)) = fa {
                        assert(sfc_reading(h, es, document));
                    }
                }
            }
        }
        checked?;
        proof {
            if !p.strict && document.format == FileFormat::P21 {
                assert(before_checks == after_trailing);
                lemma_recorded_chain(before_trailing, before_checks, p, trailing_issues(p.chars@, end),
                    document_issues(document));
                assert(before_trailing.warnings@.len() == 0);
                assert forall|i: int| 0 <= i < p.warnings@.len() implies warning_is(
                    #[trigger] p.warnings@[i],
                    (trailing_issues(p.chars@, end) + document_issues(document))[i].0,
                    (trailing_issues(p.chars@, end) + document_issues(document))[i].1,
                ) by {
                    assert(p.warnings@[0 + i] == p.warnings@[i]);
                }
            }
            if p.strict && document.format == FileFormat::Sfc {
                let typed = document.typed_features@;
                let n = typed.len() as int;
                lemma_distinct_typed(document.entities@, typed);
                lemma_ordered_before_sheet(typed, document.entities@);
                lemma_count_all_before_sheet(typed, n, hatch_feature());
                lemma_count_all_before_sheet(typed, n, placement_feature());
                lemma_count_all_before_sheet(typed, n, attachment_feature());
            }
        }
        Ok(ParseOutput { document, warnings: p.warnings })
    }
}

/// Reads a Part 21 file from text.
pub fn parse_p21_text(input: &str, strict: bool) -> (r: Result<ParseOutput, ParseError>)
    requires
        input@.len() < max_input_chars(),
        input@.len() < usize::MAX,
    ensures
        r matches Ok(out) ==> out.document.format == FileFormat::P21 && out.document.sfc_model is None
            && out.document.typed_features@.len() == 0,
        r matches Ok(out) ==> matches_ci_at(input@, skip_ws_from(input@, 0), "ISO-10303-21"@),
        r matches Ok(out) ==> strict ==> !document_violation(out.document) && out.warnings@.len() == 0,
        r matches Ok(out) ==> file_header_at(FileFormat::P21, strict, input@) matches Some((h, _))
            && records_model(out.document.header.entities@) == h,
        r matches Ok(out) ==> file_at(FileFormat::P21, strict, input@) matches Some((h, es, end))
            && entities_model(out.document.entities@) == es && (strict ==> skip_ws_from(input@, end)
            == input@.len()),
        !strict ==> (r is Ok <==> file_at(FileFormat::P21, strict, input@) is Some),
        strict ==> (r is Ok <==> (file_at(FileFormat::P21, strict, input@) matches Some((h, es, end))
            && skip_ws_from(input@, end) == input@.len() && !p21_rules_broken(h, es))),
        !strict ==> (r matches Ok(out) ==> (file_at(FileFormat::P21, strict, input@) matches Some(
            (h, es, end),
        ) && (out.warnings@.len() > 0 <==> (skip_ws_from(input@, end) != input@.len()
            || p21_rules_broken(h, es))) && (skip_ws_from(input@, end) != input@.len() ==> warning_is(
            out.warnings@[0],
            "trailing-data"@,
            "Unexpected trailing data after END-ISO-10303-21;"@,
        )) && warnings_are(out.warnings@, trailing_issues(input@, end) + p21_issues(h, es)))),
        strict ==> match file_at(FileFormat::P21, strict, input@) {
            Some((h, es, end)) => skip_ws_from(input@, end) == input@.len() ==> {
                &&& r is Err <==> p21_issues(h, es).len() > 0
                &&& r matches Err(e) ==> e.message@ == p21_issues(h, es)[0].1 && e.line == line_at(
                    input@,
                    input@.len() as int,
                ) && e.column == col_at(input@, input@.len() as int)
            },
            None => true,
        },
{
    Parser::new(input, FileFormat::P21, strict).parse()
}

/// Reads an SFC file from text.
pub fn parse_sfc_text(input: &str, strict: bool) -> (r: Result<ParseOutput, ParseError>)
    requires
        input@.len() < max_input_chars(),
        input@.len() < usize::MAX,
    ensures
        r matches Ok(out) ==> {
            let doc = out.document;
            &&& doc.format == FileFormat::Sfc
            &&& matches_ci_at(input@, skip_ws_from(input@, 0), "ISO-10303-21"@)
            &&& typed_from(doc.entities@, doc.typed_features@)
            &&& doc.sfc_model matches Some(m) && curve_codes_consecutive(m.composite_curve_definitions@)
                && references_resolve(m) && definitions_from(doc.typed_features@, m) && tables_sound(
                table_seqs(m.code_tables),
            ) && (!duplicate_ids(doc.entities@) ==> components_unique(m))
            &&& strict ==> !document_violation(doc)
            &&& file_header_at(FileFormat::Sfc, strict, input@) matches Some((h, _))
                && records_model(doc.header.entities@) == h
            &&& strict ==> (file_at(FileFormat::Sfc, strict, input@) matches Some((h, es, end))
                && entities_model(doc.entities@) == es && skip_ws_from(input@, end) == input@.len()
                && !p21_rules_broken(h, es))
            &&& strict ==> (doc.sfc_model matches Some(m) && components_unique(m) && all_resolved(
                doc.typed_features@,
                m,
            ) && forall|k: int|
                0 <= k < doc.typed_features@.len() ==> (in_container(
                    m,
                    #[trigger] doc.typed_features@[k].id,
                ) <==> joins_container(doc.typed_features@[k].feature)))
        },
        !strict ==> (file_at(FileFormat::Sfc, strict, input@) matches Some((h, es, end))
            ==> r matches Ok(out) && entities_model(out.document.entities@) == es),
        strict ==> (r matches Ok(out) ==> (file_at(FileFormat::Sfc, strict, input@) matches Some((h, es, end))
            && (forall|k: int| 0 <= k < es.len() ==> !model_version_mismatch(#[trigger] es[k])) && sfc_reading(
            h,
            es,
            out.document,
        ) && (out.document.sfc_model matches Some(m) && sfc_checks_pass(out.document, m)))),
        strict ==> (file_at(FileFormat::Sfc, strict, input@) matches Some((h, es, end)) ==> skip_ws_from(
            input@,
            end,
        ) == input@.len() ==> (forall|k: int| 0 <= k < es.len() ==> !model_version_mismatch(#[trigger] es[k]))
            ==> (forall|doc: ParsedDocument| #[trigger] sfc_reading(h, es, doc) ==> sfc_accepted(doc)) ==> r is Ok),
        strict ==> (file_at(FileFormat::Sfc, strict, input@) matches Some((h, es, end)) ==> skip_ws_from(
            input@,
            end,
        ) == input@.len() ==> forall|k: int|
            #[trigger] first_version_mismatch(es, k) ==> (r matches Err(e) && e.message@ == version_mismatch_message(
                es[k],
            ) && e.line == line_at(input@, input@.len() as int) && e.column == col_at(input@, input@.len() as int))),
        strict ==> (r matches Err(e) ==> file_at(FileFormat::Sfc, strict, input@) matches Some((h, es, end))
            ==> skip_ws_from(input@, end) == input@.len() ==> (forall|k: int|
            0 <= k < es.len() ==> !model_version_mismatch(#[trigger] es[k])) ==> sfc_rejects_with(
            h,
            es,
            e.message@,
        ) && e.line == line_at(input@, input@.len() as int) && e.column == col_at(input@, input@.len() as int)),
{
    Parser::new(input, FileFormat::Sfc, strict).parse()
}

/// Reads a file from its bytes: decoded as UTF-8, or for SFC as
/// Shift-JIS/CP932; a lenient reader adds the decoding warning after the
/// others. Text too long to hold as characters is refused.
pub fn parse_from_bytes(format: FileFormat, bytes: &[u8], strict: bool) -> (r: Result<
    ParseOutput,
    ParseError,
>)
    ensures
        ({
            let decoded = decode_result_text(format, bytes@, strict);
            &&& decoded is None ==> r is Err
            &&& r matches Ok(out) ==> decoded matches Some((text, warned)) && out.document.format == format
                && matches_ci_at(text, skip_ws_from(text, 0), "ISO-10303-21"@) && (warned ==> (
            out.warnings@.len() > 0 && out.warnings@.last().code@ == "encoding"@))
            &&& r matches Ok(out) ==> (decoded matches Some((text, _)) && (file_header_at(
                format,
                strict,
                text,
            ) matches Some((h, _)) && records_model(out.document.header.entities@) == h))
            &&& r matches Ok(out) ==> ((format == FileFormat::P21 || strict) ==> (decoded matches Some(
                (text, _),
            ) && (file_at(format, strict, text) matches Some((h, es, end)) && entities_model(
                out.document.entities@,
            ) == es)))
            &&& !strict ==> (decoded matches Some((text, _)) ==> (text.len() < max_input_chars()
                ==> text.len() < usize::MAX ==> (file_at(format, strict, text) matches Some((h, es, end))
                ==> (r matches Ok(out) && entities_model(out.document.entities@) == es))))
            &&& strict ==> (decoded matches Some((text, _)) ==> text.len() < max_input_chars() ==> text.len()
                < usize::MAX ==> format == FileFormat::P21 ==> (r is Ok <==> (file_at(format, strict, text)
                matches Some((h, es, end)) && skip_ws_from(text, end) == text.len() && !p21_rules_broken(h, es))))
            &&& strict ==> (r matches Ok(out) ==> format == FileFormat::Sfc ==> (decoded matches Some((text, _))
                && file_at(format, strict, text) matches Some((h, es, end)) && (forall|k: int|
                0 <= k < es.len() ==> !model_version_mismatch(#[trigger] es[k])) && sfc_reading(
                h,
                es,
                out.document,
            ) && (out.document.sfc_model matches Some(m) && sfc_checks_pass(out.document, m))))
            &&& strict ==> (decoded matches Some((text, _)) ==> text.len() < max_input_chars() ==> text.len()
                < usize::MAX ==> format == FileFormat::Sfc ==> (file_at(format, strict, text) matches Some(
                (h, es, end),
            ) ==> skip_ws_from(text, end) == text.len() ==> (forall|k: int|
                0 <= k < es.len() ==> !model_version_mismatch(#[trigger] es[k])) ==> (forall|doc: ParsedDocument|
                #[trigger] sfc_reading(h, es, doc) ==> sfc_accepted(doc)) ==> r is Ok))
            &&& strict ==> (decoded matches Some((text, _)) ==> text.len() < max_input_chars() ==> text.len()
                < usize::MAX ==> format == FileFormat::Sfc ==> (file_at(format, strict, text) matches Some(
                (h, es, end),
            ) ==> skip_ws_from(text, end) == text.len() ==> forall|k: int|
                #[trigger] first_version_mismatch(es, k) ==> (r matches Err(e) && e.message@
                    == version_mismatch_message(es[k]) && e.line == line_at(text, text.len() as int) && e.column
                    == col_at(text, text.len() as int))))
            &&& strict ==> (decoded matches Some((text, _)) ==> text.len() < max_input_chars() ==> text.len()
                < usize::MAX ==> format == FileFormat::Sfc ==> (r matches Err(e) ==> file_at(format, strict, text)
                matches Some((h, es, end)) ==> skip_ws_from(text, end) == text.len() ==> (forall|k: int|
                0 <= k < es.len() ==> !model_version_mismatch(#[trigger] es[k])) ==> sfc_rejects_with(
                h,
                es,
                e.message@,
            ) && e.line == line_at(text, text.len() as int) && e.column == col_at(text, text.len() as int)))
            &&& r matches Ok(out) ==> (!strict && format == FileFormat::P21 ==> (decoded matches Some(
                (text, warned),
            ) && file_at(format, strict, text) matches Some((h, es, end)) && warnings_are(
                if warned {
                    out.warnings@.drop_last()
                } else {
                    out.warnings@
                },
                trailing_issues(text, end) + p21_issues(h, es),
            )))
        }),
{
    let (text, encoding_warning) = decode_bytes(format, bytes, strict)?;
    let n = text.unicode_len();
    if n as u64 >= 0x2000_0000_0000_0000u64 || n == usize::MAX {
        return Err(ParseError::new(string_from_str("Input is too large"), 1, 1, String::new()));
    }
    let mut output = match format {
        FileFormat::P21 => parse_p21_text(text.as_str(), strict)?,
        FileFormat::Sfc => parse_sfc_text(text.as_str(), strict)?,
    };
    match encoding_warning {
        Some(warning) => {
            output.warnings.push(warning);
        },
        None => {},
    }
    Ok(output)
}

/// The text decoding gives and whether it warned, or nothing when decoding fails.
pub open spec fn decode_result_text(format: FileFormat, bytes: Seq<u8>, strict: bool) -> Option<(Seq<char>, bool)> {
    if vstd::utf8::valid_utf8(bytes) {
        Some((vstd::utf8::decode_utf8(bytes), false))
    } else if format == FileFormat::Sfc {
        let (decoded, had_errors) = crate::encoding::shift_jis_decoding(bytes);
        if !had_errors {
            Some((decoded, false))
        } else if strict {
            None
        } else {
            Some((decoded, true))
        }
    } else {
        None
    }
}

} // verus!
