//! The resolved SFC drawing model: code tables, the drawing sheet, composite
//! figures, attribute attachments, composite curves, and the references
//! between them.

use vstd::prelude::*;
use crate::attribute::{
    any_empty, atrf_prefix, atrs_prefix, atru_prefix, empty_field_message, field_count_message, has_prefix,
    mechanism_result, parse_sfc_attribute_mechanism, sfc_attribute_figure_id, spec_figure_id, split_sep,
};
use crate::codes::{
    hatch_composite_curve_codes, is_composite_curve_component, resolve_composite_curve_definition,
    spec_hatch_codes, spec_is_composite_curve_component,
};
use crate::resolution::{
    attachment_feature, count_before_sheet, hatch_feature, lemma_placements_bump, placement_count,
    placement_feature,
};
use crate::document::first_keyword;
use crate::lexer::{lemma_raises_done, lemma_raises_step, raises, recorded, Parser};
use crate::model::{
    Decimal, ParseError, ParsedDocument, SfcAttributeAttachment, SfcAttributeMechanism,
    SfcCompositeCurveDefinition, SfcHatchReference, SfcModel, SfcSfigDefinition,
    SfcSfigReference, SfcSheetModel, SfigLocateFeature, TypedFeature, TypedFeatureInstance, Value,
};
use crate::containers::{
    attachment_lists, components_unique, curve_lists, distinct_ids, held_by_nothing, in_container,
    joins_container, lemma_components_unique, lemma_membership, sheet_before,
    lemma_step_advance, lemma_step_clear, lemma_step_same, lemma_step_take, placing_ok, sfig_lists,
    Placing,
};
use crate::tables::{table_seqs, tables_sound, tables_upto};
use crate::text::{
    chars_of, debug_text, debug_text_of, int_text, nat_text, push_int, push_str, push_usize, slice_eq_str, string_from_str,
};
use crate::number::{compare_decimal, dec_order, lemma_pow10_pos, pow10};

verus! {

/// The path `path` with its extension replaced by (or extended with) `ext`,
/// as `std::path::Path::with_extension` gives it on the platform the library
/// is built for (which characters separate path components is the
/// platform's).
pub uninterp spec fn path_with_extension(path: Seq<char>, ext: Seq<char>) -> Seq<char>;

/// Calls `Path::new(path).with_extension(ext)` and takes the result as text
/// (`to_string_lossy`, exact for a path made from a `str`). Claimed: the
/// result is the named one; nothing more of it is stated. The extension
/// must hold no path separator, on which `with_extension` panics.
#[verifier::external_body]
fn replace_extension(path: &str, ext: &str) -> (r: String)
    requires
        !ext@.contains('/'),
        !ext@.contains('\\'),
    ensures
        r@ == path_with_extension(path@, ext@),
{
    std::path::Path::new(path).with_extension(ext).to_string_lossy().into_owned()
}

/// The attribute file an `$$ATRF$$` attachment names: the one it gives, or
/// else the drawing file named in the header with the extension `SAF`.
pub open spec fn attribute_file_spec(doc: ParsedDocument, m: SfcAttributeMechanism) -> Option<
    Seq<char>,
> {
    match m {
        SfcAttributeMechanism::AttributeFile { attribute_file_name, .. } => match attribute_file_name {
            Some(f) => Some(f@),
            None => match first_keyword(doc.header.entities@, "FILE_NAME"@) {
                None => None,
                Some(k) => {
                    let p = doc.header.entities@[k].parameters@;
                    if p.len() > 0 && p[0] is String {
                        Some(path_with_extension(p[0]->String_0@, "SAF"@))
                    } else {
                        None
                    }
                },
            },
        },
        _ => None,
    }
}

pub fn resolve_sfc_attribute_file_name(
    document: &ParsedDocument,
    mechanism: &SfcAttributeMechanism,
) -> (r: Option<String>)
    ensures
        crate::attribute::opt_view(r) == attribute_file_spec(*document, *mechanism),
{
    match mechanism {
        SfcAttributeMechanism::AttributeFile { attribute_file_name, .. } => {
            match attribute_file_name {
                Some(f) => Some(f.clone()),
                None => {
                    let rec = match document.header.find_keyword("FILE_NAME") {
                        Some(rec) => rec,
                        None => {
                            return None;
                        },
                    };
                    proof {
                        let recs = document.header.entities@;
                        let k = first_keyword(recs, "FILE_NAME"@);
                        assert(k is Some);
                        assert(recs[k.unwrap()] == *rec) by {
                            let w = choose|i: int|
                                0 <= i < recs.len() && recs[i] == *rec && crate::text::eq_ci(
                                    rec.keyword@,
                                    "FILE_NAME"@,
                                ) && forall|j: int|
                                    0 <= j < i ==> !crate::text::eq_ci(
                                        #[trigger] recs[j].keyword@,
                                        "FILE_NAME"@,
                                    );
                            let c = k.unwrap();
                            assert(c == w || c < w || w < c);
                        }
                    }
                    if rec.parameters.len() == 0 {
                        return None;
                    }
                    match &rec.parameters[0] {
                        Value::String(s) => {
                            proof {
                                reveal_strlit("SAF");
                                assert("SAF"@[0] != '/' && "SAF"@[1] != '/' && "SAF"@[2] != '/');
                            }
                            Some(replace_extension(s.as_str(), "SAF"))
                        },
                        _ => None,
                    }
                },
            }
        },
        _ => None,
    }
}

/// The feature of the last typed feature with entity id `id`.
pub open spec fn feature_by_id(typed: Seq<TypedFeatureInstance>, id: i64) -> Option<TypedFeature>
    decreases typed.len(),
{
    if typed.len() == 0 {
        None
    } else if typed.last().id == id {
        Some(typed.last().feature)
    } else {
        feature_by_id(typed.drop_last(), id)
    }
}

/// Looks up the typed feature with `id` (the last one, where ids repeat).
pub fn typed_by_id(typed: &[TypedFeatureInstance], id: i64) -> (r: Option<&TypedFeature>)
    ensures
        match r {
            Some(f) => feature_by_id(typed@, id) == Some(*f),
            None => feature_by_id(typed@, id) is None,
        },
{
    let mut k: usize = typed.len();
    assert(typed@.subrange(0, k as int) =~= typed@);
    while k > 0
        invariant
            k <= typed@.len(),
            feature_by_id(typed@, id) == feature_by_id(typed@.subrange(0, k as int), id),
        decreases k,
    {
        let ghost pre = typed@.subrange(0, k as int);
        assert(pre.drop_last() =~= typed@.subrange(0, k - 1));
        if typed[k - 1].id == id {
            return Some(&typed[k - 1].feature);
        }
        k = k - 1;
    }
    None
}

/// A composite-figure name already taken, with its definition and, for an
/// attribute attachment, its index.
pub struct SfigName {
    pub name: String,
    pub definition_id: i64,
    pub attachment: Option<usize>,
}

/// Composite curves are numbered 1, 2, 3, ... in order.
pub open spec fn curve_codes_consecutive(defs: Seq<SfcCompositeCurveDefinition>) -> bool {
    forall|k: int| 0 <= k < defs.len() ==> (#[trigger] defs[k]).code == k + 1
}

pub open spec fn is_sfig_def_id(defs: Seq<SfcSfigDefinition>, id: i64) -> bool {
    exists|d: int| 0 <= d < defs.len() && (#[trigger] defs[d]).entity_id == id
}

pub open spec fn is_curve_def_id(defs: Seq<SfcCompositeCurveDefinition>, id: i64) -> bool {
    exists|d: int| 0 <= d < defs.len() && (#[trigger] defs[d]).entity_id == id
}

/// Every composite-figure placement refers to a composite-figure definition,
/// and every hatch to composite-curve definitions.
pub open spec fn references_resolve(m: SfcModel) -> bool {
    &&& forall|r: int|
        0 <= r < m.sfig_references@.len() ==> is_sfig_def_id(
            m.sfig_definitions@,
            (#[trigger] m.sfig_references@[r]).definition_id,
        )
    &&& forall|h: int|
        0 <= h < m.hatch_references@.len() ==> is_curve_def_id(
            m.composite_curve_definitions@,
            (#[trigger] m.hatch_references@[h]).outer_definition_id,
        )
    &&& forall|h: int, j: int|
        0 <= h < m.hatch_references@.len() && 0 <= j < m.hatch_references@[h].inner_definition_ids@.len()
            ==> is_curve_def_id(
            m.composite_curve_definitions@,
            #[trigger] m.hatch_references@[h].inner_definition_ids@[j],
        )
}

/// `f` is the composite-figure definition feature behind `d`.
pub open spec fn org_matches(f: TypedFeature, d: SfcSfigDefinition) -> bool {
    f matches TypedFeature::SfigOrg(o) && o.name@ == d.name@ && o.kind_flag == d.kind_flag
}

/// Each definition comes from a typed feature of its kind, with the same
/// name and kind flag; each attachment's mechanism is what its name says.
pub open spec fn definitions_from(typed: Seq<TypedFeatureInstance>, m: SfcModel) -> bool {
    &&& sfig_definitions_from(typed, m)
    &&& attachments_well_named(m)
    &&& curves_from(typed, m)
    &&& sheet_from(typed, m)
}

/// `d` comes from a composite-figure definition feature with its name and kind.
pub open spec fn sfig_source(typed: Seq<TypedFeatureInstance>, d: SfcSfigDefinition) -> bool {
    exists|k: int| 0 <= k < typed.len() && #[trigger] typed[k].id == d.entity_id && org_matches(typed[k].feature, d)
}

/// Each composite-figure definition comes from a definition feature with its name and kind.
pub open spec fn sfig_definitions_from(typed: Seq<TypedFeatureInstance>, m: SfcModel) -> bool {
    forall|d: int| 0 <= d < m.sfig_definitions@.len() ==> sfig_source(typed, #[trigger] m.sfig_definitions@[d])
}

/// Each attachment's mechanism is what its name says.
pub open spec fn attachments_well_named(m: SfcModel) -> bool {
    forall|a: int|
        0 <= a < m.attribute_attachments@.len() ==> mechanism_result(
            Ok(Some((#[trigger] m.attribute_attachments@[a]).mechanism)),
            m.attribute_attachments@[a].name@,
        )
}

/// `c` comes from a composite-curve feature.
pub open spec fn curve_source(typed: Seq<TypedFeatureInstance>, c: SfcCompositeCurveDefinition) -> bool {
    exists|k: int| 0 <= k < typed.len() && #[trigger] typed[k].id == c.entity_id && typed[k].feature is CompositeCurve
}

/// Each composite-curve definition comes from a composite-curve feature.
pub open spec fn curves_from(typed: Seq<TypedFeatureInstance>, m: SfcModel) -> bool {
    forall|c: int|
        0 <= c < m.composite_curve_definitions@.len() ==> curve_source(
            typed,
            #[trigger] m.composite_curve_definitions@[c],
        )
}

/// The drawing sheet, if any, comes from a drawing-sheet feature.
pub open spec fn sheet_from(typed: Seq<TypedFeatureInstance>, m: SfcModel) -> bool {
    m.sheet matches Some(s) ==> exists|k: int|
        0 <= k < typed.len() && #[trigger] typed[k].id == s.entity_id
            && typed[k].feature is DrawingSheet
}

/// `b` keeps the definitions, curves, attachments and references of `a`.
pub open spec fn model_extends(a: SfcModel, b: SfcModel) -> bool {
    &&& a.sfig_definitions@.len() <= b.sfig_definitions@.len()
    &&& forall|d: int| 0 <= d < a.sfig_definitions@.len() ==> #[trigger] b.sfig_definitions@[d] == a.sfig_definitions@[d]
    &&& a.composite_curve_definitions@.len() <= b.composite_curve_definitions@.len()
    &&& forall|d: int|
        0 <= d < a.composite_curve_definitions@.len() ==> #[trigger] b.composite_curve_definitions@[d]
            == a.composite_curve_definitions@[d]
    &&& a.attribute_attachments@.len() <= b.attribute_attachments@.len()
    &&& forall|d: int|
        0 <= d < a.attribute_attachments@.len() ==> (#[trigger] b.attribute_attachments@[d]).definition_id
            == a.attribute_attachments@[d].definition_id
    &&& b.sfig_references@ == a.sfig_references@
    &&& b.hatch_references@ == a.hatch_references@
}

proof fn lemma_model_grows(a: SfcModel, b: SfcModel, names: Seq<SfigName>)
    requires
        model_extends(a, b),
        references_resolve(a),
        names_point_into(names, a),
    ensures
        references_resolve(b),
        names_point_into(names, b),
{
    assert forall|r: int| 0 <= r < b.sfig_references@.len() implies is_sfig_def_id(
        b.sfig_definitions@,
        (#[trigger] b.sfig_references@[r]).definition_id,
    ) by {
        let id = b.sfig_references@[r].definition_id;
        assert(a.sfig_references@[r] == b.sfig_references@[r]);
        let d = choose|d: int| 0 <= d < a.sfig_definitions@.len() && (#[trigger] a.sfig_definitions@[d]).entity_id == id;
        assert(b.sfig_definitions@[d] == a.sfig_definitions@[d]);
    }
    assert forall|h: int| 0 <= h < b.hatch_references@.len() implies is_curve_def_id(
        b.composite_curve_definitions@,
        (#[trigger] b.hatch_references@[h]).outer_definition_id,
    ) by {
        let id = b.hatch_references@[h].outer_definition_id;
        assert(a.hatch_references@[h] == b.hatch_references@[h]);
        let d = choose|d: int|
            0 <= d < a.composite_curve_definitions@.len() && (#[trigger] a.composite_curve_definitions@[d]).entity_id == id;
        assert(b.composite_curve_definitions@[d] == a.composite_curve_definitions@[d]);
    }
    assert forall|h: int, j: int|
        0 <= h < b.hatch_references@.len() && 0 <= j < b.hatch_references@[h].inner_definition_ids@.len()
            implies is_curve_def_id(
        b.composite_curve_definitions@,
        #[trigger] b.hatch_references@[h].inner_definition_ids@[j],
    ) by {
        assert(a.hatch_references@[h] == b.hatch_references@[h]);
        let id = a.hatch_references@[h].inner_definition_ids@[j];
        let d = choose|d: int|
            0 <= d < a.composite_curve_definitions@.len() && (#[trigger] a.composite_curve_definitions@[d]).entity_id == id;
        assert(b.composite_curve_definitions@[d] == a.composite_curve_definitions@[d]);
    }
    assert forall|n: int| 0 <= n < names.len() implies match (#[trigger] names[n]).attachment {
        Some(x) => x < b.attribute_attachments@.len() && b.attribute_attachments@[x as int].definition_id
            == names[n].definition_id,
        None => is_sfig_def_id(b.sfig_definitions@, names[n].definition_id),
    } by {
        match names[n].attachment {
            Some(x) => {},
            None => {
                let id = names[n].definition_id;
                let d = choose|d: int| 0 <= d < a.sfig_definitions@.len() && (#[trigger] a.sfig_definitions@[d]).entity_id == id;
                assert(b.sfig_definitions@[d] == a.sfig_definitions@[d]);
            },
        }
    }
}

proof fn lemma_definitions_kept(typed: Seq<TypedFeatureInstance>, a: SfcModel, b: SfcModel)
    requires
        definitions_from(typed, a),
        b.sfig_definitions == a.sfig_definitions,
        b.composite_curve_definitions == a.composite_curve_definitions,
        b.sheet == a.sheet || sheet_from(typed, b),
        b.attribute_attachments@.len() == a.attribute_attachments@.len(),
        forall|k: int|
            0 <= k < a.attribute_attachments@.len() ==> (#[trigger] b.attribute_attachments@[k]).name
                == a.attribute_attachments@[k].name && b.attribute_attachments@[k].mechanism
                == a.attribute_attachments@[k].mechanism,
    ensures
        definitions_from(typed, b),
{
    assert(sfig_definitions_from(typed, b)) by {
        assert(sfig_definitions_from(typed, a));
    }
    assert(curves_from(typed, b)) by {
        assert(curves_from(typed, a));
    }
    assert(sheet_from(typed, b)) by {
        if b.sheet == a.sheet {
            assert(sheet_from(typed, a));
        }
    }
    assert forall|x: int| 0 <= x < b.attribute_attachments@.len() implies mechanism_result(
        Ok(Some((#[trigger] b.attribute_attachments@[x]).mechanism)),
        b.attribute_attachments@[x].name@,
    ) by {
        assert(b.attribute_attachments@[x].name == a.attribute_attachments@[x].name);
    }
    assert(attachments_well_named(b));
}

/// Finds the composite-figure name `name` among those already taken.
fn find_sfig_name(names: &Vec<SfigName>, name: &str) -> (r: Option<usize>)
    ensures
        match r {
            Some(n) => n < names@.len() && names@[n as int].name@ == name@,
            None => forall|n: int| 0 <= n < names@.len() ==> (#[trigger] names@[n]).name@ != name@,
        },
{
    let mut n: usize = 0;
    while n < names.len()
        invariant
            n <= names@.len(),
            forall|j: int| 0 <= j < n ==> (#[trigger] names@[j]).name@ != name@,
        decreases names@.len() - n,
    {
        let cs = chars_of(names[n].name.as_str());
        if slice_eq_str(cs.as_slice(), name) {
            return Some(n);
        }
        n = n + 1;
    }
    None
}

/// Each taken name points at a definition or an attachment of the model.
pub open spec fn names_point_into(names: Seq<SfigName>, m: SfcModel) -> bool {
    forall|n: int|
        0 <= n < names.len() ==> match (#[trigger] names[n]).attachment {
            Some(a) => a < m.attribute_attachments@.len() && m.attribute_attachments@[a as int].definition_id
                == names[n].definition_id,
            None => is_sfig_def_id(m.sfig_definitions@, names[n].definition_id),
        }
}

/// The error an `$$ATR…$$` composite-figure name gives, if any.
pub open spec fn mechanism_error(name: Seq<char>) -> Option<Seq<char>> {
    let fields = split_sep(name.subrange(8, name.len() as int));
    let n = fields.len() as int;
    if has_prefix(name, atrf_prefix()) {
        if any_empty(fields) {
            Some(empty_field_message("ATRF"@))
        } else if !(1 <= n <= 2) {
            Some(field_count_message("ATRF"@, "1 or 2"@, n))
        } else {
            None
        }
    } else if has_prefix(name, atru_prefix()) {
        if any_empty(fields) {
            Some(empty_field_message("ATRU"@))
        } else if !(1 <= n <= 6) {
            Some(field_count_message("ATRU"@, "1 to 6"@, n))
        } else {
            None
        }
    } else if has_prefix(name, atrs_prefix()) {
        if any_empty(fields) {
            Some(empty_field_message("ATRS"@))
        } else if !(2 <= n <= 4) {
            Some(field_count_message("ATRS"@, "2 to 4"@, n))
        } else {
            None
        }
    } else {
        None
    }
}

/// The name starts with one of the attribute prefixes.
pub open spec fn is_attribute_name(name: Seq<char>) -> bool {
    has_prefix(name, atrf_prefix()) || has_prefix(name, atru_prefix()) || has_prefix(name, atrs_prefix())
}

proof fn lemma_mechanism_error(r: Result<Option<SfcAttributeMechanism>, String>, name: Seq<char>)
    requires
        mechanism_result(r, name),
    ensures
        r matches Err(msg) ==> mechanism_error(name) == Some(msg@),
        r is Ok ==> mechanism_error(name) is None,
        r matches Ok(Some(_)) <==> (r is Ok && is_attribute_name(name)),
{
}

/// A composite figure before position `k` (and before any sheet) has name `n`.
pub open spec fn org_name_before(typed: Seq<TypedFeatureInstance>, k: int, n: Seq<char>) -> bool {
    exists|j: int|
        0 <= j < k && !sheet_before(typed, j) && ((#[trigger] typed[j]).feature matches TypedFeature::SfigOrg(x)
            && x.name@ == n)
}

/// How many composite curves come before position `k` and before any sheet.
pub open spec fn curves_before(typed: Seq<TypedFeatureInstance>, k: int) -> int
    decreases k,
{
    if k <= 0 {
        0
    } else {
        curves_before(typed, k - 1) + if typed[k - 1].feature is CompositeCurve && !sheet_before(
            typed,
            k - 1,
        ) {
            1int
        } else {
            0int
        }
    }
}

/// The components waiting for the next container before position `k`, for
/// a strict reader.
pub open spec fn buffer_at(typed: Seq<TypedFeatureInstance>, k: int) -> Seq<i64>
    decreases k,
{
    if k <= 0 {
        Seq::empty()
    } else {
        let b = buffer_at(typed, k - 1);
        let f = typed[k - 1].feature;
        if sheet_before(typed, k - 1) {
            b
        } else if f is SfigOrg || f is CompositeCurve || f is DrawingSheet {
            Seq::empty()
        } else if f.spec_requires_pre_sheet_order() {
            b.push(typed[k - 1].id)
        } else {
            b
        }
    }
}

/// The first waiting component that is a typed feature a composite curve
/// cannot hold.
pub open spec fn first_bad_component(typed: Seq<TypedFeatureInstance>, buf: Seq<i64>) -> Option<i64>
    decreases buf.len(),
{
    if buf.len() == 0 {
        None
    } else if feature_by_id(typed, buf[0]) matches Some(g) && !spec_is_composite_curve_component(g) {
        Some(buf[0])
    } else {
        first_bad_component(typed, buf.drop_first())
    }
}

/// The first code of `ins` that names none of the first `n` composite curves.
pub open spec fn first_unknown_code(ins: Seq<i64>, n: int) -> Option<i64>
    decreases ins.len(),
{
    if ins.len() == 0 {
        None
    } else if !(1 <= ins[0] <= n) {
        Some(ins[0])
    } else {
        first_unknown_code(ins.drop_first(), n)
    }
}

/// What placing feature `f` (id `id`) fails on for a strict reader, given
/// which composite-figure names are known and how many composite curves.
pub open spec fn place_fault(f: TypedFeature, id: i64, named: spec_fn(Seq<char>) -> bool, ncurves: int) -> Option<
    Seq<char>,
> {
    if f is SfigLocate && !named(f->SfigLocate_0.name@) {
        Some(
            "Composite figure placement #"@ + int_text(id as int) + " references undefined or later definition "@
                + debug_text(f->SfigLocate_0.name@),
        )
    } else {
        match spec_hatch_codes(f) {
            Some((out, ins)) => if !(1 <= out <= ncurves) {
                Some(
                    "Hatch #"@ + int_text(id as int) + " references undefined or later outer composite curve code "@
                        + int_text(out as int),
                )
            } else {
                match first_unknown_code(ins, ncurves) {
                    Some(c) => Some(
                        "Hatch #"@ + int_text(id as int)
                            + " references undefined or later inner composite curve code "@ + int_text(c as int),
                    ),
                    None => None,
                }
            },
            None => None,
        }
    }
}

/// What feature `k` fails on for a strict reader when nothing before it did.
pub open spec fn structure_fault_at(typed: Seq<TypedFeatureInstance>, k: int) -> Option<Seq<char>> {
    let f = typed[k].feature;
    let id = typed[k].id;
    if sheet_before(typed, k) {
        if f is DrawingSheet {
            Some("SFC contains more than one drawing sheet (#"@ + int_text(id as int) + ")"@)
        } else {
            None
        }
    } else {
        match f {
            TypedFeature::SfigOrg(x) => if org_name_before(typed, k, x.name@) {
                Some("Entity #"@ + int_text(id as int) + " repeats composite figure name "@ + debug_text(x.name@))
            } else {
                match mechanism_error(x.name@) {
                    Some(msg) => Some("Composite figure #"@ + int_text(id as int) + ": "@ + msg),
                    None => if is_attribute_name(x.name@) && x.kind_flag != 3 {
                        Some("Attribute attachment #"@ + int_text(id as int) + " must use drawing-group kind flag 3"@)
                    } else {
                        None
                    },
                }
            },
            TypedFeature::CompositeCurve(_) => match first_bad_component(typed, buffer_at(typed, k)) {
                Some(c) => Some(
                    "Composite curve #"@ + int_text(id as int) + " contains unsupported component #"@ + int_text(
                        c as int,
                    ),
                ),
                None => None,
            },
            TypedFeature::DrawingSheet(_) => None,
            _ => if f.spec_requires_pre_sheet_order() {
                place_fault(f, id, |n: Seq<char>| org_name_before(typed, k, n), curves_before(typed, k))
            } else {
                None
            },
        }
    }
}

/// The first structural fault among the first `k` typed features, for a
/// strict reader: the error building the model's containers gives.
pub open spec fn structure_fault(typed: Seq<TypedFeatureInstance>, k: int) -> Option<Seq<char>>
    decreases k,
{
    if k <= 0 {
        None
    } else {
        match structure_fault(typed, k - 1) {
            Some(m) => Some(m),
            None => structure_fault_at(typed, k - 1),
        }
    }
}

/// Some taken name is `n`.
pub open spec fn name_known(names: Seq<SfigName>, n: Seq<char>) -> bool {
    exists|t: int| 0 <= t < names.len() && (#[trigger] names[t]).name@ == n
}

proof fn lemma_first_unknown(ins: Seq<i64>, n: int, j: int)
    requires
        0 <= j <= ins.len(),
        forall|q: int| 0 <= q < j ==> 1 <= #[trigger] ins[q] <= n,
    ensures
        j < ins.len() && !(1 <= ins[j] <= n) ==> first_unknown_code(ins, n) == Some(ins[j]),
        j == ins.len() ==> first_unknown_code(ins, n) is None,
    decreases j,
{
    if ins.len() > 0 {
        if j > 0 {
            assert forall|q: int| 0 <= q < j - 1 implies 1 <= #[trigger] ins.drop_first()[q] <= n by {
                assert(ins.drop_first()[q] == ins[q + 1]);
            }
            assert(1 <= ins[0] <= n);
            lemma_first_unknown(ins.drop_first(), n, j - 1);
        }
    }
}

/// The fault feature `k` meets, when none came before, is the first fault.
proof fn lemma_fault_here(typed: Seq<TypedFeatureInstance>, k: int, n: int)
    requires
        0 <= k < n,
        structure_fault(typed, k) is None,
        structure_fault_at(typed, k) is Some,
    ensures
        structure_fault(typed, n) == structure_fault_at(typed, k),
{
    lemma_fault_kept(typed, k + 1, n);
}

proof fn lemma_first_bad(typed: Seq<TypedFeatureInstance>, buf: Seq<i64>, c: int)
    requires
        0 <= c <= buf.len(),
        forall|q: int| 0 <= q < c ==> !(feature_by_id(typed, #[trigger] buf[q]) matches Some(g)
            && !spec_is_composite_curve_component(g)),
    ensures
        c < buf.len() && (feature_by_id(typed, buf[c]) matches Some(g) && !spec_is_composite_curve_component(g))
            ==> first_bad_component(typed, buf) == Some(buf[c]),
        c == buf.len() ==> first_bad_component(typed, buf) is None,
    decreases c,
{
    if buf.len() > 0 && c > 0 {
        assert forall|q: int| 0 <= q < c - 1 implies !(feature_by_id(typed, #[trigger] buf.drop_first()[q]) matches Some(g)
            && !spec_is_composite_curve_component(g)) by {
            assert(buf.drop_first()[q] == buf[q + 1]);
        }
        assert(!(feature_by_id(typed, buf[0]) matches Some(g) && !spec_is_composite_curve_component(g)));
        lemma_first_bad(typed, buf.drop_first(), c - 1);
    }
}

proof fn lemma_name_known_push(before: Seq<SfigName>, after: Seq<SfigName>, name: Seq<char>)
    requires
        after.len() == before.len() + 1,
        after.drop_last() == before,
        after.last().name@ == name,
    ensures
        forall|n: Seq<char>| name_known(after, n) <==> (name_known(before, n) || n == name),
{
    assert forall|n: Seq<char>| name_known(after, n) <==> (name_known(before, n) || n == name) by {
        if name_known(before, n) {
            let t = choose|t: int| 0 <= t < before.len() && (#[trigger] before[t]).name@ == n;
            assert(after[t] == after.drop_last()[t]);
        }
        if name_known(after, n) && n != name {
            let t = choose|t: int| 0 <= t < after.len() && (#[trigger] after[t]).name@ == n;
            assert(after.drop_last()[t] == after[t]);
        }
        if n == name {
            assert(after[after.len() - 1].name@ == n);
        }
    }
}

proof fn lemma_org_name_step(typed: Seq<TypedFeatureInstance>, i: int)
    requires
        0 <= i < typed.len(),
    ensures
        forall|n: Seq<char>| org_name_before(typed, i + 1, n) <==> (org_name_before(typed, i, n) || (!sheet_before(typed, i)
            && (typed[i].feature matches TypedFeature::SfigOrg(x) && x.name@ == n))),
{
    assert forall|n: Seq<char>| org_name_before(typed, i + 1, n) <==> (org_name_before(typed, i, n) || (!sheet_before(typed, i)
        && (typed[i].feature matches TypedFeature::SfigOrg(x) && x.name@ == n))) by {
        if org_name_before(typed, i + 1, n) {
            let j = choose|j: int|
                0 <= j < i + 1 && !sheet_before(typed, j) && ((#[trigger] typed[j]).feature matches TypedFeature::SfigOrg(x)
                    && x.name@ == n);
            if j < i {
                assert(org_name_before(typed, i, n));
            }
        }
        if !sheet_before(typed, i) && (typed[i].feature matches TypedFeature::SfigOrg(x) && x.name@ == n) {
            assert(0 <= i < i + 1);
        }
    }
}

proof fn lemma_fault_kept(typed: Seq<TypedFeatureInstance>, a: int, b: int)
    requires
        0 <= a <= b,
        structure_fault(typed, a) is Some,
    ensures
        structure_fault(typed, b) == structure_fault(typed, a),
    decreases b - a,
{
    if a < b {
        lemma_fault_kept(typed, a, b - 1);
    }
}

impl Parser {
    /// Walks the typed features in order and builds the containers and
    /// references of the model; features after the drawing sheet are not
    /// placed in any container.
    pub fn collect_sfc_structure(&mut self, document: &ParsedDocument, model: SfcModel) -> (r: Result<
        SfcModel,
        ParseError,
    >)
        requires
            document.typed_features@.len() < 0x4000_0000_0000_0000,
            model.sheet is None,
            model.sfig_definitions@.len() == 0,
            model.attribute_attachments@.len() == 0,
            model.composite_curve_definitions@.len() == 0,
            model.sfig_references@.len() == 0,
            model.hatch_references@.len() == 0,
        ensures
            old(self).same_source(&*final(self)),
            final(self).index == old(self).index,
            final(self).line == old(self).line,
            final(self).column == old(self).column,
            old(self).keeps_warnings(&*final(self)),
            old(self).quiet_if_strict(&*final(self)),
            !old(self).strict ==> r is Ok,
            r matches Ok(m) ==> m.code_tables == model.code_tables && curve_codes_consecutive(
                m.composite_curve_definitions@,
            ) && references_resolve(m) && definitions_from(document.typed_features@, m),
            r matches Ok(m) ==> (distinct_ids(document.typed_features@) ==> components_unique(m)),
            r matches Ok(m) ==> (m.sheet is Some <==> sheet_before(
                document.typed_features@,
                document.typed_features@.len() as int,
            )),
            r matches Ok(m) ==> old(self).strict ==> ({
                let typed = document.typed_features@;
                let n = typed.len() as int;
                &&& m.hatch_references@.len() == count_before_sheet(typed, n, hatch_feature())
                &&& placement_count(m) == count_before_sheet(typed, n, placement_feature())
                &&& m.attribute_attachments@.len() == count_before_sheet(typed, n, attachment_feature())
            }),
            r matches Ok(m) ==> (old(self).strict && distinct_ids(document.typed_features@) && m.sheet is Some)
                ==> forall|k: int|
                0 <= k < document.typed_features@.len() ==> (in_container(
                    m,
                    #[trigger] document.typed_features@[k].id,
                ) <==> joins_container(document.typed_features@[k].feature) && !sheet_before(
                    document.typed_features@,
                    k,
                )),
            old(self).strict ==> (r is Err <==> structure_fault(
                document.typed_features@,
                document.typed_features@.len() as int,
            ) is Some),
            old(self).strict ==> (r matches Err(e) ==> old(self).error_here_is(
                e,
                structure_fault(document.typed_features@, document.typed_features@.len() as int)->0,
            )),
    {
        let ghost typed = document.typed_features@;
        let ghost total = typed.len() as int;
        let ghost tables0 = model.code_tables;
        let mut model = model;
        let mut component_buffer: Vec<i64> = Vec::new();
        let mut seen_sheet = false;
        let mut names: Vec<SfigName> = Vec::new();
        let mut i: usize = 0;
        let ghost mut g = Placing {
            own: Seq::empty(),
            sheet: Seq::empty(),
            sfigs: Seq::empty(),
            attachments: Seq::empty(),
            curves: Seq::empty(),
            waiting: Seq::empty(),
        };
        assert(sfig_lists(model) =~= Seq::empty());
        assert(attachment_lists(model) =~= Seq::empty());
        assert(curve_lists(model) =~= Seq::empty());
        while i < document.typed_features.len()
            invariant
                typed == document.typed_features@,
                placing_ok(typed, model, component_buffer@, g),
                g.own.len() == i,
                typed.len() < 0x4000_0000_0000_0000,
                i <= typed.len(),
                old(self).same_source(&*self),
                self.index == old(self).index,
                self.line == old(self).line,
                self.column == old(self).column,
                old(self).keeps_warnings(&*self),
                old(self).quiet_if_strict(&*self),
                model.code_tables == tables0,
                model.composite_curve_definitions@.len() <= i,
                curve_codes_consecutive(model.composite_curve_definitions@),
                references_resolve(model),
                definitions_from(typed, model),
                names_point_into(names@, model),
                seen_sheet == sheet_before(typed, i as int),
                model.sheet is Some <==> seen_sheet,
                seen_sheet ==> component_buffer@.len() == 0,
                old(self).strict ==> forall|k: int|
                    0 <= k < i ==> (#[trigger] g.own[k] != held_by_nothing() <==> joins_container(
                        typed[k].feature,
                    ) && !sheet_before(typed, k)),
                old(self).strict ==> model.hatch_references@.len() == count_before_sheet(
                    typed,
                    i as int,
                    hatch_feature(),
                ),
                old(self).strict ==> placement_count(model) == count_before_sheet(
                    typed,
                    i as int,
                    placement_feature(),
                ),
                old(self).strict ==> model.attribute_attachments@.len() == count_before_sheet(
                    typed,
                    i as int,
                    attachment_feature(),
                ),
                total == typed.len(),
                old(self).strict ==> structure_fault(typed, i as int) is None,
                old(self).strict ==> component_buffer@ == buffer_at(typed, i as int),
                old(self).strict ==> forall|n: Seq<char>| name_known(names@, n) <==> org_name_before(typed, i as int, n),
                old(self).strict ==> model.composite_curve_definitions@.len() == curves_before(typed, i as int),
            decreases typed.len() - i,
        {
            let item = &document.typed_features[i];
            assert(*item == typed[i as int]);
            let ghost m_before = model;
            let ghost names_before = names@;
            let ghost buf = component_buffer@;
            let ghost mut advanced = false;
            match &item.feature {
                TypedFeature::SfigOrg(feature) => {
                    if !seen_sheet {
                        if find_sfig_name(&names, feature.name.as_str()).is_some() {
                            let mut m = string_from_str("Entity #");
                            push_int(&mut m, item.id);
                            push_str(&mut m, " repeats composite figure name ");
                            push_str(&mut m, debug_text_of(feature.name.as_str()).as_str());
                            let r = self.issue_or_error("sfc-duplicate-sfig-name", m);
                            proof {
                                if old(self).strict {
                                    assert(org_name_before(typed, i as int, feature.name@));
                                    lemma_fault_here(typed, i as int, total);
                                }
                            }
                            r?;
                            component_buffer = Vec::new();
                            proof {
                                g = lemma_step_clear(typed, m_before, buf, g);
                            }
                        } else {
                            proof {
                                if old(self).strict {
                                    assert(!org_name_before(typed, i as int, feature.name@));
                                }
                            }
                            let parsed = parse_sfc_attribute_mechanism(feature.name.as_str());
                            proof {
                                lemma_mechanism_error(parsed, feature.name@);
                            }
                            let attribute = match parsed {
                                Ok(value) => value,
                                Err(message) => {
                                    let mut m = string_from_str("Composite figure #");
                                    push_int(&mut m, item.id);
                                    push_str(&mut m, ": ");
                                    push_str(&mut m, message.as_str());
                                    let r = self.issue_or_error("sfc-attribute-name", m);
                                    proof {
                                        if old(self).strict {
                                            lemma_fault_here(typed, i as int, total);
                                        }
                                    }
                                    r?;
                                    None
                                },
                            };
                            let component_ids = component_buffer;
                            component_buffer = Vec::new();
                            match attribute {
                                Some(mechanism) => {
                                    if feature.kind_flag != 3 {
                                        let mut m = string_from_str("Attribute attachment #");
                                        push_int(&mut m, item.id);
                                        push_str(&mut m, " must use drawing-group kind flag 3");
                                        let r = self.issue_or_error("sfc-attribute-kind", m);
                                        proof {
                                            if old(self).strict {
                                                lemma_fault_here(typed, i as int, total);
                                            }
                                        }
                                        r?;
                                    }
                                    let attachment_index = model.attribute_attachments.len();
                                    let resolved_attribute_file_name = resolve_sfc_attribute_file_name(
                                        document,
                                        &mechanism,
                                    );
                                    model.attribute_attachments.push(
                                        SfcAttributeAttachment {
                                            definition_id: item.id,
                                            name: feature.name.clone(),
                                            kind_flag: feature.kind_flag,
                                            component_ids,
                                            placement_ids: Vec::new(),
                                            mechanism,
                                            resolved_attribute_file_name,
                                        },
                                    );
                                    proof {
                                        lemma_model_grows(m_before, model, names_before);
                                        assert(model.attribute_attachments@.drop_last() =~= m_before.attribute_attachments@);
                                        assert(attachment_lists(model) =~= attachment_lists(m_before).push(buf));
                                        g = lemma_step_take(typed, m_before, buf, g, model, 2);
                                    }
                                    names.push(
                                        SfigName {
                                            name: feature.name.clone(),
                                            definition_id: item.id,
                                            attachment: Some(attachment_index),
                                        },
                                    );
                                    assert(names@.drop_last() == names_before);
                                    proof {
                                        lemma_name_known_push(names_before, names@, feature.name@);
                                    }
                                },
                                None => {
                                    let ghost k = i as int;
                                    model.sfig_definitions.push(
                                        SfcSfigDefinition {
                                            entity_id: item.id,
                                            name: feature.name.clone(),
                                            kind_flag: feature.kind_flag,
                                            component_ids,
                                        },
                                    );
                                    assert(typed[k].id == model.sfig_definitions@.last().entity_id);
                                    proof {
                                        lemma_model_grows(m_before, model, names_before);
                                        assert(sfig_lists(model) =~= sfig_lists(m_before).push(buf));
                                        g = lemma_step_take(typed, m_before, buf, g, model, 1);
                                    }
                                    names.push(
                                        SfigName {
                                            name: feature.name.clone(),
                                            definition_id: item.id,
                                            attachment: None,
                                        },
                                    );
                                    assert(is_sfig_def_id(
                                        model.sfig_definitions@,
                                        model.sfig_definitions@.last().entity_id,
                                    ));
                                    assert(names@.drop_last() == names_before);
                                    proof {
                                        lemma_name_known_push(names_before, names@, feature.name@);
                                    }
                                },
                            }
                        }
                    }
                },
                TypedFeature::CompositeCurve(_) => {
                    if !seen_sheet {
                        let mut valid = true;
                        let mut c: usize = 0;
                        while c < component_buffer.len()
                            invariant
                                old(self).same_source(&*self),
                                self.index == old(self).index,
                                self.line == old(self).line,
                                self.column == old(self).column,
                                old(self).keeps_warnings(&*self),
                                old(self).quiet_if_strict(&*self),
                                c <= component_buffer@.len(),
                                old(self).strict ==> valid,
                                typed == document.typed_features@,
                                total == typed.len(),
                                i < typed.len(),
                                typed[i as int] == *item,
                                item.feature is CompositeCurve,
                                old(self).strict ==> structure_fault(typed, i as int) is None,
                                old(self).strict ==> component_buffer@ == buffer_at(typed, i as int),
                                old(self).strict ==> !sheet_before(typed, i as int),
                                old(self).strict ==> forall|q: int| 0 <= q < c ==> !(feature_by_id(typed, #[trigger] component_buffer@[q]) matches Some(g)
                                    && !spec_is_composite_curve_component(g)),
                            decreases component_buffer@.len() - c,
                        {
                            let component_id = component_buffer[c];
                            match typed_by_id(document.typed_features.as_slice(), component_id) {
                                Some(component) => {
                                    if !is_composite_curve_component(component) {
                                        let mut m = string_from_str("Composite curve #");
                                        push_int(&mut m, item.id);
                                        push_str(&mut m, " contains unsupported component #");
                                        push_int(&mut m, component_id);
                                        let r = self.issue_or_error("sfc-composite-curve-component", m);
                                        proof {
                                            if old(self).strict {
                                                assert(feature_by_id(typed, component_id) == Some(*component));
                                                assert(component_id == component_buffer@[c as int]);
                                                lemma_first_bad(typed, component_buffer@, c as int);
                                                lemma_fault_here(typed, i as int, total);
                                            }
                                        }
                                        r?;
                                        valid = false;
                                    }
                                },
                                None => {},
                            }
                            c = c + 1;
                        }
                        proof {
                            if old(self).strict {
                                lemma_first_bad(typed, component_buffer@, c as int);
                            }
                        }
                        let component_ids = component_buffer;
                        component_buffer = Vec::new();
                        if valid {
                            let ghost k = i as int;
                            let code = (model.composite_curve_definitions.len() + 1) as i64;
                            model.composite_curve_definitions.push(
                                SfcCompositeCurveDefinition { code, entity_id: item.id, component_ids },
                            );
                            assert(typed[k].id == model.composite_curve_definitions@.last().entity_id);
                            proof {
                                lemma_model_grows(m_before, model, names_before);
                                assert(curve_lists(model) =~= curve_lists(m_before).push(buf));
                                g = lemma_step_take(typed, m_before, buf, g, model, 3);
                            }
                        } else {
                            proof {
                                g = lemma_step_clear(typed, m_before, buf, g);
                            }
                        }
                    }
                },
                TypedFeature::DrawingSheet(_) => {
                    if model.sheet.is_some() {
                        let mut m = string_from_str("SFC contains more than one drawing sheet (#");
                        push_int(&mut m, item.id);
                        push_str(&mut m, ")");
                        let r = self.issue_or_error("sfc-duplicate-drawing-sheet", m);
                        proof {
                            if old(self).strict {
                                lemma_fault_here(typed, i as int, total);
                            }
                        }
                        r?;
                        component_buffer = Vec::new();
                        proof {
                            g = lemma_step_clear(typed, m_before, buf, g);
                        }
                    } else {
                        let ghost k = i as int;
                        let component_ids = component_buffer;
                        component_buffer = Vec::new();
                        model.sheet = Some(SfcSheetModel { entity_id: item.id, component_ids });
                        assert(typed[k].id == item.id);
                        assert(sheet_from(typed, model));
                        seen_sheet = true;
                        proof {
                            lemma_definitions_kept(typed, m_before, model);
                            g = lemma_step_take(typed, m_before, buf, g, model, 0);
                        }
                    }
                },
                _ => {
                    if item.feature.requires_pre_sheet_order() && !seen_sheet {
                        proof {
                            if old(self).strict {
                                assert((|n: Seq<char>| name_known(names@, n)) =~= (|n: Seq<char>| org_name_before(typed, i as int, n)));
                            }
                        }
                        let r = self.place_feature(document, item, &mut model, &names, &mut component_buffer);
                        proof {
                            if old(self).strict && r is Err {
                                lemma_fault_here(typed, i as int, total);
                            }
                        }
                        r?;
                        proof {
                            lemma_definitions_kept(typed, m_before, model);
                            assert(attachment_lists(model) =~= attachment_lists(m_before));
                            lemma_step_same(typed, m_before, model, buf, g);
                            g = lemma_step_advance(typed, model, buf, g, component_buffer@.len() > buf.len());
                            advanced = true;
                        }
                    }
                },
            }
            proof {
                if !advanced {
                    g = lemma_step_advance(typed, model, component_buffer@, g, false);
                }
                lemma_org_name_step(typed, i as int);
                assert(sheet_before(typed, i + 1) == (sheet_before(typed, i as int) || typed[i as int].feature is DrawingSheet)) by {
                    if sheet_before(typed, i + 1) && !sheet_before(typed, i as int) {
                        let p = choose|p: int| 0 <= p < i + 1 && (#[trigger] typed[p]).feature is DrawingSheet;
                        assert(p == i);
                    }
                    if typed[i as int].feature is DrawingSheet {
                        assert(typed[i as int].feature is DrawingSheet);
                    }
                }
            }
            i = i + 1;
        }
        proof {
            if distinct_ids(typed) {
                lemma_components_unique(typed, model, component_buffer@, g);
                if model.sheet is Some {
                    assert(component_buffer@ =~= Seq::<i64>::empty());
                    lemma_membership(typed, model, g);
                }
            }
        }
        Ok(model)
    }

    /// A placement joins its composite figure (or attribute attachment), a
    /// hatch is tied to its composite curves, and the feature joins the
    /// components waiting for the next container.
    fn place_feature(
        &mut self,
        document: &ParsedDocument,
        item: &TypedFeatureInstance,
        model: &mut SfcModel,
        names: &Vec<SfigName>,
        component_buffer: &mut Vec<i64>,
    ) -> (r: Result<(), ParseError>)
        requires
            names_point_into(names@, *old(model)),
            references_resolve(*old(model)),
            curve_codes_consecutive(old(model).composite_curve_definitions@),
        ensures
            old(self).strict ==> (r is Err <==> place_fault(
                item.feature,
                item.id,
                |n: Seq<char>| name_known(names@, n),
                old(model).composite_curve_definitions@.len() as int,
            ) is Some),
            old(self).strict ==> (r matches Err(e) ==> old(self).error_here_is(
                e,
                place_fault(
                    item.feature,
                    item.id,
                    |n: Seq<char>| name_known(names@, n),
                    old(model).composite_curve_definitions@.len() as int,
                )->0,
            )),
            old(self).same_source(&*final(self)),
            final(self).index == old(self).index,
            final(self).line == old(self).line,
            final(self).column == old(self).column,
            old(self).keeps_warnings(&*final(self)),
            old(self).quiet_if_strict(&*final(self)),
            !old(self).strict ==> r is Ok,
            final(model).code_tables == old(model).code_tables,
            final(model).sheet == old(model).sheet,
            final(model).sfig_definitions == old(model).sfig_definitions,
            final(model).composite_curve_definitions == old(model).composite_curve_definitions,
            final(model).attribute_attachments@.len() == old(model).attribute_attachments@.len(),
            forall|a: int|
                0 <= a < old(model).attribute_attachments@.len() ==> {
                    let x = #[trigger] final(model).attribute_attachments@[a];
                    let y = old(model).attribute_attachments@[a];
                    x.definition_id == y.definition_id && x.name == y.name && x.mechanism == y.mechanism
                        && x.component_ids == y.component_ids
                },
            names_point_into(names@, *final(model)),
            references_resolve(*final(model)),
            final(component_buffer)@ == old(component_buffer)@ || final(component_buffer)@ == old(
                component_buffer,
            )@.push(item.id),
            old(self).strict && r is Ok ==> final(component_buffer)@ == old(component_buffer)@.push(
                item.id,
            ),
            old(self).strict && r is Ok ==> final(model).hatch_references@.len() == old(
                model,
            ).hatch_references@.len() + (if spec_hatch_codes(item.feature) is Some {
                1int
            } else {
                0int
            }),
            old(self).strict && r is Ok ==> placement_count(*final(model)) == placement_count(*old(model))
                + (if item.feature is SfigLocate {
                1int
            } else {
                0int
            }),
    {
        let ghost model0 = *model;
        match &item.feature {
            TypedFeature::SfigLocate(placement) => {
                match find_sfig_name(names, placement.name.as_str()) {
                    None => {
                        let mut m = string_from_str("Composite figure placement #");
                        push_int(&mut m, item.id);
                        push_str(&mut m, " references undefined or later definition ");
                        push_str(&mut m, debug_text_of(placement.name.as_str()).as_str());
                        assert(!name_known(names@, placement.name@));
                        return self.issue_or_error("sfc-sfig-reference", m);
                    },
                    Some(n) => {
                        assert(name_known(names@, placement.name@));
                        let definition_id = names[n].definition_id;
                        match names[n].attachment {
                            Some(a) => {
                                model.attribute_attachments[a].placement_ids.push(item.id);
                                proof {
                                    lemma_placements_bump(
                                        model0.attribute_attachments@,
                                        model.attribute_attachments@,
                                        a as int,
                                    );
                                }
                            },
                            None => {
                                model.sfig_references.push(
                                    SfcSfigReference { placement_id: item.id, definition_id },
                                );
                            },
                        }
                    },
                }
            },
            _ => {},
        }
        match hatch_composite_curve_codes(&item.feature) {
            Some((out_id, in_ids)) => {
                let outer_definition_id = match resolve_composite_curve_definition(
                    model.composite_curve_definitions.as_slice(),
                    out_id,
                ) {
                    Some(outer) => {
                        proof {
                            let w = choose|w: int|
                                0 <= w < model0.composite_curve_definitions@.len()
                                    && model0.composite_curve_definitions@[w] == *outer && outer.code == out_id
                                    && forall|j: int| 0 <= j < w ==> #[trigger] model0.composite_curve_definitions@[j].code != out_id;
                            assert(model0.composite_curve_definitions@[w].code == w + 1);
                        }
                        outer.entity_id
                    },
                    None => {
                        proof {
                            if 1 <= out_id <= model0.composite_curve_definitions@.len() {
                                assert(model0.composite_curve_definitions@[out_id - 1].code == out_id);
                            }
                        }
                        let mut m = string_from_str("Hatch #");
                        push_int(&mut m, item.id);
                        push_str(&mut m, " references undefined or later outer composite curve code ");
                        push_int(&mut m, out_id);
                        return self.issue_or_error("sfc-hatch-reference", m);
                    },
                };
                let mut inner_definition_ids: Vec<i64> = Vec::new();
                let mut all_inner_resolved = true;
                let mut j: usize = 0;
                while j < in_ids.len()
                    invariant
                        old(self).same_source(&*self),
                        self.index == old(self).index,
                        self.line == old(self).line,
                        self.column == old(self).column,
                        old(self).keeps_warnings(&*self),
                        old(self).quiet_if_strict(&*self),
                        j <= in_ids@.len(),
                        model.code_tables == old(model).code_tables,
                        model.sheet == old(model).sheet,
                        model.sfig_definitions == old(model).sfig_definitions,
                        model.composite_curve_definitions == old(model).composite_curve_definitions,
                        model.attribute_attachments@.len() == old(model).attribute_attachments@.len(),
                        forall|a: int|
                            0 <= a < old(model).attribute_attachments@.len() ==> {
                                let x = #[trigger] model.attribute_attachments@[a];
                                let y = old(model).attribute_attachments@[a];
                                x.definition_id == y.definition_id && x.name == y.name && x.mechanism
                                    == y.mechanism && x.component_ids == y.component_ids
                            },
                        component_buffer@ == old(component_buffer)@,
                        old(self).strict ==> all_inner_resolved,
                        names_point_into(names@, *model),
                        references_resolve(*model),
                        forall|q: int|
                            0 <= q < inner_definition_ids@.len() ==> is_curve_def_id(
                                model.composite_curve_definitions@,
                                #[trigger] inner_definition_ids@[q],
                            ),
                        model0 == *old(model),
                        curve_codes_consecutive(model0.composite_curve_definitions@),
                        old(self).strict ==> forall|q: int|
                            0 <= q < j ==> 1 <= #[trigger] in_ids@[q] <= model0.composite_curve_definitions@.len(),
                        spec_hatch_codes(item.feature) == Some((out_id, in_ids@)),
                        1 <= out_id <= model0.composite_curve_definitions@.len(),
                    decreases in_ids@.len() - j,
                {
                    let code = in_ids[j];
                    match resolve_composite_curve_definition(
                        model.composite_curve_definitions.as_slice(),
                        code,
                    ) {
                        Some(definition) => {
                            proof {
                                let w = choose|w: int|
                                    0 <= w < model0.composite_curve_definitions@.len()
                                        && model0.composite_curve_definitions@[w] == *definition && definition.code == code
                                        && forall|jj: int| 0 <= jj < w ==> #[trigger] model0.composite_curve_definitions@[jj].code != code;
                                assert(model0.composite_curve_definitions@[w].code == w + 1);
                            }
                            inner_definition_ids.push(definition.entity_id);
                        },
                        None => {
                            proof {
                                if 1 <= code <= model0.composite_curve_definitions@.len() {
                                    assert(model0.composite_curve_definitions@[code - 1].code == code);
                                }
                                if old(self).strict {
                                    lemma_first_unknown(in_ids@, model0.composite_curve_definitions@.len() as int, j as int);
                                }
                            }
                            let mut m = string_from_str("Hatch #");
                            push_int(&mut m, item.id);
                            push_str(
                                &mut m,
                                " references undefined or later inner composite curve code ",
                            );
                            push_int(&mut m, code);
                            self.issue_or_error("sfc-hatch-reference", m)?;
                            all_inner_resolved = false;
                        },
                    }
                    j = j + 1;
                }
                proof {
                    if old(self).strict {
                        lemma_first_unknown(in_ids@, model0.composite_curve_definitions@.len() as int, j as int);
                    }
                }
                if !all_inner_resolved {
                    return Ok(());
                }
                model.hatch_references.push(
                    SfcHatchReference { hatch_id: item.id, outer_definition_id, inner_definition_ids },
                );
            },
            None => {},
        }
        component_buffer.push(item.id);
        Ok(())
    }
}

/// A placement at the origin, unrotated and unscaled.
pub open spec fn identity_placement(p: SfigLocateFeature) -> bool {
    &&& dec_order(p.position.x, 0, 0) == 0
    &&& dec_order(p.position.y, 0, 0) == 0
    &&& dec_order(p.angle_deg, 0, 0) == 0
    &&& dec_order(p.ratio_x, 1, 0) == 0
    &&& dec_order(p.ratio_y, 1, 0) == 0
}

/// The decimal `d` is exactly one.
pub open spec fn decimal_is_one(d: Decimal) -> bool {
    if d.exponent >= 0 {
        d.mantissa * pow10(d.exponent as nat) == 1
    } else {
        d.mantissa == pow10((-d.exponent) as nat)
    }
}

proof fn lemma_dec_order_zero(d: Decimal)
    ensures
        dec_order(d, 0, 0) == 0 <==> d.mantissa == 0,
{
    if d.exponent >= 0 {
        lemma_pow10_pos(d.exponent as nat);
        if d.mantissa != 0 {
            assert(d.mantissa * pow10(d.exponent as nat) != 0) by (nonlinear_arith)
                requires
                    d.mantissa != 0,
                    pow10(d.exponent as nat) >= 1,
            ;
        }
    }
}

/// A placement is the identity exactly when its position is (0,0), its
/// angle 0 and both scales 1: a rotated, moved or scaled placement is not.
pub proof fn lemma_identity_placement(p: SfigLocateFeature)
    ensures
        identity_placement(p) <==> p.position.x.mantissa == 0 && p.position.y.mantissa == 0
            && p.angle_deg.mantissa == 0 && decimal_is_one(p.ratio_x) && decimal_is_one(p.ratio_y),
        p.angle_deg.mantissa != 0 ==> !identity_placement(p),
{
    lemma_dec_order_zero(p.position.x);
    lemma_dec_order_zero(p.position.y);
    lemma_dec_order_zero(p.angle_deg);
}

pub fn is_identity_placement(p: &SfigLocateFeature) -> (b: bool)
    ensures
        b == identity_placement(*p),
{
    compare_decimal(p.position.x, 0, 0) == 0 && compare_decimal(p.position.y, 0, 0) == 0
        && compare_decimal(p.angle_deg, 0, 0) == 0 && compare_decimal(p.ratio_x, 1, 0) == 0
        && compare_decimal(p.ratio_y, 1, 0) == 0
}

/// The kind flag of the last composite-figure definition holding `id`.
pub open spec fn owner_in_definitions(defs: Seq<SfcSfigDefinition>, id: i64) -> Option<int>
    decreases defs.len(),
{
    if defs.len() == 0 {
        None
    } else if defs.last().component_ids@.contains(id) {
        Some(defs.last().kind_flag as int)
    } else {
        owner_in_definitions(defs.drop_last(), id)
    }
}

/// The container of a component: `0` for an attribute attachment, the kind
/// flag of a composite figure, `-1` for the drawing sheet.
pub open spec fn owner_of(m: SfcModel, id: i64) -> Option<int> {
    if exists|a: int|
        0 <= a < m.attribute_attachments@.len()
            && (#[trigger] m.attribute_attachments@[a]).component_ids@.contains(id) {
        Some(0)
    } else if owner_in_definitions(m.sfig_definitions@, id) is Some {
        owner_in_definitions(m.sfig_definitions@, id)
    } else if m.sheet matches Some(s) && s.component_ids@.contains(id) {
        Some(-1)
    } else {
        None
    }
}

/// Where a composite figure of `kind` may be placed.
pub open spec fn valid_parent(kind: int, owner: Option<int>) -> bool {
    if kind == 1 || kind == 2 {
        owner == Some(-1int)
    } else if kind == 3 {
        owner matches Some(o) && -1 <= o <= 3
    } else if kind == 4 {
        owner matches Some(o) && -1 <= o <= 4
    } else {
        false
    }
}

fn vec_contains(v: &Vec<i64>, x: i64) -> (b: bool)
    ensures
        b == v@.contains(x),
{
    let mut i: usize = 0;
    while i < v.len()
        invariant
            i <= v@.len(),
            forall|j: int| 0 <= j < i ==> v@[j] != x,
        decreases v@.len() - i,
    {
        if v[i] == x {
            assert(v@[i as int] == x);
            return true;
        }
        i = i + 1;
    }
    false
}

/// Computes `owner_of`.
pub fn component_owner(model: &SfcModel, id: i64) -> (r: Option<i64>)
    ensures
        match r {
            Some(o) => owner_of(*model, id) == Some(o as int),
            None => owner_of(*model, id) is None,
        },
{
    let mut a: usize = 0;
    while a < model.attribute_attachments.len()
        invariant
            a <= model.attribute_attachments@.len(),
            forall|j: int|
                0 <= j < a ==> !(#[trigger] model.attribute_attachments@[j]).component_ids@.contains(id),
        decreases model.attribute_attachments@.len() - a,
    {
        if vec_contains(&model.attribute_attachments[a].component_ids, id) {
            return Some(0);
        }
        a = a + 1;
    }
    let ghost defs = model.sfig_definitions@;
    let mut d: usize = model.sfig_definitions.len();
    assert(defs.subrange(0, d as int) =~= defs);
    while d > 0
        invariant
            d <= defs.len(),
            defs == model.sfig_definitions@,
            forall|j: int|
                0 <= j < model.attribute_attachments@.len() ==> !(
                #[trigger] model.attribute_attachments@[j]).component_ids@.contains(id),
            owner_in_definitions(defs, id) == owner_in_definitions(defs.subrange(0, d as int), id),
        decreases d,
    {
        assert(defs.subrange(0, d as int).drop_last() =~= defs.subrange(0, d - 1));
        if vec_contains(&model.sfig_definitions[d - 1].component_ids, id) {
            return Some(model.sfig_definitions[d - 1].kind_flag);
        }
        d = d - 1;
    }
    match &model.sheet {
        Some(s) => if vec_contains(&s.component_ids, id) {
            Some(-1)
        } else {
            None
        },
        None => None,
    }
}

/// The typed feature `id` is a placement away from the identity transform.
pub open spec fn moved_placement(typed: Seq<TypedFeatureInstance>, id: i64) -> bool {
    feature_by_id(typed, id) matches Some(TypedFeature::SfigLocate(p)) && !identity_placement(p)
}

/// Some placement of definition `d` breaks the hierarchy or, for a drawing
/// group, is not at the identity transform.
pub open spec fn placement_violation(
    typed: Seq<TypedFeatureInstance>,
    m: SfcModel,
    def: SfcSfigDefinition,
    r: SfcSfigReference,
) -> bool {
    r.definition_id == def.entity_id && (!valid_parent(
        def.kind_flag as int,
        owner_of(m, r.placement_id),
    ) || (def.kind_flag == 3 && moved_placement(typed, r.placement_id)))
}

/// Definition `def` is unused, placed too often, or badly placed.
pub open spec fn definition_violation(
    typed: Seq<TypedFeatureInstance>,
    m: SfcModel,
    def: SfcSfigDefinition,
) -> bool {
    let refs = m.sfig_references@;
    ||| forall|r: int| 0 <= r < refs.len() ==> (#[trigger] refs[r]).definition_id != def.entity_id
    ||| (def.kind_flag != 4 && exists|r1: int, r2: int|
        0 <= r1 < r2 < refs.len() && (#[trigger] refs[r1]).definition_id == def.entity_id && (
        #[trigger] refs[r2]).definition_id == def.entity_id)
    ||| exists|r: int| 0 <= r < refs.len() && placement_violation(typed, m, def, #[trigger] refs[r])
}

pub open spec fn hierarchy_violation(typed: Seq<TypedFeatureInstance>, m: SfcModel) -> bool {
    exists|d: int|
        0 <= d < m.sfig_definitions@.len() && definition_violation(
            typed,
            m,
            #[trigger] m.sfig_definitions@[d],
        )
}

/// Reports into `self` (strict: fails) with `code` when `bad`.
pub open spec fn reported(old_p: Parser, new_p: Parser, r: Result<(), ParseError>, bad: bool) -> bool {
    &&& old_p.same_source(&new_p)
    &&& new_p.index == old_p.index
    &&& new_p.line == old_p.line
    &&& new_p.column == old_p.column
    &&& old_p.keeps_warnings(&new_p)
    &&& old_p.quiet_if_strict(&new_p)
    &&& (r is Err <==> old_p.strict && bad)
    &&& (!old_p.strict ==> (bad <==> new_p.warnings@.len() > old_p.warnings@.len()))
}

/// Raising issues reports a violation exactly when there is one to raise.
pub proof fn lemma_raises_reported(
    old_p: Parser,
    new_p: Parser,
    r: Result<(), ParseError>,
    issues: Seq<(Seq<char>, Seq<char>)>,
    bad: bool,
)
    requires
        raises(old_p, new_p, r, issues),
        bad == (issues.len() > 0),
    ensures
        reported(old_p, new_p, r, bad),
{
}

/// How many placement references point at definition `did`.
pub open spec fn uses_of(refs: Seq<SfcSfigReference>, did: i64) -> nat
    decreases refs.len(),
{
    if refs.len() == 0 {
        0
    } else {
        uses_of(refs.drop_last(), did) + if refs.last().definition_id == did {
            1nat
        } else {
            0nat
        }
    }
}

/// The warnings a placement reference raises for definition `def`: a
/// container its kind does not allow, then a drawing group moved away from
/// the identity transform.
pub open spec fn reference_issues(
    typed: Seq<TypedFeatureInstance>,
    m: SfcModel,
    def: SfcSfigDefinition,
    r: SfcSfigReference,
) -> Seq<(Seq<char>, Seq<char>)> {
    if r.definition_id == def.entity_id {
        (if !valid_parent(def.kind_flag as int, owner_of(m, r.placement_id)) {
            seq![
                (
                    "sfc-sfig-hierarchy"@,
                    "Placement #"@ + int_text(r.placement_id as int) + " of composite figure #"@ + int_text(
                        def.entity_id as int,
                    ) + " kind "@ + int_text(def.kind_flag as int) + " has an invalid parent container"@,
                ),
            ]
        } else {
            Seq::empty()
        }) + (if def.kind_flag == 3 && moved_placement(typed, r.placement_id) {
            seq![
                (
                    "sfc-drawing-group-transform"@,
                    "Drawing-group placement #"@ + int_text(r.placement_id as int)
                        + " must use position (0,0), angle 0 and scale (1,1)"@,
                ),
            ]
        } else {
            Seq::empty()
        })
    } else {
        Seq::empty()
    }
}

/// The warnings the placement references `refs` raise for `def`, in order.
pub open spec fn placements_issues(
    typed: Seq<TypedFeatureInstance>,
    m: SfcModel,
    def: SfcSfigDefinition,
    refs: Seq<SfcSfigReference>,
) -> Seq<(Seq<char>, Seq<char>)>
    decreases refs.len(),
{
    if refs.len() == 0 {
        Seq::empty()
    } else {
        reference_issues(typed, m, def, refs[0]) + placements_issues(typed, m, def, refs.drop_first())
    }
}

/// The warnings definition `def` raises: unused, placed more than once
/// (kinds 1 to 3), then those of its placements.
pub open spec fn definition_issues(typed: Seq<TypedFeatureInstance>, m: SfcModel, def: SfcSfigDefinition) -> Seq<
    (Seq<char>, Seq<char>),
> {
    let n = uses_of(m.sfig_references@, def.entity_id);
    (if n == 0 {
        seq![
            (
                "sfc-unused-sfig-definition"@,
                "Composite figure definition #"@ + int_text(def.entity_id as int) + " is not used by a placement"@,
            ),
        ]
    } else {
        Seq::empty()
    }) + (if def.kind_flag != 4 && n > 1 {
        seq![
            (
                "sfc-sfig-placement-count"@,
                "Composite figure definition #"@ + int_text(def.entity_id as int) + " of kind "@ + int_text(
                    def.kind_flag as int,
                ) + " may be placed only once, got "@ + nat_text(n) + " placements"@,
            ),
        ]
    } else {
        Seq::empty()
    }) + placements_issues(typed, m, def, m.sfig_references@)
}

/// The warnings of the definitions from `d` on, in order.
pub open spec fn hierarchy_issues_from(typed: Seq<TypedFeatureInstance>, m: SfcModel, d: int) -> Seq<
    (Seq<char>, Seq<char>),
>
    decreases m.sfig_definitions@.len() - d,
{
    if d < 0 || d >= m.sfig_definitions@.len() {
        Seq::empty()
    } else {
        definition_issues(typed, m, m.sfig_definitions@[d]) + hierarchy_issues_from(typed, m, d + 1)
    }
}

/// The warnings the composite-figure checks raise, definition by definition.
pub open spec fn hierarchy_issues(typed: Seq<TypedFeatureInstance>, m: SfcModel) -> Seq<(Seq<char>, Seq<char>)> {
    hierarchy_issues_from(typed, m, 0)
}

proof fn lemma_placements_issues_step(
    typed: Seq<TypedFeatureInstance>,
    m: SfcModel,
    def: SfcSfigDefinition,
    refs: Seq<SfcSfigReference>,
    q: int,
)
    requires
        0 <= q < refs.len(),
    ensures
        placements_issues(typed, m, def, refs.subrange(q, refs.len() as int)) == reference_issues(
            typed,
            m,
            def,
            refs[q],
        ) + placements_issues(typed, m, def, refs.subrange(q + 1, refs.len() as int)),
{
    assert(refs.subrange(q, refs.len() as int).drop_first() =~= refs.subrange(q + 1, refs.len() as int));
}

impl Parser {
    /// Checks how composite figures are used: each definition is placed,
    /// kinds 1 to 3 at most once, in a container its kind allows, and
    /// drawing groups without a transform.
    #[verifier::rlimit(60)]
    pub fn check_sfig_hierarchy(&mut self, typed: &[TypedFeatureInstance], model: &SfcModel) -> (r:
        Result<(), ParseError>)
        ensures
            reported(*old(self), *final(self), r, hierarchy_violation(typed@, *model)),
            raises(*old(self), *final(self), r, hierarchy_issues(typed@, *model)),
    {
        let ghost m = *model;
        let ghost refs = model.sfig_references@;
        let ghost start = *self;
        let ghost total = hierarchy_issues(typed@, m);
        let ghost mut done = Seq::<(Seq<char>, Seq<char>)>::empty();
        assert(done + total =~= total);
        let mut d: usize = 0;
        while d < model.sfig_definitions.len()
            invariant
                d <= m.sfig_definitions@.len(),
                m == *model,
                refs == model.sfig_references@,
                old(self).same_source(&*self),
                self.index == old(self).index,
                self.line == old(self).line,
                self.column == old(self).column,
                old(self).keeps_warnings(&*self),
                old(self).quiet_if_strict(&*self),
                old(self).strict ==> forall|j: int|
                    0 <= j < d ==> !definition_violation(typed@, m, #[trigger] m.sfig_definitions@[j]),
                !old(self).strict ==> ((exists|j: int|
                    0 <= j < d && definition_violation(typed@, m, #[trigger] m.sfig_definitions@[j]))
                    <==> self.warnings@.len() > old(self).warnings@.len()),
                start == *old(self),
                total == hierarchy_issues(typed@, m),
                recorded(start, *self, done),
                total == done + hierarchy_issues_from(typed@, m, d as int),
            decreases m.sfig_definitions@.len() - d,
        {
            let definition = &model.sfig_definitions[d];
            let ghost before = self.warnings@.len();
            let ghost def = m.sfig_definitions@[d as int];
            let ghost rest_after = hierarchy_issues_from(typed@, m, d + 1);
            let ghost p_all = placements_issues(typed@, m, def, refs);
            let mut count: usize = 0;
            let mut r: usize = 0;
            while r < model.sfig_references.len()
                invariant
                    r <= refs.len(),
                    refs == model.sfig_references@,
                    count <= r,
                    count == 0 <==> forall|q: int|
                        0 <= q < r ==> (#[trigger] refs[q]).definition_id != definition.entity_id,
                    count >= 2 <==> exists|q1: int, q2: int|
                        0 <= q1 < q2 < r && (#[trigger] refs[q1]).definition_id == definition.entity_id && (
                        #[trigger] refs[q2]).definition_id == definition.entity_id,
                    count == 1 ==> exists|q: int|
                        0 <= q < r && (#[trigger] refs[q]).definition_id == definition.entity_id,
                    count == uses_of(refs.subrange(0, r as int), definition.entity_id),
                decreases refs.len() - r,
            {
                assert(refs.subrange(0, r + 1).drop_last() =~= refs.subrange(0, r as int));
                if model.sfig_references[r].definition_id == definition.entity_id {
                    if count == 1 {
                        let ghost q1 = choose|q: int|
                            0 <= q < r && (#[trigger] refs[q]).definition_id == definition.entity_id;
                        assert(refs[q1].definition_id == definition.entity_id && refs[r as int].definition_id
                            == definition.entity_id);
                    }
                    count = count + 1;
                }
                r = r + 1;
            }
            assert(refs.subrange(0, r as int) =~= refs);
            let ghost unused = count == 0;
            let ghost overplaced = definition.kind_flag != 4 && count > 1;
            let ghost now1 = if count == 0 {
                seq![
                    (
                        "sfc-unused-sfig-definition"@,
                        "Composite figure definition #"@ + int_text(def.entity_id as int) + " is not used by a placement"@,
                    ),
                ]
            } else {
                Seq::<(Seq<char>, Seq<char>)>::empty()
            };
            let ghost now2 = if definition.kind_flag != 4 && count > 1 {
                seq![
                    (
                        "sfc-sfig-placement-count"@,
                        "Composite figure definition #"@ + int_text(def.entity_id as int) + " of kind "@ + int_text(
                            def.kind_flag as int,
                        ) + " may be placed only once, got "@ + nat_text(count as nat) + " placements"@,
                    ),
                ]
            } else {
                Seq::<(Seq<char>, Seq<char>)>::empty()
            };
            proof {
                assert(definition_issues(typed@, m, def) == now1 + now2 + p_all);
                assert(total == done + (now1 + (now2 + (p_all + rest_after))));
            }
            if count == 0 {
                let mut msg = string_from_str("Composite figure definition #");
                push_int(&mut msg, definition.entity_id);
                push_str(&mut msg, " is not used by a placement");
                let ghost at = *self;
                let r = self.issue_or_error("sfc-unused-sfig-definition", msg);
                proof {
                    lemma_raises_step(start, at, *self, r, done, now1, now2 + (p_all + rest_after), total);
                    if r is Ok {
                        done = done + now1;
                    }
                }
                r?;
            } else {
                assert(done + now1 =~= done);
            }
            if definition.kind_flag != 4 && count > 1 {
                let mut msg = string_from_str("Composite figure definition #");
                push_int(&mut msg, definition.entity_id);
                push_str(&mut msg, " of kind ");
                push_int(&mut msg, definition.kind_flag);
                push_str(&mut msg, " may be placed only once, got ");
                push_usize(&mut msg, count);
                push_str(&mut msg, " placements");
                let ghost at = *self;
                let r = self.issue_or_error("sfc-sfig-placement-count", msg);
                proof {
                    lemma_raises_step(start, at, *self, r, done, now2, p_all + rest_after, total);
                    if r is Ok {
                        done = done + now2;
                    }
                }
                r?;
            } else {
                assert(done + now2 =~= done);
            }
            assert(refs.subrange(0, refs.len() as int) =~= refs);
            let ghost mid = self.warnings@.len();
            let mut q: usize = 0;
            while q < model.sfig_references.len()
                invariant
                    q <= refs.len(),
                    refs == model.sfig_references@,
                    m == *model,
                    d < m.sfig_definitions@.len(),
                    *definition == m.sfig_definitions@[d as int],
                    old(self).same_source(&*self),
                    self.index == old(self).index,
                    self.line == old(self).line,
                    self.column == old(self).column,
                    old(self).keeps_warnings(&*self),
                    old(self).quiet_if_strict(&*self),
                    self.warnings@.len() >= mid,
                    old(self).strict ==> forall|j: int|
                        0 <= j < q ==> !placement_violation(typed@, m, *definition, #[trigger] refs[j]),
                    !old(self).strict ==> ((exists|j: int|
                        0 <= j < q && placement_violation(typed@, m, *definition, #[trigger] refs[j]))
                        <==> self.warnings@.len() > mid),
                    start == *old(self),
                    def == m.sfig_definitions@[d as int],
                    total == hierarchy_issues(typed@, m),
                    recorded(start, *self, done),
                    total == done + (placements_issues(typed@, m, def, refs.subrange(q as int, refs.len() as int))
                        + rest_after),
                    rest_after == hierarchy_issues_from(typed@, m, d + 1),
                decreases refs.len() - q,
            {
                let reference = &model.sfig_references[q];
                let ghost rest_refs = placements_issues(typed@, m, def, refs.subrange(q + 1, refs.len() as int));
                proof {
                    lemma_placements_issues_step(typed@, m, def, refs, q as int);
                }
                if reference.definition_id != definition.entity_id {
                    assert(reference_issues(typed@, m, def, refs[q as int]) =~= Seq::<(Seq<char>, Seq<char>)>::empty());
                    assert(total == done + (rest_refs + rest_after));
                }
                if reference.definition_id == definition.entity_id {
                    let owner = component_owner(model, reference.placement_id);
                    let kind = definition.kind_flag;
                    let valid = if kind == 1 || kind == 2 {
                        owner == Some(-1i64)
                    } else if kind == 3 {
                        match owner {
                            Some(o) => -1 <= o && o <= 3,
                            None => false,
                        }
                    } else if kind == 4 {
                        match owner {
                            Some(o) => -1 <= o && o <= 4,
                            None => false,
                        }
                    } else {
                        false
                    };
                    assert(valid == valid_parent(def.kind_flag as int, owner_of(m, refs[q as int].placement_id)));
                    let ghost pid = refs[q as int].placement_id;
                    let ghost now3 = if !valid {
                        seq![
                            (
                                "sfc-sfig-hierarchy"@,
                                "Placement #"@ + int_text(pid as int) + " of composite figure #"@ + int_text(
                                    def.entity_id as int,
                                ) + " kind "@ + int_text(def.kind_flag as int) + " has an invalid parent container"@,
                            ),
                        ]
                    } else {
                        Seq::<(Seq<char>, Seq<char>)>::empty()
                    };
                    let ghost now4 = if def.kind_flag == 3 && moved_placement(typed@, pid) {
                        seq![
                            (
                                "sfc-drawing-group-transform"@,
                                "Drawing-group placement #"@ + int_text(pid as int)
                                    + " must use position (0,0), angle 0 and scale (1,1)"@,
                            ),
                        ]
                    } else {
                        Seq::<(Seq<char>, Seq<char>)>::empty()
                    };
                    assert(reference_issues(typed@, m, def, refs[q as int]) == now3 + now4);
                    assert(total == done + (now3 + (now4 + (rest_refs + rest_after))));
                    if !valid {
                        assert(placement_violation(typed@, m, *definition, refs[q as int]));
                        assert(definition_violation(typed@, m, m.sfig_definitions@[d as int]));
                        let mut msg = string_from_str("Placement #");
                        push_int(&mut msg, reference.placement_id);
                        push_str(&mut msg, " of composite figure #");
                        push_int(&mut msg, definition.entity_id);
                        push_str(&mut msg, " kind ");
                        push_int(&mut msg, kind);
                        push_str(&mut msg, " has an invalid parent container");
                        let ghost at = *self;
                        let r = self.issue_or_error("sfc-sfig-hierarchy", msg);
                        proof {
                            lemma_raises_step(start, at, *self, r, done, now3, now4 + (rest_refs + rest_after), total);
                            if r is Ok {
                                done = done + now3;
                            }
                        }
                        r?;
                    } else {
                        assert(done + now3 =~= done);
                    }
                    let mut moved = false;
                    if kind == 3 {
                        match typed_by_id(typed, reference.placement_id) {
                            Some(TypedFeature::SfigLocate(placement)) => {
                                if !is_identity_placement(placement) {
                                    assert(placement_violation(typed@, m, *definition, refs[q as int]));
                                    assert(definition_violation(
                                        typed@,
                                        m,
                                        m.sfig_definitions@[d as int],
                                    ));
                                    moved = true;
                                    let mut msg = string_from_str("Drawing-group placement #");
                                    push_int(&mut msg, reference.placement_id);
                                    push_str(
                                        &mut msg,
                                        " must use position (0,0), angle 0 and scale (1,1)",
                                    );
                                    let ghost at = *self;
                                    let r = self.issue_or_error("sfc-drawing-group-transform", msg);
                                    proof {
                                        lemma_raises_step(start, at, *self, r, done, now4, rest_refs + rest_after, total);
                                        if r is Ok {
                                            done = done + now4;
                                        }
                                    }
                                    r?;
                                }
                            },
                            _ => {},
                        }
                    }
                    if !moved {
                        assert(done + now4 =~= done);
                    }
                }
                q = q + 1;
            }
            proof {
                assert(refs.subrange(q as int, refs.len() as int) =~= Seq::<SfcSfigReference>::empty());
                assert(total == done + rest_after);
            }
            proof {
                if !old(self).strict {
                    assert(definition_violation(typed@, m, m.sfig_definitions@[d as int]) <==> (
                    self.warnings@.len() > before));
                }
            }
            d = d + 1;
        }
        proof {
            assert(done + Seq::<(Seq<char>, Seq<char>)>::empty() =~= done);
            lemma_raises_done(start, *self, done);
        }
        Ok(())
    }
}

/// The definition the first placement reference of `target` points at.
pub open spec fn first_ref_definition(refs: Seq<SfcSfigReference>, target: i64) -> Option<i64>
    decreases refs.len(),
{
    if refs.len() == 0 {
        None
    } else if refs[0].placement_id == target {
        Some(refs[0].definition_id)
    } else {
        first_ref_definition(refs.drop_first(), target)
    }
}

/// The kind flag of the first definition with entity id `id`.
pub open spec fn first_definition_kind(defs: Seq<SfcSfigDefinition>, id: i64) -> Option<int>
    decreases defs.len(),
{
    if defs.len() == 0 {
        None
    } else if defs[0].entity_id == id {
        Some(defs[0].kind_flag as int)
    } else {
        first_definition_kind(defs.drop_first(), id)
    }
}

/// The kind of the composite figure that placement `target` places.
pub open spec fn referenced_kind(m: SfcModel, target: i64) -> Option<int> {
    match first_ref_definition(m.sfig_references@, target) {
        Some(did) => first_definition_kind(m.sfig_definitions@, did),
        None => None,
    }
}

fn placed_kind(model: &SfcModel, target: i64) -> (r: Option<i64>)
    ensures
        match r {
            Some(k) => referenced_kind(*model, target) == Some(k as int),
            None => referenced_kind(*model, target) is None,
        },
{
    let ghost refs = model.sfig_references@;
    let mut i: usize = 0;
    assert(refs.subrange(0, refs.len() as int) =~= refs);
    while i < model.sfig_references.len()
        invariant
            i <= refs.len(),
            refs == model.sfig_references@,
            first_ref_definition(refs, target) == first_ref_definition(
                refs.subrange(i as int, refs.len() as int),
                target,
            ),
        decreases refs.len() - i,
    {
        assert(refs.subrange(i as int, refs.len() as int).drop_first() =~= refs.subrange(
            i + 1,
            refs.len() as int,
        ));
        if model.sfig_references[i].placement_id == target {
            let did = model.sfig_references[i].definition_id;
            assert(first_ref_definition(refs, target) == Some(did));
            let ghost defs = model.sfig_definitions@;
            let mut j: usize = 0;
            assert(defs.subrange(0, defs.len() as int) =~= defs);
            while j < model.sfig_definitions.len()
                invariant
                    j <= defs.len(),
                    defs == model.sfig_definitions@,
                    refs == model.sfig_references@,
                    first_ref_definition(refs, target) == Some(did),
                    first_definition_kind(defs, did) == first_definition_kind(
                        defs.subrange(j as int, defs.len() as int),
                        did,
                    ),
                decreases defs.len() - j,
            {
                assert(defs.subrange(j as int, defs.len() as int).drop_first() =~= defs.subrange(
                    j + 1,
                    defs.len() as int,
                ));
                if model.sfig_definitions[j].entity_id == did {
                    return Some(model.sfig_definitions[j].kind_flag);
                }
                j = j + 1;
            }
            return None;
        }
        i = i + 1;
    }
    None
}

/// An ATRS attachment must wrap exactly a text feature.
pub open spec fn text_target_missing(typed: Seq<TypedFeatureInstance>, a: SfcAttributeAttachment) -> bool {
    &&& a.mechanism is TextAttribute
    &&& !(a.component_ids@.len() > 0 && feature_by_id(typed, a.component_ids@[0]) is Some
        && feature_by_id(typed, a.component_ids@[0]).unwrap() is Text)
}

/// The attachment wraps a placement of a partial drawing or of another attachment.
pub open spec fn bad_placement_target(
    typed: Seq<TypedFeatureInstance>,
    m: SfcModel,
    a: SfcAttributeAttachment,
) -> bool {
    &&& a.component_ids@.len() > 0
    &&& feature_by_id(typed, a.component_ids@[0]) matches Some(TypedFeature::SfigLocate(_))
    &&& (referenced_kind(m, a.component_ids@[0]) == Some(1int) || referenced_kind(
        m,
        a.component_ids@[0],
    ) == Some(2int) || exists|z: int|
        0 <= z < m.attribute_attachments@.len() && (#[trigger] m.attribute_attachments@[z]).definition_id
            != a.definition_id && m.attribute_attachments@[z].placement_ids@.contains(a.component_ids@[0]))
}

/// Attachment `x` breaks one of the rules for attribute attachments.
pub open spec fn attachment_violation(typed: Seq<TypedFeatureInstance>, m: SfcModel, x: int) -> bool {
    let a = m.attribute_attachments@[x];
    ||| a.component_ids@.len() != 1
    ||| a.placement_ids@.len() != 1
    ||| exists|y: int|
        0 <= y < x && spec_figure_id((#[trigger] m.attribute_attachments@[y]).mechanism)
            == spec_figure_id(a.mechanism)
    ||| text_target_missing(typed, a)
    ||| bad_placement_target(typed, m, a)
    ||| exists|j: int| 0 <= j < a.placement_ids@.len() && moved_placement(typed, #[trigger] a.placement_ids@[j])
}

pub open spec fn attachments_violation(typed: Seq<TypedFeatureInstance>, m: SfcModel) -> bool {
    exists|x: int| 0 <= x < m.attribute_attachments@.len() && #[trigger] attachment_violation(typed, m, x)
}

/// The nearest attachment before `y` with figure identifier `fig`.
pub open spec fn last_figure_before(atts: Seq<SfcAttributeAttachment>, fig: Seq<char>, y: int) -> Option<int>
    decreases y,
{
    if y <= 0 {
        None
    } else if spec_figure_id(atts[y - 1].mechanism) == fig {
        Some(y - 1)
    } else {
        last_figure_before(atts, fig, y - 1)
    }
}

/// The warnings the attachment placements `pids` raise, one per placement
/// moved away from the identity transform.
pub open spec fn moved_issues(typed: Seq<TypedFeatureInstance>, pids: Seq<i64>) -> Seq<(Seq<char>, Seq<char>)>
    decreases pids.len(),
{
    if pids.len() == 0 {
        Seq::empty()
    } else {
        (if moved_placement(typed, pids[0]) {
            seq![
                (
                    "sfc-attribute-placement-transform"@,
                    "Attribute placement #"@ + int_text(pids[0] as int)
                        + " must use position (0,0), angle 0 and scale (1,1)"@,
                ),
            ]
        } else {
            Seq::empty()
        }) + moved_issues(typed, pids.drop_first())
    }
}

/// The warnings attachment `x` raises, in order: target count, placement
/// count, a figure identifier already used, an ATRS without a text target,
/// a partial drawing or wrapper as target, moved placements.
pub open spec fn attachment_issues(typed: Seq<TypedFeatureInstance>, m: SfcModel, x: int) -> Seq<
    (Seq<char>, Seq<char>),
> {
    let atts = m.attribute_attachments@;
    let a = atts[x];
    let fig = spec_figure_id(a.mechanism);
    let head = "Attribute attachment #"@ + int_text(a.definition_id as int);
    (if a.component_ids@.len() != 1 {
        seq![
            (
                "sfc-attribute-component-count"@,
                head + " must contain exactly one target feature, got "@ + nat_text(a.component_ids@.len()),
            ),
        ]
    } else {
        Seq::empty()
    }) + (if a.placement_ids@.len() != 1 {
        seq![
            (
                "sfc-attribute-placement-count"@,
                head + " must have exactly one paired placement, got "@ + nat_text(a.placement_ids@.len()),
            ),
        ]
    } else {
        Seq::empty()
    }) + (match last_figure_before(atts, fig, x) {
        Some(q) => seq![
            (
                "sfc-duplicate-attribute-figure-id"@,
                head + " repeats figure identifier "@ + debug_text(fig) + " from #"@ + int_text(
                    atts[q].definition_id as int,
                ),
            ),
        ],
        None => Seq::empty(),
    }) + (if text_target_missing(typed, a) {
        seq![
            (
                "sfc-atrs-target"@,
                "ATRS attribute attachment #"@ + int_text(a.definition_id as int) + " must target one text feature"@,
            ),
        ]
    } else {
        Seq::empty()
    }) + (if bad_placement_target(typed, m, a) {
        seq![
            (
                "sfc-attribute-target"@,
                head + " cannot target a partial drawing or another attribute wrapper"@,
            ),
        ]
    } else {
        Seq::empty()
    }) + moved_issues(typed, a.placement_ids@)
}

/// The warnings of the attachments from `x` on, in order.
pub open spec fn attachments_issues_from(typed: Seq<TypedFeatureInstance>, m: SfcModel, x: int) -> Seq<
    (Seq<char>, Seq<char>),
>
    decreases m.attribute_attachments@.len() - x,
{
    if x < 0 || x >= m.attribute_attachments@.len() {
        Seq::empty()
    } else {
        attachment_issues(typed, m, x) + attachments_issues_from(typed, m, x + 1)
    }
}

/// The warnings the attribute-attachment checks raise, attachment by attachment.
pub open spec fn attachments_issues(typed: Seq<TypedFeatureInstance>, m: SfcModel) -> Seq<(Seq<char>, Seq<char>)> {
    attachments_issues_from(typed, m, 0)
}

proof fn lemma_moved_issues_step(typed: Seq<TypedFeatureInstance>, pids: Seq<i64>, p: int)
    requires
        0 <= p < pids.len(),
    ensures
        moved_issues(typed, pids.subrange(p, pids.len() as int)) == (if moved_placement(typed, pids[p]) {
            seq![
                (
                    "sfc-attribute-placement-transform"@,
                    "Attribute placement #"@ + int_text(pids[p] as int)
                        + " must use position (0,0), angle 0 and scale (1,1)"@,
                ),
            ]
        } else {
            Seq::<(Seq<char>, Seq<char>)>::empty()
        }) + moved_issues(typed, pids.subrange(p + 1, pids.len() as int)),
{
    assert(pids.subrange(p, pids.len() as int).drop_first() =~= pids.subrange(p + 1, pids.len() as int));
}

impl Parser {
    /// Checks attribute attachment `x`.
    #[verifier::rlimit(100)]
    fn check_attachment(&mut self, typed: &[TypedFeatureInstance], model: &SfcModel, x: usize) -> (r: Result<
        (),
        ParseError,
    >)
        requires
            x < model.attribute_attachments@.len(),
        ensures
            reported(*old(self), *final(self), r, attachment_violation(typed@, *model, x as int)),
            raises(*old(self), *final(self), r, attachment_issues(typed@, *model, x as int)),
    {
        let ghost m = *model;
        let ghost atts = model.attribute_attachments@;
        let ghost start = *self;
        let ghost total = attachment_issues(typed@, m, x as int);
        let ghost mut done = Seq::<(Seq<char>, Seq<char>)>::empty();
        assert(done + total =~= total);
        let ghost before = self.warnings@.len();
        let attachment = &model.attribute_attachments[x];
        let ghost a = atts[x as int];
        let ghost fig = spec_figure_id(a.mechanism);
        let ghost head = "Attribute attachment #"@ + int_text(a.definition_id as int);
        let ghost n1 = if a.component_ids@.len() != 1 {
            seq![
                (
                    "sfc-attribute-component-count"@,
                    head + " must contain exactly one target feature, got "@ + nat_text(a.component_ids@.len()),
                ),
            ]
        } else {
            Seq::<(Seq<char>, Seq<char>)>::empty()
        };
        let ghost n2 = if a.placement_ids@.len() != 1 {
            seq![
                (
                    "sfc-attribute-placement-count"@,
                    head + " must have exactly one paired placement, got "@ + nat_text(a.placement_ids@.len()),
                ),
            ]
        } else {
            Seq::<(Seq<char>, Seq<char>)>::empty()
        };
        let ghost n3 = match last_figure_before(atts, fig, x as int) {
            Some(q) => seq![
                (
                    "sfc-duplicate-attribute-figure-id"@,
                    head + " repeats figure identifier "@ + debug_text(fig) + " from #"@ + int_text(
                        atts[q].definition_id as int,
                    ),
                ),
            ],
            None => Seq::<(Seq<char>, Seq<char>)>::empty(),
        };
        let ghost n4 = if text_target_missing(typed@, a) {
            seq![
                (
                    "sfc-atrs-target"@,
                    "ATRS attribute attachment #"@ + int_text(a.definition_id as int) + " must target one text feature"@,
                ),
            ]
        } else {
            Seq::<(Seq<char>, Seq<char>)>::empty()
        };
        let ghost n5 = if bad_placement_target(typed@, m, a) {
            seq![
                (
                    "sfc-attribute-target"@,
                    head + " cannot target a partial drawing or another attribute wrapper"@,
                ),
            ]
        } else {
            Seq::<(Seq<char>, Seq<char>)>::empty()
        };
        let ghost nm = moved_issues(typed@, a.placement_ids@);
        let ghost ra = Seq::<(Seq<char>, Seq<char>)>::empty();
        proof {
            assert(attachment_issues(typed@, m, x as int) == n1 + n2 + n3 + n4 + n5 + nm);
            assert(total == done + (n1 + (n2 + (n3 + (n4 + (n5 + (nm + ra)))))));
        }
        let mut found = false;
        if attachment.component_ids.len() != 1 {
            assert(attachment_violation(typed@, m, x as int));
            let mut msg = string_from_str("Attribute attachment #");
            push_int(&mut msg, attachment.definition_id);
            push_str(&mut msg, " must contain exactly one target feature, got ");
            push_usize(&mut msg, attachment.component_ids.len());
            let ghost at = *self;
            let r = self.issue_or_error("sfc-attribute-component-count", msg);
            proof {
                lemma_raises_step(start, at, *self, r, done, n1, n2 + (n3 + (n4 + (n5 + (nm + ra)))), total);
                if r is Ok {
                    done = done + n1;
                }
            }
            r?;
            found = true;
        } else {
            assert(n1 + (n2 + (n3 + (n4 + (n5 + (nm + ra))))) =~= n2 + (n3 + (n4 + (n5 + (nm + ra)))));
        }
        if attachment.placement_ids.len() != 1 {
            assert(attachment_violation(typed@, m, x as int));
            let mut msg = string_from_str("Attribute attachment #");
            push_int(&mut msg, attachment.definition_id);
            push_str(&mut msg, " must have exactly one paired placement, got ");
            push_usize(&mut msg, attachment.placement_ids.len());
            let ghost at = *self;
            let r = self.issue_or_error("sfc-attribute-placement-count", msg);
            proof {
                lemma_raises_step(start, at, *self, r, done, n2, n3 + (n4 + (n5 + (nm + ra))), total);
                if r is Ok {
                    done = done + n2;
                }
            }
            r?;
            found = true;
        } else {
            assert(n2 + (n3 + (n4 + (n5 + (nm + ra)))) =~= n3 + (n4 + (n5 + (nm + ra))));
        }
        let figure_id = sfc_attribute_figure_id(&attachment.mechanism);
        let mut y: usize = x;
        let mut previous: Option<i64> = None;
        while y > 0
            invariant_except_break
                previous is None,
            invariant
                y <= x,
                x < atts.len(),
                atts == model.attribute_attachments@,
                figure_id@ == spec_figure_id(atts[x as int].mechanism),
                forall|q: int|
                    y <= q < x ==> spec_figure_id((#[trigger] atts[q]).mechanism) != figure_id@,
                last_figure_before(atts, figure_id@, x as int) == last_figure_before(atts, figure_id@, y as int),
            ensures
                previous is Some ==> exists|q: int|
                    0 <= q < x && spec_figure_id((#[trigger] atts[q]).mechanism) == figure_id@,
                previous is None ==> forall|q: int|
                    0 <= q < x ==> spec_figure_id((#[trigger] atts[q]).mechanism) != figure_id@,
                match previous {
                    Some(pd) => last_figure_before(atts, figure_id@, x as int) matches Some(q)
                        && atts[q].definition_id == pd,
                    None => last_figure_before(atts, figure_id@, x as int) is None,
                },
            decreases y,
        {
            let other = sfc_attribute_figure_id(&model.attribute_attachments[y - 1].mechanism);
            let cs = chars_of(other);
            if slice_eq_str(cs.as_slice(), figure_id) {
                previous = Some(model.attribute_attachments[y - 1].definition_id);
                assert(spec_figure_id(atts[y - 1].mechanism) == figure_id@);
                break ;
            }
            y = y - 1;
        }
        let ghost c3 = previous is Some;
        match previous {
            Some(previous_id) => {
                assert(attachment_violation(typed@, m, x as int));
                let mut msg = string_from_str("Attribute attachment #");
                push_int(&mut msg, attachment.definition_id);
                push_str(&mut msg, " repeats figure identifier ");
                push_str(&mut msg, debug_text_of(figure_id).as_str());
                push_str(&mut msg, " from #");
                push_int(&mut msg, previous_id);
                let ghost at = *self;
                let r = self.issue_or_error("sfc-duplicate-attribute-figure-id", msg);
                proof {
                    lemma_raises_step(start, at, *self, r, done, n3, n4 + (n5 + (nm + ra)), total);
                    if r is Ok {
                        done = done + n3;
                    }
                }
                r?;
                found = true;
            },
            None => {
                assert(n3 + (n4 + (n5 + (nm + ra))) =~= n4 + (n5 + (nm + ra)));
            },
        }
        let first_target: Option<&TypedFeature> = if attachment.component_ids.len() > 0 {
            typed_by_id(typed, attachment.component_ids[0])
        } else {
            None
        };
        let is_text_target = match first_target {
            Some(TypedFeature::Text(_)) => true,
            _ => false,
        };
        let is_text_mechanism = match &attachment.mechanism {
            SfcAttributeMechanism::TextAttribute { .. } => true,
            _ => false,
        };
        assert(text_target_missing(typed@, a) == (is_text_mechanism && !is_text_target));
        if is_text_mechanism && !is_text_target {
            assert(text_target_missing(typed@, atts[x as int]));
            assert(attachment_violation(typed@, m, x as int));
            let mut msg = string_from_str("ATRS attribute attachment #");
            push_int(&mut msg, attachment.definition_id);
            push_str(&mut msg, " must target one text feature");
            let ghost at = *self;
            let r = self.issue_or_error("sfc-atrs-target", msg);
            proof {
                lemma_raises_step(start, at, *self, r, done, n4, n5 + (nm + ra), total);
                if r is Ok {
                    done = done + n4;
                }
            }
            r?;
            found = true;
        } else {
            assert(n4 + (n5 + (nm + ra)) =~= n5 + (nm + ra));
        }
        let mut bad_target = false;
        let targets_placement = match first_target {
            Some(TypedFeature::SfigLocate(_)) => true,
            _ => false,
        };
        if targets_placement {
            let target_id = attachment.component_ids[0];
            let kind = placed_kind(model, target_id);
            let mut another = false;
            let mut z: usize = 0;
            while z < model.attribute_attachments.len()
                invariant
                    z <= atts.len(),
                    x < atts.len(),
                    atts == model.attribute_attachments@,
                    target_id == atts[x as int].component_ids@[0],
                    *attachment == atts[x as int],
                    another <==> exists|w: int|
                        0 <= w < z && (#[trigger] atts[w]).definition_id
                            != atts[x as int].definition_id && atts[w].placement_ids@.contains(
                            target_id,
                        ),
                decreases atts.len() - z,
            {
                let candidate = &model.attribute_attachments[z];
                if candidate.definition_id != attachment.definition_id && vec_contains(
                    &candidate.placement_ids,
                    target_id,
                ) {
                    another = true;
                }
                z = z + 1;
            }
            if kind == Some(1i64) || kind == Some(2i64) || another {
                assert(bad_placement_target(typed@, m, atts[x as int]));
                assert(attachment_violation(typed@, m, x as int));
                let mut msg = string_from_str("Attribute attachment #");
                push_int(&mut msg, attachment.definition_id);
                push_str(
                    &mut msg,
                    " cannot target a partial drawing or another attribute wrapper",
                );
                bad_target = true;
                let ghost at = *self;
                let r = self.issue_or_error("sfc-attribute-target", msg);
                proof {
                    lemma_raises_step(start, at, *self, r, done, n5, nm + ra, total);
                    if r is Ok {
                        done = done + n5;
                    }
                }
                r?;
                found = true;
            } else {
                assert(!bad_placement_target(typed@, m, a));
            }
        } else {
            assert(!bad_placement_target(typed@, m, a));
        }
        if !bad_target {
            assert(n5 + (nm + ra) =~= nm + ra);
        }
        let mut p: usize = 0;
        let ghost mid = self.warnings@.len();
        assert(a.placement_ids@.subrange(0, a.placement_ids@.len() as int) =~= a.placement_ids@);
        while p < attachment.placement_ids.len()
            invariant
                p <= atts[x as int].placement_ids@.len(),
                x < atts.len(),
                atts == model.attribute_attachments@,
                m == *model,
                *attachment == atts[x as int],
                old(self).same_source(&*self),
                self.index == old(self).index,
                self.line == old(self).line,
                self.column == old(self).column,
                old(self).keeps_warnings(&*self),
                old(self).quiet_if_strict(&*self),
                self.warnings@.len() >= mid,
                old(self).strict ==> forall|j: int|
                    0 <= j < p ==> !moved_placement(typed@, #[trigger] atts[x as int].placement_ids@[j]),
                !old(self).strict ==> ((exists|j: int|
                    0 <= j < p && moved_placement(typed@, #[trigger] atts[x as int].placement_ids@[j]))
                    <==> self.warnings@.len() > mid),
                start == *old(self),
                a == atts[x as int],
                total == attachment_issues(typed@, m, x as int),
                recorded(start, *self, done),
                total == done + (moved_issues(typed@, a.placement_ids@.subrange(p as int, a.placement_ids@.len() as int)) + ra),
                ra == Seq::<(Seq<char>, Seq<char>)>::empty(),
            decreases atts[x as int].placement_ids@.len() - p,
        {
            let placement_id = attachment.placement_ids[p];
            let ghost pids = a.placement_ids@;
            let ghost rest_p = moved_issues(typed@, pids.subrange(p + 1, pids.len() as int));
            let ghost np = if moved_placement(typed@, pids[p as int]) {
                seq![
                    (
                        "sfc-attribute-placement-transform"@,
                        "Attribute placement #"@ + int_text(pids[p as int] as int)
                            + " must use position (0,0), angle 0 and scale (1,1)"@,
                    ),
                ]
            } else {
                Seq::<(Seq<char>, Seq<char>)>::empty()
            };
            proof {
                lemma_moved_issues_step(typed@, pids, p as int);
                assert(total == done + (np + (rest_p + ra)));
            }
            let mut moved = false;
            match typed_by_id(typed, placement_id) {
                Some(TypedFeature::SfigLocate(placement)) => {
                    if !is_identity_placement(placement) {
                        assert(moved_placement(typed@, atts[x as int].placement_ids@[p as int]));
                        assert(attachment_violation(typed@, m, x as int));
                        moved = true;
                        let mut msg = string_from_str("Attribute placement #");
                        push_int(&mut msg, placement_id);
                        push_str(&mut msg, " must use position (0,0), angle 0 and scale (1,1)");
                        let ghost at = *self;
                        let r = self.issue_or_error("sfc-attribute-placement-transform", msg);
                        proof {
                            lemma_raises_step(start, at, *self, r, done, np, rest_p + ra, total);
                            if r is Ok {
                                done = done + np;
                            }
                        }
                        r?;
                    }
                },
                _ => {},
            }
            if !moved {
                assert(np + (rest_p + ra) =~= rest_p + ra);
            }
            p = p + 1;
        }
        proof {
            assert(a.placement_ids@.subrange(p as int, a.placement_ids@.len() as int) =~= Seq::<i64>::empty());
            assert(total == done + ra);
        }
        proof {
            if !old(self).strict {
                assert(attachment_violation(typed@, m, x as int) <==> self.warnings@.len() > before);
            }
        }
        proof {
            assert(done + Seq::<(Seq<char>, Seq<char>)>::empty() =~= done);
            if !old(self).strict {
                assert(attachment_violation(typed@, m, x as int) <==> self.warnings@.len() > before);
            }
            lemma_raises_done(start, *self, done);
        }
        Ok(())
    }

    /// Checks each attribute attachment: one target, one placement, a figure
    /// identifier of its own, a text target for ATRS, no partial drawing or
    /// other attachment as target, and placements without a transform.
    pub fn check_attribute_attachments(&mut self, typed: &[TypedFeatureInstance], model: &SfcModel) -> (r:
        Result<(), ParseError>)
        ensures
            reported(*old(self), *final(self), r, attachments_violation(typed@, *model)),
            raises(*old(self), *final(self), r, attachments_issues(typed@, *model)),
    {
        let ghost m = *model;
        let ghost atts = model.attribute_attachments@;
        let ghost start = *self;
        let ghost total = attachments_issues(typed@, m);
        let ghost mut done = Seq::<(Seq<char>, Seq<char>)>::empty();
        assert(done + total =~= total);
        let mut x: usize = 0;
        while x < model.attribute_attachments.len()
            invariant
                x <= atts.len(),
                m == *model,
                atts == model.attribute_attachments@,
                old(self).same_source(&*self),
                self.index == old(self).index,
                self.line == old(self).line,
                self.column == old(self).column,
                old(self).keeps_warnings(&*self),
                old(self).quiet_if_strict(&*self),
                old(self).strict ==> forall|j: int|
                    0 <= j < x ==> !#[trigger] attachment_violation(typed@, m, j),
                !old(self).strict ==> ((exists|j: int|
                    0 <= j < x && #[trigger] attachment_violation(typed@, m, j))
                    <==> self.warnings@.len() > old(self).warnings@.len()),
                start == *old(self),
                total == attachments_issues(typed@, m),
                recorded(start, *self, done),
                total == done + attachments_issues_from(typed@, m, x as int),
            decreases atts.len() - x,
        {
            let ghost at = *self;
            let ghost now = attachment_issues(typed@, m, x as int);
            let ghost ra = attachments_issues_from(typed@, m, x + 1);
            assert(total == done + (now + ra));
            let r = self.check_attachment(typed, model, x);
            proof {
                lemma_raises_step(start, at, *self, r, done, now, ra, total);
                if r is Ok {
                    done = done + now;
                }
            }
            r?;
            x = x + 1;
        }
        proof {
            assert(done + Seq::<(Seq<char>, Seq<char>)>::empty() =~= done);
            lemma_raises_done(start, *self, done);
        }
        Ok(())
    }
}

/// What a strict reader's model holds after reading `typed`: the code
/// tables, the numbered composite curves, references that resolve, the
/// definitions, the sheet, the counts, and which features join a container.
pub open spec fn structure_built(typed: Seq<TypedFeatureInstance>, m: SfcModel) -> bool {
    let n = typed.len() as int;
    &&& table_seqs(m.code_tables) == tables_upto(typed, n).0
    &&& curve_codes_consecutive(m.composite_curve_definitions@)
    &&& references_resolve(m)
    &&& definitions_from(typed, m)
    &&& (distinct_ids(typed) ==> components_unique(m))
    &&& (m.sheet is Some <==> sheet_before(typed, n))
    &&& m.hatch_references@.len() == count_before_sheet(typed, n, hatch_feature())
    &&& placement_count(m) == count_before_sheet(typed, n, placement_feature())
    &&& m.attribute_attachments@.len() == count_before_sheet(typed, n, attachment_feature())
    &&& (distinct_ids(typed) && m.sheet is Some ==> forall|k: int|
        0 <= k < n ==> (in_container(m, #[trigger] typed[k].id) <==> joins_container(typed[k].feature)
            && !sheet_before(typed, k)))
}

impl Parser {
    /// Builds the resolved SFC model of a parsed SFC document: code tables,
    /// containers and references, then the attribute and hierarchy checks.
    pub fn build_sfc_model(&mut self, document: &ParsedDocument) -> (r: Result<SfcModel, ParseError>)
        requires
            document.typed_features@.len() < 0x4000_0000_0000_0000,
        ensures
            old(self).same_source(&*final(self)),
            final(self).index == old(self).index,
            final(self).line == old(self).line,
            final(self).column == old(self).column,
            old(self).keeps_warnings(&*final(self)),
            old(self).quiet_if_strict(&*final(self)),
            !old(self).strict ==> r is Ok,
            r matches Ok(m) ==> {
                let typed = document.typed_features@;
                let (tabs, _, issues) = tables_upto(typed, typed.len() as int);
                &&& table_seqs(m.code_tables) == tabs
                &&& tables_sound(table_seqs(m.code_tables))
                &&& curve_codes_consecutive(m.composite_curve_definitions@)
                &&& references_resolve(m)
                &&& definitions_from(typed, m)
                &&& distinct_ids(typed) ==> components_unique(m)
                &&& (m.sheet is Some <==> sheet_before(typed, typed.len() as int))
                &&& old(self).strict ==> m.hatch_references@.len() == count_before_sheet(
                    typed,
                    typed.len() as int,
                    hatch_feature(),
                ) && placement_count(m) == count_before_sheet(typed, typed.len() as int, placement_feature())
                    && m.attribute_attachments@.len() == count_before_sheet(
                    typed,
                    typed.len() as int,
                    attachment_feature(),
                )
                &&& old(self).strict && distinct_ids(typed) && m.sheet is Some ==> forall|k: int|
                    0 <= k < typed.len() ==> (in_container(m, #[trigger] typed[k].id) <==> joins_container(
                        typed[k].feature,
                    ) && !sheet_before(typed, k))
                &&& old(self).strict ==> issues.len() == 0 && !attachments_violation(typed, m)
                    && !hierarchy_violation(typed, m)
            },
            old(self).strict ==> ({
                let typed = document.typed_features@;
                let n = typed.len() as int;
                let issues = tables_upto(typed, n).2;
                let fault = structure_fault(typed, n);
                if issues.len() > 0 {
                    r matches Err(e) && old(self).error_here_is(e, issues[0].1)
                } else if fault is Some {
                    r matches Err(e) && old(self).error_here_is(e, fault->0)
                } else {
                    exists|m: SfcModel|
                        #[trigger] structure_built(typed, m) && {
                            let checks = attachments_issues(typed, m) + hierarchy_issues(typed, m);
                            &&& (r is Ok <==> checks.len() == 0)
                            &&& (r matches Ok(mm) ==> mm == m)
                            &&& (r matches Err(e) ==> old(self).error_here_is(e, checks[0].1))
                        }
                }
            }),
    {
        let ghost start = *self;
        let ghost typed = document.typed_features@;
        let ghost n = typed.len() as int;
        let tables = self.build_sfc_code_tables(document);
        let code_tables = tables?;
        proof {
            if start.strict {
                assert(self.warnings@.len() == start.warnings@.len());
                assert(self.warnings@ =~= start.warnings@);
            }
        }
        let empty = SfcModel {
            code_tables,
            sheet: None,
            sfig_definitions: Vec::new(),
            attribute_attachments: Vec::new(),
            composite_curve_definitions: Vec::new(),
            sfig_references: Vec::new(),
            hatch_references: Vec::new(),
        };
        let model = self.collect_sfc_structure(document, empty)?;
        let ghost built = model;
        proof {
            if start.strict {
                assert(structure_built(typed, built));
            }
        }
        let ghost s1 = *self;
        let checked = self.check_attribute_attachments(document.typed_features.as_slice(), &model);
        proof {
            if start.strict && checked is Err {
                let a = attachments_issues(typed, built);
                let h = hierarchy_issues(typed, built);
                assert((a + h)[0] == a[0]);
            }
        }
        checked?;
        let placed = self.check_sfig_hierarchy(document.typed_features.as_slice(), &model);
        proof {
            if start.strict {
                let a = attachments_issues(typed, built);
                let h = hierarchy_issues(typed, built);
                assert(a.len() == 0);
                assert(a + h =~= h);
            }
        }
        placed?;
        Ok(model)
    }
}

} // verus!
