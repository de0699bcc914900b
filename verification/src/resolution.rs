//! What the SFC model resolves, counted: composite-figure placements, hatch
//! boundaries and attribute attachments, against the typed features that
//! call for them.

use vstd::prelude::*;
use crate::attribute::{atrf_prefix, atrs_prefix, atru_prefix, has_prefix};
use crate::codes::spec_hatch_codes;
use crate::containers::sheet_before;
use crate::model::{SfcAttributeAttachment, SfcModel, TypedFeature, TypedFeatureInstance};

verus! {

/// How many of the first `k` typed features satisfy `pred`.
pub open spec fn count_features(
    typed: Seq<TypedFeatureInstance>,
    k: int,
    pred: spec_fn(TypedFeature) -> bool,
) -> nat
    decreases k,
{
    if k <= 0 {
        0
    } else {
        count_features(typed, k - 1, pred) + if pred(typed[k - 1].feature) {
            1nat
        } else {
            0nat
        }
    }
}

/// How many of the first `k` typed features satisfy `pred` and come before
/// every drawing sheet.
pub open spec fn count_before_sheet(
    typed: Seq<TypedFeatureInstance>,
    k: int,
    pred: spec_fn(TypedFeature) -> bool,
) -> nat
    decreases k,
{
    if k <= 0 {
        0
    } else {
        count_before_sheet(typed, k - 1, pred) + if pred(typed[k - 1].feature) && !sheet_before(
            typed,
            k - 1,
        ) {
            1nat
        } else {
            0nat
        }
    }
}

/// A composite-figure placement.
pub open spec fn placement_feature() -> spec_fn(TypedFeature) -> bool {
    |f: TypedFeature| f is SfigLocate
}

/// A hatch, which names its boundary curves by code.
pub open spec fn hatch_feature() -> spec_fn(TypedFeature) -> bool {
    |f: TypedFeature| spec_hatch_codes(f) is Some
}

/// A name that starts with `$$ATRF$$`, `$$ATRU$$` or `$$ATRS$$`.
pub open spec fn attribute_prefixed(name: Seq<char>) -> bool {
    has_prefix(name, atrf_prefix()) || has_prefix(name, atru_prefix()) || has_prefix(
        name,
        atrs_prefix(),
    )
}

/// A composite-figure definition whose name makes it an attribute attachment.
pub open spec fn attachment_feature() -> spec_fn(TypedFeature) -> bool {
    |f: TypedFeature| f matches TypedFeature::SfigOrg(o) && attribute_prefixed(o.name@)
}

/// The placements recorded on attribute attachments.
pub open spec fn attachment_placements(atts: Seq<SfcAttributeAttachment>) -> nat
    decreases atts.len(),
{
    if atts.len() == 0 {
        0
    } else {
        attachment_placements(atts.drop_last()) + atts.last().placement_ids@.len()
    }
}

/// Every composite-figure placement the model resolved.
pub open spec fn placement_count(m: SfcModel) -> nat {
    m.sfig_references@.len() + attachment_placements(m.attribute_attachments@)
}

/// One attachment's placements grow by one, the others' stay.
pub proof fn lemma_placements_bump(
    atts1: Seq<SfcAttributeAttachment>,
    atts2: Seq<SfcAttributeAttachment>,
    a: int,
)
    requires
        atts1.len() == atts2.len(),
        0 <= a < atts1.len(),
        forall|j: int|
            0 <= j < atts1.len() && j != a ==> (#[trigger] atts2[j]).placement_ids@.len()
                == atts1[j].placement_ids@.len(),
        atts2[a].placement_ids@.len() == atts1[a].placement_ids@.len() + 1,
    ensures
        attachment_placements(atts2) == attachment_placements(atts1) + 1,
    decreases atts1.len(),
{
    let n = atts1.len() - 1;
    if a == n {
        lemma_placements_same(atts1.drop_last(), atts2.drop_last());
    } else {
        assert(atts2[n].placement_ids@.len() == atts1[n].placement_ids@.len());
        lemma_placements_bump(atts1.drop_last(), atts2.drop_last(), a);
    }
}

/// Attachments with as many placements each have as many in all.
pub proof fn lemma_placements_same(atts1: Seq<SfcAttributeAttachment>, atts2: Seq<SfcAttributeAttachment>)
    requires
        atts1.len() == atts2.len(),
        forall|j: int|
            0 <= j < atts1.len() ==> (#[trigger] atts2[j]).placement_ids@.len()
                == atts1[j].placement_ids@.len(),
    ensures
        attachment_placements(atts2) == attachment_placements(atts1),
    decreases atts1.len(),
{
    if atts1.len() > 0 {
        let n = atts1.len() - 1;
        assert(atts2[n].placement_ids@.len() == atts1[n].placement_ids@.len());
        lemma_placements_same(atts1.drop_last(), atts2.drop_last());
    }
}

/// Where every feature that `pred` picks must come before the sheet, and
/// does, counting before the sheet counts them all.
pub proof fn lemma_count_all_before_sheet(
    typed: Seq<TypedFeatureInstance>,
    k: int,
    pred: spec_fn(TypedFeature) -> bool,
)
    requires
        0 <= k <= typed.len(),
        forall|p: int| 0 <= p < typed.len() && pred(#[trigger] typed[p].feature) ==> !sheet_before(typed, p),
    ensures
        count_before_sheet(typed, k, pred) == count_features(typed, k, pred),
    decreases k,
{
    if k > 0 {
        lemma_count_all_before_sheet(typed, k - 1, pred);
    }
}

} // verus!
