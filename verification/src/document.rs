//! Checks on a parsed document, and the typed features read out of it.

use vstd::prelude::*;
use crate::codes::{required_sfc_version, required_version_spec};
use crate::features::{
    feature_decode_checks, feature_decoded, feature_params_ok, known_feature_keyword, parse_typed_feature,
};
use crate::checklist::first_failure;
use crate::lexer::{warning_is, Parser};
use crate::model::{
    EntityBody, EntityInstance, FileFormat, HeaderSection, ParseError, ParseWarning, Record, TypedFeature,
    TypedFeatureInstance,
};
use crate::text::{eq_ci, int_text, lower_seq, push_int, push_str, slice_eq_ci_str, string_from_str, chars_of};
use crate::validate::{feature_checks, feature_valid, validate_typed_feature_values};

verus! {

/// Index of the first record whose keyword equals `kw` (ASCII case-insensitively).
pub open spec fn first_keyword(recs: Seq<Record>, kw: Seq<char>) -> Option<int> {
    if exists|i: int| 0 <= i < recs.len() && eq_ci(#[trigger] recs[i].keyword@, kw) {
        Some(
            choose|i: int|
                0 <= i < recs.len() && eq_ci(recs[i].keyword@, kw) && forall|j: int|
                    0 <= j < i ==> !eq_ci(#[trigger] recs[j].keyword@, kw),
        )
    } else {
        None
    }
}

/// Whether the ASCII-case-insensitive keyword of `rec` is `kw`.
pub fn keyword_is(rec: &Record, kw: &str) -> (b: bool)
    ensures
        b == eq_ci(rec.keyword@, kw@),
{
    let cs = chars_of(rec.keyword.as_str());
    slice_eq_ci_str(cs.as_slice(), kw)
}

impl HeaderSection {
    /// The first header record with keyword `keyword`, compared ASCII-case-insensitively.
    pub fn find_keyword(&self, keyword: &str) -> (r: Option<&Record>)
        ensures
            match r {
                Some(rec) => exists|i: int|
                    0 <= i < self.entities@.len() && self.entities@[i] == *rec && eq_ci(
                        rec.keyword@,
                        keyword@,
                    ) && forall|j: int|
                        0 <= j < i ==> !eq_ci(#[trigger] self.entities@[j].keyword@, keyword@),
                None => forall|i: int|
                    0 <= i < self.entities@.len() ==> !eq_ci(
                        #[trigger] self.entities@[i].keyword@,
                        keyword@,
                    ),
            },
    {
        let mut i: usize = 0;
        while i < self.entities.len()
            invariant
                i <= self.entities@.len(),
                forall|j: int| 0 <= j < i ==> !eq_ci(#[trigger] self.entities@[j].keyword@, keyword@),
            decreases self.entities@.len() - i,
        {
            if keyword_is(&self.entities[i], keyword) {
                return Some(&self.entities[i]);
            }
            i = i + 1;
        }
        None
    }
}

/// The entity is written in a block whose version its keyword does not allow.
pub open spec fn version_mismatch(e: EntityInstance) -> bool {
    e.body matches EntityBody::Simple(rec) && required_version_spec(lower_seq(rec.keyword@))
        matches Some(v) && e.sfc_version != Some(v)
}

/// In a Part 21 file, a known feature record whose parameters do not decode.
pub open spec fn undecodable(format: FileFormat, e: EntityInstance) -> bool {
    &&& format != FileFormat::Sfc
    &&& e.body matches EntityBody::Simple(rec) && {
        let k = lower_seq(rec.keyword@);
        &&& !version_mismatch(e)
        &&& known_feature_keyword(k)
        &&& !feature_params_ok(k, rec.parameters@)
    }
}

/// The entity gives the typed feature `t`.
pub open spec fn yields(e: EntityInstance, t: TypedFeatureInstance) -> bool {
    e.body matches EntityBody::Simple(rec) && {
        let k = lower_seq(rec.keyword@);
        &&& !version_mismatch(e)
        &&& t.id == e.id
        &&& t.keyword@ == rec.keyword@
        &&& feature_decoded(k, rec.parameters@, t.feature)
        &&& feature_valid(t.feature)
    }
}

/// The entity gives no typed feature: a complex record, a wrong block
/// version, an unknown keyword, parameters that do not decode, or values
/// that fail the feature's checks.
pub open spec fn rejected(e: EntityInstance) -> bool {
    match e.body {
        EntityBody::Complex(_) => true,
        EntityBody::Simple(rec) => {
            let k = lower_seq(rec.keyword@);
            ||| version_mismatch(e)
            ||| !known_feature_keyword(k)
            ||| !feature_params_ok(k, rec.parameters@)
            ||| exists|f| feature_decoded(k, rec.parameters@, f) && !feature_valid(f)
        },
    }
}

/// `sel` picks, in order, the entities that `typed` came from; every other
/// entity is rejected.
pub open spec fn typed_selection(
    ents: Seq<EntityInstance>,
    typed: Seq<TypedFeatureInstance>,
    sel: Seq<int>,
) -> bool {
    &&& sel.len() == typed.len()
    &&& forall|n: int|
        0 <= n < sel.len() ==> 0 <= #[trigger] sel[n] < ents.len() && yields(ents[sel[n]], typed[n])
    &&& forall|n: int, m: int| 0 <= n < m < sel.len() ==> sel[n] < sel[m]
    &&& forall|k: int| 0 <= k < ents.len() && !sel.contains(k) ==> rejected(#[trigger] ents[k])
}

/// `typed` are, in order, the typed features of the entities that give one.
pub open spec fn typed_from(ents: Seq<EntityInstance>, typed: Seq<TypedFeatureInstance>) -> bool {
    exists|sel: Seq<int>| #[trigger] typed_selection(ents, typed, sel)
}

/// A warning of the typed-feature reading: code, message, and whether a
/// strict reader fails on it.
pub type ExtractionIssue = (Seq<char>, Seq<char>, bool);

/// `x` is what reading entity `e` as a typed feature raises: a block of the
/// wrong version (fatal); an unknown keyword (an SFC warning); parameters
/// that do not decode (an SFC warning, fatal in a Part 21 file), with the
/// decoder's message; values that fail validation, with its message.
pub open spec fn extraction_issue_is(format: FileFormat, e: EntityInstance, x: Option<ExtractionIssue>) -> bool {
    match e.body {
        EntityBody::Complex(_) => x is None,
        EntityBody::Simple(rec) => {
            let k = lower_seq(rec.keyword@);
            let p = rec.parameters@;
            let head = "Entity #"@ + int_text(e.id as int) + " ("@ + rec.keyword@;
            if version_mismatch(e) {
                let m = required_version_spec(k)->0.spec_marker();
                x == Some(("sfc-version-tag"@, head + ") must use /*"@ + m + " ... "@ + m + "*/"@, true))
            } else if !known_feature_keyword(k) {
                x == (if format == FileFormat::Sfc {
                    Some(
                        (
                            "sfc-unsupported-feature-skipped"@,
                            "Feature "@ + rec.keyword@ + " (#"@ + int_text(e.id as int)
                                + ") is not implemented and was skipped"@,
                            false,
                        ),
                    )
                } else {
                    None
                })
            } else if !feature_params_ok(k, p) {
                x == Some(
                    (
                        if format == FileFormat::Sfc {
                            "sfc-incomplete-feature-skipped"@
                        } else {
                            "typed-feature-parse"@
                        },
                        head + ") "@ + first_failure(feature_decode_checks(k, p))->0,
                        format != FileFormat::Sfc,
                    ),
                )
            } else {
                exists|f: TypedFeature|
                    #[trigger] feature_decoded(k, p, f) && if feature_valid(f) {
                        x is None
                    } else {
                        x == Some(("sfc-invalid-feature-skipped"@, head + ") "@ + first_failure(feature_checks(f))->0, false))
                    }
            }
        },
    }
}

/// `xs` are what reading the first `xs.len()` entities raises, in order.
pub open spec fn extraction_issues_are(format: FileFormat, ents: Seq<EntityInstance>, xs: Seq<Option<ExtractionIssue>>) -> bool {
    &&& xs.len() <= ents.len()
    &&& forall|k: int| 0 <= k < xs.len() ==> extraction_issue_is(format, ents[k], #[trigger] xs[k])
}

/// The warnings (code and message) of the issues raised, in order.
pub open spec fn issue_warnings(xs: Seq<Option<ExtractionIssue>>) -> Seq<(Seq<char>, Seq<char>)>
    decreases xs.len(),
{
    if xs.len() == 0 {
        Seq::empty()
    } else {
        issue_warnings(xs.drop_last()) + match xs.last() {
            Some(x) => seq![(x.0, x.1)],
            None => Seq::empty(),
        }
    }
}

/// The issue is there and fatal.
pub open spec fn is_fatal(x: Option<ExtractionIssue>) -> bool {
    x matches Some(i) && i.2
}

/// The warning code of the issue, if there is one.
pub open spec fn issue_code(x: Option<ExtractionIssue>) -> Seq<char> {
    match x {
        Some(i) => i.0,
        None => Seq::empty(),
    }
}

/// The message of the issue, if there is one.
pub open spec fn issue_text(x: Option<ExtractionIssue>) -> Seq<char> {
    match x {
        Some(i) => i.1,
        None => Seq::empty(),
    }
}

/// No issue in `xs` is fatal.
pub open spec fn none_fatal(xs: Seq<Option<ExtractionIssue>>) -> bool {
    forall|k: int| 0 <= k < xs.len() ==> !(#[trigger] xs[k] matches Some(x) && x.2)
}

/// `new_w` is `old_w` followed by the warnings `issues`.
pub open spec fn appended(
    old_w: Seq<ParseWarning>,
    new_w: Seq<ParseWarning>,
    issues: Seq<(Seq<char>, Seq<char>)>,
) -> bool {
    &&& new_w.len() == old_w.len() + issues.len()
    &&& new_w.subrange(0, old_w.len() as int) == old_w
    &&& forall|i: int|
        0 <= i < issues.len() ==> warning_is(#[trigger] new_w[old_w.len() + i], issues[i].0, issues[i].1)
}

proof fn lemma_appended_push(
    old_w: Seq<ParseWarning>,
    mid_w: Seq<ParseWarning>,
    new_w: Seq<ParseWarning>,
    issues: Seq<(Seq<char>, Seq<char>)>,
    code: Seq<char>,
    message: Seq<char>,
)
    requires
        appended(old_w, mid_w, issues),
        new_w.len() == mid_w.len() + 1,
        new_w.drop_last() == mid_w,
        warning_is(new_w.last(), code, message),
    ensures
        appended(old_w, new_w, issues.push((code, message))),
{
    let n = old_w.len() as int;
    assert(new_w.subrange(0, n) =~= mid_w.subrange(0, n)) by {
        assert forall|q: int| 0 <= q < n implies new_w[q] == mid_w[q] by {
            assert(new_w.drop_last()[q] == new_w[q]);
        }
    }
    assert forall|i: int| 0 <= i < issues.push((code, message)).len() implies warning_is(
        #[trigger] new_w[n + i],
        issues.push((code, message))[i].0,
        issues.push((code, message))[i].1,
    ) by {
        if i < issues.len() {
            assert(new_w.drop_last()[n + i] == new_w[n + i]);
        }
    }
}

/// One more entity read: the issues grow by what it raises.
proof fn lemma_issue_step(
    format: FileFormat,
    ents: Seq<EntityInstance>,
    xs: Seq<Option<ExtractionIssue>>,
    x: Option<ExtractionIssue>,
)
    requires
        extraction_issues_are(format, ents, xs),
        xs.len() < ents.len(),
        extraction_issue_is(format, ents[xs.len() as int], x),
    ensures
        extraction_issues_are(format, ents, xs.push(x)),
        issue_warnings(xs.push(x)) == issue_warnings(xs) + match x {
            Some(i) => seq![(i.0, i.1)],
            None => Seq::empty(),
        },
        none_fatal(xs) && !is_fatal(x) ==> none_fatal(xs.push(x)),
{
    assert(xs.push(x).drop_last() =~= xs);
    assert forall|k: int| 0 <= k < xs.push(x).len() implies extraction_issue_is(format, ents[k], #[trigger] xs.push(x)[k]) by {
        if k < xs.len() {
            assert(xs.push(x)[k] == xs[k]);
        }
    }
    if none_fatal(xs) && !is_fatal(x) {
        assert forall|k: int| 0 <= k < xs.push(x).len() implies !(#[trigger] xs.push(x)[k] matches Some(i) && i.2) by {
            if k < xs.len() {
                assert(xs.push(x)[k] == xs[k]);
            }
        }
    }
}

impl Parser {
    /// The typed features of the simple entities, in order. An entity in the
    /// wrong block version is reported (strict: error); a feature that is not
    /// implemented, incomplete or invalid is skipped with a warning.
    #[verifier::rlimit(80)]
    pub fn extract_typed_features(&mut self, entities: &[EntityInstance]) -> (r: Result<
        Vec<TypedFeatureInstance>,
        ParseError,
    >)
        ensures
            old(self).same_source(&*final(self)),
            final(self).index == old(self).index,
            final(self).line == old(self).line,
            final(self).column == old(self).column,
            old(self).keeps_warnings(&*final(self)),
            r is Err <==> old(self).strict && exists|k: int|
                0 <= k < entities@.len() && (version_mismatch(#[trigger] entities@[k]) || undecodable(
                    old(self).format,
                    entities@[k],
                )),
            r is Ok ==> typed_from(entities@, r.unwrap()@),
            r is Ok ==> exists|xs: Seq<Option<ExtractionIssue>>|
                #[trigger] extraction_issues_are(old(self).format, entities@, xs) && xs.len() == entities@.len()
                    && appended(old(self).warnings@, final(self).warnings@, issue_warnings(xs)) && (old(
                    self,
                ).strict ==> none_fatal(xs)),
            r matches Err(e) ==> exists|xs: Seq<Option<ExtractionIssue>>|
                #[trigger] extraction_issues_are(old(self).format, entities@, xs) && xs.len() > 0
                    && none_fatal(xs.drop_last()) && is_fatal(xs.last()) && old(self).error_here_is(
                    e,
                    issue_text(xs.last()),
                ) && appended(old(self).warnings@, final(self).warnings@, issue_warnings(xs.drop_last())),
    {
        let ghost mut xs: Seq<Option<ExtractionIssue>> = Seq::empty();
        let ghost fmt = self.format;
        proof {
            assert(old(self).warnings@.subrange(0, old(self).warnings@.len() as int) =~= old(self).warnings@);
        }
        let mut typed: Vec<TypedFeatureInstance> = Vec::new();
        let ghost mut sel: Seq<int> = Seq::empty();
        let ghost mut pos: Seq<int> = Seq::empty();
        let mut i: usize = 0;
        while i < entities.len()
            invariant
                i <= entities@.len(),
                old(self).same_source(&*self),
                self.index == old(self).index,
                self.line == old(self).line,
                self.column == old(self).column,
                old(self).keeps_warnings(&*self),
                old(self).strict ==> forall|k: int|
                    0 <= k < i ==> !version_mismatch(#[trigger] entities@[k]) && !undecodable(
                        old(self).format,
                        entities@[k],
                    ),
                sel.len() == typed@.len(),
                forall|n: int|
                    0 <= n < sel.len() ==> 0 <= #[trigger] sel[n] < i && yields(
                        entities@[sel[n]],
                        typed@[n],
                    ),
                forall|n: int, m: int| 0 <= n < m < sel.len() ==> sel[n] < sel[m],
                pos.len() == i,
                forall|k: int|
                    0 <= k < i ==> (#[trigger] pos[k] == -1 && rejected(entities@[k])) || (0 <= pos[k]
                        < sel.len() && sel[pos[k]] == k),
                fmt == old(self).format,
                xs.len() == i,
                extraction_issues_are(fmt, entities@, xs),
                appended(old(self).warnings@, self.warnings@, issue_warnings(xs)),
                old(self).strict ==> none_fatal(xs),
            decreases entities@.len() - i,
        {
            let entity = &entities[i];
            let ghost before = *self;
            let record = match &entity.body {
                EntityBody::Simple(record) => record,
                EntityBody::Complex(_) => {
                    proof {
                        pos = pos.push(-1);
                        lemma_issue_step(fmt, entities@, xs, None);
                        xs = xs.push(None);
                    }
                    i = i + 1;
                    continue ;
                },
            };
            match required_sfc_version(record.keyword.as_str()) {
                Some(expected) => {
                    if entity.sfc_version != Some(expected) {
                        let mut m = string_from_str("Entity #");
                        push_int(&mut m, entity.id);
                        push_str(&mut m, " (");
                        push_str(&mut m, record.keyword.as_str());
                        push_str(&mut m, ") must use /*");
                        push_str(&mut m, expected.marker());
                        push_str(&mut m, " ... ");
                        push_str(&mut m, expected.marker());
                        push_str(&mut m, "*/");
                        let ghost x = Some(("sfc-version-tag"@, m@, true));
                        proof {
                            let mk = expected.spec_marker();
                            assert(m@ =~= "Entity #"@ + int_text(entity.id as int) + " ("@ + record.keyword@ + ") must use /*"@ + mk + " ... "@ + mk + "*/"@);
                            assert(extraction_issue_is(fmt, entities@[i as int], x));
                            lemma_issue_step(fmt, entities@, xs, x);
                        }
                        let r = self.issue_or_error("sfc-version-tag", m);
                        proof {
                            if r is Err {
                                assert(xs.push(x).drop_last() =~= xs);
                                assert(extraction_issues_are(fmt, entities@, xs.push(x)));
                            } else {
                                lemma_appended_push(old(self).warnings@, before.warnings@, self.warnings@,
                                    issue_warnings(xs), issue_code(x), issue_text(x));
                                xs = xs.push(x);
                            }
                        }
                        r?;
                        proof {
                            pos = pos.push(-1);
                        }
                        i = i + 1;
                        continue ;
                    }
                },
                None => {},
            }
            assert(!version_mismatch(entities@[i as int]));
            let feature = match parse_typed_feature(record) {
                Some(feature) => feature,
                None => {
                    if self.format == FileFormat::Sfc {
                        let mut m = string_from_str("Feature ");
                        push_str(&mut m, record.keyword.as_str());
                        push_str(&mut m, " (#");
                        push_int(&mut m, entity.id);
                        push_str(&mut m, ") is not implemented and was skipped");
                        let ghost x = Some(("sfc-unsupported-feature-skipped"@, m@, false));
                        proof {
                            assert(m@ =~= "Feature "@ + record.keyword@ + " (#"@ + int_text(entity.id as int)
                                + ") is not implemented and was skipped"@);
                            assert(extraction_issue_is(fmt, entities@[i as int], x));
                            lemma_issue_step(fmt, entities@, xs, x);
                        }
                        self.push_warning("sfc-unsupported-feature-skipped", m);
                        proof {
                            lemma_appended_push(old(self).warnings@, before.warnings@, self.warnings@,
                                issue_warnings(xs), issue_code(x), issue_text(x));
                            xs = xs.push(x);
                        }
                    } else {
                        proof {
                            assert(extraction_issue_is(fmt, entities@[i as int], None));
                            lemma_issue_step(fmt, entities@, xs, None);
                            xs = xs.push(None);
                        }
                    }
                    proof {
                        pos = pos.push(-1);
                    }
                    i = i + 1;
                    continue ;
                },
            };
            match feature {
                Ok(feature) => match validate_typed_feature_values(&feature) {
                    Ok(()) => {
                        proof {
                            pos = pos.push(sel.len() as int);
                            sel = sel.push(i as int);
                            assert(feature_decoded(lower_seq(record.keyword@), record.parameters@, feature));
                            assert(extraction_issue_is(fmt, entities@[i as int], None));
                            lemma_issue_step(fmt, entities@, xs, None);
                            xs = xs.push(None);
                        }
                        typed.push(
                            TypedFeatureInstance {
                                id: entity.id,
                                keyword: record.keyword.clone(),
                                feature,
                            },
                        );
                    },
                    Err(message) => {
                        assert(rejected(entities@[i as int]));
                        let mut m = string_from_str("Entity #");
                        push_int(&mut m, entity.id);
                        push_str(&mut m, " (");
                        push_str(&mut m, record.keyword.as_str());
                        push_str(&mut m, ") ");
                        push_str(&mut m, message.as_str());
                        let ghost x = Some(("sfc-invalid-feature-skipped"@, m@, false));
                        proof {
                            assert(m@ =~= "Entity #"@ + int_text(entity.id as int) + " ("@ + record.keyword@ + ") "@ + first_failure(feature_checks(feature))->0);
                            assert(feature_decoded(lower_seq(record.keyword@), record.parameters@, feature));
                            assert(extraction_issue_is(fmt, entities@[i as int], x));
                            lemma_issue_step(fmt, entities@, xs, x);
                        }
                        self.push_warning("sfc-invalid-feature-skipped", m);
                        proof {
                            lemma_appended_push(old(self).warnings@, before.warnings@, self.warnings@,
                                issue_warnings(xs), issue_code(x), issue_text(x));
                            xs = xs.push(x);
                            pos = pos.push(-1);
                        }
                    },
                },
                Err(message) => {
                    let mut m = string_from_str("Entity #");
                    push_int(&mut m, entity.id);
                    push_str(&mut m, " (");
                    push_str(&mut m, record.keyword.as_str());
                    push_str(&mut m, ") ");
                    push_str(&mut m, message.as_str());
                    proof {
                        assert(m@ =~= "Entity #"@ + int_text(entity.id as int) + " ("@ + record.keyword@ + ") "@ + first_failure(feature_decode_checks(lower_seq(record.keyword@), record.parameters@))->0);
                    }
                    if self.format == FileFormat::Sfc {
                        let ghost x = Some(("sfc-incomplete-feature-skipped"@, m@, false));
                        proof {
                            assert(extraction_issue_is(fmt, entities@[i as int], x));
                            lemma_issue_step(fmt, entities@, xs, x);
                        }
                        self.push_warning("sfc-incomplete-feature-skipped", m);
                        proof {
                            lemma_appended_push(old(self).warnings@, before.warnings@, self.warnings@,
                                issue_warnings(xs), issue_code(x), issue_text(x));
                            xs = xs.push(x);
                        }
                    } else {
                        let ghost x = Some(("typed-feature-parse"@, m@, true));
                        proof {
                            assert(extraction_issue_is(fmt, entities@[i as int], x));
                            lemma_issue_step(fmt, entities@, xs, x);
                        }
                        let r = self.issue_or_error("typed-feature-parse", m);
                        proof {
                            if r is Err {
                                assert(xs.push(x).drop_last() =~= xs);
                                assert(extraction_issues_are(fmt, entities@, xs.push(x)));
                            } else {
                                lemma_appended_push(old(self).warnings@, before.warnings@, self.warnings@,
                                    issue_warnings(xs), issue_code(x), issue_text(x));
                                xs = xs.push(x);
                            }
                        }
                        r?;
                    }
                    proof {
                        pos = pos.push(-1);
                    }
                },
            }
            i = i + 1;
        }
        assert forall|k: int| 0 <= k < entities@.len() && !sel.contains(k) implies rejected(
            #[trigger] entities@[k],
        ) by {
            if pos[k] != -1 {
                assert(sel[pos[k]] == k);
            }
        }
        assert(typed_selection(entities@, typed@, sel));
        assert(typed_from(entities@, typed@));
        Ok(typed)
    }
}

} // verus!
