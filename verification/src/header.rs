//! Checks on the header section and on entity ids and references.

use std::collections::HashSet;
use vstd::prelude::*;
use crate::document::{first_keyword, keyword_is};
use crate::checklist::{
    lemma_first_raised, lemma_raised_concat, lemma_raised_empty, lemma_raised_none, lemma_raised_step, raised_issues,
};
use crate::lexer::{lemma_recorded_push, raises, recorded, Parser};
use crate::model::{
    EntityBody, EntityInstance, HeaderSection, ParseError, ParsedDocument, Record, SfcVersionTag, Value,
};
use crate::sfc_model::{lemma_raises_reported, reported};
use crate::text::{
    chars_of, debug_text, debug_text_of, eq_ci, int_text, nat_text, push_int, push_str, push_usize, slice_eq_ci_str, slice_eq_str,
    string_from_range, string_from_str, trim, trim_bounds,
};

verus! {

broadcast use vstd::std_specs::hash::group_hash_axioms;

/// How many records have keyword `kw` (ASCII case-insensitively).
pub open spec fn keyword_count(recs: Seq<Record>, kw: Seq<char>) -> int
    decreases recs.len(),
{
    if recs.len() == 0 {
        0
    } else {
        keyword_count(recs.drop_last(), kw) + if eq_ci(recs.last().keyword@, kw) {
            1int
        } else {
            0int
        }
    }
}

/// The three header records a file must have exactly once.
pub open spec fn required_header_names() -> Seq<Seq<char>> {
    seq!["FILE_DESCRIPTION"@, "FILE_NAME"@, "FILE_SCHEMA"@]
}

pub open spec fn header_violation(h: HeaderSection) -> bool {
    exists|n: int| 0 <= n < 3 && keyword_count(h.entities@, #[trigger] required_header_names()[n]) != 1
}

/// A string value equal to `target` (ASCII case-insensitively).
pub open spec fn is_string_ci(v: Value, target: Seq<char>) -> bool {
    v matches Value::String(s) && eq_ci(s@, target)
}

/// `FILE_SCHEMA` is present and its first parameter does not list
/// `ASSOCIATIVE_DRAUGHTING`.
pub open spec fn schema_violation(h: HeaderSection) -> bool {
    match first_keyword(h.entities@, "FILE_SCHEMA"@) {
        None => false,
        Some(k) => {
            let p = h.entities@[k].parameters@;
            !(p.len() > 0 && p[0] is List && exists|i: int|
                0 <= i < p[0]->List_0@.len() && is_string_ci(
                    #[trigger] p[0]->List_0@[i],
                    "ASSOCIATIVE_DRAUGHTING"@,
                ))
        },
    }
}

/// The warning a `FILE_SCHEMA` without `ASSOCIATIVE_DRAUGHTING` raises.
pub open spec fn schema_issues(h: HeaderSection) -> Seq<(Seq<char>, Seq<char>)> {
    if schema_violation(h) {
        seq![("unexpected-schema"@, "FILE_SCHEMA should include ASSOCIATIVE_DRAUGHTING"@)]
    } else {
        Seq::empty()
    }
}

/// The check that header record `name` occurs exactly once: its pass, its
/// warning code and its message.
pub open spec fn header_record_check(h: HeaderSection, name: Seq<char>) -> (bool, Seq<char>, Seq<char>) {
    let n = keyword_count(h.entities@, name);
    if n == 1 {
        (true, Seq::empty(), Seq::empty())
    } else if n == 0 {
        (false, "missing-header-entity"@, "Required header entity "@ + name + " is missing"@)
    } else {
        (false, "duplicate-header-entity"@, "Header entity "@ + name + " appears "@ + nat_text(n as nat)
            + " times"@)
    }
}

/// The checks on the required header records, in order.
pub open spec fn header_checks(h: HeaderSection) -> Seq<(bool, Seq<char>, Seq<char>)> {
    Seq::new(3, |n: int| header_record_check(h, required_header_names()[n]))
}

fn count_keyword(h: &HeaderSection, kw: &str) -> (n: usize)
    ensures
        n == keyword_count(h.entities@, kw@),
{
    let ghost recs = h.entities@;
    let mut n: usize = 0;
    let mut i: usize = 0;
    while i < h.entities.len()
        invariant
            i <= recs.len(),
            recs == h.entities@,
            n == keyword_count(recs.subrange(0, i as int), kw@),
            n <= i,
        decreases recs.len() - i,
    {
        assert(recs.subrange(0, i + 1).drop_last() =~= recs.subrange(0, i as int));
        if keyword_is(&h.entities[i], kw) {
            n = n + 1;
        }
        i = i + 1;
    }
    assert(recs.subrange(0, i as int) =~= recs);
    n
}

impl Parser {
    /// Each of `FILE_DESCRIPTION`, `FILE_NAME` and `FILE_SCHEMA` must occur
    /// exactly once in the header.
    pub fn validate_required_header(&mut self, document: &ParsedDocument) -> (r: Result<(), ParseError>)
        ensures
            reported(*old(self), *final(self), r, header_violation(document.header)),
            raises(*old(self), *final(self), r, raised_issues(header_checks(document.header))),
    {
        let ghost start = *self;
        let ghost cs = header_checks(document.header);
        let names: [&str; 3] = ["FILE_DESCRIPTION", "FILE_NAME", "FILE_SCHEMA"];
        proof {
            reveal_strlit("FILE_DESCRIPTION");
            reveal_strlit("FILE_NAME");
            reveal_strlit("FILE_SCHEMA");
        }
        let mut n: usize = 0;
        while n < 3
            invariant
                n <= 3,
                names@ == seq!["FILE_DESCRIPTION", "FILE_NAME", "FILE_SCHEMA"],
                cs == header_checks(document.header),
                start == *old(self),
                start.same_source(&*self),
                self.index == start.index,
                self.line == start.line,
                self.column == start.column,
                start.strict ==> forall|j: int| 0 <= j < n ==> (#[trigger] cs[j]).0,
                recorded(start, *self, raised_issues(cs.subrange(0, n as int))),
            decreases 3 - n,
        {
            let required = names[n];
            assert(required@ == required_header_names()[n as int]);
            let count = count_keyword(&document.header, required);
            let ghost before = *self;
            proof {
                lemma_raised_step(cs, n as int);
            }
            if count == 0 {
                let mut m = string_from_str("Required header entity ");
                push_str(&mut m, required);
                push_str(&mut m, " is missing");
                let r = self.issue_or_error("missing-header-entity", m);
                proof {
                    if start.strict {
                        lemma_first_raised(cs, n as int);
                    } else {
                        lemma_recorded_push(start, before, *self, raised_issues(cs.subrange(0, n as int)), cs[n as int].1, cs[n as int].2);
                    }
                }
                r?;
            } else if count > 1 {
                let mut m = string_from_str("Header entity ");
                push_str(&mut m, required);
                push_str(&mut m, " appears ");
                push_usize(&mut m, count);
                push_str(&mut m, " times");
                let r = self.issue_or_error("duplicate-header-entity", m);
                proof {
                    if start.strict {
                        lemma_first_raised(cs, n as int);
                    } else {
                        lemma_recorded_push(start, before, *self, raised_issues(cs.subrange(0, n as int)), cs[n as int].1, cs[n as int].2);
                    }
                }
                r?;
            }
            n = n + 1;
        }
        proof {
            assert(cs.subrange(0, 3) =~= cs);
            lemma_raised_empty(cs);
            assert(header_violation(document.header) == (raised_issues(cs).len() > 0)) by {
                assert forall|j: int| 0 <= j < 3 implies (#[trigger] cs[j]).0 == (keyword_count(
                    document.header.entities@,
                    required_header_names()[j],
                ) == 1) by {}
                if header_violation(document.header) {
                    let j = choose|j: int|
                        0 <= j < 3 && keyword_count(document.header.entities@, #[trigger] required_header_names()[j]) != 1;
                    assert(!cs[j].0);
                }
            }
            lemma_raises_reported(start, *self, Ok(()), raised_issues(cs), header_violation(document.header));
        }
        Ok(())
    }

    /// `FILE_SCHEMA` should list `ASSOCIATIVE_DRAUGHTING`.
    pub fn validate_file_schema(&mut self, document: &ParsedDocument) -> (r: Result<(), ParseError>)
        ensures
            reported(*old(self), *final(self), r, schema_violation(document.header)),
            raises(*old(self), *final(self), r, schema_issues(document.header)),
    {
        let ghost start = *self;
        let record = match document.header.find_keyword("FILE_SCHEMA") {
            Some(record) => record,
            None => {
                return Ok(());
            },
        };
        let ghost recs = document.header.entities@;
        proof {
            let k = first_keyword(recs, "FILE_SCHEMA"@);
            assert(k is Some);
            let w = choose|i: int|
                0 <= i < recs.len() && recs[i] == *record && eq_ci(record.keyword@, "FILE_SCHEMA"@)
                    && forall|j: int| 0 <= j < i ==> !eq_ci(#[trigger] recs[j].keyword@, "FILE_SCHEMA"@);
            assert(recs[k.unwrap()] == *record) by {
                let c = k.unwrap();
                assert(c == w || c < w || w < c);
            }
        }
        let mut found_schema = false;
        if record.parameters.len() > 0 {
            match &record.parameters[0] {
                Value::List(items) => {
                    let mut i: usize = 0;
                    while i < items.len()
                        invariant_except_break
                            !found_schema,
                        invariant
                            i <= items@.len(),
                            forall|j: int|
                                0 <= j < i ==> !is_string_ci(#[trigger] items@[j], "ASSOCIATIVE_DRAUGHTING"@),
                        ensures
                            found_schema ==> exists|j: int|
                                0 <= j < items@.len() && is_string_ci(
                                    #[trigger] items@[j],
                                    "ASSOCIATIVE_DRAUGHTING"@,
                                ),
                            !found_schema ==> forall|j: int|
                                0 <= j < items@.len() ==> !is_string_ci(
                                    #[trigger] items@[j],
                                    "ASSOCIATIVE_DRAUGHTING"@,
                                ),
                        decreases items@.len() - i,
                    {
                        match &items[i] {
                            Value::String(value) => {
                                let cs = chars_of(value.as_str());
                                if slice_eq_ci_str(cs.as_slice(), "ASSOCIATIVE_DRAUGHTING") {
                                    assert(is_string_ci(items@[i as int], "ASSOCIATIVE_DRAUGHTING"@));
                                    found_schema = true;
                                    break ;
                                }
                            },
                            _ => {},
                        }
                        i = i + 1;
                    }
                },
                _ => {},
            }
        }
        if !found_schema {
            let r = self.issue_or_error(
                "unexpected-schema",
                string_from_str("FILE_SCHEMA should include ASSOCIATIVE_DRAUGHTING"),
            );
            proof {
                if !start.strict {
                    lemma_recorded_push(start, start, *self, Seq::empty(), "unexpected-schema"@,
                        "FILE_SCHEMA should include ASSOCIATIVE_DRAUGHTING"@);
                    assert(Seq::<(Seq<char>, Seq<char>)>::empty().push(("unexpected-schema"@,
                        "FILE_SCHEMA should include ASSOCIATIVE_DRAUGHTING"@)) =~= schema_issues(document.header));
                }
            }
            return r;
        }
        Ok(())
    }
}

/// `FILE_DESCRIPTION` is `(('SCADEC level2 feature_mode'),'2;1')`.
pub open spec fn description_valid(rec: Record) -> bool {
    let p = rec.parameters@;
    &&& p.len() == 2
    &&& p[0] is List
    &&& p[0]->List_0@.len() == 1
    &&& is_string_ci(p[0]->List_0@[0], "SCADEC level2 feature_mode"@)
    &&& p[1] is String
    &&& p[1]->String_0@ == "2;1"@
}

pub open spec fn all_strings(vs: Seq<Value>) -> bool {
    forall|i: int| 0 <= i < vs.len() ==> (#[trigger] vs[i]) is String
}

/// `FILE_NAME` has name, time stamp, author list, organization list,
/// preprocessor, system and authorization.
pub open spec fn file_name_shape(rec: Record) -> bool {
    let p = rec.parameters@;
    &&& p.len() == 7
    &&& p[0] is String
    &&& p[1] is String
    &&& p[2] is List
    &&& all_strings(p[2]->List_0@)
    &&& p[3] is List
    &&& all_strings(p[3]->List_0@)
    &&& p[4] is String
    &&& p[5] is String
    &&& p[6] is String
}

/// Start of the last `$$` at or before `k` (`str::rsplit_once`).
pub open spec fn last_sep_from(s: Seq<char>, k: int) -> Option<int>
    decreases k + 1,
{
    if k < 0 {
        None
    } else if k + 1 < s.len() && s[k] == '$' && s[k + 1] == '$' {
        Some(k)
    } else {
        last_sep_from(s, k - 1)
    }
}

/// The version after the last `$$` of the preprocessor field, trimmed.
pub open spec fn declared_version(pre: Seq<char>) -> Option<Seq<char>> {
    match last_sep_from(pre, pre.len() - 2) {
        Some(i) => Some(trim(pre.subrange(i + 2, pre.len() as int))),
        None => None,
    }
}

pub open spec fn version_rank(v: Option<Seq<char>>) -> Option<int> {
    match v {
        Some(s) => if s == "2.0"@ || s == "2"@ {
            Some(20)
        } else if s == "3.0"@ || s == "3"@ {
            Some(30)
        } else if s == "3.1"@ {
            Some(31)
        } else {
            None
        },
        None => None,
    }
}

/// What a declared version admits: `2.0` (or `2`) admits `/*SXF` blocks
/// only, `3.0` (or `3`) admits `/*SXF` and `/*SXF3` blocks, and `3.1`
/// admits every block version.
pub proof fn lemma_declared_versions_admit(v: SfcVersionTag)
    ensures
        (version_rank(Some("2.0"@)) matches Some(r) && (v.rank() <= r <==> v == SfcVersionTag::V2)),
        (version_rank(Some("2"@)) matches Some(r) && (v.rank() <= r <==> v == SfcVersionTag::V2)),
        (version_rank(Some("3.0"@)) matches Some(r) && (v.rank() <= r <==> v != SfcVersionTag::V31)),
        (version_rank(Some("3"@)) matches Some(r) && (v.rank() <= r <==> v != SfcVersionTag::V31)),
        (version_rank(Some("3.1"@)) matches Some(r) && v.rank() <= r),
{
    reveal_strlit("2.0");
    reveal_strlit("2");
    reveal_strlit("3.0");
    reveal_strlit("3");
    reveal_strlit("3.1");
    assert("2.0"@[0] != "3.0"@[0]);
    assert("2"@[0] != "3"@[0]);
    assert("2.0"@[0] != "3.1"@[0]);
    assert("3.0"@[2] != "3.1"@[2]);
    assert("2"@.len() != "3.1"@.len());
    assert("3"@.len() != "3.1"@.len());
    assert("2"@.len() != "3.0"@.len());
    assert("2.0"@.len() != "3"@.len());
}

/// Some feature block uses a newer SFC version than the header declares.
pub open spec fn newer_block(ents: Seq<EntityInstance>, rank: int) -> bool {
    exists|k: int|
        0 <= k < ents.len() && (#[trigger] ents[k]).sfc_version is Some
            && ents[k].sfc_version.unwrap().rank() > rank
}

pub open spec fn sfc_header_violation(doc: ParsedDocument) -> bool {
    let h = doc.header.entities@;
    match first_keyword(h, "FILE_DESCRIPTION"@) {
        None => false,
        Some(d) => !description_valid(h[d]) || match first_keyword(h, "FILE_NAME"@) {
            None => false,
            Some(f) => !file_name_shape(h[f]) || match version_rank(
                declared_version(h[f].parameters@[4]->String_0@),
            ) {
                None => true,
                Some(rank) => newer_block(doc.entities@, rank),
            },
        },
    }
}

/// The check that entity `k` needs no newer SFC version than the header
/// declares (`declared`, of the given rank): its pass, code and message.
pub open spec fn version_check(ents: Seq<EntityInstance>, rank: int, declared: Seq<char>, k: int) -> (
    bool,
    Seq<char>,
    Seq<char>,
) {
    (
        !(ents[k].sfc_version is Some && ents[k].sfc_version.unwrap().rank() > rank),
        "sfc-version-header"@,
        "Entity #"@ + int_text(ents[k].id as int) + " uses "@ + ents[k].sfc_version.unwrap().spec_marker()
            + " but FILE_NAME declares "@ + debug_text(declared),
    )
}

/// The version checks, one per entity, in order.
pub open spec fn version_checks(ents: Seq<EntityInstance>, rank: int, declared: Seq<char>) -> Seq<
    (bool, Seq<char>, Seq<char>),
> {
    Seq::new(ents.len(), |k: int| version_check(ents, rank, declared, k))
}

/// The warnings the SFC header checks raise, in order: a wrong
/// `FILE_DESCRIPTION`; then a `FILE_NAME` of the wrong shape, or an
/// unknown declared version, or each feature block newer than it.
pub open spec fn sfc_header_issues(doc: ParsedDocument) -> Seq<(Seq<char>, Seq<char>)> {
    let h = doc.header.entities@;
    match first_keyword(h, "FILE_DESCRIPTION"@) {
        None => Seq::empty(),
        Some(d) => {
            let described = if description_valid(h[d]) {
                Seq::empty()
            } else {
                seq![
                    (
                        "sfc-file-description"@,
                        "SFC FILE_DESCRIPTION must be (('SCADEC level2 feature_mode'),'2;1')"@,
                    ),
                ]
            };
            described + match first_keyword(h, "FILE_NAME"@) {
                None => Seq::empty(),
                Some(f) => if !file_name_shape(h[f]) {
                    seq![
                        (
                            "sfc-file-name"@,
                            "SFC FILE_NAME must contain name, timestamp, author list, organization list, preprocessor, system and authorization"@,
                        ),
                    ]
                } else {
                    let pre = h[f].parameters@[4]->String_0@;
                    match version_rank(declared_version(pre)) {
                        None => seq![
                            (
                                "sfc-version-header"@,
                                "SFC FILE_NAME preprocessor version "@ + debug_text(pre)
                                    + " must end in $$2.0, $$3.0 or $$3.1"@,
                            ),
                        ],
                        Some(rank) => raised_issues(
                            version_checks(doc.entities@, rank, declared_version(pre).unwrap()),
                        ),
                    }
                },
            }
        },
    }
}

proof fn lemma_first_keyword_is(recs: Seq<Record>, kw: Seq<char>, rec: Record)
    requires
        exists|i: int|
            0 <= i < recs.len() && recs[i] == rec && eq_ci(rec.keyword@, kw) && forall|j: int|
                0 <= j < i ==> !eq_ci(#[trigger] recs[j].keyword@, kw),
    ensures
        first_keyword(recs, kw) matches Some(k) && recs[k] == rec,
{
    let w = choose|i: int|
        0 <= i < recs.len() && recs[i] == rec && eq_ci(rec.keyword@, kw) && forall|j: int|
            0 <= j < i ==> !eq_ci(#[trigger] recs[j].keyword@, kw);
    let k = first_keyword(recs, kw);
    assert(k is Some);
    let c = k.unwrap();
    assert(c == w || c < w || w < c);
}

/// Finds the version text after the last `$$`: its bounds, trimmed.
fn declared_version_bounds(s: &Vec<char>) -> (r: Option<(usize, usize)>)
    ensures
        match r {
            Some((lo, hi)) => lo <= hi <= s@.len() && declared_version(s@) == Some(
                s@.subrange(lo as int, hi as int),
            ),
            None => declared_version(s@) is None,
        },
{
    if s.len() < 2 {
        return None;
    }
    let mut k: usize = s.len() - 1;
    while k > 0
        invariant
            k <= s@.len() - 1,
            k < s.len(),
            s@.len() >= 2,
            last_sep_from(s@, s@.len() - 2) == last_sep_from(s@, k - 1),
        decreases k,
    {
        if s[k - 1] == '$' && s[k] == '$' {
            let rest = slice_from(s, k + 1);
            let (lo, hi) = trim_bounds(rest);
            assert(rest@.subrange(lo as int, hi as int) =~= s@.subrange(k + 1 + lo, k + 1 + hi));
            return Some((k + 1 + lo, k + 1 + hi));
        }
        k = k - 1;
    }
    None
}

fn slice_from(s: &Vec<char>, lo: usize) -> (r: &[char])
    requires
        lo <= s@.len(),
    ensures
        r@ == s@.subrange(lo as int, s@.len() as int),
{
    let t = s.as_slice();
    &t[lo..s.len()]
}

impl Parser {
    /// The SFC header: `FILE_DESCRIPTION` with the SCADEC feature mode,
    /// `FILE_NAME` of the required shape, a preprocessor version ending in
    /// `$$2.0`, `$$3.0` or `$$3.1`, and no feature block newer than it.
    pub fn validate_sfc_header(&mut self, document: &ParsedDocument) -> (r: Result<(), ParseError>)
        ensures
            reported(*old(self), *final(self), r, sfc_header_violation(*document)),
            raises(*old(self), *final(self), r, sfc_header_issues(*document)),
    {
        let ghost recs = document.header.entities@;
        let ghost empty_issues = Seq::<(Seq<char>, Seq<char>)>::empty();
        let description = match document.header.find_keyword("FILE_DESCRIPTION") {
            Some(d) => d,
            None => {
                return Ok(());
            },
        };
        proof {
            lemma_first_keyword_is(recs, "FILE_DESCRIPTION"@, *description);
            reveal_strlit("SCADEC level2 feature_mode");
            reveal_strlit("2;1");
        }
        let ghost start = *self;
        let mut description_ok = false;
        if description.parameters.len() == 2 {
            match (&description.parameters[0], &description.parameters[1]) {
                (Value::List(items), Value::String(level)) => {
                    if items.len() == 1 {
                        match &items[0] {
                            Value::String(mode) => {
                                let mode_chars = chars_of(mode.as_str());
                                let level_chars = chars_of(level.as_str());
                                description_ok = slice_eq_ci_str(mode_chars.as_slice(), "SCADEC level2 feature_mode")
                                    && slice_eq_str(level_chars.as_slice(), "2;1");
                            },
                            _ => {},
                        }
                    }
                },
                _ => {},
            }
        }
        assert(description_ok == description_valid(*description));
        let ghost described = if description_ok {
            empty_issues
        } else {
            seq![
                (
                    "sfc-file-description"@,
                    "SFC FILE_DESCRIPTION must be (('SCADEC level2 feature_mode'),'2;1')"@,
                ),
            ]
        };
        if !description_ok {
            let r = self.issue_or_error(
                "sfc-file-description",
                string_from_str("SFC FILE_DESCRIPTION must be (('SCADEC level2 feature_mode'),'2;1')"),
            );
            proof {
                if !start.strict {
                    lemma_recorded_push(start, start, *self, empty_issues, described[0].0, described[0].1);
                    assert(empty_issues.push(described[0]) =~= described);
                }
            }
            r?;
        }
        let ghost after_description = *self;
        assert(recorded(start, *self, described));
        assert(start.strict ==> described.len() == 0);
        let file_name = match document.header.find_keyword("FILE_NAME") {
            Some(f) => f,
            None => {
                assert(described + empty_issues =~= described);
                return Ok(());
            },
        };
        proof {
            lemma_first_keyword_is(recs, "FILE_NAME"@, *file_name);
        }
        let p = &file_name.parameters;
        let mut shape_ok = p.len() == 7;
        if shape_ok {
            shape_ok = match (&p[0], &p[1], &p[2], &p[3], &p[4], &p[5], &p[6]) {
                (
                    Value::String(_),
                    Value::String(_),
                    Value::List(authors),
                    Value::List(organizations),
                    Value::String(_),
                    Value::String(_),
                    Value::String(_),
                ) => all_string_values(authors) && all_string_values(organizations),
                _ => false,
            };
        }
        assert(shape_ok == file_name_shape(*file_name));
        if !shape_ok {
            let ghost tail = seq![
                (
                    "sfc-file-name"@,
                    "SFC FILE_NAME must contain name, timestamp, author list, organization list, preprocessor, system and authorization"@,
                ),
            ];
            let r = self.issue_or_error(
                "sfc-file-name",
                string_from_str(
                    "SFC FILE_NAME must contain name, timestamp, author list, organization list, preprocessor, system and authorization",
                ),
            );
            proof {
                assert(described.push(tail[0]) =~= described + tail);
                if !start.strict {
                    lemma_recorded_push(start, after_description, *self, described, tail[0].0, tail[0].1);
                } else {
                    assert(described + tail =~= tail);
                }
            }
            return r;
        }
        let preprocessor_version = match &p[4] {
            Value::String(v) => v,
            _ => {
                return Ok(());
            },
        };
        let pre = chars_of(preprocessor_version.as_str());
        proof {
            reveal_strlit("2.0");
            reveal_strlit("2");
            reveal_strlit("3.0");
            reveal_strlit("3");
            reveal_strlit("3.1");
        }
        let (declared_rank, declared_text): (Option<i64>, String) = match declared_version_bounds(&pre) {
            Some((lo, hi)) => {
                let v = slice_range_of(&pre, lo, hi);
                let rank: Option<i64> = if slice_eq_str(v, "2.0") || slice_eq_str(v, "2") {
                    Some(20)
                } else if slice_eq_str(v, "3.0") || slice_eq_str(v, "3") {
                    Some(30)
                } else if slice_eq_str(v, "3.1") {
                    Some(31)
                } else {
                    None
                };
                (rank, string_from_range(&pre, lo, hi))
            },
            None => (None, String::new()),
        };
        assert(match declared_rank {
            Some(x) => version_rank(declared_version(pre@)) == Some(x as int),
            None => version_rank(declared_version(pre@)) is None,
        });
        let rank = match declared_rank {
            Some(rank) => rank,
            None => {
                let mut m = string_from_str("SFC FILE_NAME preprocessor version ");
                push_str(&mut m, debug_text_of(preprocessor_version.as_str()).as_str());
                push_str(&mut m, " must end in $$2.0, $$3.0 or $$3.1");
                let ghost tail = seq![("sfc-version-header"@, m@)];
                let r = self.issue_or_error("sfc-version-header", m);
                proof {
                    assert(described.push(tail[0]) =~= described + tail);
                    if !start.strict {
                        lemma_recorded_push(start, after_description, *self, described, tail[0].0, tail[0].1);
                    } else {
                        assert(described + tail =~= tail);
                    }
                }
                return r;
            },
        };
        let ghost ents = document.entities@;
        let ghost mid = *self;
        let ghost vc = version_checks(ents, rank as int, declared_text@);
        assert(declared_version(pre@) == Some(declared_text@));
        assert(sfc_header_issues(*document) == described + raised_issues(vc));
        assert(vc.subrange(0, 0) =~= Seq::<(bool, Seq<char>, Seq<char>)>::empty());
        assert(described + raised_issues(vc.subrange(0, 0)) =~= described);
        assert(newer_block(ents, rank as int) ==> sfc_header_violation(*document));
        let mut k: usize = 0;
        while k < document.entities.len()
            invariant
                k <= ents.len(),
                ents == document.entities@,
                newer_block(ents, rank as int) ==> sfc_header_violation(*document),
                start == *old(self),
                mid.same_source(&*self),
                start.same_source(&*self),
                self.index == start.index,
                self.line == start.line,
                self.column == start.column,
                start.keeps_warnings(&*self),
                mid.keeps_warnings(&*self),
                start.quiet_if_strict(&*self),
                mid.strict == start.strict,
                start.strict ==> forall|j: int|
                    0 <= j < k ==> !((#[trigger] ents[j]).sfc_version is Some && ents[j].sfc_version.unwrap().rank() > rank),
                !start.strict ==> ((exists|j: int|
                    0 <= j < k && (#[trigger] ents[j]).sfc_version is Some && ents[j].sfc_version.unwrap().rank() > rank)
                    <==> self.warnings@.len() > mid.warnings@.len()),
                vc == version_checks(ents, rank as int, declared_text@),
                sfc_header_issues(*document) == described + raised_issues(vc),
                start.strict ==> described.len() == 0,
                start.strict ==> forall|j: int| 0 <= j < k ==> (#[trigger] vc[j]).0,
                recorded(start, *self, described + raised_issues(vc.subrange(0, k as int))),
            decreases ents.len() - k,
        {
            let entity = &document.entities[k];
            let ghost before = *self;
            proof {
                lemma_raised_step(vc, k as int);
            }
            match entity.sfc_version {
                Some(tag) => {
                    let required_rank: i64 = match tag {
                        crate::model::SfcVersionTag::V2 => 20,
                        crate::model::SfcVersionTag::V3 => 30,
                        crate::model::SfcVersionTag::V31 => 31,
                    };
                    if required_rank > rank {
                        assert(ents[k as int].sfc_version.unwrap().rank() > rank);
                        assert(newer_block(ents, rank as int));
                        let mut m = string_from_str("Entity #");
                        push_int(&mut m, entity.id);
                        push_str(&mut m, " uses ");
                        push_str(&mut m, tag.marker());
                        push_str(&mut m, " but FILE_NAME declares ");
                        push_str(&mut m, debug_text_of(declared_text.as_str()).as_str());
                        assert(!vc[k as int].0);
                        assert(m@ == vc[k as int].2);
                        let r = self.issue_or_error("sfc-version-header", m);
                        proof {
                            if start.strict {
                                lemma_first_raised(vc, k as int);
                                assert(described + raised_issues(vc) =~= raised_issues(vc));
                            } else {
                                lemma_recorded_push(start, before, *self, described + raised_issues(
                                    vc.subrange(0, k as int),
                                ), vc[k as int].1, vc[k as int].2);
                                assert((described + raised_issues(vc.subrange(0, k as int))).push(
                                    (vc[k as int].1, vc[k as int].2),
                                ) =~= described + raised_issues(vc.subrange(0, k + 1)));
                            }
                        }
                        r?;
                    } else {
                        assert(vc[k as int].0);
                    }
                },
                None => {
                    assert(vc[k as int].0);
                },
            }
            k = k + 1;
        }
        proof {
            assert(vc.subrange(0, k as int) =~= vc);
            lemma_raised_empty(vc);
            if start.strict {
                assert(described + raised_issues(vc) =~= raised_issues(vc));
            }
        }
        Ok(())
    }
}

fn slice_range_of(s: &Vec<char>, lo: usize, hi: usize) -> (r: &[char])
    requires
        lo <= hi <= s@.len(),
    ensures
        r@ == s@.subrange(lo as int, hi as int),
{
    let t = s.as_slice();
    &t[lo..hi]
}

/// Every value in the list is a string.
fn all_string_values(values: &Vec<Value>) -> (b: bool)
    ensures
        b == all_strings(values@),
{
    let mut i: usize = 0;
    while i < values.len()
        invariant
            i <= values@.len(),
            forall|j: int| 0 <= j < i ==> (#[trigger] values@[j]) is String,
        decreases values@.len() - i,
    {
        match &values[i] {
            Value::String(_) => {},
            _ => {
                return false;
            },
        }
        i = i + 1;
    }
    true
}

/// Some entity id occurs twice.
pub open spec fn duplicate_ids(ents: Seq<EntityInstance>) -> bool {
    exists|j: int, k: int| 0 <= j < k < ents.len() && (#[trigger] ents[j]).id == (#[trigger] ents[k]).id
}

/// The check that entity `k` does not reuse the id of an earlier entity: its
/// pass, its warning code and its message.
pub open spec fn id_check(ents: Seq<EntityInstance>, k: int) -> (bool, Seq<char>, Seq<char>) {
    (
        !exists|j: int| 0 <= j < k && (#[trigger] ents[j]).id == ents[k].id,
        "duplicate-entity-id"@,
        "Entity id #"@ + int_text(ents[k].id as int) + " is duplicated"@,
    )
}

/// The checks on entity ids, one per entity, in order.
pub open spec fn id_checks(ents: Seq<EntityInstance>) -> Seq<(bool, Seq<char>, Seq<char>)> {
    Seq::new(ents.len(), |k: int| id_check(ents, k))
}

/// The entity ids referenced in a value, in order.
pub open spec fn value_refs(v: Value) -> Seq<i64>
    decreases v,
{
    match v {
        Value::Reference(id) => seq![id],
        Value::List(vs) => values_refs(vs@),
        Value::Typed { parameters, .. } => values_refs(parameters@),
        _ => Seq::empty(),
    }
}

/// The entity ids referenced in a sequence of values, in order.
pub open spec fn values_refs(vs: Seq<Value>) -> Seq<i64>
    decreases vs,
{
    if vs.len() == 0 {
        Seq::empty()
    } else {
        values_refs(vs.subrange(0, vs.len() - 1)) + value_refs(vs[vs.len() - 1])
    }
}

/// The entity ids referenced in records, in order.
pub open spec fn records_refs(recs: Seq<Record>) -> Seq<i64>
    decreases recs.len(),
{
    if recs.len() == 0 {
        Seq::empty()
    } else {
        records_refs(recs.drop_last()) + values_refs(recs.last().parameters@)
    }
}

/// The entity ids an entity references.
pub open spec fn entity_refs(e: EntityInstance) -> Seq<i64> {
    match e.body {
        EntityBody::Simple(rec) => values_refs(rec.parameters@),
        EntityBody::Complex(recs) => records_refs(recs@),
    }
}

/// Some entity has id `c`.
pub open spec fn defined_id(ents: Seq<EntityInstance>, c: i64) -> bool {
    exists|m: int| 0 <= m < ents.len() && (#[trigger] ents[m]).id == c
}

/// Entity `e` references an id that no entity has.
pub open spec fn entity_dangles(ents: Seq<EntityInstance>, e: EntityInstance) -> bool {
    exists|j: int| 0 <= j < entity_refs(e).len() && !defined_id(ents, #[trigger] entity_refs(e)[j])
}

/// Some entity references an id that no entity has.
pub open spec fn dangling_reference(ents: Seq<EntityInstance>) -> bool {
    exists|k: int| 0 <= k < ents.len() && entity_dangles(ents, #[trigger] ents[k])
}

/// Appends the references in `value` to `refs`.
pub fn collect_refs_from_value(value: &Value, refs: &mut Vec<i64>)
    ensures
        final(refs)@ == old(refs)@ + value_refs(*value),
    decreases value,
{
    match value {
        Value::Reference(id) => {
            refs.push(*id);
        },
        Value::List(values) => {
            collect_refs_from_values(values, refs);
        },
        Value::Typed { parameters, .. } => {
            collect_refs_from_values(parameters, refs);
        },
        _ => {},
    }
    assert(final(refs)@ =~= old(refs)@ + value_refs(*value)) by {}
}

/// Appends the references in `values` to `refs`.
pub fn collect_refs_from_values(values: &Vec<Value>, refs: &mut Vec<i64>)
    ensures
        final(refs)@ == old(refs)@ + values_refs(values@),
    decreases values,
{
    let mut i: usize = 0;
    while i < values.len()
        invariant
            i <= values@.len(),
            refs@ == old(refs)@ + values_refs(values@.subrange(0, i as int)),
        decreases values@.len() - i,
    {
        proof {
            assert(values@.subrange(0, i + 1).subrange(0, i as int) =~= values@.subrange(0, i as int));
            assert(decreases_to!(values => values@[i as int]));
        }
        collect_refs_from_value(&values[i], refs);
        assert(refs@ =~= old(refs)@ + values_refs(values@.subrange(0, i + 1)));
        i = i + 1;
    }
    assert(values@.subrange(0, i as int) =~= values@);
}

/// Appends the references in the parameters of `record` to `refs`.
pub fn collect_refs_from_record(record: &Record, refs: &mut Vec<i64>)
    ensures
        final(refs)@ == old(refs)@ + values_refs(record.parameters@),
{
    collect_refs_from_values(&record.parameters, refs);
}

impl EntityInstance {
    /// The entity ids this entity references, in order.
    pub fn collect_references(&self) -> (r: Vec<i64>)
        ensures
            r@ == entity_refs(*self),
    {
        let mut refs: Vec<i64> = Vec::new();
        match &self.body {
            EntityBody::Simple(record) => {
                collect_refs_from_record(record, &mut refs);
                assert(refs@ =~= entity_refs(*self));
            },
            EntityBody::Complex(records) => {
                let mut i: usize = 0;
                while i < records.len()
                    invariant
                        i <= records@.len(),
                        refs@ == records_refs(records@.subrange(0, i as int)),
                    decreases records@.len() - i,
                {
                    assert(records@.subrange(0, i + 1).drop_last() =~= records@.subrange(0, i as int));
                    collect_refs_from_record(&records[i], &mut refs);
                    i = i + 1;
                }
                assert(records@.subrange(0, i as int) =~= records@);
            },
        }
        refs
    }
}

impl Parser {
    /// Every entity id must be unique.
    pub fn validate_duplicate_ids(&mut self, document: &ParsedDocument) -> (r: Result<(), ParseError>)
        ensures
            reported(*old(self), *final(self), r, duplicate_ids(document.entities@)),
            raises(*old(self), *final(self), r, raised_issues(id_checks(document.entities@))),
    {
        let ghost ents = document.entities@;
        let ghost start = *self;
        let ghost cs = id_checks(ents);
        let mut ids: HashSet<i64> = HashSet::new();
        let mut k: usize = 0;
        while k < document.entities.len()
            invariant
                k <= ents.len(),
                ents == document.entities@,
                start == *old(self),
                start.same_source(&*self),
                self.index == start.index,
                self.line == start.line,
                self.column == start.column,
                start.keeps_warnings(&*self),
                start.quiet_if_strict(&*self),
                forall|c: i64| ids@.contains(c) <==> exists|j: int| 0 <= j < k && (#[trigger] ents[j]).id == c,
                start.strict ==> !(exists|j: int, q: int|
                    0 <= j < q < k && (#[trigger] ents[j]).id == (#[trigger] ents[q]).id),
                !start.strict ==> ((exists|j: int, q: int|
                    0 <= j < q < k && (#[trigger] ents[j]).id == (#[trigger] ents[q]).id)
                    <==> self.warnings@.len() > start.warnings@.len()),
                cs == id_checks(ents),
                start.strict ==> forall|j: int| 0 <= j < k ==> (#[trigger] cs[j]).0,
                recorded(start, *self, raised_issues(cs.subrange(0, k as int))),
            decreases ents.len() - k,
        {
            let id = document.entities[k].id;
            let ghost before = *self;
            proof {
                lemma_raised_step(cs, k as int);
            }
            if !ids.insert(id) {
                proof {
                    let j = choose|j: int| 0 <= j < k && (#[trigger] ents[j]).id == id;
                    assert(ents[j].id == ents[k as int].id);
                    assert(!cs[k as int].0);
                }
                let mut m = string_from_str("Entity id #");
                push_int(&mut m, id);
                push_str(&mut m, " is duplicated");
                let r = self.issue_or_error("duplicate-entity-id", m);
                proof {
                    if start.strict {
                        lemma_first_raised(cs, k as int);
                    } else {
                        lemma_recorded_push(start, before, *self, raised_issues(cs.subrange(0, k as int)), cs[k as int].1, cs[k as int].2);
                    }
                }
                r?;
            } else {
                assert(cs[k as int].0);
                assert forall|j: int, q: int| 0 <= j < q < k + 1 && (#[trigger] ents[j]).id == (
                #[trigger] ents[q]).id implies q < k by {
                    if q == k {
                        assert(ids@.len() >= 0);
                    }
                }
            }
            k = k + 1;
        }
        proof {
            assert(cs.subrange(0, k as int) =~= cs);
            lemma_raised_empty(cs);
        }
        Ok(())
    }

    /// Every reference must name an entity of the document.
    pub fn validate_references(&mut self, document: &ParsedDocument) -> (r: Result<(), ParseError>)
        ensures
            reported(*old(self), *final(self), r, dangling_reference(document.entities@)),
            raises(*old(self), *final(self), r, raised_issues(reference_checks(document.entities@))),
    {
        let ghost ents = document.entities@;
        let ghost start = *self;
        let mut ids: HashSet<i64> = HashSet::new();
        let mut e: usize = 0;
        while e < document.entities.len()
            invariant
                e <= ents.len(),
                ents == document.entities@,
                forall|c: i64| #[trigger] ids@.contains(c) <==> exists|m: int| 0 <= m < e && (#[trigger] ents[m]).id == c,
            decreases ents.len() - e,
        {
            ids.insert(document.entities[e].id);
            e = e + 1;
        }
        assert forall|c: i64| #[trigger] ids@.contains(c) <==> defined_id(ents, c) by {}
        let mut k: usize = 0;
        while k < document.entities.len()
            invariant
                k <= ents.len(),
                ents == document.entities@,
                forall|c: i64| #[trigger] ids@.contains(c) <==> defined_id(ents, c),
                start == *old(self),
                start.same_source(&*self),
                self.index == start.index,
                self.line == start.line,
                self.column == start.column,
                start.keeps_warnings(&*self),
                start.quiet_if_strict(&*self),
                start.strict ==> forall|q: int| 0 <= q < k ==> !entity_dangles(ents, #[trigger] ents[q]),
                !start.strict ==> ((exists|q: int| 0 <= q < k && entity_dangles(ents, #[trigger] ents[q]))
                    <==> self.warnings@.len() > start.warnings@.len()),
                start.strict ==> forall|i: int|
                    0 <= i < reference_checks_upto(ents, k as nat).len() ==> (#[trigger] reference_checks_upto(
                        ents,
                        k as nat,
                    )[i]).0,
                recorded(start, *self, raised_issues(reference_checks_upto(ents, k as nat))),
            decreases ents.len() - k,
        {
            let entity = &document.entities[k];
            let refs = entity.collect_references();
            let ghost before = *self;
            let ghost done = reference_checks_upto(ents, k as nat);
            let ghost inner = entity_reference_checks(ents, ents[k as int]);
            let mut j: usize = 0;
            while j < refs.len()
                invariant
                    j <= refs@.len(),
                    k < ents.len(),
                    ents == document.entities@,
                    refs@ == entity_refs(ents[k as int]),
                    *entity == ents[k as int],
                    forall|c: i64| #[trigger] ids@.contains(c) <==> defined_id(ents, c),
                    start == *old(self),
                    start.same_source(&*self),
                    self.index == start.index,
                    self.line == start.line,
                    self.column == start.column,
                    start.keeps_warnings(&*self),
                    before.keeps_warnings(&*self),
                    start.quiet_if_strict(&*self),
                    start.strict ==> forall|q: int| 0 <= q < j ==> defined_id(ents, #[trigger] refs@[q]),
                    !start.strict ==> ((exists|q: int| 0 <= q < j && !defined_id(ents, #[trigger] refs@[q]))
                        <==> self.warnings@.len() > before.warnings@.len()),
                    done == reference_checks_upto(ents, k as nat),
                    inner == entity_reference_checks(ents, ents[k as int]),
                    start.strict ==> forall|i: int| 0 <= i < done.len() ==> (#[trigger] done[i]).0,
                    recorded(start, *self, raised_issues(done) + raised_issues(inner.subrange(0, j as int))),
                decreases refs@.len() - j,
            {
                let reference = refs[j];
                let ghost mid = *self;
                proof {
                    lemma_raised_step(inner, j as int);
                }
                if !ids.contains(&reference) {
                    assert(!defined_id(ents, refs@[j as int]));
                    assert(entity_dangles(ents, ents[k as int]));
                    let mut m = string_from_str("Entity #");
                    push_int(&mut m, entity.id);
                    push_str(&mut m, " references undefined entity #");
                    push_int(&mut m, reference);
                    let r = self.issue_or_error("undefined-reference", m);
                    proof {
                        if start.strict {
                            lemma_first_reference_raised(ents, k as nat, j as int);
                        } else {
                            lemma_recorded_push(start, mid, *self, raised_issues(done) + raised_issues(
                                inner.subrange(0, j as int),
                            ), inner[j as int].1, inner[j as int].2);
                            assert((raised_issues(done) + raised_issues(inner.subrange(0, j as int))).push(
                                (inner[j as int].1, inner[j as int].2),
                            ) =~= raised_issues(done) + raised_issues(inner.subrange(0, j + 1)));
                        }
                    }
                    r?;
                }
                j = j + 1;
            }
            proof {
                if !start.strict {
                    assert(entity_dangles(ents, ents[k as int]) <==> self.warnings@.len() > before.warnings@.len());
                }
                assert(inner.subrange(0, j as int) =~= inner);
                assert(reference_checks_upto(ents, (k + 1) as nat) == done + inner);
                lemma_raised_concat(done, inner);
                if start.strict {
                    assert forall|i: int| 0 <= i < (done + inner).len() implies (#[trigger] (done + inner)[i]).0 by {
                        if i >= done.len() {
                            assert((done + inner)[i] == inner[i - done.len()]);
                        }
                    }
                }
            }
            k = k + 1;
        }
        proof {
            lemma_raised_empty(reference_checks(ents));
        }
        Ok(())
    }
}

/// The check that reference `c` of entity `e` names an entity: its pass,
/// its warning code and its message.
pub open spec fn reference_check(ents: Seq<EntityInstance>, e: EntityInstance, c: i64) -> (
    bool,
    Seq<char>,
    Seq<char>,
) {
    (
        defined_id(ents, c),
        "undefined-reference"@,
        "Entity #"@ + int_text(e.id as int) + " references undefined entity #"@ + int_text(c as int),
    )
}

/// The checks on the references of entity `e`, in order.
pub open spec fn entity_reference_checks(ents: Seq<EntityInstance>, e: EntityInstance) -> Seq<
    (bool, Seq<char>, Seq<char>),
> {
    Seq::new(entity_refs(e).len(), |j: int| reference_check(ents, e, entity_refs(e)[j]))
}

/// The checks on the references of the first `k` entities, in order.
pub open spec fn reference_checks_upto(ents: Seq<EntityInstance>, k: nat) -> Seq<(bool, Seq<char>, Seq<char>)>
    decreases k,
{
    if k == 0 {
        Seq::empty()
    } else {
        reference_checks_upto(ents, (k - 1) as nat) + entity_reference_checks(ents, ents[k - 1])
    }
}

/// The checks on every reference of the document, entity by entity.
pub open spec fn reference_checks(ents: Seq<EntityInstance>) -> Seq<(bool, Seq<char>, Seq<char>)> {
    reference_checks_upto(ents, ents.len())
}

proof fn lemma_reference_checks_prefix(ents: Seq<EntityInstance>, k: nat, m: nat)
    requires
        k <= m,
    ensures
        reference_checks_upto(ents, k).len() <= reference_checks_upto(ents, m).len(),
        reference_checks_upto(ents, m).subrange(0, reference_checks_upto(ents, k).len() as int)
            == reference_checks_upto(ents, k),
    decreases m,
{
    let n = reference_checks_upto(ents, k).len() as int;
    if k < m {
        lemma_reference_checks_prefix(ents, k, (m - 1) as nat);
        let a = reference_checks_upto(ents, (m - 1) as nat);
        let b = entity_reference_checks(ents, ents[m - 1]);
        assert((a + b).subrange(0, n) =~= a.subrange(0, n));
    } else {
        assert(reference_checks_upto(ents, m).subrange(0, n) =~= reference_checks_upto(ents, m));
    }
}

/// When the checks before reference `j` of entity `k` pass and it fails,
/// its warning is the first the document raises.
proof fn lemma_first_reference_raised(ents: Seq<EntityInstance>, k: nat, j: int)
    requires
        k < ents.len(),
        0 <= j < entity_reference_checks(ents, ents[k as int]).len(),
        forall|i: int|
            0 <= i < reference_checks_upto(ents, k).len() ==> (#[trigger] reference_checks_upto(ents, k)[i]).0,
        forall|q: int|
            0 <= q < j ==> (#[trigger] entity_reference_checks(ents, ents[k as int])[q]).0,
        !entity_reference_checks(ents, ents[k as int])[j].0,
    ensures
        raised_issues(reference_checks(ents)).len() > 0,
        raised_issues(reference_checks(ents))[0] == (
            entity_reference_checks(ents, ents[k as int])[j].1,
            entity_reference_checks(ents, ents[k as int])[j].2,
        ),
{
    let done = reference_checks_upto(ents, k);
    let inner = entity_reference_checks(ents, ents[k as int]);
    let full = reference_checks(ents);
    let head = reference_checks_upto(ents, k + 1);
    assert(head == done + inner);
    lemma_reference_checks_prefix(ents, k + 1, ents.len());
    let rest = full.subrange(head.len() as int, full.len() as int);
    assert(full =~= head + rest);
    lemma_raised_concat(head, rest);
    lemma_raised_concat(done, inner);
    lemma_raised_none(done);
    lemma_first_raised(inner, j);
    assert(raised_issues(done) + raised_issues(inner) =~= raised_issues(inner));
}

} // verus!
