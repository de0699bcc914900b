//! Ordering and code-reference rules of an SFC document: the drawing sheet
//! comes after the definitions, and every code a feature uses is defined
//! (before its use) or one of the common predefined codes.

use std::collections::{HashMap, HashSet};
use vstd::prelude::*;
use crate::codes::{
    additional_sfc_code_references, predefined_color_code, predefined_line_type_code,
    predefined_line_width_code, spec_additional_refs, SfcCodeKind,
};
use crate::checklist::{lemma_first_raised, lemma_raised_step, raised_issues};
use crate::lexer::{lemma_raises_after, lemma_raises_done, lemma_recorded_push, raises, recorded, Parser};
use crate::model::{
    CommonStyle, EntityInstance, ParseError, ParsedDocument, TypedFeature, TypedFeatureInstance,
    COMMON_PREDEFINED_COLOR_MAX_CODE, COMMON_PREDEFINED_LINE_TYPE_MAX_CODE,
    COMMON_PREDEFINED_LINE_WIDTH_MAX_CODE,
};
use crate::sfc_model::reported;
use crate::tables::{code_request, initial_counters};
use crate::text::{int_text, push_int, push_str, string_from_str};

verus! {

broadcast use vstd::std_specs::hash::group_hash_axioms;

/// Entity id to position, the later entity winning where ids repeat.
pub open spec fn entity_positions(ents: Seq<EntityInstance>, k: int) -> Map<i64, usize>
    decreases k,
{
    if k <= 0 {
        Map::empty()
    } else {
        entity_positions(ents, k - 1).insert(ents[k - 1].id, (k - 1) as usize)
    }
}

/// The position of entity `id`, or `usize::MAX` when there is none.
pub open spec fn position_of(ents: Seq<EntityInstance>, id: i64) -> usize {
    let m = entity_positions(ents, ents.len() as int);
    if m.contains_key(id) {
        m[id]
    } else {
        usize::MAX
    }
}

/// Code to the position of its (last) definition, for each of the five
/// tables, after the first `k` typed features.
pub open spec fn code_positions(
    typed: Seq<TypedFeatureInstance>,
    ents: Seq<EntityInstance>,
    k: int,
) -> (Seq<Map<i64, usize>>, (int, int, int, int, int))
    decreases k,
{
    if k <= 0 {
        (seq![Map::empty(), Map::empty(), Map::empty(), Map::empty(), Map::empty()], initial_counters())
    } else {
        let (maps, n) = code_positions(typed, ents, k - 1);
        let item = typed[k - 1];
        let (req, n2) = code_request(item.feature, n);
        match req {
            Some((ti, code, _)) => (
                maps.update(ti, maps[ti].insert(code as i64, position_of(ents, item.id))),
                n2,
            ),
            None => (maps, n2),
        }
    }
}

/// The smallest position of a drawing sheet among the first `k` typed features.
pub open spec fn sheet_position(typed: Seq<TypedFeatureInstance>, ents: Seq<EntityInstance>, k: int) -> Option<
    usize,
>
    decreases k,
{
    if k <= 0 {
        None
    } else {
        let prev = sheet_position(typed, ents, k - 1);
        if typed[k - 1].feature is DrawingSheet {
            let p = position_of(ents, typed[k - 1].id);
            Some(
                match prev {
                    Some(c) => if c <= p {
                        c
                    } else {
                        p
                    },
                    None => p,
                },
            )
        } else {
            prev
        }
    }
}

/// Whether a style code reference fails: defined too late, or undefined
/// and not a common predefined code. Codes `<= 0` count as defaults.
pub open spec fn style_code_fails(
    code: Option<i64>,
    defs: Map<i64, usize>,
    common_max: Option<i64>,
    require_prior: bool,
    use_at: usize,
) -> bool {
    if defs.is_empty() && common_max is None {
        false
    } else {
        match code {
            None => false,
            Some(c) => if c <= 0 {
                false
            } else if defs.contains_key(c) {
                require_prior && !(defs[c] < use_at)
            } else {
                !(common_max matches Some(m) && c <= m)
            },
        }
    }
}

/// Whether an additional code reference fails.
pub open spec fn extra_code_fails(code: i64, defs: Map<i64, usize>, common_max: Option<i64>, use_at: usize) -> bool {
    if code <= 0 {
        false
    } else if defs.contains_key(code) {
        !(defs[code] < use_at)
    } else {
        !(common_max matches Some(m) && code <= m)
    }
}

/// The colour code a feature's style uses; an externally defined symbol
/// with colour flag 0 uses none.
pub open spec fn style_color(f: TypedFeature, s: CommonStyle) -> Option<i64> {
    match f {
        TypedFeature::ExternallyDefinedSymbol(x) => if x.color_flag == 0 {
            None
        } else {
            s.color_code
        },
        _ => s.color_code,
    }
}

/// Table index and common maximum of an additional reference kind.
pub open spec fn kind_table(k: SfcCodeKind) -> (int, Option<i64>) {
    match k {
        SfcCodeKind::Color => (2, Some(COMMON_PREDEFINED_COLOR_MAX_CODE)),
        SfcCodeKind::LineType => (1, Some(COMMON_PREDEFINED_LINE_TYPE_MAX_CODE)),
        SfcCodeKind::LineWidth => (3, Some(COMMON_PREDEFINED_LINE_WIDTH_MAX_CODE)),
        SfcCodeKind::TextFont => (4, None),
    }
}

/// A typed feature's code references that fail.
pub open spec fn feature_refs_fail(maps: Seq<Map<i64, usize>>, use_at: usize, f: TypedFeature) -> bool {
    ||| (f.spec_style() matches Some(s) && (style_code_fails(s.layer_code, maps[0], None, false, use_at)
        || style_code_fails(s.line_type_code, maps[1], Some(COMMON_PREDEFINED_LINE_TYPE_MAX_CODE), true, use_at)
        || style_code_fails(style_color(f, s), maps[2], Some(COMMON_PREDEFINED_COLOR_MAX_CODE), true, use_at)
        || style_code_fails(s.line_width_code, maps[3], Some(COMMON_PREDEFINED_LINE_WIDTH_MAX_CODE), true, use_at)
        || style_code_fails(s.font_code, maps[4], None, true, use_at)))
    ||| exists|j: int|
        0 <= j < spec_additional_refs(f).len() && {
            let (kind, code) = #[trigger] spec_additional_refs(f)[j];
            let (ti, max) = kind_table(kind);
            extra_code_fails(code, maps[ti], max, use_at)
        }
}

/// The document breaks an ordering or code-reference rule.
pub open spec fn rules_violation(typed: Seq<TypedFeatureInstance>, ents: Seq<EntityInstance>) -> bool {
    let maps = code_positions(typed, ents, typed.len() as int).0;
    let positions = entity_positions(ents, ents.len() as int);
    match sheet_position(typed, ents, typed.len() as int) {
        None => true,
        Some(sheet) => {
            ||| exists|k: int|
                0 <= k < typed.len() && positions.contains_key((#[trigger] typed[k]).id)
                    && positions[typed[k].id] > sheet && typed[k].feature.spec_requires_pre_sheet_order()
            ||| exists|k: int|
                0 <= k < typed.len() && feature_refs_fail(
                    maps,
                    position_of(ents, (#[trigger] typed[k]).id),
                    typed[k].feature,
                )
        },
    }
}

/// A code reference check: whether it fails; whether the code has a
/// definition (one that comes too late) rather than none; the code; the
/// warning code and the message it raises.
pub type CodeCheck = (bool, bool, i64, Seq<char>, Seq<char>);

/// The message of a failing code reference.
pub open spec fn code_message(keyword: Seq<char>, id: i64, label: Seq<char>, code: i64, early: bool) -> Seq<
    char,
> {
    if early {
        "Feature "@ + keyword + " (#"@ + int_text(id as int) + ") references "@ + label + " "@ + int_text(
            code as int,
        ) + " before its definition"@
    } else {
        "Feature "@ + keyword + " (#"@ + int_text(id as int) + ") references undefined "@ + label + " "@
            + int_text(code as int)
    }
}

pub open spec fn code_check(
    fails: bool,
    defs: Map<i64, usize>,
    code: i64,
    label: Seq<char>,
    warning: Seq<char>,
    keyword: Seq<char>,
    id: i64,
) -> CodeCheck {
    let early = defs.contains_key(code);
    (
        fails,
        early,
        code,
        if early {
            "sfc-definition-order"@
        } else {
            warning
        },
        code_message(keyword, id, label, code, early),
    )
}

/// The check of one style code.
pub open spec fn style_check(
    code: Option<i64>,
    defs: Map<i64, usize>,
    common_max: Option<i64>,
    require_prior: bool,
    use_at: usize,
    label: Seq<char>,
    warning: Seq<char>,
    keyword: Seq<char>,
    id: i64,
) -> CodeCheck {
    code_check(
        style_code_fails(code, defs, common_max, require_prior, use_at),
        defs,
        match code {
            Some(c) => c,
            None => 0,
        },
        label,
        warning,
        keyword,
        id,
    )
}

/// The check of one additional code reference.
pub open spec fn extra_check(
    code: i64,
    defs: Map<i64, usize>,
    common_max: Option<i64>,
    use_at: usize,
    label: Seq<char>,
    warning: Seq<char>,
    keyword: Seq<char>,
    id: i64,
) -> CodeCheck {
    code_check(extra_code_fails(code, defs, common_max, use_at), defs, code, label, warning, keyword, id)
}

/// What a check raises, given the undefined codes of its table already
/// reported: a use before the definition always, an undefined code once.
pub open spec fn check_issue(seen: Set<i64>, x: CodeCheck) -> Seq<(Seq<char>, Seq<char>)> {
    if x.0 && (x.1 || !seen.contains(x.2)) {
        seq![(x.3, x.4)]
    } else {
        Seq::empty()
    }
}

/// The undefined codes of a table reported once the check has run.
pub open spec fn check_seen(seen: Set<i64>, x: CodeCheck) -> Set<i64> {
    if x.0 && !x.1 {
        seen.insert(x.2)
    } else {
        seen
    }
}

/// What the checks `cs` (each with its table) raise in order, given the
/// undefined codes already reported per table.
pub open spec fn code_issues(seen: Seq<Set<i64>>, cs: Seq<(int, CodeCheck)>) -> Seq<(Seq<char>, Seq<char>)>
    decreases cs.len(),
{
    if cs.len() == 0 {
        Seq::empty()
    } else {
        let t = cs[0].0;
        let x = cs[0].1;
        check_issue(seen[t], x) + code_issues(seen.update(t, check_seen(seen[t], x)), cs.drop_first())
    }
}

/// The undefined codes reported per table after the checks `cs`.
pub open spec fn codes_seen(seen: Seq<Set<i64>>, cs: Seq<(int, CodeCheck)>) -> Seq<Set<i64>>
    decreases cs.len(),
{
    if cs.len() == 0 {
        seen
    } else {
        let t = cs[0].0;
        codes_seen(seen.update(t, check_seen(seen[t], cs[0].1)), cs.drop_first())
    }
}

proof fn lemma_code_issues_step(seen: Seq<Set<i64>>, cs: Seq<(int, CodeCheck)>, j: int)
    requires
        0 <= j < cs.len(),
    ensures
        ({
            let t = cs[j].0;
            let next = seen.update(t, check_seen(seen[t], cs[j].1));
            &&& code_issues(seen, cs.subrange(j, cs.len() as int)) == check_issue(seen[t], cs[j].1)
                + code_issues(next, cs.subrange(j + 1, cs.len() as int))
            &&& codes_seen(seen, cs.subrange(j, cs.len() as int)) == codes_seen(
                next,
                cs.subrange(j + 1, cs.len() as int),
            )
        }),
{
    assert(cs.subrange(j, cs.len() as int).drop_first() =~= cs.subrange(j + 1, cs.len() as int));
}

/// One code check run after checks that recorded `done`: a failure ends
/// the run with what the whole run raises; a success records what the
/// check raised and leaves the rest to the later checks.
proof fn lemma_code_step(
    start: Parser,
    mid: Parser,
    end: Parser,
    r: Result<(), ParseError>,
    done: Seq<(Seq<char>, Seq<char>)>,
    seen: Seq<Set<i64>>,
    after: Seq<Set<i64>>,
    cs: Seq<(int, CodeCheck)>,
    j: int,
    total: Seq<(Seq<char>, Seq<char>)>,
    final_seen: Seq<Set<i64>>,
)
    requires
        0 <= j < cs.len(),
        start.same_source(&mid),
        mid.index == start.index,
        mid.line == start.line,
        mid.column == start.column,
        recorded(start, mid, done),
        total == done + code_issues(seen, cs.subrange(j, cs.len() as int)),
        final_seen == codes_seen(seen, cs.subrange(j, cs.len() as int)),
        raises(mid, end, r, check_issue(seen[cs[j].0], cs[j].1)),
        r is Ok ==> after == seen.update(cs[j].0, check_seen(seen[cs[j].0], cs[j].1)),
    ensures
        r is Err ==> raises(start, end, r, total),
        r is Ok ==> recorded(start, end, done + check_issue(seen[cs[j].0], cs[j].1)),
        r is Ok ==> total == (done + check_issue(seen[cs[j].0], cs[j].1)) + code_issues(
            after,
            cs.subrange(j + 1, cs.len() as int),
        ),
        r is Ok ==> final_seen == codes_seen(after, cs.subrange(j + 1, cs.len() as int)),
{
    lemma_code_issues_step(seen, cs, j);
    let now = check_issue(seen[cs[j].0], cs[j].1);
    let next = seen.update(cs[j].0, check_seen(seen[cs[j].0], cs[j].1));
    let rest = code_issues(next, cs.subrange(j + 1, cs.len() as int));
    lemma_raises_after(start, mid, end, r, done, now, rest);
    assert(done + (now + rest) =~= done + now + rest);
}

/// Label of an additional reference kind in messages.
pub open spec fn kind_label(k: SfcCodeKind) -> Seq<char> {
    match k {
        SfcCodeKind::Color => "color code"@,
        SfcCodeKind::LineType => "line type code"@,
        SfcCodeKind::LineWidth => "line width code"@,
        SfcCodeKind::TextFont => "text font code"@,
    }
}

/// Warning code of an undefined additional reference.
pub open spec fn kind_warning(k: SfcCodeKind) -> Seq<char> {
    match k {
        SfcCodeKind::Color => "sfc-color-reference"@,
        SfcCodeKind::LineType => "sfc-line-type-reference"@,
        SfcCodeKind::LineWidth => "sfc-line-width-reference"@,
        SfcCodeKind::TextFont => "sfc-text-font-reference"@,
    }
}

/// The code checks of a typed feature, in order: its five style codes
/// (layer, line type, colour, line width, text font), then its additional
/// references; each with the index of its table.
pub open spec fn feature_code_checks(mv: Seq<Map<i64, usize>>, use_at: usize, item: TypedFeatureInstance) -> Seq<
    (int, CodeCheck),
> {
    let kw = item.keyword@;
    let id = item.id;
    let f = item.feature;
    let styled = match f.spec_style() {
        Some(s) => seq![
            (0int, style_check(s.layer_code, mv[0], None, false, use_at, "layer code"@, "sfc-layer-reference"@, kw, id)),
            (1int, style_check(s.line_type_code, mv[1], Some(COMMON_PREDEFINED_LINE_TYPE_MAX_CODE), true, use_at, "line type code"@, "sfc-line-type-reference"@, kw, id)),
            (2int, style_check(style_color(f, s), mv[2], Some(COMMON_PREDEFINED_COLOR_MAX_CODE), true, use_at, "color code"@, "sfc-color-reference"@, kw, id)),
            (3int, style_check(s.line_width_code, mv[3], Some(COMMON_PREDEFINED_LINE_WIDTH_MAX_CODE), true, use_at, "line width code"@, "sfc-line-width-reference"@, kw, id)),
            (4int, style_check(s.font_code, mv[4], None, true, use_at, "text font code"@, "sfc-text-font-reference"@, kw, id)),
        ],
        None => Seq::empty(),
    };
    let refs = spec_additional_refs(f);
    styled + Seq::new(
        refs.len(),
        |j: int|
            {
                let (ti, max) = kind_table(refs[j].0);
                (ti, extra_check(refs[j].1, mv[ti], max, use_at, kind_label(refs[j].0), kind_warning(refs[j].0), kw, id))
            },
    )
}

/// What the code checks of the typed features from `q` on raise, given the
/// undefined codes already reported per table.
pub open spec fn features_code_issues(
    seen: Seq<Set<i64>>,
    typed: Seq<TypedFeatureInstance>,
    ents: Seq<EntityInstance>,
    mv: Seq<Map<i64, usize>>,
    q: int,
) -> Seq<(Seq<char>, Seq<char>)>
    decreases typed.len() - q,
{
    if q < 0 || q >= typed.len() {
        Seq::empty()
    } else {
        let fc = feature_code_checks(mv, position_of(ents, typed[q].id), typed[q]);
        code_issues(seen, fc) + features_code_issues(codes_seen(seen, fc), typed, ents, mv, q + 1)
    }
}

/// The check that typed feature `k` comes before the drawing sheet where it
/// must: its pass, warning code and message.
pub open spec fn order_check(
    typed: Seq<TypedFeatureInstance>,
    positions: Map<i64, usize>,
    sheet: usize,
    k: int,
) -> (bool, Seq<char>, Seq<char>) {
    (
        !(positions.contains_key(typed[k].id) && positions[typed[k].id] > sheet
            && typed[k].feature.spec_requires_pre_sheet_order()),
        "sfc-order"@,
        "Feature "@ + typed[k].keyword@ + " (#"@ + int_text(typed[k].id as int)
            + ") should be defined before drawing_sheet_feature"@,
    )
}

pub open spec fn order_checks(typed: Seq<TypedFeatureInstance>, positions: Map<i64, usize>, sheet: usize) -> Seq<
    (bool, Seq<char>, Seq<char>),
> {
    Seq::new(typed.len(), |k: int| order_check(typed, positions, sheet, k))
}

/// No undefined code reported yet, in any of the five tables.
pub open spec fn no_codes_seen() -> Seq<Set<i64>> {
    seq![Set::empty(), Set::empty(), Set::empty(), Set::empty(), Set::empty()]
}

/// The warnings the ordering and code-reference rules raise, in order: a
/// missing drawing sheet alone; else each feature after the sheet that
/// must precede it, then the failing code references feature by feature,
/// an undefined code once per table.
pub open spec fn rules_issues(typed: Seq<TypedFeatureInstance>, ents: Seq<EntityInstance>) -> Seq<
    (Seq<char>, Seq<char>),
> {
    match sheet_position(typed, ents, typed.len() as int) {
        None => seq![
            ("sfc-missing-drawing-sheet"@, "SFC should contain at least one drawing_sheet_feature"@),
        ],
        Some(sheet) => raised_issues(order_checks(typed, entity_positions(ents, ents.len() as int), sheet))
            + features_code_issues(
            no_codes_seen(),
            typed,
            ents,
            code_positions(typed, ents, typed.len() as int).0,
            0,
        ),
    }
}

/// Looks up `code` in a code map.
fn lookup(defs: &HashMap<i64, usize>, code: i64) -> (r: Option<usize>)
    ensures
        match r {
            Some(p) => defs@.contains_key(code) && defs@[code] == p,
            None => !defs@.contains_key(code),
        },
{
    match defs.get(&code) {
        Some(p) => Some(*p),
        None => None,
    }
}

/// `missing` gained nothing but codes reported since `old_p`.
pub open spec fn missing_grew(old_m: Set<i64>, new_m: Set<i64>, grew: bool) -> bool {
    forall|c: i64| #[trigger] new_m.contains(c) ==> old_m.contains(c) || grew
}

impl Parser {
    fn report_code(
        &mut self,
        warning_code: &str,
        keyword: &str,
        id: i64,
        label: &str,
        code: i64,
        before_definition: bool,
    ) -> (r: Result<(), ParseError>)
        ensures
            old(self).same_source(&*final(self)),
            final(self).index == old(self).index,
            final(self).line == old(self).line,
            final(self).column == old(self).column,
            old(self).keeps_warnings(&*final(self)),
            old(self).quiet_if_strict(&*final(self)),
            r is Err <==> old(self).strict,
            !old(self).strict ==> final(self).warnings@.len() > old(self).warnings@.len(),
            raises(
                *old(self),
                *final(self),
                r,
                seq![
                    (
                        if before_definition {
                            "sfc-definition-order"@
                        } else {
                            warning_code@
                        },
                        code_message(keyword@, id, label@, code, before_definition),
                    ),
                ],
            ),
    {
        let ghost start = *self;
        let mut m = string_from_str("Feature ");
        push_str(&mut m, keyword);
        push_str(&mut m, " (#");
        push_int(&mut m, id);
        if before_definition {
            push_str(&mut m, ") references ");
            push_str(&mut m, label);
            push_str(&mut m, " ");
            push_int(&mut m, code);
            push_str(&mut m, " before its definition");
            let ghost text = m@;
            let r = self.issue_or_error("sfc-definition-order", m);
            proof {
                if !start.strict {
                    lemma_recorded_push(start, start, *self, Seq::empty(), "sfc-definition-order"@, text);
                }
            }
            r
        } else {
            push_str(&mut m, ") references undefined ");
            push_str(&mut m, label);
            push_str(&mut m, " ");
            push_int(&mut m, code);
            let ghost text = m@;
            let r = self.issue_or_error(warning_code, m);
            proof {
                if !start.strict {
                    lemma_recorded_push(start, start, *self, Seq::empty(), warning_code@, text);
                }
            }
            r
        }
    }

    /// Checks one code of a feature's common style.
    fn check_style_code(
        &mut self,
        code: Option<i64>,
        defs: &HashMap<i64, usize>,
        common_max: Option<i64>,
        require_prior: bool,
        use_at: usize,
        missing: &mut HashSet<i64>,
        label: &str,
        warning_code: &str,
        keyword: &str,
        id: i64,
    ) -> (r: Result<(), ParseError>)
        requires
            old(self).strict ==> old(missing)@.is_empty(),
        ensures
            old(self).same_source(&*final(self)),
            final(self).index == old(self).index,
            final(self).line == old(self).line,
            final(self).column == old(self).column,
            old(self).keeps_warnings(&*final(self)),
            old(self).quiet_if_strict(&*final(self)),
            r is Ok && old(self).strict ==> final(missing)@ == old(missing)@,
            ({
                let fails = style_code_fails(code, defs@, common_max, require_prior, use_at);
                let grew = final(self).warnings@.len() > old(self).warnings@.len();
                &&& r is Err <==> old(self).strict && fails
                &&& !old(self).strict ==> (grew ==> fails)
                &&& !old(self).strict ==> (fails ==> grew || old(missing)@.contains(code.unwrap()))
                &&& !old(self).strict ==> missing_grew(old(missing)@, final(missing)@, grew)
            }),
            ({
                let x = style_check(code, defs@, common_max, require_prior, use_at, label@, warning_code@, keyword@, id);
                &&& raises(*old(self), *final(self), r, check_issue(old(missing)@, x))
                &&& r is Ok ==> final(missing)@ == check_seen(old(missing)@, x)
            }),
    {
        if defs.is_empty() && common_max.is_none() {
            return Ok(());
        }
        let c = match code {
            Some(c) => c,
            None => {
                return Ok(());
            },
        };
        if c <= 0 {
            return Ok(());
        }
        match lookup(defs, c) {
            Some(p) => {
                if !require_prior || p < use_at {
                    return Ok(());
                }
                return self.report_code(warning_code, keyword, id, label, c, true);
            },
            None => {},
        }
        match common_max {
            Some(m) => if c <= m {
                return Ok(());
            },
            None => {},
        }
        if !missing.insert(c) {
            assert(missing@ =~= old(missing)@.insert(c));
            return Ok(());
        }
        self.report_code(warning_code, keyword, id, label, c, false)
    }

    /// Checks one additional code reference of a feature.
    fn check_extra_code(
        &mut self,
        code: i64,
        defs: &HashMap<i64, usize>,
        common_max: Option<i64>,
        use_at: usize,
        missing: &mut HashSet<i64>,
        label: &str,
        warning_code: &str,
        keyword: &str,
        id: i64,
    ) -> (r: Result<(), ParseError>)
        requires
            old(self).strict ==> old(missing)@.is_empty(),
        ensures
            old(self).same_source(&*final(self)),
            final(self).index == old(self).index,
            final(self).line == old(self).line,
            final(self).column == old(self).column,
            old(self).keeps_warnings(&*final(self)),
            old(self).quiet_if_strict(&*final(self)),
            r is Ok && old(self).strict ==> final(missing)@ == old(missing)@,
            ({
                let fails = extra_code_fails(code, defs@, common_max, use_at);
                let grew = final(self).warnings@.len() > old(self).warnings@.len();
                &&& r is Err <==> old(self).strict && fails
                &&& !old(self).strict ==> (grew ==> fails)
                &&& !old(self).strict ==> (fails ==> grew || old(missing)@.contains(code))
                &&& !old(self).strict ==> missing_grew(old(missing)@, final(missing)@, grew)
            }),
            ({
                let x = extra_check(code, defs@, common_max, use_at, label@, warning_code@, keyword@, id);
                &&& raises(*old(self), *final(self), r, check_issue(old(missing)@, x))
                &&& r is Ok ==> final(missing)@ == check_seen(old(missing)@, x)
            }),
    {
        if code <= 0 {
            return Ok(());
        }
        match lookup(defs, code) {
            Some(p) => {
                if p < use_at {
                    return Ok(());
                }
                return self.report_code(warning_code, keyword, id, label, code, true);
            },
            None => {},
        }
        match common_max {
            Some(m) => if code <= m {
                return Ok(());
            },
            None => {},
        }
        if !missing.insert(code) {
            assert(missing@ =~= old(missing)@.insert(code));
            return Ok(());
        }
        self.report_code(warning_code, keyword, id, label, code, false)
    }
}

/// The five code maps: layers, line types, colours, line widths, text fonts.
pub struct CodeMaps {
    pub layers: HashMap<i64, usize>,
    pub line_types: HashMap<i64, usize>,
    pub colors: HashMap<i64, usize>,
    pub line_widths: HashMap<i64, usize>,
    pub text_fonts: HashMap<i64, usize>,
}

/// Undefined codes already reported, per table.
pub struct MissingCodes {
    pub layers: HashSet<i64>,
    pub line_types: HashSet<i64>,
    pub colors: HashSet<i64>,
    pub line_widths: HashSet<i64>,
    pub text_fonts: HashSet<i64>,
}

pub open spec fn maps_view(m: CodeMaps) -> Seq<Map<i64, usize>> {
    seq![m.layers@, m.line_types@, m.colors@, m.line_widths@, m.text_fonts@]
}

pub open spec fn missing_empty(m: MissingCodes) -> bool {
    &&& m.layers@.is_empty()
    &&& m.line_types@.is_empty()
    &&& m.colors@.is_empty()
    &&& m.line_widths@.is_empty()
    &&& m.text_fonts@.is_empty()
}

/// `b` holds only what `a` held, plus codes reported when `grew`.
pub open spec fn missing_within(a: MissingCodes, b: MissingCodes, grew: bool) -> bool {
    &&& missing_grew(a.layers@, b.layers@, grew)
    &&& missing_grew(a.line_types@, b.line_types@, grew)
    &&& missing_grew(a.colors@, b.colors@, grew)
    &&& missing_grew(a.line_widths@, b.line_widths@, grew)
    &&& missing_grew(a.text_fonts@, b.text_fonts@, grew)
}

/// The undefined codes reported, per table.
pub open spec fn missing_view(m: MissingCodes) -> Seq<Set<i64>> {
    seq![m.layers@, m.line_types@, m.colors@, m.line_widths@, m.text_fonts@]
}

pub open spec fn missing_any(m: MissingCodes) -> bool {
    !missing_empty(m)
}

impl Parser {
    /// Checks the style codes and additional code references of one feature.
    fn check_feature_codes(
        &mut self,
        item: &TypedFeatureInstance,
        use_at: usize,
        maps: &CodeMaps,
        missing: &mut MissingCodes,
    ) -> (r: Result<(), ParseError>)
        requires
            old(self).strict ==> missing_empty(*old(missing)),
        ensures
            old(self).same_source(&*final(self)),
            final(self).index == old(self).index,
            final(self).line == old(self).line,
            final(self).column == old(self).column,
            old(self).keeps_warnings(&*final(self)),
            old(self).quiet_if_strict(&*final(self)),
            ({
                let fails = feature_refs_fail(maps_view(*maps), use_at, item.feature);
                let grew = final(self).warnings@.len() > old(self).warnings@.len();
                &&& r is Err <==> old(self).strict && fails
                &&& r is Ok && old(self).strict ==> missing_empty(*final(missing))
                &&& !old(self).strict ==> (grew ==> fails)
                &&& !old(self).strict ==> (fails ==> grew || missing_any(*old(missing)))
                &&& !old(self).strict ==> missing_within(*old(missing), *final(missing), grew)
            }),
            raises(
                *old(self),
                *final(self),
                r,
                code_issues(missing_view(*old(missing)), feature_code_checks(maps_view(*maps), use_at, *item)),
            ),
            r is Ok ==> missing_view(*final(missing)) == codes_seen(
                missing_view(*old(missing)),
                feature_code_checks(maps_view(*maps), use_at, *item),
            ),
    {
        let ghost start = *self;
        let ghost m0 = *missing;
        let ghost mv = maps_view(*maps);
        let ghost fc = feature_code_checks(mv, use_at, *item);
        let ghost total = code_issues(missing_view(m0), fc);
        let ghost final_seen = codes_seen(missing_view(m0), fc);
        let ghost mut done = Seq::<(Seq<char>, Seq<char>)>::empty();
        proof {
            assert(fc.subrange(0, fc.len() as int) =~= fc);
            assert(done + total =~= total);
        }
        let keyword = item.keyword.as_str();
        let id = item.id;
        let ghost mut base: int = 0;
        match item.feature.style() {
            Some(style) => {
                let ghost mid = *self;
                let ghost seen = missing_view(*missing);
                let r = self.check_style_code(style.layer_code, &maps.layers, None, false, use_at, &mut missing.layers, "layer code", "sfc-layer-reference", keyword, id);
                proof {
                    assert(r is Ok ==> missing_view(*missing) =~= seen.update(0, check_seen(seen[0], fc[0].1)));
                    lemma_code_step(start, mid, *self, r, done, seen, missing_view(*missing), fc, 0, total, final_seen);
                    if r is Ok {
                        done = done + check_issue(seen[0], fc[0].1);
                    }
                }
                r?;
                let ghost mid = *self;
                let ghost seen = missing_view(*missing);
                let r = self.check_style_code(style.line_type_code, &maps.line_types, Some(COMMON_PREDEFINED_LINE_TYPE_MAX_CODE), true, use_at, &mut missing.line_types, "line type code", "sfc-line-type-reference", keyword, id);
                proof {
                    assert(r is Ok ==> missing_view(*missing) =~= seen.update(1, check_seen(seen[1], fc[1].1)));
                    lemma_code_step(start, mid, *self, r, done, seen, missing_view(*missing), fc, 1, total, final_seen);
                    if r is Ok {
                        done = done + check_issue(seen[1], fc[1].1);
                    }
                }
                r?;
                let color = match &item.feature {
                    TypedFeature::ExternallyDefinedSymbol(feature) => if feature.color_flag == 0 {
                        None
                    } else {
                        style.color_code
                    },
                    _ => style.color_code,
                };
                let ghost mid = *self;
                let ghost seen = missing_view(*missing);
                let r = self.check_style_code(color, &maps.colors, Some(COMMON_PREDEFINED_COLOR_MAX_CODE), true, use_at, &mut missing.colors, "color code", "sfc-color-reference", keyword, id);
                proof {
                    assert(r is Ok ==> missing_view(*missing) =~= seen.update(2, check_seen(seen[2], fc[2].1)));
                    lemma_code_step(start, mid, *self, r, done, seen, missing_view(*missing), fc, 2, total, final_seen);
                    if r is Ok {
                        done = done + check_issue(seen[2], fc[2].1);
                    }
                }
                r?;
                let ghost mid = *self;
                let ghost seen = missing_view(*missing);
                let r = self.check_style_code(style.line_width_code, &maps.line_widths, Some(COMMON_PREDEFINED_LINE_WIDTH_MAX_CODE), true, use_at, &mut missing.line_widths, "line width code", "sfc-line-width-reference", keyword, id);
                proof {
                    assert(r is Ok ==> missing_view(*missing) =~= seen.update(3, check_seen(seen[3], fc[3].1)));
                    lemma_code_step(start, mid, *self, r, done, seen, missing_view(*missing), fc, 3, total, final_seen);
                    if r is Ok {
                        done = done + check_issue(seen[3], fc[3].1);
                    }
                }
                r?;
                let ghost mid = *self;
                let ghost seen = missing_view(*missing);
                let r = self.check_style_code(style.font_code, &maps.text_fonts, None, true, use_at, &mut missing.text_fonts, "text font code", "sfc-text-font-reference", keyword, id);
                proof {
                    assert(r is Ok ==> missing_view(*missing) =~= seen.update(4, check_seen(seen[4], fc[4].1)));
                    lemma_code_step(start, mid, *self, r, done, seen, missing_view(*missing), fc, 4, total, final_seen);
                    if r is Ok {
                        done = done + check_issue(seen[4], fc[4].1);
                    }
                }
                r?;
                proof {
                    base = 5;
                }
            },
            None => {},
        }
        let ghost after_style = *self;
        let ghost m1 = *missing;
        let refs = additional_sfc_code_references(&item.feature);
        let mut j: usize = 0;
        while j < refs.len()
            invariant
                j <= refs@.len(),
                refs@ == spec_additional_refs(item.feature),
                mv == maps_view(*maps),
                start == *old(self),
                start.same_source(&*self),
                self.index == start.index,
                self.line == start.line,
                self.column == start.column,
                start.keeps_warnings(&*self),
                after_style.keeps_warnings(&*self),
                start.quiet_if_strict(&*self),
                start.strict ==> missing_empty(*missing),
                start.strict ==> forall|q: int|
                    0 <= q < j ==> {
                        let (kind, code) = #[trigger] refs@[q];
                        let (ti, max) = kind_table(kind);
                        !extra_code_fails(code, mv[ti], max, use_at)
                    },
                !start.strict ==> ((self.warnings@.len() > after_style.warnings@.len()) ==> exists|q: int|
                    0 <= q < j && {
                        let (kind, code) = #[trigger] refs@[q];
                        let (ti, max) = kind_table(kind);
                        extra_code_fails(code, mv[ti], max, use_at)
                    }),
                !start.strict ==> forall|q: int|
                    0 <= q < j ==> {
                        let (kind, code) = #[trigger] refs@[q];
                        let (ti, max) = kind_table(kind);
                        extra_code_fails(code, mv[ti], max, use_at)
                    } ==> self.warnings@.len() > after_style.warnings@.len() || missing_any(m1),
                !start.strict ==> missing_within(m1, *missing, self.warnings@.len() > after_style.warnings@.len()),
                fc == feature_code_checks(mv, use_at, *item),
                m0 == *old(missing),
                total == code_issues(missing_view(m0), fc),
                final_seen == codes_seen(missing_view(m0), fc),
                keyword@ == item.keyword@,
                id == item.id,
                base + refs@.len() == fc.len(),
                0 <= base,
                forall|q: int| 0 <= q < refs@.len() ==> #[trigger] fc[base + q] == ({
                    let (ti, max) = kind_table(refs@[q].0);
                    (ti, extra_check(refs@[q].1, mv[ti], max, use_at, kind_label(refs@[q].0), kind_warning(refs@[q].0), keyword@, id))
                }),
                recorded(start, *self, done),
                total == done + code_issues(missing_view(*missing), fc.subrange(base + j, fc.len() as int)),
                final_seen == codes_seen(missing_view(*missing), fc.subrange(base + j, fc.len() as int)),
            decreases refs@.len() - j,
        {
            let (kind, code) = refs[j];
            let ghost mid = *self;
            let ghost seen = missing_view(*missing);
            let ghost at = base + j;
            let r = match kind {
                SfcCodeKind::Color => self.check_extra_code(code, &maps.colors, Some(COMMON_PREDEFINED_COLOR_MAX_CODE), use_at, &mut missing.colors, "color code", "sfc-color-reference", keyword, id),
                SfcCodeKind::LineType => self.check_extra_code(code, &maps.line_types, Some(COMMON_PREDEFINED_LINE_TYPE_MAX_CODE), use_at, &mut missing.line_types, "line type code", "sfc-line-type-reference", keyword, id),
                SfcCodeKind::LineWidth => self.check_extra_code(code, &maps.line_widths, Some(COMMON_PREDEFINED_LINE_WIDTH_MAX_CODE), use_at, &mut missing.line_widths, "line width code", "sfc-line-width-reference", keyword, id),
                SfcCodeKind::TextFont => self.check_extra_code(code, &maps.text_fonts, None, use_at, &mut missing.text_fonts, "text font code", "sfc-text-font-reference", keyword, id),
            };
            proof {
                let t = fc[at].0;
                assert(fc[at] == fc[base + j]);
                assert(r is Ok ==> missing_view(*missing) =~= seen.update(t, check_seen(seen[t], fc[at].1)));
                lemma_code_step(start, mid, *self, r, done, seen, missing_view(*missing), fc, at, total, final_seen);
                if r is Ok {
                    done = done + check_issue(seen[t], fc[at].1);
                }
            }
            r?;
            j = j + 1;
        }
        proof {
            assert(fc.subrange(base + j, fc.len() as int) =~= Seq::<(int, CodeCheck)>::empty());
            assert(done + Seq::<(Seq<char>, Seq<char>)>::empty() =~= done);
            lemma_raises_done(start, *self, done);
        }
        Ok(())
    }
}

impl Parser {
    /// Looks up the position of entity `id`.
    fn position_lookup(positions: &HashMap<i64, usize>, id: i64) -> (r: Option<usize>)
        ensures
            match r {
                Some(p) => positions@.contains_key(id) && positions@[id] == p,
                None => !positions@.contains_key(id),
            },
    {
        lookup(positions, id)
    }

    /// Checks that an SFC document has a drawing sheet, that definitions
    /// come before it, and that every code a feature uses is defined before
    /// the feature or is a common predefined code. An undefined code is
    /// reported once per table.
    pub fn validate_sfc_model_rules(&mut self, document: &ParsedDocument) -> (r: Result<(), ParseError>)
        requires
            document.typed_features@.len() < 0x4000_0000_0000_0000,
        ensures
            reported(
                *old(self),
                *final(self),
                r,
                rules_violation(document.typed_features@, document.entities@),
            ),
            raises(*old(self), *final(self), r, rules_issues(document.typed_features@, document.entities@)),
    {
        let ghost entry = *self;
        let ghost typed = document.typed_features@;
        let ghost ents = document.entities@;
        let mut positions: HashMap<i64, usize> = HashMap::new();
        let mut e: usize = 0;
        while e < document.entities.len()
            invariant
                e <= ents.len(),
                ents == document.entities@,
                positions@ == entity_positions(ents, e as int),
            decreases ents.len() - e,
        {
            positions.insert(document.entities[e].id, e);
            e = e + 1;
        }
        let mut maps = CodeMaps {
            layers: HashMap::new(),
            line_types: HashMap::new(),
            colors: HashMap::new(),
            line_widths: HashMap::new(),
            text_fonts: HashMap::new(),
        };
        let mut sheet: Option<usize> = None;
        let mut next_layer: i64 = 1;
        let mut next_line_type: i64 = 17;
        let mut next_color: i64 = 17;
        let mut next_width: i64 = 11;
        let mut next_font: i64 = 1;
        assert(maps_view(maps) =~= code_positions(typed, ents, 0).0);
        let mut i: usize = 0;
        while i < document.typed_features.len()
            invariant
                i <= typed.len(),
                typed == document.typed_features@,
                ents == document.entities@,
                typed.len() < 0x4000_0000_0000_0000,
                positions@ == entity_positions(ents, ents.len() as int),
                maps_view(maps) == code_positions(typed, ents, i as int).0,
                code_positions(typed, ents, i as int).1 == (
                    next_layer as int,
                    next_line_type as int,
                    next_color as int,
                    next_width as int,
                    next_font as int,
                ),
                crate::tables::counters_bounded(code_positions(typed, ents, i as int).1, i as int),
                sheet == sheet_position(typed, ents, i as int),
            decreases typed.len() - i,
        {
            let item = &document.typed_features[i];
            let idx = match Self::position_lookup(&positions, item.id) {
                Some(p) => p,
                None => usize::MAX,
            };
            assert(idx == position_of(ents, item.id));
            match &item.feature {
                TypedFeature::DrawingSheet(_) => {
                    sheet = Some(
                        match sheet {
                            Some(c) => if c <= idx {
                                c
                            } else {
                                idx
                            },
                            None => idx,
                        },
                    );
                },
                TypedFeature::Layer(_) => {
                    maps.layers.insert(next_layer, idx);
                    next_layer = next_layer + 1;
                },
                TypedFeature::PreDefinedFont(feature) => {
                    match predefined_line_type_code(feature.name.as_str()) {
                        Some(code) => {
                            maps.line_types.insert(code, idx);
                        },
                        None => {},
                    }
                },
                TypedFeature::UserDefinedFont(_) => {
                    maps.line_types.insert(next_line_type, idx);
                    next_line_type = next_line_type + 1;
                },
                TypedFeature::PreDefinedColour(feature) => {
                    match predefined_color_code(feature.name.as_str()) {
                        Some(code) => {
                            maps.colors.insert(code, idx);
                        },
                        None => {},
                    }
                },
                TypedFeature::UserDefinedColour(_) => {
                    maps.colors.insert(next_color, idx);
                    next_color = next_color + 1;
                },
                TypedFeature::Width(feature) => {
                    match predefined_line_width_code(feature.width) {
                        Some(code) => {
                            maps.line_widths.insert(code, idx);
                        },
                        None => {
                            maps.line_widths.insert(next_width, idx);
                            next_width = next_width + 1;
                        },
                    }
                },
                TypedFeature::TextFont(_) => {
                    maps.text_fonts.insert(next_font, idx);
                    next_font = next_font + 1;
                },
                _ => {},
            }
            assert(maps_view(maps) =~= code_positions(typed, ents, i + 1).0);
            i = i + 1;
        }
        let sheet_index = match sheet {
            Some(s) => s,
            None => {
                let r = self.issue_or_error(
                    "sfc-missing-drawing-sheet",
                    string_from_str("SFC should contain at least one drawing_sheet_feature"),
                );
                proof {
                    if !entry.strict {
                        lemma_recorded_push(entry, entry, *self, Seq::empty(), "sfc-missing-drawing-sheet"@,
                            "SFC should contain at least one drawing_sheet_feature"@);
                    }
                }
                return r;
            },
        };
        let ghost start = *self;
        assert(sheet_position(typed, ents, typed.len() as int) == Some(sheet_index));
        assert(maps_view(maps) == code_positions(typed, ents, typed.len() as int).0);
        let ghost oc = order_checks(typed, positions@, sheet_index);
        let ghost total = rules_issues(typed, ents);
        let ghost code_part = features_code_issues(no_codes_seen(), typed, ents, maps_view(maps), 0);
        assert(total == raised_issues(oc) + code_part);
        assert(oc.subrange(0, 0) =~= Seq::<(bool, Seq<char>, Seq<char>)>::empty());
        let mut k: usize = 0;
        while k < document.typed_features.len()
            invariant
                k <= typed.len(),
                typed == document.typed_features@,
                ents == document.entities@,
                sheet_position(typed, ents, typed.len() as int) == Some(sheet_index),
                positions@ == entity_positions(ents, ents.len() as int),
                start == *old(self),
                start.same_source(&*self),
                self.index == start.index,
                self.line == start.line,
                self.column == start.column,
                start.keeps_warnings(&*self),
                start.quiet_if_strict(&*self),
                start.strict ==> forall|j: int|
                    0 <= j < k ==> !(positions@.contains_key((#[trigger] typed[j]).id)
                        && positions@[typed[j].id] > sheet_index
                        && typed[j].feature.spec_requires_pre_sheet_order()),
                !start.strict ==> ((exists|j: int|
                    0 <= j < k && positions@.contains_key((#[trigger] typed[j]).id)
                        && positions@[typed[j].id] > sheet_index
                        && typed[j].feature.spec_requires_pre_sheet_order())
                    <==> self.warnings@.len() > start.warnings@.len()),
                oc == order_checks(typed, positions@, sheet_index),
                total == raised_issues(oc) + code_part,
                start.strict ==> forall|j: int| 0 <= j < k ==> (#[trigger] oc[j]).0,
                recorded(start, *self, raised_issues(oc.subrange(0, k as int))),
            decreases typed.len() - k,
        {
            let item = &document.typed_features[k];
            let ghost before = *self;
            proof {
                lemma_raised_step(oc, k as int);
            }
            match Self::position_lookup(&positions, item.id) {
                Some(idx) => {
                    if idx > sheet_index && item.feature.requires_pre_sheet_order() {
                        assert(positions@.contains_key(typed[k as int].id) && positions@[typed[k as int].id]
                            > sheet_index && typed[k as int].feature.spec_requires_pre_sheet_order());
                        assert(rules_violation(typed, ents));
                        assert(!oc[k as int].0);
                        let mut m = string_from_str("Feature ");
                        push_str(&mut m, item.keyword.as_str());
                        push_str(&mut m, " (#");
                        push_int(&mut m, item.id);
                        push_str(&mut m, ") should be defined before drawing_sheet_feature");
                        assert(m@ == oc[k as int].2);
                        let r = self.issue_or_error("sfc-order", m);
                        proof {
                            if start.strict {
                                lemma_first_raised(oc, k as int);
                                assert((raised_issues(oc) + code_part)[0] == raised_issues(oc)[0]);
                            } else {
                                lemma_recorded_push(start, before, *self, raised_issues(oc.subrange(0, k as int)),
                                    oc[k as int].1, oc[k as int].2);
                            }
                        }
                        r?;
                    } else {
                        assert(oc[k as int].0);
                    }
                },
                None => {
                    assert(oc[k as int].0);
                },
            }
            k = k + 1;
        }
        proof {
            assert(oc.subrange(0, k as int) =~= oc);
        }
        let ghost mut done = raised_issues(oc);
        let ghost after_order = *self;
        let mut missing = MissingCodes {
            layers: HashSet::new(),
            line_types: HashSet::new(),
            colors: HashSet::new(),
            line_widths: HashSet::new(),
            text_fonts: HashSet::new(),
        };
        let ghost mv = maps_view(maps);
        assert(missing_view(missing) =~= no_codes_seen());
        let mut q: usize = 0;
        while q < document.typed_features.len()
            invariant
                q <= typed.len(),
                typed == document.typed_features@,
                ents == document.entities@,
                positions@ == entity_positions(ents, ents.len() as int),
                mv == maps_view(maps),
                mv == code_positions(typed, ents, typed.len() as int).0,
                sheet_position(typed, ents, typed.len() as int) == Some(sheet_index),
                start == *old(self),
                start.same_source(&*self),
                self.index == start.index,
                self.line == start.line,
                self.column == start.column,
                start.keeps_warnings(&*self),
                after_order.keeps_warnings(&*self),
                start.quiet_if_strict(&*self),
                start.strict ==> missing_empty(missing),
                start.strict ==> forall|j: int|
                    0 <= j < q ==> !feature_refs_fail(mv, position_of(ents, (#[trigger] typed[j]).id), typed[j].feature),
                !start.strict ==> (missing_any(missing) ==> self.warnings@.len() > start.warnings@.len()),
                !start.strict ==> ((exists|j: int|
                    0 <= j < q && feature_refs_fail(mv, position_of(ents, (#[trigger] typed[j]).id), typed[j].feature))
                    ==> self.warnings@.len() > start.warnings@.len()),
                !start.strict ==> (self.warnings@.len() > after_order.warnings@.len() ==> exists|j: int|
                    0 <= j < q && feature_refs_fail(mv, position_of(ents, (#[trigger] typed[j]).id), typed[j].feature)),
                total == rules_issues(typed, ents),
                recorded(start, *self, done),
                total == done + features_code_issues(missing_view(missing), typed, ents, mv, q as int),
            decreases typed.len() - q,
        {
            let item = &document.typed_features[q];
            let use_at = match Self::position_lookup(&positions, item.id) {
                Some(p) => p,
                None => usize::MAX,
            };
            assert(use_at == position_of(ents, typed[q as int].id));
            let ghost mid = *self;
            let ghost seen = missing_view(missing);
            let ghost fc = feature_code_checks(mv, use_at, typed[q as int]);
            let ghost rest = features_code_issues(codes_seen(seen, fc), typed, ents, mv, q + 1);
            assert(features_code_issues(seen, typed, ents, mv, q as int) == code_issues(seen, fc) + rest);
            let res = self.check_feature_codes(item, use_at, &maps, &mut missing);
            proof {
                if res is Err {
                    assert(feature_refs_fail(mv, position_of(ents, typed[q as int].id), typed[q as int].feature));
                    assert(rules_violation(typed, ents));
                }
                lemma_raises_after(start, mid, *self, res, done, code_issues(seen, fc), rest);
                assert(done + (code_issues(seen, fc) + rest) =~= done + code_issues(seen, fc) + rest);
                if res is Ok {
                    done = done + code_issues(seen, fc);
                }
            }
            res?;
            q = q + 1;
        }
        proof {
            assert(done + Seq::<(Seq<char>, Seq<char>)>::empty() =~= done);
            lemma_raises_done(start, *self, done);
        }
        Ok(())
    }
}

} // verus!
