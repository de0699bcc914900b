//! The SFC code tables: which entity defines each layer, line type, colour,
//! line width and text font code.

use vstd::prelude::*;
use crate::codes::{
    color_code_spec, line_type_code_spec, line_width_code_spec, normalized_name,
    predefined_color_code, predefined_line_type_code, predefined_line_width_code,
};
use crate::lexer::{lemma_raises_done, lemma_raises_step, raises, recorded, Parser};
use crate::model::{
    ParseError, ParsedDocument, SfcCodeBinding, SfcCodeTables, TypedFeature, TypedFeatureInstance,
};
use crate::text::{debug_text, int_text, push_int, push_str, string_from_str};

verus! {

/// Table indexes: layers, line types, colours, line widths, text fonts.
pub open spec fn table_seqs(t: SfcCodeTables) -> Seq<Seq<SfcCodeBinding>> {
    seq![t.layers@, t.line_types@, t.colors@, t.line_widths@, t.text_fonts@]
}

/// Next automatic codes: layer, user line type, user colour, user width, text font.
pub open spec fn initial_counters() -> (int, int, int, int, int) {
    (1, 17, 17, 11, 1)
}

/// The table, code and maximum code a feature asks for, and the counters after it.
pub open spec fn code_request(f: TypedFeature, n: (int, int, int, int, int)) -> (
    Option<(int, int, int)>,
    (int, int, int, int, int),
) {
    match f {
        TypedFeature::Layer(_) => (Some((0, n.0, 256)), (n.0 + 1, n.1, n.2, n.3, n.4)),
        TypedFeature::PreDefinedFont(x) => match line_type_code_spec(normalized_name(x.name@)) {
            Some(c) => (Some((1, c as int, 15)), n),
            None => (None, n),
        },
        TypedFeature::UserDefinedFont(_) => (Some((1, n.1, 32)), (n.0, n.1 + 1, n.2, n.3, n.4)),
        TypedFeature::PreDefinedColour(x) => match color_code_spec(normalized_name(x.name@)) {
            Some(c) => (Some((2, c as int, 16)), n),
            None => (None, n),
        },
        TypedFeature::UserDefinedColour(_) => (Some((2, n.2, 256)), (n.0, n.1, n.2 + 1, n.3, n.4)),
        TypedFeature::Width(x) => match line_width_code_spec(x.width) {
            Some(c) => (Some((3, c as int, 16)), n),
            None => (Some((3, n.3, 16)), (n.0, n.1, n.2, n.3 + 1, n.4)),
        },
        TypedFeature::TextFont(_) => (Some((4, n.4, 1024)), (n.0, n.1, n.2, n.3, n.4 + 1)),
        _ => (None, n),
    }
}

/// A predefined line type or colour of entity `id` whose name is not in the
/// standard list: the warning code and message.
pub open spec fn unknown_predefined(f: TypedFeature, id: i64) -> Option<(Seq<char>, Seq<char>)> {
    match f {
        TypedFeature::PreDefinedFont(x) => if line_type_code_spec(normalized_name(x.name@)) is None {
            Some(
                (
                    "sfc-predefined-line-type"@,
                    "Entity #"@ + int_text(id as int) + " has unknown predefined line type "@ + debug_text(
                        x.name@,
                    ),
                ),
            )
        } else {
            None
        },
        TypedFeature::PreDefinedColour(x) => if color_code_spec(normalized_name(x.name@)) is None {
            Some(
                (
                    "sfc-predefined-color"@,
                    "Entity #"@ + int_text(id as int) + " has unknown predefined color "@ + debug_text(x.name@),
                ),
            )
        } else {
            None
        },
        _ => None,
    }
}

/// Name of table `ti` in messages.
pub open spec fn table_label(ti: int) -> Seq<char> {
    if ti == 0 {
        "layer"@
    } else if ti == 1 {
        "line type"@
    } else if ti == 2 {
        "color"@
    } else if ti == 3 {
        "line width"@
    } else {
        "text font"@
    }
}

/// What binding `code` for entity `id` in table `t` (named `label`, codes up
/// to `max`) raises: a code above the maximum, or one already bound.
pub open spec fn bind_issue(t: Seq<SfcCodeBinding>, code: int, max: int, label: Seq<char>, id: i64) -> Option<
    (Seq<char>, Seq<char>),
> {
    if code > max {
        Some(
            (
                "sfc-code-table-overflow"@,
                "Entity #"@ + int_text(id as int) + " exceeds the maximum "@ + label + " code "@ + int_text(max),
            ),
        )
    } else if has_code(t, code) {
        Some(
            (
                "sfc-duplicate-code-definition"@,
                "Entity #"@ + int_text(id as int) + " duplicates "@ + label + " code "@ + int_text(code),
            ),
        )
    } else {
        None
    }
}

/// The warning an issue raises, if any.
pub open spec fn issue_seq(issue: Option<(Seq<char>, Seq<char>)>) -> Seq<(Seq<char>, Seq<char>)> {
    match issue {
        Some(x) => seq![x],
        None => Seq::empty(),
    }
}

pub open spec fn has_code(t: Seq<SfcCodeBinding>, code: int) -> bool {
    exists|i: int| 0 <= i < t.len() && #[trigger] t[i].code == code
}

/// The tables, counters and warnings (code and message) after the first
/// `k` typed features.
pub open spec fn tables_upto(items: Seq<TypedFeatureInstance>, k: int) -> (
    Seq<Seq<SfcCodeBinding>>,
    (int, int, int, int, int),
    Seq<(Seq<char>, Seq<char>)>,
)
    decreases k,
{
    if k <= 0 {
        (
            seq![Seq::empty(), Seq::empty(), Seq::empty(), Seq::empty(), Seq::empty()],
            initial_counters(),
            Seq::empty(),
        )
    } else {
        let (tabs, n, issues) = tables_upto(items, k - 1);
        let item = items[k - 1];
        match unknown_predefined(item.feature, item.id) {
            Some(x) => (tabs, n, issues.push(x)),
            None => {
                let (req, n2) = code_request(item.feature, n);
                match req {
                    None => (tabs, n2, issues),
                    Some((ti, code, max)) => match bind_issue(tabs[ti], code, max, table_label(ti), item.id) {
                        Some(x) => (tabs, n2, issues.push(x)),
                        None => (
                            tabs.update(
                                ti,
                                tabs[ti].push(SfcCodeBinding { code: code as i64, entity_id: item.id }),
                            ),
                            n2,
                            issues,
                        ),
                    },
                }
            },
        }
    }
}

/// Largest code of table `ti`.
pub open spec fn table_max(ti: int) -> int {
    if ti == 0 {
        256
    } else if ti == 1 {
        32
    } else if ti == 2 {
        256
    } else if ti == 3 {
        16
    } else {
        1024
    }
}

/// No code occurs twice in a table, and every code lies in `1..=max`.
pub open spec fn tables_sound(tabs: Seq<Seq<SfcCodeBinding>>) -> bool {
    &&& tabs.len() == 5
    &&& forall|ti: int, i: int, j: int|
        0 <= ti < 5 && 0 <= i < j < tabs[ti].len() ==> #[trigger] tabs[ti][i].code
            != #[trigger] tabs[ti][j].code
    &&& forall|ti: int, i: int|
        0 <= ti < 5 && 0 <= i < tabs[ti].len() ==> 1 <= #[trigger] tabs[ti][i].code <= table_max(ti)
}

/// Every counter is at least its start and at most its start plus `k`.
pub open spec fn counters_bounded(n: (int, int, int, int, int), k: int) -> bool {
    &&& 1 <= n.0 <= 1 + k
    &&& 17 <= n.1 <= 17 + k
    &&& 17 <= n.2 <= 17 + k
    &&& 11 <= n.3 <= 11 + k
    &&& 1 <= n.4 <= 1 + k
}

pub proof fn lemma_predefined_codes_positive(n: Seq<char>, w: crate::model::Decimal)
    ensures
        line_type_code_spec(n) matches Some(c) ==> 1 <= c <= 15,
        color_code_spec(n) matches Some(c) ==> 1 <= c <= 16,
        line_width_code_spec(w) matches Some(c) ==> 1 <= c <= 10,
{
}

/// The code tables never hold a code twice, and every code lies between 1
/// and the table's maximum.
pub proof fn lemma_code_tables_sound(items: Seq<TypedFeatureInstance>, k: int)
    requires
        0 <= k <= items.len(),
    ensures
        tables_sound(tables_upto(items, k).0),
        counters_bounded(tables_upto(items, k).1, k),
    decreases k,
{
    if k > 0 {
        lemma_code_tables_sound(items, k - 1);
        let (tabs, n, issues) = tables_upto(items, k - 1);
        let item = items[k - 1];
        match item.feature {
            TypedFeature::PreDefinedFont(x) => lemma_predefined_codes_positive(
                normalized_name(x.name@),
                crate::model::Decimal { mantissa: 0, exponent: 0 },
            ),
            TypedFeature::PreDefinedColour(x) => lemma_predefined_codes_positive(
                normalized_name(x.name@),
                crate::model::Decimal { mantissa: 0, exponent: 0 },
            ),
            TypedFeature::Width(x) => lemma_predefined_codes_positive(Seq::empty(), x.width),
            _ => {},
        }
        let (req, n2) = code_request(item.feature, n);
        if unknown_predefined(item.feature, item.id) is None {
            if let Some((ti, code, max)) = req {
                if code <= max && !has_code(tabs[ti], code) {
                    let b = SfcCodeBinding { code: code as i64, entity_id: item.id };
                    let nt = tabs.update(ti, tabs[ti].push(b));
                    assert forall|t: int, i: int, j: int|
                        0 <= t < 5 && 0 <= i < j < nt[t].len() implies #[trigger] nt[t][i].code
                        != #[trigger] nt[t][j].code by {
                        if t == ti && j == tabs[ti].len() {
                            assert(nt[t][i] == tabs[ti][i]);
                        } else if t == ti {
                            assert(nt[t][i] == tabs[ti][i]);
                            assert(nt[t][j] == tabs[ti][j]);
                        }
                    }
                    assert forall|t: int, i: int|
                        0 <= t < 5 && 0 <= i < nt[t].len() implies 1 <= #[trigger] nt[t][i].code
                        <= table_max(t) by {
                        if t == ti && i < tabs[ti].len() {
                            assert(nt[t][i] == tabs[ti][i]);
                        }
                    }
                }
            }
        }
    }
}

/// Issues only accumulate: those of the first `a` features begin those of
/// the first `b`.
pub proof fn lemma_issues_grow(items: Seq<TypedFeatureInstance>, a: int, b: int)
    requires
        0 <= a <= b,
    ensures
        tables_upto(items, a).2.len() <= tables_upto(items, b).2.len(),
        tables_upto(items, b).2.subrange(0, tables_upto(items, a).2.len() as int) == tables_upto(items, a).2,
    decreases b - a,
{
    if a < b {
        lemma_issues_grow(items, a, b - 1);
        let x = tables_upto(items, a).2;
        let y = tables_upto(items, b - 1).2;
        let z = tables_upto(items, b).2;
        assert(z.subrange(0, x.len() as int) =~= y.subrange(0, x.len() as int));
    } else {
        assert(tables_upto(items, b).2.subrange(0, tables_upto(items, b).2.len() as int) =~= tables_upto(items, b).2);
    }
}

/// A result with its value dropped.
pub open spec fn unit_result<T>(r: Result<T, ParseError>) -> Result<(), ParseError> {
    match r {
        Ok(_) => Ok(()),
        Err(e) => Err(e),
    }
}

impl Parser {
    /// Adds `code` for entity `id` to `table`, unless it is above `max` or
    /// already there; those are reported (strict: error) and skipped.
    fn bind_code(
        &mut self,
        table: &mut Vec<SfcCodeBinding>,
        code: i64,
        max: i64,
        label: &str,
        id: i64,
    ) -> (r: Result<(), ParseError>)
        ensures
            old(self).same_source(&*final(self)),
            final(self).index == old(self).index,
            final(self).line == old(self).line,
            final(self).column == old(self).column,
            ({
                let issue = bind_issue(old(table)@, code as int, max as int, label@, id);
                &&& issue is None ==> r is Ok && final(table)@ == old(table)@.push(
                    SfcCodeBinding { code, entity_id: id },
                ) && final(self).warnings@ == old(self).warnings@
                &&& issue is Some ==> final(table)@ == old(table)@
                &&& raises(*old(self), *final(self), r, issue_seq(issue))
            }),
    {
        let ghost start = *self;
        if code > max {
            let mut m = string_from_str("Entity #");
            push_int(&mut m, id);
            push_str(&mut m, " exceeds the maximum ");
            push_str(&mut m, label);
            push_str(&mut m, " code ");
            push_int(&mut m, max);
            return self.issue_or_error("sfc-code-table-overflow", m);
        }
        let mut i: usize = 0;
        while i < table.len()
            invariant
                i <= table@.len(),
                table@ == old(table)@,
                *self == *old(self),
                code <= max,
                forall|j: int| 0 <= j < i ==> #[trigger] table@[j].code != code,
            decreases table@.len() - i,
        {
            if table[i].code == code {
                assert(table@[i as int].code == code);
                let mut m = string_from_str("Entity #");
                push_int(&mut m, id);
                push_str(&mut m, " duplicates ");
                push_str(&mut m, label);
                push_str(&mut m, " code ");
                push_int(&mut m, code);
                return self.issue_or_error("sfc-duplicate-code-definition", m);
            }
            i = i + 1;
        }
        table.push(SfcCodeBinding { code, entity_id: id });
        proof {
            assert(recorded(start, *self, Seq::empty()));
        }
        Ok(())
    }

    /// Assigns the SFC code of every layer, line type, colour, width and text
    /// font definition, in order.
    pub fn build_sfc_code_tables(&mut self, document: &ParsedDocument) -> (r: Result<
        SfcCodeTables,
        ParseError,
    >)
        requires
            document.typed_features@.len() < 0x4000_0000_0000_0000,
        ensures
            old(self).same_source(&*final(self)),
            final(self).index == old(self).index,
            final(self).line == old(self).line,
            final(self).column == old(self).column,
            old(self).keeps_warnings(&*final(self)),
            old(self).quiet_if_strict(&*final(self)),
            ({
                let (tabs, _, issues) = tables_upto(
                    document.typed_features@,
                    document.typed_features@.len() as int,
                );
                &&& r is Err <==> old(self).strict && issues.len() > 0
                &&& r matches Ok(t) ==> table_seqs(t) == tabs && tables_sound(table_seqs(t))
                &&& raises(*old(self), *final(self), unit_result(r), issues)
            }),
    {
        let ghost items = document.typed_features@;
        let ghost start = *self;
        let mut tables = SfcCodeTables {
            layers: Vec::new(),
            line_types: Vec::new(),
            colors: Vec::new(),
            line_widths: Vec::new(),
            text_fonts: Vec::new(),
        };
        let mut next_layer: i64 = 1;
        let mut next_user_line_type: i64 = 17;
        let mut next_user_color: i64 = 17;
        let mut next_user_width: i64 = 11;
        let mut next_text_font: i64 = 1;
        proof {
            assert(table_seqs(tables) =~= tables_upto(items, 0).0);
        }
        let mut i: usize = 0;
        while i < document.typed_features.len()
            invariant
                items == document.typed_features@,
                items.len() < 0x4000_0000_0000_0000,
                i <= items.len(),
                old(self).same_source(&*self),
                self.index == old(self).index,
                self.line == old(self).line,
                self.column == old(self).column,
                old(self).keeps_warnings(&*self),
                old(self).quiet_if_strict(&*self),
                ({
                    let (tabs, n, issues) = tables_upto(items, i as int);
                    &&& table_seqs(tables) == tabs
                    &&& n == (
                        next_layer as int,
                        next_user_line_type as int,
                        next_user_color as int,
                        next_user_width as int,
                        next_text_font as int,
                    )
                    &&& old(self).strict ==> issues.len() == 0
                    &&& recorded(start, *self, issues)
                }),
                start == *old(self),
            decreases items.len() - i,
        {
            proof {
                lemma_code_tables_sound(items, i as int);
            }
            let ghost before = *self;
            let ghost tabs_before = table_seqs(tables);
            let item = &document.typed_features[i];
            let ghost (t0, n0, issues0) = tables_upto(items, i as int);
            let res: Result<(), ParseError> = match &item.feature {
                TypedFeature::Layer(_) => {
                    let code = next_layer;
                    next_layer = next_layer + 1;
                    self.bind_code(&mut tables.layers, code, 256, "layer", item.id)
                },
                TypedFeature::PreDefinedFont(feature) => {
                    match predefined_line_type_code(feature.name.as_str()) {
                        Some(code) => self.bind_code(&mut tables.line_types, code, 15, "line type", item.id),
                        None => {
                            let mut m = string_from_str("Entity #");
                            push_int(&mut m, item.id);
                            push_str(&mut m, " has unknown predefined line type ");
                            push_str(&mut m, crate::text::debug_text_of(feature.name.as_str()).as_str());
                            let ghost x = ("sfc-predefined-line-type"@, m@);
                            let r = self.issue_or_error("sfc-predefined-line-type", m);
                            assert(issue_seq(Some(x)) == seq![x]);
                            r
                        },
                    }
                },
                TypedFeature::UserDefinedFont(_) => {
                    let code = next_user_line_type;
                    next_user_line_type = next_user_line_type + 1;
                    self.bind_code(&mut tables.line_types, code, 32, "line type", item.id)
                },
                TypedFeature::PreDefinedColour(feature) => {
                    match predefined_color_code(feature.name.as_str()) {
                        Some(code) => self.bind_code(&mut tables.colors, code, 16, "color", item.id),
                        None => {
                            let mut m = string_from_str("Entity #");
                            push_int(&mut m, item.id);
                            push_str(&mut m, " has unknown predefined color ");
                            push_str(&mut m, crate::text::debug_text_of(feature.name.as_str()).as_str());
                            let ghost x = ("sfc-predefined-color"@, m@);
                            let r = self.issue_or_error("sfc-predefined-color", m);
                            assert(issue_seq(Some(x)) == seq![x]);
                            r
                        },
                    }
                },
                TypedFeature::UserDefinedColour(_) => {
                    let code = next_user_color;
                    next_user_color = next_user_color + 1;
                    self.bind_code(&mut tables.colors, code, 256, "color", item.id)
                },
                TypedFeature::Width(feature) => {
                    let code = match predefined_line_width_code(feature.width) {
                        Some(c) => c,
                        None => {
                            let c = next_user_width;
                            next_user_width = next_user_width + 1;
                            c
                        },
                    };
                    self.bind_code(&mut tables.line_widths, code, 16, "line width", item.id)
                },
                TypedFeature::TextFont(_) => {
                    let code = next_text_font;
                    next_text_font = next_text_font + 1;
                    self.bind_code(&mut tables.text_fonts, code, 1024, "text font", item.id)
                },
                _ => Ok(()),
            };
            let ghost now = tables_upto(items, i + 1).2.subrange(issues0.len() as int, tables_upto(items, i + 1).2.len() as int);
            proof {
                lemma_issues_grow(items, i + 1, items.len() as int);
                if self.warnings@.len() > before.warnings@.len() {
                    assert forall|q: int| 0 <= q < old(self).warnings@.len() implies self.warnings@[q]
                        == old(self).warnings@[q] by {
                        assert(self.warnings@.drop_last()[q] == self.warnings@[q]);
                    }
                }
                let issues1 = tables_upto(items, i + 1).2;
                let all = tables_upto(items, items.len() as int).2;
                let rest = all.subrange(issues1.len() as int, all.len() as int);
                assert(issues1 =~= issues0 + now);
                assert(all =~= all.subrange(0, issues1.len() as int) + rest);
                assert(all =~= issues0 + (now + rest));
                assert(raises(before, *self, res, now));
                lemma_raises_step(start, before, *self, res, issues0, now, rest, all);
            }
            res?;
            proof {
                let (t1, n1, issues1) = tables_upto(items, i + 1);
                assert(table_seqs(tables) =~= t1);
            }
            i = i + 1;
        }
        proof {
            lemma_code_tables_sound(items, i as int);
            lemma_raises_done(start, *self, tables_upto(items, i as int).2);
        }
        Ok(tables)
    }
}

} // verus!
