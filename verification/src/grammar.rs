//! The grammar of a Part 21 or SFC exchange file as functions on characters:
//! what each value, record, entity instance and section reads to.

use vstd::prelude::*;
use crate::lexer::{
    backslash_quoted_from, digit_end, is_keyword_start_spec, keyword_ci_at, keyword_end,
    lemma_skip_ws_idem, matches_ci_at, quoted_from, skip_ws_from, string_issue_codes,
};
use crate::model::{Decimal, EntityBody, EntityInstance, FileFormat, Record, SfcVersionTag, Value};
use crate::parser::{
    char_at, number_codes, number_end, number_syntax_error, number_value, prefix_tag,
    reference_at, starts_number, suffix_of,
};
use crate::values::find_char;

verus! {

/// The content of a parameter value, lists held as sequences.
pub enum ValueModel {
    Unset,
    Omitted,
    Integer(i64),
    Real(Decimal),
    String(Seq<char>),
    Enum(Seq<char>),
    Reference(i64),
    Binary(Seq<char>),
    List(Seq<ValueModel>),
    Typed(Seq<char>, Seq<ValueModel>),
}

/// The content of `v`.
pub open spec fn value_model(v: Value) -> ValueModel
    decreases v,
{
    match v {
        Value::Unset => ValueModel::Unset,
        Value::Omitted => ValueModel::Omitted,
        Value::Integer(n) => ValueModel::Integer(n),
        Value::Real(d) => ValueModel::Real(d),
        Value::String(t) => ValueModel::String(t@),
        Value::Enum(t) => ValueModel::Enum(t@),
        Value::Reference(n) => ValueModel::Reference(n),
        Value::Binary(t) => ValueModel::Binary(t@),
        Value::List(vs) => {
            ValueModel::List(values_model(vs@))
        },
        Value::Typed { keyword, parameters } => {
            ValueModel::Typed(keyword@, values_model(parameters@))
        },
    }
}

/// The contents of `vs`, in order.
pub open spec fn values_model(vs: Seq<Value>) -> Seq<ValueModel>
    decreases vs,
{
    if vs.len() == 0 {
        Seq::empty()
    } else {
        values_model(vs.subrange(0, vs.len() - 1)).push(value_model(vs[vs.len() - 1]))
    }
}

/// `o` with `pre` put before its values.
pub open spec fn prefixed<T>(pre: Seq<T>, o: Option<(Seq<T>, int)>) -> Option<(Seq<T>, int)> {
    match o {
        Some((rest, m)) => Some((pre + rest, m)),
        None => None,
    }
}

pub proof fn lemma_values_model_push(vs: Seq<Value>, v: Value)
    ensures
        values_model(vs.push(v)) == values_model(vs).push(value_model(v)),
{
    assert(vs.push(v).subrange(0, vs.len() as int) =~= vs);
}

/// A string body is accepted: a strict SFC reader refuses one that raises
/// a string warning.
pub open spec fn string_accepted(format: FileFormat, strict: bool, body: Seq<char>) -> bool {
    format != FileFormat::Sfc || !strict || string_issue_codes(body).len() == 0
}

/// The value that starts at `j` (no white space before it) and the
/// position after it.
pub open spec fn value_at(format: FileFormat, strict: bool, s: Seq<char>, j: int) -> Option<
    (ValueModel, int),
>
    decreases s.len() - j, 0int,
{
    if j < 0 || j >= s.len() {
        None
    } else {
        let c = s[j];
        if c == '$' {
            Some((ValueModel::Unset, j + 1))
        } else if c == '*' {
            Some((ValueModel::Omitted, j + 1))
        } else if c == '#' {
            match reference_at(s, j) {
                Some(id) => Some((ValueModel::Reference(id as i64), digit_end(s, j + 1))),
                None => None,
            }
        } else if c == '\\' && char_at(s, j + 1) == Some('\'') {
            match backslash_quoted_from(s, j + 2, Seq::empty()) {
                Some((body, end)) => if string_accepted(format, strict, body) {
                    Some((ValueModel::String(body), end))
                } else {
                    None
                },
                None => None,
            }
        } else if c == '\'' {
            match quoted_from(s, j + 1, Seq::empty()) {
                Some((body, end)) => if string_accepted(format, strict, body) {
                    Some((ValueModel::String(body), end))
                } else {
                    None
                },
                None => None,
            }
        } else if c == '"' {
            match find_char(s, '"', j + 1) {
                Some(close) => Some((ValueModel::Binary(s.subrange(j + 1, close)), close + 1)),
                None => None,
            }
        } else if c == '(' {
            match list_at(format, strict, s, j + 1, ')') {
                Some((vs, close)) => if char_at(s, close) == Some(')') {
                    Some((ValueModel::List(vs), close + 1))
                } else {
                    None
                },
                None => None,
            }
        } else if c == '.' {
            let e = keyword_end(s, j + 1);
            if e > j + 1 && e < s.len() && s[e] == '.' {
                Some((ValueModel::Enum(s.subrange(j + 1, e)), e + 1))
            } else {
                None
            }
        } else if starts_number(c) {
            if number_syntax_error(s, j) is None && !(strict && number_codes(format, s, j).len()
                > 0) {
                match number_value(s, j) {
                    Some(v) => Some((value_model(v), number_end(s, j))),
                    None => None,
                }
            } else {
                None
            }
        } else if is_keyword_start_spec(c) {
            let e = keyword_end(s, j);
            let k = skip_ws_from(s, e);
            if j < e && e <= k && k < s.len() && s[k] == '(' {
                match list_at(format, strict, s, k + 1, ')') {
                    Some((vs, close)) => if char_at(s, close) == Some(')') {
                        Some((ValueModel::Typed(s.subrange(j, e), vs), close + 1))
                    } else {
                        None
                    },
                    None => None,
                }
            } else {
                None
            }
        } else {
            None
        }
    }
}

/// The comma-separated values from `i` up to `term`, and the position of
/// `term` (after white space); no values when `term` comes first.
pub open spec fn list_at(format: FileFormat, strict: bool, s: Seq<char>, i: int, term: char) -> Option<
    (Seq<ValueModel>, int),
>
    decreases s.len() - i, 2int,
{
    if i < 0 || i > s.len() {
        None
    } else {
        let p = skip_ws_from(s, i);
        proof {
            lemma_skip_ws_idem(s, i);
        }
        if char_at(s, p) == Some(term) {
            Some((Seq::empty(), p))
        } else {
            items_at(format, strict, s, p, term)
        }
    }
}

/// One or more comma-separated values starting at `p`, and the position
/// after the last one and its white space.
pub open spec fn items_at(format: FileFormat, strict: bool, s: Seq<char>, p: int, term: char) -> Option<
    (Seq<ValueModel>, int),
>
    decreases s.len() - p, 1int,
{
    match value_at(format, strict, s, p) {
        None => None,
        Some((v, e)) => if !(0 <= p < e <= s.len()) {
            None
        } else {
            let k = skip_ws_from(s, e);
            proof {
                lemma_skip_ws_idem(s, e);
            }
            if k < s.len() && s[k] == ',' {
                let q = skip_ws_from(s, k + 1);
                proof {
                    lemma_skip_ws_idem(s, k + 1);
                }
                match items_at(format, strict, s, q, term) {
                    Some((rest, m)) => Some((seq![v] + rest, m)),
                    None => None,
                }
            } else {
                Some((seq![v], k))
            }
        },
    }
}

/// The content of a record.
pub struct RecordModel {
    pub keyword: Seq<char>,
    pub parameters: Seq<ValueModel>,
}

pub open spec fn record_model(r: Record) -> RecordModel {
    RecordModel { keyword: r.keyword@, parameters: values_model(r.parameters@) }
}

pub open spec fn records_model(rs: Seq<Record>) -> Seq<RecordModel> {
    rs.map_values(|r: Record| record_model(r))
}

/// `prefixed` with no prefix changes nothing.
pub proof fn lemma_prefixed_empty<T>(o: Option<(Seq<T>, int)>)
    ensures
        prefixed(Seq::<T>::empty(), o) == o,
{
    match o {
        Some((rest, m)) => {
            assert(Seq::<T>::empty() + rest =~= rest);
        },
        None => {},
    }
}

/// Prefixing twice is prefixing once with both.
pub proof fn lemma_prefixed<T>(pre: Seq<T>, x: T, o: Option<(Seq<T>, int)>)
    ensures
        prefixed(pre, prefixed(seq![x], o)) == prefixed(pre.push(x), o),
{
    match o {
        Some((rest, m)) => {
            assert(pre + (seq![x] + rest) =~= pre.push(x) + rest);
        },
        None => {},
    }
}

/// The content of an entity body.
pub enum BodyModel {
    Simple(RecordModel),
    Complex(Seq<RecordModel>),
}

/// The content of an entity instance.
pub struct EntityModel {
    pub id: i64,
    pub body: BodyModel,
    pub sfc_version: Option<SfcVersionTag>,
}

pub open spec fn entity_model(e: EntityInstance) -> EntityModel {
    EntityModel {
        id: e.id,
        body: match e.body {
            EntityBody::Simple(r) => BodyModel::Simple(record_model(r)),
            EntityBody::Complex(rs) => BodyModel::Complex(records_model(rs@)),
        },
        sfc_version: e.sfc_version,
    }
}

pub open spec fn entities_model(es: Seq<EntityInstance>) -> Seq<EntityModel> {
    es.map_values(|e: EntityInstance| entity_model(e))
}

/// `KEYWORD(values)` starting at `j`, and the position after `)`.
pub open spec fn record_at(format: FileFormat, strict: bool, s: Seq<char>, j: int) -> Option<
    (RecordModel, int),
> {
    let e = keyword_end(s, j);
    let k = skip_ws_from(s, e);
    if 0 <= j < e && char_at(s, k) == Some('(') {
        match list_at(format, strict, s, k + 1, ')') {
            Some((vs, close)) => if char_at(s, close) == Some(')') {
                Some((RecordModel { keyword: s.subrange(j, e), parameters: vs }, close + 1))
            } else {
                None
            },
            None => None,
        }
    } else {
        None
    }
}

/// Records separated by white space or commas from `p` to a closing `)`,
/// and the position after it.
pub open spec fn records_to_close(format: FileFormat, strict: bool, s: Seq<char>, p: int) -> Option<
    (Seq<RecordModel>, int),
>
    decreases s.len() - p,
{
    if !(0 <= p <= s.len()) {
        None
    } else if char_at(s, p) == Some(')') {
        Some((Seq::empty(), p + 1))
    } else {
        match record_at(format, strict, s, p) {
            None => None,
            Some((r, e)) => if !(p < e <= s.len()) {
                None
            } else {
                let k = skip_ws_from(s, e);
                proof {
                    lemma_skip_ws_idem(s, e);
                }
                let q = if char_at(s, k) == Some(',') {
                    skip_ws_from(s, k + 1)
                } else {
                    k
                };
                proof {
                    lemma_skip_ws_idem(s, k + 1);
                }
                match records_to_close(format, strict, s, q) {
                    Some((rest, m)) => Some((seq![r] + rest, m)),
                    None => None,
                }
            },
        }
    }
}

/// `(REC(..) REC(..) ...)` with at least one record, starting at `i`.
pub open spec fn complex_at(format: FileFormat, strict: bool, s: Seq<char>, i: int) -> Option<
    (Seq<RecordModel>, int),
> {
    if char_at(s, i) == Some('(') {
        match records_to_close(format, strict, s, skip_ws_from(s, i + 1)) {
            Some((rs, e)) => if rs.len() > 0 {
                Some((rs, e))
            } else {
                None
            },
            None => None,
        }
    } else {
        None
    }
}

/// `#id = body` after white space from `i`, then `;` (required, or taken
/// when present), and the position after it.
#[verifier::opaque]
pub open spec fn entity_at(
    format: FileFormat,
    strict: bool,
    s: Seq<char>,
    i: int,
    semicolon_required: bool,
    tag: Option<SfcVersionTag>,
) -> Option<(EntityModel, int)> {
    let j = skip_ws_from(s, i);
    match reference_at(s, j) {
        None => None,
        Some(id) => {
            let a = skip_ws_from(s, digit_end(s, j + 1));
            let b = skip_ws_from(s, a + 1);
            let body = if char_at(s, b) == Some('(') {
                match complex_at(format, strict, s, b) {
                    Some((rs, e)) => Some((BodyModel::Complex(rs), e)),
                    None => None,
                }
            } else {
                match record_at(format, strict, s, b) {
                    Some((r, e)) => Some((BodyModel::Simple(r), e)),
                    None => None,
                }
            };
            if char_at(s, a) != Some('=') {
                None
            } else {
                match body {
                    None => None,
                    Some((bm, e)) => {
                        let k = skip_ws_from(s, e);
                        let ent = EntityModel { id: id as i64, body: bm, sfc_version: tag };
                        if char_at(s, k) == Some(';') {
                            Some((ent, k + 1))
                        } else if semicolon_required {
                            None
                        } else {
                            Some((ent, k))
                        }
                    },
                }
            }
        },
    }
}

/// After white space from `i`, `ENDSEC` and `;`: the position after `;`.
pub open spec fn endsec_at(s: Seq<char>, i: int) -> Option<int> {
    if keyword_ci_at(s, i, "ENDSEC"@) {
        let k = skip_ws_from(s, keyword_end(s, skip_ws_from(s, i)));
        if char_at(s, k) == Some(';') {
            Some(k + 1)
        } else {
            None
        }
    } else {
        None
    }
}

/// After white space from `i`, the keyword `kw` and `;`: the position after `;`.
pub open spec fn section_start(s: Seq<char>, i: int, kw: Seq<char>) -> Option<int> {
    if keyword_ci_at(s, i, kw) {
        let k = skip_ws_from(s, keyword_end(s, skip_ws_from(s, i)));
        if char_at(s, k) == Some(';') {
            Some(k + 1)
        } else {
            None
        }
    } else {
        None
    }
}

/// Header records, each followed by `;`, up to `ENDSEC;`.
pub open spec fn header_records_at(format: FileFormat, strict: bool, s: Seq<char>, p: int) -> Option<
    (Seq<RecordModel>, int),
>
    decreases s.len() - p,
{
    if !(0 <= p <= s.len()) {
        None
    } else if keyword_ci_at(s, p, "ENDSEC"@) {
        match endsec_at(s, p) {
            Some(e) => Some((Seq::empty(), e)),
            None => None,
        }
    } else {
        match record_at(format, strict, s, skip_ws_from(s, p)) {
            None => None,
            Some((r, e)) => if !(p < e <= s.len()) {
                None
            } else {
                let k = skip_ws_from(s, e);
                proof {
                    lemma_skip_ws_idem(s, e);
                }
                if char_at(s, k) == Some(';') {
                    match header_records_at(format, strict, s, k + 1) {
                        Some((rest, m)) => Some((seq![r] + rest, m)),
                        None => None,
                    }
                } else {
                    None
                }
            },
        }
    }
}

/// `HEADER; record; ... ENDSEC;` after white space from `i`.
pub open spec fn header_at(format: FileFormat, strict: bool, s: Seq<char>, i: int) -> Option<
    (Seq<RecordModel>, int),
> {
    match section_start(s, i, "HEADER"@) {
        Some(p) => header_records_at(format, strict, s, p),
        None => None,
    }
}

/// Part 21 entity instances, each ending with `;`, up to `ENDSEC;`.
pub open spec fn p21_entities_at(format: FileFormat, strict: bool, s: Seq<char>, p: int) -> Option<
    (Seq<EntityModel>, int),
>
    decreases s.len() - p,
{
    if !(0 <= p <= s.len()) {
        None
    } else if keyword_ci_at(s, p, "ENDSEC"@) {
        match endsec_at(s, p) {
            Some(e) => Some((Seq::empty(), e)),
            None => None,
        }
    } else {
        match entity_at(format, strict, s, p, true, None) {
            None => None,
            Some((en, e)) => if !(p < e <= s.len()) {
                None
            } else {
                match p21_entities_at(format, strict, s, e) {
                    Some((rest, m)) => Some((seq![en] + rest, m)),
                    None => None,
                }
            },
        }
    }
}

/// `DATA; #id = ...; ... ENDSEC;` of a Part 21 file, after white space from `i`.
pub open spec fn p21_data_at(format: FileFormat, strict: bool, s: Seq<char>, i: int) -> Option<
    (Seq<EntityModel>, int),
> {
    match section_start(s, i, "DATA"@) {
        Some(p) => p21_entities_at(format, strict, s, p),
        None => None,
    }
}

/// SFC feature blocks `/*SXF… #id = REC(..) …SXF*/` up to `ENDSEC;`, every
/// block well formed; a strict reader also refuses a complex record.
#[verifier::opaque]
pub open spec fn sfc_blocks_at(format: FileFormat, strict: bool, s: Seq<char>, p: int) -> Option<
    (Seq<EntityModel>, int),
>
    decreases s.len() - p,
{
    if !(0 <= p <= s.len()) {
        None
    } else if keyword_ci_at(s, p, "ENDSEC"@) {
        match endsec_at(s, p) {
            Some(e) => Some((Seq::empty(), e)),
            None => None,
        }
    } else {
        let j = skip_ws_from(s, p);
        match prefix_tag(s, j) {
            None => None,
            Some(tag) => {
                let after = j + 2 + tag.spec_marker().len();
                match entity_at(format, strict, s, after, false, Some(tag)) {
                    None => None,
                    Some((en, e)) => {
                        let k = skip_ws_from(s, e);
                        let next = k + suffix_of(tag).len();
                        if (strict && en.body is Complex) || !matches_ci_at(s, k, suffix_of(tag)) {
                            None
                        } else if !(p < next <= s.len()) {
                            None
                        } else {
                            match sfc_blocks_at(format, strict, s, next) {
                                Some((rest, m)) => Some((seq![en] + rest, m)),
                                None => None,
                            }
                        }
                    },
                }
            },
        }
    }
}

/// The feature block whose opening marker is at `j`: its entity and the
/// position after it, before the closing marker.
pub open spec fn block_at(format: FileFormat, strict: bool, s: Seq<char>, j: int) -> Option<
    (EntityModel, int),
> {
    match prefix_tag(s, j) {
        Some(tag) => entity_at(format, strict, s, j + 2 + tag.spec_marker().len(), false, Some(tag)),
        None => None,
    }
}

/// `ents` were read, in order, from feature blocks opening at the
/// increasing positions `pos`, all at or after `from`.
#[verifier::opaque]
pub open spec fn blocks_read(
    format: FileFormat,
    strict: bool,
    s: Seq<char>,
    from: int,
    pos: Seq<int>,
    ents: Seq<EntityInstance>,
) -> bool {
    &&& pos.len() == ents.len()
    &&& forall|k: int|
        0 <= k < pos.len() ==> from <= #[trigger] pos[k] && (block_at(format, strict, s, pos[k]) matches Some(
            (em, _),
        ) && em == entity_model(ents[k]))
    &&& forall|a: int, b: int| 0 <= a < b < pos.len() ==> #[trigger] pos[a] < #[trigger] pos[b]
}

pub proof fn lemma_blocks_read_empty(format: FileFormat, strict: bool, s: Seq<char>, from: int)
    ensures
        blocks_read(format, strict, s, from, Seq::empty(), Seq::empty()),
{
    reveal(blocks_read);
}

/// One more block, opening after the others.
pub proof fn lemma_blocks_read_push(
    format: FileFormat,
    strict: bool,
    s: Seq<char>,
    from: int,
    pos: Seq<int>,
    ents: Seq<EntityInstance>,
    j: int,
    e: EntityInstance,
)
    requires
        blocks_read(format, strict, s, from, pos, ents),
        from <= j,
        pos.len() > 0 ==> pos.last() < j,
        block_at(format, strict, s, j) matches Some((m, _)) && m == entity_model(e),
    ensures
        blocks_read(format, strict, s, from, pos.push(j), ents.push(e)),
{
    reveal(blocks_read);
    let pos2 = pos.push(j);
    let ents2 = ents.push(e);
    assert forall|k: int| 0 <= k < pos2.len() implies from <= #[trigger] pos2[k] && (block_at(
        format,
        strict,
        s,
        pos2[k],
    ) matches Some((em, _)) && em == entity_model(ents2[k])) by {
        if k < pos.len() {
            assert(pos2[k] == pos[k] && ents2[k] == ents[k]);
        }
    }
    assert forall|a: int, b: int| 0 <= a < b < pos2.len() implies #[trigger] pos2[a] < #[trigger] pos2[b] by {
        if b < pos.len() {
            assert(pos2[a] == pos[a] && pos2[b] == pos[b]);
        } else if pos.len() > 0 {
            assert(pos2[a] == pos[a]);
            assert(pos[a] <= pos.last()) by {
                if a < pos.len() - 1 {
                    assert(pos[a] < pos[pos.len() - 1]);
                }
            }
        }
    }
}

/// One step of `sfc_blocks_at` from `p`.
pub proof fn lemma_sfc_blocks_step(format: FileFormat, strict: bool, s: Seq<char>, p: int)
    requires
        0 <= p <= s.len(),
    ensures
        keyword_ci_at(s, p, "ENDSEC"@) ==> sfc_blocks_at(format, strict, s, p) == (match endsec_at(
            s,
            p,
        ) {
            Some(e) => Some((Seq::<EntityModel>::empty(), e)),
            None => None,
        }),
        !keyword_ci_at(s, p, "ENDSEC"@) ==> ({
            let j = skip_ws_from(s, p);
            match prefix_tag(s, j) {
                None => sfc_blocks_at(format, strict, s, p) is None,
                Some(tag) => match entity_at(
                    format,
                    strict,
                    s,
                    j + 2 + tag.spec_marker().len(),
                    false,
                    Some(tag),
                ) {
                    None => sfc_blocks_at(format, strict, s, p) is None,
                    Some((en, e)) => {
                        let k = skip_ws_from(s, e);
                        let next = k + suffix_of(tag).len();
                        if (strict && en.body is Complex) || !matches_ci_at(s, k, suffix_of(tag)) {
                            sfc_blocks_at(format, strict, s, p) is None
                        } else {
                            p < next ==> sfc_blocks_at(format, strict, s, p) == prefixed(
                                seq![en],
                                sfc_blocks_at(format, strict, s, next),
                            )
                        }
                    },
                },
            }
        }),
{
    reveal(sfc_blocks_at);
}

/// The data section of an SFC file whose every feature block is well formed.
pub open spec fn sfc_data_at(format: FileFormat, strict: bool, s: Seq<char>, i: int) -> Option<
    (Seq<EntityModel>, int),
> {
    match section_start(s, i, "DATA"@) {
        Some(p) => sfc_blocks_at(format, strict, s, p),
        None => None,
    }
}

/// `ISO-10303-21;` and the header section: the header records and the
/// position after the header's `ENDSEC;`.
pub open spec fn file_header_at(format: FileFormat, strict: bool, s: Seq<char>) -> Option<
    (Seq<RecordModel>, int),
> {
    let j = skip_ws_from(s, 0);
    let k = skip_ws_from(s, j + "ISO-10303-21"@.len());
    if matches_ci_at(s, j, "ISO-10303-21"@) && char_at(s, k) == Some(';') {
        header_at(format, strict, s, k + 1)
    } else {
        None
    }
}

/// A whole exchange file up to `END-ISO-10303-21;`: its header records, its
/// entities, and the position after the final `;`.
pub open spec fn file_at(format: FileFormat, strict: bool, s: Seq<char>) -> Option<
    (Seq<RecordModel>, Seq<EntityModel>, int),
> {
    match file_header_at(format, strict, s) {
        None => None,
        Some((h, e1)) => {
            let d = if format == FileFormat::P21 {
                p21_data_at(format, strict, s, e1)
            } else {
                sfc_data_at(format, strict, s, e1)
            };
            match d {
                None => None,
                Some((es, e2)) => {
                    let m = skip_ws_from(s, e2);
                    let n = skip_ws_from(s, m + "END-ISO-10303-21"@.len());
                    if matches_ci_at(s, m, "END-ISO-10303-21"@) && char_at(s, n) == Some(';') {
                        Some((h, es, n + 1))
                    } else {
                        None
                    }
                },
            }
        },
    }
}

/// What a strict reader takes as a value, a lenient reader takes the same.
pub proof fn lemma_value_relaxed(format: FileFormat, s: Seq<char>, j: int)
    ensures
        value_at(format, true, s, j) matches Some(x) ==> value_at(format, false, s, j) == Some(x),
    decreases s.len() - j, 0int,
{
    if 0 <= j < s.len() {
        let c = s[j];
        if c == '(' {
            lemma_list_relaxed(format, s, j + 1, ')');
        } else {
            let e = keyword_end(s, j);
            let k = skip_ws_from(s, e);
            if j < e && e <= k && k < s.len() && s[k] == '(' {
                lemma_list_relaxed(format, s, k + 1, ')');
            }
        }
    }
}

pub proof fn lemma_list_relaxed(format: FileFormat, s: Seq<char>, i: int, term: char)
    ensures
        list_at(format, true, s, i, term) matches Some(x) ==> list_at(format, false, s, i, term)
            == Some(x),
    decreases s.len() - i, 2int,
{
    if 0 <= i <= s.len() {
        lemma_skip_ws_idem(s, i);
        lemma_items_relaxed(format, s, skip_ws_from(s, i), term);
    }
}

pub proof fn lemma_items_relaxed(format: FileFormat, s: Seq<char>, p: int, term: char)
    ensures
        items_at(format, true, s, p, term) matches Some(x) ==> items_at(format, false, s, p, term)
            == Some(x),
    decreases s.len() - p, 1int,
{
    lemma_value_relaxed(format, s, p);
    match value_at(format, true, s, p) {
        Some((v, e)) => if 0 <= p < e <= s.len() {
            let k = skip_ws_from(s, e);
            lemma_skip_ws_idem(s, e);
            if k < s.len() && s[k] == ',' {
                lemma_skip_ws_idem(s, k + 1);
                lemma_items_relaxed(format, s, skip_ws_from(s, k + 1), term);
            }
        },
        None => {},
    }
}

pub proof fn lemma_record_relaxed(format: FileFormat, s: Seq<char>, j: int)
    ensures
        record_at(format, true, s, j) matches Some(x) ==> record_at(format, false, s, j) == Some(x),
{
    let k = skip_ws_from(s, keyword_end(s, j));
    lemma_list_relaxed(format, s, k + 1, ')');
}

pub proof fn lemma_records_relaxed(format: FileFormat, s: Seq<char>, p: int)
    ensures
        records_to_close(format, true, s, p) matches Some(x) ==> records_to_close(format, false, s, p)
            == Some(x),
    decreases s.len() - p,
{
    if 0 <= p <= s.len() && char_at(s, p) != Some(')') {
        lemma_record_relaxed(format, s, p);
        match record_at(format, true, s, p) {
            Some((r, e)) => if p < e <= s.len() {
                let k = skip_ws_from(s, e);
                lemma_skip_ws_idem(s, e);
                lemma_skip_ws_idem(s, k + 1);
                let q = if char_at(s, k) == Some(',') {
                    skip_ws_from(s, k + 1)
                } else {
                    k
                };
                lemma_records_relaxed(format, s, q);
            },
            None => {},
        }
    }
}

pub proof fn lemma_entity_relaxed(
    format: FileFormat,
    s: Seq<char>,
    i: int,
    semicolon_required: bool,
    tag: Option<SfcVersionTag>,
)
    ensures
        entity_at(format, true, s, i, semicolon_required, tag) matches Some(x) ==> entity_at(
            format,
            false,
            s,
            i,
            semicolon_required,
            tag,
        ) == Some(x),
{
    reveal(entity_at);
    let j = skip_ws_from(s, i);
    let a = skip_ws_from(s, digit_end(s, j + 1));
    let b = skip_ws_from(s, a + 1);
    lemma_records_relaxed(format, s, skip_ws_from(s, b + 1));
    lemma_record_relaxed(format, s, b);
}

/// White space before an entity instance changes nothing.
pub proof fn lemma_entity_at_ws(
    format: FileFormat,
    strict: bool,
    s: Seq<char>,
    i: int,
    semicolon_required: bool,
    tag: Option<SfcVersionTag>,
)
    requires
        0 <= i,
    ensures
        entity_at(format, strict, s, i, semicolon_required, tag) == entity_at(
            format,
            strict,
            s,
            skip_ws_from(s, i),
            semicolon_required,
            tag,
        ),
{
    reveal(entity_at);
    lemma_skip_ws_idem(s, i);
}

pub proof fn lemma_header_records_relaxed(format: FileFormat, s: Seq<char>, p: int)
    ensures
        header_records_at(format, true, s, p) matches Some(x) ==> header_records_at(format, false, s, p)
            == Some(x),
    decreases s.len() - p,
{
    if 0 <= p <= s.len() && !keyword_ci_at(s, p, "ENDSEC"@) {
        lemma_record_relaxed(format, s, skip_ws_from(s, p));
        match record_at(format, true, s, skip_ws_from(s, p)) {
            Some((r, e)) => if p < e <= s.len() {
                let k = skip_ws_from(s, e);
                lemma_skip_ws_idem(s, e);
                if char_at(s, k) == Some(';') {
                    lemma_header_records_relaxed(format, s, k + 1);
                }
            },
            None => {},
        }
    }
}

pub proof fn lemma_p21_entities_relaxed(format: FileFormat, s: Seq<char>, p: int)
    ensures
        p21_entities_at(format, true, s, p) matches Some(x) ==> p21_entities_at(format, false, s, p)
            == Some(x),
    decreases s.len() - p,
{
    if 0 <= p <= s.len() && !keyword_ci_at(s, p, "ENDSEC"@) {
        lemma_entity_relaxed(format, s, p, true, None);
        match entity_at(format, true, s, p, true, None) {
            Some((en, e)) => if p < e <= s.len() {
                lemma_p21_entities_relaxed(format, s, e);
            },
            None => {},
        }
    }
}

pub proof fn lemma_sfc_blocks_relaxed(format: FileFormat, s: Seq<char>, p: int)
    ensures
        sfc_blocks_at(format, true, s, p) matches Some(x) ==> sfc_blocks_at(format, false, s, p)
            == Some(x),
    decreases s.len() - p,
{
    reveal(sfc_blocks_at);
    if 0 <= p <= s.len() && !keyword_ci_at(s, p, "ENDSEC"@) {
        let j = skip_ws_from(s, p);
        match prefix_tag(s, j) {
            Some(tag) => {
                let after = j + 2 + tag.spec_marker().len();
                lemma_entity_relaxed(format, s, after, false, Some(tag));
                match entity_at(format, true, s, after, false, Some(tag)) {
                    Some((en, e)) => {
                        let k = skip_ws_from(s, e);
                        let next = k + suffix_of(tag).len();
                        if p < next <= s.len() {
                            lemma_sfc_blocks_relaxed(format, s, next);
                        }
                    },
                    None => {},
                }
            },
            None => {},
        }
    }
}

/// Strictness only refuses: a file a strict reader takes, a lenient reader
/// reads to the same header records and entities.
pub proof fn lemma_file_relaxed(format: FileFormat, s: Seq<char>)
    ensures
        file_header_at(format, true, s) matches Some(x) ==> file_header_at(format, false, s) == Some(x),
        file_at(format, true, s) matches Some(x) ==> file_at(format, false, s) == Some(x),
{
    let j = skip_ws_from(s, 0);
    let k = skip_ws_from(s, j + "ISO-10303-21"@.len());
    match section_start(s, k + 1, "HEADER"@) {
        Some(p) => lemma_header_records_relaxed(format, s, p),
        None => {},
    }
    match file_header_at(format, true, s) {
        Some((h, e1)) => {
            match section_start(s, e1, "DATA"@) {
                Some(p) => {
                    lemma_p21_entities_relaxed(format, s, p);
                    lemma_sfc_blocks_relaxed(format, s, p);
                },
                None => {},
            }
        },
        None => {},
    }
}

} // verus!
