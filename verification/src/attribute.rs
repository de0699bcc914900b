//! Attribute naming mechanisms encoded in composite-figure names
//! (`$$ATRF$$…`, `$$ATRU$$…`, `$$ATRS$$…`).

use vstd::prelude::*;
use crate::model::SfcAttributeMechanism;
use crate::text::{chars_of, nat_text, push_str, push_usize, starts_with_at, string_from_range, string_from_str};

verus! {

/// First position at or after `from` where `$$` starts in `s`.
pub open spec fn find_sep(s: Seq<char>, from: int) -> Option<int>
    decreases s.len() - from,
{
    if from < 0 || from + 2 > s.len() {
        None
    } else if s[from] == '$' && s[from + 1] == '$' {
        Some(from)
    } else {
        find_sep(s, from + 1)
    }
}

/// `str::split("$$")`: the pieces between non-overlapping separators found left to right.
pub open spec fn split_sep(s: Seq<char>) -> Seq<Seq<char>>
    decreases s.len(),
{
    match find_sep(s, 0) {
        Some(i) => if 0 <= i && i + 2 <= s.len() {
            seq![s.subrange(0, i)] + split_sep(s.subrange(i + 2, s.len() as int))
        } else {
            seq![s]
        },
        None => seq![s],
    }
}

pub open spec fn sep_at(s: Seq<char>, i: int) -> bool {
    0 <= i && i + 1 < s.len() && s[i] == '$' && s[i + 1] == '$'
}

proof fn lemma_find_sep(s: Seq<char>, from: int, m: int)
    requires
        0 <= from <= m,
        forall|q: int| from <= q < m ==> !sep_at(s, q),
        sep_at(s, m) || m + 2 > s.len(),
    ensures
        find_sep(s, from) == (if sep_at(s, m) { Some(m) } else { None::<int> }),
    decreases m - from,
{
    if from < m {
        assert(!sep_at(s, from));
        lemma_find_sep(s, from + 1, m);
    }
}

/// The three mechanism prefixes.
pub open spec fn atrf_prefix() -> Seq<char> {
    seq!['$', '$', 'A', 'T', 'R', 'F', '$', '$']
}

pub open spec fn atru_prefix() -> Seq<char> {
    seq!['$', '$', 'A', 'T', 'R', 'U', '$', '$']
}

pub open spec fn atrs_prefix() -> Seq<char> {
    seq!['$', '$', 'A', 'T', 'R', 'S', '$', '$']
}

pub open spec fn has_prefix(s: Seq<char>, p: Seq<char>) -> bool {
    p.len() <= s.len() && s.subrange(0, p.len() as int) == p
}

pub open spec fn opt_view(o: Option<String>) -> Option<Seq<char>> {
    match o {
        Some(s) => Some(s@),
        None => None,
    }
}

pub open spec fn field_at(fields: Seq<Seq<char>>, i: int) -> Option<Seq<char>> {
    if 0 <= i < fields.len() {
        Some(fields[i])
    } else {
        None
    }
}

pub open spec fn any_empty(fields: Seq<Seq<char>>) -> bool {
    exists|i: int| 0 <= i < fields.len() && #[trigger] fields[i].len() == 0
}

pub open spec fn empty_field_message(tag: Seq<char>) -> Seq<char> {
    tag + " attribute name contains an empty field; optional trailing fields must be omitted"@
}

pub open spec fn field_count_message(tag: Seq<char>, range: Seq<char>, n: int) -> Seq<char> {
    tag + " attribute name requires "@ + range + " fields after the prefix, got "@ + nat_text(
        n as nat,
    )
}

/// What `m` holds for the fields of an `ATRF` name.
pub open spec fn atrf_matches(m: SfcAttributeMechanism, fields: Seq<Seq<char>>) -> bool {
    match m {
        SfcAttributeMechanism::AttributeFile { figure_id, attribute_file_name } => figure_id@
            == fields[0] && opt_view(attribute_file_name) == field_at(fields, 1),
        _ => false,
    }
}

/// What `m` holds for the fields of an `ATRU` name.
pub open spec fn atru_matches(m: SfcAttributeMechanism, fields: Seq<Seq<char>>) -> bool {
    match m {
        SfcAttributeMechanism::SingleAttribute {
            figure_id,
            figure_name,
            attribute_name,
            attribute_value,
            attribute_type,
            unit,
        } => {
            &&& figure_id@ == fields[0]
            &&& opt_view(figure_name) == field_at(fields, 1)
            &&& opt_view(attribute_name) == field_at(fields, 2)
            &&& opt_view(attribute_value) == field_at(fields, 3)
            &&& opt_view(attribute_type) == field_at(fields, 4)
            &&& opt_view(unit) == field_at(fields, 5)
        },
        _ => false,
    }
}

/// What `m` holds for the fields of an `ATRS` name.
pub open spec fn atrs_matches(m: SfcAttributeMechanism, fields: Seq<Seq<char>>) -> bool {
    match m {
        SfcAttributeMechanism::TextAttribute {
            figure_id,
            attribute_name,
            attribute_type,
            unit,
        } => {
            &&& figure_id@ == fields[0]
            &&& attribute_name@ == fields[1]
            &&& opt_view(attribute_type) == field_at(fields, 2)
            &&& opt_view(unit) == field_at(fields, 3)
        },
        _ => false,
    }
}


/// The contract of [`parse_sfc_attribute_mechanism`] for a name with one prefix.
pub open spec fn mechanism_result(
    r: Result<Option<SfcAttributeMechanism>, String>,
    name: Seq<char>,
) -> bool {
    let fields = split_sep(name.subrange(8, name.len() as int));
    let n = fields.len() as int;
    if has_prefix(name, atrf_prefix()) {
        if any_empty(fields) {
            r matches Err(msg) && msg@ == empty_field_message("ATRF"@)
        } else if !(1 <= n <= 2) {
            r matches Err(msg) && msg@ == field_count_message("ATRF"@, "1 or 2"@, n)
        } else {
            r matches Ok(Some(m)) && atrf_matches(m, fields)
        }
    } else if has_prefix(name, atru_prefix()) {
        if any_empty(fields) {
            r matches Err(msg) && msg@ == empty_field_message("ATRU"@)
        } else if !(1 <= n <= 6) {
            r matches Err(msg) && msg@ == field_count_message("ATRU"@, "1 to 6"@, n)
        } else {
            r matches Ok(Some(m)) && atru_matches(m, fields)
        }
    } else if has_prefix(name, atrs_prefix()) {
        if any_empty(fields) {
            r matches Err(msg) && msg@ == empty_field_message("ATRS"@)
        } else if !(2 <= n <= 4) {
            r matches Err(msg) && msg@ == field_count_message("ATRS"@, "2 to 4"@, n)
        } else {
            r matches Ok(Some(m)) && atrs_matches(m, fields)
        }
    } else {
        r matches Ok(None)
    }
}

/// Splits `s[from..]` at every `$$`, returning the piece bounds.
fn split_bounds(s: &Vec<char>, from: usize) -> (r: Vec<(usize, usize)>)
    requires
        from <= s.len(),
    ensures
        r@.len() == split_sep(s@.subrange(from as int, s@.len() as int)).len(),
        forall|k: int|
            0 <= k < r@.len() ==> {
                &&& from <= (#[trigger] r@[k]).0 <= r@[k].1 <= s@.len()
                &&& s@.subrange(r@[k].0 as int, r@[k].1 as int) == split_sep(
                    s@.subrange(from as int, s@.len() as int),
                )[k]
            },
{
    let n = s.len();
    let ghost whole = s@.subrange(from as int, n as int);
    let mut out: Vec<(usize, usize)> = Vec::new();
    let mut start: usize = from;
    let ghost mut done: Seq<Seq<char>> = Seq::empty();
    loop
        invariant
            from <= start <= n == s@.len(),
            whole == s@.subrange(from as int, n as int),
            out@.len() == done.len(),
            done + split_sep(s@.subrange(start as int, n as int)) == split_sep(whole),
            forall|k: int|
                0 <= k < out@.len() ==> {
                    &&& from <= (#[trigger] out@[k]).0 <= out@[k].1 <= n
                    &&& s@.subrange(out@[k].0 as int, out@[k].1 as int) == done[k]
                },
        decreases n - start,
    {
        let ghost rest = s@.subrange(start as int, n as int);
        let mut j: usize = start;
        while n - j >= 2 && !(s[j] == '$' && s[j + 1] == '$')
            invariant
                start <= j <= n == s@.len(),
                rest == s@.subrange(start as int, n as int),
                forall|q: int| 0 <= q < j - start ==> !sep_at(rest, q),
            decreases n - j,
        {
            assert(!sep_at(rest, j - start));
            j = j + 1;
        }
        if n - j >= 2 {
            proof {
                assert(sep_at(rest, j - start));
                lemma_find_sep(rest, 0, j - start);
                assert(rest.subrange(0, j - start) =~= s@.subrange(start as int, j as int));
                assert(rest.subrange(j - start + 2, rest.len() as int) =~= s@.subrange(
                    j + 2,
                    n as int,
                ));
            }
            out.push((start, j));
            proof {
                done = done.push(s@.subrange(start as int, j as int));
                assert(done + split_sep(s@.subrange(j + 2, n as int)) =~= split_sep(whole));
            }
            start = j + 2;
        } else {
            proof {
                lemma_find_sep(rest, 0, n - start);
                assert(!sep_at(rest, n - start));
                assert(split_sep(rest) == seq![rest]);
            }
            out.push((start, n));
            proof {
                done = done.push(rest);
                assert(done =~= split_sep(whole));
            }
            return out;
        }
    }
}

fn field_string(s: &Vec<char>, bounds: &Vec<(usize, usize)>, i: usize) -> (r: Option<String>)
    requires
        forall|k: int|
            0 <= k < bounds@.len() ==> (#[trigger] bounds@[k]).0 <= bounds@[k].1 <= s@.len(),
    ensures
        opt_view(r) == (if i < bounds@.len() {
            Some(s@.subrange(bounds@[i as int].0 as int, bounds@[i as int].1 as int))
        } else {
            None
        }),
{
    if i < bounds.len() {
        let (lo, hi) = bounds[i];
        Some(string_from_range(s, lo, hi))
    } else {
        None
    }
}

fn empty_message(tag: &str) -> (m: String)
    ensures
        m@ == empty_field_message(tag@),
{
    let mut m = string_from_str(tag);
    push_str(
        &mut m,
        " attribute name contains an empty field; optional trailing fields must be omitted",
    );
    m
}

fn count_message(tag: &str, range: &str, n: usize) -> (m: String)
    ensures
        m@ == field_count_message(tag@, range@, n as int),
{
    let mut m = string_from_str(tag);
    push_str(&mut m, " attribute name requires ");
    push_str(&mut m, range);
    push_str(&mut m, " fields after the prefix, got ");
    push_usize(&mut m, n);
    m
}

/// Decodes the attribute naming mechanism of a composite-figure name.
///
/// `Ok(None)` for an ordinary name, `Ok(Some(..))` for a well-formed
/// `$$ATRF$$`, `$$ATRU$$` or `$$ATRS$$` name, and `Err` with the reason for a
/// malformed one.
pub fn parse_sfc_attribute_mechanism(name: &str) -> (r: Result<
    Option<SfcAttributeMechanism>,
    String,
>)
    ensures
        mechanism_result(r, name@),
{
    let s = chars_of(name);
    proof {
        reveal_strlit("$$ATRF$$");
        reveal_strlit("$$ATRU$$");
        reveal_strlit("$$ATRS$$");
        assert(atrf_prefix() =~= "$$ATRF$$"@);
        assert(atru_prefix() =~= "$$ATRU$$"@);
        assert(atrs_prefix() =~= "$$ATRS$$"@);
    }
    let tag: u8 = if starts_with_at(&s, 0, "$$ATRF$$") {
        0
    } else if starts_with_at(&s, 0, "$$ATRU$$") {
        1
    } else if starts_with_at(&s, 0, "$$ATRS$$") {
        2
    } else {
        proof {
            assert(!has_prefix(name@, atrf_prefix()));
            assert(!has_prefix(name@, atru_prefix()));
            assert(!has_prefix(name@, atrs_prefix()));
        }
        return Ok(None);
    };
    proof {
        assert(tag == 0 ==> has_prefix(name@, atrf_prefix()));
        assert(tag == 1 ==> has_prefix(name@, atru_prefix()) && !has_prefix(name@, atrf_prefix()));
        assert(tag == 2 ==> has_prefix(name@, atrs_prefix()) && !has_prefix(name@, atrf_prefix())
            && !has_prefix(name@, atru_prefix()));
    }
    let bounds = split_bounds(&s, 8);
    let ghost fields = split_sep(s@.subrange(8, s@.len() as int));
    let count = bounds.len();
    let mut k: usize = 0;
    while k < count
        invariant
            count == bounds@.len() == fields.len(),
            s@ == name@,
            s@.len() >= 8,
            fields == split_sep(s@.subrange(8, s@.len() as int)),
            tag <= 2,
            tag == 0 ==> has_prefix(name@, atrf_prefix()),
            tag == 1 ==> has_prefix(name@, atru_prefix()) && !has_prefix(name@, atrf_prefix()),
            tag == 2 ==> has_prefix(name@, atrs_prefix()) && !has_prefix(name@, atrf_prefix())
                && !has_prefix(name@, atru_prefix()),
            k <= count,
            forall|q: int| 0 <= q < k ==> fields[q].len() != 0,
            forall|q: int|
                0 <= q < bounds@.len() ==> {
                    &&& (#[trigger] bounds@[q]).0 <= bounds@[q].1 <= s@.len()
                    &&& s@.subrange(bounds@[q].0 as int, bounds@[q].1 as int) == fields[q]
                },
        decreases count - k,
    {
        let (lo, hi) = bounds[k];
        if lo == hi {
            assert(fields[k as int].len() == 0);
            let msg = if tag == 0 {
                empty_message("ATRF")
            } else if tag == 1 {
                empty_message("ATRU")
            } else {
                empty_message("ATRS")
            };
            assert(any_empty(fields));
            return Err(msg);
        }
        k = k + 1;
    }
    assert(!any_empty(fields));
    if tag == 0 {
        if !(1 <= count && count <= 2) {
            return Err(count_message("ATRF", "1 or 2", count));
        }
        let figure_id = string_from_range(&s, bounds[0].0, bounds[0].1);
        let attribute_file_name = field_string(&s, &bounds, 1);
        Ok(Some(SfcAttributeMechanism::AttributeFile { figure_id, attribute_file_name }))
    } else if tag == 1 {
        if !(1 <= count && count <= 6) {
            return Err(count_message("ATRU", "1 to 6", count));
        }
        let figure_id = string_from_range(&s, bounds[0].0, bounds[0].1);
        let figure_name = field_string(&s, &bounds, 1);
        let attribute_name = field_string(&s, &bounds, 2);
        let attribute_value = field_string(&s, &bounds, 3);
        let attribute_type = field_string(&s, &bounds, 4);
        let unit = field_string(&s, &bounds, 5);
        Ok(
            Some(
                SfcAttributeMechanism::SingleAttribute {
                    figure_id,
                    figure_name,
                    attribute_name,
                    attribute_value,
                    attribute_type,
                    unit,
                },
            ),
        )
    } else {
        if !(2 <= count && count <= 4) {
            return Err(count_message("ATRS", "2 to 4", count));
        }
        let figure_id = string_from_range(&s, bounds[0].0, bounds[0].1);
        let attribute_name = string_from_range(&s, bounds[1].0, bounds[1].1);
        let attribute_type = field_string(&s, &bounds, 2);
        let unit = field_string(&s, &bounds, 3);
        Ok(
            Some(
                SfcAttributeMechanism::TextAttribute {
                    figure_id,
                    attribute_name,
                    attribute_type,
                    unit,
                },
            ),
        )
    }
}

/// The figure identifier that every mechanism carries.
pub open spec fn spec_figure_id(m: SfcAttributeMechanism) -> Seq<char> {
    match m {
        SfcAttributeMechanism::AttributeFile { figure_id, .. } => figure_id@,
        SfcAttributeMechanism::SingleAttribute { figure_id, .. } => figure_id@,
        SfcAttributeMechanism::TextAttribute { figure_id, .. } => figure_id@,
    }
}

pub fn sfc_attribute_figure_id(mechanism: &SfcAttributeMechanism) -> (r: &str)
    ensures
        r@ == spec_figure_id(*mechanism),
{
    match mechanism {
        SfcAttributeMechanism::AttributeFile { figure_id, .. } => figure_id.as_str(),
        SfcAttributeMechanism::SingleAttribute { figure_id, .. } => figure_id.as_str(),
        SfcAttributeMechanism::TextAttribute { figure_id, .. } => figure_id.as_str(),
    }
}

} // verus!
