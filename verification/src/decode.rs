//! Decoding the parameters of one SFC feature record into a typed feature.

use vstd::prelude::*;
use crate::model::{
    CommonStyle, Decimal, DimensionArrow, ExtensionLine, FeatureText, Point2, Value,
};
use crate::checklist::{check, outcome, reports};
use crate::text::{nat_text, push_str, push_usize, string_from_str};
use crate::values::{ints_view, opt_int};

verus! {

broadcast use crate::checklist::group_first_failure;

pub open spec fn dec_at(p: Seq<Value>, i: int) -> Option<Decimal> {
    p[i].spec_as_decimal()
}

pub open spec fn int_at(p: Seq<Value>, i: int) -> Option<int> {
    p[i].spec_as_i64()
}

pub open spec fn str_at(p: Seq<Value>, i: int) -> Option<Seq<char>> {
    p[i].spec_as_string()
}

pub open spec fn code_at(p: Seq<Value>, i: int) -> Option<i64> {
    match int_at(p, i) {
        Some(v) => Some(v as i64),
        None => None,
    }
}

pub open spec fn pt_ok(p: Seq<Value>, i: int, j: int) -> bool {
    dec_at(p, i) is Some && dec_at(p, j) is Some
}

pub open spec fn pt_at(p: Seq<Value>, i: int, j: int) -> Point2 {
    Point2 { x: dec_at(p, i)->0, y: dec_at(p, j)->0 }
}

/// Parameter `i` must be a string.
pub open spec fn string_check(p: Seq<Value>, i: int, name: Seq<char>) -> Seq<(bool, Seq<char>)> {
    check(str_at(p, i) is Some, name + " must be a string"@)
}

/// Parameter `i` must be an integer.
pub open spec fn int_check(p: Seq<Value>, i: int, name: Seq<char>) -> Seq<(bool, Seq<char>)> {
    check(int_at(p, i) is Some, name + " must be an integer-compatible value"@)
}

/// Parameter `i` must be a number.
pub open spec fn dec_check(p: Seq<Value>, i: int, name: Seq<char>) -> Seq<(bool, Seq<char>)> {
    check(dec_at(p, i) is Some, name + " must be a numeric value"@)
}

/// Parameter `i` must be a list of numbers.
pub open spec fn dlist_check(p: Seq<Value>, i: int, name: Seq<char>) -> Seq<(bool, Seq<char>)> {
    check(p[i].spec_as_decimal_list() is Some, name + " must be a numeric list"@)
}

/// Parameter `i` must be a list of integers.
pub open spec fn ilist_check(p: Seq<Value>, i: int, name: Seq<char>) -> Seq<(bool, Seq<char>)> {
    check(p[i].spec_as_i64_list() is Some, name + " must be an integer list"@)
}

/// A feature record must have exactly `expected` parameters.
pub open spec fn count_check(p: Seq<Value>, expected: nat, feature: Seq<char>) -> Seq<(bool, Seq<char>)> {
    check(
        p.len() == expected,
        feature + " requires exactly "@ + nat_text(expected) + " parameters, got "@ + nat_text(p.len()),
    )
}

/// A declared element count must be a count and agree with the actual one.
pub open spec fn declared_check(declared: int, actual: int, field: Seq<char>) -> Seq<(bool, Seq<char>)> {
    check(
        count_ok(declared, actual),
        if 0 <= declared <= usize::MAX {
            field + " count mismatch: declared "@ + nat_text(declared as nat) + ", got "@ + nat_text(
                actual as nat,
            )
        } else {
            field + " count must be a non-negative integer"@
        },
    )
}

/// The checks on a point at parameters `i` and `j`.
pub open spec fn point_checks(p: Seq<Value>, i: int, j: int) -> Seq<(bool, Seq<char>)> {
    dec_check(p, i, "point x"@) + dec_check(p, j, "point y"@)
}

pub open spec fn line_style_checks(p: Seq<Value>) -> Seq<(bool, Seq<char>)> {
    int_check(p, 0, "layer"@) + int_check(p, 1, "color"@) + int_check(p, 2, "line_type"@) + int_check(
        p,
        3,
        "line_width"@,
    )
}

pub open spec fn layer_color_checks(p: Seq<Value>) -> Seq<(bool, Seq<char>)> {
    int_check(p, 0, "layer"@) + int_check(p, 1, "color"@)
}

pub open spec fn ext_line_checks(p: Seq<Value>, s: int) -> Seq<(bool, Seq<char>)> {
    int_check(p, s, "extension line flag"@) + point_checks(p, s + 1, s + 2) + point_checks(p, s + 3, s + 4)
        + point_checks(p, s + 5, s + 6)
}

pub open spec fn arrow_checks(p: Seq<Value>, s: int) -> Seq<(bool, Seq<char>)> {
    int_check(p, s, "arrow code"@) + int_check(p, s + 1, "arrow direction"@) + point_checks(p, s + 2, s + 3)
        + dec_check(p, s + 4, "arrow scale"@)
}

pub open spec fn text_checks(p: Seq<Value>, s: int) -> Seq<(bool, Seq<char>)> {
    int_check(p, s, "text present flag"@) + int_check(p, s + 1, "text font"@) + string_check(p, s + 2, "text"@)
        + point_checks(p, s + 3, s + 4) + dec_check(p, s + 5, "text height"@) + dec_check(
        p,
        s + 6,
        "text width"@,
    ) + dec_check(p, s + 7, "text spacing"@) + dec_check(p, s + 8, "text angle"@) + dec_check(
        p,
        s + 9,
        "text slant"@,
    ) + int_check(p, s + 10, "text base point"@) + int_check(p, s + 11, "text direction"@)
}

/// Layer, colour, line type and line width codes at parameters 0..=3.
pub open spec fn line_style_ok(p: Seq<Value>) -> bool {
    int_at(p, 0) is Some && int_at(p, 1) is Some && int_at(p, 2) is Some && int_at(p, 3) is Some
}

pub open spec fn line_style_at(p: Seq<Value>) -> CommonStyle {
    CommonStyle {
        layer_code: code_at(p, 0),
        color_code: code_at(p, 1),
        line_type_code: code_at(p, 2),
        line_width_code: code_at(p, 3),
        font_code: None,
    }
}

pub open spec fn layer_color_style_at(p: Seq<Value>) -> CommonStyle {
    CommonStyle {
        layer_code: code_at(p, 0),
        color_code: code_at(p, 1),
        line_type_code: None,
        line_width_code: None,
        font_code: None,
    }
}

pub open spec fn ext_line_ok(p: Seq<Value>, s: int) -> bool {
    int_at(p, s) is Some && pt_ok(p, s + 1, s + 2) && pt_ok(p, s + 3, s + 4) && pt_ok(
        p,
        s + 5,
        s + 6,
    )
}

pub open spec fn ext_line_at(p: Seq<Value>, s: int) -> ExtensionLine {
    ExtensionLine {
        present_flag: code_at(p, s)->0,
        base: pt_at(p, s + 1, s + 2),
        start: pt_at(p, s + 3, s + 4),
        end: pt_at(p, s + 5, s + 6),
    }
}

pub open spec fn arrow_ok(p: Seq<Value>, s: int) -> bool {
    int_at(p, s) is Some && int_at(p, s + 1) is Some && pt_ok(p, s + 2, s + 3) && dec_at(p, s + 4)
        is Some
}

pub open spec fn arrow_at(p: Seq<Value>, s: int) -> DimensionArrow {
    DimensionArrow {
        code: code_at(p, s)->0,
        direction_flag: code_at(p, s + 1)->0,
        position: pt_at(p, s + 2, s + 3),
        scale: dec_at(p, s + 4)->0,
    }
}

pub open spec fn text_ok(p: Seq<Value>, s: int) -> bool {
    &&& int_at(p, s) is Some
    &&& int_at(p, s + 1) is Some
    &&& str_at(p, s + 2) is Some
    &&& pt_ok(p, s + 3, s + 4)
    &&& dec_at(p, s + 5) is Some
    &&& dec_at(p, s + 6) is Some
    &&& dec_at(p, s + 7) is Some
    &&& dec_at(p, s + 8) is Some
    &&& dec_at(p, s + 9) is Some
    &&& int_at(p, s + 10) is Some
    &&& int_at(p, s + 11) is Some
}

pub open spec fn text_at(p: Seq<Value>, s: int, t: FeatureText) -> bool {
    &&& t.present_flag == code_at(p, s)->0
    &&& t.font_code == code_at(p, s + 1)->0
    &&& t.text@ == str_at(p, s + 2)->0
    &&& t.anchor == pt_at(p, s + 3, s + 4)
    &&& t.height == dec_at(p, s + 5)->0
    &&& t.width == dec_at(p, s + 6)->0
    &&& t.spacing == dec_at(p, s + 7)->0
    &&& t.angle_deg == dec_at(p, s + 8)->0
    &&& t.slant_deg == dec_at(p, s + 9)->0
    &&& t.base_point == code_at(p, s + 10)->0
    &&& t.direction == code_at(p, s + 11)->0
}

/// Deep equality of two values, strings compared by their characters.
pub open spec fn same_value(a: Value, b: Value) -> bool
    decreases a,
{
    match (a, b) {
        (Value::Unset, Value::Unset) => true,
        (Value::Omitted, Value::Omitted) => true,
        (Value::Integer(x), Value::Integer(y)) => x == y,
        (Value::Real(x), Value::Real(y)) => x == y,
        (Value::String(x), Value::String(y)) => x@ == y@,
        (Value::Enum(x), Value::Enum(y)) => x@ == y@,
        (Value::Reference(x), Value::Reference(y)) => x == y,
        (Value::Binary(x), Value::Binary(y)) => x@ == y@,
        (Value::List(xs), Value::List(ys)) => xs@.len() == ys@.len() && forall|i: int|
            0 <= i < xs@.len() ==> same_value(#[trigger] xs@[i], ys@[i]),
        (
            Value::Typed { keyword: k1, parameters: xs },
            Value::Typed { keyword: k2, parameters: ys },
        ) => k1@ == k2@ && xs@.len() == ys@.len() && forall|i: int|
            0 <= i < xs@.len() ==> same_value(#[trigger] xs@[i], ys@[i]),
        _ => false,
    }
}

/// Element-wise deep equality of two value sequences.
pub open spec fn same_values(a: Seq<Value>, b: Seq<Value>) -> bool {
    a.len() == b.len() && forall|i: int| 0 <= i < a.len() ==> same_value(#[trigger] a[i], b[i])
}

pub fn clone_value(v: &Value) -> (r: Value)
    ensures
        same_value(*v, r),
    decreases v,
{
    match v {
        Value::Unset => Value::Unset,
        Value::Omitted => Value::Omitted,
        Value::Integer(x) => Value::Integer(*x),
        Value::Real(x) => Value::Real(*x),
        Value::String(x) => Value::String(x.clone()),
        Value::Enum(x) => Value::Enum(x.clone()),
        Value::Reference(x) => Value::Reference(*x),
        Value::Binary(x) => Value::Binary(x.clone()),
        Value::List(xs) => {
            let mut out: Vec<Value> = Vec::new();
            let mut i: usize = 0;
            while i < xs.len()
                invariant
                    *v == Value::List(*xs),
                    i <= xs@.len(),
                    out@.len() == i,
                    forall|k: int| 0 <= k < i ==> same_value(#[trigger] xs@[k], out@[k]),
                decreases xs@.len() - i,
            {
                proof {
                    assert(decreases_to!(*v => (*v)->List_0));
                    assert(decreases_to!(*xs => xs@));
                    assert(decreases_to!(xs@ => xs@[i as int]));
                }
                out.push(clone_value(&xs[i]));
                i = i + 1;
            }
            Value::List(out)
        },
        Value::Typed { keyword, parameters } => {
            let mut out: Vec<Value> = Vec::new();
            let mut i: usize = 0;
            while i < parameters.len()
                invariant
                    *v == (Value::Typed { keyword: *keyword, parameters: *parameters }),
                    i <= parameters@.len(),
                    out@.len() == i,
                    forall|k: int| 0 <= k < i ==> same_value(#[trigger] parameters@[k], out@[k]),
                decreases parameters@.len() - i,
            {
                proof {
                    assert(decreases_to!(*v => (*v)->parameters));
                    assert(decreases_to!(*parameters => parameters@));
                    assert(decreases_to!(parameters@ => parameters@[i as int]));
                }
                out.push(clone_value(&parameters[i]));
                i = i + 1;
            }
            Value::Typed { keyword: keyword.clone(), parameters: out }
        },
    }
}

/// Deep copy of `params[from..]`.
pub fn clone_values_from(params: &[Value], from: usize) -> (r: Vec<Value>)
    requires
        from <= params@.len(),
    ensures
        same_values(params@.subrange(from as int, params@.len() as int), r@),
{
    let mut out: Vec<Value> = Vec::new();
    let mut i: usize = from;
    while i < params.len()
        invariant
            from <= i <= params@.len(),
            out@.len() == i - from,
            forall|k: int| 0 <= k < i - from ==> same_value(params@[from + k], #[trigger] out@[k]),
        decreases params@.len() - i,
    {
        out.push(clone_value(&params[i]));
        i = i + 1;
    }
    out
}

pub fn parse_required_string(value: &Value, name: &str) -> (r: Result<String, String>)
    ensures
        r is Ok <==> value.spec_as_string() is Some,
        r matches Ok(s) ==> value.spec_as_string() == Some(s@),
        r matches Err(m) ==> m@ == name@ + " must be a string"@,
        reports(outcome(r), check(value.spec_as_string() is Some, name@ + " must be a string"@)),
{
    match value.as_string() {
        Some(s) => Ok(s),
        None => {
            let mut m = string_from_str(name);
            push_str(&mut m, " must be a string");
            Err(m)
        },
    }
}

pub fn parse_required_i64(value: &Value, name: &str) -> (r: Result<i64, String>)
    ensures
        r is Ok <==> value.spec_as_i64() is Some,
        r matches Ok(x) ==> value.spec_as_i64() == Some(x as int),
        r matches Err(m) ==> m@ == name@ + " must be an integer-compatible value"@,
        reports(outcome(r), check(value.spec_as_i64() is Some, name@ + " must be an integer-compatible value"@)),
{
    match value.as_i64() {
        Some(x) => Ok(x),
        None => {
            let mut m = string_from_str(name);
            push_str(&mut m, " must be an integer-compatible value");
            Err(m)
        },
    }
}

pub fn parse_optional_i64(value: &Value) -> (r: Option<i64>)
    ensures
        opt_int(r) == value.spec_as_i64(),
{
    value.as_i64()
}

pub fn parse_required_decimal(value: &Value, name: &str) -> (r: Result<Decimal, String>)
    ensures
        r is Ok <==> value.spec_as_decimal() is Some,
        r matches Ok(x) ==> value.spec_as_decimal() == Some(x),
        r matches Err(m) ==> m@ == name@ + " must be a numeric value"@,
        reports(outcome(r), check(value.spec_as_decimal() is Some, name@ + " must be a numeric value"@)),
{
    match value.as_decimal() {
        Some(x) => Ok(x),
        None => {
            let mut m = string_from_str(name);
            push_str(&mut m, " must be a numeric value");
            Err(m)
        },
    }
}

pub fn parse_required_decimal_list(value: &Value, name: &str) -> (r: Result<Vec<Decimal>, String>)
    ensures
        r is Ok <==> value.spec_as_decimal_list() is Some,
        r matches Ok(x) ==> value.spec_as_decimal_list() == Some(x@),
        r matches Err(m) ==> m@ == name@ + " must be a numeric list"@,
        reports(outcome(r), check(value.spec_as_decimal_list() is Some, name@ + " must be a numeric list"@)),
{
    match value.as_decimal_list() {
        Some(x) => Ok(x),
        None => {
            let mut m = string_from_str(name);
            push_str(&mut m, " must be a numeric list");
            Err(m)
        },
    }
}

pub fn parse_required_i64_list(value: &Value, name: &str) -> (r: Result<Vec<i64>, String>)
    ensures
        r is Ok <==> value.spec_as_i64_list() is Some,
        r matches Ok(x) ==> value.spec_as_i64_list() == Some(ints_view(x@)),
        r matches Err(m) ==> m@ == name@ + " must be an integer list"@,
        reports(outcome(r), check(value.spec_as_i64_list() is Some, name@ + " must be an integer list"@)),
{
    match value.as_i64_list() {
        Some(x) => Ok(x),
        None => {
            let mut m = string_from_str(name);
            push_str(&mut m, " must be an integer list");
            Err(m)
        },
    }
}

pub fn require_parameter_count(params: &[Value], expected: usize, feature_name: &str) -> (r: Result<
    (),
    String,
>)
    ensures
        r is Ok <==> params@.len() == expected,
        r matches Err(m) ==> m@ == feature_name@ + " requires exactly "@ + nat_text(
            expected as nat,
        ) + " parameters, got "@ + nat_text(params@.len()),
        reports(r, count_check(params@, expected as nat, feature_name@)),
{
    if params.len() == expected {
        Ok(())
    } else {
        let mut m = string_from_str(feature_name);
        push_str(&mut m, " requires exactly ");
        push_usize(&mut m, expected);
        push_str(&mut m, " parameters, got ");
        push_usize(&mut m, params.len());
        Err(m)
    }
}

/// A declared element count agrees with the actual one.
pub open spec fn count_ok(declared: int, actual: int) -> bool {
    0 <= declared <= usize::MAX && declared == actual
}

pub fn validate_declared_count(declared: i64, actual: usize, field_name: &str) -> (r: Result<
    (),
    String,
>)
    ensures
        r is Ok <==> count_ok(declared as int, actual as int),
        r matches Err(m) ==> (if 0 <= declared <= usize::MAX {
            m@ == field_name@ + " count mismatch: declared "@ + nat_text(declared as nat)
                + ", got "@ + nat_text(actual as nat)
        } else {
            m@ == field_name@ + " count must be a non-negative integer"@
        }),
        reports(r, declared_check(declared as int, actual as int, field_name@)),
{
    if declared < 0 || declared as u64 > usize::MAX as u64 {
        let mut m = string_from_str(field_name);
        push_str(&mut m, " count must be a non-negative integer");
        return Err(m);
    }
    let d: usize = declared as usize;
    if d == actual {
        Ok(())
    } else {
        let mut m = string_from_str(field_name);
        push_str(&mut m, " count mismatch: declared ");
        push_usize(&mut m, d);
        push_str(&mut m, ", got ");
        push_usize(&mut m, actual);
        Err(m)
    }
}

pub(crate) fn parse_point_at(params: &[Value], x_index: usize, y_index: usize) -> (r: Result<
    Point2,
    String,
>)
    requires
        x_index < params@.len(),
        y_index < params@.len(),
    ensures
        r is Ok <==> pt_ok(params@, x_index as int, y_index as int),
        r matches Ok(pt) ==> pt == pt_at(params@, x_index as int, y_index as int),
        reports(outcome(r), point_checks(params@, x_index as int, y_index as int)),
{
    let x = parse_required_decimal(&params[x_index], "point x")?;
    let y = parse_required_decimal(&params[y_index], "point y")?;
    Ok(Point2 { x, y })
}

pub(crate) fn parse_line_style(params: &[Value]) -> (r: Result<CommonStyle, String>)
    requires
        params@.len() >= 4,
    ensures
        r is Ok <==> line_style_ok(params@),
        r matches Ok(s) ==> s == line_style_at(params@),
        reports(outcome(r), line_style_checks(params@)),
{
    Ok(
        CommonStyle {
            layer_code: Some(parse_required_i64(&params[0], "layer")?),
            color_code: Some(parse_required_i64(&params[1], "color")?),
            line_type_code: Some(parse_required_i64(&params[2], "line_type")?),
            line_width_code: Some(parse_required_i64(&params[3], "line_width")?),
            font_code: None,
        },
    )
}

pub(crate) fn parse_layer_color_style(params: &[Value]) -> (r: Result<CommonStyle, String>)
    requires
        params@.len() >= 2,
    ensures
        r is Ok <==> (int_at(params@, 0) is Some && int_at(params@, 1) is Some),
        r matches Ok(s) ==> s == layer_color_style_at(params@),
        reports(outcome(r), layer_color_checks(params@)),
{
    Ok(
        CommonStyle {
            layer_code: Some(parse_required_i64(&params[0], "layer")?),
            color_code: Some(parse_required_i64(&params[1], "color")?),
            line_type_code: None,
            line_width_code: None,
            font_code: None,
        },
    )
}

pub(crate) fn parse_extension_line(params: &[Value], start: usize) -> (r: Result<ExtensionLine, String>)
    requires
        start + 7 <= params@.len(),
    ensures
        r is Ok <==> ext_line_ok(params@, start as int),
        r matches Ok(e) ==> e == ext_line_at(params@, start as int),
        reports(outcome(r), ext_line_checks(params@, start as int)),
{
    let present_flag = parse_required_i64(&params[start], "extension line flag")?;
    let base = parse_point_at(params, start + 1, start + 2)?;
    let s = parse_point_at(params, start + 3, start + 4)?;
    let end = parse_point_at(params, start + 5, start + 6)?;
    Ok(ExtensionLine { present_flag, base, start: s, end })
}

pub(crate) fn parse_dimension_arrow(params: &[Value], start: usize) -> (r: Result<DimensionArrow, String>)
    requires
        start + 5 <= params@.len(),
    ensures
        r is Ok <==> arrow_ok(params@, start as int),
        r matches Ok(a) ==> a == arrow_at(params@, start as int),
        reports(outcome(r), arrow_checks(params@, start as int)),
{
    let code = parse_required_i64(&params[start], "arrow code")?;
    let direction_flag = parse_required_i64(&params[start + 1], "arrow direction")?;
    let position = parse_point_at(params, start + 2, start + 3)?;
    let scale = parse_required_decimal(&params[start + 4], "arrow scale")?;
    Ok(DimensionArrow { code, direction_flag, position, scale })
}

pub(crate) fn parse_feature_text(params: &[Value], start: usize) -> (r: Result<FeatureText, String>)
    requires
        start + 12 <= params@.len(),
    ensures
        r is Ok <==> text_ok(params@, start as int),
        r matches Ok(t) ==> text_at(params@, start as int, t),
        reports(outcome(r), text_checks(params@, start as int)),
{
    let present_flag = parse_required_i64(&params[start], "text present flag")?;
    let font_code = parse_required_i64(&params[start + 1], "text font")?;
    let text = parse_required_string(&params[start + 2], "text")?;
    let anchor = parse_point_at(params, start + 3, start + 4)?;
    let height = parse_required_decimal(&params[start + 5], "text height")?;
    let width = parse_required_decimal(&params[start + 6], "text width")?;
    let spacing = parse_required_decimal(&params[start + 7], "text spacing")?;
    let angle_deg = parse_required_decimal(&params[start + 8], "text angle")?;
    let slant_deg = parse_required_decimal(&params[start + 9], "text slant")?;
    let base_point = parse_required_i64(&params[start + 10], "text base point")?;
    let direction = parse_required_i64(&params[start + 11], "text direction")?;
    Ok(
        FeatureText {
            present_flag,
            font_code,
            text,
            anchor,
            height,
            width,
            spacing,
            angle_deg,
            slant_deg,
            base_point,
            direction,
        },
    )
}

/// The points built from coordinate lists, paired by position.
pub open spec fn points_of(xs: Seq<Decimal>, ys: Seq<Decimal>, n: int) -> Seq<Point2> {
    Seq::new(n as nat, |i: int| Point2 { x: xs[i], y: ys[i] })
}

pub fn zip_points(xs: &Vec<Decimal>, ys: &Vec<Decimal>, n: usize) -> (r: Vec<Point2>)
    requires
        n <= xs@.len(),
        n <= ys@.len(),
    ensures
        r@ == points_of(xs@, ys@, n as int),
{
    let mut points: Vec<Point2> = Vec::new();
    let mut i: usize = 0;
    while i < n
        invariant
            i <= n <= xs@.len(),
            n <= ys@.len(),
            points@ == points_of(xs@, ys@, i as int),
        decreases n - i,
    {
        points.push(Point2 { x: xs[i], y: ys[i] });
        i = i + 1;
        assert(points@ =~= points_of(xs@, ys@, i as int));
    }
    points
}

/// Deep copy of `params[lo..hi]`.
pub fn clone_values_range(params: &[Value], lo: usize, hi: usize) -> (r: Vec<Value>)
    requires
        lo <= hi <= params@.len(),
    ensures
        same_values(params@.subrange(lo as int, hi as int), r@),
{
    let mut out: Vec<Value> = Vec::new();
    let mut i: usize = lo;
    while i < hi
        invariant
            lo <= i <= hi <= params@.len(),
            out@.len() == i - lo,
            forall|k: int| 0 <= k < i - lo ==> same_value(params@[lo + k], #[trigger] out@[k]),
        decreases hi - i,
    {
        out.push(clone_value(&params[i]));
        i = i + 1;
    }
    out
}

} // verus!
