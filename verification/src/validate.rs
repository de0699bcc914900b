//! Semantic validity of decoded SFC features: value ranges, code ranges and
//! Shift-JIS string limits.

use vstd::prelude::*;
use crate::encoding::{shift_jis_encode, shift_jis_encoding};
use crate::model::{
    CommonStyle, Decimal, DimensionArrow, ExtensionLine, FeatureText, HatchLinePattern, LeaderArrow, Point2,
    TypedFeature,
};
use crate::checklist::{
    check, first_failure, lemma_first_failure_at, lemma_first_failure_none, reports,
};
use crate::number::{compare_decimal, dec_order};
use crate::text::{int_text, nat_text, push_int, push_str, push_usize, string_from_str};

verus! {

broadcast use crate::checklist::group_first_failure;

pub fn ensure(condition: bool, message: &str) -> (r: Result<(), String>)
    ensures
        r is Ok <==> condition,
        r matches Err(m) ==> m@ == message@,
{
    if condition {
        Ok(())
    } else {
        Err(string_from_str(message))
    }
}

fn fail(name: &str, tail: &str) -> (r: Result<(), String>)
    ensures
        r matches Err(m) && m@ == name@ + tail@,
{
    let mut m = string_from_str(name);
    push_str(&mut m, tail);
    Err(m)
}

/// An SFC string: not empty unless allowed, representable in Shift-JIS, and
/// at most 256 bytes once encoded.
pub open spec fn sjis_ok(s: Seq<char>, allow_empty: bool) -> bool {
    &&& allow_empty || s.len() > 0
    &&& !shift_jis_encoding(s).1
    &&& shift_jis_encoding(s).0.len() <= 256
}

/// The checks on an SFC string: not empty (unless allowed), representable in
/// Shift-JIS, at most 256 bytes.
pub open spec fn string_checks(value: Seq<char>, name: Seq<char>, allow_empty: bool) -> Seq<
    (bool, Seq<char>),
> {
    check(allow_empty || value.len() > 0, name + " must not be empty"@) + check(
        !shift_jis_encoding(value).1,
        name + " contains characters not representable in Shift-JIS"@,
    ) + check(
        shift_jis_encoding(value).0.len() <= 256,
        name + " exceeds the 256-byte limit ("@ + nat_text(shift_jis_encoding(value).0.len())
            + " Shift-JIS bytes)"@,
    )
}

pub fn validate_sfc_semantic_string(value: &str, name: &str, allow_empty: bool) -> (r: Result<
    (),
    String,
>)
    ensures
        r is Ok <==> sjis_ok(value@, allow_empty),
        reports(r, string_checks(value@, name@, allow_empty)),
{
    if !allow_empty && value.unicode_len() == 0 {
        return fail(name, " must not be empty");
    }
    let (encoded_len, had_errors) = shift_jis_encode(value);
    if had_errors {
        return fail(name, " contains characters not representable in Shift-JIS");
    }
    if encoded_len > 256 {
        let mut m = string_from_str(name);
        push_str(&mut m, " exceeds the 256-byte limit (");
        push_usize(&mut m, encoded_len);
        push_str(&mut m, " Shift-JIS bytes)");
        return Err(m);
    }
    Ok(())
}

pub open spec fn code_in(code: Option<i64>, max: int) -> bool {
    match code {
        Some(c) => 0 <= c <= max,
        None => true,
    }
}

/// Every code a style carries lies in its table's range.
pub open spec fn style_ok(s: CommonStyle) -> bool {
    &&& code_in(s.layer_code, 256)
    &&& code_in(s.color_code, 256)
    &&& code_in(s.line_type_code, 32)
    &&& code_in(s.line_width_code, 16)
    &&& code_in(s.font_code, 1024)
}

/// The check that a code lies in `0..=max`.
pub open spec fn code_check(name: Seq<char>, code: Option<i64>, max: int) -> Seq<(bool, Seq<char>)> {
    check(code_in(code, max), name + " code must be in 0..="@ + int_text(max))
}

fn check_code(name: &str, code: Option<i64>, max: i64) -> (r: Result<(), String>)
    ensures
        r is Ok <==> code_in(code, max as int),
        reports(r, code_check(name@, code, max as int)),
{
    match code {
        Some(c) => {
            if 0 <= c && c <= max {
                Ok(())
            } else {
                let mut m = string_from_str(name);
                push_str(&mut m, " code must be in 0..=");
                push_int(&mut m, max);
                Err(m)
            }
        },
        None => Ok(()),
    }
}

/// The checks on the codes of a style, in order.
pub open spec fn style_checks(s: CommonStyle) -> Seq<(bool, Seq<char>)> {
    code_check("layer"@, s.layer_code, 256) + code_check("color"@, s.color_code, 256) + code_check(
        "line type"@,
        s.line_type_code,
        32,
    ) + code_check("line width"@, s.line_width_code, 16) + code_check("text font"@, s.font_code, 1024)
}

pub fn validate_style(style: &CommonStyle) -> (r: Result<(), String>)
    ensures
        r is Ok <==> style_ok(*style),
        reports(r, style_checks(*style)),
{
    check_code("layer", style.layer_code, 256)?;
    check_code("color", style.color_code, 256)?;
    check_code("line type", style.line_type_code, 32)?;
    check_code("line width", style.line_width_code, 16)?;
    check_code("text font", style.font_code, 1024)?;
    Ok(())
}

/// Coordinates are exact decimals and so always finite.
pub fn validate_point(point: &Point2, name: &str) -> (r: Result<(), String>)
    ensures
        r is Ok,
{
    Ok(())
}

/// Every point of a list is valid; exact decimals always are.
pub fn validate_points(points: &[Point2], name: &str) -> (r: Result<(), String>)
    ensures
        r is Ok,
{
    let mut i: usize = 0;
    while i < points.len()
        invariant
            i <= points@.len(),
        decreases points@.len() - i,
    {
        validate_point(&points[i], name)?;
        i = i + 1;
    }
    Ok(())
}

pub open spec fn positive(d: Decimal) -> bool {
    dec_order(d, 0, 0) > 0 && dec_order(d, 1000000000000000, 0) < 0
}

pub open spec fn nonnegative(d: Decimal) -> bool {
    dec_order(d, 0, 0) >= 0 && dec_order(d, 1000000000000000, 0) < 0
}

pub open spec fn angle_ok(d: Decimal) -> bool {
    dec_order(d, 0, 0) >= 0 && dec_order(d, 360, 0) < 0
}

pub open spec fn slant_ok(d: Decimal) -> bool {
    dec_order(d, -85, 0) >= 0 && dec_order(d, 85, 0) <= 0
}

pub open spec fn flag_ok(v: i64) -> bool {
    v == 0 || v == 1
}

pub open spec fn positive_check(value: Decimal, name: Seq<char>) -> Seq<(bool, Seq<char>)> {
    check(positive(value), name + " must be greater than 0 and less than 1.0e15"@)
}

pub fn validate_positive(value: Decimal, name: &str) -> (r: Result<(), String>)
    ensures
        r is Ok <==> positive(value),
        reports(r, positive_check(value, name@)),
{
    if compare_decimal(value, 0, 0) > 0 && compare_decimal(value, 1000000000000000, 0) < 0 {
        Ok(())
    } else {
        fail(name, " must be greater than 0 and less than 1.0e15")
    }
}

pub open spec fn nonnegative_check(value: Decimal, name: Seq<char>) -> Seq<(bool, Seq<char>)> {
    check(nonnegative(value), name + " must be at least 0 and less than 1.0e15"@)
}

pub fn validate_nonnegative(value: Decimal, name: &str) -> (r: Result<(), String>)
    ensures
        r is Ok <==> nonnegative(value),
        reports(r, nonnegative_check(value, name@)),
{
    if compare_decimal(value, 0, 0) >= 0 && compare_decimal(value, 1000000000000000, 0) < 0 {
        Ok(())
    } else {
        fail(name, " must be at least 0 and less than 1.0e15")
    }
}

pub open spec fn angle_check(value: Decimal, name: Seq<char>) -> Seq<(bool, Seq<char>)> {
    check(angle_ok(value), name + " must be in 0<=angle<360"@)
}

pub fn validate_angle(value: Decimal, name: &str) -> (r: Result<(), String>)
    ensures
        r is Ok <==> angle_ok(value),
        reports(r, angle_check(value, name@)),
{
    if compare_decimal(value, 0, 0) >= 0 && compare_decimal(value, 360, 0) < 0 {
        Ok(())
    } else {
        fail(name, " must be in 0<=angle<360")
    }
}

pub open spec fn flag_check(value: i64, name: Seq<char>) -> Seq<(bool, Seq<char>)> {
    check(flag_ok(value), name + " must be 0 or 1"@)
}

pub fn validate_flag(value: i64, name: &str) -> (r: Result<(), String>)
    ensures
        r is Ok <==> flag_ok(value),
        reports(r, flag_check(value, name@)),
{
    if value == 0 || value == 1 {
        Ok(())
    } else {
        fail(name, " must be 0 or 1")
    }
}

pub open spec fn text_metrics_ok(
    height: Decimal,
    width: Decimal,
    spacing: Decimal,
    angle: Decimal,
    slant: Decimal,
    base_point: i64,
    direction: i64,
) -> bool {
    &&& positive(height)
    &&& positive(width)
    &&& nonnegative(spacing)
    &&& angle_ok(angle)
    &&& slant_ok(slant)
    &&& 1 <= base_point <= 9
    &&& direction == 1 || direction == 2
}

/// The checks on text metrics, in order.
pub open spec fn text_metrics_checks(
    height: Decimal,
    width: Decimal,
    spacing: Decimal,
    angle: Decimal,
    slant: Decimal,
    base_point: i64,
    direction: i64,
) -> Seq<(bool, Seq<char>)> {
    positive_check(height, "text height"@) + positive_check(width, "text width"@) + nonnegative_check(
        spacing,
        "text spacing"@,
    ) + angle_check(angle, "text rotation angle"@) + check(
        slant_ok(slant),
        "text slant must be in -85..=85"@,
    ) + check(1 <= base_point <= 9, "text base point must be in 1..=9"@) + check(
        direction == 1 || direction == 2,
        "text direction must be 1 or 2"@,
    )
}

pub fn validate_text_metrics(
    height: Decimal,
    width: Decimal,
    spacing: Decimal,
    angle: Decimal,
    slant: Decimal,
    base_point: i64,
    direction: i64,
) -> (r: Result<(), String>)
    ensures
        r is Ok <==> text_metrics_ok(height, width, spacing, angle, slant, base_point, direction),
        reports(r, text_metrics_checks(height, width, spacing, angle, slant, base_point, direction)),
{
    validate_positive(height, "text height")?;
    validate_positive(width, "text width")?;
    validate_nonnegative(spacing, "text spacing")?;
    validate_angle(angle, "text rotation angle")?;
    ensure(
        compare_decimal(slant, -85, 0) >= 0 && compare_decimal(slant, 85, 0) <= 0,
        "text slant must be in -85..=85",
    )?;
    ensure(1 <= base_point && base_point <= 9, "text base point must be in 1..=9")?;
    ensure(direction == 1 || direction == 2, "text direction must be 1 or 2")
}

pub open spec fn feature_text_ok(t: FeatureText) -> bool {
    &&& flag_ok(t.present_flag)
    &&& t.present_flag == 0 || {
        &&& 1 <= t.font_code <= 1024
        &&& sjis_ok(t.text@, false)
        &&& text_metrics_ok(
            t.height,
            t.width,
            t.spacing,
            t.angle_deg,
            t.slant_deg,
            t.base_point,
            t.direction,
        )
    }
}

/// The checks on the text of a dimension or label, in order; a text that is
/// not present is not checked further.
pub open spec fn feature_text_checks(t: FeatureText) -> Seq<(bool, Seq<char>)> {
    flag_check(t.present_flag, "text present flag"@) + if t.present_flag == 0 {
        Seq::empty()
    } else {
        check(1 <= t.font_code <= 1024, "text font code must be in 1..=1024"@) + string_checks(
            t.text@,
            "feature text"@,
            false,
        ) + text_metrics_checks(
            t.height,
            t.width,
            t.spacing,
            t.angle_deg,
            t.slant_deg,
            t.base_point,
            t.direction,
        )
    }
}

pub fn validate_feature_text(value: &FeatureText) -> (r: Result<(), String>)
    ensures
        r is Ok <==> feature_text_ok(*value),
        reports(r, feature_text_checks(*value)),
{
    validate_flag(value.present_flag, "text present flag")?;
    if value.present_flag == 0 {
        return Ok(());
    }
    ensure(
        1 <= value.font_code && value.font_code <= 1024,
        "text font code must be in 1..=1024",
    )?;
    validate_sfc_semantic_string(value.text.as_str(), "feature text", false)?;
    validate_point(&value.anchor, "text anchor")?;
    validate_text_metrics(
        value.height,
        value.width,
        value.spacing,
        value.angle_deg,
        value.slant_deg,
        value.base_point,
        value.direction,
    )
}

pub fn validate_extension_line(value: &ExtensionLine, name: &str) -> (r: Result<(), String>)
    ensures
        r is Ok <==> flag_ok(value.present_flag),
        reports(r, flag_check(value.present_flag, name@ + " present flag"@)),
{
    let mut flag_name = string_from_str(name);
    push_str(&mut flag_name, " present flag");
    validate_flag(value.present_flag, flag_name.as_str())?;
    if value.present_flag == 1 {
        validate_point(&value.base, name)?;
        validate_point(&value.start, name)?;
        validate_point(&value.end, name)?;
    }
    Ok(())
}

pub open spec fn dimension_arrow_ok(a: DimensionArrow) -> bool {
    &&& 0 <= a.direction_flag <= 2
    &&& a.direction_flag == 0 || (1 <= a.code <= 11 && positive(a.scale))
}

/// The checks on a dimension arrow, in order.
pub open spec fn dimension_arrow_checks(a: DimensionArrow, name: Seq<char>) -> Seq<(bool, Seq<char>)> {
    check(0 <= a.direction_flag <= 2, name + " direction must be in 0..=2"@) + if a.direction_flag
        == 0 {
        Seq::empty()
    } else {
        check(1 <= a.code <= 11, name + " code must be in 1..=11"@) + positive_check(
            a.scale,
            name + " scale"@,
        )
    }
}

pub fn validate_dimension_arrow(value: &DimensionArrow, name: &str) -> (r: Result<(), String>)
    ensures
        r is Ok <==> dimension_arrow_ok(*value),
        reports(r, dimension_arrow_checks(*value, name@)),
{
    if !(0 <= value.direction_flag && value.direction_flag <= 2) {
        return fail(name, " direction must be in 0..=2");
    }
    if value.direction_flag != 0 {
        if !(1 <= value.code && value.code <= 11) {
            return fail(name, " code must be in 1..=11");
        }
        validate_point(&value.position, name)?;
        let mut scale_name = string_from_str(name);
        push_str(&mut scale_name, " scale");
        validate_positive(value.scale, scale_name.as_str())?;
    }
    Ok(())
}

pub open spec fn leader_arrow_ok(a: LeaderArrow) -> bool {
    1 <= a.code <= 11 && positive(a.scale)
}

/// The checks on a leader arrow, in order.
pub open spec fn leader_arrow_checks(a: LeaderArrow) -> Seq<(bool, Seq<char>)> {
    check(1 <= a.code <= 11, "leader arrow code must be in 1..=11"@) + positive_check(
        a.scale,
        "leader arrow scale"@,
    )
}

pub fn validate_leader_arrow(value: &LeaderArrow) -> (r: Result<(), String>)
    ensures
        r is Ok <==> leader_arrow_ok(*value),
        reports(r, leader_arrow_checks(*value)),
{
    ensure(1 <= value.code && value.code <= 11, "leader arrow code must be in 1..=11")?;
    validate_positive(value.scale, "leader arrow scale")
}

pub open spec fn composite_codes_ok(out_id: i64, in_ids: Seq<i64>) -> bool {
    out_id > 0 && all_positive(in_ids)
}

/// The checks on the composite curve codes of a hatch, in order.
pub open spec fn composite_codes_checks(out_id: i64, in_ids: Seq<i64>) -> Seq<(bool, Seq<char>)> {
    check(out_id > 0, "hatch outer composite curve code must be positive"@) + check(
        all_positive(in_ids),
        "hatch inner composite curve codes must be positive"@,
    )
}

pub open spec fn all_positive(v: Seq<i64>) -> bool {
    forall|i: int| 0 <= i < v.len() ==> #[trigger] v[i] > 0
}

pub fn validate_composite_curve_codes(out_id: i64, in_ids: &[i64]) -> (r: Result<(), String>)
    ensures
        r is Ok <==> composite_codes_ok(out_id, in_ids@),
        reports(r, composite_codes_checks(out_id, in_ids@)),
{
    ensure(out_id > 0, "hatch outer composite curve code must be positive")?;
    let mut i: usize = 0;
    while i < in_ids.len()
        invariant
            i <= in_ids@.len(),
            out_id > 0,
            forall|j: int| 0 <= j < i ==> #[trigger] in_ids@[j] > 0,
        decreases in_ids@.len() - i,
    {
        if in_ids[i] <= 0 {
            assert(!all_positive(in_ids@)) by {
                assert(!(in_ids@[i as int] > 0));
            }
            return Err(string_from_str("hatch inner composite curve codes must be positive"));
        }
        i = i + 1;
    }
    Ok(())
}

pub open spec fn curve_dimension_ok(
    style: CommonStyle,
    radius: Decimal,
    start_angle: Decimal,
    end_angle: Decimal,
    e1: ExtensionLine,
    e2: ExtensionLine,
    a1: DimensionArrow,
    a2: DimensionArrow,
    text: FeatureText,
) -> bool {
    &&& style_ok(style)
    &&& positive(radius)
    &&& angle_ok(start_angle)
    &&& angle_ok(end_angle)
    &&& flag_ok(e1.present_flag)
    &&& flag_ok(e2.present_flag)
    &&& dimension_arrow_ok(a1)
    &&& dimension_arrow_ok(a2)
    &&& feature_text_ok(text)
}

/// The checks on a curve or angular dimension, in order.
pub open spec fn curve_dimension_checks(
    style: CommonStyle,
    radius: Decimal,
    start_angle: Decimal,
    end_angle: Decimal,
    e1: ExtensionLine,
    e2: ExtensionLine,
    a1: DimensionArrow,
    a2: DimensionArrow,
    text: FeatureText,
) -> Seq<(bool, Seq<char>)> {
    style_checks(style) + positive_check(radius, "dimension radius"@) + angle_check(
        start_angle,
        "dimension start angle"@,
    ) + angle_check(end_angle, "dimension end angle"@) + flag_check(
        e1.present_flag,
        "extension line 1"@ + " present flag"@,
    ) + flag_check(e2.present_flag, "extension line 2"@ + " present flag"@) + dimension_arrow_checks(
        a1,
        "dimension arrow 1"@,
    ) + dimension_arrow_checks(a2, "dimension arrow 2"@) + feature_text_checks(text)
}

pub fn validate_curve_dimension(
    style: &CommonStyle,
    center: &Point2,
    radius: Decimal,
    start_angle: Decimal,
    end_angle: Decimal,
    extension_line1: &ExtensionLine,
    extension_line2: &ExtensionLine,
    arrow1: &DimensionArrow,
    arrow2: &DimensionArrow,
    text: &FeatureText,
) -> (r: Result<(), String>)
    ensures
        r is Ok <==> curve_dimension_ok(
            *style,
            radius,
            start_angle,
            end_angle,
            *extension_line1,
            *extension_line2,
            *arrow1,
            *arrow2,
            *text,
        ),
        reports(
            r,
            curve_dimension_checks(
                *style,
                radius,
                start_angle,
                end_angle,
                *extension_line1,
                *extension_line2,
                *arrow1,
                *arrow2,
                *text,
            ),
        ),
{
    validate_style(style)?;
    validate_point(center, "dimension center")?;
    validate_positive(radius, "dimension radius")?;
    validate_angle(start_angle, "dimension start angle")?;
    validate_angle(end_angle, "dimension end angle")?;
    validate_extension_line(extension_line1, "extension line 1")?;
    validate_extension_line(extension_line2, "extension line 2")?;
    validate_dimension_arrow(arrow1, "dimension arrow 1")?;
    validate_dimension_arrow(arrow2, "dimension arrow 2")?;
    validate_feature_text(text)
}

pub open spec fn pitches_ok(p: Seq<Decimal>) -> bool {
    forall|i: int| 0 <= i < p.len() ==> nonnegative(#[trigger] p[i])
}

pub open spec fn hatch_pattern_ok(p: HatchLinePattern) -> bool {
    &&& style_ok(
        CommonStyle {
            layer_code: None,
            color_code: Some(p.color_code),
            line_type_code: Some(p.line_type_code),
            line_width_code: Some(p.line_width_code),
            font_code: None,
        },
    )
    &&& positive(p.spacing)
    &&& angle_ok(p.angle_deg)
}

pub open spec fn color_only(c: i64) -> CommonStyle {
    CommonStyle {
        layer_code: None,
        color_code: Some(c),
        line_type_code: None,
        line_width_code: None,
        font_code: None,
    }
}

/// Semantic validity of each feature kind.
pub open spec fn feature_valid(f: TypedFeature) -> bool {
    match f {
        TypedFeature::DrawingAttribute(v) => {
            &&& sjis_ok(v.project_name@, false)
            &&& sjis_ok(v.construction_name@, false)
            &&& sjis_ok(v.contract_type@, false)
            &&& sjis_ok(v.drawing_name@, false)
            &&& sjis_ok(v.drawing_number@, false)
            &&& sjis_ok(v.drawing_type@, false)
            &&& sjis_ok(v.drawing_scale@, false)
            &&& sjis_ok(v.contractor_name@, false)
            &&& sjis_ok(v.owner_name@, false)
            &&& 1 <= v.drawing_month <= 12
            &&& 1 <= v.drawing_day <= 31
        },
        TypedFeature::DrawingSheet(v) => {
            &&& sjis_ok(v.name@, false)
            &&& (0 <= v.sheet_type <= 4 || v.sheet_type == 9)
            &&& flag_ok(v.orientation)
            &&& 0 < v.free_x_mm <= i32::MAX
            &&& 0 < v.free_y_mm <= i32::MAX
        },
        TypedFeature::Layer(v) => sjis_ok(v.name@, false) && flag_ok(v.visibility_flag),
        TypedFeature::PreDefinedFont(v) => sjis_ok(v.name@, false),
        TypedFeature::PreDefinedColour(v) => sjis_ok(v.name@, false),
        TypedFeature::UserDefinedFont(v) => sjis_ok(v.name@, false) && pitches_ok(v.pitch@),
        TypedFeature::UserDefinedColour(v) => 0 <= v.red <= 255 && 0 <= v.green <= 255 && 0
            <= v.blue <= 255,
        TypedFeature::Width(v) => positive(v.width),
        TypedFeature::TextFont(v) => sjis_ok(v.name@, false),
        TypedFeature::PointMarker(v) => style_ok(v.style) && 1 <= v.marker_code <= 7 && angle_ok(
            v.rotation_angle_deg,
        ) && positive(v.scale),
        TypedFeature::Line(v) => style_ok(v.style),
        TypedFeature::Polyline(v) => style_ok(v.style) && v.points@.len() >= 2,
        TypedFeature::Circle(v) => style_ok(v.style) && positive(v.radius),
        TypedFeature::Arc(v) => {
            &&& style_ok(v.style)
            &&& positive(v.radius)
            &&& flag_ok(v.direction_flag)
            &&& angle_ok(v.start_angle_deg)
            &&& angle_ok(v.end_angle_deg)
        },
        TypedFeature::Ellipse(v) => style_ok(v.style) && positive(v.radius_x) && positive(
            v.radius_y,
        ) && angle_ok(v.rotation_angle_deg),
        TypedFeature::EllipseArc(v) => {
            &&& style_ok(v.style)
            &&& positive(v.radius_x)
            &&& positive(v.radius_y)
            &&& flag_ok(v.direction_flag)
            &&& angle_ok(v.rotation_angle_deg)
            &&& angle_ok(v.start_angle_deg)
            &&& angle_ok(v.end_angle_deg)
        },
        TypedFeature::Text(v) => {
            &&& style_ok(v.style)
            &&& sjis_ok(v.text@, false)
            &&& text_metrics_ok(
                v.height,
                v.width,
                v.spacing,
                v.angle_deg,
                v.slant_deg,
                v.base_point,
                v.direction,
            )
        },
        TypedFeature::Spline(v) => style_ok(v.style) && flag_ok(v.open_close) && v.points@.len()
            >= 2,
        TypedFeature::Clothoid(v) => {
            &&& style_ok(v.style)
            &&& positive(v.parameter)
            &&& flag_ok(v.direction_flag)
            &&& angle_ok(v.angle_deg)
            &&& nonnegative(v.start_length)
            &&& nonnegative(v.end_length)
        },
        TypedFeature::SfigOrg(v) => sjis_ok(v.name@, false) && 1 <= v.kind_flag <= 4,
        TypedFeature::SfigLocate(v) => {
            &&& style_ok(v.style)
            &&& sjis_ok(v.name@, false)
            &&& angle_ok(v.angle_deg)
            &&& positive(v.ratio_x)
            &&& positive(v.ratio_y)
        },
        TypedFeature::ExternallyDefinedSymbol(v) => {
            &&& style_ok(v.style)
            &&& sjis_ok(v.name@, false)
            &&& flag_ok(v.color_flag)
            &&& angle_ok(v.rotation_angle_deg)
            &&& positive(v.scale)
        },
        TypedFeature::LinearDim(v) => {
            &&& style_ok(v.style)
            &&& flag_ok(v.extension_line1.present_flag)
            &&& flag_ok(v.extension_line2.present_flag)
            &&& dimension_arrow_ok(v.arrow1)
            &&& dimension_arrow_ok(v.arrow2)
            &&& feature_text_ok(v.text)
        },
        TypedFeature::CurveDim(v) => curve_dimension_ok(
            v.style,
            v.radius,
            v.start_angle_deg,
            v.end_angle_deg,
            v.extension_line1,
            v.extension_line2,
            v.arrow1,
            v.arrow2,
            v.text,
        ),
        TypedFeature::AngularDim(v) => curve_dimension_ok(
            v.style,
            v.radius,
            v.start_angle_deg,
            v.end_angle_deg,
            v.extension_line1,
            v.extension_line2,
            v.arrow1,
            v.arrow2,
            v.text,
        ),
        TypedFeature::RadiusDim(v) => style_ok(v.style) && dimension_arrow_ok(v.arrow)
            && feature_text_ok(v.text),
        TypedFeature::DiameterDim(v) => style_ok(v.style) && dimension_arrow_ok(v.arrow1)
            && dimension_arrow_ok(v.arrow2) && feature_text_ok(v.text),
        TypedFeature::Label(v) => style_ok(v.style) && v.vertices@.len() >= 2 && leader_arrow_ok(
            v.arrow,
        ) && feature_text_ok(v.text),
        TypedFeature::Balloon(v) => {
            &&& style_ok(v.style)
            &&& v.vertices@.len() >= 2
            &&& positive(v.radius)
            &&& leader_arrow_ok(v.arrow)
            &&& feature_text_ok(v.text)
        },
        TypedFeature::ExternallyDefinedHatch(v) => style_ok(v.style) && sjis_ok(v.name@, false)
            && composite_codes_ok(v.out_id, v.in_ids@),
        TypedFeature::FillAreaStyleColour(v) => style_ok(v.style) && composite_codes_ok(
            v.out_id,
            v.in_ids@,
        ),
        TypedFeature::FillAreaStyleHatching(v) => {
            &&& style_ok(v.style)
            &&& 1 <= v.hatch_number <= 4
            &&& forall|i: int| 0 <= i < v.patterns@.len() ==> hatch_pattern_ok(#[trigger] v.patterns@[i])
            &&& composite_codes_ok(v.out_id, v.in_ids@)
        },
        TypedFeature::FillAreaStyleTiles(v) => {
            &&& style_ok(v.style)
            &&& sjis_ok(v.name@, false)
            &&& style_ok(color_only(v.hatch_color))
            &&& positive(v.hatch_pattern_vector1)
            &&& positive(v.hatch_pattern_vector2)
            &&& angle_ok(v.hatch_pattern_vector1_angle_deg)
            &&& angle_ok(v.hatch_pattern_vector2_angle_deg)
            &&& positive(v.hatch_pattern_scale_x)
            &&& positive(v.hatch_pattern_scale_y)
            &&& angle_ok(v.hatch_pattern_angle_deg)
            &&& composite_codes_ok(v.out_id, v.in_ids@)
        },
        TypedFeature::CompositeCurve(v) => style_ok(v.style) && flag_ok(v.visibility_flag),
    }
}

/// The checks on the pitches of a line type, numbered from 1.
pub open spec fn pitch_checks(p: Seq<Decimal>) -> Seq<(bool, Seq<char>)> {
    Seq::new(
        p.len(),
        |i: int|
            (
                nonnegative(p[i]),
                "line type pitch "@ + nat_text((i + 1) as nat) + " must be at least 0 and less than 1.0e15"@,
            ),
    )
}

fn validate_pitches(pitch: &Vec<Decimal>) -> (r: Result<(), String>)
    ensures
        r is Ok <==> pitches_ok(pitch@),
        reports(r, pitch_checks(pitch@)),
{
    let ghost cs = pitch_checks(pitch@);
    let mut i: usize = 0;
    while i < pitch.len()
        invariant
            i <= pitch@.len(),
            cs == pitch_checks(pitch@),
            forall|j: int| 0 <= j < i ==> nonnegative(#[trigger] pitch@[j]),
        decreases pitch@.len() - i,
    {
        if compare_decimal(pitch[i], 0, 0) >= 0 && compare_decimal(
            pitch[i],
            1000000000000000,
            0,
        ) < 0 {
        } else {
            let mut m = string_from_str("line type pitch ");
            push_usize(&mut m, i + 1);
            push_str(&mut m, " must be at least 0 and less than 1.0e15");
            proof {
                assert forall|j: int| 0 <= j < i implies (#[trigger] cs[j]).0 by {
                    assert(nonnegative(pitch@[j]));
                }
                lemma_first_failure_at(cs, i as int);
            }
            return Err(m);
        }
        i = i + 1;
    }
    proof {
        assert forall|j: int| 0 <= j < cs.len() implies (#[trigger] cs[j]).0 by {
            assert(nonnegative(pitch@[j]));
        }
        lemma_first_failure_none(cs);
    }
    Ok(())
}

/// The style a hatch line pattern carries.
pub open spec fn pattern_style(p: HatchLinePattern) -> CommonStyle {
    CommonStyle {
        layer_code: None,
        color_code: Some(p.color_code),
        line_type_code: Some(p.line_type_code),
        line_width_code: Some(p.line_width_code),
        font_code: None,
    }
}

/// The checks on one hatch line pattern, in order.
pub open spec fn pattern_checks(p: HatchLinePattern) -> Seq<(bool, Seq<char>)> {
    style_checks(pattern_style(p)) + positive_check(p.spacing, "hatch line spacing"@) + angle_check(
        p.angle_deg,
        "hatch line angle"@,
    )
}

/// The checks on hatch line patterns, pattern after pattern.
pub open spec fn patterns_checks(ps: Seq<HatchLinePattern>) -> Seq<(bool, Seq<char>)>
    decreases ps.len(),
{
    if ps.len() == 0 {
        Seq::empty()
    } else {
        patterns_checks(ps.drop_last()) + pattern_checks(ps.last())
    }
}

proof fn lemma_patterns_checks_split(ps: Seq<HatchLinePattern>, i: int)
    requires
        0 <= i <= ps.len(),
    ensures
        patterns_checks(ps) == patterns_checks(ps.subrange(0, i)) + patterns_checks(ps.subrange(i, ps.len() as int)),
    decreases ps.len() - i,
{
    if i < ps.len() {
        lemma_patterns_checks_split(ps, i + 1);
        let a = ps.subrange(0, i);
        let b = ps.subrange(i, ps.len() as int);
        assert(ps.subrange(0, i + 1).drop_last() =~= a);
        assert(ps.subrange(0, i + 1).last() == ps[i]);
        lemma_patterns_checks_prepend(ps[i], ps.subrange(i + 1, ps.len() as int));
        assert(b =~= seq![ps[i]] + ps.subrange(i + 1, ps.len() as int));
        assert(patterns_checks(ps.subrange(0, i)) + patterns_checks(b) =~= patterns_checks(ps.subrange(0, i + 1))
            + patterns_checks(ps.subrange(i + 1, ps.len() as int)));
    } else {
        assert(ps.subrange(0, i) =~= ps);
        assert(ps.subrange(i, ps.len() as int) =~= Seq::<HatchLinePattern>::empty());
        assert(patterns_checks(ps) + Seq::<(bool, Seq<char>)>::empty() =~= patterns_checks(ps));
    }
}

#[verifier::rlimit(50)]
proof fn lemma_patterns_checks_prepend(p: HatchLinePattern, ps: Seq<HatchLinePattern>)
    ensures
        patterns_checks(seq![p] + ps) == pattern_checks(p) + patterns_checks(ps),
    decreases ps.len(),
{
    if ps.len() == 0 {
        assert(seq![p] + ps =~= seq![p]);
        assert(seq![p].drop_last() =~= Seq::<HatchLinePattern>::empty());
        assert(patterns_checks(Seq::<HatchLinePattern>::empty()) =~= Seq::empty());
        assert(Seq::<(bool, Seq<char>)>::empty() + pattern_checks(p) =~= pattern_checks(p));
        assert(pattern_checks(p) + Seq::<(bool, Seq<char>)>::empty() =~= pattern_checks(p));
    } else {
        lemma_patterns_checks_prepend(p, ps.drop_last());
        assert((seq![p] + ps).drop_last() =~= seq![p] + ps.drop_last());
        assert((seq![p] + ps).last() == ps.last());
        assert(pattern_checks(p) + patterns_checks(ps.drop_last()) + pattern_checks(ps.last()) =~= pattern_checks(p)
            + (patterns_checks(ps.drop_last()) + pattern_checks(ps.last())));
    }
}

fn validate_hatch_patterns(patterns: &Vec<HatchLinePattern>) -> (r: Result<(), String>)
    ensures
        r is Ok <==> forall|i: int| 0 <= i < patterns@.len() ==> hatch_pattern_ok(#[trigger] patterns@[i]),
        reports(r, patterns_checks(patterns@)),
{
    let ghost ps = patterns@;
    let mut i: usize = 0;
    while i < patterns.len()
        invariant
            i <= patterns@.len(),
            ps == patterns@,
            forall|j: int| 0 <= j < i ==> hatch_pattern_ok(#[trigger] patterns@[j]),
            first_failure(patterns_checks(ps.subrange(0, i as int))) is None,
        decreases patterns@.len() - i,
    {
        let p = patterns[i];
        proof {
            lemma_patterns_checks_split(ps, i as int);
            lemma_patterns_checks_split(ps.subrange(i as int, ps.len() as int), 1);
            assert(ps.subrange(i as int, ps.len() as int).subrange(0, 1) =~= seq![p]);
            assert(seq![p].drop_last() =~= Seq::<HatchLinePattern>::empty());
            assert(patterns_checks(Seq::<HatchLinePattern>::empty()) =~= Seq::empty());
            assert(Seq::<(bool, Seq<char>)>::empty() + pattern_checks(p) =~= pattern_checks(p));
            assert(patterns_checks(seq![p]) =~= pattern_checks(p));
            assert(ps.subrange(0, i + 1) =~= ps.subrange(0, i as int) + seq![p]);
            assert(ps.subrange(0, i + 1).drop_last() =~= ps.subrange(0, i as int));
        }
        validate_style(
            &CommonStyle {
                layer_code: None,
                color_code: Some(p.color_code),
                line_type_code: Some(p.line_type_code),
                line_width_code: Some(p.line_width_code),
                font_code: None,
            },
        )?;
        validate_point(&p.start, "hatch line start")?;
        validate_positive(p.spacing, "hatch line spacing")?;
        validate_angle(p.angle_deg, "hatch line angle")?;
        i = i + 1;
    }
    proof {
        assert(ps.subrange(0, i as int) =~= ps);
    }
    Ok(())
}

fn require_two(count: usize, message: &str) -> (r: Result<(), String>)
    ensures
        r is Ok <==> count >= 2,
        reports(r, check(count >= 2, message@)),
{
    ensure(count >= 2, message)
}

/// The checks on a feature's values, in the order they are made.
pub open spec fn feature_checks(f: TypedFeature) -> Seq<(bool, Seq<char>)> {
    match f {
        TypedFeature::DrawingAttribute(v) => string_checks(v.project_name@, "project name"@, false)
            + string_checks(v.construction_name@, "construction name"@, false) + string_checks(
            v.contract_type@,
            "contract type"@,
            false,
        ) + string_checks(v.drawing_name@, "drawing name"@, false) + string_checks(
            v.drawing_number@,
            "drawing number"@,
            false,
        ) + string_checks(v.drawing_type@, "drawing type"@, false) + string_checks(
            v.drawing_scale@,
            "drawing scale"@,
            false,
        ) + string_checks(v.contractor_name@, "contractor name"@, false) + string_checks(
            v.owner_name@,
            "owner name"@,
            false,
        ) + check(1 <= v.drawing_month <= 12, "drawing month must be in 1..=12"@) + check(
            1 <= v.drawing_day <= 31,
            "drawing day must be in 1..=31"@,
        ),
        TypedFeature::DrawingSheet(v) => string_checks(v.name@, "sheet name"@, false) + check(
            0 <= v.sheet_type <= 4 || v.sheet_type == 9,
            "sheet type must be 0..4 or 9 (FREE)"@,
        ) + check(v.orientation == 0 || v.orientation == 1, "sheet orientation must be 0 or 1"@)
            + check(
            0 < v.free_x_mm <= 2147483647,
            "sheet X length must fit a positive 32-bit integer"@,
        ) + check(0 < v.free_y_mm <= 2147483647, "sheet Y length must fit a positive 32-bit integer"@),
        TypedFeature::Layer(v) => string_checks(v.name@, "layer name"@, false) + flag_check(
            v.visibility_flag,
            "layer visibility flag"@,
        ),
        TypedFeature::PreDefinedFont(v) => string_checks(v.name@, "predefined line type name"@, false),
        TypedFeature::PreDefinedColour(v) => string_checks(v.name@, "predefined color name"@, false),
        TypedFeature::UserDefinedFont(v) => string_checks(v.name@, "user line type name"@, false)
            + pitch_checks(v.pitch@),
        TypedFeature::UserDefinedColour(v) => check(0 <= v.red <= 255, "red must be in 0..=255"@)
            + check(0 <= v.green <= 255, "green must be in 0..=255"@) + check(
            0 <= v.blue <= 255,
            "blue must be in 0..=255"@,
        ),
        TypedFeature::Width(v) => positive_check(v.width, "line width"@),
        TypedFeature::TextFont(v) => string_checks(v.name@, "text font name"@, false),
        TypedFeature::PointMarker(v) => style_checks(v.style) + check(
            1 <= v.marker_code <= 7,
            "marker code must be in 1..=7"@,
        ) + angle_check(v.rotation_angle_deg, "marker rotation angle"@) + positive_check(
            v.scale,
            "marker scale"@,
        ),
        TypedFeature::Line(v) => style_checks(v.style),
        TypedFeature::Polyline(v) => style_checks(v.style) + check(
            v.points@.len() >= 2,
            "polyline must contain at least two vertices"@,
        ),
        TypedFeature::Circle(v) => style_checks(v.style) + positive_check(v.radius, "circle radius"@),
        TypedFeature::Arc(v) => style_checks(v.style) + positive_check(v.radius, "arc radius"@)
            + flag_check(v.direction_flag, "arc direction flag"@) + angle_check(
            v.start_angle_deg,
            "arc start angle"@,
        ) + angle_check(v.end_angle_deg, "arc end angle"@),
        TypedFeature::Ellipse(v) => style_checks(v.style) + positive_check(v.radius_x, "ellipse X radius"@)
            + positive_check(v.radius_y, "ellipse Y radius"@) + angle_check(
            v.rotation_angle_deg,
            "ellipse rotation angle"@,
        ),
        TypedFeature::EllipseArc(v) => style_checks(v.style) + positive_check(
            v.radius_x,
            "ellipse arc X radius"@,
        ) + positive_check(v.radius_y, "ellipse arc Y radius"@) + flag_check(
            v.direction_flag,
            "ellipse arc direction flag"@,
        ) + angle_check(v.rotation_angle_deg, "ellipse arc rotation angle"@) + angle_check(
            v.start_angle_deg,
            "ellipse arc start angle"@,
        ) + angle_check(v.end_angle_deg, "ellipse arc end angle"@),
        TypedFeature::Text(v) => style_checks(v.style) + string_checks(v.text@, "text string"@, false)
            + text_metrics_checks(
            v.height,
            v.width,
            v.spacing,
            v.angle_deg,
            v.slant_deg,
            v.base_point,
            v.direction,
        ),
        TypedFeature::Spline(v) => style_checks(v.style) + flag_check(
            v.open_close,
            "spline open/close flag"@,
        ) + check(v.points@.len() >= 2, "spline must contain at least two control points"@),
        TypedFeature::Clothoid(v) => style_checks(v.style) + positive_check(
            v.parameter,
            "clothoid parameter"@,
        ) + flag_check(v.direction_flag, "clothoid direction flag"@) + angle_check(
            v.angle_deg,
            "clothoid rotation angle"@,
        ) + nonnegative_check(v.start_length, "clothoid start length"@) + nonnegative_check(
            v.end_length,
            "clothoid end length"@,
        ),
        TypedFeature::SfigOrg(v) => string_checks(v.name@, "sfig name"@, false) + check(
            1 <= v.kind_flag <= 4,
            "sfig kind flag must be in 1..=4"@,
        ),
        TypedFeature::SfigLocate(v) => style_checks(v.style) + string_checks(v.name@, "sfig name"@, false)
            + angle_check(v.angle_deg, "sfig rotation angle"@) + positive_check(
            v.ratio_x,
            "sfig X scale"@,
        ) + positive_check(v.ratio_y, "sfig Y scale"@),
        TypedFeature::ExternallyDefinedSymbol(v) => style_checks(v.style) + string_checks(
            v.name@,
            "symbol name"@,
            false,
        ) + flag_check(v.color_flag, "symbol color flag"@) + angle_check(
            v.rotation_angle_deg,
            "symbol rotation angle"@,
        ) + positive_check(v.scale, "symbol scale"@),
        TypedFeature::LinearDim(v) => style_checks(v.style) + flag_check(
            v.extension_line1.present_flag,
            "extension line 1"@ + " present flag"@,
        ) + flag_check(v.extension_line2.present_flag, "extension line 2"@ + " present flag"@)
            + dimension_arrow_checks(v.arrow1, "dimension arrow 1"@) + dimension_arrow_checks(
            v.arrow2,
            "dimension arrow 2"@,
        ) + feature_text_checks(v.text),
        TypedFeature::CurveDim(v) => curve_dimension_checks(
            v.style,
            v.radius,
            v.start_angle_deg,
            v.end_angle_deg,
            v.extension_line1,
            v.extension_line2,
            v.arrow1,
            v.arrow2,
            v.text,
        ),
        TypedFeature::AngularDim(v) => curve_dimension_checks(
            v.style,
            v.radius,
            v.start_angle_deg,
            v.end_angle_deg,
            v.extension_line1,
            v.extension_line2,
            v.arrow1,
            v.arrow2,
            v.text,
        ),
        TypedFeature::RadiusDim(v) => style_checks(v.style) + dimension_arrow_checks(
            v.arrow,
            "radius dimension arrow"@,
        ) + feature_text_checks(v.text),
        TypedFeature::DiameterDim(v) => style_checks(v.style) + dimension_arrow_checks(
            v.arrow1,
            "diameter dimension arrow 1"@,
        ) + dimension_arrow_checks(v.arrow2, "diameter dimension arrow 2"@) + feature_text_checks(
            v.text,
        ),
        TypedFeature::Label(v) => style_checks(v.style) + check(
            v.vertices@.len() >= 2,
            "label must contain at least two vertices"@,
        ) + leader_arrow_checks(v.arrow) + feature_text_checks(v.text),
        TypedFeature::Balloon(v) => style_checks(v.style) + check(
            v.vertices@.len() >= 2,
            "balloon must contain at least two vertices"@,
        ) + positive_check(v.radius, "balloon radius"@) + leader_arrow_checks(v.arrow)
            + feature_text_checks(v.text),
        TypedFeature::ExternallyDefinedHatch(v) => style_checks(v.style) + string_checks(
            v.name@,
            "hatch name"@,
            false,
        ) + composite_codes_checks(v.out_id, v.in_ids@),
        TypedFeature::FillAreaStyleColour(v) => style_checks(v.style) + composite_codes_checks(
            v.out_id,
            v.in_ids@,
        ),
        TypedFeature::FillAreaStyleHatching(v) => style_checks(v.style) + check(
            1 <= v.hatch_number <= 4,
            "hatch pattern count must be in 1..=4"@,
        ) + patterns_checks(v.patterns@) + composite_codes_checks(v.out_id, v.in_ids@),
        TypedFeature::FillAreaStyleTiles(v) => style_checks(v.style) + string_checks(
            v.name@,
            "tile symbol name"@,
            false,
        ) + style_checks(color_only(v.hatch_color)) + positive_check(
            v.hatch_pattern_vector1,
            "tile pattern vector 1"@,
        ) + positive_check(v.hatch_pattern_vector2, "tile pattern vector 2"@) + angle_check(
            v.hatch_pattern_vector1_angle_deg,
            "tile pattern vector 1 angle"@,
        ) + angle_check(v.hatch_pattern_vector2_angle_deg, "tile pattern vector 2 angle"@)
            + positive_check(v.hatch_pattern_scale_x, "tile pattern X scale"@) + positive_check(
            v.hatch_pattern_scale_y,
            "tile pattern Y scale"@,
        ) + angle_check(v.hatch_pattern_angle_deg, "tile pattern angle"@) + composite_codes_checks(
            v.out_id,
            v.in_ids@,
        ),
        TypedFeature::CompositeCurve(v) => style_checks(v.style) + flag_check(
            v.visibility_flag,
            "composite curve visibility flag"@,
        ),
    }
}

pub fn validate_typed_feature_values(feature: &TypedFeature) -> (r: Result<(), String>)
    ensures
        r is Ok <==> feature_valid(*feature),
        reports(r, feature_checks(*feature)),
{
    match feature {
        TypedFeature::DrawingAttribute(value) => {
            validate_sfc_semantic_string(value.project_name.as_str(), "project name", false)?;
            validate_sfc_semantic_string(value.construction_name.as_str(), "construction name", false)?;
            validate_sfc_semantic_string(value.contract_type.as_str(), "contract type", false)?;
            validate_sfc_semantic_string(value.drawing_name.as_str(), "drawing name", false)?;
            validate_sfc_semantic_string(value.drawing_number.as_str(), "drawing number", false)?;
            validate_sfc_semantic_string(value.drawing_type.as_str(), "drawing type", false)?;
            validate_sfc_semantic_string(value.drawing_scale.as_str(), "drawing scale", false)?;
            validate_sfc_semantic_string(value.contractor_name.as_str(), "contractor name", false)?;
            validate_sfc_semantic_string(value.owner_name.as_str(), "owner name", false)?;
            ensure(
                1 <= value.drawing_month && value.drawing_month <= 12,
                "drawing month must be in 1..=12",
            )?;
            ensure(
                1 <= value.drawing_day && value.drawing_day <= 31,
                "drawing day must be in 1..=31",
            )?;
        },
        TypedFeature::DrawingSheet(value) => {
            validate_sfc_semantic_string(value.name.as_str(), "sheet name", false)?;
            ensure(
                (0 <= value.sheet_type && value.sheet_type <= 4) || value.sheet_type == 9,
                "sheet type must be 0..4 or 9 (FREE)",
            )?;
            ensure(
                value.orientation == 0 || value.orientation == 1,
                "sheet orientation must be 0 or 1",
            )?;
            ensure(
                value.free_x_mm > 0 && value.free_x_mm <= 2147483647,
                "sheet X length must fit a positive 32-bit integer",
            )?;
            ensure(
                value.free_y_mm > 0 && value.free_y_mm <= 2147483647,
                "sheet Y length must fit a positive 32-bit integer",
            )?;
        },
        TypedFeature::Layer(value) => {
            validate_sfc_semantic_string(value.name.as_str(), "layer name", false)?;
            validate_flag(value.visibility_flag, "layer visibility flag")?;
        },
        TypedFeature::PreDefinedFont(value) => {
            validate_sfc_semantic_string(value.name.as_str(), "predefined line type name", false)?;
        },
        TypedFeature::PreDefinedColour(value) => {
            validate_sfc_semantic_string(value.name.as_str(), "predefined color name", false)?;
        },
        TypedFeature::UserDefinedFont(value) => {
            validate_sfc_semantic_string(value.name.as_str(), "user line type name", false)?;
            validate_pitches(&value.pitch)?;
        },
        TypedFeature::UserDefinedColour(value) => {
            ensure(0 <= value.red && value.red <= 255, "red must be in 0..=255")?;
            ensure(0 <= value.green && value.green <= 255, "green must be in 0..=255")?;
            ensure(0 <= value.blue && value.blue <= 255, "blue must be in 0..=255")?;
        },
        TypedFeature::Width(value) => validate_positive(value.width, "line width")?,
        TypedFeature::TextFont(value) => {
            validate_sfc_semantic_string(value.name.as_str(), "text font name", false)?;
        },
        TypedFeature::PointMarker(value) => {
            validate_style(&value.style)?;
            validate_point(&value.position, "marker position")?;
            ensure(
                1 <= value.marker_code && value.marker_code <= 7,
                "marker code must be in 1..=7",
            )?;
            validate_angle(value.rotation_angle_deg, "marker rotation angle")?;
            validate_positive(value.scale, "marker scale")?;
        },
        TypedFeature::Line(value) => {
            validate_style(&value.style)?;
            validate_point(&value.start, "line start")?;
            validate_point(&value.end, "line end")?;
        },
        TypedFeature::Polyline(value) => {
            validate_style(&value.style)?;
            require_two(value.points.len(), "polyline must contain at least two vertices")?;
        },
        TypedFeature::Circle(value) => {
            validate_style(&value.style)?;
            validate_point(&value.center, "circle center")?;
            validate_positive(value.radius, "circle radius")?;
        },
        TypedFeature::Arc(value) => {
            validate_style(&value.style)?;
            validate_point(&value.center, "arc center")?;
            validate_positive(value.radius, "arc radius")?;
            validate_flag(value.direction_flag, "arc direction flag")?;
            validate_angle(value.start_angle_deg, "arc start angle")?;
            validate_angle(value.end_angle_deg, "arc end angle")?;
        },
        TypedFeature::Ellipse(value) => {
            validate_style(&value.style)?;
            validate_point(&value.center, "ellipse center")?;
            validate_positive(value.radius_x, "ellipse X radius")?;
            validate_positive(value.radius_y, "ellipse Y radius")?;
            validate_angle(value.rotation_angle_deg, "ellipse rotation angle")?;
        },
        TypedFeature::EllipseArc(value) => {
            validate_style(&value.style)?;
            validate_point(&value.center, "ellipse arc center")?;
            validate_positive(value.radius_x, "ellipse arc X radius")?;
            validate_positive(value.radius_y, "ellipse arc Y radius")?;
            validate_flag(value.direction_flag, "ellipse arc direction flag")?;
            validate_angle(value.rotation_angle_deg, "ellipse arc rotation angle")?;
            validate_angle(value.start_angle_deg, "ellipse arc start angle")?;
            validate_angle(value.end_angle_deg, "ellipse arc end angle")?;
        },
        TypedFeature::Text(value) => {
            validate_style(&value.style)?;
            validate_sfc_semantic_string(value.text.as_str(), "text string", false)?;
            validate_point(&value.anchor, "text anchor")?;
            validate_text_metrics(
                value.height,
                value.width,
                value.spacing,
                value.angle_deg,
                value.slant_deg,
                value.base_point,
                value.direction,
            )?;
        },
        TypedFeature::Spline(value) => {
            validate_style(&value.style)?;
            validate_flag(value.open_close, "spline open/close flag")?;
            require_two(value.points.len(), "spline must contain at least two control points")?;
        },
        TypedFeature::Clothoid(value) => {
            validate_style(&value.style)?;
            validate_point(&value.base, "clothoid base")?;
            validate_positive(value.parameter, "clothoid parameter")?;
            validate_flag(value.direction_flag, "clothoid direction flag")?;
            validate_angle(value.angle_deg, "clothoid rotation angle")?;
            validate_nonnegative(value.start_length, "clothoid start length")?;
            validate_nonnegative(value.end_length, "clothoid end length")?;
        },
        TypedFeature::SfigOrg(value) => {
            validate_sfc_semantic_string(value.name.as_str(), "sfig name", false)?;
            ensure(
                1 <= value.kind_flag && value.kind_flag <= 4,
                "sfig kind flag must be in 1..=4",
            )?;
        },
        TypedFeature::SfigLocate(value) => {
            validate_style(&value.style)?;
            validate_sfc_semantic_string(value.name.as_str(), "sfig name", false)?;
            validate_point(&value.position, "sfig position")?;
            validate_angle(value.angle_deg, "sfig rotation angle")?;
            validate_positive(value.ratio_x, "sfig X scale")?;
            validate_positive(value.ratio_y, "sfig Y scale")?;
        },
        TypedFeature::ExternallyDefinedSymbol(value) => {
            validate_style(&value.style)?;
            validate_sfc_semantic_string(value.name.as_str(), "symbol name", false)?;
            validate_flag(value.color_flag, "symbol color flag")?;
            validate_point(&value.position, "symbol position")?;
            validate_angle(value.rotation_angle_deg, "symbol rotation angle")?;
            validate_positive(value.scale, "symbol scale")?;
        },
        TypedFeature::LinearDim(value) => {
            validate_style(&value.style)?;
            validate_point(&value.start, "linear dimension start")?;
            validate_point(&value.end, "linear dimension end")?;
            validate_extension_line(&value.extension_line1, "extension line 1")?;
            validate_extension_line(&value.extension_line2, "extension line 2")?;
            validate_dimension_arrow(&value.arrow1, "dimension arrow 1")?;
            validate_dimension_arrow(&value.arrow2, "dimension arrow 2")?;
            validate_feature_text(&value.text)?;
        },
        TypedFeature::CurveDim(value) => {
            validate_curve_dimension(
                &value.style,
                &value.center,
                value.radius,
                value.start_angle_deg,
                value.end_angle_deg,
                &value.extension_line1,
                &value.extension_line2,
                &value.arrow1,
                &value.arrow2,
                &value.text,
            )?;
        },
        TypedFeature::AngularDim(value) => {
            validate_curve_dimension(
                &value.style,
                &value.center,
                value.radius,
                value.start_angle_deg,
                value.end_angle_deg,
                &value.extension_line1,
                &value.extension_line2,
                &value.arrow1,
                &value.arrow2,
                &value.text,
            )?;
        },
        TypedFeature::RadiusDim(value) => {
            validate_style(&value.style)?;
            validate_point(&value.start, "radius dimension start")?;
            validate_point(&value.end, "radius dimension end")?;
            validate_dimension_arrow(&value.arrow, "radius dimension arrow")?;
            validate_feature_text(&value.text)?;
        },
        TypedFeature::DiameterDim(value) => {
            validate_style(&value.style)?;
            validate_point(&value.start, "diameter dimension start")?;
            validate_point(&value.end, "diameter dimension end")?;
            validate_dimension_arrow(&value.arrow1, "diameter dimension arrow 1")?;
            validate_dimension_arrow(&value.arrow2, "diameter dimension arrow 2")?;
            validate_feature_text(&value.text)?;
        },
        TypedFeature::Label(value) => {
            validate_style(&value.style)?;
            require_two(value.vertices.len(), "label must contain at least two vertices")?;
            validate_leader_arrow(&value.arrow)?;
            validate_feature_text(&value.text)?;
        },
        TypedFeature::Balloon(value) => {
            validate_style(&value.style)?;
            require_two(value.vertices.len(), "balloon must contain at least two vertices")?;
            validate_point(&value.center, "balloon center")?;
            validate_positive(value.radius, "balloon radius")?;
            validate_leader_arrow(&value.arrow)?;
            validate_feature_text(&value.text)?;
        },
        TypedFeature::ExternallyDefinedHatch(value) => {
            validate_style(&value.style)?;
            validate_sfc_semantic_string(value.name.as_str(), "hatch name", false)?;
            validate_composite_curve_codes(value.out_id, value.in_ids.as_slice())?;
        },
        TypedFeature::FillAreaStyleColour(value) => {
            validate_style(&value.style)?;
            validate_composite_curve_codes(value.out_id, value.in_ids.as_slice())?;
        },
        TypedFeature::FillAreaStyleHatching(value) => {
            validate_style(&value.style)?;
            ensure(
                1 <= value.hatch_number && value.hatch_number <= 4,
                "hatch pattern count must be in 1..=4",
            )?;
            validate_hatch_patterns(&value.patterns)?;
            validate_composite_curve_codes(value.out_id, value.in_ids.as_slice())?;
        },
        TypedFeature::FillAreaStyleTiles(value) => {
            validate_style(&value.style)?;
            validate_sfc_semantic_string(value.name.as_str(), "tile symbol name", false)?;
            validate_style(
                &CommonStyle {
                    layer_code: None,
                    color_code: Some(value.hatch_color),
                    line_type_code: None,
                    line_width_code: None,
                    font_code: None,
                },
            )?;
            validate_point(&value.hatch_pattern_position, "tile pattern position")?;
            validate_positive(value.hatch_pattern_vector1, "tile pattern vector 1")?;
            validate_positive(value.hatch_pattern_vector2, "tile pattern vector 2")?;
            validate_angle(value.hatch_pattern_vector1_angle_deg, "tile pattern vector 1 angle")?;
            validate_angle(value.hatch_pattern_vector2_angle_deg, "tile pattern vector 2 angle")?;
            validate_positive(value.hatch_pattern_scale_x, "tile pattern X scale")?;
            validate_positive(value.hatch_pattern_scale_y, "tile pattern Y scale")?;
            validate_angle(value.hatch_pattern_angle_deg, "tile pattern angle")?;
            validate_composite_curve_codes(value.out_id, value.in_ids.as_slice())?;
        },
        TypedFeature::CompositeCurve(value) => {
            validate_style(&value.style)?;
            validate_flag(value.visibility_flag, "composite curve visibility flag")?;
        },
    }
    Ok(())
}

} // verus!
