//! The typed SFC feature decoders, one per feature record.

use vstd::prelude::*;
use crate::checklist::{check, first_failure, outcome, reports};
use crate::decode::{
    arrow_checks, count_check, dec_check, declared_check, dlist_check, ext_line_checks, ilist_check,
    int_check, layer_color_checks, line_style_checks, point_checks, string_check, text_checks,
    arrow_at, arrow_ok, clone_values_from, clone_values_range, code_at, count_ok, dec_at, ext_line_at, ext_line_ok,
    int_at, layer_color_style_at, line_style_at, line_style_ok, parse_dimension_arrow,
    parse_extension_line, parse_feature_text, parse_layer_color_style, parse_line_style,
    parse_optional_i64, parse_point_at, parse_required_decimal, parse_required_decimal_list,
    parse_required_i64, parse_required_i64_list, parse_required_string, points_of, pt_at, pt_ok,
    require_parameter_count, same_values, str_at, text_at, text_ok, validate_declared_count,
    zip_points,
};
use crate::model::{
    Record, TypedFeature, AngularDimFeature, FillAreaStyleHatchingFeature, FillAreaStyleTilesFeature, HatchLinePattern, ArcFeature, BalloonFeature, CircleFeature, ClothoidFeature, CommonStyle,
    CompositeCurveFeature, CurveDimFeature, Decimal, DiameterDimFeature, DrawingAttributeFeature,
    DrawingSheetFeature, EllipseArcFeature, EllipseFeature, ExternallyDefinedHatchFeature,
    ExternallyDefinedSymbolFeature, FillAreaStyleColourFeature, LabelFeature, LayerFeature,
    LeaderArrow, LineFeature, LinearDimFeature, Point2, PointMarkerFeature, PolylineFeature,
    PreDefinedColourFeature, PreDefinedFontFeature, RadiusDimFeature, SfigLocateFeature,
    SfigOrgFeature, SplineFeature, TextFeature, TextFontFeature, UserDefinedColourFeature,
    UserDefinedFontFeature, Value, WidthFeature,
};
use crate::number::{dec_integer, decimal_to_code, saturate_i64};
use crate::codes::lowercase_chars;
use crate::text::{lower_seq, slice_eq_str, nat_text, push_str, push_u64, push_usize, string_from_str};
use crate::values::{ints_view};

verus! {

broadcast use crate::checklist::group_first_failure;

pub open spec fn dlist_at(p: Seq<Value>, i: int) -> Option<Seq<Decimal>> {
    p[i].spec_as_decimal_list()
}

pub open spec fn ilist_at(p: Seq<Value>, i: int) -> Option<Seq<int>> {
    p[i].spec_as_i64_list()
}

pub open spec fn opt_code(o: Option<int>) -> Option<i64> {
    match o {
        Some(v) => Some(v as i64),
        None => None,
    }
}

// ---------------------------------------------------------------- line

pub open spec fn line_ok(p: Seq<Value>) -> bool {
    p.len() == 8 && line_style_ok(p) && pt_ok(p, 4, 5) && pt_ok(p, 6, 7)
}

pub open spec fn line_is(p: Seq<Value>, f: LineFeature) -> bool {
    f.style == line_style_at(p) && f.start == pt_at(p, 4, 5) && f.end == pt_at(p, 6, 7)
}

/// The checks decoding a `line_feature` record runs, in order.
pub open spec fn line_feature_checks(p: Seq<Value>) -> Seq<(bool, Seq<char>)> {
    count_check(p, 8, "line_feature"@) + line_style_checks(p) + point_checks(p, 4, 5) + point_checks(p, 6, 7)
}

pub(crate) fn parse_line_feature(params: &[Value]) -> (r: Result<LineFeature, String>)
    ensures
        r is Ok <==> line_ok(params@),
        r matches Ok(f) ==> line_is(params@, f),
        reports(outcome(r), line_feature_checks(params@)),
{
    require_parameter_count(params, 8, "line_feature")?;
    let style = parse_line_style(params)?;
    let start = parse_point_at(params, 4, 5)?;
    let end = parse_point_at(params, 6, 7)?;
    Ok(LineFeature { style, start, end })
}

// ---------------------------------------------------------------- drawing attribute

pub open spec fn drawing_attribute_ok(p: Seq<Value>) -> bool {
    &&& p.len() == 12
    &&& str_at(p, 0) is Some && str_at(p, 1) is Some && str_at(p, 2) is Some
    &&& str_at(p, 3) is Some && str_at(p, 4) is Some && str_at(p, 5) is Some
    &&& str_at(p, 6) is Some
    &&& int_at(p, 7) is Some && int_at(p, 8) is Some && int_at(p, 9) is Some
    &&& str_at(p, 10) is Some && str_at(p, 11) is Some
}

pub open spec fn drawing_attribute_is(p: Seq<Value>, f: DrawingAttributeFeature) -> bool {
    &&& f.project_name@ == str_at(p, 0)->0
    &&& f.construction_name@ == str_at(p, 1)->0
    &&& f.contract_type@ == str_at(p, 2)->0
    &&& f.drawing_name@ == str_at(p, 3)->0
    &&& f.drawing_number@ == str_at(p, 4)->0
    &&& f.drawing_type@ == str_at(p, 5)->0
    &&& f.drawing_scale@ == str_at(p, 6)->0
    &&& f.drawing_year == code_at(p, 7)->0
    &&& f.drawing_month == code_at(p, 8)->0
    &&& f.drawing_day == code_at(p, 9)->0
    &&& f.contractor_name@ == str_at(p, 10)->0
    &&& f.owner_name@ == str_at(p, 11)->0
}

/// The checks decoding a `drawing_attribute_feature` record runs, in order.
pub open spec fn drawing_attribute_feature_checks(p: Seq<Value>) -> Seq<(bool, Seq<char>)> {
    count_check(p, 12, "drawing_attribute_feature"@) + string_check(p, 0, "project_name"@) + string_check(p, 1, "construction_name"@) + string_check(p, 2, "contract_type"@) + string_check(p, 3, "drawing_name"@) + string_check(p, 4, "drawing_number"@) + string_check(p, 5, "drawing_type"@) + string_check(p, 6, "drawing_scale"@) + int_check(p, 7, "drawing_year"@) + int_check(p, 8, "drawing_month"@) + int_check(p, 9, "drawing_day"@) + string_check(p, 10, "contractor_name"@) + string_check(p, 11, "owner_name"@)
}

pub(crate) fn parse_drawing_attribute_feature(params: &[Value]) -> (r: Result<
    DrawingAttributeFeature,
    String,
>)
    ensures
        r is Ok <==> drawing_attribute_ok(params@),
        r matches Ok(f) ==> drawing_attribute_is(params@, f),
        reports(outcome(r), drawing_attribute_feature_checks(params@)),
{
    require_parameter_count(params, 12, "drawing_attribute_feature")?;
    Ok(
        DrawingAttributeFeature {
            project_name: parse_required_string(&params[0], "project_name")?,
            construction_name: parse_required_string(&params[1], "construction_name")?,
            contract_type: parse_required_string(&params[2], "contract_type")?,
            drawing_name: parse_required_string(&params[3], "drawing_name")?,
            drawing_number: parse_required_string(&params[4], "drawing_number")?,
            drawing_type: parse_required_string(&params[5], "drawing_type")?,
            drawing_scale: parse_required_string(&params[6], "drawing_scale")?,
            drawing_year: parse_required_i64(&params[7], "drawing_year")?,
            drawing_month: parse_required_i64(&params[8], "drawing_month")?,
            drawing_day: parse_required_i64(&params[9], "drawing_day")?,
            contractor_name: parse_required_string(&params[10], "contractor_name")?,
            owner_name: parse_required_string(&params[11], "owner_name")?,
        },
    )
}

// ---------------------------------------------------------------- drawing sheet

pub open spec fn drawing_sheet_ok(p: Seq<Value>) -> bool {
    p.len() == 5 && str_at(p, 0) is Some && int_at(p, 1) is Some && int_at(p, 2) is Some
        && int_at(p, 3) is Some && int_at(p, 4) is Some
}

pub open spec fn drawing_sheet_is(p: Seq<Value>, f: DrawingSheetFeature) -> bool {
    &&& f.name@ == str_at(p, 0)->0
    &&& f.sheet_type == code_at(p, 1)->0
    &&& f.orientation == code_at(p, 2)->0
    &&& f.free_x_mm == code_at(p, 3)->0
    &&& f.free_y_mm == code_at(p, 4)->0
}

/// The checks decoding a `drawing_sheet_feature` record runs, in order.
pub open spec fn drawing_sheet_feature_checks(p: Seq<Value>) -> Seq<(bool, Seq<char>)> {
    count_check(p, 5, "drawing_sheet_feature"@) + string_check(p, 0, "name"@) + int_check(p, 1, "type"@) + int_check(p, 2, "orientation"@) + int_check(p, 3, "x"@) + int_check(p, 4, "y"@)
}

pub(crate) fn parse_drawing_sheet_feature(params: &[Value]) -> (r: Result<DrawingSheetFeature, String>)
    ensures
        r is Ok <==> drawing_sheet_ok(params@),
        r matches Ok(f) ==> drawing_sheet_is(params@, f),
        reports(outcome(r), drawing_sheet_feature_checks(params@)),
{
    require_parameter_count(params, 5, "drawing_sheet_feature")?;
    Ok(
        DrawingSheetFeature {
            name: parse_required_string(&params[0], "name")?,
            sheet_type: parse_required_i64(&params[1], "type")?,
            orientation: parse_required_i64(&params[2], "orientation")?,
            free_x_mm: parse_required_i64(&params[3], "x")?,
            free_y_mm: parse_required_i64(&params[4], "y")?,
        },
    )
}

// ---------------------------------------------------------------- layer and named definitions

pub open spec fn name_flag_ok(p: Seq<Value>) -> bool {
    p.len() == 2 && str_at(p, 0) is Some && int_at(p, 1) is Some
}

pub open spec fn layer_is(p: Seq<Value>, f: LayerFeature) -> bool {
    f.name@ == str_at(p, 0)->0 && f.visibility_flag == code_at(p, 1)->0
}

/// The checks decoding a `layer_feature` record runs, in order.
pub open spec fn layer_feature_checks(p: Seq<Value>) -> Seq<(bool, Seq<char>)> {
    count_check(p, 2, "layer_feature"@) + string_check(p, 0, "name"@) + int_check(p, 1, "lflag"@)
}

pub(crate) fn parse_layer_feature(params: &[Value]) -> (r: Result<LayerFeature, String>)
    ensures
        r is Ok <==> name_flag_ok(params@),
        r matches Ok(f) ==> layer_is(params@, f),
        reports(outcome(r), layer_feature_checks(params@)),
{
    require_parameter_count(params, 2, "layer_feature")?;
    Ok(
        LayerFeature {
            name: parse_required_string(&params[0], "name")?,
            visibility_flag: parse_required_i64(&params[1], "lflag")?,
        },
    )
}

pub open spec fn name_only_ok(p: Seq<Value>) -> bool {
    p.len() == 1 && str_at(p, 0) is Some
}

/// The checks decoding a `pre_defined_font_feature` record runs, in order.
pub open spec fn pre_defined_font_feature_checks(p: Seq<Value>) -> Seq<(bool, Seq<char>)> {
    count_check(p, 1, "pre_defined_font_feature"@) + string_check(p, 0, "name"@)
}

pub(crate) fn parse_pre_defined_font_feature(params: &[Value]) -> (r: Result<PreDefinedFontFeature, String>)
    ensures
        r is Ok <==> name_only_ok(params@),
        r matches Ok(f) ==> f.name@ == str_at(params@, 0)->0,
        reports(outcome(r), pre_defined_font_feature_checks(params@)),
{
    require_parameter_count(params, 1, "pre_defined_font_feature")?;
    Ok(PreDefinedFontFeature { name: parse_required_string(&params[0], "name")? })
}

/// The checks decoding a `pre_defined_colour_feature` record runs, in order.
pub open spec fn pre_defined_colour_feature_checks(p: Seq<Value>) -> Seq<(bool, Seq<char>)> {
    count_check(p, 1, "pre_defined_colour_feature"@) + string_check(p, 0, "name"@)
}

pub(crate) fn parse_pre_defined_colour_feature(params: &[Value]) -> (r: Result<
    PreDefinedColourFeature,
    String,
>)
    ensures
        r is Ok <==> name_only_ok(params@),
        r matches Ok(f) ==> f.name@ == str_at(params@, 0)->0,
        reports(outcome(r), pre_defined_colour_feature_checks(params@)),
{
    require_parameter_count(params, 1, "pre_defined_colour_feature")?;
    Ok(PreDefinedColourFeature { name: parse_required_string(&params[0], "name")? })
}

/// The checks decoding a `text_font_feature` record runs, in order.
pub open spec fn text_font_feature_checks(p: Seq<Value>) -> Seq<(bool, Seq<char>)> {
    count_check(p, 1, "text_font_feature"@) + string_check(p, 0, "name"@)
}

pub(crate) fn parse_text_font_feature(params: &[Value]) -> (r: Result<TextFontFeature, String>)
    ensures
        r is Ok <==> name_only_ok(params@),
        r matches Ok(f) ==> f.name@ == str_at(params@, 0)->0,
        reports(outcome(r), text_font_feature_checks(params@)),
{
    require_parameter_count(params, 1, "text_font_feature")?;
    Ok(TextFontFeature { name: parse_required_string(&params[0], "name")? })
}

pub open spec fn user_defined_font_ok(p: Seq<Value>) -> bool {
    &&& p.len() == 3
    &&& int_at(p, 1) is Some
    &&& dlist_at(p, 2) is Some
    &&& count_ok(int_at(p, 1)->0, dlist_at(p, 2)->0.len() as int)
    &&& str_at(p, 0) is Some
}

pub open spec fn user_defined_font_is(p: Seq<Value>, f: UserDefinedFontFeature) -> bool {
    f.name@ == str_at(p, 0)->0 && f.segment_count == code_at(p, 1)->0 && f.pitch@ == dlist_at(
        p,
        2,
    )->0
}

/// The checks decoding a `user_defined_font_feature` record runs, in order.
pub open spec fn user_defined_font_feature_checks(p: Seq<Value>) -> Seq<(bool, Seq<char>)> {
    count_check(p, 3, "user_defined_font_feature"@) + int_check(p, 1, "segment"@) + dlist_check(p, 2, "pitch"@) + declared_check(int_at(p, 1)->0, dlist_at(p, 2)->0.len() as int, "user_defined_font_feature pitch"@) + string_check(p, 0, "name"@)
}

pub(crate) fn parse_user_defined_font_feature(params: &[Value]) -> (r: Result<
    UserDefinedFontFeature,
    String,
>)
    ensures
        r is Ok <==> user_defined_font_ok(params@),
        r matches Ok(f) ==> user_defined_font_is(params@, f),
        reports(outcome(r), user_defined_font_feature_checks(params@)),
{
    require_parameter_count(params, 3, "user_defined_font_feature")?;
    let segment_count = parse_required_i64(&params[1], "segment")?;
    let pitch = parse_required_decimal_list(&params[2], "pitch")?;
    validate_declared_count(segment_count, pitch.len(), "user_defined_font_feature pitch")?;
    Ok(
        UserDefinedFontFeature {
            name: parse_required_string(&params[0], "name")?,
            segment_count,
            pitch,
        },
    )
}

pub open spec fn user_defined_colour_ok(p: Seq<Value>) -> bool {
    p.len() == 3 && int_at(p, 0) is Some && int_at(p, 1) is Some && int_at(p, 2) is Some
}

/// The checks decoding a `user_defined_colour_feature` record runs, in order.
pub open spec fn user_defined_colour_feature_checks(p: Seq<Value>) -> Seq<(bool, Seq<char>)> {
    count_check(p, 3, "user_defined_colour_feature"@) + int_check(p, 0, "red"@) + int_check(p, 1, "green"@) + int_check(p, 2, "blue"@)
}

pub(crate) fn parse_user_defined_colour_feature(params: &[Value]) -> (r: Result<
    UserDefinedColourFeature,
    String,
>)
    ensures
        r is Ok <==> user_defined_colour_ok(params@),
        r matches Ok(f) ==> f == (UserDefinedColourFeature {
            red: code_at(params@, 0)->0,
            green: code_at(params@, 1)->0,
            blue: code_at(params@, 2)->0,
        }),
        reports(outcome(r), user_defined_colour_feature_checks(params@)),
{
    require_parameter_count(params, 3, "user_defined_colour_feature")?;
    Ok(
        UserDefinedColourFeature {
            red: parse_required_i64(&params[0], "red")?,
            green: parse_required_i64(&params[1], "green")?,
            blue: parse_required_i64(&params[2], "blue")?,
        },
    )
}

/// The checks decoding a `width_feature` record runs, in order.
pub open spec fn width_feature_checks(p: Seq<Value>) -> Seq<(bool, Seq<char>)> {
    count_check(p, 1, "width_feature"@) + dec_check(p, 0, "width"@)
}

pub(crate) fn parse_width_feature(params: &[Value]) -> (r: Result<WidthFeature, String>)
    ensures
        r is Ok <==> (params@.len() == 1 && dec_at(params@, 0) is Some),
        r matches Ok(f) ==> f == (WidthFeature { width: dec_at(params@, 0)->0 }),
        reports(outcome(r), width_feature_checks(params@)),
{
    require_parameter_count(params, 1, "width_feature")?;
    Ok(WidthFeature { width: parse_required_decimal(&params[0], "width")? })
}

// ---------------------------------------------------------------- point marker

pub open spec fn point_marker_ok(p: Seq<Value>) -> bool {
    p.len() == 7 && int_at(p, 0) is Some && int_at(p, 1) is Some && pt_ok(p, 2, 3) && int_at(
        p,
        4,
    ) is Some && dec_at(p, 5) is Some && dec_at(p, 6) is Some
}

pub open spec fn point_marker_is(p: Seq<Value>, f: PointMarkerFeature) -> bool {
    f == (PointMarkerFeature {
        style: layer_color_style_at(p),
        position: pt_at(p, 2, 3),
        marker_code: code_at(p, 4)->0,
        rotation_angle_deg: dec_at(p, 5)->0,
        scale: dec_at(p, 6)->0,
    })
}

/// The checks decoding a `point_marker_feature` record runs, in order.
pub open spec fn point_marker_feature_checks(p: Seq<Value>) -> Seq<(bool, Seq<char>)> {
    count_check(p, 7, "point_marker_feature"@) + layer_color_checks(p) + point_checks(p, 2, 3) + int_check(p, 4, "marker_code"@) + dec_check(p, 5, "rotation_angle"@) + dec_check(p, 6, "scale"@)
}

pub(crate) fn parse_point_marker_feature(params: &[Value]) -> (r: Result<PointMarkerFeature, String>)
    ensures
        r is Ok <==> point_marker_ok(params@),
        r matches Ok(f) ==> point_marker_is(params@, f),
        reports(outcome(r), point_marker_feature_checks(params@)),
{
    require_parameter_count(params, 7, "point_marker_feature")?;
    let style = parse_layer_color_style(params)?;
    Ok(
        PointMarkerFeature {
            style,
            position: parse_point_at(params, 2, 3)?,
            marker_code: parse_required_i64(&params[4], "marker_code")?,
            rotation_angle_deg: parse_required_decimal(&params[5], "rotation_angle")?,
            scale: parse_required_decimal(&params[6], "scale")?,
        },
    )
}

// ---------------------------------------------------------------- polyline and spline

/// Coordinate lists at `xi` and `yi` that pair up, agree with the count at
/// `ni`, and are not empty.
pub open spec fn coords_ok(p: Seq<Value>, ni: int, xi: int, yi: int) -> bool {
    &&& int_at(p, ni) is Some
    &&& dlist_at(p, xi) is Some
    &&& dlist_at(p, yi) is Some
    &&& dlist_at(p, xi)->0.len() == dlist_at(p, yi)->0.len()
    &&& count_ok(int_at(p, ni)->0, dlist_at(p, xi)->0.len() as int)
    &&& dlist_at(p, xi)->0.len() > 0
}

pub open spec fn coords_at(p: Seq<Value>, xi: int, yi: int) -> Seq<Point2> {
    points_of(dlist_at(p, xi)->0, dlist_at(p, yi)->0, dlist_at(p, xi)->0.len() as int)
}

pub open spec fn polyline_ok(p: Seq<Value>) -> bool {
    p.len() == 7 && line_style_ok(p) && coords_ok(p, 4, 5, 6)
}

pub open spec fn polyline_is(p: Seq<Value>, f: PolylineFeature) -> bool {
    &&& f.style == line_style_at(p)
    &&& f.declared_point_count == Some(int_at(p, 4)->0 as usize)
    &&& f.points@ == coords_at(p, 5, 6)
}

/// The checks on a coordinate block: its count, its two lists, that they
/// pair up, that the count agrees, and that there is a point.
pub open spec fn coords_checks(p: Seq<Value>, ni: int, xi: int, yi: int, feature: Seq<char>, what: Seq<char>) -> Seq<
    (bool, Seq<char>),
> {
    let nx = dlist_at(p, xi)->0.len();
    let ny = dlist_at(p, yi)->0.len();
    int_check(p, ni, "number"@) + dlist_check(p, xi, "x coordinates"@) + dlist_check(p, yi, "y coordinates"@)
        + check(nx == ny, feature + " coordinate list lengths differ: x="@ + nat_text(nx) + ", y="@ + nat_text(ny))
        + declared_check(int_at(p, ni)->0, nx as int, feature + " "@ + what) + check(
        nx > 0,
        feature + " has no "@ + what,
    )
}

fn parse_coordinates(params: &[Value], ni: usize, xi: usize, yi: usize, feature: &str, what: &str) -> (r:
    Result<(i64, Vec<Point2>), String>)
    requires
        ni < params@.len(),
        xi < params@.len(),
        yi < params@.len(),
    ensures
        r is Ok <==> coords_ok(params@, ni as int, xi as int, yi as int),
        r matches Ok(v) ==> v.0 == int_at(params@, ni as int)->0 && v.1@ == coords_at(
            params@,
            xi as int,
            yi as int,
        ),
        reports(outcome(r), coords_checks(params@, ni as int, xi as int, yi as int, feature@, what@)),
{
    let declared = parse_required_i64(&params[ni], "number")?;
    let xs = parse_required_decimal_list(&params[xi], "x coordinates")?;
    let ys = parse_required_decimal_list(&params[yi], "y coordinates")?;
    if xs.len() != ys.len() {
        let mut m = string_from_str(feature);
        push_str(&mut m, " coordinate list lengths differ: x=");
        push_usize(&mut m, xs.len());
        push_str(&mut m, ", y=");
        push_usize(&mut m, ys.len());
        return Err(m);
    }
    let mut field = string_from_str(feature);
    push_str(&mut field, " ");
    push_str(&mut field, what);
    validate_declared_count(declared, xs.len(), field.as_str())?;
    if xs.len() == 0 {
        let mut m = string_from_str(feature);
        push_str(&mut m, " has no ");
        push_str(&mut m, what);
        return Err(m);
    }
    let points = zip_points(&xs, &ys, xs.len());
    Ok((declared, points))
}

/// The checks decoding a `polyline_feature` record runs, in order.
pub open spec fn polyline_feature_checks(p: Seq<Value>) -> Seq<(bool, Seq<char>)> {
    count_check(p, 7, "polyline_feature"@) + line_style_checks(p) + coords_checks(p, 4, 5, 6, "polyline_feature"@, "vertices"@)
}

pub(crate) fn parse_polyline_feature(params: &[Value]) -> (r: Result<PolylineFeature, String>)
    ensures
        r is Ok <==> polyline_ok(params@),
        r matches Ok(f) ==> polyline_is(params@, f),
        reports(outcome(r), polyline_feature_checks(params@)),
{
    require_parameter_count(params, 7, "polyline_feature")?;
    let style = parse_line_style(params)?;
    let (declared, points) = parse_coordinates(params, 4, 5, 6, "polyline_feature", "vertices")?;
    Ok(PolylineFeature { style, declared_point_count: Some(declared as usize), points })
}

pub open spec fn spline_ok(p: Seq<Value>) -> bool {
    p.len() == 8 && line_style_ok(p) && coords_ok(p, 5, 6, 7) && int_at(p, 4) is Some
}

pub open spec fn spline_is(p: Seq<Value>, f: SplineFeature) -> bool {
    &&& f.style == line_style_at(p)
    &&& f.open_close == code_at(p, 4)->0
    &&& f.declared_point_count == Some(int_at(p, 5)->0 as usize)
    &&& f.points@ == coords_at(p, 6, 7)
}

/// The checks decoding a `spline_feature` record runs, in order.
pub open spec fn spline_feature_checks(p: Seq<Value>) -> Seq<(bool, Seq<char>)> {
    count_check(p, 8, "spline_feature"@) + line_style_checks(p) + coords_checks(p, 5, 6, 7, "spline_feature"@, "control points"@) + int_check(p, 4, "open_close"@)
}

pub(crate) fn parse_spline_feature(params: &[Value]) -> (r: Result<SplineFeature, String>)
    ensures
        r is Ok <==> spline_ok(params@),
        r matches Ok(f) ==> spline_is(params@, f),
        reports(outcome(r), spline_feature_checks(params@)),
{
    require_parameter_count(params, 8, "spline_feature")?;
    let style = parse_line_style(params)?;
    let (declared, points) = parse_coordinates(
        params,
        5,
        6,
        7,
        "spline_feature",
        "control points",
    )?;
    Ok(
        SplineFeature {
            style,
            open_close: parse_required_i64(&params[4], "open_close")?,
            declared_point_count: Some(declared as usize),
            points,
        },
    )
}

// ---------------------------------------------------------------- circle, arcs, ellipses

pub open spec fn circle_ok(p: Seq<Value>) -> bool {
    p.len() == 7 && line_style_ok(p) && pt_ok(p, 4, 5) && dec_at(p, 6) is Some
}

/// The checks decoding a `circle_feature` record runs, in order.
pub open spec fn circle_feature_checks(p: Seq<Value>) -> Seq<(bool, Seq<char>)> {
    count_check(p, 7, "circle_feature"@) + line_style_checks(p) + point_checks(p, 4, 5) + dec_check(p, 6, "radius"@)
}

pub(crate) fn parse_circle_feature(params: &[Value]) -> (r: Result<CircleFeature, String>)
    ensures
        r is Ok <==> circle_ok(params@),
        r matches Ok(f) ==> f == (CircleFeature {
            style: line_style_at(params@),
            center: pt_at(params@, 4, 5),
            radius: dec_at(params@, 6)->0,
        }),
        reports(outcome(r), circle_feature_checks(params@)),
{
    require_parameter_count(params, 7, "circle_feature")?;
    let style = parse_line_style(params)?;
    Ok(
        CircleFeature {
            style,
            center: parse_point_at(params, 4, 5)?,
            radius: parse_required_decimal(&params[6], "radius")?,
        },
    )
}

pub open spec fn arc_ok(p: Seq<Value>) -> bool {
    p.len() == 10 && line_style_ok(p) && pt_ok(p, 4, 5) && dec_at(p, 6) is Some && int_at(p, 7)
        is Some && dec_at(p, 8) is Some && dec_at(p, 9) is Some
}

/// The checks decoding a `arc_feature` record runs, in order.
pub open spec fn arc_feature_checks(p: Seq<Value>) -> Seq<(bool, Seq<char>)> {
    count_check(p, 10, "arc_feature"@) + line_style_checks(p) + point_checks(p, 4, 5) + dec_check(p, 6, "radius"@) + int_check(p, 7, "direction"@) + dec_check(p, 8, "start_angle"@) + dec_check(p, 9, "end_angle"@)
}

pub(crate) fn parse_arc_feature(params: &[Value]) -> (r: Result<ArcFeature, String>)
    ensures
        r is Ok <==> arc_ok(params@),
        r matches Ok(f) ==> f == (ArcFeature {
            style: line_style_at(params@),
            center: pt_at(params@, 4, 5),
            radius: dec_at(params@, 6)->0,
            direction_flag: code_at(params@, 7)->0,
            start_angle_deg: dec_at(params@, 8)->0,
            end_angle_deg: dec_at(params@, 9)->0,
        }),
        reports(outcome(r), arc_feature_checks(params@)),
{
    require_parameter_count(params, 10, "arc_feature")?;
    let style = parse_line_style(params)?;
    Ok(
        ArcFeature {
            style,
            center: parse_point_at(params, 4, 5)?,
            radius: parse_required_decimal(&params[6], "radius")?,
            direction_flag: parse_required_i64(&params[7], "direction")?,
            start_angle_deg: parse_required_decimal(&params[8], "start_angle")?,
            end_angle_deg: parse_required_decimal(&params[9], "end_angle")?,
        },
    )
}

pub open spec fn ellipse_ok(p: Seq<Value>) -> bool {
    p.len() == 9 && line_style_ok(p) && pt_ok(p, 4, 5) && dec_at(p, 6) is Some && dec_at(p, 7)
        is Some && dec_at(p, 8) is Some
}

/// The checks decoding a `ellipse_feature` record runs, in order.
pub open spec fn ellipse_feature_checks(p: Seq<Value>) -> Seq<(bool, Seq<char>)> {
    count_check(p, 9, "ellipse_feature"@) + line_style_checks(p) + point_checks(p, 4, 5) + dec_check(p, 6, "radius_x"@) + dec_check(p, 7, "radius_y"@) + dec_check(p, 8, "rotation_angle"@)
}

pub(crate) fn parse_ellipse_feature(params: &[Value]) -> (r: Result<EllipseFeature, String>)
    ensures
        r is Ok <==> ellipse_ok(params@),
        r matches Ok(f) ==> f == (EllipseFeature {
            style: line_style_at(params@),
            center: pt_at(params@, 4, 5),
            radius_x: dec_at(params@, 6)->0,
            radius_y: dec_at(params@, 7)->0,
            rotation_angle_deg: dec_at(params@, 8)->0,
        }),
        reports(outcome(r), ellipse_feature_checks(params@)),
{
    require_parameter_count(params, 9, "ellipse_feature")?;
    let style = parse_line_style(params)?;
    Ok(
        EllipseFeature {
            style,
            center: parse_point_at(params, 4, 5)?,
            radius_x: parse_required_decimal(&params[6], "radius_x")?,
            radius_y: parse_required_decimal(&params[7], "radius_y")?,
            rotation_angle_deg: parse_required_decimal(&params[8], "rotation_angle")?,
        },
    )
}

pub open spec fn ellipse_arc_ok(p: Seq<Value>) -> bool {
    &&& p.len() == 12 && line_style_ok(p) && pt_ok(p, 4, 5)
    &&& dec_at(p, 6) is Some && dec_at(p, 7) is Some && int_at(p, 8) is Some
    &&& dec_at(p, 9) is Some && dec_at(p, 10) is Some && dec_at(p, 11) is Some
}

/// The checks decoding a `ellipse_arc_feature` record runs, in order.
pub open spec fn ellipse_arc_feature_checks(p: Seq<Value>) -> Seq<(bool, Seq<char>)> {
    count_check(p, 12, "ellipse_arc_feature"@) + line_style_checks(p) + point_checks(p, 4, 5) + dec_check(p, 6, "radius_x"@) + dec_check(p, 7, "radius_y"@) + int_check(p, 8, "direction"@) + dec_check(p, 9, "rotation_angle"@) + dec_check(p, 10, "start_angle"@) + dec_check(p, 11, "end_angle"@)
}

pub(crate) fn parse_ellipse_arc_feature(params: &[Value]) -> (r: Result<EllipseArcFeature, String>)
    ensures
        r is Ok <==> ellipse_arc_ok(params@),
        r matches Ok(f) ==> f == (EllipseArcFeature {
            style: line_style_at(params@),
            center: pt_at(params@, 4, 5),
            radius_x: dec_at(params@, 6)->0,
            radius_y: dec_at(params@, 7)->0,
            direction_flag: code_at(params@, 8)->0,
            rotation_angle_deg: dec_at(params@, 9)->0,
            start_angle_deg: dec_at(params@, 10)->0,
            end_angle_deg: dec_at(params@, 11)->0,
        }),
        reports(outcome(r), ellipse_arc_feature_checks(params@)),
{
    require_parameter_count(params, 12, "ellipse_arc_feature")?;
    let style = parse_line_style(params)?;
    Ok(
        EllipseArcFeature {
            style,
            center: parse_point_at(params, 4, 5)?,
            radius_x: parse_required_decimal(&params[6], "radius_x")?,
            radius_y: parse_required_decimal(&params[7], "radius_y")?,
            direction_flag: parse_required_i64(&params[8], "direction")?,
            rotation_angle_deg: parse_required_decimal(&params[9], "rotation_angle")?,
            start_angle_deg: parse_required_decimal(&params[10], "start_angle")?,
            end_angle_deg: parse_required_decimal(&params[11], "end_angle")?,
        },
    )
}

pub open spec fn clothoid_ok(p: Seq<Value>) -> bool {
    &&& p.len() == 11 && line_style_ok(p) && pt_ok(p, 4, 5)
    &&& dec_at(p, 6) is Some && int_at(p, 7) is Some && dec_at(p, 8) is Some
    &&& dec_at(p, 9) is Some && dec_at(p, 10) is Some
}

/// The checks decoding a `clothoid_feature` record runs, in order.
pub open spec fn clothoid_feature_checks(p: Seq<Value>) -> Seq<(bool, Seq<char>)> {
    count_check(p, 11, "clothoid_feature"@) + line_style_checks(p) + point_checks(p, 4, 5) + dec_check(p, 6, "parameter"@) + int_check(p, 7, "direction"@) + dec_check(p, 8, "angle"@) + dec_check(p, 9, "start_length"@) + dec_check(p, 10, "end_length"@)
}

pub(crate) fn parse_clothoid_feature(params: &[Value]) -> (r: Result<ClothoidFeature, String>)
    ensures
        r is Ok <==> clothoid_ok(params@),
        r matches Ok(f) ==> f == (ClothoidFeature {
            style: line_style_at(params@),
            base: pt_at(params@, 4, 5),
            parameter: dec_at(params@, 6)->0,
            direction_flag: code_at(params@, 7)->0,
            angle_deg: dec_at(params@, 8)->0,
            start_length: dec_at(params@, 9)->0,
            end_length: dec_at(params@, 10)->0,
        }),
        reports(outcome(r), clothoid_feature_checks(params@)),
{
    require_parameter_count(params, 11, "clothoid_feature")?;
    let style = parse_line_style(params)?;
    Ok(
        ClothoidFeature {
            style,
            base: parse_point_at(params, 4, 5)?,
            parameter: parse_required_decimal(&params[6], "parameter")?,
            direction_flag: parse_required_i64(&params[7], "direction")?,
            angle_deg: parse_required_decimal(&params[8], "angle")?,
            start_length: parse_required_decimal(&params[9], "start_length")?,
            end_length: parse_required_decimal(&params[10], "end_length")?,
        },
    )
}

// ---------------------------------------------------------------- text

pub open spec fn text_feature_ok(p: Seq<Value>) -> bool {
    &&& p.len() == 13
    &&& str_at(p, 3) is Some && pt_ok(p, 4, 5)
    &&& dec_at(p, 6) is Some && dec_at(p, 7) is Some && dec_at(p, 8) is Some
    &&& dec_at(p, 9) is Some && dec_at(p, 10) is Some
    &&& int_at(p, 11) is Some && int_at(p, 12) is Some
}

pub open spec fn text_feature_is(p: Seq<Value>, f: TextFeature) -> bool {
    &&& f.style == (CommonStyle {
        layer_code: opt_code(int_at(p, 0)),
        color_code: opt_code(int_at(p, 1)),
        line_type_code: None,
        line_width_code: None,
        font_code: opt_code(int_at(p, 2)),
    })
    &&& f.text@ == str_at(p, 3)->0
    &&& f.anchor == pt_at(p, 4, 5)
    &&& f.height == dec_at(p, 6)->0
    &&& f.width == dec_at(p, 7)->0
    &&& f.spacing == dec_at(p, 8)->0
    &&& f.angle_deg == dec_at(p, 9)->0
    &&& f.slant_deg == dec_at(p, 10)->0
    &&& f.base_point == code_at(p, 11)->0
    &&& f.direction == code_at(p, 12)->0
}

/// The checks decoding a `text_feature` record runs, in order.
pub open spec fn text_feature_checks(p: Seq<Value>) -> Seq<(bool, Seq<char>)> {
    count_check(p, 13, "text_string_feature"@) + string_check(p, 3, "str"@) + point_checks(p, 4, 5) + dec_check(p, 6, "height"@) + dec_check(p, 7, "width"@) + dec_check(p, 8, "spacing"@) + dec_check(p, 9, "angle"@) + dec_check(p, 10, "slant"@) + int_check(p, 11, "base_point"@) + int_check(p, 12, "direction"@)
}

pub(crate) fn parse_text_feature(params: &[Value]) -> (r: Result<TextFeature, String>)
    ensures
        r is Ok <==> text_feature_ok(params@),
        r matches Ok(f) ==> text_feature_is(params@, f),
        reports(outcome(r), text_feature_checks(params@)),
{
    require_parameter_count(params, 13, "text_string_feature")?;
    Ok(
        TextFeature {
            style: CommonStyle {
                layer_code: parse_optional_i64(&params[0]),
                color_code: parse_optional_i64(&params[1]),
                line_type_code: None,
                line_width_code: None,
                font_code: parse_optional_i64(&params[2]),
            },
            text: parse_required_string(&params[3], "str")?,
            anchor: parse_point_at(params, 4, 5)?,
            height: parse_required_decimal(&params[6], "height")?,
            width: parse_required_decimal(&params[7], "width")?,
            spacing: parse_required_decimal(&params[8], "spacing")?,
            angle_deg: parse_required_decimal(&params[9], "angle")?,
            slant_deg: parse_required_decimal(&params[10], "slant")?,
            base_point: parse_required_i64(&params[11], "base_point")?,
            direction: parse_required_i64(&params[12], "direction")?,
        },
    )
}

// ---------------------------------------------------------------- composite curves and figures

/// The checks decoding a `composite_curve_feature` record runs, in order.
pub open spec fn composite_curve_feature_checks(p: Seq<Value>) -> Seq<(bool, Seq<char>)> {
    count_check(p, 4, "composite_curve_feature"@) + int_check(p, 3, "invisibility"@)
}

pub(crate) fn parse_composite_curve_feature(params: &[Value]) -> (r: Result<CompositeCurveFeature, String>)
    ensures
        r is Ok <==> (params@.len() == 4 && int_at(params@, 3) is Some),
        r matches Ok(f) ==> f == (CompositeCurveFeature {
            style: CommonStyle {
                layer_code: None,
                color_code: opt_code(int_at(params@, 0)),
                line_type_code: opt_code(int_at(params@, 1)),
                line_width_code: opt_code(int_at(params@, 2)),
                font_code: None,
            },
            visibility_flag: code_at(params@, 3)->0,
        }),
        reports(outcome(r), composite_curve_feature_checks(params@)),
{
    require_parameter_count(params, 4, "composite_curve_feature")?;
    Ok(
        CompositeCurveFeature {
            style: CommonStyle {
                layer_code: None,
                color_code: parse_optional_i64(&params[0]),
                line_type_code: parse_optional_i64(&params[1]),
                line_width_code: parse_optional_i64(&params[2]),
                font_code: None,
            },
            visibility_flag: parse_required_i64(&params[3], "invisibility")?,
        },
    )
}

pub open spec fn sfig_org_is(p: Seq<Value>, f: SfigOrgFeature) -> bool {
    f.name@ == str_at(p, 0)->0 && f.kind_flag == code_at(p, 1)->0
}

/// The checks decoding a `sfig_org_feature` record runs, in order.
pub open spec fn sfig_org_feature_checks(p: Seq<Value>) -> Seq<(bool, Seq<char>)> {
    count_check(p, 2, "sfig_org_feature"@) + string_check(p, 0, "name"@) + int_check(p, 1, "kind_flag"@)
}

pub(crate) fn parse_sfig_org_feature(params: &[Value]) -> (r: Result<SfigOrgFeature, String>)
    ensures
        r is Ok <==> name_flag_ok(params@),
        r matches Ok(f) ==> sfig_org_is(params@, f),
        reports(outcome(r), sfig_org_feature_checks(params@)),
{
    require_parameter_count(params, 2, "sfig_org_feature")?;
    Ok(
        SfigOrgFeature {
            name: parse_required_string(&params[0], "name")?,
            kind_flag: parse_required_i64(&params[1], "kind_flag")?,
        },
    )
}

pub open spec fn sfig_locate_ok(p: Seq<Value>) -> bool {
    &&& p.len() == 7 && int_at(p, 0) is Some && str_at(p, 1) is Some && pt_ok(p, 2, 3)
    &&& dec_at(p, 4) is Some && dec_at(p, 5) is Some && dec_at(p, 6) is Some
}

pub open spec fn sfig_locate_is(p: Seq<Value>, f: SfigLocateFeature) -> bool {
    &&& f.style == (CommonStyle {
        layer_code: code_at(p, 0),
        color_code: None,
        line_type_code: None,
        line_width_code: None,
        font_code: None,
    })
    &&& f.name@ == str_at(p, 1)->0
    &&& f.position == pt_at(p, 2, 3)
    &&& f.angle_deg == dec_at(p, 4)->0
    &&& f.ratio_x == dec_at(p, 5)->0
    &&& f.ratio_y == dec_at(p, 6)->0
}

/// The checks decoding a `sfig_locate_feature` record runs, in order.
pub open spec fn sfig_locate_feature_checks(p: Seq<Value>) -> Seq<(bool, Seq<char>)> {
    count_check(p, 7, "sfig_locate_feature"@) + int_check(p, 0, "layer"@) + string_check(p, 1, "name"@) + point_checks(p, 2, 3) + dec_check(p, 4, "angle"@) + dec_check(p, 5, "ratio_x"@) + dec_check(p, 6, "ratio_y"@)
}

pub(crate) fn parse_sfig_locate_feature(params: &[Value]) -> (r: Result<SfigLocateFeature, String>)
    ensures
        r is Ok <==> sfig_locate_ok(params@),
        r matches Ok(f) ==> sfig_locate_is(params@, f),
        reports(outcome(r), sfig_locate_feature_checks(params@)),
{
    require_parameter_count(params, 7, "sfig_locate_feature")?;
    Ok(
        SfigLocateFeature {
            style: CommonStyle {
                layer_code: Some(parse_required_i64(&params[0], "layer")?),
                color_code: None,
                line_type_code: None,
                line_width_code: None,
                font_code: None,
            },
            name: parse_required_string(&params[1], "name")?,
            position: parse_point_at(params, 2, 3)?,
            angle_deg: parse_required_decimal(&params[4], "angle")?,
            ratio_x: parse_required_decimal(&params[5], "ratio_x")?,
            ratio_y: parse_required_decimal(&params[6], "ratio_y")?,
        },
    )
}

pub open spec fn symbol_ok(p: Seq<Value>) -> bool {
    &&& p.len() == 8 && int_at(p, 0) is Some && int_at(p, 2) is Some && int_at(p, 1) is Some
    &&& str_at(p, 3) is Some && pt_ok(p, 4, 5) && dec_at(p, 6) is Some && dec_at(p, 7) is Some
}

pub open spec fn symbol_is(p: Seq<Value>, f: ExternallyDefinedSymbolFeature) -> bool {
    &&& f.style == (CommonStyle {
        layer_code: code_at(p, 0),
        color_code: code_at(p, 2),
        line_type_code: None,
        line_width_code: None,
        font_code: None,
    })
    &&& f.color_flag == code_at(p, 1)->0
    &&& f.name@ == str_at(p, 3)->0
    &&& f.position == pt_at(p, 4, 5)
    &&& f.rotation_angle_deg == dec_at(p, 6)->0
    &&& f.scale == dec_at(p, 7)->0
}

/// The checks decoding a `externally_defined_symbol_feature` record runs, in order.
pub open spec fn externally_defined_symbol_feature_checks(p: Seq<Value>) -> Seq<(bool, Seq<char>)> {
    count_check(p, 8, "symbol_externally_defined_feature"@) + int_check(p, 0, "layer"@) + int_check(p, 2, "color"@) + int_check(p, 1, "color_flag"@) + string_check(p, 3, "name"@) + point_checks(p, 4, 5) + dec_check(p, 6, "rotation_angle"@) + dec_check(p, 7, "scale"@)
}

pub(crate) fn parse_externally_defined_symbol_feature(params: &[Value]) -> (r: Result<
    ExternallyDefinedSymbolFeature,
    String,
>)
    ensures
        r is Ok <==> symbol_ok(params@),
        r matches Ok(f) ==> symbol_is(params@, f),
        reports(outcome(r), externally_defined_symbol_feature_checks(params@)),
{
    require_parameter_count(params, 8, "symbol_externally_defined_feature")?;
    Ok(
        ExternallyDefinedSymbolFeature {
            style: CommonStyle {
                layer_code: Some(parse_required_i64(&params[0], "layer")?),
                color_code: Some(parse_required_i64(&params[2], "color")?),
                line_type_code: None,
                line_width_code: None,
                font_code: None,
            },
            color_flag: parse_required_i64(&params[1], "color_flag")?,
            name: parse_required_string(&params[3], "name")?,
            position: parse_point_at(params, 4, 5)?,
            rotation_angle_deg: parse_required_decimal(&params[6], "rotation_angle")?,
            scale: parse_required_decimal(&params[7], "scale")?,
        },
    )
}

// ---------------------------------------------------------------- dimensions

pub open spec fn linear_dim_ok(p: Seq<Value>) -> bool {
    &&& p.len() == 44 && line_style_ok(p) && pt_ok(p, 4, 5) && pt_ok(p, 6, 7)
    &&& ext_line_ok(p, 8) && ext_line_ok(p, 15) && arrow_ok(p, 22) && arrow_ok(p, 27)
    &&& text_ok(p, 32)
}

pub open spec fn linear_dim_is(p: Seq<Value>, f: LinearDimFeature) -> bool {
    &&& f.style == line_style_at(p)
    &&& f.start == pt_at(p, 4, 5)
    &&& f.end == pt_at(p, 6, 7)
    &&& f.extension_line1 == ext_line_at(p, 8)
    &&& f.extension_line2 == ext_line_at(p, 15)
    &&& f.arrow1 == arrow_at(p, 22)
    &&& f.arrow2 == arrow_at(p, 27)
    &&& text_at(p, 32, f.text)
    &&& same_values(p.subrange(4, p.len() as int), f.raw_parameters@)
}

/// The checks decoding a `linear_dim_feature` record runs, in order.
pub open spec fn linear_dim_feature_checks(p: Seq<Value>) -> Seq<(bool, Seq<char>)> {
    count_check(p, 44, "linear_dim_feature"@) + line_style_checks(p) + point_checks(p, 4, 5) + point_checks(p, 6, 7) + ext_line_checks(p, 8) + ext_line_checks(p, 15) + arrow_checks(p, 22) + arrow_checks(p, 27) + text_checks(p, 32)
}

pub(crate) fn parse_linear_dim_feature(params: &[Value]) -> (r: Result<LinearDimFeature, String>)
    ensures
        r is Ok <==> linear_dim_ok(params@),
        r matches Ok(f) ==> linear_dim_is(params@, f),
        reports(outcome(r), linear_dim_feature_checks(params@)),
{
    require_parameter_count(params, 44, "linear_dim_feature")?;
    Ok(
        LinearDimFeature {
            style: parse_line_style(params)?,
            start: parse_point_at(params, 4, 5)?,
            end: parse_point_at(params, 6, 7)?,
            extension_line1: parse_extension_line(params, 8)?,
            extension_line2: parse_extension_line(params, 15)?,
            arrow1: parse_dimension_arrow(params, 22)?,
            arrow2: parse_dimension_arrow(params, 27)?,
            text: parse_feature_text(params, 32)?,
            raw_parameters: clone_values_from(params, 4),
        },
    )
}

/// Shape shared by curve and angular dimensions.
pub open spec fn arc_dim_ok(p: Seq<Value>) -> bool {
    &&& p.len() == 45 && line_style_ok(p) && pt_ok(p, 4, 5)
    &&& dec_at(p, 6) is Some && dec_at(p, 7) is Some && dec_at(p, 8) is Some
    &&& ext_line_ok(p, 9) && ext_line_ok(p, 16) && arrow_ok(p, 23) && arrow_ok(p, 28)
    &&& text_ok(p, 33)
}

pub open spec fn curve_dim_is(p: Seq<Value>, f: CurveDimFeature) -> bool {
    &&& f.style == line_style_at(p)
    &&& f.center == pt_at(p, 4, 5)
    &&& f.radius == dec_at(p, 6)->0
    &&& f.start_angle_deg == dec_at(p, 7)->0
    &&& f.end_angle_deg == dec_at(p, 8)->0
    &&& f.extension_line1 == ext_line_at(p, 9)
    &&& f.extension_line2 == ext_line_at(p, 16)
    &&& f.arrow1 == arrow_at(p, 23)
    &&& f.arrow2 == arrow_at(p, 28)
    &&& text_at(p, 33, f.text)
    &&& same_values(p.subrange(4, p.len() as int), f.raw_parameters@)
}

pub open spec fn angular_dim_is(p: Seq<Value>, f: AngularDimFeature) -> bool {
    &&& f.style == line_style_at(p)
    &&& f.center == pt_at(p, 4, 5)
    &&& f.radius == dec_at(p, 6)->0
    &&& f.start_angle_deg == dec_at(p, 7)->0
    &&& f.end_angle_deg == dec_at(p, 8)->0
    &&& f.extension_line1 == ext_line_at(p, 9)
    &&& f.extension_line2 == ext_line_at(p, 16)
    &&& f.arrow1 == arrow_at(p, 23)
    &&& f.arrow2 == arrow_at(p, 28)
    &&& text_at(p, 33, f.text)
    &&& same_values(p.subrange(4, p.len() as int), f.raw_parameters@)
}

/// The checks decoding a `curve_dim_feature` record runs, in order.
pub open spec fn curve_dim_feature_checks(p: Seq<Value>) -> Seq<(bool, Seq<char>)> {
    count_check(p, 45, "curve_dim_feature"@) + line_style_checks(p) + point_checks(p, 4, 5) + dec_check(p, 6, "dimension radius"@) + dec_check(p, 7, "dimension start angle"@) + dec_check(p, 8, "dimension end angle"@) + ext_line_checks(p, 9) + ext_line_checks(p, 16) + arrow_checks(p, 23) + arrow_checks(p, 28) + text_checks(p, 33)
}

pub(crate) fn parse_curve_dim_feature(params: &[Value]) -> (r: Result<CurveDimFeature, String>)
    ensures
        r is Ok <==> arc_dim_ok(params@),
        r matches Ok(f) ==> curve_dim_is(params@, f),
        reports(outcome(r), curve_dim_feature_checks(params@)),
{
    require_parameter_count(params, 45, "curve_dim_feature")?;
    Ok(
        CurveDimFeature {
            style: parse_line_style(params)?,
            center: parse_point_at(params, 4, 5)?,
            radius: parse_required_decimal(&params[6], "dimension radius")?,
            start_angle_deg: parse_required_decimal(&params[7], "dimension start angle")?,
            end_angle_deg: parse_required_decimal(&params[8], "dimension end angle")?,
            extension_line1: parse_extension_line(params, 9)?,
            extension_line2: parse_extension_line(params, 16)?,
            arrow1: parse_dimension_arrow(params, 23)?,
            arrow2: parse_dimension_arrow(params, 28)?,
            text: parse_feature_text(params, 33)?,
            raw_parameters: clone_values_from(params, 4),
        },
    )
}

/// The checks decoding a `angular_dim_feature` record runs, in order.
pub open spec fn angular_dim_feature_checks(p: Seq<Value>) -> Seq<(bool, Seq<char>)> {
    count_check(p, 45, "angular_dim_feature"@) + line_style_checks(p) + point_checks(p, 4, 5) + dec_check(p, 6, "dimension radius"@) + dec_check(p, 7, "dimension start angle"@) + dec_check(p, 8, "dimension end angle"@) + ext_line_checks(p, 9) + ext_line_checks(p, 16) + arrow_checks(p, 23) + arrow_checks(p, 28) + text_checks(p, 33)
}

pub(crate) fn parse_angular_dim_feature(params: &[Value]) -> (r: Result<AngularDimFeature, String>)
    ensures
        r is Ok <==> arc_dim_ok(params@),
        r matches Ok(f) ==> angular_dim_is(params@, f),
        reports(outcome(r), angular_dim_feature_checks(params@)),
{
    require_parameter_count(params, 45, "angular_dim_feature")?;
    Ok(
        AngularDimFeature {
            style: parse_line_style(params)?,
            center: parse_point_at(params, 4, 5)?,
            radius: parse_required_decimal(&params[6], "dimension radius")?,
            start_angle_deg: parse_required_decimal(&params[7], "dimension start angle")?,
            end_angle_deg: parse_required_decimal(&params[8], "dimension end angle")?,
            extension_line1: parse_extension_line(params, 9)?,
            extension_line2: parse_extension_line(params, 16)?,
            arrow1: parse_dimension_arrow(params, 23)?,
            arrow2: parse_dimension_arrow(params, 28)?,
            text: parse_feature_text(params, 33)?,
            raw_parameters: clone_values_from(params, 4),
        },
    )
}

pub open spec fn radius_dim_ok(p: Seq<Value>) -> bool {
    p.len() == 25 && line_style_ok(p) && pt_ok(p, 4, 5) && pt_ok(p, 6, 7) && arrow_ok(p, 8)
        && text_ok(p, 13)
}

pub open spec fn radius_dim_is(p: Seq<Value>, f: RadiusDimFeature) -> bool {
    &&& f.style == line_style_at(p)
    &&& f.start == pt_at(p, 4, 5)
    &&& f.end == pt_at(p, 6, 7)
    &&& f.arrow == arrow_at(p, 8)
    &&& text_at(p, 13, f.text)
    &&& same_values(p.subrange(4, p.len() as int), f.raw_parameters@)
}

/// The checks decoding a `radius_dim_feature` record runs, in order.
pub open spec fn radius_dim_feature_checks(p: Seq<Value>) -> Seq<(bool, Seq<char>)> {
    count_check(p, 25, "radius_dim_feature"@) + line_style_checks(p) + point_checks(p, 4, 5) + point_checks(p, 6, 7) + arrow_checks(p, 8) + text_checks(p, 13)
}

pub(crate) fn parse_radius_dim_feature(params: &[Value]) -> (r: Result<RadiusDimFeature, String>)
    ensures
        r is Ok <==> radius_dim_ok(params@),
        r matches Ok(f) ==> radius_dim_is(params@, f),
        reports(outcome(r), radius_dim_feature_checks(params@)),
{
    require_parameter_count(params, 25, "radius_dim_feature")?;
    Ok(
        RadiusDimFeature {
            style: parse_line_style(params)?,
            start: parse_point_at(params, 4, 5)?,
            end: parse_point_at(params, 6, 7)?,
            arrow: parse_dimension_arrow(params, 8)?,
            text: parse_feature_text(params, 13)?,
            raw_parameters: clone_values_from(params, 4),
        },
    )
}

pub open spec fn diameter_dim_ok(p: Seq<Value>) -> bool {
    p.len() == 30 && line_style_ok(p) && pt_ok(p, 4, 5) && pt_ok(p, 6, 7) && arrow_ok(p, 8)
        && arrow_ok(p, 13) && text_ok(p, 18)
}

pub open spec fn diameter_dim_is(p: Seq<Value>, f: DiameterDimFeature) -> bool {
    &&& f.style == line_style_at(p)
    &&& f.start == pt_at(p, 4, 5)
    &&& f.end == pt_at(p, 6, 7)
    &&& f.arrow1 == arrow_at(p, 8)
    &&& f.arrow2 == arrow_at(p, 13)
    &&& text_at(p, 18, f.text)
    &&& same_values(p.subrange(4, p.len() as int), f.raw_parameters@)
}

/// The checks decoding a `diameter_dim_feature` record runs, in order.
pub open spec fn diameter_dim_feature_checks(p: Seq<Value>) -> Seq<(bool, Seq<char>)> {
    count_check(p, 30, "diameter_dim_feature"@) + line_style_checks(p) + point_checks(p, 4, 5) + point_checks(p, 6, 7) + arrow_checks(p, 8) + arrow_checks(p, 13) + text_checks(p, 18)
}

pub(crate) fn parse_diameter_dim_feature(params: &[Value]) -> (r: Result<DiameterDimFeature, String>)
    ensures
        r is Ok <==> diameter_dim_ok(params@),
        r matches Ok(f) ==> diameter_dim_is(params@, f),
        reports(outcome(r), diameter_dim_feature_checks(params@)),
{
    require_parameter_count(params, 30, "diameter_dim_feature")?;
    Ok(
        DiameterDimFeature {
            style: parse_line_style(params)?,
            start: parse_point_at(params, 4, 5)?,
            end: parse_point_at(params, 6, 7)?,
            arrow1: parse_dimension_arrow(params, 8)?,
            arrow2: parse_dimension_arrow(params, 13)?,
            text: parse_feature_text(params, 18)?,
            raw_parameters: clone_values_from(params, 4),
        },
    )
}

// ---------------------------------------------------------------- labels and balloons

/// Leader vertices from coordinate lists at 5 and 6, paired up to the shorter list.
pub open spec fn leader_ok(p: Seq<Value>) -> bool {
    &&& int_at(p, 4) is Some
    &&& dlist_at(p, 5) is Some
    &&& dlist_at(p, 6) is Some
    &&& dlist_at(p, 5)->0.len() > 0
    &&& dlist_at(p, 6)->0.len() > 0
}

pub open spec fn leader_vertices(p: Seq<Value>) -> Seq<Point2> {
    let xs = dlist_at(p, 5)->0;
    let ys = dlist_at(p, 6)->0;
    points_of(xs, ys, if xs.len() <= ys.len() { xs.len() as int } else { ys.len() as int })
}

/// `usize::try_from(declared).ok()`.
pub open spec fn count_of(declared: int) -> Option<usize> {
    if 0 <= declared <= usize::MAX {
        Some(declared as usize)
    } else {
        None
    }
}

fn usize_from_i64(declared: i64) -> (r: Option<usize>)
    ensures
        r == count_of(declared as int),
{
    if declared < 0 || declared as u64 > usize::MAX as u64 {
        None
    } else {
        Some(declared as usize)
    }
}

pub(crate) fn parse_points_from_xy_lists(xs: Vec<Decimal>, ys: Vec<Decimal>, feature_name: &str) -> (r:
    Result<Vec<Point2>, String>)
    ensures
        r is Ok <==> (xs@.len() > 0 && ys@.len() > 0),
        r matches Ok(v) ==> v@ == points_of(
            xs@,
            ys@,
            if xs@.len() <= ys@.len() {
                xs@.len() as int
            } else {
                ys@.len() as int
            },
        ),
        r matches Err(m) ==> m@ == feature_name@ + " has no vertices"@,
        reports(outcome(r), check(xs@.len() > 0 && ys@.len() > 0, feature_name@ + " has no vertices"@)),
{
    let n = if xs.len() <= ys.len() {
        xs.len()
    } else {
        ys.len()
    };
    if n == 0 {
        let mut m = string_from_str(feature_name);
        push_str(&mut m, " has no vertices");
        return Err(m);
    }
    Ok(zip_points(&xs, &ys, n))
}

/// A leader needs a vertex: both coordinate lists non-empty.
pub open spec fn vertices_check(p: Seq<Value>, feature: Seq<char>) -> Seq<(bool, Seq<char>)> {
    check(dlist_at(p, 5)->0.len() > 0 && dlist_at(p, 6)->0.len() > 0, feature + " has no vertices"@)
}

pub open spec fn label_ok(p: Seq<Value>) -> bool {
    &&& p.len() == 21 && line_style_ok(p) && leader_ok(p)
    &&& int_at(p, 7) is Some && dec_at(p, 8) is Some && text_ok(p, 9)
}

pub open spec fn label_is(p: Seq<Value>, f: LabelFeature) -> bool {
    &&& f.style == line_style_at(p)
    &&& f.declared_vertex_count == count_of(int_at(p, 4)->0)
    &&& f.vertices@ == leader_vertices(p)
    &&& f.arrow == (LeaderArrow { code: code_at(p, 7)->0, scale: dec_at(p, 8)->0 })
    &&& text_at(p, 9, f.text)
}

/// The checks decoding a `label_feature` record runs, in order.
pub open spec fn label_feature_checks(p: Seq<Value>) -> Seq<(bool, Seq<char>)> {
    count_check(p, 21, "label_feature"@) + line_style_checks(p) + int_check(p, 4, "number"@) + dlist_check(p, 5, "x coordinates"@) + dlist_check(p, 6, "y coordinates"@) + vertices_check(p, "label_feature"@) + int_check(p, 7, "arrow code"@) + dec_check(p, 8, "arrow scale"@) + text_checks(p, 9)
}

pub(crate) fn parse_label_feature(params: &[Value]) -> (r: Result<LabelFeature, String>)
    ensures
        r is Ok <==> label_ok(params@),
        r matches Ok(f) ==> label_is(params@, f),
        reports(outcome(r), label_feature_checks(params@)),
{
    require_parameter_count(params, 21, "label_feature")?;
    let style = parse_line_style(params)?;
    let declared = parse_required_i64(&params[4], "number")?;
    let points = parse_points_from_xy_lists(
        parse_required_decimal_list(&params[5], "x coordinates")?,
        parse_required_decimal_list(&params[6], "y coordinates")?,
        "label_feature",
    )?;
    Ok(
        LabelFeature {
            style,
            declared_vertex_count: usize_from_i64(declared),
            vertices: points,
            arrow: LeaderArrow {
                code: parse_required_i64(&params[7], "arrow code")?,
                scale: parse_required_decimal(&params[8], "arrow scale")?,
            },
            text: parse_feature_text(params, 9)?,
        },
    )
}

pub open spec fn balloon_ok(p: Seq<Value>) -> bool {
    &&& p.len() == 24 && line_style_ok(p) && leader_ok(p)
    &&& pt_ok(p, 7, 8) && dec_at(p, 9) is Some
    &&& int_at(p, 10) is Some && dec_at(p, 11) is Some && text_ok(p, 12)
}

pub open spec fn balloon_is(p: Seq<Value>, f: BalloonFeature) -> bool {
    &&& f.style == line_style_at(p)
    &&& f.declared_vertex_count == count_of(int_at(p, 4)->0)
    &&& f.vertices@ == leader_vertices(p)
    &&& f.center == pt_at(p, 7, 8)
    &&& f.radius == dec_at(p, 9)->0
    &&& f.arrow == (LeaderArrow { code: code_at(p, 10)->0, scale: dec_at(p, 11)->0 })
    &&& text_at(p, 12, f.text)
}

/// The checks decoding a `balloon_feature` record runs, in order.
pub open spec fn balloon_feature_checks(p: Seq<Value>) -> Seq<(bool, Seq<char>)> {
    count_check(p, 24, "balloon_feature"@) + line_style_checks(p) + int_check(p, 4, "number"@) + dlist_check(p, 5, "x coordinates"@) + dlist_check(p, 6, "y coordinates"@) + vertices_check(p, "balloon_feature"@) + point_checks(p, 7, 8) + dec_check(p, 9, "radius"@) + int_check(p, 10, "arrow code"@) + dec_check(p, 11, "arrow scale"@) + text_checks(p, 12)
}

pub(crate) fn parse_balloon_feature(params: &[Value]) -> (r: Result<BalloonFeature, String>)
    ensures
        r is Ok <==> balloon_ok(params@),
        r matches Ok(f) ==> balloon_is(params@, f),
        reports(outcome(r), balloon_feature_checks(params@)),
{
    require_parameter_count(params, 24, "balloon_feature")?;
    let style = parse_line_style(params)?;
    let declared = parse_required_i64(&params[4], "number")?;
    let points = parse_points_from_xy_lists(
        parse_required_decimal_list(&params[5], "x coordinates")?,
        parse_required_decimal_list(&params[6], "y coordinates")?,
        "balloon_feature",
    )?;
    Ok(
        BalloonFeature {
            style,
            declared_vertex_count: usize_from_i64(declared),
            vertices: points,
            center: parse_point_at(params, 7, 8)?,
            radius: parse_required_decimal(&params[9], "radius")?,
            arrow: LeaderArrow {
                code: parse_required_i64(&params[10], "arrow code")?,
                scale: parse_required_decimal(&params[11], "arrow scale")?,
            },
            text: parse_feature_text(params, 12)?,
        },
    )
}

// ---------------------------------------------------------------- hatches

/// A hole count at `ci` that agrees with the integer list at `li`.
pub open spec fn holes_ok(p: Seq<Value>, ci: int, li: int) -> bool {
    &&& int_at(p, ci) is Some
    &&& ilist_at(p, li) is Some
    &&& count_ok(int_at(p, ci)->0, ilist_at(p, li)->0.len() as int)
}

/// The checks on a hole count at `ci` and the hole list at `li`.
pub open spec fn holes_checks(p: Seq<Value>, ci: int, li: int, field: Seq<char>) -> Seq<(bool, Seq<char>)> {
    int_check(p, ci, "number"@) + ilist_check(p, li, "in_ids"@) + declared_check(
        int_at(p, ci)->0,
        ilist_at(p, li)->0.len() as int,
        field,
    )
}

fn parse_holes(params: &[Value], ci: usize, li: usize, field_name: &str) -> (r: Result<
    (usize, Vec<i64>),
    String,
>)
    requires
        ci < params@.len(),
        li < params@.len(),
    ensures
        r is Ok <==> holes_ok(params@, ci as int, li as int),
        r matches Ok(v) ==> v.0 == int_at(params@, ci as int)->0 && ints_view(v.1@) == ilist_at(
            params@,
            li as int,
        )->0,
        reports(outcome(r), holes_checks(params@, ci as int, li as int, field_name@)),
{
    let hole_count = parse_required_i64(&params[ci], "number")?;
    let in_ids = parse_required_i64_list(&params[li], "in_ids")?;
    validate_declared_count(hole_count, in_ids.len(), field_name)?;
    Ok((hole_count as usize, in_ids))
}

pub open spec fn ext_hatch_ok(p: Seq<Value>) -> bool {
    p.len() == 5 && holes_ok(p, 3, 4) && int_at(p, 0) is Some && str_at(p, 1) is Some && int_at(
        p,
        2,
    ) is Some
}

pub open spec fn ext_hatch_is(p: Seq<Value>, f: ExternallyDefinedHatchFeature) -> bool {
    &&& f.style == (CommonStyle {
        layer_code: code_at(p, 0),
        color_code: None,
        line_type_code: None,
        line_width_code: None,
        font_code: None,
    })
    &&& f.name@ == str_at(p, 1)->0
    &&& f.out_id == code_at(p, 2)->0
    &&& f.hole_count == Some(int_at(p, 3)->0 as usize)
    &&& ints_view(f.in_ids@) == ilist_at(p, 4)->0
}

/// The checks decoding a `externally_defined_hatch_feature` record runs, in order.
pub open spec fn externally_defined_hatch_feature_checks(p: Seq<Value>) -> Seq<(bool, Seq<char>)> {
    count_check(p, 5, "externally_defined_hatch_feature"@) + holes_checks(p, 3, 4, "externally_defined_hatch_feature holes"@) + int_check(p, 0, "layer"@) + string_check(p, 1, "name"@) + int_check(p, 2, "out_id"@)
}

pub(crate) fn parse_externally_defined_hatch_feature(params: &[Value]) -> (r: Result<
    ExternallyDefinedHatchFeature,
    String,
>)
    ensures
        r is Ok <==> ext_hatch_ok(params@),
        r matches Ok(f) ==> ext_hatch_is(params@, f),
        reports(outcome(r), externally_defined_hatch_feature_checks(params@)),
{
    require_parameter_count(params, 5, "externally_defined_hatch_feature")?;
    let (hole_count, in_ids) = parse_holes(
        params,
        3,
        4,
        "externally_defined_hatch_feature holes",
    )?;
    Ok(
        ExternallyDefinedHatchFeature {
            style: CommonStyle {
                layer_code: Some(parse_required_i64(&params[0], "layer")?),
                color_code: None,
                line_type_code: None,
                line_width_code: None,
                font_code: None,
            },
            name: parse_required_string(&params[1], "name")?,
            out_id: parse_required_i64(&params[2], "out_id")?,
            hole_count: Some(hole_count),
            in_ids,
        },
    )
}

pub open spec fn fill_colour_ok(p: Seq<Value>) -> bool {
    p.len() == 5 && holes_ok(p, 3, 4) && int_at(p, 0) is Some && int_at(p, 1) is Some && int_at(
        p,
        2,
    ) is Some
}

pub open spec fn fill_colour_is(p: Seq<Value>, f: FillAreaStyleColourFeature) -> bool {
    &&& f.style == (CommonStyle {
        layer_code: code_at(p, 0),
        color_code: code_at(p, 1),
        line_type_code: None,
        line_width_code: None,
        font_code: None,
    })
    &&& f.out_id == code_at(p, 2)->0
    &&& f.hole_count == Some(int_at(p, 3)->0 as usize)
    &&& ints_view(f.in_ids@) == ilist_at(p, 4)->0
}

/// The checks decoding a `fill_area_style_colour_feature` record runs, in order.
pub open spec fn fill_area_style_colour_feature_checks(p: Seq<Value>) -> Seq<(bool, Seq<char>)> {
    count_check(p, 5, "fill_area_style_colour_feature"@) + holes_checks(p, 3, 4, "fill_area_style_colour_feature holes"@) + int_check(p, 0, "layer"@) + int_check(p, 1, "color"@) + int_check(p, 2, "out_id"@)
}

pub(crate) fn parse_fill_area_style_colour_feature(params: &[Value]) -> (r: Result<
    FillAreaStyleColourFeature,
    String,
>)
    ensures
        r is Ok <==> fill_colour_ok(params@),
        r matches Ok(f) ==> fill_colour_is(params@, f),
        reports(outcome(r), fill_area_style_colour_feature_checks(params@)),
{
    require_parameter_count(params, 5, "fill_area_style_colour_feature")?;
    let (hole_count, in_ids) = parse_holes(params, 3, 4, "fill_area_style_colour_feature holes")?;
    Ok(
        FillAreaStyleColourFeature {
            style: CommonStyle {
                layer_code: Some(parse_required_i64(&params[0], "layer")?),
                color_code: Some(parse_required_i64(&params[1], "color")?),
                line_type_code: None,
                line_width_code: None,
                font_code: None,
            },
            out_id: parse_required_i64(&params[2], "out_id")?,
            hole_count: Some(hole_count),
            in_ids,
        },
    )
}

pub open spec fn tiles_ok(p: Seq<Value>) -> bool {
    &&& p.len() == 15 && holes_ok(p, 13, 14)
    &&& int_at(p, 0) is Some && str_at(p, 1) is Some && int_at(p, 2) is Some && pt_ok(p, 3, 4)
    &&& int_at(p, 12) is Some
    &&& dec_at(p, 5) is Some && dec_at(p, 6) is Some && dec_at(p, 7) is Some
    &&& dec_at(p, 8) is Some && dec_at(p, 9) is Some && dec_at(p, 10) is Some
    &&& dec_at(p, 11) is Some
}

pub open spec fn tiles_is(p: Seq<Value>, f: FillAreaStyleTilesFeature) -> bool {
    &&& f.style == (CommonStyle {
        layer_code: code_at(p, 0),
        color_code: None,
        line_type_code: None,
        line_width_code: None,
        font_code: None,
    })
    &&& f.name@ == str_at(p, 1)->0
    &&& f.hatch_color == code_at(p, 2)->0
    &&& f.hatch_pattern_position == pt_at(p, 3, 4)
    &&& f.out_id == code_at(p, 12)->0
    &&& f.hatch_pattern_vector1 == dec_at(p, 5)->0
    &&& f.hatch_pattern_vector1_angle_deg == dec_at(p, 6)->0
    &&& f.hatch_pattern_vector2 == dec_at(p, 7)->0
    &&& f.hatch_pattern_vector2_angle_deg == dec_at(p, 8)->0
    &&& f.hatch_pattern_scale_x == dec_at(p, 9)->0
    &&& f.hatch_pattern_scale_y == dec_at(p, 10)->0
    &&& f.hatch_pattern_angle_deg == dec_at(p, 11)->0
    &&& f.hole_count == Some(int_at(p, 13)->0 as usize)
    &&& ints_view(f.in_ids@) == ilist_at(p, 14)->0
}

/// The checks decoding a `fill_area_style_tiles_feature` record runs, in order.
pub open spec fn fill_area_style_tiles_feature_checks(p: Seq<Value>) -> Seq<(bool, Seq<char>)> {
    count_check(p, 15, "fill_area_style_tiles_hatching_feature"@) + holes_checks(p, 13, 14, "fill_area_style_tiles_hatching_feature holes"@) + int_check(p, 0, "layer"@) + string_check(p, 1, "name"@) + int_check(p, 2, "hatch_color"@) + point_checks(p, 3, 4) + int_check(p, 12, "out_id"@) + dec_check(p, 5, "hatch_pattern_vector1"@) + dec_check(p, 6, "hatch_pattern_vector1_angle"@) + dec_check(p, 7, "hatch_pattern_vector2"@) + dec_check(p, 8, "hatch_pattern_vector2_angle"@) + dec_check(p, 9, "hatch_pattern_scale_x"@) + dec_check(p, 10, "hatch_pattern_scale_y"@) + dec_check(p, 11, "hatch_pattern_angle"@)
}

pub(crate) fn parse_fill_area_style_tiles_feature(params: &[Value]) -> (r: Result<
    FillAreaStyleTilesFeature,
    String,
>)
    ensures
        r is Ok <==> tiles_ok(params@),
        r matches Ok(f) ==> tiles_is(params@, f),
        reports(outcome(r), fill_area_style_tiles_feature_checks(params@)),
{
    require_parameter_count(params, 15, "fill_area_style_tiles_hatching_feature")?;
    let (hole_count, in_ids) = parse_holes(
        params,
        13,
        14,
        "fill_area_style_tiles_hatching_feature holes",
    )?;
    Ok(
        FillAreaStyleTilesFeature {
            style: CommonStyle {
                layer_code: Some(parse_required_i64(&params[0], "layer")?),
                color_code: None,
                line_type_code: None,
                line_width_code: None,
                font_code: None,
            },
            name: parse_required_string(&params[1], "name")?,
            hatch_color: parse_required_i64(&params[2], "hatch_color")?,
            hatch_pattern_position: parse_point_at(params, 3, 4)?,
            out_id: parse_required_i64(&params[12], "out_id")?,
            hatch_pattern_vector1: parse_required_decimal(&params[5], "hatch_pattern_vector1")?,
            hatch_pattern_vector1_angle_deg: parse_required_decimal(
                &params[6],
                "hatch_pattern_vector1_angle",
            )?,
            hatch_pattern_vector2: parse_required_decimal(&params[7], "hatch_pattern_vector2")?,
            hatch_pattern_vector2_angle_deg: parse_required_decimal(
                &params[8],
                "hatch_pattern_vector2_angle",
            )?,
            hatch_pattern_scale_x: parse_required_decimal(&params[9], "hatch_pattern_scale_x")?,
            hatch_pattern_scale_y: parse_required_decimal(&params[10], "hatch_pattern_scale_y")?,
            hatch_pattern_angle_deg: parse_required_decimal(&params[11], "hatch_pattern_angle")?,
            hole_count: Some(hole_count),
            in_ids,
        },
    )
}

/// A hatch line pattern: a list of seven numbers whose first three are whole.
pub open spec fn pattern_ok(v: Value) -> bool {
    match v.spec_as_decimal_list() {
        Some(vs) => vs.len() == 7 && dec_integer(vs[0]) is Some && dec_integer(vs[1]) is Some
            && dec_integer(vs[2]) is Some,
        None => false,
    }
}

pub open spec fn pattern_at(v: Value) -> HatchLinePattern {
    let vs = v.spec_as_decimal_list()->0;
    HatchLinePattern {
        color_code: saturate_i64(dec_integer(vs[0])->0),
        line_type_code: saturate_i64(dec_integer(vs[1])->0),
        line_width_code: saturate_i64(dec_integer(vs[2])->0),
        start: Point2 { x: vs[3], y: vs[4] },
        spacing: vs[5],
        angle_deg: vs[6],
    }
}

fn pattern_message(index: usize, tail: &str) -> (m: String)
    ensures
        m@ == "hatch pattern "@ + nat_text(index as nat) + tail@,
{
    let mut m = string_from_str("hatch pattern ");
    push_usize(&mut m, index);
    push_str(&mut m, tail);
    m
}

/// The checks on hatch line pattern number `index` (counted from 1).
pub open spec fn pattern_checks(v: Value, index: nat) -> Seq<(bool, Seq<char>)> {
    let vs = v.spec_as_decimal_list()->0;
    let head = "hatch pattern "@ + nat_text(index);
    check(v.spec_as_decimal_list() is Some, head + " must be a seven-value numeric list"@) + check(
        vs.len() == 7,
        head + " requires 7 values, got "@ + nat_text(vs.len()),
    ) + check(dec_integer(vs[0]) is Some, head + " "@ + "color code"@ + " must be an integer"@) + check(
        dec_integer(vs[1]) is Some,
        head + " "@ + "line type code"@ + " must be an integer"@,
    ) + check(dec_integer(vs[2]) is Some, head + " "@ + "line width code"@ + " must be an integer"@)
}

/// The checks on the first `n` hatch line patterns, in order.
pub open spec fn patterns_checks_upto(p: Seq<Value>, n: nat) -> Seq<(bool, Seq<char>)>
    decreases n,
{
    if n == 0 {
        Seq::empty()
    } else {
        patterns_checks_upto(p, (n - 1) as nat) + pattern_checks(p[2 + n - 1], n)
    }
}

/// A pattern that fails stays the first failure among more patterns.
proof fn lemma_patterns_failure_kept(p: Seq<Value>, a: nat, b: nat)
    requires
        a <= b,
        first_failure(patterns_checks_upto(p, a)) is Some,
    ensures
        first_failure(patterns_checks_upto(p, b)) == first_failure(patterns_checks_upto(p, a)),
    decreases b,
{
    if a < b {
        lemma_patterns_failure_kept(p, a, (b - 1) as nat);
    }
}

/// The checks decoding a `fill_area_style_hatching_feature` record runs, in order.
pub open spec fn fill_area_style_hatching_feature_checks(p: Seq<Value>) -> Seq<(bool, Seq<char>)> {
    let h = int_at(p, 1)->0;
    check(
        p.len() >= 6,
        "fill_area_style_hatching_feature requires at least 6 parameters, got "@ + nat_text(p.len()),
    ) + int_check(p, 1, "hatch_number"@) + check(
        0 <= h <= usize::MAX,
        "hatch_number must be a non-negative integer"@,
    ) + check(
        h <= p.len() && p.len() - h == 5,
        "fill_area_style_hatching_feature requires exactly "@ + nat_text((h + 5) as nat) + " parameters for "@
            + nat_text(h as nat) + " hatch patterns, got "@ + nat_text(p.len()),
    ) + patterns_checks_upto(p, h as nat) + holes_checks(p, h + 3, h + 4, "fill_area_style_hatching_feature holes"@)
        + int_check(p, 0, "layer"@) + int_check(p, h + 2, "out_id"@)
}

fn pattern_code(d: Decimal, index: usize, name: &str) -> (r: Result<i64, String>)
    ensures
        r is Ok <==> dec_integer(d) is Some,
        r matches Ok(c) ==> c == saturate_i64(dec_integer(d)->0),
        reports(outcome(r), check(
            dec_integer(d) is Some,
            "hatch pattern "@ + nat_text(index as nat) + " "@ + name@ + " must be an integer"@,
        )),
{
    match decimal_to_code(d) {
        Some(c) => Ok(c),
        None => {
            let mut m = pattern_message(index, " ");
            push_str(&mut m, name);
            push_str(&mut m, " must be an integer");
            Err(m)
        },
    }
}

pub(crate) fn parse_hatch_line_pattern(value: &Value, index: usize) -> (r: Result<HatchLinePattern, String>)
    ensures
        r is Ok <==> pattern_ok(*value),
        r matches Ok(h) ==> h == pattern_at(*value),
        reports(outcome(r), pattern_checks(*value, index as nat)),
{
    let values = match value.as_decimal_list() {
        Some(v) => v,
        None => {
            return Err(pattern_message(index, " must be a seven-value numeric list"));
        },
    };
    if values.len() != 7 {
        let mut m = pattern_message(index, " requires 7 values, got ");
        push_usize(&mut m, values.len());
        return Err(m);
    }
    Ok(
        HatchLinePattern {
            color_code: pattern_code(values[0], index, "color code")?,
            line_type_code: pattern_code(values[1], index, "line type code")?,
            line_width_code: pattern_code(values[2], index, "line width code")?,
            start: Point2 { x: values[3], y: values[4] },
            spacing: values[5],
            angle_deg: values[6],
        },
    )
}

pub open spec fn hatching_ok(p: Seq<Value>) -> bool {
    &&& p.len() >= 6
    &&& int_at(p, 1) is Some
    &&& 0 <= int_at(p, 1)->0 <= usize::MAX
    &&& p.len() == int_at(p, 1)->0 + 5
    &&& forall|i: int| 0 <= i < int_at(p, 1)->0 ==> pattern_ok(#[trigger] p[2 + i])
    &&& holes_ok(p, int_at(p, 1)->0 + 3, int_at(p, 1)->0 + 4)
    &&& int_at(p, 0) is Some
    &&& int_at(p, int_at(p, 1)->0 + 2) is Some
}

pub open spec fn hatching_is(p: Seq<Value>, f: FillAreaStyleHatchingFeature) -> bool {
    let h = int_at(p, 1)->0;
    &&& f.style == (CommonStyle {
        layer_code: code_at(p, 0),
        color_code: None,
        line_type_code: None,
        line_width_code: None,
        font_code: None,
    })
    &&& f.hatch_number == code_at(p, 1)->0
    &&& same_values(p.subrange(2, 2 + h), f.hatch_patterns@)
    &&& f.patterns@.len() == h
    &&& forall|i: int| 0 <= i < h ==> #[trigger] f.patterns@[i] == pattern_at(p[2 + i])
    &&& f.out_id == code_at(p, h + 2)->0
    &&& f.hole_count == Some(int_at(p, h + 3)->0 as usize)
    &&& ints_view(f.in_ids@) == ilist_at(p, h + 4)->0
}

pub(crate) fn parse_fill_area_style_hatching_feature(params: &[Value]) -> (r: Result<
    FillAreaStyleHatchingFeature,
    String,
>)
    ensures
        r is Ok <==> hatching_ok(params@),
        r matches Ok(f) ==> hatching_is(params@, f),
        reports(outcome(r), fill_area_style_hatching_feature_checks(params@)),
{
    if params.len() < 6 {
        let mut m = string_from_str(
            "fill_area_style_hatching_feature requires at least 6 parameters, got ",
        );
        push_usize(&mut m, params.len());
        return Err(m);
    }
    let hatch_number = parse_required_i64(&params[1], "hatch_number")?;
    let hatch_count = match usize_from_i64(hatch_number) {
        Some(c) => c,
        None => {
            return Err(string_from_str("hatch_number must be a non-negative integer"));
        },
    };
    if hatch_count > params.len() || params.len() - hatch_count != 5 {
        let mut m = string_from_str("fill_area_style_hatching_feature requires exactly ");
        push_u64(&mut m, hatch_number as u64 + 5);
        push_str(&mut m, " parameters for ");
        push_usize(&mut m, hatch_count);
        push_str(&mut m, " hatch patterns, got ");
        push_usize(&mut m, params.len());
        return Err(m);
    }
    let hatch_end: usize = 2 + hatch_count;
    let raw_patterns = clone_values_range(params, 2, hatch_end);
    let mut patterns: Vec<HatchLinePattern> = Vec::new();
    let mut i: usize = 0;
    while i < hatch_count
        invariant
            hatch_end == 2 + hatch_count,
            params@.len() == hatch_count + 5,
            hatch_count as int == int_at(params@, 1)->0,
            i <= hatch_count,
            patterns@.len() == i,
            forall|k: int| 0 <= k < i ==> pattern_ok(#[trigger] params@[2 + k]),
            forall|k: int| 0 <= k < i ==> #[trigger] patterns@[k] == pattern_at(params@[2 + k]),
            first_failure(patterns_checks_upto(params@, i as nat)) is None,
            params@.len() >= 6,
            int_at(params@, 1) is Some,
        decreases hatch_count - i,
    {
        let res = parse_hatch_line_pattern(&params[2 + i], i + 1);
        proof {
            assert(patterns_checks_upto(params@, (i + 1) as nat) == patterns_checks_upto(params@, i as nat)
                + pattern_checks(params@[2 + i], (i + 1) as nat));
            if res is Err {
                lemma_patterns_failure_kept(params@, (i + 1) as nat, hatch_count as nat);
            }
        }
        let pattern = res?;
        patterns.push(pattern);
        i = i + 1;
    }
    let (hole_count, in_ids) = parse_holes(
        params,
        hatch_end + 1,
        hatch_end + 2,
        "fill_area_style_hatching_feature holes",
    )?;
    Ok(
        FillAreaStyleHatchingFeature {
            style: CommonStyle {
                layer_code: Some(parse_required_i64(&params[0], "layer")?),
                color_code: None,
                line_type_code: None,
                line_width_code: None,
                font_code: None,
            },
            hatch_number,
            hatch_patterns: raw_patterns,
            patterns,
            out_id: parse_required_i64(&params[hatch_end], "out_id")?,
            hole_count: Some(hole_count),
            in_ids,
        },
    )
}


// ---------------------------------------------------------------- dispatch by keyword

/// Whether a lower-cased keyword names a supported feature.
pub open spec fn known_feature_keyword(k: Seq<char>) -> bool {
    k == "drawing_attribute_feature"@ ||
    k == "drawing_sheet_feature"@ ||
    k == "layer_feature"@ ||
    k == "pre_defined_font_feature"@ ||
    k == "user_defined_font_feature"@ ||
    k == "pre_defined_colour_feature"@ ||
    k == "user_defined_colour_feature"@ ||
    k == "width_feature"@ ||
    k == "text_font_feature"@ ||
    k == "sfig_org_feature"@ ||
    k == "sfig_locate_feature"@ ||
    k == "symbol_externally_defined_feature"@ || k == "externally_defined_symbol_feature"@ ||
    k == "linear_dim_feature"@ ||
    k == "curve_dim_feature"@ ||
    k == "angular_dim_feature"@ ||
    k == "radius_dim_feature"@ ||
    k == "diameter_dim_feature"@ ||
    k == "label_feature"@ ||
    k == "balloon_feature"@ ||
    k == "externally_defined_hatch_feature"@ ||
    k == "fill_area_style_colour_feature"@ ||
    k == "fill_area_style_hatching_feature"@ ||
    k == "fill_area_style_tiles_hatching_feature"@ || k == "fill_area_style_tiles_feature"@ ||
    k == "point_marker_feature"@ ||
    k == "line_feature"@ ||
    k == "polyline_feature"@ ||
    k == "circle_feature"@ ||
    k == "arc_feature"@ ||
    k == "ellipse_feature"@ ||
    k == "ellipse_arc_feature"@ ||
    k == "text_string_feature"@ ||
    k == "spline_feature"@ ||
    k == "clothoid_feature"@ ||
    k == "composite_curve_feature"@ || k == "composite_curve_org_feature"@
}

/// The parameters are complete and well-typed for the feature `k` names.
pub open spec fn feature_params_ok(k: Seq<char>, p: Seq<Value>) -> bool {
    if k == "drawing_attribute_feature"@ {
        drawing_attribute_ok(p)
    } else if k == "drawing_sheet_feature"@ {
        drawing_sheet_ok(p)
    } else if k == "layer_feature"@ {
        name_flag_ok(p)
    } else if k == "pre_defined_font_feature"@ {
        name_only_ok(p)
    } else if k == "user_defined_font_feature"@ {
        user_defined_font_ok(p)
    } else if k == "pre_defined_colour_feature"@ {
        name_only_ok(p)
    } else if k == "user_defined_colour_feature"@ {
        user_defined_colour_ok(p)
    } else if k == "width_feature"@ {
        (p.len() == 1 && dec_at(p, 0) is Some)
    } else if k == "text_font_feature"@ {
        name_only_ok(p)
    } else if k == "sfig_org_feature"@ {
        name_flag_ok(p)
    } else if k == "sfig_locate_feature"@ {
        sfig_locate_ok(p)
    } else if k == "symbol_externally_defined_feature"@ || k == "externally_defined_symbol_feature"@ {
        symbol_ok(p)
    } else if k == "linear_dim_feature"@ {
        linear_dim_ok(p)
    } else if k == "curve_dim_feature"@ {
        arc_dim_ok(p)
    } else if k == "angular_dim_feature"@ {
        arc_dim_ok(p)
    } else if k == "radius_dim_feature"@ {
        radius_dim_ok(p)
    } else if k == "diameter_dim_feature"@ {
        diameter_dim_ok(p)
    } else if k == "label_feature"@ {
        label_ok(p)
    } else if k == "balloon_feature"@ {
        balloon_ok(p)
    } else if k == "externally_defined_hatch_feature"@ {
        ext_hatch_ok(p)
    } else if k == "fill_area_style_colour_feature"@ {
        fill_colour_ok(p)
    } else if k == "fill_area_style_hatching_feature"@ {
        hatching_ok(p)
    } else if k == "fill_area_style_tiles_hatching_feature"@ || k == "fill_area_style_tiles_feature"@ {
        tiles_ok(p)
    } else if k == "point_marker_feature"@ {
        point_marker_ok(p)
    } else if k == "line_feature"@ {
        line_ok(p)
    } else if k == "polyline_feature"@ {
        polyline_ok(p)
    } else if k == "circle_feature"@ {
        circle_ok(p)
    } else if k == "arc_feature"@ {
        arc_ok(p)
    } else if k == "ellipse_feature"@ {
        ellipse_ok(p)
    } else if k == "ellipse_arc_feature"@ {
        ellipse_arc_ok(p)
    } else if k == "text_string_feature"@ {
        text_feature_ok(p)
    } else if k == "spline_feature"@ {
        spline_ok(p)
    } else if k == "clothoid_feature"@ {
        clothoid_ok(p)
    } else if k == "composite_curve_feature"@ || k == "composite_curve_org_feature"@ {
        (p.len() == 4 && int_at(p, 3) is Some)
    } else {
        false
    }
}

/// The checks decoding the parameters of the feature `k` names runs, in
/// order.
pub open spec fn feature_decode_checks(k: Seq<char>, p: Seq<Value>) -> Seq<(bool, Seq<char>)> {
    if k == "drawing_attribute_feature"@ {
        drawing_attribute_feature_checks(p)
    } else if k == "drawing_sheet_feature"@ {
        drawing_sheet_feature_checks(p)
    } else if k == "layer_feature"@ {
        layer_feature_checks(p)
    } else if k == "pre_defined_font_feature"@ {
        pre_defined_font_feature_checks(p)
    } else if k == "user_defined_font_feature"@ {
        user_defined_font_feature_checks(p)
    } else if k == "pre_defined_colour_feature"@ {
        pre_defined_colour_feature_checks(p)
    } else if k == "user_defined_colour_feature"@ {
        user_defined_colour_feature_checks(p)
    } else if k == "width_feature"@ {
        width_feature_checks(p)
    } else if k == "text_font_feature"@ {
        text_font_feature_checks(p)
    } else if k == "sfig_org_feature"@ {
        sfig_org_feature_checks(p)
    } else if k == "sfig_locate_feature"@ {
        sfig_locate_feature_checks(p)
    } else if k == "symbol_externally_defined_feature"@ || k == "externally_defined_symbol_feature"@ {
        externally_defined_symbol_feature_checks(p)
    } else if k == "linear_dim_feature"@ {
        linear_dim_feature_checks(p)
    } else if k == "curve_dim_feature"@ {
        curve_dim_feature_checks(p)
    } else if k == "angular_dim_feature"@ {
        angular_dim_feature_checks(p)
    } else if k == "radius_dim_feature"@ {
        radius_dim_feature_checks(p)
    } else if k == "diameter_dim_feature"@ {
        diameter_dim_feature_checks(p)
    } else if k == "label_feature"@ {
        label_feature_checks(p)
    } else if k == "balloon_feature"@ {
        balloon_feature_checks(p)
    } else if k == "externally_defined_hatch_feature"@ {
        externally_defined_hatch_feature_checks(p)
    } else if k == "fill_area_style_colour_feature"@ {
        fill_area_style_colour_feature_checks(p)
    } else if k == "fill_area_style_hatching_feature"@ {
        fill_area_style_hatching_feature_checks(p)
    } else if k == "fill_area_style_tiles_hatching_feature"@ || k == "fill_area_style_tiles_feature"@ {
        fill_area_style_tiles_feature_checks(p)
    } else if k == "point_marker_feature"@ {
        point_marker_feature_checks(p)
    } else if k == "line_feature"@ {
        line_feature_checks(p)
    } else if k == "polyline_feature"@ {
        polyline_feature_checks(p)
    } else if k == "circle_feature"@ {
        circle_feature_checks(p)
    } else if k == "arc_feature"@ {
        arc_feature_checks(p)
    } else if k == "ellipse_feature"@ {
        ellipse_feature_checks(p)
    } else if k == "ellipse_arc_feature"@ {
        ellipse_arc_feature_checks(p)
    } else if k == "text_string_feature"@ {
        text_feature_checks(p)
    } else if k == "spline_feature"@ {
        spline_feature_checks(p)
    } else if k == "clothoid_feature"@ {
        clothoid_feature_checks(p)
    } else if k == "composite_curve_feature"@ || k == "composite_curve_org_feature"@ {
        composite_curve_feature_checks(p)
    } else {
        Seq::empty()
    }
}

/// `f` is the feature `k` names, decoded from `p`.
pub open spec fn feature_decoded(k: Seq<char>, p: Seq<Value>, f: TypedFeature) -> bool {
    if k == "drawing_attribute_feature"@ {
        f matches TypedFeature::DrawingAttribute(v) && drawing_attribute_is(p, v)
    } else if k == "drawing_sheet_feature"@ {
        f matches TypedFeature::DrawingSheet(v) && drawing_sheet_is(p, v)
    } else if k == "layer_feature"@ {
        f matches TypedFeature::Layer(v) && layer_is(p, v)
    } else if k == "pre_defined_font_feature"@ {
        f matches TypedFeature::PreDefinedFont(v) && v.name@ == str_at(p, 0)->0
    } else if k == "user_defined_font_feature"@ {
        f matches TypedFeature::UserDefinedFont(v) && user_defined_font_is(p, v)
    } else if k == "pre_defined_colour_feature"@ {
        f matches TypedFeature::PreDefinedColour(v) && v.name@ == str_at(p, 0)->0
    } else if k == "user_defined_colour_feature"@ {
        f matches TypedFeature::UserDefinedColour(v) && v == (UserDefinedColourFeature { red: code_at(p, 0)->0, green: code_at(p, 1)->0, blue: code_at(p, 2)->0 })
    } else if k == "width_feature"@ {
        f matches TypedFeature::Width(v) && v == (WidthFeature { width: dec_at(p, 0)->0 })
    } else if k == "text_font_feature"@ {
        f matches TypedFeature::TextFont(v) && v.name@ == str_at(p, 0)->0
    } else if k == "sfig_org_feature"@ {
        f matches TypedFeature::SfigOrg(v) && sfig_org_is(p, v)
    } else if k == "sfig_locate_feature"@ {
        f matches TypedFeature::SfigLocate(v) && sfig_locate_is(p, v)
    } else if k == "symbol_externally_defined_feature"@ || k == "externally_defined_symbol_feature"@ {
        f matches TypedFeature::ExternallyDefinedSymbol(v) && symbol_is(p, v)
    } else if k == "linear_dim_feature"@ {
        f matches TypedFeature::LinearDim(v) && linear_dim_is(p, v)
    } else if k == "curve_dim_feature"@ {
        f matches TypedFeature::CurveDim(v) && curve_dim_is(p, v)
    } else if k == "angular_dim_feature"@ {
        f matches TypedFeature::AngularDim(v) && angular_dim_is(p, v)
    } else if k == "radius_dim_feature"@ {
        f matches TypedFeature::RadiusDim(v) && radius_dim_is(p, v)
    } else if k == "diameter_dim_feature"@ {
        f matches TypedFeature::DiameterDim(v) && diameter_dim_is(p, v)
    } else if k == "label_feature"@ {
        f matches TypedFeature::Label(v) && label_is(p, v)
    } else if k == "balloon_feature"@ {
        f matches TypedFeature::Balloon(v) && balloon_is(p, v)
    } else if k == "externally_defined_hatch_feature"@ {
        f matches TypedFeature::ExternallyDefinedHatch(v) && ext_hatch_is(p, v)
    } else if k == "fill_area_style_colour_feature"@ {
        f matches TypedFeature::FillAreaStyleColour(v) && fill_colour_is(p, v)
    } else if k == "fill_area_style_hatching_feature"@ {
        f matches TypedFeature::FillAreaStyleHatching(v) && hatching_is(p, v)
    } else if k == "fill_area_style_tiles_hatching_feature"@ || k == "fill_area_style_tiles_feature"@ {
        f matches TypedFeature::FillAreaStyleTiles(v) && tiles_is(p, v)
    } else if k == "point_marker_feature"@ {
        f matches TypedFeature::PointMarker(v) && point_marker_is(p, v)
    } else if k == "line_feature"@ {
        f matches TypedFeature::Line(v) && line_is(p, v)
    } else if k == "polyline_feature"@ {
        f matches TypedFeature::Polyline(v) && polyline_is(p, v)
    } else if k == "circle_feature"@ {
        f matches TypedFeature::Circle(v) && v == (CircleFeature { style: line_style_at(p), center: pt_at(p, 4, 5), radius: dec_at(p, 6)->0 })
    } else if k == "arc_feature"@ {
        f matches TypedFeature::Arc(v) && v == (ArcFeature { style: line_style_at(p), center: pt_at(p, 4, 5), radius: dec_at(p, 6)->0, direction_flag: code_at(p, 7)->0, start_angle_deg: dec_at(p, 8)->0, end_angle_deg: dec_at(p, 9)->0 })
    } else if k == "ellipse_feature"@ {
        f matches TypedFeature::Ellipse(v) && v == (EllipseFeature { style: line_style_at(p), center: pt_at(p, 4, 5), radius_x: dec_at(p, 6)->0, radius_y: dec_at(p, 7)->0, rotation_angle_deg: dec_at(p, 8)->0 })
    } else if k == "ellipse_arc_feature"@ {
        f matches TypedFeature::EllipseArc(v) && v == (EllipseArcFeature { style: line_style_at(p), center: pt_at(p, 4, 5), radius_x: dec_at(p, 6)->0, radius_y: dec_at(p, 7)->0, direction_flag: code_at(p, 8)->0, rotation_angle_deg: dec_at(p, 9)->0, start_angle_deg: dec_at(p, 10)->0, end_angle_deg: dec_at(p, 11)->0 })
    } else if k == "text_string_feature"@ {
        f matches TypedFeature::Text(v) && text_feature_is(p, v)
    } else if k == "spline_feature"@ {
        f matches TypedFeature::Spline(v) && spline_is(p, v)
    } else if k == "clothoid_feature"@ {
        f matches TypedFeature::Clothoid(v) && v == (ClothoidFeature { style: line_style_at(p), base: pt_at(p, 4, 5), parameter: dec_at(p, 6)->0, direction_flag: code_at(p, 7)->0, angle_deg: dec_at(p, 8)->0, start_length: dec_at(p, 9)->0, end_length: dec_at(p, 10)->0 })
    } else if k == "composite_curve_feature"@ || k == "composite_curve_org_feature"@ {
        f matches TypedFeature::CompositeCurve(v) && v == (CompositeCurveFeature { style: CommonStyle { layer_code: None, color_code: opt_code(int_at(p, 0)), line_type_code: opt_code(int_at(p, 1)), line_width_code: opt_code(int_at(p, 2)), font_code: None }, visibility_flag: code_at(p, 3)->0 })
    } else {
        false
    }
}

/// Decodes a feature record by its keyword (case-insensitive); `None` for a
/// keyword that names no supported feature.
pub(crate) fn parse_typed_feature(record: &Record) -> (r: Option<Result<TypedFeature, String>>)
    ensures
        r is None <==> !known_feature_keyword(lower_seq(record.keyword@)),
        r matches Some(res) ==> (res is Ok <==> feature_params_ok(
            lower_seq(record.keyword@),
            record.parameters@,
        )),
        r matches Some(Ok(f)) ==> feature_decoded(
            lower_seq(record.keyword@),
            record.parameters@,
            f,
        ),
        r matches Some(res) ==> reports(
            outcome(res),
            feature_decode_checks(lower_seq(record.keyword@), record.parameters@),
        ),
{
    let k = lowercase_chars(record.keyword.as_str());
    let k = k.as_slice();
    let params = record.parameters.as_slice();
    if slice_eq_str(k, "drawing_attribute_feature") {
        Some(
            match parse_drawing_attribute_feature(params) {
                Ok(v) => Ok(TypedFeature::DrawingAttribute(v)),
                Err(m) => Err(m),
            },
        )
    } else if slice_eq_str(k, "drawing_sheet_feature") {
        Some(
            match parse_drawing_sheet_feature(params) {
                Ok(v) => Ok(TypedFeature::DrawingSheet(v)),
                Err(m) => Err(m),
            },
        )
    } else if slice_eq_str(k, "layer_feature") {
        Some(
            match parse_layer_feature(params) {
                Ok(v) => Ok(TypedFeature::Layer(v)),
                Err(m) => Err(m),
            },
        )
    } else if slice_eq_str(k, "pre_defined_font_feature") {
        Some(
            match parse_pre_defined_font_feature(params) {
                Ok(v) => Ok(TypedFeature::PreDefinedFont(v)),
                Err(m) => Err(m),
            },
        )
    } else if slice_eq_str(k, "user_defined_font_feature") {
        Some(
            match parse_user_defined_font_feature(params) {
                Ok(v) => Ok(TypedFeature::UserDefinedFont(v)),
                Err(m) => Err(m),
            },
        )
    } else if slice_eq_str(k, "pre_defined_colour_feature") {
        Some(
            match parse_pre_defined_colour_feature(params) {
                Ok(v) => Ok(TypedFeature::PreDefinedColour(v)),
                Err(m) => Err(m),
            },
        )
    } else if slice_eq_str(k, "user_defined_colour_feature") {
        Some(
            match parse_user_defined_colour_feature(params) {
                Ok(v) => Ok(TypedFeature::UserDefinedColour(v)),
                Err(m) => Err(m),
            },
        )
    } else if slice_eq_str(k, "width_feature") {
        Some(
            match parse_width_feature(params) {
                Ok(v) => Ok(TypedFeature::Width(v)),
                Err(m) => Err(m),
            },
        )
    } else if slice_eq_str(k, "text_font_feature") {
        Some(
            match parse_text_font_feature(params) {
                Ok(v) => Ok(TypedFeature::TextFont(v)),
                Err(m) => Err(m),
            },
        )
    } else if slice_eq_str(k, "sfig_org_feature") {
        Some(
            match parse_sfig_org_feature(params) {
                Ok(v) => Ok(TypedFeature::SfigOrg(v)),
                Err(m) => Err(m),
            },
        )
    } else if slice_eq_str(k, "sfig_locate_feature") {
        Some(
            match parse_sfig_locate_feature(params) {
                Ok(v) => Ok(TypedFeature::SfigLocate(v)),
                Err(m) => Err(m),
            },
        )
    } else if slice_eq_str(k, "symbol_externally_defined_feature") || slice_eq_str(k, "externally_defined_symbol_feature") {
        Some(
            match parse_externally_defined_symbol_feature(params) {
                Ok(v) => Ok(TypedFeature::ExternallyDefinedSymbol(v)),
                Err(m) => Err(m),
            },
        )
    } else if slice_eq_str(k, "linear_dim_feature") {
        Some(
            match parse_linear_dim_feature(params) {
                Ok(v) => Ok(TypedFeature::LinearDim(v)),
                Err(m) => Err(m),
            },
        )
    } else if slice_eq_str(k, "curve_dim_feature") {
        Some(
            match parse_curve_dim_feature(params) {
                Ok(v) => Ok(TypedFeature::CurveDim(v)),
                Err(m) => Err(m),
            },
        )
    } else if slice_eq_str(k, "angular_dim_feature") {
        Some(
            match parse_angular_dim_feature(params) {
                Ok(v) => Ok(TypedFeature::AngularDim(v)),
                Err(m) => Err(m),
            },
        )
    } else if slice_eq_str(k, "radius_dim_feature") {
        Some(
            match parse_radius_dim_feature(params) {
                Ok(v) => Ok(TypedFeature::RadiusDim(v)),
                Err(m) => Err(m),
            },
        )
    } else if slice_eq_str(k, "diameter_dim_feature") {
        Some(
            match parse_diameter_dim_feature(params) {
                Ok(v) => Ok(TypedFeature::DiameterDim(v)),
                Err(m) => Err(m),
            },
        )
    } else if slice_eq_str(k, "label_feature") {
        Some(
            match parse_label_feature(params) {
                Ok(v) => Ok(TypedFeature::Label(v)),
                Err(m) => Err(m),
            },
        )
    } else if slice_eq_str(k, "balloon_feature") {
        Some(
            match parse_balloon_feature(params) {
                Ok(v) => Ok(TypedFeature::Balloon(v)),
                Err(m) => Err(m),
            },
        )
    } else if slice_eq_str(k, "externally_defined_hatch_feature") {
        Some(
            match parse_externally_defined_hatch_feature(params) {
                Ok(v) => Ok(TypedFeature::ExternallyDefinedHatch(v)),
                Err(m) => Err(m),
            },
        )
    } else if slice_eq_str(k, "fill_area_style_colour_feature") {
        Some(
            match parse_fill_area_style_colour_feature(params) {
                Ok(v) => Ok(TypedFeature::FillAreaStyleColour(v)),
                Err(m) => Err(m),
            },
        )
    } else if slice_eq_str(k, "fill_area_style_hatching_feature") {
        Some(
            match parse_fill_area_style_hatching_feature(params) {
                Ok(v) => Ok(TypedFeature::FillAreaStyleHatching(v)),
                Err(m) => Err(m),
            },
        )
    } else if slice_eq_str(k, "fill_area_style_tiles_hatching_feature") || slice_eq_str(k, "fill_area_style_tiles_feature") {
        Some(
            match parse_fill_area_style_tiles_feature(params) {
                Ok(v) => Ok(TypedFeature::FillAreaStyleTiles(v)),
                Err(m) => Err(m),
            },
        )
    } else if slice_eq_str(k, "point_marker_feature") {
        Some(
            match parse_point_marker_feature(params) {
                Ok(v) => Ok(TypedFeature::PointMarker(v)),
                Err(m) => Err(m),
            },
        )
    } else if slice_eq_str(k, "line_feature") {
        Some(
            match parse_line_feature(params) {
                Ok(v) => Ok(TypedFeature::Line(v)),
                Err(m) => Err(m),
            },
        )
    } else if slice_eq_str(k, "polyline_feature") {
        Some(
            match parse_polyline_feature(params) {
                Ok(v) => Ok(TypedFeature::Polyline(v)),
                Err(m) => Err(m),
            },
        )
    } else if slice_eq_str(k, "circle_feature") {
        Some(
            match parse_circle_feature(params) {
                Ok(v) => Ok(TypedFeature::Circle(v)),
                Err(m) => Err(m),
            },
        )
    } else if slice_eq_str(k, "arc_feature") {
        Some(
            match parse_arc_feature(params) {
                Ok(v) => Ok(TypedFeature::Arc(v)),
                Err(m) => Err(m),
            },
        )
    } else if slice_eq_str(k, "ellipse_feature") {
        Some(
            match parse_ellipse_feature(params) {
                Ok(v) => Ok(TypedFeature::Ellipse(v)),
                Err(m) => Err(m),
            },
        )
    } else if slice_eq_str(k, "ellipse_arc_feature") {
        Some(
            match parse_ellipse_arc_feature(params) {
                Ok(v) => Ok(TypedFeature::EllipseArc(v)),
                Err(m) => Err(m),
            },
        )
    } else if slice_eq_str(k, "text_string_feature") {
        Some(
            match parse_text_feature(params) {
                Ok(v) => Ok(TypedFeature::Text(v)),
                Err(m) => Err(m),
            },
        )
    } else if slice_eq_str(k, "spline_feature") {
        Some(
            match parse_spline_feature(params) {
                Ok(v) => Ok(TypedFeature::Spline(v)),
                Err(m) => Err(m),
            },
        )
    } else if slice_eq_str(k, "clothoid_feature") {
        Some(
            match parse_clothoid_feature(params) {
                Ok(v) => Ok(TypedFeature::Clothoid(v)),
                Err(m) => Err(m),
            },
        )
    } else if slice_eq_str(k, "composite_curve_feature") || slice_eq_str(k, "composite_curve_org_feature") {
        Some(
            match parse_composite_curve_feature(params) {
                Ok(v) => Ok(TypedFeature::CompositeCurve(v)),
                Err(m) => Err(m),
            },
        )
    } else {
        None
    }
}

} // verus!
