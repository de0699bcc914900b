//! Public parser output and the typed SXF feature model.
//!
//! Real numbers are held as exact decimals ([`Decimal`]): the reader only
//! compares them against fixed bounds, and the exact value is what a
//! literal in the file denotes.

use vstd::prelude::*;

verus! {

/// Highest line type code of the common predefined elements.
pub const COMMON_PREDEFINED_LINE_TYPE_MAX_CODE: i64 = 15;

/// Highest line width code of the common predefined elements.
pub const COMMON_PREDEFINED_LINE_WIDTH_MAX_CODE: i64 = 9;

/// Highest colour code of the common predefined elements.
pub const COMMON_PREDEFINED_COLOR_MAX_CODE: i64 = 16;

#[derive(Debug, Clone, Copy, PartialEq, Eq, Structural)]
pub enum FileFormat {
    P21,
    Sfc,
}

impl FileFormat {
    pub fn as_str(self) -> (s: &'static str)
        ensures
            s@ == (match self {
                FileFormat::P21 => "p21"@,
                FileFormat::Sfc => "sfc"@,
            }),
    {
        match self {
            FileFormat::P21 => "p21",
            FileFormat::Sfc => "sfc",
        }
    }
}

#[derive(Debug, Clone, Copy, PartialEq, Eq, Structural)]
pub enum SfcVersionTag {
    V2,
    V3,
    V31,
}

impl SfcVersionTag {
    pub fn as_str(self) -> (s: &'static str)
        ensures
            s@ == (match self {
                SfcVersionTag::V2 => "2"@,
                SfcVersionTag::V3 => "3"@,
                SfcVersionTag::V31 => "3.1"@,
            }),
    {
        match self {
            SfcVersionTag::V2 => "2",
            SfcVersionTag::V3 => "3",
            SfcVersionTag::V31 => "3.1",
        }
    }

    /// The marker that opens and closes a feature block of this version.
    pub open spec fn spec_marker(self) -> Seq<char> {
        match self {
            SfcVersionTag::V2 => "SXF"@,
            SfcVersionTag::V3 => "SXF3"@,
            SfcVersionTag::V31 => "SXF3.1"@,
        }
    }

    pub fn marker(self) -> (s: &'static str)
        ensures
            s@ == self.spec_marker(),
    {
        match self {
            SfcVersionTag::V2 => "SXF",
            SfcVersionTag::V3 => "SXF3",
            SfcVersionTag::V31 => "SXF3.1",
        }
    }

    /// Version rank used to compare a block marker with the declared header version.
    pub open spec fn rank(self) -> int {
        match self {
            SfcVersionTag::V2 => 20,
            SfcVersionTag::V3 => 30,
            SfcVersionTag::V31 => 31,
        }
    }
}

/// The exact decimal number `mantissa * 10^exponent`.
#[derive(Debug, Clone, Copy, PartialEq, Eq, Structural)]
pub struct Decimal {
    pub mantissa: i128,
    pub exponent: i64,
}

#[derive(Debug, PartialEq)]
pub enum Value {
    Unset,
    Omitted,
    Integer(i64),
    Real(Decimal),
    String(String),
    Enum(String),
    Reference(i64),
    Binary(String),
    List(Vec<Value>),
    Typed { keyword: String, parameters: Vec<Value> },
}

#[derive(Debug, PartialEq)]
pub struct Record {
    pub keyword: String,
    pub parameters: Vec<Value>,
}

#[derive(Debug, PartialEq)]
pub enum EntityBody {
    Simple(Record),
    Complex(Vec<Record>),
}

#[derive(Debug, PartialEq)]
pub struct EntityInstance {
    pub id: i64,
    pub body: EntityBody,
    pub sfc_version: Option<SfcVersionTag>,
}

#[derive(Debug, PartialEq)]
pub struct HeaderSection {
    pub entities: Vec<Record>,
}

#[derive(Debug, PartialEq)]
pub struct ParsedDocument {
    pub format: FileFormat,
    pub header: HeaderSection,
    pub entities: Vec<EntityInstance>,
    pub typed_features: Vec<TypedFeatureInstance>,
    pub sfc_model: Option<SfcModel>,
}

#[derive(Debug, PartialEq)]
pub struct TypedFeatureInstance {
    pub id: i64,
    pub keyword: String,
    pub feature: TypedFeature,
}

#[derive(Debug, Clone, Copy, PartialEq, Eq, Structural)]
pub struct SfcCodeBinding {
    pub code: i64,
    pub entity_id: i64,
}

#[derive(Debug, Clone, PartialEq, Eq)]
pub struct SfcCodeTables {
    pub layers: Vec<SfcCodeBinding>,
    pub line_types: Vec<SfcCodeBinding>,
    pub colors: Vec<SfcCodeBinding>,
    pub line_widths: Vec<SfcCodeBinding>,
    pub text_fonts: Vec<SfcCodeBinding>,
}

#[derive(Debug, Clone, PartialEq, Eq)]
pub struct SfcSheetModel {
    pub entity_id: i64,
    pub component_ids: Vec<i64>,
}

#[derive(Debug, Clone, PartialEq, Eq)]
pub struct SfcSfigDefinition {
    pub entity_id: i64,
    pub name: String,
    pub kind_flag: i64,
    pub component_ids: Vec<i64>,
}

#[derive(Debug, Clone, PartialEq, Eq)]
pub enum SfcAttributeMechanism {
    AttributeFile { figure_id: String, attribute_file_name: Option<String> },
    SingleAttribute {
        figure_id: String,
        figure_name: Option<String>,
        attribute_name: Option<String>,
        attribute_value: Option<String>,
        attribute_type: Option<String>,
        unit: Option<String>,
    },
    TextAttribute {
        figure_id: String,
        attribute_name: String,
        attribute_type: Option<String>,
        unit: Option<String>,
    },
}

#[derive(Debug, Clone, PartialEq, Eq)]
pub struct SfcAttributeAttachment {
    pub definition_id: i64,
    pub name: String,
    pub kind_flag: i64,
    pub component_ids: Vec<i64>,
    pub placement_ids: Vec<i64>,
    pub mechanism: SfcAttributeMechanism,
    pub resolved_attribute_file_name: Option<String>,
}

#[derive(Debug, Clone, PartialEq, Eq)]
pub struct SfcCompositeCurveDefinition {
    pub code: i64,
    pub entity_id: i64,
    pub component_ids: Vec<i64>,
}

#[derive(Debug, Clone, Copy, PartialEq, Eq, Structural)]
pub struct SfcSfigReference {
    pub placement_id: i64,
    pub definition_id: i64,
}

#[derive(Debug, Clone, PartialEq, Eq)]
pub struct SfcHatchReference {
    pub hatch_id: i64,
    pub outer_definition_id: i64,
    pub inner_definition_ids: Vec<i64>,
}

#[derive(Debug, Clone, PartialEq, Eq)]
pub struct SfcModel {
    pub code_tables: SfcCodeTables,
    pub sheet: Option<SfcSheetModel>,
    pub sfig_definitions: Vec<SfcSfigDefinition>,
    pub attribute_attachments: Vec<SfcAttributeAttachment>,
    pub composite_curve_definitions: Vec<SfcCompositeCurveDefinition>,
    pub sfig_references: Vec<SfcSfigReference>,
    pub hatch_references: Vec<SfcHatchReference>,
}

#[derive(Debug, Clone, Copy, PartialEq, Eq, Structural)]
pub struct CommonStyle {
    pub layer_code: Option<i64>,
    pub color_code: Option<i64>,
    pub line_type_code: Option<i64>,
    pub line_width_code: Option<i64>,
    pub font_code: Option<i64>,
}

#[derive(Debug, Clone, Copy, PartialEq, Eq, Structural)]
pub struct Point2 {
    pub x: Decimal,
    pub y: Decimal,
}

#[derive(Debug, Clone, Copy, PartialEq, Eq, Structural)]
pub struct ExtensionLine {
    pub present_flag: i64,
    pub base: Point2,
    pub start: Point2,
    pub end: Point2,
}

#[derive(Debug, Clone, Copy, PartialEq, Eq, Structural)]
pub struct DimensionArrow {
    pub code: i64,
    pub direction_flag: i64,
    pub position: Point2,
    pub scale: Decimal,
}

#[derive(Debug, Clone, Copy, PartialEq, Eq, Structural)]
pub struct LeaderArrow {
    pub code: i64,
    pub scale: Decimal,
}

#[derive(Debug, Clone, PartialEq)]
pub struct FeatureText {
    pub present_flag: i64,
    pub font_code: i64,
    pub text: String,
    pub anchor: Point2,
    pub height: Decimal,
    pub width: Decimal,
    pub spacing: Decimal,
    pub angle_deg: Decimal,
    pub slant_deg: Decimal,
    pub base_point: i64,
    pub direction: i64,
}

#[derive(Debug, Clone, PartialEq)]
pub struct LineFeature {
    pub style: CommonStyle,
    pub start: Point2,
    pub end: Point2,
}

#[derive(Debug, Clone, PartialEq)]
pub struct PolylineFeature {
    pub style: CommonStyle,
    pub declared_point_count: Option<usize>,
    pub points: Vec<Point2>,
}

#[derive(Debug, Clone, PartialEq)]
pub struct CircleFeature {
    pub style: CommonStyle,
    pub center: Point2,
    pub radius: Decimal,
}

#[derive(Debug, Clone, PartialEq)]
pub struct ArcFeature {
    pub style: CommonStyle,
    pub center: Point2,
    pub radius: Decimal,
    pub direction_flag: i64,
    pub start_angle_deg: Decimal,
    pub end_angle_deg: Decimal,
}

#[derive(Debug, Clone, PartialEq)]
pub struct TextFeature {
    pub style: CommonStyle,
    pub text: String,
    pub anchor: Point2,
    pub height: Decimal,
    pub width: Decimal,
    pub spacing: Decimal,
    pub angle_deg: Decimal,
    pub slant_deg: Decimal,
    pub base_point: i64,
    pub direction: i64,
}

#[derive(Debug, Clone, PartialEq)]
pub struct PointMarkerFeature {
    pub style: CommonStyle,
    pub position: Point2,
    pub marker_code: i64,
    pub rotation_angle_deg: Decimal,
    pub scale: Decimal,
}

#[derive(Debug, Clone, PartialEq)]
pub struct EllipseFeature {
    pub style: CommonStyle,
    pub center: Point2,
    pub radius_x: Decimal,
    pub radius_y: Decimal,
    pub rotation_angle_deg: Decimal,
}

#[derive(Debug, Clone, PartialEq)]
pub struct EllipseArcFeature {
    pub style: CommonStyle,
    pub center: Point2,
    pub radius_x: Decimal,
    pub radius_y: Decimal,
    pub direction_flag: i64,
    pub rotation_angle_deg: Decimal,
    pub start_angle_deg: Decimal,
    pub end_angle_deg: Decimal,
}

#[derive(Debug, Clone, PartialEq)]
pub struct SplineFeature {
    pub style: CommonStyle,
    pub open_close: i64,
    pub declared_point_count: Option<usize>,
    pub points: Vec<Point2>,
}

#[derive(Debug, Clone, PartialEq)]
pub struct ClothoidFeature {
    pub style: CommonStyle,
    pub base: Point2,
    pub parameter: Decimal,
    pub direction_flag: i64,
    pub angle_deg: Decimal,
    pub start_length: Decimal,
    pub end_length: Decimal,
}

#[derive(Debug, Clone, PartialEq)]
pub struct SfigOrgFeature {
    pub name: String,
    pub kind_flag: i64,
}

#[derive(Debug, Clone, PartialEq)]
pub struct SfigLocateFeature {
    pub style: CommonStyle,
    pub name: String,
    pub position: Point2,
    pub angle_deg: Decimal,
    pub ratio_x: Decimal,
    pub ratio_y: Decimal,
}

#[derive(Debug, Clone, PartialEq)]
pub struct ExternallyDefinedSymbolFeature {
    pub style: CommonStyle,
    pub color_flag: i64,
    pub name: String,
    pub position: Point2,
    pub rotation_angle_deg: Decimal,
    pub scale: Decimal,
}

#[derive(Debug, PartialEq)]
pub struct LinearDimFeature {
    pub style: CommonStyle,
    pub start: Point2,
    pub end: Point2,
    pub extension_line1: ExtensionLine,
    pub extension_line2: ExtensionLine,
    pub arrow1: DimensionArrow,
    pub arrow2: DimensionArrow,
    pub text: FeatureText,
    pub raw_parameters: Vec<Value>,
}

#[derive(Debug, PartialEq)]
pub struct CurveDimFeature {
    pub style: CommonStyle,
    pub center: Point2,
    pub radius: Decimal,
    pub start_angle_deg: Decimal,
    pub end_angle_deg: Decimal,
    pub extension_line1: ExtensionLine,
    pub extension_line2: ExtensionLine,
    pub arrow1: DimensionArrow,
    pub arrow2: DimensionArrow,
    pub text: FeatureText,
    pub raw_parameters: Vec<Value>,
}

#[derive(Debug, PartialEq)]
pub struct AngularDimFeature {
    pub style: CommonStyle,
    pub center: Point2,
    pub radius: Decimal,
    pub start_angle_deg: Decimal,
    pub end_angle_deg: Decimal,
    pub extension_line1: ExtensionLine,
    pub extension_line2: ExtensionLine,
    pub arrow1: DimensionArrow,
    pub arrow2: DimensionArrow,
    pub text: FeatureText,
    pub raw_parameters: Vec<Value>,
}

#[derive(Debug, PartialEq)]
pub struct RadiusDimFeature {
    pub style: CommonStyle,
    pub start: Point2,
    pub end: Point2,
    pub arrow: DimensionArrow,
    pub text: FeatureText,
    pub raw_parameters: Vec<Value>,
}

#[derive(Debug, PartialEq)]
pub struct DiameterDimFeature {
    pub style: CommonStyle,
    pub start: Point2,
    pub end: Point2,
    pub arrow1: DimensionArrow,
    pub arrow2: DimensionArrow,
    pub text: FeatureText,
    pub raw_parameters: Vec<Value>,
}

#[derive(Debug, Clone, PartialEq)]
pub struct LabelFeature {
    pub style: CommonStyle,
    pub declared_vertex_count: Option<usize>,
    pub vertices: Vec<Point2>,
    pub arrow: LeaderArrow,
    pub text: FeatureText,
}

#[derive(Debug, Clone, PartialEq)]
pub struct BalloonFeature {
    pub style: CommonStyle,
    pub declared_vertex_count: Option<usize>,
    pub vertices: Vec<Point2>,
    pub center: Point2,
    pub radius: Decimal,
    pub arrow: LeaderArrow,
    pub text: FeatureText,
}

#[derive(Debug, Clone, Copy, PartialEq, Eq, Structural)]
pub struct HatchLinePattern {
    pub color_code: i64,
    pub line_type_code: i64,
    pub line_width_code: i64,
    pub start: Point2,
    pub spacing: Decimal,
    pub angle_deg: Decimal,
}

#[derive(Debug, Clone, PartialEq)]
pub struct ExternallyDefinedHatchFeature {
    pub style: CommonStyle,
    pub name: String,
    pub out_id: i64,
    pub hole_count: Option<usize>,
    pub in_ids: Vec<i64>,
}

#[derive(Debug, Clone, PartialEq)]
pub struct FillAreaStyleColourFeature {
    pub style: CommonStyle,
    pub out_id: i64,
    pub hole_count: Option<usize>,
    pub in_ids: Vec<i64>,
}

#[derive(Debug, PartialEq)]
pub struct FillAreaStyleHatchingFeature {
    pub style: CommonStyle,
    pub hatch_number: i64,
    pub hatch_patterns: Vec<Value>,
    pub patterns: Vec<HatchLinePattern>,
    pub out_id: i64,
    pub hole_count: Option<usize>,
    pub in_ids: Vec<i64>,
}

#[derive(Debug, Clone, PartialEq)]
pub struct FillAreaStyleTilesFeature {
    pub style: CommonStyle,
    pub name: String,
    pub hatch_color: i64,
    pub hatch_pattern_position: Point2,
    pub out_id: i64,
    pub hatch_pattern_vector1: Decimal,
    pub hatch_pattern_vector1_angle_deg: Decimal,
    pub hatch_pattern_vector2: Decimal,
    pub hatch_pattern_vector2_angle_deg: Decimal,
    pub hatch_pattern_scale_x: Decimal,
    pub hatch_pattern_scale_y: Decimal,
    pub hatch_pattern_angle_deg: Decimal,
    pub hole_count: Option<usize>,
    pub in_ids: Vec<i64>,
}

#[derive(Debug, Clone, PartialEq)]
pub struct CompositeCurveFeature {
    pub style: CommonStyle,
    pub visibility_flag: i64,
}

#[derive(Debug, Clone, PartialEq)]
pub struct DrawingSheetFeature {
    pub name: String,
    pub sheet_type: i64,
    pub orientation: i64,
    pub free_x_mm: i64,
    pub free_y_mm: i64,
}

#[derive(Debug, Clone, PartialEq)]
pub struct LayerFeature {
    pub name: String,
    pub visibility_flag: i64,
}

#[derive(Debug, Clone, PartialEq)]
pub struct DrawingAttributeFeature {
    pub project_name: String,
    pub construction_name: String,
    pub contract_type: String,
    pub drawing_name: String,
    pub drawing_number: String,
    pub drawing_type: String,
    pub drawing_scale: String,
    pub drawing_year: i64,
    pub drawing_month: i64,
    pub drawing_day: i64,
    pub contractor_name: String,
    pub owner_name: String,
}

#[derive(Debug, Clone, PartialEq)]
pub struct PreDefinedFontFeature {
    pub name: String,
}

#[derive(Debug, Clone, PartialEq)]
pub struct UserDefinedFontFeature {
    pub name: String,
    pub segment_count: i64,
    pub pitch: Vec<Decimal>,
}

#[derive(Debug, Clone, PartialEq)]
pub struct PreDefinedColourFeature {
    pub name: String,
}

#[derive(Debug, Clone, PartialEq)]
pub struct UserDefinedColourFeature {
    pub red: i64,
    pub green: i64,
    pub blue: i64,
}

#[derive(Debug, Clone, PartialEq)]
pub struct WidthFeature {
    pub width: Decimal,
}

#[derive(Debug, Clone, PartialEq)]
pub struct TextFontFeature {
    pub name: String,
}

#[derive(Debug, PartialEq)]
pub enum TypedFeature {
    DrawingAttribute(DrawingAttributeFeature),
    DrawingSheet(DrawingSheetFeature),
    Layer(LayerFeature),
    PreDefinedFont(PreDefinedFontFeature),
    UserDefinedFont(UserDefinedFontFeature),
    PreDefinedColour(PreDefinedColourFeature),
    UserDefinedColour(UserDefinedColourFeature),
    Width(WidthFeature),
    TextFont(TextFontFeature),
    SfigOrg(SfigOrgFeature),
    SfigLocate(SfigLocateFeature),
    ExternallyDefinedSymbol(ExternallyDefinedSymbolFeature),
    LinearDim(LinearDimFeature),
    CurveDim(CurveDimFeature),
    AngularDim(AngularDimFeature),
    RadiusDim(RadiusDimFeature),
    DiameterDim(DiameterDimFeature),
    Label(LabelFeature),
    Balloon(BalloonFeature),
    ExternallyDefinedHatch(ExternallyDefinedHatchFeature),
    FillAreaStyleColour(FillAreaStyleColourFeature),
    FillAreaStyleHatching(FillAreaStyleHatchingFeature),
    FillAreaStyleTiles(FillAreaStyleTilesFeature),
    PointMarker(PointMarkerFeature),
    Line(LineFeature),
    Polyline(PolylineFeature),
    Circle(CircleFeature),
    Arc(ArcFeature),
    Ellipse(EllipseFeature),
    EllipseArc(EllipseArcFeature),
    Text(TextFeature),
    Spline(SplineFeature),
    Clothoid(ClothoidFeature),
    CompositeCurve(CompositeCurveFeature),
}

#[derive(Debug, Clone, PartialEq, Eq)]
pub struct ParseWarning {
    pub code: String,
    pub message: String,
}

#[derive(Debug, PartialEq)]
pub struct ParseOutput {
    pub document: ParsedDocument,
    pub warnings: Vec<ParseWarning>,
}

#[derive(Debug, Clone, PartialEq, Eq)]
pub struct ParseError {
    pub message: String,
    pub line: usize,
    pub column: usize,
    pub snippet: String,
}

impl ParseError {
    pub fn new(message: String, line: usize, column: usize, snippet: String) -> (e: ParseError)
        ensures
            e.message == message,
            e.line == line,
            e.column == column,
            e.snippet == snippet,
    {
        ParseError { message, line, column, snippet }
    }

    /// The text of the error: `message at line:column`, then the line of
    /// input on a line of its own when there is one.
    pub open spec fn display_text(self) -> Seq<char> {
        let head = self.message@ + " at "@ + crate::text::nat_text(self.line as nat) + ":"@
            + crate::text::nat_text(self.column as nat);
        if self.snippet@.len() == 0 {
            head
        } else {
            head + "\n"@ + self.snippet@
        }
    }

    pub fn to_display_string(&self) -> (s: String)
        ensures
            s@ == self.display_text(),
    {
        let mut s = self.message.clone();
        crate::text::push_str(&mut s, " at ");
        crate::text::push_usize(&mut s, self.line);
        crate::text::push_str(&mut s, ":");
        crate::text::push_usize(&mut s, self.column);
        if self.snippet.unicode_len() > 0 {
            crate::text::push_str(&mut s, "\n");
            crate::text::push_str(&mut s, self.snippet.as_str());
        }
        s
    }
}

} // verus!
