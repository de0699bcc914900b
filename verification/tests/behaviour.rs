//! Behaviour of the reader on small documents: warnings, errors, values and
//! the resolved SFC model.

use ezsxf::encoding::decode_bytes;
use ezsxf::model::{EntityBody, FileFormat, ParseError, Value};
use ezsxf::model::CommonStyle;
use ezsxf::reader::parse_from_bytes;
use ezsxf::validate::{validate_flag, validate_sfc_semantic_string, validate_style};
use ezsxf::{parse_p21_text, parse_sfc_text};

const SFC_HEADER: &str = "ISO-10303-21;
HEADER;
FILE_DESCRIPTION(('SCADEC level2 feature_mode'),'2;1');
FILE_NAME('sample.sfc','2007-06-29T07:56:58',('author'),('organization'),'preprocessor$$3.1','system','');
FILE_SCHEMA(('ASSOCIATIVE_DRAUGHTING'));
ENDSEC;";

const SHEET: &str = "/*SXF
#99 = drawing_sheet_feature('sheet','9','1','100','300')
SXF*/";

fn sfc(body: &str) -> String {
    format!("{SFC_HEADER}\nDATA;\n{body}\n{SHEET}\nENDSEC;\nEND-ISO-10303-21;")
}

fn p21(body: &str) -> String {
    format!("{SFC_HEADER}\nDATA;\n{body}\nENDSEC;\nEND-ISO-10303-21;")
}

fn codes(warnings: &[ezsxf::model::ParseWarning]) -> Vec<String> {
    warnings.iter().map(|w| w.code.clone()).collect()
}

#[test]
fn p21_values_of_every_kind() {
    let source = p21("#1=THING('a''b',\"0F\",.T.,$,*,#1,(1,-2),SUB(3),1.5E3,0.25);");
    let output = parse_p21_text(&source, true).expect("values must parse");
    let EntityBody::Simple(record) = &output.document.entities[0].body else {
        panic!("expected a simple record");
    };
    assert_eq!(record.keyword, "THING");
    let p = &record.parameters;
    assert!(matches!(&p[0], Value::String(s) if s == "a'b"));
    assert!(matches!(&p[1], Value::Binary(s) if s == "0F"));
    assert!(matches!(&p[2], Value::Enum(s) if s == "T"));
    assert!(matches!(p[3], Value::Unset));
    assert!(matches!(p[4], Value::Omitted));
    assert!(matches!(p[5], Value::Reference(1)));
    assert!(matches!(&p[6], Value::List(items) if items.len() == 2));
    assert!(matches!(&p[7], Value::Typed { keyword, parameters } if keyword == "SUB" && parameters.len() == 1));
    match &p[8] {
        Value::Real(d) => assert_eq!((d.mantissa, d.exponent), (15, 2)),
        other => panic!("expected a real, got {other:?}"),
    }
    match &p[9] {
        Value::Real(d) => assert_eq!((d.mantissa, d.exponent), (25, -2)),
        other => panic!("expected a real, got {other:?}"),
    }
}

#[test]
fn missing_iso_marker_reports_position() {
    let error = parse_p21_text("  HEADER;", true).expect_err("must fail");
    assert_eq!(error.message, "Expected literal ISO-10303-21");
    assert_eq!((error.line, error.column), (1, 3));
    assert_eq!(error.snippet, "  HEADER;");
}

#[test]
fn error_display_text() {
    let error = ParseError::new("Bad".to_string(), 3, 7, "line text".to_string());
    assert_eq!(error.to_display_string(), "Bad at 3:7\nline text");
    let bare = ParseError::new("Bad".to_string(), 1, 1, String::new());
    assert_eq!(bare.to_display_string(), "Bad at 1:1");
}

#[test]
fn error_line_and_column_count_newlines() {
    let source = "ISO-10303-21;\nHEADER;\n  FILE_NAME(@);\nENDSEC;";
    let error = parse_p21_text(source, true).expect_err("must fail");
    assert_eq!(error.message, "Unsupported value token");
    assert_eq!((error.line, error.column), (3, 13));
    assert_eq!(error.snippet, "  FILE_NAME(@);");
}

#[test]
fn trailing_data_is_a_warning_or_an_error() {
    let source = format!("{}\ngarbage", p21("#1=A(1);"));
    let error = parse_p21_text(&source, true).expect_err("strict fails");
    assert_eq!(error.message, "Unexpected trailing data after END-ISO-10303-21;");
    let output = parse_p21_text(&source, false).expect("lenient goes on");
    assert_eq!(codes(&output.warnings), vec!["trailing-data"]);
}

#[test]
fn header_records_are_counted() {
    let source = "ISO-10303-21;
HEADER;
FILE_DESCRIPTION(('x'),'2;1');
file_name('a');
FILE_NAME('b');
ENDSEC;
DATA;
ENDSEC;
END-ISO-10303-21;";
    let error = parse_p21_text(source, true).expect_err("strict fails");
    assert_eq!(error.message, "Header entity FILE_NAME appears 2 times");
    let output = parse_p21_text(source, false).expect("lenient goes on");
    assert_eq!(
        codes(&output.warnings),
        vec!["duplicate-header-entity", "missing-header-entity"]
    );
    assert!(output.warnings[1].message.contains("FILE_SCHEMA"));
}

#[test]
fn schema_must_be_associative_draughting() {
    let source = "ISO-10303-21;
HEADER;
FILE_DESCRIPTION(('x'),'2;1');
FILE_NAME('a');
FILE_SCHEMA(('OTHER'));
ENDSEC;
DATA;
ENDSEC;
END-ISO-10303-21;";
    let output = parse_p21_text(source, false).expect("lenient goes on");
    assert_eq!(codes(&output.warnings), vec!["unexpected-schema"]);
    let lower = source.replace("'OTHER'", "'associative_draughting'");
    let output = parse_p21_text(&lower, true).expect("compared ignoring case");
    assert!(output.warnings.is_empty());
}

#[test]
fn duplicate_entity_ids_are_reported() {
    let source = p21("#1=A(1);\n#1=B(2);");
    let error = parse_p21_text(&source, true).expect_err("strict fails");
    assert_eq!(error.message, "Entity id #1 is duplicated");
    let output = parse_p21_text(&source, false).expect("lenient goes on");
    assert_eq!(codes(&output.warnings), vec!["duplicate-entity-id"]);
}

#[test]
fn references_inside_lists_and_typed_values_are_checked() {
    let source = p21("#1=A((#2,B(#3)));\n#2=C(#1);");
    let output = parse_p21_text(&source, false).expect("lenient goes on");
    assert_eq!(codes(&output.warnings), vec!["undefined-reference"]);
    assert_eq!(output.warnings[0].message, "Entity #1 references undefined entity #3");
}

#[test]
fn complex_record_must_not_be_empty() {
    let error = parse_p21_text(&p21("#1=( );"), true).expect_err("must fail");
    assert_eq!(error.message, "Complex record must include at least one simple record");
}

#[test]
fn sfc_exponent_notation_is_reported() {
    let source = sfc("/*SXF\n#1 = layer_feature('layer1','1')\nSXF*/\n/*SXF\n#2 = width_feature(1.3E-1)\nSXF*/");
    let error = parse_sfc_text(&source, true).expect_err("strict fails");
    assert_eq!(error.message, "Exponent notation is discouraged for SFC real values");
    let output = parse_sfc_text(&source, false).expect("lenient goes on");
    assert!(codes(&output.warnings).contains(&"sfc-real-format".to_string()));
}

#[test]
fn sfc_strings_outside_shift_jis_are_reported() {
    let source = sfc("/*SXF\n#1 = layer_feature('🙂','1')\nSXF*/");
    let error = parse_sfc_text(&source, true).expect_err("strict fails");
    assert_eq!(
        error.message,
        "SFC string contains characters that cannot be represented in Shift-JIS"
    );
    let output = parse_sfc_text(&source, false).expect("lenient goes on");
    assert!(codes(&output.warnings).contains(&"sfc-string-encoding".to_string()));
}

#[test]
fn sfc_strings_with_nul_are_reported() {
    let source = sfc("/*SXF\n#1 = layer_feature('a\u{0}b','1')\nSXF*/");
    let output = parse_sfc_text(&source, false).expect("lenient goes on");
    assert!(codes(&output.warnings).contains(&"sfc-string-nul".to_string()));
}

#[test]
fn lenient_sfc_skips_bad_prefix_and_suffix() {
    let source = sfc(
        "/*XYZ #5 = layer_feature('x','1') XYZ*/\n/*SXF\n#1 = layer_feature('layer1','1')\nSXF3*/",
    );
    let output = parse_sfc_text(&source, false).expect("lenient goes on");
    let got = codes(&output.warnings);
    assert!(got.contains(&"sfc-block-prefix".to_string()));
    assert!(got.contains(&"sfc-block-suffix".to_string()));
    let error = parse_sfc_text(&source, true).expect_err("strict fails");
    assert!(error.message.contains("Invalid SFC block prefix"));
}

#[test]
fn sfc_complex_block_is_reported() {
    let source = sfc("/*SXF\n#1 = (A(1) B(2))\nSXF*/");
    let error = parse_sfc_text(&source, true).expect_err("strict fails");
    assert_eq!(error.message, "SFC feature block #1 must contain one simple feature record");
}

#[test]
fn sfc_header_version_must_cover_blocks() {
    let source = sfc(
        "/*SXF3.1\n#1 = clothoid_feature('0','0','1','0','0.000000','0.000000','100.000000','0','0.0','0.000000','100.000000')\nSXF3.1*/",
    )
    .replace("preprocessor$$3.1", "preprocessor$$ 2.0 ");
    let error = parse_sfc_text(&source, true).expect_err("strict fails");
    assert_eq!(error.message, "Entity #1 uses SXF3.1 but FILE_NAME declares \"2.0\"");
    let unknown = sfc("").replace("preprocessor$$3.1", "preprocessor");
    let error = parse_sfc_text(&unknown, true).expect_err("strict fails");
    assert_eq!(
        error.message,
        "SFC FILE_NAME preprocessor version \"preprocessor\" must end in $$2.0, $$3.0 or $$3.1"
    );
}

#[test]
fn sfc_file_description_is_checked() {
    let source = sfc("").replace("'2;1'", "'2;2'");
    let output = parse_sfc_text(&source, false).expect("lenient goes on");
    assert_eq!(codes(&output.warnings), vec!["sfc-file-description"]);
}

#[test]
fn code_tables_number_and_refuse_duplicates() {
    let source = sfc(
        "/*SXF\n#1 = pre_defined_colour_feature('red')\nSXF*/
/*SXF\n#2 = pre_defined_colour_feature('RED')\nSXF*/
/*SXF\n#3 = user_defined_colour_feature('1','2','3')\nSXF*/
/*SXF\n#4 = user_defined_colour_feature('4','5','6')\nSXF*/
/*SXF\n#5 = layer_feature('a','1')\nSXF*/
/*SXF\n#6 = layer_feature('b','1')\nSXF*/
/*SXF\n#7 = width_feature('0.130000')\nSXF*/
/*SXF\n#8 = width_feature('0.700000')\nSXF*/
/*SXF\n#9 = width_feature('0.777000')\nSXF*/",
    );
    let error = parse_sfc_text(&source, true).expect_err("strict fails");
    assert_eq!(error.message, "Entity #2 duplicates color code 2");
    let output = parse_sfc_text(&source, false).expect("lenient goes on");
    assert!(codes(&output.warnings).contains(&"sfc-duplicate-code-definition".to_string()));
    let tables = &output.document.sfc_model.as_ref().expect("model").code_tables;
    let colors: Vec<(i64, i64)> = tables.colors.iter().map(|b| (b.code, b.entity_id)).collect();
    assert_eq!(colors, vec![(2, 1), (17, 3), (18, 4)]);
    let layers: Vec<i64> = tables.layers.iter().map(|b| b.code).collect();
    assert_eq!(layers, vec![1, 2]);
    let widths: Vec<i64> = tables.line_widths.iter().map(|b| b.code).collect();
    assert_eq!(widths, vec![1, 6, 11]);
}

#[test]
fn code_table_overflow_is_reported() {
    let mut body = String::new();
    for i in 1..=17 {
        body.push_str(&format!("/*SXF\n#{i} = user_defined_font_feature('f{i}','2','(1.0,1.0)')\nSXF*/\n"));
    }
    let source = sfc(&body);
    let output = parse_sfc_text(&source, false).expect("lenient goes on");
    assert!(codes(&output.warnings).contains(&"sfc-code-table-overflow".to_string()));
    let tables = &output.document.sfc_model.as_ref().expect("model").code_tables;
    assert_eq!(tables.line_types.len(), 16);
    assert_eq!(tables.line_types.last().map(|b| b.code), Some(32));
}

#[test]
fn unknown_predefined_names_are_reported() {
    let source = sfc("/*SXF\n#1 = pre_defined_font_feature('wavy')\nSXF*/");
    let error = parse_sfc_text(&source, true).expect_err("strict fails");
    assert_eq!(error.message, "Entity #1 has unknown predefined line type \"wavy\"");
}

#[test]
fn composite_curves_are_numbered_in_order() {
    let source = sfc(
        "/*SXF\n#1 = layer_feature('a','1')\nSXF*/
/*SXF\n#2 = polyline_feature('1','1','1','1','2','(0.0,1.0)','(0.0,1.0)')\nSXF*/
/*SXF\n#3 = composite_curve_feature('1','1','1','1')\nSXF*/
/*SXF\n#4 = polyline_feature('1','1','1','1','2','(0.0,1.0)','(0.0,1.0)')\nSXF*/
/*SXF\n#5 = composite_curve_feature('1','1','1','1')\nSXF*/
/*SXF\n#6 = fill_area_style_colour_feature('1','1','2','1','(1)')\nSXF*/",
    );
    let output = parse_sfc_text(&source, true).expect("must parse");
    let model = output.document.sfc_model.as_ref().expect("model");
    let curves: Vec<(i64, i64)> = model
        .composite_curve_definitions
        .iter()
        .map(|c| (c.code, c.entity_id))
        .collect();
    assert_eq!(curves, vec![(1, 3), (2, 5)]);
    assert_eq!(model.hatch_references.len(), 1);
    assert_eq!(model.hatch_references[0].outer_definition_id, 5);
    assert_eq!(model.hatch_references[0].inner_definition_ids, vec![3]);
    assert_eq!(model.sheet.as_ref().expect("sheet").component_ids, vec![6]);
}

#[test]
fn composite_curve_rejects_unsupported_component() {
    let source = sfc(
        "/*SXF\n#1 = layer_feature('a','1')\nSXF*/
/*SXF\n#2 = line_feature('1','1','1','1','0.0','0.0','1.0','1.0')\nSXF*/
/*SXF\n#3 = composite_curve_feature('1','1','1','1')\nSXF*/",
    );
    let error = parse_sfc_text(&source, true).expect_err("strict fails");
    assert_eq!(error.message, "Composite curve #3 contains unsupported component #2");
}

#[test]
fn duplicate_composite_figure_name_is_reported() {
    let source = sfc(
        "/*SXF\n#1 = sfig_org_feature('g','4')\nSXF*/\n/*SXF\n#2 = sfig_org_feature('g','4')\nSXF*/",
    );
    let error = parse_sfc_text(&source, true).expect_err("strict fails");
    assert_eq!(error.message, "Entity #2 repeats composite figure name \"g\"");
}

#[test]
fn attribute_attachment_rules() {
    let source = sfc(
        "/*SXF\n#1 = sfig_org_feature('$$ATRS$$9$$表題_事業名$$STR','2')\nSXF*/",
    );
    let output = parse_sfc_text(&source, false).expect("lenient goes on");
    let got = codes(&output.warnings);
    assert!(got.contains(&"sfc-attribute-kind".to_string()));
    assert!(got.contains(&"sfc-attribute-component-count".to_string()));
    assert!(got.contains(&"sfc-attribute-placement-count".to_string()));
    assert!(got.contains(&"sfc-atrs-target".to_string()));
    let malformed = sfc("/*SXF\n#1 = sfig_org_feature('$$ATRS$$9','3')\nSXF*/");
    let error = parse_sfc_text(&malformed, true).expect_err("strict fails");
    assert_eq!(
        error.message,
        "Composite figure #1: ATRS attribute name requires 2 to 4 fields after the prefix, got 1"
    );
}

#[test]
fn sfig_placed_twice_is_reported() {
    let source = sfc(
        "/*SXF\n#1 = layer_feature('a','1')\nSXF*/
/*SXF\n#2 = sfig_org_feature('part','2')\nSXF*/
/*SXF\n#3 = sfig_locate_feature('1','part','0.0','0.0','0.0','1.0','1.0')\nSXF*/
/*SXF\n#4 = sfig_locate_feature('1','part','0.0','0.0','0.0','1.0','1.0')\nSXF*/",
    );
    let error = parse_sfc_text(&source, true).expect_err("strict fails");
    assert_eq!(
        error.message,
        "Composite figure definition #2 of kind 2 may be placed only once, got 2 placements"
    );
}

#[test]
fn features_after_the_sheet_are_reported() {
    let source = format!(
        "{SFC_HEADER}\nDATA;\n{SHEET}\n/*SXF\n#1 = line_feature('0','0','0','0','0.0','0.0','1.0','1.0')\nSXF*/\nENDSEC;\nEND-ISO-10303-21;"
    );
    let error = parse_sfc_text(&source, true).expect_err("strict fails");
    assert_eq!(
        error.message,
        "Feature line_feature (#1) should be defined before drawing_sheet_feature"
    );
}

#[test]
fn code_used_before_its_definition_is_reported() {
    let source = sfc(
        "/*SXF\n#1 = layer_feature('a','1')\nSXF*/
/*SXF\n#2 = line_feature('1','17','1','1','0.0','0.0','1.0','1.0')\nSXF*/
/*SXF\n#3 = user_defined_colour_feature('1','2','3')\nSXF*/",
    );
    let error = parse_sfc_text(&source, true).expect_err("strict fails");
    assert_eq!(
        error.message,
        "Feature line_feature (#2) references color code 17 before its definition"
    );
}

#[test]
fn undefined_code_is_reported_once_per_table() {
    let source = sfc(
        "/*SXF\n#1 = layer_feature('a','1')\nSXF*/
/*SXF\n#2 = line_feature('1','1','1','1','0.0','0.0','1.0','1.0')\nSXF*/
/*SXF\n#3 = line_feature('2','1','1','1','0.0','0.0','1.0','1.0')\nSXF*/
/*SXF\n#4 = line_feature('2','1','1','1','0.0','0.0','1.0','1.0')\nSXF*/",
    );
    let output = parse_sfc_text(&source, false).expect("lenient goes on");
    let got = codes(&output.warnings);
    assert_eq!(
        got.iter().filter(|c| c.as_str() == "sfc-layer-reference").count(),
        1
    );
}

#[test]
fn decoding_prefers_utf8_and_falls_back_to_shift_jis() {
    let (text, warning) = decode_bytes(FileFormat::Sfc, "abc".as_bytes(), true).expect("utf-8");
    assert_eq!(text, "abc");
    assert!(warning.is_none());
    let (text, warning) = decode_bytes(FileFormat::Sfc, &[0x93, 0xfa], true).expect("shift-jis");
    assert_eq!(text, "日");
    assert!(warning.is_none());
    let (_, warning) = decode_bytes(FileFormat::Sfc, &[0x81], false).expect("lenient");
    assert_eq!(warning.map(|w| w.code), Some("encoding".to_string()));
    let error = decode_bytes(FileFormat::P21, &[0xff], false).expect_err("p21 needs utf-8");
    assert_eq!(error.message, "Input is not valid UTF-8");
}

#[test]
fn bytes_parse_adds_the_decoding_warning_last() {
    let source = sfc("/*SXF\n#1 = layer_feature('aXb','1')\nSXF*/");
    let bytes: Vec<u8> = source
        .into_bytes()
        .into_iter()
        .map(|b| if b == b'X' { 0xa0 } else { b })
        .collect();
    let error = parse_from_bytes(FileFormat::Sfc, &bytes, true).expect_err("strict fails");
    assert_eq!(error.message, "Input is neither valid UTF-8 nor valid Shift-JIS/CP932");
    let output = parse_from_bytes(FileFormat::Sfc, &bytes, false).expect("lenient goes on");
    assert_eq!(output.warnings.last().map(|w| w.code.as_str()), Some("encoding"));
    let error = parse_from_bytes(FileFormat::P21, &bytes, false).expect_err("p21 needs utf-8");
    assert_eq!(error.message, "Input is not valid UTF-8");
}

#[test]
fn default_attribute_file_name_replaces_extension() {
    let source = sfc(
        "/*SXF\n#1 = line_feature('1','1','1','1','0.0','0.0','1.0','1.0')\nSXF*/
/*SXF\n#2 = sfig_org_feature('$$ATRF$$42','3')\nSXF*/
/*SXF\n#3 = sfig_locate_feature('0','$$ATRF$$42','0.0','0.0','0.0','1.0','1.0')\nSXF*/",
    )
    .replace("'sample.sfc'", "'dir/plan.v2.sfc'");
    let output = parse_sfc_text(&source, true).expect("must parse");
    let model = output.document.sfc_model.as_ref().expect("model");
    assert_eq!(
        model.attribute_attachments[0].resolved_attribute_file_name.as_deref(),
        Some("dir/plan.v2.SAF")
    );
}

#[test]
fn header_lookup_ignores_case() {
    let output = parse_p21_text(&p21(""), true).expect("must parse");
    let record = output.document.header.find_keyword("file_schema").expect("found");
    assert_eq!(record.keyword, "FILE_SCHEMA");
    assert!(output.document.header.find_keyword("NOPE").is_none());
}

#[test]
fn each_feature_joins_only_the_next_container() {
    let source = sfc(
        "/*SXF\n#1 = layer_feature('a','1')\nSXF*/
/*SXF\n#2 = line_feature('1','1','1','1','0.0','0.0','1.0','1.0')\nSXF*/
/*SXF\n#3 = sfig_org_feature('g','4')\nSXF*/
/*SXF\n#4 = line_feature('1','1','1','1','0.0','0.0','2.0','2.0')\nSXF*/
/*SXF\n#5 = sfig_locate_feature('1','g','0.0','0.0','0.0','1.0','1.0')\nSXF*/",
    );
    let output = parse_sfc_text(&source, true).expect("must parse");
    let model = output.document.sfc_model.as_ref().expect("model");
    assert_eq!(model.sfig_definitions.len(), 1);
    assert_eq!(model.sfig_definitions[0].entity_id, 3);
    assert_eq!(model.sfig_definitions[0].component_ids, vec![2]);
    assert_eq!(model.sheet.as_ref().expect("sheet").component_ids, vec![4, 5]);
    assert_eq!(model.sfig_references.len(), 1);
    assert_eq!(model.sfig_references[0].placement_id, 5);
    assert_eq!(model.sfig_references[0].definition_id, 3);
}

#[test]
fn strict_and_lenient_readers_agree_on_accepted_text() {
    let source = p21("#1=THING('a',(1,2.5),SUB(#1),.E.);\n#2=(A(1)B('x'));");
    let strict = parse_p21_text(&source, true).expect("strict accepts");
    let lenient = parse_p21_text(&source, false).expect("lenient accepts");
    assert_eq!(strict.document.entities, lenient.document.entities);
    assert_eq!(strict.document.header, lenient.document.header);
    let sfc_source = sfc("/*SXF\n#1 = layer_feature('a','1')\nSXF*/");
    let strict = parse_sfc_text(&sfc_source, true).expect("strict accepts");
    let lenient = parse_sfc_text(&sfc_source, false).expect("lenient accepts");
    assert_eq!(strict.document.entities, lenient.document.entities);
}

#[test]
fn validation_reports_the_first_failing_check() {
    assert_eq!(validate_flag(2, "layer visibility flag"), Err("layer visibility flag must be 0 or 1".to_string()));
    assert_eq!(validate_flag(1, "layer visibility flag"), Ok(()));
    let style = CommonStyle {
        layer_code: Some(300),
        color_code: Some(999),
        line_type_code: None,
        line_width_code: None,
        font_code: None,
    };
    assert_eq!(validate_style(&style), Err("layer code must be in 0..=256".to_string()));
    assert_eq!(validate_sfc_semantic_string("", "layer name", false), Err("layer name must not be empty".to_string()));
    let long = "x".repeat(300);
    assert_eq!(
        validate_sfc_semantic_string(&long, "layer name", false),
        Err("layer name exceeds the 256-byte limit (300 Shift-JIS bytes)".to_string())
    );
}

fn pairs(warnings: &[ezsxf::model::ParseWarning]) -> Vec<(String, String)> {
    warnings.iter().map(|w| (w.code.clone(), w.message.clone())).collect()
}

fn pair(code: &str, message: &str) -> (String, String) {
    (code.to_string(), message.to_string())
}

#[test]
fn lenient_p21_warnings_come_in_check_order() {
    let source = format!("{}\nextra", p21("#1=A(#5);\n#1=B(2);"));
    let output = parse_p21_text(&source, false).expect("lenient goes on");
    assert_eq!(
        pairs(&output.warnings),
        vec![
            pair("trailing-data", "Unexpected trailing data after END-ISO-10303-21;"),
            pair("duplicate-entity-id", "Entity id #1 is duplicated"),
            pair("undefined-reference", "Entity #1 references undefined entity #5"),
        ]
    );
}

#[test]
fn unused_definition_and_missing_sheet_messages() {
    let unused = sfc("/*SXF\n#1 = sfig_org_feature('part','2')\nSXF*/");
    let error = parse_sfc_text(&unused, true).expect_err("strict fails");
    assert_eq!(error.message, "Composite figure definition #1 is not used by a placement");
    let no_sheet = format!(
        "{SFC_HEADER}\nDATA;\n/*SXF\n#1 = layer_feature('a','1')\nSXF*/\nENDSEC;\nEND-ISO-10303-21;"
    );
    let error = parse_sfc_text(&no_sheet, true).expect_err("strict fails");
    assert_eq!(error.message, "SFC should contain at least one drawing_sheet_feature");
    let output = parse_sfc_text(&no_sheet, false).expect("lenient goes on");
    assert_eq!(
        pairs(&output.warnings),
        vec![pair("sfc-missing-drawing-sheet", "SFC should contain at least one drawing_sheet_feature")]
    );
}

#[test]
fn attachment_warnings_name_the_attachment() {
    let source = sfc(
        "/*SXF\n#1 = sfig_org_feature('$$ATRS$$9$$表題_事業名$$STR','2')\nSXF*/",
    );
    let output = parse_sfc_text(&source, false).expect("lenient goes on");
    let got = pairs(&output.warnings);
    let expected = vec![
        pair(
            "sfc-attribute-component-count",
            "Attribute attachment #1 must contain exactly one target feature, got 0",
        ),
        pair(
            "sfc-attribute-placement-count",
            "Attribute attachment #1 must have exactly one paired placement, got 0",
        ),
        pair("sfc-atrs-target", "ATRS attribute attachment #1 must target one text feature"),
    ];
    let start = got
        .iter()
        .position(|w| w.0 == "sfc-attribute-component-count")
        .expect("component count reported");
    assert_eq!(got[start..start + 3].to_vec(), expected);
}

#[test]
fn skipped_features_name_the_entity_and_the_reason() {
    let source = sfc(
        "/*SXF\n#1 = mystery_feature('a')\nSXF*/
/*SXF\n#2 = line_feature('1','1','1','1','0.0','0.0','1.0')\nSXF*/",
    );
    let output = parse_sfc_text(&source, false).expect("lenient goes on");
    let got = pairs(&output.warnings);
    assert!(got.contains(&pair(
        "sfc-unsupported-feature-skipped",
        "Feature mystery_feature (#1) is not implemented and was skipped",
    )));
    assert!(got.contains(&pair(
        "sfc-incomplete-feature-skipped",
        "Entity #2 (line_feature) line_feature requires exactly 8 parameters, got 7",
    )));
}

#[test]
fn long_numerals_keep_their_scale() {
    let big = format!("1{}", "0".repeat(39));
    let d = ezsxf::values::parse_sfc_decimal(&big).expect("read");
    assert_eq!((d.mantissa, d.exponent), (10i128.pow(38), 1));
    let long = format!("{}.5", "9".repeat(45));
    let d = ezsxf::values::parse_sfc_decimal(&long).expect("read");
    assert_eq!(d.exponent, 7);
    assert!(d.mantissa > 10i128.pow(37));
    let source = p21("#1=A(1.5E99999999999999999999, 2.0E-99999999999999999999);");
    let output = parse_p21_text(&source, true).expect("huge exponents are held, not refused");
    match &output.document.entities[0].body {
        EntityBody::Simple(record) => match (&record.parameters[0], &record.parameters[1]) {
            (Value::Real(a), Value::Real(b)) => {
                assert_eq!((a.mantissa, a.exponent), (15, i64::MAX - 1));
                assert_eq!((b.mantissa, b.exponent), (20, i64::MIN));
            }
            _ => panic!("reals expected"),
        },
        _ => panic!("simple record expected"),
    }
}

#[test]
fn strict_model_errors_name_the_first_fault() {
    let line = "/*SXF\n#1 = line_feature('1','1','1','1','0.0','0.0','10.0','10.0')\nSXF*/";
    let nested = sfc(&format!(
        "/*SXF\n#10 = layer_feature('a','1')\nSXF*/\n{line}
/*SXF\n#2 = sfig_org_feature('partial','1')\nSXF*/
/*SXF\n#3 = sfig_locate_feature('1','partial','0.0','0.0','0.0','1.0','1.0')\nSXF*/
/*SXF\n#4 = sfig_org_feature('group','3')\nSXF*/
/*SXF\n#5 = sfig_locate_feature('1','group','0.0','0.0','0.0','1.0','1.0')\nSXF*/"
    ));
    let error = parse_sfc_text(&nested, true).expect_err("strict fails");
    assert_eq!(
        error.message,
        "Placement #3 of composite figure #2 kind 1 has an invalid parent container"
    );
    let forward = sfc(
        "/*SXF\n#1 = layer_feature('a','1')\nSXF*/
/*SXF\n#2 = sfig_locate_feature('1','later','0.0','0.0','0.0','1.0','1.0')\nSXF*/
/*SXF\n#3 = sfig_org_feature('later','4')\nSXF*/",
    );
    let error = parse_sfc_text(&forward, true).expect_err("strict fails");
    assert_eq!(
        error.message,
        "Composite figure placement #2 references undefined or later definition \"later\""
    );
    let hatch = sfc(
        "/*SXF\n#1 = layer_feature('a','1')\nSXF*/
/*SXF\n#2 = fill_area_style_colour_feature('1','1','1','0','()')\nSXF*/",
    );
    let error = parse_sfc_text(&hatch, true).expect_err("strict fails");
    assert_eq!(
        error.message,
        "Hatch #2 references undefined or later outer composite curve code 1"
    );
}

#[test]
fn reference_errors_point_at_the_hash() {
    let mut parser = ezsxf::lexer::Parser::new("\n  #x", FileFormat::P21, true);
    parser.skip_ws();
    let error = parser.parse_reference_id().expect_err("no digit");
    assert_eq!(error.message, "Reference must contain at least one digit");
    assert_eq!((error.line, error.column), (2, 3));
    let mut parser = ezsxf::lexer::Parser::new("#99999999999999999999", FileFormat::P21, true);
    let error = parser.parse_reference_id().expect_err("too large");
    assert_eq!(error.message, "Reference id is out of range");
    assert_eq!((error.line, error.column), (1, 1));
    let mut parser = ezsxf::lexer::Parser::new("#42,", FileFormat::P21, true);
    assert_eq!(parser.parse_reference_id().expect("read"), 42);
}

#[test]
fn normalizing_a_name_again_changes_nothing() {
    let once = ezsxf::codes::normalized_predefined_name("  Dashed \t  SPACED  ");
    assert_eq!(once, "dashed spaced");
    assert_eq!(ezsxf::codes::normalized_predefined_name(&once), once);
    assert_eq!(ezsxf::codes::predefined_line_type_code(&once), Some(3));
}

#[test]
fn integer_list_text_reads_back() {
    let list = vec![i64::MIN, -12, 0, 345, i64::MAX];
    let text = format!(
        "({})",
        list.iter().map(|x| x.to_string()).collect::<Vec<_>>().join(",")
    );
    assert_eq!(ezsxf::values::parse_i64_list_from_string(&text), Some(list));
    assert_eq!(ezsxf::values::parse_i64_list_from_string("()"), Some(vec![]));
}
