use reframe::AnalysisResult;
use reframe::AnalyzeError;
use reframe::ReframeNS;
use reframe::serialize_result;

#[test]
fn analyze_strips_types_and_wraps_the_result() {
    let out = ReframeNS::analyze("/a/b.ts", "const x: number = 1;", "", false)
        .expect("analysis succeeds");
    assert!(out.starts_with("{\"code\":\""));
    assert!(out.ends_with("\"}"));
    assert!(out.contains("const x = 1;"));
    assert!(!out.contains("number"));
}

#[test]
fn analyze_accepts_relative_paths() {
    let out = ReframeNS::analyze("a/b.ts", "let y: string = \"s\";", "", false)
        .expect("analysis succeeds");
    assert!(out.contains("let y = "));
}

#[test]
fn leading_byte_order_marks_are_stripped() {
    let plain = ReframeNS::analyze("/bom.ts", "const x: number = 1;", "", false)
        .expect("analysis succeeds");
    let bom = ReframeNS::analyze("/bom.ts", "\u{feff}const x: number = 1;", "", false)
        .expect("analysis succeeds");
    assert_eq!(bom, plain);
    let doubled = ReframeNS::analyze("/bom.ts", "\u{feff}\u{feff}const x: number = 1;", "", false)
        .expect("analysis succeeds");
    assert_eq!(doubled, plain);
}

#[test]
fn analyze_reports_syntax_errors_as_analysis_failures() {
    let err = ReframeNS::analyze("/bad.ts", "const const = ;", "", false)
        .expect_err("analysis fails");
    match err {
        AnalyzeError::AnalysisFailure(msg) => assert!(!msg.is_empty()),
        other => panic!("expected an analysis failure, got {:?}", other),
    }
}

#[test]
fn minify_removes_comments() {
    let source = "// hello marker\nconst x: number = 1;";
    let kept = ReframeNS::analyze("/c.ts", source, "", false).expect("analysis succeeds");
    assert!(kept.contains("hello marker"));
    let stripped = ReframeNS::analyze("/c.ts", source, "", true).expect("analysis succeeds");
    assert!(!stripped.contains("hello marker"));
}

#[test]
fn serialization_escapes_the_wire_object_exactly() {
    let result = AnalysisResult { code: "a\"b\\c\nd\re\tf".to_string() };
    let wire = serialize_result(&result).expect("encodable");
    assert_eq!(wire, "{\"code\":\"a\\\"b\\\\c\\nd\\re\\tf\"}");
}

#[test]
fn plain_code_is_wrapped_unchanged() {
    let result = AnalysisResult { code: "const x = 1;".to_string() };
    let wire = serialize_result(&result).expect("encodable");
    assert_eq!(wire, "{\"code\":\"const x = 1;\"}");
}

#[test]
fn unencodable_control_characters_are_a_distinct_failure() {
    let result = AnalysisResult { code: "a\u{1}b".to_string() };
    let err = serialize_result(&result).expect_err("unencodable");
    match err {
        AnalyzeError::SerializationFailure(msg) => assert!(!msg.is_empty()),
        other => panic!("expected a serialization failure, got {:?}", other),
    }
}
