use tinyfusion_core::moa::{build_judge_prompt, parse_judge_xml, WorkerResponse};

#[test]
fn test_judge_prompt_construction() {
    let workers = vec![
        WorkerResponse {
            endpoint: "http://localhost:11434".into(),
            content: Ok("Analysis A".into()),
        },
    ];
    let prompt = build_judge_prompt("Fix the bug", &workers);
    assert!(prompt.contains("<consensus>"));
    assert!(prompt.contains("<contradictions>"));
    assert!(prompt.contains("<final_plan>"));
    assert!(prompt.contains("Fix the bug"));
    assert!(prompt.contains("Analysis A"));
}

#[test]
fn test_xml_tag_parsing() {
    let xml = r#"
        <consensus>All agree on root cause</consensus>
        <contradictions>Worker 2 suggests different fix</contradictions>
        <coverage_gaps>None identified</coverage_gaps>
        <unique_insights>Worker 1 found edge case</unique_insights>
        <final_plan>Step 1: Fix X. Step 2: Test Y.</final_plan>
    "#;
    let analysis = parse_judge_xml(xml);
    assert_eq!(analysis.consensus, "All agree on root cause");
    assert_eq!(analysis.contradictions, "Worker 2 suggests different fix");
    assert_eq!(analysis.final_plan, "Step 1: Fix X. Step 2: Test Y.");
}

#[test]
fn test_xml_parse_fallback() {
    let text = "No XML tags here, just plain text";
    let analysis = parse_judge_xml(text);
    assert_eq!(analysis.consensus, "");
    assert_eq!(analysis.raw, text);
}

#[test]
fn test_xml_parse_partial() {
    let xml = "<consensus>Agreed</consensus><final_plan>Do it</final_plan>";
    let analysis = parse_judge_xml(xml);
    assert_eq!(analysis.consensus, "Agreed");
    assert_eq!(analysis.final_plan, "Do it");
    assert_eq!(analysis.contradictions, "");
}

#[test]
fn test_xml_fallback_uses_raw_text_as_final_plan() {
    let text = "The fix is to update auth.ts:47 and add a null check.";
    let analysis = parse_judge_xml(text);
    assert_eq!(analysis.consensus, "");
    assert_eq!(analysis.contradictions, "");
    assert_eq!(analysis.coverage_gaps, "");
    assert_eq!(analysis.unique_insights, "");
    assert_eq!(analysis.final_plan, text);
    assert_eq!(analysis.raw, text);
}

#[test]
fn test_xml_fallback_no_false_positive_when_tags_present() {
    let xml = "<consensus>Fix auth.ts</consensus><final_plan>Do it</final_plan>";
    let analysis = parse_judge_xml(xml);
    assert_eq!(analysis.consensus, "Fix auth.ts");
    assert_eq!(analysis.final_plan, "Do it");
    assert_ne!(analysis.final_plan, analysis.raw);
}
