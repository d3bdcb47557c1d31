use feature_extractor::decision_tree::{
    Decision, DecisionNode, DecisionTree, Prediction, RandomForest, Threshold,
};
use feature_extractor::error::ParseError;

#[test]
fn test_decision_tree_parsing() {
    let _dt = DecisionTree::parse(
        r#"
        digraph Tree {
            node [shape=box, fontname="helvetica"] ;
            edge [fontname="helvetica"] ;
            0 [label="node #0\nx[16] <= 36.255\nsamples = 88\nvalue = [68, 71]\nclass = 1"] ;
            1 [label="node #1\nx[17] <= 0.954\nsamples = 51\nvalue = [68.0, 14.0]\nclass = 0"] ;
            0 -> 1 [labeldistance=2.5, labelangle=45, headlabel="True"] ;
            2 [label="node #2\nsamples = 45\nvalue = [68, 0]\nclass = 0"] ;
            1 -> 2 ;
            3 [label="node #3\nsamples = 6\nvalue = [0, 14]\nclass = 1"] ;
            1 -> 3 ;
            4 [label="node #4\nsamples = 37\nvalue = [0, 57]\nclass = 1"] ;
            0 -> 4 [labeldistance=2.5, labelangle=-45, headlabel="False"] ;
        }
    "#,
    )
    .unwrap();
}

#[test]
fn parsed_tree_structure_matches_labels() {
    let dt = DecisionTree::parse(
        r#"digraph Tree {
            0 [label="x[16] <= 36.255"] ;
            1 [label="x[17] <= 0.954"] ;
            0 -> 1 ;
            2 [label="class = 0"] ;
            1 -> 2 ;
            3 [label="class = 1"] ;
            1 -> 3 ;
            4 [label="class = 1"] ;
            0 -> 4 ;
        }"#,
    )
    .unwrap();
    match &dt.root {
        DecisionNode::Decision { decision, le_child, gt_child } => {
            assert_eq!(decision.feature_idx, 16);
            assert_eq!(decision.threshold, Threshold { mantissa: 36255, scale: 3 });
            match &**le_child {
                DecisionNode::Decision { decision, le_child, gt_child } => {
                    assert_eq!(decision.feature_idx, 17);
                    assert_eq!(decision.threshold, Threshold { mantissa: 954, scale: 3 });
                    assert!(matches!(
                        **le_child,
                        DecisionNode::Prediction(Prediction { class: 0 })
                    ));
                    assert!(matches!(
                        **gt_child,
                        DecisionNode::Prediction(Prediction { class: 1 })
                    ));
                },
                _ => panic!("expected inner decision"),
            }
            assert!(matches!(
                **gt_child,
                DecisionNode::Prediction(Prediction { class: 1 })
            ));
        },
        _ => panic!("expected a decision at the root"),
    }
}

// The end-to-end scenario graph: feature 0 at most 5 routes to class 0,
// otherwise class 1.
const SCENARIO_GRAPH: &str = r#"digraph{0[label="x[0] <= 5"]; 1[label="class = 0"]; 2[label="class = 1"]; 0->1; 0->2;}"#;

#[test]
fn scenario_graph_compiles_to_the_expected_tree() {
    let dt = DecisionTree::parse(SCENARIO_GRAPH).unwrap();
    match &dt.root {
        DecisionNode::Decision { decision, le_child, gt_child } => {
            assert_eq!(decision.feature_idx, 0);
            assert_eq!(decision.threshold, Threshold { mantissa: 5, scale: 0 });
            assert!(matches!(
                **le_child,
                DecisionNode::Prediction(Prediction { class: 0 })
            ));
            assert!(matches!(
                **gt_child,
                DecisionNode::Prediction(Prediction { class: 1 })
            ));
        },
        _ => panic!("expected a decision at the root"),
    }
}

#[test]
fn scenario_feature_three_classifies_as_class_zero() {
    let dt = DecisionTree::parse(SCENARIO_GRAPH).unwrap();
    // feature value 3.0, in micro units
    assert_eq!(dt.decide(&vec![3_000_000i64]), 0);
}

#[test]
fn scenario_feature_seven_classifies_as_class_one() {
    let dt = DecisionTree::parse(SCENARIO_GRAPH).unwrap();
    // feature value 7.0, in micro units
    assert_eq!(dt.decide(&vec![7_000_000i64]), 1);
}

#[test]
fn boundary_feature_equal_to_threshold_takes_the_le_branch() {
    let dt = DecisionTree::parse(SCENARIO_GRAPH).unwrap();
    assert_eq!(dt.decide(&vec![5_000_000i64]), 0);
    assert_eq!(dt.decide(&vec![5_000_001i64]), 1);
}

#[test]
fn forest_vote_follows_the_majority() {
    let t1 = DecisionTree::parse(SCENARIO_GRAPH).unwrap();
    let t2 = DecisionTree::parse(SCENARIO_GRAPH).unwrap();
    let t3 = DecisionTree::parse(r#"digraph{0[label="class = 1"];}"#).unwrap();
    let forest = RandomForest { trees: vec![t1, t2, t3] };
    // two votes for class 0, one for class 1
    assert_eq!(forest.classify(&vec![3_000_000i64]), 0);
    // all three vote class 1
    assert_eq!(forest.classify(&vec![7_000_000i64]), 1);
}

#[test]
fn generated_code_matches_the_tree() {
    let dt = DecisionTree::parse(SCENARIO_GRAPH).unwrap();
    let mut code = String::new();
    dt.write_wgsl(&mut code);
    assert_eq!(
        code,
        "if feature_0[0] <= 5 {\n    class_0_score += 1;\n} else {\n    class_1_score += 1;\n}\n"
    );
}

#[test]
fn threshold_text_preserves_the_parsed_decimal() {
    let dt = DecisionTree::parse(
        r#"digraph{0[label="x[4] <= 36.255"]; 1[label="class = 0"]; 2[label="class = 1"]; 0->1; 0->2;}"#,
    )
    .unwrap();
    let mut code = String::new();
    dt.write_wgsl(&mut code);
    // feature 4 maps to channel 1 of kernel 1; the threshold text is exact
    assert_eq!(
        code,
        "if feature_1[1] <= 36.255 {\n    class_0_score += 1;\n} else {\n    class_1_score += 1;\n}\n"
    );
}

#[test]
fn prediction_label_patterns() {
    assert_eq!(
        Prediction::try_parse_label_attr(b"class = 7"),
        Ok(Some(Prediction { class: 7 }))
    );
    assert_eq!(Prediction::try_parse_label_attr(b"samples = 88"), Ok(None));
    assert!(Prediction::try_parse_label_attr(b"class = x").is_err());
    assert!(Prediction::try_parse_label_attr(b"class = 99999999999999999999").is_err());
}

#[test]
fn decision_label_patterns() {
    assert_eq!(
        Decision::try_parse_label_attr(b"x[16] <= 36.255"),
        Ok(Some(Decision {
            feature_idx: 16,
            threshold: Threshold { mantissa: 36255, scale: 3 }
        }))
    );
    assert_eq!(
        Decision::try_parse_label_attr(b"x[0] <= -1.5"),
        Ok(Some(Decision {
            feature_idx: 0,
            threshold: Threshold { mantissa: -15, scale: 1 }
        }))
    );
    assert_eq!(Decision::try_parse_label_attr(b"node #0"), Ok(None));
    assert!(Decision::try_parse_label_attr(b"x[16] < 36").is_err());
    assert!(Decision::try_parse_label_attr(b"x[] <= 36").is_err());
}

#[test]
fn rejects_an_undirected_graph() {
    assert_eq!(
        DecisionTree::parse("graph { 0 ; }"),
        Err(ParseError::NotDirectedGraph)
    );
}

#[test]
fn rejects_a_node_without_a_label() {
    assert_eq!(
        DecisionTree::parse("digraph { 0 ; }"),
        Err(ParseError::MissingLabel { node_id: 0 })
    );
}

#[test]
fn rejects_a_label_matching_neither_pattern() {
    assert_eq!(
        DecisionTree::parse(r#"digraph { 0 [label="hello"] ; }"#),
        Err(ParseError::UnrecognizedLabel { node_id: 0 })
    );
}

#[test]
fn rejects_a_decision_without_two_edges() {
    assert_eq!(
        DecisionTree::parse(
            r#"digraph{0[label="x[0] <= 5"]; 1[label="class = 0"]; 0->1;}"#
        ),
        Err(ParseError::WrongEdgeCount { node_id: 0 })
    );
}

#[test]
fn rejects_a_dangling_edge_reference() {
    assert_eq!(
        DecisionTree::parse(
            r#"digraph{0[label="x[0] <= 5"]; 1[label="class = 0"]; 0->1; 0->9;}"#
        ),
        Err(ParseError::MissingNode { node_id: 9 })
    );
}

#[test]
fn rejects_a_cyclic_graph() {
    assert_eq!(
        DecisionTree::parse(r#"digraph{0[label="x[0] <= 5"]; 0->0; 0->0;}"#),
        Err(ParseError::CyclicGraph)
    );
}

#[test]
fn negative_thresholds_compare_exactly() {
    let dt = DecisionTree::parse(
        r#"digraph{0[label="x[0] <= -1.5"]; 1[label="class = 0"]; 2[label="class = 1"]; 0->1; 0->2;}"#,
    )
    .unwrap();
    assert_eq!(dt.decide(&vec![-2_000_000i64]), 0);
    assert_eq!(dt.decide(&vec![-1_500_000i64]), 0);
    assert_eq!(dt.decide(&vec![-1_499_999i64]), 1);
}

#[test]
fn walking_threshold_adjacent_vectors_selects_the_matching_leaf() {
    let dt = DecisionTree::parse(
        r#"digraph Tree {
            0 [label="x[0] <= 36.255"] ;
            1 [label="x[1] <= 0.954"] ;
            0 -> 1 ;
            2 [label="class = 0"] ;
            1 -> 2 ;
            3 [label="class = 1"] ;
            1 -> 3 ;
            4 [label="class = 2"] ;
            0 -> 4 ;
        }"#,
    )
    .unwrap();
    // each pair brackets one threshold from both sides, in micro units
    assert_eq!(dt.decide(&vec![36_255_000, 954_000]), 0);
    assert_eq!(dt.decide(&vec![36_255_000, 954_001]), 1);
    assert_eq!(dt.decide(&vec![36_255_001, 954_000]), 2);
    assert_eq!(dt.decide(&vec![36_255_001, 954_001]), 2);
    assert_eq!(dt.decide(&vec![36_254_999, 953_999]), 0);
}

#[test]
fn exponent_thresholds_parse_to_exact_decimals() {
    assert_eq!(
        Decision::try_parse_label_attr(b"x[0] <= 1e-3"),
        Ok(Some(Decision { feature_idx: 0, threshold: Threshold { mantissa: 1, scale: 3 } }))
    );
    assert_eq!(
        Decision::try_parse_label_attr(b"x[0] <= 1.5e2"),
        Ok(Some(Decision { feature_idx: 0, threshold: Threshold { mantissa: 150, scale: 0 } }))
    );
    assert_eq!(
        Decision::try_parse_label_attr(b"x[0] <= -2.5E+1"),
        Ok(Some(Decision { feature_idx: 0, threshold: Threshold { mantissa: -25, scale: 0 } }))
    );
    // exponents past the exact-decimal range are rejected, not rounded
    assert!(Decision::try_parse_label_attr(b"x[0] <= 1e30").is_err());
}

#[test]
fn leading_plus_signs_parse() {
    assert_eq!(
        Prediction::try_parse_label_attr(b"class = +7"),
        Ok(Some(Prediction { class: 7 }))
    );
    assert_eq!(
        Decision::try_parse_label_attr(b"x[+3] <= +0.5"),
        Ok(Some(Decision { feature_idx: 3, threshold: Threshold { mantissa: 5, scale: 1 } }))
    );
    assert!(Prediction::try_parse_label_attr(b"class = -7").is_err());
}

#[test]
fn exponent_threshold_decides_exactly() {
    let dt = DecisionTree::parse(
        r#"digraph{0[label="x[0] <= 1e-3"]; 1[label="class = 0"]; 2[label="class = 1"]; 0->1; 0->2;}"#,
    )
    .unwrap();
    // 1e-3 is 1000 micro units
    assert_eq!(dt.decide(&vec![1_000i64]), 0);
    assert_eq!(dt.decide(&vec![1_001i64]), 1);
}
