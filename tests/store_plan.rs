use terminusdb_10_to_11::layer_id::name_to_string;
use terminusdb_10_to_11::reachable::{
    is_special_label, layer_id_value_to_id, split_labels, ConversionPlan, ReachableWalk,
};
use terminusdb_10_to_11::status::{
    lookup_status, parse_status_line, parse_status_log, status_line, ConversionStatus,
};
use terminusdb_10_to_11::store::{LayerOutcome, NextStep, StoreTraversal};
use terminusdb_10_to_11::values::{value_string_to_slices, DataConversionError, LangOrType};

const A: [u32; 5] = [1, 0, 0, 0, 0];
const B: [u32; 5] = [2, 0, 0, 0, 0];
const C: [u32; 5] = [3, 0, 0, 0, 0];
const D: [u32; 5] = [4, 0, 0, 0, 0];

#[test]
fn status_words() {
    assert_eq!(ConversionStatus::Error.to_string(), "Error");
    assert_eq!(ConversionStatus::Completed.to_string(), "Completed");
    assert_eq!(ConversionStatus::Started.to_string(), "Started");
    assert_eq!(ConversionStatus::from_str("Completed"), Some(ConversionStatus::Completed));
    assert_eq!(ConversionStatus::from_str("Error"), Some(ConversionStatus::Error));
    assert_eq!(ConversionStatus::from_str("Started"), Some(ConversionStatus::Started));
    assert_eq!(ConversionStatus::from_str("Done"), None);
}

#[test]
fn status_lines_round_trip() {
    let line = status_line(B, ConversionStatus::Started);
    assert_eq!(line, format!("{} Started\n", name_to_string(B)));
    assert_eq!(parse_status_line(line.trim_end()), Some((B, ConversionStatus::Started)));
}

#[test]
fn status_line_without_status_is_refused() {
    assert_eq!(parse_status_line(&name_to_string(B)), None);
    assert_eq!(parse_status_line(""), None);
    assert_eq!(parse_status_line(&format!("{} Finished", name_to_string(B))), None);
}

#[test]
fn last_status_wins() {
    let lines = vec![
        format!("{} Started", name_to_string(A)),
        format!("{} Completed", name_to_string(A)),
        format!("{} Started", name_to_string(B)),
    ];
    let records = parse_status_log(&lines).unwrap();
    assert_eq!(lookup_status(&records, &A), Some(ConversionStatus::Completed));
    assert_eq!(lookup_status(&records, &B), Some(ConversionStatus::Started));
    assert_eq!(lookup_status(&records, &C), None);
    let bad = vec![lines[0].clone(), "nonsense".to_string()];
    assert_eq!(parse_status_log(&bad), Err(1));
}

fn plan() -> ConversionPlan {
    // A is a base layer with children B and C; C has child D.
    let mut walk = ReachableWalk::new(vec![D, B]);
    while let Some(layer) = walk.next_layer() {
        let parent = match layer {
            x if x == D => Some(C),
            x if x == B || x == C => Some(A),
            _ => None,
        };
        walk.record_parent(layer, parent);
    }
    walk.into_plan()
}

#[test]
fn walk_finds_all_ancestors() {
    let p = plan();
    assert_eq!(p.children_of(&None), vec![A]);
    assert_eq!(p.children_of(&Some(A)), vec![B, C]);
    assert_eq!(p.children_of(&Some(C)), vec![D]);
    assert_eq!(p.children_of(&Some(D)), Vec::<[u32; 5]>::new());
}

#[test]
fn plan_drops_repeated_edges() {
    let p = ConversionPlan::from_edges(vec![(Some(A), C), (None, A), (Some(A), B), (Some(A), C)]);
    assert_eq!(p.children_of(&Some(A)), vec![B, C]);
}

fn run_with(
    records: &Vec<([u32; 5], ConversionStatus)>,
    missing: &[[u32; 5]],
    fail: Option<[u32; 5]>,
    keep_going: bool,
) -> (Vec<String>, Result<(), Vec<[u32; 5]>>) {
    let p = plan();
    let mut t = StoreTraversal::new(&p, keep_going);
    let mut log = Vec::new();
    let mut present: Vec<[u32; 5]> = records
        .iter()
        .filter(|(l, s)| *s == ConversionStatus::Completed && !missing.contains(l))
        .map(|(l, _)| *l)
        .collect();
    loop {
        let exists = match t.peek() {
            Some(l) => present.contains(&l),
            None => false,
        };
        match t.next_step(&p, records, exists) {
            NextStep::Done => break,
            NextStep::Skip(l) => log.push(format!("skip {}", l[0])),
            NextStep::Convert { layer, cleanup } => {
                log.push(format!("convert {} {}", layer[0], cleanup));
                let outcome = if Some(layer) == fail {
                    LayerOutcome::Failed
                } else if present.contains(&layer) {
                    LayerOutcome::AlreadyConverted
                } else {
                    present.push(layer);
                    LayerOutcome::Converted
                };
                let step = t.record_result(&p, layer, outcome);
                if !step.go_on {
                    log.push("abort".to_string());
                    return (log, Err(vec![layer]));
                }
            }
        }
    }
    (log, t.outcome())
}

fn run(records: &Vec<([u32; 5], ConversionStatus)>, fail: Option<[u32; 5]>, keep_going: bool) -> (Vec<String>, Result<(), Vec<[u32; 5]>>) {
    run_with(records, &[], fail, keep_going)
}

#[test]
fn deleted_destination_is_converted_again_with_its_descendants() {
    let all = vec![
        (A, ConversionStatus::Completed),
        (B, ConversionStatus::Completed),
        (C, ConversionStatus::Completed),
        (D, ConversionStatus::Completed),
    ];
    let (log, r) = run_with(&all, &[C], None, false);
    assert_eq!(log, vec!["skip 1", "convert 3 true", "convert 4 false", "skip 2"]);
    assert_eq!(r, Ok(()));
}

#[test]
fn intact_completed_store_converts_nothing() {
    let all = vec![
        (A, ConversionStatus::Completed),
        (B, ConversionStatus::Completed),
        (C, ConversionStatus::Completed),
        (D, ConversionStatus::Completed),
    ];
    let (log, r) = run_with(&all, &[], None, false);
    assert_eq!(log, vec!["skip 1", "skip 3", "skip 4", "skip 2"]);
    assert_eq!(r, Ok(()));
}

#[test]
fn parents_convert_before_children() {
    let (log, r) = run(&vec![], None, false);
    assert_eq!(log, vec!["convert 1 false", "convert 3 false", "convert 4 false", "convert 2 false"]);
    assert_eq!(r, Ok(()));
}

#[test]
fn completed_layers_are_skipped_but_children_visited() {
    let records = vec![(A, ConversionStatus::Completed), (C, ConversionStatus::Error), (B, ConversionStatus::Completed)];
    let (log, r) = run(&records, None, false);
    assert_eq!(log, vec!["skip 1", "convert 3 true", "convert 4 false", "skip 2"]);
    assert_eq!(r, Ok(()));
}

#[test]
fn keep_going_skips_the_failed_subtree() {
    let (log, r) = run(&vec![], Some(C), true);
    assert_eq!(log, vec!["convert 1 false", "convert 3 false", "convert 2 false"]);
    assert_eq!(r, Err(vec![C]));
}

#[test]
fn failure_aborts_without_keep_going() {
    let (log, _) = run(&vec![], Some(C), false);
    assert_eq!(log, vec!["convert 1 false", "convert 3 false", "abort"]);
}

#[test]
fn already_converted_counts_as_converted() {
    let p = plan();
    let mut t = StoreTraversal::new(&p, false);
    match t.next_step(&p, &vec![], false) {
        NextStep::Convert { layer, .. } => {
            let step = t.record_result(&p, layer, LayerOutcome::AlreadyConverted);
            assert_eq!(step.status, ConversionStatus::Completed);
            assert!(step.go_on);
        }
        _ => panic!("expected a conversion"),
    }
    assert_eq!(t.stack, vec![(B, true), (C, true)]);
}

#[test]
fn special_labels() {
    assert!(is_special_label("terminusdb%3a%2f%2f%2fsystem%2fschema"));
    assert!(is_special_label("http%3a%2f%2fterminusdb.com%2fschema%2fwoql"));
    assert!(!is_special_label("admin%2fmydb"));
    let labels = vec![
        ("terminusdb%3a%2f%2f%2fsystem%2fdata".to_string(), Some(A)),
        ("admin%2fmydb".to_string(), Some(B)),
        ("empty".to_string(), None),
    ];
    let (special, products) = split_labels(&labels);
    assert_eq!(special, vec![A]);
    assert_eq!(products, vec![B]);
}

#[test]
fn layer_id_values() {
    let name = name_to_string(C);
    let v = format!("\"{name}\"^^'http://www.w3.org/2001/XMLSchema#string'");
    assert_eq!(layer_id_value_to_id(&v), Some(C));
    assert_eq!(layer_id_value_to_id(&format!("{name}^^'http://www.w3.org/2001/XMLSchema#string'")), None);
    assert_eq!(layer_id_value_to_id(&format!("\"{name}\"^^'http://www.w3.org/2001/XMLSchema#token'")), None);
}

#[test]
fn typed_value_strings() {
    match value_string_to_slices("2^^'http://www.w3.org/2001/XMLSchema#unsignedLong'").unwrap() {
        LangOrType::Type(v, t) => {
            assert_eq!(v, b"2".to_vec());
            assert_eq!(t, b"http://www.w3.org/2001/XMLSchema#unsignedLong".to_vec());
        }
        _ => panic!("expected a typed value"),
    }
}

#[test]
fn language_value_strings() {
    assert_eq!(
        value_string_to_slices("\"hello\"@en").unwrap(),
        LangOrType::Lang(b"\"hello\"".to_vec(), b"en".to_vec())
    );
    assert_eq!(
        value_string_to_slices("hi@'fr'").unwrap(),
        LangOrType::Lang(b"hi".to_vec(), b"'fr'".to_vec())
    );
}

#[test]
fn malformed_value_strings() {
    for s in ["", "plain", "'", "x'y'", "^'t'", "a^'t'"] {
        match value_string_to_slices(s) {
            Err(DataConversionError::ValueStringHadUnexpectedFormat(v)) => assert_eq!(v, s),
            other => panic!("{s:?} gave {other:?}"),
        }
    }
}
