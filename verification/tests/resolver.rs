use zkproof::request::{advance, RequestStage, RequestStep};
use zkproof::resolver::{first_complete, paths_from_arguments, search_order, SEARCH_DEPTH};

fn strings(words: &[&str]) -> Vec<String> {
    words.iter().map(|w| w.to_string()).collect()
}

#[test]
fn the_search_order_is_fixed() {
    let dirs = search_order();
    assert_eq!(dirs.len(), SEARCH_DEPTH);
    assert_eq!(
        dirs,
        vec![
            ".", "./main_js", "../main_js", "./circom", "../circom", "./circuits", "../circuits",
            "./build", "../build", "../../circom",
        ]
    );
}

#[test]
fn two_path_arguments_are_taken() {
    let arguments = strings(&["zkproof", "main.wasm", "main.r1cs", "extra"]);
    assert_eq!(
        paths_from_arguments(&arguments),
        Some(("main.wasm".to_string(), "main.r1cs".to_string()))
    );
    assert_eq!(paths_from_arguments(&strings(&["zkproof", "main.wasm"])), None);
    assert_eq!(paths_from_arguments(&strings(&[])), None);
}

#[test]
fn the_first_directory_with_both_files_wins() {
    let present = vec![(true, false), (false, true), (true, true), (true, true)];
    assert_eq!(first_complete(&present), Some(2));
    assert_eq!(first_complete(&vec![(true, false), (false, true)]), None);
    assert_eq!(first_complete(&vec![]), None);
}

#[test]
fn a_request_moves_strictly_forward() {
    assert_eq!(advance(RequestStage::Unbound, RequestStep::BindWitness), Some(RequestStage::WitnessBound));
    assert_eq!(advance(RequestStage::WitnessBound, RequestStep::Prove), Some(RequestStage::Proved));
    assert_eq!(advance(RequestStage::Proved, RequestStep::Verify), Some(RequestStage::Verified));
    assert_eq!(advance(RequestStage::Proved, RequestStep::Encode), Some(RequestStage::Encoded));
    let stages = [
        RequestStage::Unbound,
        RequestStage::WitnessBound,
        RequestStage::Proved,
        RequestStage::Verified,
        RequestStage::Encoded,
    ];
    let steps = [RequestStep::BindWitness, RequestStep::Prove, RequestStep::Verify, RequestStep::Encode];
    let mut allowed = 0;
    for stage in stages {
        for step in steps {
            if advance(stage, step).is_some() {
                allowed += 1;
            }
        }
    }
    assert_eq!(allowed, 4);
    assert_eq!(advance(RequestStage::Verified, RequestStep::Prove), None);
    assert_eq!(advance(RequestStage::Encoded, RequestStep::Verify), None);
    assert_eq!(advance(RequestStage::Unbound, RequestStep::Prove), None);
}

fn entry(stem: &str, extension: &str) -> zkproof::resolver::Entry {
    zkproof::resolver::Entry { stem: stem.to_string(), extension: extension.to_string() }
}

#[test]
fn the_first_pair_among_entries_goes_by_witness_modules() {
    use_pair(
        vec![entry("b", "r1cs"), entry("a", "wasm"), entry("b", "wasm"), entry("a", "r1cs")],
        Some((1, 3)),
    );
    use_pair(vec![entry("a", "wasm"), entry("a", "sym"), entry("b", "r1cs")], None);
    use_pair(vec![entry("a", "r1cs"), entry("a", "r1cs")], None);
    use_pair(vec![], None);
    use_pair(vec![entry("a", "wasm"), entry("a", "r1cs"), entry("a", "r1cs")], Some((0, 1)));
}

fn use_pair(entries: Vec<zkproof::resolver::Entry>, expected: Option<(usize, usize)>) {
    assert_eq!(zkproof::resolver::first_pair(&entries), expected);
}

#[test]
fn named_files_come_before_main_files_before_stems() {
    let present = vec![(false, true), (true, true), (true, true)];
    let listings = vec![
        None,
        Some(vec![entry("x", "wasm")]),
        Some(vec![entry("y", "r1cs"), entry("y", "wasm")]),
        Some(vec![entry("z", "wasm"), entry("z", "r1cs")]),
    ];
    let choose = zkproof::resolver::choose_files;
    assert_eq!(choose(Some((true, true)), &present, &listings), Ok(zkproof::resolver::Choice::Named));
    assert_eq!(
        choose(Some((true, false)), &present, &listings),
        Ok(zkproof::resolver::Choice::Main { dir: 1 })
    );
    assert_eq!(choose(None, &present, &listings), Ok(zkproof::resolver::Choice::Main { dir: 1 }));
    let absent = vec![(false, true), (true, false)];
    assert_eq!(
        choose(None, &absent, &listings),
        Ok(zkproof::resolver::Choice::Stems { dir: 2, wasm: 1, r1cs: 0 })
    );
    let bare = vec![None, Some(vec![entry("x", "wasm")])];
    assert_eq!(
        choose(Some((false, true)), &absent, &bare),
        Err(zkproof::error::ArtifactLoadError::NotFound)
    );
    assert_eq!(choose(None, &vec![], &vec![]), Err(zkproof::error::ArtifactLoadError::NotFound));
}
