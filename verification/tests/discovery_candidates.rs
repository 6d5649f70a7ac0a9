use huemanity::discovery::discover;

fn strings(items: &[&str]) -> Vec<String> {
    items.iter().map(|s| s.to_string()).collect()
}

#[test]
fn no_responder_gives_no_candidate() {
    assert_eq!(discover(Vec::new()), Vec::<String>::new());
}

#[test]
fn each_responder_is_a_candidate_once_in_order_of_first_answer() {
    let found = discover(strings(&["10.0.0.2", "10.0.0.9", "10.0.0.2", "10.0.0.4", "10.0.0.9"]));
    assert_eq!(found, strings(&["10.0.0.2", "10.0.0.9", "10.0.0.4"]));
}

#[test]
fn distinct_responders_are_kept_as_they_came() {
    let found = discover(strings(&["c", "a", "b"]));
    assert_eq!(found, strings(&["c", "a", "b"]));
}

#[test]
fn one_responder_answering_many_times_is_one_candidate() {
    assert_eq!(discover(strings(&["x", "x", "x"])), strings(&["x"]));
}
