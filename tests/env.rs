use boxxy::env::env_in_order;

fn pair(k: &str, v: &str) -> (String, String) {
    (k.to_string(), v.to_string())
}

#[test]
fn rule_assignments_come_after_dotenv_in_rule_order() {
    let dotenv = vec![pair("A", "dotenv"), pair("B", "dotenv")];
    let rules = vec![vec![pair("A", "rule1")], vec![], vec![pair("A", "rule3"), pair("C", "rule3")]];
    let order = env_in_order(&dotenv, &rules);
    assert_eq!(
        order,
        vec![pair("A", "dotenv"), pair("B", "dotenv"), pair("A", "rule1"), pair("A", "rule3"), pair("C", "rule3")]
    );
    let last_a = order.iter().rev().find(|(k, _)| k == "A").map(|(_, v)| v.as_str());
    assert_eq!(last_a, Some("rule3"));
}

#[test]
fn no_assignments_leaves_inherited_environment() {
    assert!(env_in_order(&vec![], &vec![vec![], vec![]]).is_empty());
}
