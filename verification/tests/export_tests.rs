use inventory_mdp::config::MDPConfig;
use inventory_mdp::engine::MDPOptimizer;
use serde_json::{Number, Value};

// The result artifact is written by the external exporter as a JSON
// document holding, among other fields, the value-function and policy
// arrays.  Serializing those arrays and re-parsing the text must give the
// identical arrays back.
#[test]
fn exported_arrays_round_trip() {
    let cfg = MDPConfig { max_inventory: 12, ..MDPConfig::default() };
    let mut opt = MDPOptimizer::new(cfg).unwrap();
    opt.value_iteration(10_000, 500).unwrap();
    let (s, big_s) = opt.compute_s_s_policy();

    let mut doc = serde_json::Map::new();
    let values: Vec<Value> = opt
        .value_function
        .iter()
        .map(|v| Value::Number(Number::from(*v)))
        .collect();
    let actions: Vec<Value> = opt
        .policy
        .iter()
        .map(|p| Value::Number(Number::from(*p as u64)))
        .collect();
    doc.insert("value_function".to_string(), Value::Array(values));
    doc.insert("policy".to_string(), Value::Array(actions));
    doc.insert("s_policy".to_string(), Value::Number(Number::from(s as u64)));
    doc.insert("S_policy".to_string(), Value::Number(Number::from(big_s as u64)));
    let text = serde_json::to_string_pretty(&Value::Object(doc)).unwrap();

    let parsed: Value = serde_json::from_str(&text).unwrap();
    let parsed_values: Vec<i64> = parsed["value_function"]
        .as_array()
        .unwrap()
        .iter()
        .map(|v| v.as_i64().unwrap())
        .collect();
    let parsed_policy: Vec<usize> = parsed["policy"]
        .as_array()
        .unwrap()
        .iter()
        .map(|v| v.as_u64().unwrap() as usize)
        .collect();
    assert_eq!(parsed_values, opt.value_function);
    assert_eq!(parsed_policy, opt.policy);
    assert_eq!(parsed["s_policy"].as_u64().unwrap() as usize, s);
    assert_eq!(parsed["S_policy"].as_u64().unwrap() as usize, big_s);
}
