use operator_deploy::labels::Labels;

fn labels(pairs: &[(&str, &str)]) -> Labels {
    let mut labels = Labels::new();
    for (key, value) in pairs {
        labels.insert(key.to_string(), value.to_string());
    }
    labels
}

#[test]
fn selector_is_in_the_order_of_the_keys() {
    assert_eq!(labels(&[("name", "op"), ("app", "tekton"), ("b", "")]).selector(), "app=tekton,b=,name=op");
    assert_eq!(labels(&[("aa", "1"), ("a", "2"), ("Z", "3")]).selector(), "Z=3,a=2,aa=1");
}

#[test]
fn no_labels_no_selector() {
    assert_eq!(labels(&[]).selector(), "");
}

#[test]
fn one_label() {
    assert_eq!(labels(&[("app", "x")]).selector(), "app=x");
}

#[test]
fn a_key_has_one_value() {
    assert_eq!(labels(&[("a", "1"), ("b", "2"), ("a", "3")]).selector(), "a=3,b=2");
}

#[test]
fn selector_does_not_depend_on_the_order_of_insertion() {
    let one = labels(&[("x", "1"), ("y", "2"), ("z", "3")]);
    let two = labels(&[("z", "3"), ("y", "0"), ("x", "1"), ("y", "2")]);
    assert_eq!(one.selector(), two.selector());
}
