use devil_arm::report::frame;

#[test]
fn dump_is_framed() {
    let values = vec!["0".to_string(), "0.5".to_string(), "1".to_string()];
    assert_eq!(frame(&values), vec!["NewData", "0", "0.5", "1", "EndData\n"]);
}

#[test]
fn dump_of_nothing_is_the_bare_frame() {
    assert_eq!(frame(&vec![]), vec!["NewData", "EndData\n"]);
}

#[test]
fn dump_prints_floats_without_padding() {
    let inputs = [0.25f32, 1.0f32, 0.0f32];
    let values: Vec<String> = inputs.iter().map(|input| format!("{}", input)).collect();
    assert_eq!(frame(&values).join("\n"), "NewData\n0.25\n1\n0\nEndData\n");
}
