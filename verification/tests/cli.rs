use octomate::options::Options;

fn args(list: &[&str]) -> Vec<String> {
    list.iter().map(|a| a.to_string()).collect()
}

#[test]
fn batch_file_flag_is_read() {
    let opts = Options::from_cli(&args(&["octomate", "--batch-file", "batch.yml"]));
    assert_eq!(opts.unwrap().batch_file.as_str(), "batch.yml");
}

#[test]
fn missing_flag_gives_nothing() {
    assert!(Options::from_cli(&args(&["octomate"])).is_none());
    assert!(Options::from_cli(&args(&[])).is_none());
    assert!(Options::from_cli(&args(&["octomate", "batch.yml"])).is_none());
}

#[test]
fn flag_without_value_gives_nothing() {
    assert!(Options::from_cli(&args(&["octomate", "--batch-file"])).is_none());
}

#[test]
fn first_flag_wins() {
    let opts = Options::from_cli(&args(&[
        "octomate",
        "--batch-file",
        "first.yml",
        "--batch-file",
        "second.yml",
    ]));
    assert_eq!(opts.unwrap().batch_file.as_str(), "first.yml");
}
