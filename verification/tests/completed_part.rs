use cobalt_aws::s3::completed_part::{sort_by_part_number, CompletedPart};

fn completed(n: i32, tag: &str) -> CompletedPart {
    CompletedPart { e_tag: Some(tag.to_string()), part_number: n }
}

#[test]
fn sorts_by_part_number_keeping_the_parts() {
    let parts = vec![completed(3, "c"), completed(1, "a"), completed(4, "d"), completed(2, "b")];
    let sorted = sort_by_part_number(parts);
    assert_eq!(sorted, vec![completed(1, "a"), completed(2, "b"), completed(3, "c"), completed(4, "d")]);
}

#[test]
fn sort_is_stable_and_keeps_empty() {
    assert!(sort_by_part_number(Vec::new()).is_empty());
    let sorted = sort_by_part_number(vec![completed(2, "x"), completed(1, "y"), completed(2, "z")]);
    assert_eq!(sorted, vec![completed(1, "y"), completed(2, "x"), completed(2, "z")]);
    let sorted = sort_by_part_number(vec![completed(3, "a"), completed(3, "b"), completed(1, "c"), completed(3, "d")]);
    assert_eq!(sorted, vec![completed(1, "c"), completed(3, "a"), completed(3, "b"), completed(3, "d")]);
}
