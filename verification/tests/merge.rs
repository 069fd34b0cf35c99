use plaud_timestamp::merge::{
    concatenate, describe, detect_common_nested_directory, determine_output_path, exclude_output,
    output_identity, plan, same_identity, MergeError, MergeRequest,
};
use plaud_timestamp::ordering::{distinct_paths, sort_by_key};

fn strings(items: &[&str]) -> Vec<String> {
    items.iter().map(|s| s.to_string()).collect()
}

fn request(output: Option<&str>) -> MergeRequest {
    MergeRequest {
        patterns: vec![String::from("*")],
        output: output.map(String::from),
        no_delete: false,
    }
}

#[test]
fn mixed_dates_need_an_explicit_output() {
    let collected = strings(&[
        "20250127_061901_111901.txt",
        "20250128_061901_111901.txt",
    ]);
    assert!(matches!(
        plan(&request(None), &collected),
        Err(MergeError::MixedDates)
    ));
    let explicit = plan(&request(Some("out.txt")), &collected).unwrap();
    assert_eq!(explicit.output_path, "out.txt");
    assert_eq!(explicit.files, collected);
}

#[test]
fn files_without_any_date_need_an_explicit_output() {
    let collected = strings(&["a/061901-111901.txt", "b/112256-162256.txt"]);
    assert!(matches!(
        plan(&request(None), &collected),
        Err(MergeError::UndeterminedDate)
    ));
    assert!(matches!(
        plan(&request(None), &Vec::new()),
        Err(MergeError::UndeterminedDate)
    ));
    let explicit = plan(&request(Some("x/out.txt")), &collected).unwrap();
    assert_eq!(explicit.output_path, "x/out.txt");
    let empty = plan(&request(Some("x/out.txt")), &Vec::new()).unwrap();
    assert!(empty.files.is_empty());
}

#[test]
fn the_first_unrecognized_name_is_reported() {
    let collected = strings(&[
        "2025/01/27/112256-162256.txt",
        "first-bad.txt",
        "second-bad.txt",
    ]);
    match describe(&collected) {
        Err(MergeError::UnrecognizedFilename(path)) => assert_eq!(path, "first-bad.txt"),
        other => panic!("{:?}", other.map(|v| v.len())),
    }
    match plan(&request(Some("out.txt")), &collected) {
        Err(MergeError::UnrecognizedFilename(path)) => assert_eq!(path, "first-bad.txt"),
        other => panic!("{:?}", other),
    }
}

#[test]
fn dateless_files_sort_first_and_do_not_decide_the_date() {
    let collected = strings(&[
        "d/20250127_120000_130000.txt",
        "d/230000-235900.txt",
        "d/20250127_010000_020000.txt",
    ]);
    let plan = plan(&request(None), &collected).unwrap();
    assert_eq!(
        plan.files,
        strings(&[
            "d/230000-235900.txt",
            "d/20250127_010000_020000.txt",
            "d/20250127_120000_130000.txt",
        ])
    );
    assert_eq!(plan.output_path, "d/2025-01-27.txt");
}

#[test]
fn the_output_lies_beside_the_first_sorted_file() {
    let collected = strings(&[
        "late/20250127_120000_130000.txt",
        "early/20250127_010000_020000.txt",
    ]);
    let plan = plan(&request(None), &collected).unwrap();
    assert_eq!(plan.output_path, "early/2025-01-27.txt");
    let bare = strings(&["20250127_120000_130000.txt"]);
    assert_eq!(plan_path(&bare), "2025-01-27.txt");
    let rooted = strings(&["/20250127_120000_130000.txt"]);
    assert_eq!(plan_path(&rooted), "/2025-01-27.txt");
}

fn plan_path(collected: &Vec<String>) -> String {
    plan(&request(None), collected).unwrap().output_path
}

#[test]
fn a_common_day_directory_decides_before_the_dates_of_the_names() {
    let collected = strings(&[
        "x/2025-01-27/20250128_120000_130000.txt",
        "x/2025-01-27/20250129_010000_020000.txt",
    ]);
    let plan = plan(&request(None), &collected).unwrap();
    assert_eq!(plan.output_path, "x/2025-01-27/2025-01-27.txt");
    let (dir, _) = detect_common_nested_directory(&collected).unwrap();
    assert_eq!(dir, "x/2025-01-27");
}

#[test]
fn different_day_directories_are_not_common() {
    let same_date = strings(&[
        "a/2025/01/27/061901-111901.txt",
        "b/2025/01/27/112256-162256.txt",
    ]);
    assert!(detect_common_nested_directory(&same_date).is_none());
    assert_eq!(plan_path(&same_date), "a/2025/01/27/2025-01-27.txt");
    let two_days = strings(&[
        "2025/01/27/061901-111901.txt",
        "2025/01/28/112256-162256.txt",
    ]);
    assert!(detect_common_nested_directory(&two_days).is_none());
    assert!(matches!(
        plan(&request(None), &two_days),
        Err(MergeError::MixedDates)
    ));
    assert!(detect_common_nested_directory(&Vec::new()).is_none());
    assert!(detect_common_nested_directory(&strings(&["a.txt"])).is_none());
}

#[test]
fn equal_keys_keep_their_discovery_order() {
    let collected = strings(&[
        "b/20250127_120000_130000.txt",
        "a/20250127_120000_140000.txt",
        "c/20250127_110000_120000.txt",
        "a/20250127_120000_150000.txt",
    ]);
    let items = describe(&collected).unwrap();
    let sorted = sort_by_key(&items);
    let paths: Vec<&str> = sorted.iter().map(|d| d.path.as_str()).collect();
    assert_eq!(
        paths,
        vec![
            "c/20250127_110000_120000.txt",
            "b/20250127_120000_130000.txt",
            "a/20250127_120000_140000.txt",
            "a/20250127_120000_150000.txt",
        ]
    );
}

#[test]
fn sorting_orders_across_days_and_times() {
    let collected = strings(&[
        "20250128_000000_010000.txt",
        "20250127_235959_010000.txt",
        "20241231_120000_130000.txt",
        "20250127_000000_010000.txt",
    ]);
    let items = describe(&collected).unwrap();
    let sorted = sort_by_key(&items);
    let paths: Vec<&str> = sorted.iter().map(|d| d.path.as_str()).collect();
    assert_eq!(
        paths,
        vec![
            "20241231_120000_130000.txt",
            "20250127_000000_010000.txt",
            "20250127_235959_010000.txt",
            "20250128_000000_010000.txt",
        ]
    );
    assert!(sort_by_key(&Vec::new()).is_empty());
}

#[test]
fn a_file_matched_twice_is_merged_once() {
    let collected = strings(&[
        "2025/01/27/112256-162256.txt",
        "2025/01/27/061901-111901.txt",
        "2025/01/27/112256-162256.txt",
        "2025/01/27/061901-111901.txt",
        "2025/01/27/061901-111901.txt",
    ]);
    let plan = plan(&request(None), &collected).unwrap();
    assert_eq!(
        plan.files,
        strings(&["2025/01/27/061901-111901.txt", "2025/01/27/112256-162256.txt"])
    );
    let items = describe(&collected).unwrap();
    assert_eq!(distinct_paths(&items).len(), 4);
}

#[test]
fn only_neighbours_collapse() {
    let collected = strings(&[
        "a/20250127_120000_130000.txt",
        "b/20250127_120000_130000.txt",
        "a/20250127_120000_130000.txt",
    ]);
    let plan = plan(&request(Some("o")), &collected).unwrap();
    assert_eq!(plan.files, collected);
}

#[test]
fn the_output_is_taken_out_of_the_sources() {
    let files = strings(&["d/a.txt", "d/out.txt", "d/b.txt"]);
    let canonical = vec![
        Some(String::from("/abs/d/a.txt")),
        Some(String::from("/abs/d/out.txt")),
        None,
    ];
    let identity = output_identity("d/out.txt", Some(String::from("/abs/d/out.txt")));
    assert_eq!(identity, "/abs/d/out.txt");
    assert_eq!(
        exclude_output(&files, &canonical, &identity),
        strings(&["d/a.txt", "d/b.txt"])
    );
    let literal = output_identity("d/b.txt", None);
    assert_eq!(literal, "d/b.txt");
    assert_eq!(
        exclude_output(&files, &canonical, &literal),
        strings(&["d/a.txt", "d/out.txt"])
    );
    let linked = vec![
        Some(String::from("/abs/d/out.txt")),
        Some(String::from("/abs/d/out.txt")),
        Some(String::from("/abs/d/out.txt")),
    ];
    assert!(exclude_output(&files, &linked, &identity).is_empty());
}

#[test]
fn segments_are_joined_without_gluing_or_blank_lines() {
    assert_eq!(concatenate(&strings(&["a\n", "b\n"])), "a\nb\n");
    assert_eq!(concatenate(&strings(&["a", "b"])), "a\nb");
    assert_eq!(concatenate(&strings(&["a", "b\n", "c"])), "a\nb\nc");
    assert_eq!(concatenate(&strings(&["a\n\n", "b"])), "a\n\nb");
    assert_eq!(concatenate(&strings(&["only"])), "only");
    assert_eq!(concatenate(&Vec::new()), "");
    assert_eq!(concatenate(&strings(&["a\n", "", "b"])), "a\nb");
    assert_eq!(concatenate(&strings(&["", "b"])), "\nb");
}

#[test]
fn explicit_output_is_used_verbatim() {
    let files = strings(&["2025/01/27/061901-111901.txt"]);
    let items = describe(&files).unwrap();
    let path = determine_output_path(&files, &items, &request(Some("any where/at all"))).unwrap();
    assert_eq!(path, "any where/at all");
    let inferred = determine_output_path(&files, &items, &request(None)).unwrap();
    assert_eq!(inferred, "2025/01/27/2025-01-27.txt");
}

#[test]
fn identity_is_the_canonical_path_where_there_is_one() {
    let output = String::from("/abs/out.txt");
    assert!(same_identity(
        &String::from("out.txt"),
        &Some(String::from("/abs/out.txt")),
        &output
    ));
    assert!(!same_identity(&String::from("out.txt"), &None, &output));
    assert!(same_identity(&String::from("/abs/out.txt"), &None, &output));
    assert!(!same_identity(
        &String::from("/abs/out.txt"),
        &Some(String::from("/abs/other.txt")),
        &output
    ));
}

#[test]
fn one_file_written_in_two_ways_is_merged_once() {
    let collected = strings(&[
        "2025/01/27/061901-111901.txt",
        "2025/01/27//061901-111901.txt",
        "2025/./01/27/061901-111901.txt",
        "2025/01/27/112256-162256.txt",
    ]);
    let plan = plan(&request(None), &collected).unwrap();
    assert_eq!(
        plan.files,
        strings(&["2025/01/27/061901-111901.txt", "2025/01/27/112256-162256.txt"])
    );
    assert_eq!(plan.output_path, "2025/01/27/2025-01-27.txt");
}

#[test]
fn a_day_directory_is_common_however_it_is_written() {
    let collected = strings(&[
        "x//2025-01-27/061901-111901.txt",
        "x/2025-01-27/./112256-162256.txt",
        "x/2025-01-27//130000-140000.txt",
    ]);
    let (dir, _) = detect_common_nested_directory(&collected).unwrap();
    assert_eq!(dir, "x//2025-01-27");
    assert_eq!(plan_path(&collected), "x//2025-01-27/2025-01-27.txt");
    let apart = strings(&[
        "x/2025-01-27/061901-111901.txt",
        "./x/2025-01-27/112256-162256.txt",
    ]);
    assert!(detect_common_nested_directory(&apart).is_none());
}

#[test]
fn the_output_is_known_however_it_is_written() {
    let output = String::from("out//merged.txt");
    assert!(same_identity(&String::from("out/merged.txt"), &None, &output));
    assert!(same_identity(&String::from("out/./merged.txt/"), &None, &output));
    assert!(!same_identity(&String::from("./out/merged.txt"), &None, &output));
    assert_eq!(
        exclude_output(
            &strings(&["out/a.txt", "out/merged.txt"]),
            &vec![None, None],
            &output
        ),
        strings(&["out/a.txt"])
    );
}
