use x07c::suggest::rank_similar;

#[test]
fn typo_in_leaf_is_suggested() {
    let names = ["std.bytes.len", "std.bytes.eq", "std.vec.len"];
    let got = rank_similar("std.bytes.lenn", &names, 3);
    assert_eq!(got.first().map(String::as_str), Some("std.bytes.len"));
}

#[test]
fn exact_leaf_in_other_module_ranks_first() {
    let names = ["std.text.ascii.split_u8", "std.bytes.eq"];
    let got = rank_similar("std.text.split_u8", &names, 3);
    assert_eq!(
        got.first().map(String::as_str),
        Some("std.text.ascii.split_u8")
    );
}

#[test]
fn substring_leaf_matches() {
    let names = ["std.text.ascii.split_u8", "std.text.ascii.split_lines_view"];
    let got = rank_similar("std.text.ascii.split", &names, 3);
    // Equal scores fall back to lexicographic order for determinism.
    assert_eq!(
        got,
        vec![
            "std.text.ascii.split_lines_view".to_string(),
            "std.text.ascii.split_u8".to_string(),
        ]
    );
}

#[test]
fn unrelated_names_are_not_suggested() {
    let names = ["std.json.encode", "std.prng.next_u32"];
    assert!(rank_similar("std.bytes.lenn", &names, 3).is_empty());
}

#[test]
fn exact_match_is_excluded() {
    let names = ["std.bytes.len"];
    assert!(rank_similar("std.bytes.len", &names, 3).is_empty());
}

#[test]
fn output_is_deterministic_and_capped() {
    let names = ["a.f1", "a.f2", "a.f3", "a.f4"];
    let got = rank_similar("a.f", &names, 2);
    assert_eq!(got, vec!["a.f1".to_string(), "a.f2".to_string()]);
}

#[test]
fn candidate_order_does_not_change_ranking() {
    let a = ["a.f3", "a.f1", "a.f4", "a.f2"];
    let b = ["a.f2", "a.f4", "a.f1", "a.f3"];
    assert_eq!(rank_similar("a.f", &a, 4), rank_similar("a.f", &b, 4));
}

#[test]
fn whole_name_typo_in_module_path_is_suggested() {
    let names = ["std.bytes.len"];
    let got = rank_similar("std.byte.len", &names, 3);
    assert_eq!(got, vec!["std.bytes.len".to_string()]);
}

#[test]
fn max_zero_returns_nothing() {
    let names = ["std.bytes.len"];
    assert!(rank_similar("std.bytes.lenn", &names, 0).is_empty());
}

#[test]
fn leaf_typo_ranks_before_substring_hit_for_long_leaves() {
    let names = ["m.abcdefghi_more", "m.abcdefxyz"];
    let got = rank_similar("m.abcdefghi", &names, 3);
    assert_eq!(got, vec!["m.abcdefxyz".to_string(), "m.abcdefghi_more".to_string()]);
}

#[test]
fn ranking_ignores_candidate_order_and_limit_gives_prefix() {
    let a = ["a.f3", "a.f1", "a.g", "a.f2"];
    let b = ["a.f2", "a.g", "a.f1", "a.f3"];
    let full = rank_similar("a.f", &a, 4);
    assert_eq!(full, rank_similar("a.f", &b, 4));
    let short = rank_similar("a.f", &b, 2);
    assert_eq!(short[..], full[..2]);
}
