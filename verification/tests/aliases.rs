use querydown::aliases::Aliases;

#[test]
fn aliases_get_the_first_free_suffix() {
    let mut aliases = Aliases::new();
    assert_eq!(aliases.get_alias("users"), "users");
    assert_eq!(aliases.get_alias("users"), "users_1");
    assert_eq!(aliases.get_alias("users"), "users_2");
    assert_eq!(aliases.get_alias("teams"), "teams");
    assert!(aliases.contains(&"users_1".to_string()));
    assert!(!aliases.contains(&"users_3".to_string()));
}

#[test]
fn aliases_skip_names_already_given_out() {
    let mut aliases = Aliases::new();
    aliases.taken.push("users_1".to_string());
    assert_eq!(aliases.get_alias("users"), "users");
    assert_eq!(aliases.get_alias("users"), "users_2");
}

#[test]
fn cte_aliases_count_up_past_taken_names() {
    let mut aliases = Aliases::new();
    assert_eq!(aliases.get_cte_alias("cte"), "cte0");
    aliases.taken.push("cte1".to_string());
    assert_eq!(aliases.get_cte_alias("cte"), "cte2");
    assert_eq!(aliases.cte_naming_index, 3);
    assert_eq!(aliases.get_alias("cte2"), "cte2_1");
}
