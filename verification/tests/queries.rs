use ex_open_directory::query::{
    membership_plans,
    group_membership_plan, search_options, user_lookup_plan, user_search_plan, MatchKind,
    QueryAttribute, QueryOptValue, RecordType, ReturnedAttributes,
};

fn s(x: &str) -> String {
    x.to_string()
}

fn atom(k: &str, v: &str) -> (String, QueryOptValue) {
    (s(k), QueryOptValue::Atom(s(v)))
}

fn num(k: &str, n: isize) -> (String, QueryOptValue) {
    (s(k), QueryOptValue::Int(n))
}

#[test]
fn search_defaults_to_contains_and_100() {
    assert_eq!(search_options(&vec![]), (MatchKind::Contains, 100));
}

#[test]
fn each_match_atom_selects_its_kind() {
    assert_eq!(search_options(&vec![atom("match", "exact")]).0, MatchKind::EqualTo);
    assert_eq!(search_options(&vec![atom("match", "begins_with")]).0, MatchKind::BeginsWith);
    assert_eq!(search_options(&vec![atom("match", "contains")]).0, MatchKind::Contains);
    assert_eq!(search_options(&vec![atom("match", "ends_with")]).0, MatchKind::EndsWith);
}

#[test]
fn unknown_match_keeps_previous_kind() {
    let opts = vec![atom("match", "exact"), atom("match", "fuzzy")];
    assert_eq!(search_options(&opts), (MatchKind::EqualTo, 100));
}

#[test]
fn non_atom_match_is_ignored() {
    let opts = vec![atom("match", "ends_with"), num("match", 3)];
    assert_eq!(search_options(&opts).0, MatchKind::EndsWith);
}

#[test]
fn limit_sets_max_results() {
    assert_eq!(search_options(&vec![num("limit", 25)]), (MatchKind::Contains, 25));
}

#[test]
fn non_integer_limit_is_ignored() {
    let opts = vec![num("limit", 7), atom("limit", "all"), (s("limit"), QueryOptValue::Other)];
    assert_eq!(search_options(&opts).1, 7);
}

#[test]
fn last_limit_wins() {
    let opts = vec![num("limit", 7), atom("match", "begins_with"), num("limit", 0)];
    assert_eq!(search_options(&opts), (MatchKind::BeginsWith, 0));
}

#[test]
fn negative_limit_is_passed_through() {
    assert_eq!(search_options(&vec![num("limit", -1)]).1, -1);
}

#[test]
fn unknown_keys_are_ignored() {
    let opts = vec![atom("order", "exact"), num("max", 3)];
    assert_eq!(search_options(&opts), (MatchKind::Contains, 100));
}

#[test]
fn user_lookup_is_exact_and_single() {
    let p = user_lookup_plan(&s("jsmith"));
    assert_eq!(p.record_type, RecordType::Users);
    assert_eq!(p.attribute, QueryAttribute::RecordName);
    assert_eq!(p.match_kind, MatchKind::EqualTo);
    assert_eq!(p.value, "jsmith");
    assert_eq!(p.returned, ReturnedAttributes::StandardOnly);
    assert_eq!(p.max_results, 1);
}

#[test]
fn user_search_uses_options() {
    let p = user_search_plan(&s("smi"), &vec![atom("match", "begins_with"), num("limit", 5)]);
    assert_eq!(p.record_type, RecordType::Users);
    assert_eq!(p.attribute, QueryAttribute::RecordName);
    assert_eq!(p.match_kind, MatchKind::BeginsWith);
    assert_eq!(p.value, "smi");
    assert_eq!(p.returned, ReturnedAttributes::StandardOnly);
    assert_eq!(p.max_results, 5);
}

#[test]
fn group_listing_is_unlimited_membership_query() {
    let p = group_membership_plan(&s("jsmith"));
    assert_eq!(p.record_type, RecordType::Groups);
    assert_eq!(p.attribute, QueryAttribute::GroupMembership);
    assert_eq!(p.match_kind, MatchKind::EqualTo);
    assert_eq!(p.value, "jsmith");
    assert_eq!(p.returned, ReturnedAttributes::RecordName);
    assert_eq!(p.max_results, 0);
}

#[test]
fn group_lookup_is_exact_and_single() {
    let p = ex_open_directory::query::group_lookup_plan(&s("Engineering"));
    assert_eq!(p.record_type, RecordType::Groups);
    assert_eq!(p.attribute, QueryAttribute::RecordName);
    assert_eq!(p.match_kind, MatchKind::EqualTo);
    assert_eq!(p.value, "Engineering");
    assert_eq!(p.returned, ReturnedAttributes::StandardOnly);
    assert_eq!(p.max_results, 1);
}

#[test]
fn membership_looks_up_user_then_group() {
    let (user, group) = membership_plans(&s("jsmith"), &s("Engineering"));
    assert_eq!(user.record_type, RecordType::Users);
    assert_eq!(user.value, "jsmith");
    assert_eq!(user.max_results, 1);
    assert_eq!(group.record_type, RecordType::Groups);
    assert_eq!(group.attribute, QueryAttribute::RecordName);
    assert_eq!(group.value, "Engineering");
    assert_eq!(group.max_results, 1);
}

#[test]
fn ignored_options_anywhere_change_nothing() {
    let plain = vec![atom("match", "exact"), num("limit", 9)];
    let noisy = vec![
        atom("match", "fuzzy"),
        atom("match", "exact"),
        (s("limit"), QueryOptValue::Other),
        atom("limit", "5"),
        num("limit", 9),
        atom("order", "asc"),
        num("match", 1),
    ];
    assert_eq!(search_options(&noisy), search_options(&plain));
}
