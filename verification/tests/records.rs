use ex_open_directory::records::{
    collect_attributes, find_user_record, first_values, membership_answer, membership_records,
    names_or_empty, password_policy, password_policy_entries, policy_attribute_names, Lookup,
};

fn s(x: &str) -> String {
    x.to_string()
}

fn names(xs: &[&str]) -> Vec<String> {
    xs.iter().map(|x| s(x)).collect()
}

#[test]
fn first_record_is_the_user() {
    let r = find_user_record(&s("jsmith"), Lookup::Found(vec![10u32, 20]));
    assert_eq!(r, Ok(10));
}

#[test]
fn no_record_means_user_not_found() {
    let r = find_user_record::<u32>(&s("jsmith"), Lookup::Found(vec![]));
    assert_eq!(r, Err(s("User 'jsmith' not found")));
}

#[test]
fn failed_lookup_reports_its_error() {
    let r = find_user_record::<u32>(&s("jsmith"), Lookup::Failed(Some(s("node unreachable"))));
    assert_eq!(r, Err(s("node unreachable")));
    let r = find_user_record::<u32>(&s("jsmith"), Lookup::Failed(None));
    assert_eq!(r, Err(s("Unknown error")));
}

#[test]
fn search_lists_names_in_order() {
    let v = names_or_empty(Lookup::Found(names(&["bob", "alice", "carol"])));
    assert_eq!(v, names(&["bob", "alice", "carol"]));
}

#[test]
fn failed_search_lists_nothing() {
    assert!(names_or_empty(Lookup::Failed(Some(s("boom")))).is_empty());
    assert!(names_or_empty(Lookup::Failed(None)).is_empty());
}

#[test]
fn membership_needs_both_records() {
    let both = membership_records(Lookup::Found(vec![1u8, 2]), Lookup::Found(vec![7u8]));
    assert_eq!(both, Some((1, 7)));
    assert_eq!(membership_records(Lookup::Found(vec![]), Lookup::Found(vec![7u8])), None);
    assert_eq!(membership_records(Lookup::Found(vec![1u8]), Lookup::Found(vec![])), None);
    assert_eq!(membership_records::<u8>(Lookup::Failed(None), Lookup::Found(vec![7])), None);
    assert_eq!(membership_records::<u8>(Lookup::Found(vec![1]), Lookup::Failed(Some(s("x")))), None);
}

#[test]
fn membership_answer_reads_the_check() {
    assert!(!membership_answer(None));
    assert!(membership_answer(Some(true)));
    assert!(!membership_answer(Some(false)));
}

#[test]
fn attributes_follow_requested_names() {
    let asked = names(&["dsAttrTypeStandard:RealName", "dsAttrTypeStandard:EMailAddress", "missing"]);
    let found = vec![
        Some(vec![Some(s("John Smith"))]),
        Some(vec![Some(s("js@example.com")), None, Some(s("john@example.com"))]),
        None,
    ];
    let r = collect_attributes(&asked, &found);
    assert_eq!(r.len(), 3);
    assert_eq!(r[0], (s("dsAttrTypeStandard:RealName"), names(&["John Smith"])));
    assert_eq!(
        r[1],
        (s("dsAttrTypeStandard:EMailAddress"), names(&["js@example.com", "john@example.com"]))
    );
    assert_eq!(r[2], (s("missing"), vec![]));
}

#[test]
fn no_attributes_requested() {
    assert!(collect_attributes(&vec![], &vec![]).is_empty());
}

#[test]
fn policy_attribute_names_are_fixed() {
    assert_eq!(
        policy_attribute_names(),
        names(&[
            "dsAttrTypeNative:accountPolicyData",
            "dsAttrTypeNative:pwdLastSet",
            "dsAttrTypeNative:msDS-UserPasswordExpiryTimeComputed",
        ])
    );
}

#[test]
fn policy_keeps_first_readable_values() {
    let found = vec![
        None,
        Some(vec![Some(s("133000000000000000")), Some(s("ignored"))]),
        Some(vec![Some(s("133500000000000000"))]),
    ];
    let r = password_policy_entries(&found);
    assert_eq!(
        r,
        vec![
            (s("dsAttrTypeNative:pwdLastSet"), s("133000000000000000")),
            (s("dsAttrTypeNative:msDS-UserPasswordExpiryTimeComputed"), s("133500000000000000")),
        ]
    );
}

#[test]
fn policy_skips_empty_and_unreadable_first_values() {
    let found = vec![Some(vec![]), Some(vec![None, Some(s("later"))]), None];
    assert!(password_policy_entries(&found).is_empty());
}

#[test]
fn first_values_pairs_in_order() {
    let asked = names(&["a", "b"]);
    let found = vec![Some(vec![Some(s("1"))]), Some(vec![Some(s("2")), Some(s("3"))])];
    assert_eq!(first_values(&asked, &found), vec![(s("a"), s("1")), (s("b"), s("2"))]);
}

const NOW: i64 = 1_700_000_000;

fn filetime_of_unix(unix: i64) -> String {
    ((unix + 11_644_473_600) as i128 * 10_000_000).to_string()
}

#[test]
fn policy_counts_days_until_expiry() {
    let expiry = filetime_of_unix(NOW + 14 * 86_400 + 3_600);
    let found = vec![None, None, Some(vec![Some(expiry.clone())])];
    let p = password_policy(&found, -1, NOW);
    assert_eq!(p.days_until_expiry, Some(14));
    assert_eq!(
        p.attributes,
        vec![(s("dsAttrTypeNative:msDS-UserPasswordExpiryTimeComputed"), expiry)]
    );
}

#[test]
fn policy_of_expired_password_has_no_days_left() {
    let found = vec![None, None, Some(vec![Some(filetime_of_unix(NOW - 86_400))])];
    assert_eq!(password_policy(&found, -1, NOW).days_until_expiry, Some(0));
    let found = vec![None, None, Some(vec![Some(s("0"))])];
    assert_eq!(password_policy(&found, -1, NOW).days_until_expiry, Some(0));
}

#[test]
fn policy_of_password_that_never_expires() {
    let found = vec![None, None, Some(vec![Some(s("9223372036854775807"))])];
    assert_eq!(password_policy(&found, -1, NOW).days_until_expiry, None);
}

#[test]
fn policy_without_expiry_time() {
    let found = vec![Some(vec![Some(s("<plist/>"))]), None, None];
    let p = password_policy(&found, -1, NOW);
    assert_eq!(p.days_until_expiry, None);
    assert_eq!(p.attributes, vec![(s("dsAttrTypeNative:accountPolicyData"), s("<plist/>"))]);
    let found = vec![None, None, Some(vec![Some(s("soon"))])];
    assert_eq!(password_policy(&found, -1, NOW).days_until_expiry, None);
}

#[test]
fn local_policy_seconds_give_the_days() {
    let found = vec![Some(vec![Some(s("<plist/>"))]), None, None];
    let p = password_policy(&found, 14 * 86_400 + 3_600, NOW);
    assert_eq!(p.days_until_expiry, Some(14));
    assert_eq!(password_policy(&found, 0, NOW).days_until_expiry, Some(0));
    assert_eq!(password_policy(&found, -1, NOW).days_until_expiry, None);
}

#[test]
fn computed_expiry_time_comes_first() {
    let expiry = filetime_of_unix(NOW + 3 * 86_400);
    let found = vec![None, None, Some(vec![Some(expiry)])];
    assert_eq!(password_policy(&found, 30 * 86_400, NOW).days_until_expiry, Some(3));
    let never = vec![None, None, Some(vec![Some(s("9223372036854775807"))])];
    assert_eq!(password_policy(&never, 30 * 86_400, NOW).days_until_expiry, Some(30));
}
