use vstd::prelude::*;
use crate::outcome::{err_to_string, error_text, opt_view};
use crate::expiry::{days_from_seconds, expiry_days, spec_days_from_seconds, spec_expiry_days};

verus! {

/// The reply of the directory to a query: the query could not be made or run
/// (with the error's description where the directory gave one), or the
/// records it found, in the order the directory returned them.
pub enum Lookup<T> {
    Failed(Option<String>),
    Found(Vec<T>),
}

/// The text reported when no user has the name that was looked up.
pub open spec fn not_found_text(username: Seq<char>) -> Seq<char> {
    "User '"@ + username + "' not found"@
}

/// The user record that a lookup by name yields: the first record found;
/// a failed query reports its error, and an empty reply reports that no such
/// user exists.
pub fn find_user_record<T>(username: &String, lookup: Lookup<T>) -> (res: Result<T, String>)
    ensures
        match lookup {
            Lookup::Failed(e) => res matches Err(t) && t@ == error_text(opt_view(e)),
            Lookup::Found(v) => if v.len() == 0 {
                res matches Err(t) && t@ == not_found_text(username@)
            } else {
                res matches Ok(r) && r == v@[0]
            },
        },
{
    match lookup {
        Lookup::Failed(e) => Err(err_to_string(e)),
        Lookup::Found(mut v) => {
            if v.len() == 0 {
                let mut t = String::from_str("User '");
                t.append(username.as_str());
                t.append("' not found");
                Err(t)
            } else {
                Ok(v.remove(0))
            }
        },
    }
}

/// The views of a sequence of strings.
pub open spec fn texts(v: Seq<String>) -> Seq<Seq<char>> {
    v.map_values(|s: String| s@)
}

/// The names a listing query yields: the record names found, in order, and
/// none when the query could not be made or run.
pub open spec fn listed_names(lookup: Lookup<String>) -> Seq<Seq<char>> {
    match lookup {
        Lookup::Failed(_) => Seq::empty(),
        Lookup::Found(v) => texts(v@),
    }
}

/// The record names that a user search or a group listing hands back: those
/// found, in order; a query that fails lists nothing rather than failing.
pub fn names_or_empty(lookup: Lookup<String>) -> (res: Vec<String>)
    ensures
        texts(res@) == listed_names(lookup),
{
    match lookup {
        Lookup::Failed(_) => Vec::new(),
        Lookup::Found(v) => v,
    }
}

/// The first record a lookup found, if it found any.
pub open spec fn spec_first_record<T>(lookup: Lookup<T>) -> Option<T> {
    match lookup {
        Lookup::Found(v) => if v.len() > 0 { Some(v@[0]) } else { None },
        Lookup::Failed(_) => None,
    }
}

/// The records whose membership is checked: the user's and the group's,
/// when both lookups found one; `None` when either the user or the group is
/// unknown or could not be looked up.
pub fn membership_records<T>(user: Lookup<T>, group: Lookup<T>) -> (res: Option<(T, T)>)
    ensures
        res == match (spec_first_record(user), spec_first_record(group)) {
            (Some(u), Some(g)) => Some((u, g)),
            _ => None,
        },
{
    match (user, group) {
        (Lookup::Found(mut u), Lookup::Found(mut g)) => {
            if u.len() > 0 && g.len() > 0 {
                let ur = u.remove(0);
                let gr = g.remove(0);
                Some((ur, gr))
            } else {
                None
            }
        },
        _ => None,
    }
}

/// The answer to a membership question, from the flag of the membership
/// check of the group record, or `None` when no check was made because the
/// user or the group was not found.
pub open spec fn spec_membership_answer(check: Option<bool>) -> bool {
    match check {
        None => false,
        Some(b) => b,
    }
}

/// Reads the membership check: a member exactly when a check was made and
/// said yes. A check that fails says no, like one that finds no membership,
/// and any error it leaves is not reported: a membership question is answered
/// with yes or no, never with an error.
pub fn membership_answer(check: Option<bool>) -> (res: bool)
    ensures
        res == spec_membership_answer(check),
{
    match check {
        None => false,
        Some(b) => b,
    }
}

/// A user is reported a member of a group only when both the user's and the
/// group's records were found and the directory's membership check (which
/// follows nested groups) said yes; an unknown user or group is a member of
/// nothing.
pub proof fn lemma_member_only_when_checked<T>(user: Lookup<T>, group: Lookup<T>, flag: bool)
    ensures
        ({
            let check = match (spec_first_record(user), spec_first_record(group)) {
                (Some(_), Some(_)) => Some(flag),
                _ => None,
            };
            &&& spec_membership_answer(check)
                <==> (spec_first_record(user) is Some && spec_first_record(group) is Some && flag)
            &&& (spec_first_record(user) is None || spec_first_record(group) is None)
                ==> !spec_membership_answer(check)
        }),
{
}

/// The values of an attribute that could be read as strings, in order.
pub open spec fn readable_values(vals: Seq<Option<String>>) -> Seq<Seq<char>>
    decreases vals.len(),
{
    if vals.len() == 0 {
        Seq::empty()
    } else {
        let prev = readable_values(vals.drop_last());
        match vals.last() {
            Some(s) => prev.push(s@),
            None => prev,
        }
    }
}

/// The values reported for one attribute: those that could be read, and none
/// when the record holds no such attribute.
pub open spec fn attribute_values(found: Option<Vec<Option<String>>>) -> Seq<Seq<char>> {
    match found {
        Some(v) => readable_values(v@),
        None => Seq::empty(),
    }
}

fn readable_strings(vals: &Vec<Option<String>>) -> (res: Vec<String>)
    ensures
        texts(res@) == readable_values(vals@),
{
    let mut out: Vec<String> = Vec::new();
    let n = vals.len();
    let mut i: usize = 0;
    while i < n
        invariant
            n == vals@.len(),
            i <= n,
            texts(out@) == readable_values(vals@.take(i as int)),
        decreases n - i,
    {
        assert(vals@.take(i + 1).drop_last() =~= vals@.take(i as int));
        match &vals[i] {
            Some(s) => {
                out.push(s.clone());
                assert(texts(out@) =~= readable_values(vals@.take(i as int)).push(s@));
            },
            None => {},
        }
        i = i + 1;
    }
    assert(vals@.take(n as int) =~= vals@);
    out
}

fn values_of(found: &Option<Vec<Option<String>>>) -> (res: Vec<String>)
    ensures
        texts(res@) == attribute_values(*found),
{
    match found {
        Some(v) => readable_strings(v),
        None => Vec::new(),
    }
}

/// The attributes reported for a record: for each requested name, in order,
/// the name with the values of that attribute that could be read (none where
/// the record has no such attribute). `found[i]` is what the record holds
/// for `names[i]`.
pub fn collect_attributes(names: &Vec<String>, found: &Vec<Option<Vec<Option<String>>>>) -> (res: Vec<(String, Vec<String>)>)
    requires
        found.len() == names.len(),
    ensures
        res.len() == names.len(),
        forall|i: int| 0 <= i < names.len() ==> {
            &&& (#[trigger] res@[i]).0@ == names@[i]@
            &&& texts(res@[i].1@) == attribute_values(found@[i])
        },
{
    let mut out: Vec<(String, Vec<String>)> = Vec::new();
    let n = names.len();
    let mut i: usize = 0;
    while i < n
        invariant
            n == names@.len(),
            found@.len() == n,
            i <= n,
            out.len() == i,
            forall|m: int| 0 <= m < i ==> {
                &&& (#[trigger] out@[m]).0@ == names@[m]@
                &&& texts(out@[m].1@) == attribute_values(found@[m])
            },
        decreases n - i,
    {
        let values = values_of(&found[i]);
        out.push((names[i].clone(), values));
        i = i + 1;
    }
    out
}

/// The first value of an attribute, when the attribute is there, has a
/// value, and that first value could be read as a string.
pub open spec fn first_value(found: Option<Vec<Option<String>>>) -> Option<Seq<char>> {
    match found {
        Some(v) => if v.len() > 0 {
            match v@[0] {
                Some(s) => Some(s@),
                None => None,
            }
        } else {
            None
        },
        None => None,
    }
}

/// For each attribute name in order, the name with its first value, for the
/// attributes that have a readable first value; the others are left out.
pub open spec fn first_value_entries(names: Seq<Seq<char>>, found: Seq<Option<Vec<Option<String>>>>) -> Seq<(Seq<char>, Seq<char>)>
    decreases found.len(),
{
    if found.len() == 0 {
        Seq::empty()
    } else {
        let prev = first_value_entries(names.drop_last(), found.drop_last());
        match first_value(found.last()) {
            Some(v) => prev.push((names.last(), v)),
            None => prev,
        }
    }
}

/// The views of a sequence of pairs of strings.
pub open spec fn text_pairs(v: Seq<(String, String)>) -> Seq<(Seq<char>, Seq<char>)> {
    v.map_values(|p: (String, String)| (p.0@, p.1@))
}

/// The attribute names a password policy is read from, in the order they are
/// reported.
pub open spec fn policy_attributes() -> Seq<Seq<char>> {
    seq![
        "dsAttrTypeNative:accountPolicyData"@,
        "dsAttrTypeNative:pwdLastSet"@,
        "dsAttrTypeNative:msDS-UserPasswordExpiryTimeComputed"@,
    ]
}

/// The attribute names a password policy is read from: the local account
/// policy, the time the password was last set, and the computed expiry time
/// of the password in Active Directory.
pub fn policy_attribute_names() -> (res: Vec<String>)
    ensures
        texts(res@) == policy_attributes(),
{
    let mut v: Vec<String> = Vec::new();
    v.push(String::from_str("dsAttrTypeNative:accountPolicyData"));
    v.push(String::from_str("dsAttrTypeNative:pwdLastSet"));
    v.push(String::from_str("dsAttrTypeNative:msDS-UserPasswordExpiryTimeComputed"));
    assert(texts(v@) =~= policy_attributes());
    v
}

fn first_readable(found: &Option<Vec<Option<String>>>) -> (res: Option<String>)
    ensures
        opt_view(res) == first_value(*found),
{
    match found {
        Some(v) => {
            if v.len() > 0 {
                match &v[0] {
                    Some(s) => Some(s.clone()),
                    None => None,
                }
            } else {
                None
            }
        },
        None => None,
    }
}

/// Pairs each attribute name with its first value, in order, leaving out the
/// attributes whose first value is missing or unreadable. `found[i]` is what
/// the record holds for `names[i]`.
pub fn first_values(names: &Vec<String>, found: &Vec<Option<Vec<Option<String>>>>) -> (res: Vec<(String, String)>)
    requires
        found.len() == names.len(),
    ensures
        text_pairs(res@) == first_value_entries(texts(names@), found@),
{
    let mut out: Vec<(String, String)> = Vec::new();
    let n = names.len();
    let mut i: usize = 0;
    while i < n
        invariant
            n == names@.len(),
            found@.len() == n,
            i <= n,
            text_pairs(out@) == first_value_entries(texts(names@).take(i as int), found@.take(i as int)),
        decreases n - i,
    {
        assert(texts(names@).take(i + 1).drop_last() =~= texts(names@).take(i as int));
        assert(found@.take(i + 1).drop_last() =~= found@.take(i as int));
        assert(texts(names@).take(i + 1).last() == names@[i as int]@);
        match first_readable(&found[i]) {
            Some(v) => {
                out.push((names[i].clone(), v));
                assert(text_pairs(out@) =~= first_value_entries(texts(names@).take(i as int), found@.take(i as int)).push((names@[i as int]@, v@)));
            },
            None => {},
        }
        i = i + 1;
    }
    assert(texts(names@).take(n as int) =~= texts(names@));
    assert(found@.take(n as int) =~= found@);
    out
}

/// The password policy of a user's record: each policy attribute, in order,
/// with its first value, for those whose first value could be read.
/// `found[i]` is what the record holds for the `i`-th policy attribute.
pub fn password_policy_entries(found: &Vec<Option<Vec<Option<String>>>>) -> (res: Vec<(String, String)>)
    requires
        found.len() == 3,
    ensures
        text_pairs(res@) == first_value_entries(policy_attributes(), found@),
{
    let names = policy_attribute_names();
    first_values(&names, found)
}

/// The password policy of a user's record: the policy attributes with their
/// first values, and the whole days until the password expires (`None` when
/// it never expires).
pub struct PasswordPolicy {
    pub attributes: Vec<(String, String)>,
    pub days_until_expiry: Option<i64>,
}

/// The days until a password expires: from the record's computed expiry
/// time in Active Directory when it has one that can be read and is not
/// "never"; otherwise from the seconds until expiry that the record's and the
/// node's password policies give.
pub open spec fn spec_policy_days(expiry_text: Option<Seq<char>>, seconds_until_expiry: int, now: int) -> Option<int> {
    match spec_expiry_days(expiry_text, now) {
        Some(d) => Some(d),
        None => spec_days_from_seconds(seconds_until_expiry),
    }
}

/// Builds the password policy of a user's record: each policy attribute, in
/// order, with its readable first value, and the days until the password
/// expires. `found[i]` is what the record holds for the `i`-th policy
/// attribute; `seconds_until_expiry` is what the password policies of the
/// record and its node give (`-1` for never); `now` is the Unix time.
pub fn password_policy(found: &Vec<Option<Vec<Option<String>>>>, seconds_until_expiry: i64, now: i64) -> (res: PasswordPolicy)
    requires
        found.len() == 3,
    ensures
        text_pairs(res.attributes@) == first_value_entries(policy_attributes(), found@),
        match spec_policy_days(first_value(found@[2]), seconds_until_expiry as int, now as int) {
            Some(d) => res.days_until_expiry == Some(d as i64) && d == res.days_until_expiry.unwrap(),
            None => res.days_until_expiry is None,
        },
{
    let attributes = password_policy_entries(found);
    let expiry_text = first_readable(&found[2]);
    let days_until_expiry = match expiry_days(&expiry_text, now) {
        Some(d) => Some(d),
        None => days_from_seconds(seconds_until_expiry),
    };
    PasswordPolicy { attributes, days_until_expiry }
}

/// Reading first values reports each attribute at most once, only attributes
/// that were asked for, and no more entries than names: so a password policy
/// holds at most the three policy attributes, each once.
pub proof fn lemma_first_value_entries_distinct(names: Seq<Seq<char>>, found: Seq<Option<Vec<Option<String>>>>)
    requires
        names.len() == found.len(),
        forall|i: int, j: int| 0 <= i < j < names.len() ==> names[i] != names[j],
    ensures
        first_value_entries(names, found).len() <= names.len(),
        forall|i: int| 0 <= i < first_value_entries(names, found).len()
            ==> names.contains((#[trigger] first_value_entries(names, found)[i]).0),
        forall|i: int, j: int| 0 <= i < j < first_value_entries(names, found).len()
            ==> (#[trigger] first_value_entries(names, found)[i]).0 != (#[trigger] first_value_entries(names, found)[j]).0,
    decreases found.len(),
{
    if found.len() > 0 {
        let pn = names.drop_last();
        let pf = found.drop_last();
        lemma_first_value_entries_distinct(pn, pf);
        let prev = first_value_entries(pn, pf);
        let cur = first_value_entries(names, found);
        assert forall|i: int| 0 <= i < prev.len() implies names.contains((#[trigger] prev[i]).0) && prev[i].0 != names.last() by {
            let k = choose|k: int| 0 <= k < pn.len() && pn[k] == prev[i].0;
            assert(names[k] == pn[k]);
        }
        assert forall|i: int| 0 <= i < cur.len() implies names.contains((#[trigger] cur[i]).0) by {
            if i < prev.len() {
                assert(cur[i] == prev[i]);
            } else {
                assert(names[names.len() - 1] == names.last());
            }
        }
    }
}

/// The three policy attribute names are distinct.
pub proof fn lemma_policy_attributes_distinct()
    ensures
        forall|i: int, j: int| 0 <= i < j < policy_attributes().len() ==> policy_attributes()[i] != policy_attributes()[j],
{
    reveal_strlit("dsAttrTypeNative:accountPolicyData");
    reveal_strlit("dsAttrTypeNative:pwdLastSet");
    reveal_strlit("dsAttrTypeNative:msDS-UserPasswordExpiryTimeComputed");
    assert(policy_attributes()[0].len() != policy_attributes()[1].len());
    assert(policy_attributes()[0].len() != policy_attributes()[2].len());
    assert(policy_attributes()[1].len() != policy_attributes()[2].len());
}

/// A password policy reports at most the three policy attributes, each at
/// most once, and nothing else.
pub proof fn lemma_password_policy_entries_distinct(found: Seq<Option<Vec<Option<String>>>>)
    requires
        found.len() == 3,
    ensures
        first_value_entries(policy_attributes(), found).len() <= 3,
        forall|i: int| 0 <= i < first_value_entries(policy_attributes(), found).len()
            ==> policy_attributes().contains((#[trigger] first_value_entries(policy_attributes(), found)[i]).0),
        forall|i: int, j: int| 0 <= i < j < first_value_entries(policy_attributes(), found).len()
            ==> (#[trigger] first_value_entries(policy_attributes(), found)[i]).0
                != (#[trigger] first_value_entries(policy_attributes(), found)[j]).0,
{
    lemma_policy_attributes_distinct();
    lemma_first_value_entries_distinct(policy_attributes(), found);
}

/// A successful listing hands back every name found, unchanged and in
/// order; a failed one hands back none.
pub proof fn lemma_listing_keeps_every_name(v: Vec<String>, e: Option<String>)
    ensures
        listed_names(Lookup::Found(v)).len() == v.len(),
        forall|i: int| 0 <= i < v.len() ==> #[trigger] listed_names(Lookup::Found(v))[i] == v@[i]@,
        listed_names(Lookup::<String>::Failed(e)).len() == 0,
{
}

/// The values reported for an attribute are all of its readable values, in
/// order: a readable value appended is reported last, an unreadable one is
/// skipped, and when every value is readable each is reported, one for one.
pub proof fn lemma_readable_values_are_all_reported(v: Seq<Option<String>>, s: String)
    ensures
        readable_values(v.push(Some(s))) == readable_values(v).push(s@),
        readable_values(v.push(None)) == readable_values(v),
        readable_values(v).len() <= v.len(),
        (forall|i: int| 0 <= i < v.len() ==> (#[trigger] v[i]) is Some) ==> {
            &&& readable_values(v).len() == v.len()
            &&& forall|i: int| 0 <= i < v.len() ==> #[trigger] readable_values(v)[i] == v[i]->Some_0@
        },
    decreases v.len(),
{
    assert(v.push(Some(s)).drop_last() =~= v);
    assert(v.push(None::<String>).drop_last() =~= v);
    if v.len() > 0 {
        let prev = v.drop_last();
        lemma_readable_values_are_all_reported(prev, s);
        if forall|i: int| 0 <= i < v.len() ==> (#[trigger] v[i]) is Some {
            assert forall|i: int| 0 <= i < prev.len() implies (#[trigger] prev[i]) is Some by {
                assert(prev[i] == v[i]);
            }
            assert(v.last() is Some);
            assert forall|i: int| 0 <= i < v.len() implies #[trigger] readable_values(v)[i] == v[i]->Some_0@ by {
                if i < prev.len() {
                    assert(prev[i] == v[i]);
                }
            }
        }
    }
}

/// An attribute the record does not hold reports no values; one it holds
/// reports its readable values.
pub proof fn lemma_attribute_values_of(v: Vec<Option<String>>)
    ensures
        attribute_values(None).len() == 0,
        attribute_values(Some(v)) == readable_values(v@),
{
}

/// A user lookup that finds records yields the first of them; one that finds
/// none names the user in its error: the text is "User '", the name, and
/// "' not found".
pub proof fn lemma_first_record_and_not_found<T>(v: Vec<T>, u: Seq<char>, e: Option<String>)
    ensures
        v.len() > 0 ==> spec_first_record(Lookup::Found(v)) == Some(v@[0]),
        v.len() == 0 ==> spec_first_record(Lookup::Found(v)) is None,
        spec_first_record(Lookup::<T>::Failed(e)) is None,
        not_found_text(u).len() == u.len() + 17,
        not_found_text(u).subrange(6, 6 + u.len() as int) == u,
        not_found_text(u).subrange(0, 6) == "User '"@,
        not_found_text(u).subrange(6 + u.len() as int, u.len() + 17int) == "' not found"@,
{
    reveal_strlit("User '");
    reveal_strlit("' not found");
    assert(not_found_text(u).subrange(6, 6 + u.len() as int) =~= u);
    assert(not_found_text(u).subrange(0, 6) =~= "User '"@);
    assert(not_found_text(u).subrange(6 + u.len() as int, u.len() + 17int) =~= "' not found"@);
}

/// When every attribute has a readable first value, the policy reports each
/// attribute, in order, with that value; an attribute with none is left out.
pub proof fn lemma_first_value_entries_complete(names: Seq<Seq<char>>, found: Seq<Option<Vec<Option<String>>>>)
    requires
        names.len() == found.len(),
        forall|i: int| 0 <= i < found.len() ==> (#[trigger] first_value(found[i])) is Some,
    ensures
        first_value_entries(names, found).len() == names.len(),
        forall|i: int| 0 <= i < names.len() ==>
            #[trigger] first_value_entries(names, found)[i] == (names[i], first_value(found[i])->Some_0),
    decreases found.len(),
{
    if found.len() > 0 {
        let pn = names.drop_last();
        let pf = found.drop_last();
        assert forall|i: int| 0 <= i < pf.len() implies (#[trigger] first_value(pf[i])) is Some by {
            assert(pf[i] == found[i]);
        }
        lemma_first_value_entries_complete(pn, pf);
        assert(first_value(found[found.len() - 1]) is Some);
        assert forall|i: int| 0 <= i < names.len() implies
            #[trigger] first_value_entries(names, found)[i] == (names[i], first_value(found[i])->Some_0) by {
            if i < pn.len() {
                assert(pn[i] == names[i] && pf[i] == found[i]);
            }
        }
    }
}

/// The days of a password policy come from the computed expiry time when
/// there is one; a record without one (a local account) gets the days from
/// the seconds its password policies leave, and never reports days only
/// when those policies say the password never expires.
pub proof fn lemma_policy_days_without_expiry_time(seconds: int, now: int)
    ensures
        spec_policy_days(None, seconds, now) == spec_days_from_seconds(seconds),
        spec_policy_days(None, seconds, now) is None <==> seconds == -1,
{
}

/// A user is a member when the check said so and not otherwise; no check,
/// no membership.
pub proof fn lemma_membership_answer_is_the_flag(b: bool)
    ensures
        spec_membership_answer(Some(b)) == b,
        !spec_membership_answer(None),
{
}

/// The first value of an attribute is its first value when that one could be
/// read; an attribute that is missing, empty, or whose first value could not
/// be read has none (later values are not looked at).
pub proof fn lemma_first_value_of(v: Vec<Option<String>>)
    ensures
        first_value(None) is None,
        v.len() == 0 ==> first_value(Some(v)) is None,
        v.len() > 0 && v@[0] is None ==> first_value(Some(v)) is None,
        v.len() > 0 && v@[0] is Some ==> first_value(Some(v)) == Some(v@[0]->Some_0@),
{
}

/// The views of strings keep their number and order.
pub proof fn lemma_texts_one_for_one(v: Seq<String>, w: Seq<(String, String)>)
    ensures
        texts(v).len() == v.len(),
        forall|i: int| 0 <= i < v.len() ==> #[trigger] texts(v)[i] == v[i]@,
        text_pairs(w).len() == w.len(),
        forall|i: int| 0 <= i < w.len() ==> #[trigger] text_pairs(w)[i] == (w[i].0@, w[i].1@),
{
}

} // verus!
