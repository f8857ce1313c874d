use vstd::prelude::*;
use crate::outcome::{opt_view, same_text};

verus! {

/// The value of a connection option as read off its term: a string, or
/// anything that does not decode as one.
pub enum OptValue {
    Text(String),
    NotText,
}

/// The username and password that a scan of the options has gathered so far,
/// or the text of the first option that stopped it.
pub type CredentialScan = Result<(Option<Seq<char>>, Option<Seq<char>>), Seq<char>>;

pub open spec fn username_error() -> Seq<char> {
    "username must be a string"@
}

pub open spec fn password_error() -> Seq<char> {
    "password must be a string"@
}

/// Reads the options in order: a `username` or `password` option records its
/// string, replacing an earlier one of the same key; one whose value is no
/// string stops the scan with its error; every other key is ignored.
pub open spec fn scan_credentials(opts: Seq<(String, OptValue)>) -> CredentialScan
    decreases opts.len(),
{
    if opts.len() == 0 {
        Ok((None, None))
    } else {
        match scan_credentials(opts.drop_last()) {
            Err(e) => Err(e),
            Ok((u, p)) => {
                let key = opts.last().0;
                let value = opts.last().1;
                if key@ == "username"@ {
                    match value {
                        OptValue::Text(s) => Ok((Some(s@), p)),
                        OptValue::NotText => Err(username_error()),
                    }
                } else if key@ == "password"@ {
                    match value {
                        OptValue::Text(s) => Ok((u, Some(s@))),
                        OptValue::NotText => Err(password_error()),
                    }
                } else {
                    Ok((u, p))
                }
            },
        }
    }
}

/// The credentials to set on a new connection: both the username and the
/// password when the options name both, nothing otherwise.
pub open spec fn credentials_to_set(scan: CredentialScan) -> Result<Option<(Seq<char>, Seq<char>)>, Seq<char>> {
    match scan {
        Err(e) => Err(e),
        Ok((Some(u), Some(p))) => Ok(Some((u, p))),
        Ok(_) => Ok(None),
    }
}

/// Reads the username and password options of a connection, in order.
pub fn scan_connect_options(opts: &Vec<(String, OptValue)>) -> (res: Result<(Option<String>, Option<String>), String>)
    ensures
        match scan_credentials(opts@) {
            Ok((u, p)) => res matches Ok((ru, rp)) && opt_view(ru) == u && opt_view(rp) == p,
            Err(e) => res matches Err(re) && re@ == e,
        },
{
    let mut user: Option<String> = None;
    let mut pass: Option<String> = None;
    let n = opts.len();
    let mut i: usize = 0;
    while i < n
        invariant
            n == opts@.len(),
            i <= n,
            scan_credentials(opts@.take(i as int)) == Ok::<(Option<Seq<char>>, Option<Seq<char>>), Seq<char>>((opt_view(user), opt_view(pass))),
        decreases n - i,
    {
        assert(opts@.take(i + 1).drop_last() =~= opts@.take(i as int));
        let pair = &opts[i];
        if same_text(&pair.0, "username") {
            match &pair.1 {
                OptValue::Text(s) => {
                    user = Some(s.clone());
                },
                OptValue::NotText => {
                    proof { lemma_scan_error_sticks(opts@, i as int + 1); }
                    return Err(String::from_str("username must be a string"));
                },
            }
        } else if same_text(&pair.0, "password") {
            match &pair.1 {
                OptValue::Text(s) => {
                    pass = Some(s.clone());
                },
                OptValue::NotText => {
                    proof { lemma_scan_error_sticks(opts@, i as int + 1); }
                    return Err(String::from_str("password must be a string"));
                },
            }
        }
        i = i + 1;
    }
    assert(opts@.take(n as int) =~= opts@);
    Ok((user, pass))
}

/// Once a prefix of the options has stopped the scan, every longer prefix
/// stops it with the same error.
proof fn lemma_scan_error_sticks(opts: Seq<(String, OptValue)>, k: int)
    requires
        0 <= k <= opts.len(),
        scan_credentials(opts.take(k)) is Err,
    ensures
        scan_credentials(opts) == scan_credentials(opts.take(k)),
    decreases opts.len() - k,
{
    if k < opts.len() {
        assert(opts.take(k + 1).drop_last() =~= opts.take(k));
        lemma_scan_error_sticks(opts, k + 1);
    } else {
        assert(opts.take(k) =~= opts);
    }
}

/// The credentials a new connection sets, read from its options: both the
/// username and the password where both are given, none where either is
/// missing, and the error of the first option whose value is no string.
pub fn connect_credentials(opts: &Vec<(String, OptValue)>) -> (res: Result<Option<(String, String)>, String>)
    ensures
        match credentials_to_set(scan_credentials(opts@)) {
            Ok(Some((u, p))) => res matches Ok(Some((ru, rp))) && ru@ == u && rp@ == p,
            Ok(None) => res matches Ok(None),
            Err(e) => res matches Err(re) && re@ == e,
        },
{
    match scan_connect_options(opts) {
        Err(e) => Err(e),
        Ok((Some(u), Some(p))) => Ok(Some((u, p))),
        Ok(_) => Ok(None),
    }
}

/// An option that stops the scan: a `username` or `password` whose value is
/// no string.
pub open spec fn is_bad_credential(opt: (String, OptValue)) -> bool {
    (opt.0@ == "username"@ || opt.0@ == "password"@) && opt.1 is NotText
}

/// What a finished scan holds for one of the two credential keys.
pub open spec fn scanned_value(u: Option<Seq<char>>, p: Option<Seq<char>>, key: Seq<char>) -> Option<Seq<char>> {
    if key == "username"@ { u } else { p }
}

/// The options of a connection are refused exactly when one of them is a
/// `username` or `password` whose value is no string.
pub proof fn lemma_credentials_refused_iff_bad_option(opts: Seq<(String, OptValue)>)
    ensures
        scan_credentials(opts) is Err <==> exists|i: int| 0 <= i < opts.len() && #[trigger] is_bad_credential(opts[i]),
    decreases opts.len(),
{
    if opts.len() > 0 {
        let prev = opts.drop_last();
        lemma_credentials_refused_iff_bad_option(prev);
        if exists|i: int| 0 <= i < prev.len() && #[trigger] is_bad_credential(prev[i]) {
            let i = choose|i: int| 0 <= i < prev.len() && #[trigger] is_bad_credential(prev[i]);
            assert(is_bad_credential(opts[i]));
        }
        if is_bad_credential(opts[opts.len() - 1]) {
            assert(scan_credentials(opts) is Err);
        }
        if exists|i: int| 0 <= i < opts.len() && #[trigger] is_bad_credential(opts[i]) {
            let i = choose|i: int| 0 <= i < opts.len() && #[trigger] is_bad_credential(opts[i]);
            if i < opts.len() - 1 {
                assert(is_bad_credential(prev[i]));
            }
        }
    }
}

/// When the options are accepted, the username (or password) that a
/// connection uses is the string of the last option with that key, and there
/// is none when no option has that key: a later option replaces an earlier
/// one, and options with other keys change nothing.
pub proof fn lemma_credentials_last_option_wins(opts: Seq<(String, OptValue)>, key: Seq<char>)
    requires
        key == "username"@ || key == "password"@,
    ensures
        scan_credentials(opts) matches Ok((u, p)) ==> {
            let v = scanned_value(u, p, key);
            &&& (v is None <==> forall|i: int| 0 <= i < opts.len() ==> (#[trigger] opts[i]).0@ != key)
            &&& (v matches Some(s) ==> exists|i: int| {
                &&& 0 <= i < opts.len()
                &&& (#[trigger] opts[i]).0@ == key
                &&& opts[i].1 matches OptValue::Text(t) && t@ == s
                &&& forall|j: int| i < j < opts.len() ==> (#[trigger] opts[j]).0@ != key
            })
        },
    decreases opts.len(),
{
    if opts.len() > 0 {
        let prev = opts.drop_last();
        lemma_credentials_last_option_wins(prev, key);
        let n = opts.len() - 1;
        if let Ok((u, p)) = scan_credentials(opts) {
            let (pu, pp) = scan_credentials(prev)->Ok_0;
            let v = scanned_value(u, p, key);
            let pv = scanned_value(pu, pp, key);
            if opts[n].0@ == key {
                assert(v is Some);
                assert(forall|j: int| n < j < opts.len() ==> (#[trigger] opts[j]).0@ != key);
            } else {
                assert("username"@ != "password"@) by {
                    reveal_strlit("username");
                    reveal_strlit("password");
                    assert("username"@[0] != "password"@[0]);
                }
                assert(v == pv);
                if v is None {
                    assert forall|i: int| 0 <= i < opts.len() implies (#[trigger] opts[i]).0@ != key by {
                        if i < n {
                            assert(prev[i] == opts[i]);
                        }
                    }
                } else {
                    let s = v.unwrap();
                    let i = choose|i: int| {
                        &&& 0 <= i < prev.len()
                        &&& (#[trigger] prev[i]).0@ == key
                        &&& prev[i].1 matches OptValue::Text(t) && t@ == s
                        &&& forall|j: int| i < j < prev.len() ==> (#[trigger] prev[j]).0@ != key
                    };
                    assert(opts[i] == prev[i]);
                    assert forall|j: int| i < j < opts.len() implies (#[trigger] opts[j]).0@ != key by {
                        if j < n {
                            assert(prev[j] == opts[j]);
                        }
                    }
                }
            }
        }
    }
}

/// Whenever the options are accepted and name both a username `u` and a
/// password `p`, the connection sets exactly those credentials, whatever
/// their length or content; when either is missing it sets none.
pub proof fn lemma_accepted_credentials_are_set(opts: Seq<(String, OptValue)>, u: Seq<char>, p: Seq<char>)
    ensures
        scan_credentials(opts) == Ok::<(Option<Seq<char>>, Option<Seq<char>>), Seq<char>>((Some(u), Some(p)))
            ==> credentials_to_set(scan_credentials(opts)) == Ok::<Option<(Seq<char>, Seq<char>)>, Seq<char>>(Some((u, p))),
        scan_credentials(opts) matches Ok((su, sp)) && (su is None || sp is None)
            ==> credentials_to_set(scan_credentials(opts)) == Ok::<Option<(Seq<char>, Seq<char>)>, Seq<char>>(None),
        scan_credentials(opts) matches Err(e)
            ==> credentials_to_set(scan_credentials(opts)) == Err::<Option<(Seq<char>, Seq<char>)>, Seq<char>>(e),
{
}

/// A username option followed by a password option, both strings, gives
/// exactly that username and password, for every pair of strings; and one
/// whose value is no string is refused with its own error text.
pub proof fn lemma_username_then_password(ku: String, u: String, kp: String, p: String)
    requires
        ku@ == "username"@,
        kp@ == "password"@,
    ensures
        scan_credentials(seq![(ku, OptValue::Text(u)), (kp, OptValue::Text(p))])
            == Ok::<(Option<Seq<char>>, Option<Seq<char>>), Seq<char>>((Some(u@), Some(p@))),
        credentials_to_set(scan_credentials(seq![(ku, OptValue::Text(u)), (kp, OptValue::Text(p))]))
            == Ok::<Option<(Seq<char>, Seq<char>)>, Seq<char>>(Some((u@, p@))),
        scan_credentials(seq![(ku, OptValue::NotText)]) == Err::<(Option<Seq<char>>, Option<Seq<char>>), Seq<char>>("username must be a string"@),
        scan_credentials(seq![(kp, OptValue::NotText)]) == Err::<(Option<Seq<char>>, Option<Seq<char>>), Seq<char>>("password must be a string"@),
        scan_credentials(Seq::<(String, OptValue)>::empty()) == Ok::<(Option<Seq<char>>, Option<Seq<char>>), Seq<char>>((None, None)),
{
    assert("username"@ != "password"@) by {
        reveal_strlit("username");
        reveal_strlit("password");
        assert("username"@[0] != "password"@[0]);
    }
    let one = seq![(ku, OptValue::Text(u))];
    let two = seq![(ku, OptValue::Text(u)), (kp, OptValue::Text(p))];
    assert(two.drop_last() =~= one);
    assert(two.last() == (kp, OptValue::Text(p)));
    assert(one.drop_last() =~= Seq::<(String, OptValue)>::empty());
    assert(one.last() == (ku, OptValue::Text(u)));
    assert(scan_credentials(Seq::<(String, OptValue)>::empty()) == Ok::<(Option<Seq<char>>, Option<Seq<char>>), Seq<char>>((None, None)));
    assert(scan_credentials(one) == Ok::<(Option<Seq<char>>, Option<Seq<char>>), Seq<char>>((Some(u@), None)));
    assert(scan_credentials(two) == Ok::<(Option<Seq<char>>, Option<Seq<char>>), Seq<char>>((Some(u@), Some(p@))));
    assert(seq![(ku, OptValue::NotText)].drop_last() =~= Seq::<(String, OptValue)>::empty());
    assert(seq![(kp, OptValue::NotText)].drop_last() =~= Seq::<(String, OptValue)>::empty());
}

} // verus!
