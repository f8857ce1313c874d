use vstd::prelude::*;
use crate::outcome::same_text;

verus! {

/// The kind of directory record a query looks for.
#[derive(Clone, Copy, PartialEq, Eq, Structural, Debug)]
pub enum RecordType {
    Users,
    Groups,
}

/// The attribute whose values a query matches against.
#[derive(Clone, Copy, PartialEq, Eq, Structural, Debug)]
pub enum QueryAttribute {
    RecordName,
    GroupMembership,
}

/// The attributes a query asks to have returned with each record.
#[derive(Clone, Copy, PartialEq, Eq, Structural, Debug)]
pub enum ReturnedAttributes {
    StandardOnly,
    RecordName,
}

/// How a query's value is compared with the attribute's values.
#[derive(Clone, Copy, PartialEq, Eq, Structural, Debug)]
pub enum MatchKind {
    EqualTo,
    BeginsWith,
    Contains,
    EndsWith,
}

/// A directory query, as the directory node is asked to run it.
pub struct QueryPlan {
    pub record_type: RecordType,
    pub attribute: QueryAttribute,
    pub match_kind: MatchKind,
    pub value: String,
    pub returned: ReturnedAttributes,
    /// The most records the query returns; 0 places no limit.
    pub max_results: isize,
}

/// The value of a search option as read off its term: an atom (by its name),
/// an integer that fits an `isize`, or anything else.
pub enum QueryOptValue {
    Atom(String),
    Int(isize),
    Other,
}

/// The match kind that a `match` option names: `:exact`, `:begins_with`,
/// `:contains` or `:ends_with`; `None` for any other value.
pub open spec fn named_match_kind(v: QueryOptValue) -> Option<MatchKind> {
    match v {
        QueryOptValue::Atom(a) => if a@ == "exact"@ {
            Some(MatchKind::EqualTo)
        } else if a@ == "begins_with"@ {
            Some(MatchKind::BeginsWith)
        } else if a@ == "contains"@ {
            Some(MatchKind::Contains)
        } else if a@ == "ends_with"@ {
            Some(MatchKind::EndsWith)
        } else {
            None
        },
        _ => None,
    }
}

/// The match kind one search option sets, if it sets one.
pub open spec fn option_match_kind(opt: (String, QueryOptValue)) -> Option<MatchKind> {
    if opt.0@ == "match"@ { named_match_kind(opt.1) } else { None }
}

/// The limit one search option sets, if it sets one: a `limit` option whose
/// value is an integer.
pub open spec fn option_limit(opt: (String, QueryOptValue)) -> Option<isize> {
    if opt.0@ == "match"@ {
        None
    } else if opt.0@ == "limit"@ {
        match opt.1 {
            QueryOptValue::Int(n) => Some(n),
            _ => None,
        }
    } else {
        None
    }
}

/// The match kind a search uses when no option sets one.
pub open spec fn default_match_kind() -> MatchKind {
    MatchKind::Contains
}

/// The limit a search uses when no option sets one.
pub open spec fn default_limit() -> isize {
    100
}

/// The match kind and limit that the search options set, read in order: each
/// option that sets one replaces what came before; others change nothing.
pub open spec fn scan_search_options(opts: Seq<(String, QueryOptValue)>) -> (MatchKind, isize)
    decreases opts.len(),
{
    if opts.len() == 0 {
        (default_match_kind(), default_limit())
    } else {
        let (m, l) = scan_search_options(opts.drop_last());
        let m2 = match option_match_kind(opts.last()) {
            Some(k) => k,
            None => m,
        };
        let l2 = match option_limit(opts.last()) {
            Some(n) => n,
            None => l,
        };
        (m2, l2)
    }
}

fn match_kind_of(v: &QueryOptValue) -> (res: Option<MatchKind>)
    ensures
        res == named_match_kind(*v),
{
    match v {
        QueryOptValue::Atom(a) => {
            if same_text(a, "exact") {
                Some(MatchKind::EqualTo)
            } else if same_text(a, "begins_with") {
                Some(MatchKind::BeginsWith)
            } else if same_text(a, "contains") {
                Some(MatchKind::Contains)
            } else if same_text(a, "ends_with") {
                Some(MatchKind::EndsWith)
            } else {
                None
            }
        },
        _ => None,
    }
}

/// Reads the options of a user search: the match kind (`:contains` unless a
/// `match` option names one of the four kinds) and the limit (100 unless a
/// `limit` option gives an integer); values of other shapes are ignored.
pub fn search_options(opts: &Vec<(String, QueryOptValue)>) -> (res: (MatchKind, isize))
    ensures
        res == scan_search_options(opts@),
{
    let mut match_kind = MatchKind::Contains;
    let mut max_results: isize = 100;
    let n = opts.len();
    let mut i: usize = 0;
    while i < n
        invariant
            n == opts@.len(),
            i <= n,
            scan_search_options(opts@.take(i as int)) == (match_kind, max_results),
        decreases n - i,
    {
        assert(opts@.take(i + 1).drop_last() =~= opts@.take(i as int));
        let pair = &opts[i];
        if same_text(&pair.0, "match") {
            match match_kind_of(&pair.1) {
                Some(k) => {
                    match_kind = k;
                },
                None => {},
            }
        } else if same_text(&pair.0, "limit") {
            match &pair.1 {
                QueryOptValue::Int(l) => {
                    max_results = *l;
                },
                _ => {},
            }
        }
        i = i + 1;
    }
    assert(opts@.take(n as int) =~= opts@);
    (match_kind, max_results)
}

/// A search matches in the way named by the last option that names a known
/// match kind, and by `:contains` when no option names one.
pub proof fn lemma_search_match_kind_last_wins(opts: Seq<(String, QueryOptValue)>)
    ensures
        (forall|i: int| 0 <= i < opts.len() ==> (#[trigger] option_match_kind(opts[i])) is None)
            ==> scan_search_options(opts).0 == default_match_kind(),
        (exists|i: int| 0 <= i < opts.len() && (#[trigger] option_match_kind(opts[i])) is Some)
            ==> exists|i: int| {
                &&& 0 <= i < opts.len()
                &&& #[trigger] option_match_kind(opts[i]) == Some(scan_search_options(opts).0)
                &&& forall|j: int| i < j < opts.len() ==> (#[trigger] option_match_kind(opts[j])) is None
            },
    decreases opts.len(),
{
    if opts.len() > 0 {
        let prev = opts.drop_last();
        let n = opts.len() - 1;
        lemma_search_match_kind_last_wins(prev);
        assert forall|i: int| 0 <= i < n implies opts[i] == prev[i] by {}
        if option_match_kind(opts[n]) is Some {
            assert(forall|j: int| n < j < opts.len() ==> (#[trigger] option_match_kind(opts[j])) is None);
        } else {
            if exists|i: int| 0 <= i < opts.len() && (#[trigger] option_match_kind(opts[i])) is Some {
                let w = choose|i: int| 0 <= i < opts.len() && (#[trigger] option_match_kind(opts[i])) is Some;
                assert(option_match_kind(prev[w]) is Some);
                let i = choose|i: int| {
                    &&& 0 <= i < prev.len()
                    &&& #[trigger] option_match_kind(prev[i]) == Some(scan_search_options(prev).0)
                    &&& forall|j: int| i < j < prev.len() ==> (#[trigger] option_match_kind(prev[j])) is None
                };
                assert(option_match_kind(opts[i]) == Some(scan_search_options(opts).0));
                assert forall|j: int| i < j < opts.len() implies (#[trigger] option_match_kind(opts[j])) is None by {
                    if j < n {
                        assert(option_match_kind(prev[j]) is None);
                    }
                }
            } else {
                assert forall|i: int| 0 <= i < prev.len() implies (#[trigger] option_match_kind(prev[i])) is None by {
                    assert(option_match_kind(opts[i]) is None);
                }
            }
        }
    }
}

/// A search is limited by the last `limit` option that gives an integer, and
/// to 100 records when no option does.
pub proof fn lemma_search_limit_last_wins(opts: Seq<(String, QueryOptValue)>)
    ensures
        (forall|i: int| 0 <= i < opts.len() ==> (#[trigger] option_limit(opts[i])) is None)
            ==> scan_search_options(opts).1 == default_limit(),
        (exists|i: int| 0 <= i < opts.len() && (#[trigger] option_limit(opts[i])) is Some)
            ==> exists|i: int| {
                &&& 0 <= i < opts.len()
                &&& #[trigger] option_limit(opts[i]) == Some(scan_search_options(opts).1)
                &&& forall|j: int| i < j < opts.len() ==> (#[trigger] option_limit(opts[j])) is None
            },
    decreases opts.len(),
{
    if opts.len() > 0 {
        let prev = opts.drop_last();
        let n = opts.len() - 1;
        lemma_search_limit_last_wins(prev);
        assert forall|i: int| 0 <= i < n implies opts[i] == prev[i] by {}
        if option_limit(opts[n]) is Some {
            assert(forall|j: int| n < j < opts.len() ==> (#[trigger] option_limit(opts[j])) is None);
        } else {
            if exists|i: int| 0 <= i < opts.len() && (#[trigger] option_limit(opts[i])) is Some {
                let w = choose|i: int| 0 <= i < opts.len() && (#[trigger] option_limit(opts[i])) is Some;
                assert(option_limit(prev[w]) is Some);
                let i = choose|i: int| {
                    &&& 0 <= i < prev.len()
                    &&& #[trigger] option_limit(prev[i]) == Some(scan_search_options(prev).1)
                    &&& forall|j: int| i < j < prev.len() ==> (#[trigger] option_limit(prev[j])) is None
                };
                assert(option_limit(opts[i]) == Some(scan_search_options(opts).1));
                assert forall|j: int| i < j < opts.len() implies (#[trigger] option_limit(opts[j])) is None by {
                    if j < n {
                        assert(option_limit(prev[j]) is None);
                    }
                }
            } else {
                assert forall|i: int| 0 <= i < prev.len() implies (#[trigger] option_limit(prev[i])) is None by {
                    assert(option_limit(opts[i]) is None);
                }
            }
        }
    }
}

/// A search option that neither names a known match kind nor gives an
/// integer limit: reading it changes nothing.
pub open spec fn is_ignored_search_option(opt: (String, QueryOptValue)) -> bool {
    option_match_kind(opt) is None && option_limit(opt) is None
}

/// The search options that are not ignored, in order.
pub open spec fn effective_search_options(opts: Seq<(String, QueryOptValue)>) -> Seq<(String, QueryOptValue)>
    decreases opts.len(),
{
    if opts.len() == 0 {
        opts
    } else {
        let prev = effective_search_options(opts.drop_last());
        if is_ignored_search_option(opts.last()) { prev } else { prev.push(opts.last()) }
    }
}

/// Ignored search options (unknown keys, `match` values that name no known
/// kind, `limit` values that are no integer) change nothing, wherever they
/// stand: a search reads its options as it reads the options that remain
/// once they are taken out, so two option lists that differ only in ignored
/// options make the same search.
pub proof fn lemma_search_ignores_ignored_options(
    opts: Seq<(String, QueryOptValue)>,
    other: Seq<(String, QueryOptValue)>,
)
    ensures
        scan_search_options(opts) == scan_search_options(effective_search_options(opts)),
        effective_search_options(opts) == effective_search_options(other)
            ==> scan_search_options(opts) == scan_search_options(other),
{
    lemma_scan_effective(opts);
    lemma_scan_effective(other);
}

proof fn lemma_scan_effective(opts: Seq<(String, QueryOptValue)>)
    ensures
        scan_search_options(opts) == scan_search_options(effective_search_options(opts)),
    decreases opts.len(),
{
    if opts.len() > 0 {
        let prev = opts.drop_last();
        lemma_scan_effective(prev);
        let kept = effective_search_options(prev);
        if !is_ignored_search_option(opts.last()) {
            assert(kept.push(opts.last()).drop_last() =~= kept);
        }
    }
}

/// The query that finds the one user whose record name is `username`.
pub open spec fn spec_user_lookup_plan(username: Seq<char>, plan: QueryPlan) -> bool {
    &&& plan.record_type == RecordType::Users
    &&& plan.attribute == QueryAttribute::RecordName
    &&& plan.match_kind == MatchKind::EqualTo
    &&& plan.value@ == username
    &&& plan.returned == ReturnedAttributes::StandardOnly
    &&& plan.max_results == 1
}

/// The query that finds a user by name: users whose record name equals
/// `username`, with their standard attributes, one record at most.
pub fn user_lookup_plan(username: &String) -> (plan: QueryPlan)
    ensures
        spec_user_lookup_plan(username@, plan),
{
    QueryPlan {
        record_type: RecordType::Users,
        attribute: QueryAttribute::RecordName,
        match_kind: MatchKind::EqualTo,
        value: username.clone(),
        returned: ReturnedAttributes::StandardOnly,
        max_results: 1,
    }
}

/// The query of a user search: users whose record name matches `query` in the
/// way and up to the limit that the options set, with standard attributes.
pub fn user_search_plan(query: &String, opts: &Vec<(String, QueryOptValue)>) -> (plan: QueryPlan)
    ensures
        plan.record_type == RecordType::Users,
        plan.attribute == QueryAttribute::RecordName,
        (plan.match_kind, plan.max_results) == scan_search_options(opts@),
        plan.value@ == query@,
        plan.returned == ReturnedAttributes::StandardOnly,
{
    let (match_kind, max_results) = search_options(opts);
    QueryPlan {
        record_type: RecordType::Users,
        attribute: QueryAttribute::RecordName,
        match_kind,
        value: query.clone(),
        returned: ReturnedAttributes::StandardOnly,
        max_results,
    }
}

/// The query that finds a group by name: groups whose record name equals
/// `group`, with their standard attributes, one record at most.
pub fn group_lookup_plan(group: &String) -> (plan: QueryPlan)
    ensures
        plan.record_type == RecordType::Groups,
        plan.attribute == QueryAttribute::RecordName,
        plan.match_kind == MatchKind::EqualTo,
        plan.value@ == group@,
        plan.returned == ReturnedAttributes::StandardOnly,
        plan.max_results == 1,
{
    QueryPlan {
        record_type: RecordType::Groups,
        attribute: QueryAttribute::RecordName,
        match_kind: MatchKind::EqualTo,
        value: group.clone(),
        returned: ReturnedAttributes::StandardOnly,
        max_results: 1,
    }
}

/// The two queries a membership question makes, in order: the user's
/// record by name, then the group's record by name.
pub fn membership_plans(username: &String, group: &String) -> (plans: (QueryPlan, QueryPlan))
    ensures
        spec_user_lookup_plan(username@, plans.0),
        plans.1.record_type == RecordType::Groups,
        plans.1.attribute == QueryAttribute::RecordName,
        plans.1.match_kind == MatchKind::EqualTo,
        plans.1.value@ == group@,
        plans.1.returned == ReturnedAttributes::StandardOnly,
        plans.1.max_results == 1,
{
    (user_lookup_plan(username), group_lookup_plan(group))
}

/// The query that lists a user's groups: groups whose membership holds
/// `username` exactly, returning their record names, with no limit.
pub fn group_membership_plan(username: &String) -> (plan: QueryPlan)
    ensures
        plan.record_type == RecordType::Groups,
        plan.attribute == QueryAttribute::GroupMembership,
        plan.match_kind == MatchKind::EqualTo,
        plan.value@ == username@,
        plan.returned == ReturnedAttributes::RecordName,
        plan.max_results == 0,
{
    QueryPlan {
        record_type: RecordType::Groups,
        attribute: QueryAttribute::GroupMembership,
        match_kind: MatchKind::EqualTo,
        value: username.clone(),
        returned: ReturnedAttributes::RecordName,
        max_results: 0,
    }
}

/// A `limit` option with an integer sets the limit to that very integer,
/// for every `isize` (no cap, no floor), and the last such option decides:
/// appending it to any option list sets the limit to it and keeps the match
/// kind; with no options the search is `:contains` with a limit of 100.
pub proof fn lemma_limit_option_sets_limit(opts: Seq<(String, QueryOptValue)>, key: String, n: isize)
    requires
        key@ == "limit"@,
    ensures
        option_limit((key, QueryOptValue::Int(n))) == Some(n),
        option_match_kind((key, QueryOptValue::Int(n))) is None,
        scan_search_options(opts.push((key, QueryOptValue::Int(n)))).1 == n,
        scan_search_options(opts.push((key, QueryOptValue::Int(n)))).0 == scan_search_options(opts).0,
        scan_search_options(seq![(key, QueryOptValue::Int(n))]) == (MatchKind::Contains, n),
        scan_search_options(Seq::<(String, QueryOptValue)>::empty()) == (MatchKind::Contains, 100isize),
{
    assert("limit"@ != "match"@) by {
        reveal_strlit("limit");
        reveal_strlit("match");
        assert("limit"@[0] != "match"@[0]);
    }
    assert(opts.push((key, QueryOptValue::Int(n))).drop_last() =~= opts);
    let one = seq![(key, QueryOptValue::Int(n))];
    assert(one.drop_last() =~= Seq::<(String, QueryOptValue)>::empty());
    assert(one.last() == (key, QueryOptValue::Int(n)));
    assert(scan_search_options(Seq::<(String, QueryOptValue)>::empty()) == (MatchKind::Contains, 100isize));
    assert(scan_search_options(one) == (MatchKind::Contains, n));
}

/// Each of the four `match` atoms selects its own way of matching, appended
/// to any option list, and keeps the limit.
pub proof fn lemma_match_option_sets_kind(opts: Seq<(String, QueryOptValue)>, key: String, a: String)
    requires
        key@ == "match"@,
    ensures
        a@ == "exact"@ ==> scan_search_options(opts.push((key, QueryOptValue::Atom(a)))).0 == MatchKind::EqualTo,
        a@ == "begins_with"@ ==> scan_search_options(opts.push((key, QueryOptValue::Atom(a)))).0 == MatchKind::BeginsWith,
        a@ == "contains"@ ==> scan_search_options(opts.push((key, QueryOptValue::Atom(a)))).0 == MatchKind::Contains,
        a@ == "ends_with"@ ==> scan_search_options(opts.push((key, QueryOptValue::Atom(a)))).0 == MatchKind::EndsWith,
        scan_search_options(opts.push((key, QueryOptValue::Atom(a)))).1 == scan_search_options(opts).1,
{
    reveal_strlit("exact");
    reveal_strlit("begins_with");
    reveal_strlit("contains");
    reveal_strlit("ends_with");
    assert("exact"@[0] != "begins_with"@[0]);
    assert("exact"@[0] != "contains"@[0]);
    assert("exact"@[1] != "ends_with"@[1]);
    assert("begins_with"@[0] != "contains"@[0]);
    assert("begins_with"@[0] != "ends_with"@[0]);
    assert("contains"@[0] != "ends_with"@[0]);
    assert(opts.push((key, QueryOptValue::Atom(a))).drop_last() =~= opts);
}

/// The lookup of a user by name matches the record name by equality, for
/// every username: only a user whose record name is exactly the username is
/// found, among user records, one at most.
pub proof fn lemma_user_lookup_is_exact(u: Seq<char>, plan: QueryPlan)
    requires
        spec_user_lookup_plan(u, plan),
    ensures
        plan.match_kind == MatchKind::EqualTo,
        plan.attribute == QueryAttribute::RecordName,
        plan.record_type == RecordType::Users,
        plan.value@ == u,
        plan.max_results == 1,
{
}

} // verus!
