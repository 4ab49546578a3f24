//! Building the configuration: from set names and pattern source strings to
//! compiled routing rules, and from the program's arguments to a [`Config`].
//!
//! Building is all or nothing. The first set name or pattern that is refused
//! ends it with its error, and no rules are handed out.

use crate::errors::{new_error, Error, ErrorKind};
use crate::ipset::{
    check_setname, describe, setname_fault, valid_setname, IpAddress, SetnameFault,
};
use crate::order::{
    ascending, insert_index, insert_sorted, lemma_insert_index_is, lemma_insert_sorted,
    lemma_name_less_asymmetric, name_is_less, name_less, stands_at,
};
use crate::pattern::{has_prefix, parsed_pattern, DomainPattern};
use crate::routing::{find_setnames, matching_names, names_of, RuleView, SetnameMatcher};
use vstd::prelude::*;
use vstd::string::StrSliceExecFns;
use vstd::string::StringExecFns;

verus! {

/// The port that is listened on where none is given.
pub const DEFAULT_LISTEN_PORT: u16 = 1919;

/// The port of the upstream resolver.
pub const DNS_PORT: u16 = 53;

/// The address that is listened on: the loopback address.
pub const LISTEN_IP: [u8; 4] = [127, 0, 0, 1];

/// The upstream resolver that is asked where none is given.
pub const DEFAULT_DNS_IP: [u8; 4] = [8, 8, 8, 8];

/// The patterns of one target set, as the configuration file gives them.
#[derive(Clone, Debug, PartialEq, Eq)]
pub struct SetPatterns {
    pub setname: String,
    pub patterns: Vec<String>,
}

/// [`SetPatterns`] as the contracts see it.
pub struct SetPatternsView {
    pub setname: Seq<char>,
    pub patterns: Seq<Seq<char>>,
}

impl DeepView for SetPatterns {
    type V = SetPatternsView;

    open spec fn deep_view(&self) -> SetPatternsView {
        SetPatternsView { setname: self.setname@, patterns: self.patterns.deep_view() }
    }
}

/// The names of `sets`, in their order.
pub open spec fn set_names(sets: Seq<SetPatternsView>) -> Seq<Seq<char>> {
    Seq::new(sets.len(), |i: int| sets[i].setname)
}

/// Whether one of `sets` has the name `setname`.
pub open spec fn holds_set(sets: Seq<SetPatternsView>, setname: Seq<char>) -> bool {
    exists|i: int| 0 <= i < sets.len() && (#[trigger] sets[i]).setname == setname
}

/// The target sets of one address family: a map from set name to patterns.
///
/// The sets stand in ascending order of their names, so a set name occurs
/// once; that is the order in which their rules are built and tried.
#[derive(Debug, PartialEq, Eq)]
pub struct PatternMap {
    sets: Vec<SetPatterns>,
}

impl View for PatternMap {
    type V = Seq<SetPatternsView>;

    closed spec fn view(&self) -> Seq<SetPatternsView> {
        self.sets.deep_view()
    }
}

impl PatternMap {
    /// The sets stand in ascending order of their names.
    #[verifier::type_invariant]
    pub open spec fn wf(&self) -> bool {
        ascending(set_names(self@))
    }

    /// A map without sets.
    pub fn new() -> (map: Self)
        ensures
            map@ == Seq::<SetPatternsView>::empty(),
    {
        PatternMap { sets: Vec::new() }
    }

    /// How many sets the map holds.
    pub fn len(&self) -> (len: usize)
        ensures
            len == self@.len(),
    {
        self.sets.len()
    }

    /// The sets, in ascending order of their names.
    pub fn sets(&self) -> (sets: &[SetPatterns])
        ensures
            sets.deep_view() == self@,
            ascending(set_names(self@)),
    {
        proof {
            use_type_invariant(self);
        }
        self.sets.as_slice()
    }

    /// The patterns of the set `setname`, if the map holds it.
    pub fn get(&self, setname: &str) -> (patterns: Option<&Vec<String>>)
        ensures
            match patterns {
                Some(found) => exists|i: int|
                    0 <= i < self@.len() && (#[trigger] self@[i]).setname == setname@
                        && self@[i].patterns == found.deep_view(),
                None => !holds_set(self@, setname@),
            },
    {
        let mut i: usize = 0;
        while i < self.sets.len()
            invariant
                i <= self.sets@.len(),
                forall|j: int| 0 <= j < i ==> (#[trigger] self@[j]).setname != setname@,
            decreases self.sets@.len() - i,
        {
            if self.sets[i].setname.as_str().eq(setname) {
                assert(self@[i as int].patterns == self.sets[i as int].patterns.deep_view());
                return Some(&self.sets[i].patterns);
            }
            i += 1;
        }
        None
    }

    /// Gives the set `setname` these patterns.
    ///
    /// A set that the map holds already keeps its place and hands its
    /// former patterns back; a new set goes where its name belongs in the
    /// ascending order.
    pub fn insert(&mut self, setname: String, patterns: Vec<String>) -> (former: Option<
        Vec<String>,
    >)
        ensures
            ascending(set_names(old(self)@)),
            ascending(set_names(final(self)@)),
            set_names(final(self)@) == insert_sorted(set_names(old(self)@), setname@),
            match former {
                Some(replaced) => {
                    let place = insert_index(set_names(old(self)@), setname@);
                    &&& stands_at(set_names(old(self)@), setname@, place)
                    &&& old(self)@[place].patterns == replaced.deep_view()
                    &&& final(self)@ == old(self)@.update(
                        place,
                        SetPatternsView { setname: setname@, patterns: patterns.deep_view() },
                    )
                },
                None => {
                    let place = insert_index(set_names(old(self)@), setname@);
                    &&& !holds_set(old(self)@, setname@)
                    &&& final(self)@ == old(self)@.insert(
                        place,
                        SetPatternsView { setname: setname@, patterns: patterns.deep_view() },
                    )
                },
            },
    {
        proof {
            use_type_invariant(&*self);
        }
        let ghost before = self.sets.deep_view();
        let ghost names = set_names(before);
        let ghost entry = SetPatternsView { setname: setname@, patterns: patterns.deep_view() };
        let mut sets: Vec<SetPatterns> = Vec::new();
        assert(set_names(sets.deep_view()) == Seq::<Seq<char>>::empty());
        core::mem::swap(&mut self.sets, &mut sets);
        let mut i: usize = 0;
        while i < sets.len() && name_is_less(sets[i].setname.as_str(), setname.as_str())
            invariant
                i <= sets@.len(),
                sets.deep_view() == before,
                names == set_names(before),
                forall|j: int| 0 <= j < i ==> name_less(#[trigger] names[j], setname@),
            decreases sets@.len() - i,
        {
            i += 1;
        }
        proof {
            if i < sets@.len() {
                assert(names[i as int] == sets@[i as int].setname@);
            }
            lemma_insert_index_is(names, setname@, i as int);
            lemma_insert_sorted(names, setname@);
        }
        let former = if i < sets.len() && sets[i].setname.as_str().eq(setname.as_str()) {
            let replaced = sets.remove(i);
            sets.insert(i, SetPatterns { setname, patterns });
            assert(sets.deep_view() == before.update(i as int, entry));
            assert(set_names(before.update(i as int, entry)) == names);
            Some(replaced.patterns)
        } else {
            sets.insert(i, SetPatterns { setname, patterns });
            assert(sets.deep_view() == before.insert(i as int, entry));
            assert(set_names(before.insert(i as int, entry)) == names.insert(i as int, entry.setname));
            assert(!holds_set(before, entry.setname)) by {
                if holds_set(before, entry.setname) {
                    let at = choose|at: int|
                        0 <= at < before.len() && (#[trigger] before[at]).setname
                            == entry.setname;
                    assert(names[at] == entry.setname);
                }
            }
            None
        };
        core::mem::swap(&mut self.sets, &mut sets);
        former
    }
}

/// The routing part of the configuration file: the target sets of each
/// address family.
#[derive(Debug, PartialEq, Eq)]
pub struct IpsetConfig {
    pub ipv4: PatternMap,
    pub ipv6: PatternMap,
}

/// What building stopped at: a set name that the kernel cannot take, or a
/// pattern source string that does not compile.
pub enum Refused {
    SetName(Seq<char>),
    Pattern(Seq<char>),
}

/// The rule that `setname` and `source` give, or what is refused of the two.
/// The set name is judged before the pattern.
pub open spec fn rule_for(setname: Seq<char>, source: Seq<char>) -> Result<RuleView, Refused> {
    if !valid_setname(setname) {
        Err(Refused::SetName(setname))
    } else {
        match parsed_pattern(source) {
            Some(pattern) => Ok(RuleView { setname, pattern }),
            None => Err(Refused::Pattern(source)),
        }
    }
}

/// What building the configuration says of a set name that is too long.
pub open spec fn too_long_text_config(name: Seq<char>) -> Seq<char> {
    "setname '"@ + name + "' >= 32 characters"@
}

/// What building the configuration says of a set name that holds a NUL.
pub open spec fn embedded_nul_text_config(name: Seq<char>) -> Seq<char> {
    "setname '"@ + name + "' contains a NUL byte"@
}

/// What building the configuration says of `name`, if it refuses it.
pub open spec fn setname_error_config(name: Seq<char>) -> Option<Seq<char>> {
    match setname_fault(name) {
        Some(SetnameFault::TooLong) => Some(too_long_text_config(name)),
        Some(SetnameFault::EmbeddedNul) => Some(embedded_nul_text_config(name)),
        None => None,
    }
}

/// Accepts a set name that the kernel can take and refuses any other in the
/// words of the configuration.
fn accept_setname(setname: &str) -> (accepted: Result<(), Error>)
    ensures
        match accepted {
            Ok(_) => valid_setname(setname@),
            Err(error) => !valid_setname(setname@) && (error@ matches ErrorKind::Msg(text)
                && Some(text@) == setname_error_config(setname@)),
        },
{
    match check_setname(setname) {
        Ok(()) => Ok(()),
        Err(SetnameFault::TooLong) => Err(describe("setname '", setname, "' >= 32 characters")),
        Err(SetnameFault::EmbeddedNul) => Err(
            describe("setname '", setname, "' contains a NUL byte"),
        ),
    }
}

/// Whether `kind` is the error that tells of `refused`: a message for a set
/// name, and for a pattern the error of the crate that did not compile it.
pub open spec fn tells_of(kind: ErrorKind, refused: Refused) -> bool {
    match refused {
        Refused::SetName(setname) => kind matches ErrorKind::Msg(text) && Some(text@)
            == setname_error_config(setname),
        Refused::Pattern(source) => if has_prefix(source, 'g', ':') {
            kind is GlobPattern
        } else {
            kind is Regex
        },
    }
}

/// The rules that the patterns give for the set `setname`, one for each
/// pattern in order; or what building stops at first.
pub open spec fn rules_of_patterns(setname: Seq<char>, patterns: Seq<Seq<char>>) -> Result<
    Seq<RuleView>,
    Refused,
>
    decreases patterns.len(),
{
    if patterns.len() == 0 {
        Ok(Seq::empty())
    } else {
        match rules_of_patterns(setname, patterns.drop_last()) {
            Err(refused) => Err(refused),
            Ok(rules) => match rule_for(setname, patterns.last()) {
                Ok(rule) => Ok(rules.push(rule)),
                Err(refused) => Err(refused),
            },
        }
    }
}

/// The rules of one target set. The name of the set is judged even where the
/// set has no patterns.
pub open spec fn rules_of_set(set: SetPatternsView) -> Result<Seq<RuleView>, Refused> {
    if !valid_setname(set.setname) {
        Err(Refused::SetName(set.setname))
    } else {
        rules_of_patterns(set.setname, set.patterns)
    }
}

/// The rules of all target sets, set after set; or what building stops at
/// first.
pub open spec fn rules_of(sets: Seq<SetPatternsView>) -> Result<Seq<RuleView>, Refused>
    decreases sets.len(),
{
    if sets.len() == 0 {
        Ok(Seq::empty())
    } else {
        match rules_of(sets.drop_last()) {
            Err(refused) => Err(refused),
            Ok(rules) => match rules_of_set(sets.last()) {
                Ok(more) => Ok(rules + more),
                Err(refused) => Err(refused),
            },
        }
    }
}

/// Whether every rule routes to a set whose name the kernel can take.
pub open spec fn valid_setnames(rules: Seq<RuleView>) -> bool {
    forall|i: int| 0 <= i < rules.len() ==> valid_setname(#[trigger] rules[i].setname)
}

/// Rules that were built for one set are as many as its patterns and all
/// carry a valid set name.
pub proof fn lemma_rules_of_patterns_valid(setname: Seq<char>, patterns: Seq<Seq<char>>)
    ensures
        rules_of_patterns(setname, patterns) matches Ok(rules) ==> valid_setnames(rules)
            && rules.len() == patterns.len(),
    decreases patterns.len(),
{
    if patterns.len() > 0 {
        lemma_rules_of_patterns_valid(setname, patterns.drop_last());
    }
}

/// Where the rules were built, every set has a valid name, and so has every
/// rule.
pub proof fn lemma_rules_of_valid(sets: Seq<SetPatternsView>)
    ensures
        rules_of(sets) matches Ok(rules) ==> valid_setnames(rules) && forall|k: int|
            0 <= k < sets.len() ==> valid_setname((#[trigger] sets[k]).setname),
    decreases sets.len(),
{
    if sets.len() > 0 {
        lemma_rules_of_valid(sets.drop_last());
        lemma_rules_of_patterns_valid(sets.last().setname, sets.last().patterns);
        if rules_of(sets) is Ok {
            assert forall|k: int| 0 <= k < sets.len() implies valid_setname(
                (#[trigger] sets[k]).setname,
            ) by {
                if k < sets.len() - 1 {
                    assert(sets.drop_last()[k] == sets[k]);
                }
            }
        }
    }
}

/// Whether the rules stand in ascending order of their set names, the rules
/// of one set together.
pub open spec fn by_setname(rules: Seq<RuleView>) -> bool {
    forall|a: int, b: int|
        0 <= a < b < rules.len() ==> !name_less(
            (#[trigger] rules[b]).setname,
            (#[trigger] rules[a]).setname,
        )
}

/// Rules that were built for one set all route to that set.
pub proof fn lemma_rules_of_patterns_setname(setname: Seq<char>, patterns: Seq<Seq<char>>)
    ensures
        rules_of_patterns(setname, patterns) matches Ok(rules) ==> forall|i: int|
            0 <= i < rules.len() ==> (#[trigger] rules[i]).setname == setname,
    decreases patterns.len(),
{
    if patterns.len() > 0 {
        lemma_rules_of_patterns_setname(setname, patterns.drop_last());
    }
}

/// Where the sets stand in ascending order of their names, so do the rules
/// that are built from them, and every rule routes to one of the sets.
pub proof fn lemma_rules_of_ascending(sets: Seq<SetPatternsView>)
    requires
        ascending(set_names(sets)),
        rules_of(sets) is Ok,
    ensures
        rules_of(sets) matches Ok(rules) && by_setname(rules) && forall|i: int|
            0 <= i < rules.len() ==> holds_set(sets, (#[trigger] rules[i]).setname),
    decreases sets.len(),
{
    if sets.len() > 0 {
        let shorter = sets.drop_last();
        let last = sets.last();
        let names = set_names(sets);
        assert forall|i: int, j: int| 0 <= i < j < shorter.len() implies name_less(
            set_names(shorter)[i],
            set_names(shorter)[j],
        ) by {
            assert(name_less(names[i], names[j]));
        }
        lemma_rules_of_ascending(shorter);
        lemma_rules_of_patterns_setname(last.setname, last.patterns);
        let earlier = rules_of(shorter)->Ok_0;
        let more = rules_of_set(last)->Ok_0;
        let rules = rules_of(sets)->Ok_0;
        assert forall|i: int| 0 <= i < rules.len() implies holds_set(
            sets,
            (#[trigger] rules[i]).setname,
        ) by {
            if i < earlier.len() {
                assert(rules[i] == earlier[i]);
                let k = choose|k: int|
                    0 <= k < shorter.len() && (#[trigger] shorter[k]).setname
                        == earlier[i].setname;
                assert(sets[k].setname == rules[i].setname);
            } else {
                assert(rules[i] == more[i - earlier.len()]);
                assert(sets[sets.len() - 1].setname == rules[i].setname);
            }
        }
        assert forall|a: int, b: int| 0 <= a < b < rules.len() implies !name_less(
            (#[trigger] rules[b]).setname,
            (#[trigger] rules[a]).setname,
        ) by {
            if b < earlier.len() {
                assert(rules[a] == earlier[a] && rules[b] == earlier[b]);
            } else {
                assert(rules[b] == more[b - earlier.len()]);
                if a < earlier.len() {
                    assert(rules[a] == earlier[a]);
                    let k = choose|k: int|
                        0 <= k < shorter.len() && (#[trigger] shorter[k]).setname
                            == earlier[a].setname;
                    assert(name_less(names[k], names[sets.len() - 1]));
                    lemma_name_less_asymmetric(names[k], names[sets.len() - 1]);
                } else {
                    assert(rules[a] == more[a - earlier.len()]);
                    if name_less(last.setname, last.setname) {
                        lemma_name_less_asymmetric(last.setname, last.setname);
                    }
                }
            }
        }
    }
}

/// Where the rules of one set were built, the rule at each place is the one
/// that the pattern at that place gives.
pub proof fn lemma_rules_of_patterns_index(setname: Seq<char>, patterns: Seq<Seq<char>>, j: int)
    requires
        rules_of_patterns(setname, patterns) is Ok,
        0 <= j < patterns.len(),
    ensures
        rules_of_patterns(setname, patterns) matches Ok(rules) && rules.len() == patterns.len()
            && rule_for(setname, patterns[j]) == Ok::<RuleView, Refused>(rules[j]),
    decreases patterns.len(),
{
    lemma_rules_of_patterns_valid(setname, patterns);
    lemma_rules_of_patterns_valid(setname, patterns.drop_last());
    if j < patterns.len() - 1 {
        lemma_rules_of_patterns_index(setname, patterns.drop_last(), j);
    }
}

/// Where the rules were built, every pattern of every set has its rule among
/// them.
pub proof fn lemma_rules_of_index(sets: Seq<SetPatternsView>, k: int, j: int)
    requires
        rules_of(sets) is Ok,
        0 <= k < sets.len(),
        0 <= j < sets[k].patterns.len(),
    ensures
        rules_of(sets) matches Ok(rules) && exists|i: int|
            0 <= i < rules.len() && rule_for(sets[k].setname, sets[k].patterns[j]) == Ok::<
                RuleView,
                Refused,
            >(#[trigger] rules[i]),
    decreases sets.len(),
{
    let earlier = rules_of(sets.drop_last())->Ok_0;
    let more = rules_of_set(sets.last())->Ok_0;
    let rules = rules_of(sets)->Ok_0;
    if k < sets.len() - 1 {
        lemma_rules_of_index(sets.drop_last(), k, j);
        let i = choose|i: int|
            0 <= i < earlier.len() && rule_for(sets[k].setname, sets[k].patterns[j]) == Ok::<
                RuleView,
                Refused,
            >(#[trigger] earlier[i]);
        assert(rules[i] == earlier[i]);
    } else {
        lemma_rules_of_patterns_index(sets.last().setname, sets.last().patterns, j);
        assert(rules[earlier.len() + j] == more[j]);
    }
}

/// Builds the rule for one set name and one pattern source string.
pub fn create_setname_matcher(setname: &str, domain_pattern_str: &str) -> (created: Result<
    SetnameMatcher,
    Error,
>)
    ensures
        match created {
            Ok(rule) => rule_for(setname@, domain_pattern_str@) == Ok::<RuleView, Refused>(rule@),
            Err(error) => rule_for(setname@, domain_pattern_str@) matches Err(refused)
                && tells_of(error@, refused),
        },
{
    match accept_setname(setname) {
        Err(error) => Err(error),
        Ok(()) => match DomainPattern::parse(domain_pattern_str) {
            Err(error) => Err(error),
            Ok(pattern) => Ok(SetnameMatcher::new(setname, pattern)),
        },
    }
}

/// Appends the rules of one target set to `rules`.
fn push_set_rules(rules: &mut Vec<SetnameMatcher>, set: &SetPatterns) -> (pushed: Result<
    (),
    Error,
>)
    ensures
        match pushed {
            Ok(_) => rules_of_set(set.deep_view()) matches Ok(more) && final(rules).deep_view()
                == old(rules).deep_view() + more,
            Err(error) => rules_of_set(set.deep_view()) matches Err(refused) && tells_of(
                error@,
                refused,
            ),
        },
{
    let ghost patterns = set.patterns.deep_view();
    let ghost setname = set.setname@;
    accept_setname(set.setname.as_str())?;
    let mut j: usize = 0;
    while j < set.patterns.len()
        invariant
            j <= set.patterns@.len(),
            patterns == set.patterns.deep_view(),
            setname == set.setname@,
            rules_of_patterns(setname, patterns.take(j as int)) matches Ok(more)
                && rules.deep_view() == old(rules).deep_view() + more,
        decreases set.patterns@.len() - j,
    {
        let ghost next = patterns.take(j + 1);
        let ghost before = rules.deep_view();
        assert(next.drop_last() == patterns.take(j as int));
        match create_setname_matcher(set.setname.as_str(), set.patterns[j].as_str()) {
            Err(error) => {
                proof {
                    lemma_refusal_stays(setname, next, patterns);
                }
                return Err(error);
            },
            Ok(rule) => {
                rules.push(rule);
                assert(rules.deep_view() == before.push(rule@));
            },
        }
        j += 1;
    }
    assert(patterns.take(j as int) == patterns);
    Ok(())
}

/// Where building stops within a beginning of the patterns, it stops there
/// for all of them.
proof fn lemma_refusal_stays(setname: Seq<char>, shorter: Seq<Seq<char>>, all: Seq<Seq<char>>)
    requires
        shorter.len() <= all.len(),
        shorter == all.take(shorter.len() as int),
        rules_of_patterns(setname, shorter) is Err,
    ensures
        rules_of_patterns(setname, all) == rules_of_patterns(setname, shorter),
    decreases all.len() - shorter.len(),
{
    if shorter.len() < all.len() {
        let longer = all.take(shorter.len() as int + 1);
        assert(longer.drop_last() == shorter);
        lemma_refusal_stays(setname, longer, all);
    } else {
        assert(shorter == all);
    }
}

/// Where building stops within a beginning of the sets, it stops there for
/// all of them.
proof fn lemma_set_refusal_stays(shorter: Seq<SetPatternsView>, all: Seq<SetPatternsView>)
    requires
        shorter.len() <= all.len(),
        shorter == all.take(shorter.len() as int),
        rules_of(shorter) is Err,
    ensures
        rules_of(all) == rules_of(shorter),
    decreases all.len() - shorter.len(),
{
    if shorter.len() < all.len() {
        let longer = all.take(shorter.len() as int + 1);
        assert(longer.drop_last() == shorter);
        lemma_set_refusal_stays(longer, all);
    } else {
        assert(shorter == all);
    }
}

/// Builds the rules of one address family.
///
/// The rules come set after set, in ascending order of the set names, and,
/// within a set, pattern after pattern. The
/// first set name or pattern that is refused ends the building with its
/// error.
pub fn to_setname_matchers(config_set: &PatternMap) -> (built: Result<
    Vec<SetnameMatcher>,
    Error,
>)
    ensures
        ascending(set_names(config_set@)),
        match built {
            Ok(rules) => rules_of(config_set@) == Ok::<Seq<RuleView>, Refused>(
                rules.deep_view(),
            ) && by_setname(rules.deep_view()),
            Err(error) => rules_of(config_set@) matches Err(refused) && tells_of(error@, refused),
        },
{
    let ghost sets = config_set@;
    proof {
        use_type_invariant(config_set);
        if rules_of(sets) is Ok {
            lemma_rules_of_ascending(sets);
        }
    }
    let mut ret: Vec<SetnameMatcher> = Vec::new();
    let mut i: usize = 0;
    assert(ret.deep_view() == Seq::<RuleView>::empty());
    while i < config_set.sets.len()
        invariant
            i <= config_set.sets@.len(),
            sets == config_set@,
            sets == config_set.sets.deep_view(),
            ascending(set_names(sets)),
            rules_of(sets) matches Ok(all) ==> by_setname(all),
            rules_of(sets.take(i as int)) == Ok::<Seq<RuleView>, Refused>(ret.deep_view()),
        decreases config_set.sets@.len() - i,
    {
        let ghost next = sets.take(i + 1);
        assert(next.drop_last() == sets.take(i as int));
        match push_set_rules(&mut ret, &config_set.sets[i]) {
            Err(error) => {
                proof {
                    lemma_set_refusal_stays(next, sets);
                }
                return Err(error);
            },
            Ok(()) => {},
        }
        i += 1;
    }
    assert(sets.take(i as int) == sets);
    Ok(ret)
}

/// Builds the rules of both address families, IPv4 first.
pub fn parse_ipsetconfig(ipset_config: IpsetConfig) -> (parsed: Result<
    (Vec<SetnameMatcher>, Vec<SetnameMatcher>),
    Error,
>)
    ensures
        match parsed {
            Ok(families) => {
                &&& rules_of(ipset_config.ipv4@) == Ok::<Seq<RuleView>, Refused>(
                    families.0.deep_view(),
                )
                &&& rules_of(ipset_config.ipv6@) == Ok::<Seq<RuleView>, Refused>(
                    families.1.deep_view(),
                )
                &&& by_setname(families.0.deep_view())
                &&& by_setname(families.1.deep_view())
            },
            Err(error) => match first_refused(ipset_config) {
                Some(refused) => tells_of(error@, refused),
                None => false,
            },
        },
{
    let ipv4set = to_setname_matchers(&ipset_config.ipv4)?;
    let ipv6set = to_setname_matchers(&ipset_config.ipv6)?;
    Ok((ipv4set, ipv6set))
}

/// What building the rules of both families stops at, if it does.
pub open spec fn first_refused(ipset_config: IpsetConfig) -> Option<Refused> {
    match rules_of(ipset_config.ipv4@) {
        Err(refused) => Some(refused),
        Ok(_) => match rules_of(ipset_config.ipv6@) {
            Err(refused) => Some(refused),
            Ok(_) => None,
        },
    }
}

/// An address and a port: where to listen, or where the upstream resolver is.
#[derive(Clone, Copy, Debug, PartialEq, Eq)]
pub struct SocketAddress {
    pub ip: IpAddress,
    pub port: u16,
}

/// An address family.
#[derive(Clone, Copy, Debug, PartialEq, Eq)]
pub enum Family {
    V4,
    V6,
}

/// The routing table: the rules of each address family, built once and only
/// read afterwards.
#[derive(Debug)]
pub struct RoutingTable {
    ipset_v4: Vec<SetnameMatcher>,
    ipset_v6: Vec<SetnameMatcher>,
}

impl RoutingTable {
    /// The rules that answers with an IPv4 address are looked up in.
    pub closed spec fn rules_v4(&self) -> Seq<RuleView> {
        self.ipset_v4.deep_view()
    }

    /// The rules that answers with an IPv6 address are looked up in.
    pub closed spec fn rules_v6(&self) -> Seq<RuleView> {
        self.ipset_v6.deep_view()
    }

    /// The rules of `family`.
    pub open spec fn rules(&self, family: Family) -> Seq<RuleView> {
        match family {
            Family::V4 => self.rules_v4(),
            Family::V6 => self.rules_v6(),
        }
    }

    /// Every rule routes to a set whose name the kernel can take, and the
    /// rules of each family stand in ascending order of their set names.
    #[verifier::type_invariant]
    pub open spec fn wf(&self) -> bool {
        &&& valid_setnames(self.rules_v4())
        &&& valid_setnames(self.rules_v6())
        &&& by_setname(self.rules_v4())
        &&& by_setname(self.rules_v6())
    }

    /// Builds the table from the target sets and patterns of both families.
    ///
    /// Fails exactly where a set name or a pattern is refused, with the error
    /// of the first that is.
    pub fn new(ipset_config: IpsetConfig) -> (built: Result<RoutingTable, Error>)
        ensures
            match built {
                Ok(table) => {
                    &&& rules_of(ipset_config.ipv4@) == Ok::<Seq<RuleView>, Refused>(
                        table.rules_v4(),
                    )
                    &&& rules_of(ipset_config.ipv6@) == Ok::<Seq<RuleView>, Refused>(
                        table.rules_v6(),
                    )
                    &&& table.wf()
                },
                Err(error) => match first_refused(ipset_config) {
                    Some(refused) => tells_of(error@, refused),
                    None => false,
                },
            },
    {
        proof {
            lemma_rules_of_valid(ipset_config.ipv4@);
            lemma_rules_of_valid(ipset_config.ipv6@);
        }
        match parse_ipsetconfig(ipset_config) {
            Err(error) => Err(error),
            Ok(families) => Ok(RoutingTable { ipset_v4: families.0, ipset_v6: families.1 }),
        }
    }

    /// The target sets that `domain_name` belongs to among the rules of
    /// `family`: the set name of every rule that matches, once each. No
    /// match gives the empty list. The table is only read.
    pub fn resolve(&self, family: Family, domain_name: &str) -> (found: Vec<&str>)
        ensures
            names_of(found@) == matching_names(self.rules(family), domain_name@),
    {
        match family {
            Family::V4 => find_setnames(self.ipset_v4.as_slice(), domain_name),
            Family::V6 => find_setnames(self.ipset_v6.as_slice(), domain_name),
        }
    }

    /// The target sets of `value` among the IPv4 rules.
    pub fn find_setnames_ipv4(&self, value: &str) -> (found: Vec<&str>)
        ensures
            names_of(found@) == matching_names(self.rules_v4(), value@),
    {
        self.resolve(Family::V4, value)
    }

    /// The target sets of `value` among the IPv6 rules.
    pub fn find_setnames_ipv6(&self, value: &str) -> (found: Vec<&str>)
        ensures
            names_of(found@) == matching_names(self.rules_v6(), value@),
    {
        self.resolve(Family::V6, value)
    }
}

/// The configuration that the forwarding pipeline runs with.
#[derive(Debug)]
pub struct Config {
    pub listen_addr: SocketAddress,
    pub dns_addr: SocketAddress,
    pub daemon_mode: bool,
    pub reuse_port: bool,
    pub routes: RoutingTable,
}

impl Config {
    /// The target sets of `value` among the IPv4 rules.
    pub fn find_setnames_ipv4(&self, value: &str) -> (found: Vec<&str>)
        ensures
            names_of(found@) == matching_names(self.routes.rules_v4(), value@),
    {
        self.routes.find_setnames_ipv4(value)
    }

    /// The target sets of `value` among the IPv6 rules.
    pub fn find_setnames_ipv6(&self, value: &str) -> (found: Vec<&str>)
        ensures
            names_of(found@) == matching_names(self.routes.rules_v6(), value@),
    {
        self.routes.find_setnames_ipv6(value)
    }
}

/// The number that a string of decimal digits stands for.
pub open spec fn decimal_value(digits: Seq<char>) -> nat
    decreases digits.len(),
{
    if digits.len() == 0 {
        0
    } else {
        decimal_value(digits.drop_last()) * 10 + (digits.last() as nat - '0' as nat) as nat
    }
}

/// Whether `text` is one or more of the digits `0` to `9`.
pub open spec fn is_decimal(text: Seq<char>) -> bool {
    text.len() > 0 && forall|i: int| 0 <= i < text.len() ==> '0' <= #[trigger] text[i] <= '9'
}

/// The port that `text` names: decimal digits, after a plus sign or without
/// one, that stand for a number of at most 65535. Anything else names no
/// port.
pub open spec fn parsed_port(text: Seq<char>) -> Option<u16> {
    let digits = if text.len() > 0 && text[0] == '+' {
        text.skip(1)
    } else {
        text
    };
    if is_decimal(digits) && decimal_value(digits) <= u16::MAX {
        Some(decimal_value(digits) as u16)
    } else {
        None
    }
}

/// The text of the error for a string that names no port.
pub open spec fn invalid_port_text() -> Seq<char> {
    "Invalid port number"@
}

/// The digits read so far stand for no more than all of them do.
proof fn lemma_decimal_value_grows(digits: Seq<char>, read: int)
    requires
        0 <= read <= digits.len(),
    ensures
        decimal_value(digits.take(read)) <= decimal_value(digits),
    decreases digits.len(),
{
    if read < digits.len() {
        lemma_decimal_value_grows(digits.drop_last(), read);
        assert(digits.drop_last().take(read) == digits.take(read));
    } else {
        assert(digits.take(read) == digits);
    }
}

/// The port that `text` names, if it names one.
pub fn parse_port(text: &str) -> (parsed: Option<u16>)
    ensures
        parsed == parsed_port(text@),
{
    if !text.is_ascii() {
        proof {
            let at = choose|at: int|
                0 <= at < text@.len() && !('\0' <= #[trigger] text@[at] <= '\u{7f}');
            if text@[0] == '+' {
                assert(text@.skip(1)[at - 1] == text@[at]);
            }
        }
        return None;
    }
    let len = text.as_bytes().len();
    proof {
        vstd::utf8::is_ascii_chars_encode_utf8(text@);
    }
    let start: usize = if len > 0 && text.get_ascii(0) == 43 {
        1
    } else {
        0
    };
    let ghost digits = text@.skip(start as int);
    proof {
        assert(text@.skip(0) == text@);
        if len > 0 {
            assert('\0' <= text@[0] <= '\u{7f}');
            assert((text@[0] == '+') == (start == 1));
        }
    }
    if start == len {
        return None;
    }
    let mut value: u32 = 0;
    let mut i: usize = start;
    assert(digits.take(0) == Seq::<char>::empty());
    while i < len
        invariant
            start <= i <= len,
            len == text@.len(),
            text.is_ascii(),
            digits == text@.skip(start as int),
            parsed_port(text@) == (if is_decimal(digits) && decimal_value(digits) <= u16::MAX {
                Some(decimal_value(digits) as u16)
            } else {
                None
            }),
            forall|j: int| 0 <= j < i - start ==> '0' <= #[trigger] digits[j] <= '9',
            value == decimal_value(digits.take(i - start)),
            value <= u16::MAX,
        decreases len - i,
    {
        let byte = text.get_ascii(i);
        assert(digits[i - start] == text@[i as int]);
        if byte < 48 || byte > 57 {
            return None;
        }
        assert(digits.take(i - start + 1).drop_last() == digits.take(i - start));
        value = value * 10 + (byte - 48) as u32;
        if value > 65535 {
            proof {
                lemma_decimal_value_grows(digits, i - start + 1);
            }
            return None;
        }
        i += 1;
    }
    assert(digits.take(i - start) == digits);
    Some(value as u16)
}

/// Whether `v` names a port.
pub fn is_port_valid(v: String) -> (valid: Result<(), String>)
    ensures
        match valid {
            Ok(_) => parsed_port(v@) is Some,
            Err(text) => parsed_port(v@) is None && text@ == invalid_port_text(),
        },
{
    match parse_port(v.as_str()) {
        Some(_) => Ok(()),
        None => Err(String::from_str("Invalid port number")),
    }
}

/// What the command line and the configuration file gave.
#[derive(Debug, PartialEq, Eq)]
pub struct Arguments {
    /// Whether to detach from the terminal before serving.
    pub daemon: bool,
    /// Whether to let other processes listen on the same address and port.
    pub reuse: bool,
    /// The port to listen on as it was written, if one was given.
    pub port: Option<String>,
    /// The IPv4 address of the upstream resolver, if one was given.
    pub dns: Option<[u8; 4]>,
    /// The target sets and their patterns.
    pub ipset: IpsetConfig,
}

impl Arguments {
    /// The port to listen on: the given one or the default one; `None`
    /// where what was given names no port.
    pub open spec fn listen_port(self) -> Option<u16> {
        match self.port {
            Some(text) => parsed_port(text@),
            None => Some(DEFAULT_LISTEN_PORT),
        }
    }

    /// The address of the upstream resolver: the given one or the default
    /// one, at the DNS port.
    pub open spec fn dns_addr(self) -> SocketAddress {
        SocketAddress {
            ip: IpAddress::V4(
                match self.dns {
                    Some(ip) => ip,
                    None => DEFAULT_DNS_IP,
                },
            ),
            port: DNS_PORT,
        }
    }
}

/// Something that a [`Config`] can be made of.
pub trait IntoConfig: Sized {
    /// Builds the configuration, or says why it cannot be built.
    fn into_config(self) -> Result<Config, Error>;
}

impl IntoConfig for Arguments {
    /// Fills in the defaults and builds the routing table.
    ///
    /// The listen address is the loopback address. Fails where the port is
    /// given and names no port, and else exactly where a set name or a
    /// pattern is refused, with the error of the first that is.
    fn into_config(self) -> (built: Result<Config, Error>)
        ensures
            match built {
                Ok(config) => {
                    &&& self.listen_port() == Some(config.listen_addr.port)
                    &&& config.listen_addr.ip == IpAddress::V4(LISTEN_IP)
                    &&& config.dns_addr == self.dns_addr()
                    &&& config.daemon_mode == self.daemon
                    &&& config.reuse_port == self.reuse
                    &&& rules_of(self.ipset.ipv4@) == Ok::<Seq<RuleView>, Refused>(
                        config.routes.rules_v4(),
                    )
                    &&& rules_of(self.ipset.ipv6@) == Ok::<Seq<RuleView>, Refused>(
                        config.routes.rules_v6(),
                    )
                    &&& config.routes.wf()
                },
                Err(error) => if self.listen_port() is None {
                    error@ matches ErrorKind::Msg(text) && text@ == invalid_port_text()
                } else {
                    match first_refused(self.ipset) {
                        Some(refused) => tells_of(error@, refused),
                        None => false,
                    }
                },
            },
    {
        let listen_port = match &self.port {
            Some(text) => match parse_port(text.as_str()) {
                Some(port) => port,
                None => {
                    return Err(new_error(ErrorKind::Msg(String::from_str("Invalid port number"))));
                },
            },
            None => DEFAULT_LISTEN_PORT,
        };
        let dns_ip = match self.dns {
            Some(ip) => ip,
            None => DEFAULT_DNS_IP,
        };
        match RoutingTable::new(self.ipset) {
            Err(error) => Err(error),
            Ok(routes) => Ok(
                Config {
                    listen_addr: SocketAddress { ip: IpAddress::V4(LISTEN_IP), port: listen_port },
                    dns_addr: SocketAddress { ip: IpAddress::V4(dns_ip), port: DNS_PORT },
                    daemon_mode: self.daemon,
                    reuse_port: self.reuse,
                    routes,
                },
            ),
        }
    }
}

} // verus!
