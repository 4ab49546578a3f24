//! The routing rules: which target sets a domain name belongs to.
//!
//! A rule pairs the name of a target set with a pattern. Looking a domain name
//! up in a list of rules gives the names of the sets whose pattern matches,
//! each name once, in ascending order.

use crate::order::{
    ascending, insert_sorted, lemma_insert_index_is, lemma_insert_sorted,
    lemma_name_less_asymmetric, name_is_less, name_less, stands_at,
};
use crate::pattern::{DomainPattern, PatternView};
use vstd::prelude::*;

verus! {

/// A rule as the contracts see it.
pub struct RuleView {
    pub setname: Seq<char>,
    pub pattern: PatternView,
}

/// One routing rule: domain names that match the pattern go to the set.
#[derive(Debug)]
pub struct SetnameMatcher {
    setname: String,
    domain_matcher: DomainPattern,
}

impl View for SetnameMatcher {
    type V = RuleView;

    closed spec fn view(&self) -> RuleView {
        RuleView { setname: self.setname@, pattern: self.domain_matcher@ }
    }
}

impl DeepView for SetnameMatcher {
    type V = RuleView;

    open spec fn deep_view(&self) -> RuleView {
        self@
    }
}

impl SetnameMatcher {
    /// The rule that routes what `matcher` matches to the set `setname`.
    pub fn new(setname: &str, matcher: DomainPattern) -> (rule: Self)
        ensures
            rule@ == (RuleView { setname: setname@, pattern: matcher@ }),
    {
        SetnameMatcher { setname: setname.to_owned(), domain_matcher: matcher }
    }

    /// Whether the rule's pattern matches `value`.
    pub fn matches(&self, value: &str) -> (found: bool)
        ensures
            found == self@.pattern.matches(value@),
    {
        self.domain_matcher.matches(value)
    }

    /// The name of the set that the rule routes to.
    pub fn setname(&self) -> (name: &str)
        ensures
            name@ == self@.setname,
    {
        self.setname.as_str()
    }

    /// The pattern that a domain name has to match.
    pub fn pattern(&self) -> (pattern: &DomainPattern)
        ensures
            pattern@ == self@.pattern,
    {
        &self.domain_matcher
    }
}

/// The names of the sets that `value` belongs to: the set name of each rule
/// that matches, put where it belongs among the names of the rules before
/// it. The names come out in ascending order, each once.
pub open spec fn matching_names(rules: Seq<RuleView>, value: Seq<char>) -> Seq<Seq<char>>
    decreases rules.len(),
{
    if rules.len() == 0 {
        Seq::empty()
    } else {
        let earlier = matching_names(rules.drop_last(), value);
        let rule = rules.last();
        if rule.pattern.matches(value) {
            insert_sorted(earlier, rule.setname)
        } else {
            earlier
        }
    }
}

/// The names that a list of string slices holds.
pub open spec fn names_of(found: Seq<&str>) -> Seq<Seq<char>> {
    Seq::new(found.len(), |i: int| found[i]@)
}

/// The matching names stand in ascending order, so none is there twice; and
/// a set name is among them exactly when a rule with that name matches.
pub proof fn lemma_matching_names(rules: Seq<RuleView>, value: Seq<char>)
    ensures
        ascending(matching_names(rules, value)),
        matching_names(rules, value).no_duplicates(),
        forall|name: Seq<char>| #[trigger]
            matching_names(rules, value).contains(name) <==> exists|i: int|
                0 <= i < rules.len() && #[trigger] rules[i].setname == name
                    && rules[i].pattern.matches(value),
    decreases rules.len(),
{
    let found = matching_names(rules, value);
    if rules.len() > 0 {
        let shorter = rules.drop_last();
        let earlier = matching_names(shorter, value);
        let rule = rules.last();
        lemma_matching_names(shorter, value);
        lemma_insert_sorted(earlier, rule.setname);
        assert forall|name: Seq<char>| #[trigger]
            found.contains(name) <==> exists|i: int|
                0 <= i < rules.len() && #[trigger] rules[i].setname == name
                    && rules[i].pattern.matches(value) by {
            if found.contains(name) {
                if earlier.contains(name) {
                    let i = choose|i: int|
                        0 <= i < shorter.len() && #[trigger] shorter[i].setname == name
                            && shorter[i].pattern.matches(value);
                    assert(rules[i].setname == name && rules[i].pattern.matches(value));
                } else {
                    assert(rules[rules.len() - 1].setname == name);
                }
            }
            if exists|i: int|
                0 <= i < rules.len() && #[trigger] rules[i].setname == name
                    && rules[i].pattern.matches(value) {
                let i = choose|i: int|
                    0 <= i < rules.len() && #[trigger] rules[i].setname == name
                        && rules[i].pattern.matches(value);
                if i < shorter.len() {
                    assert(shorter[i].setname == name && shorter[i].pattern.matches(value));
                }
            }
        }
    }
    assert forall|i: int, j: int| 0 <= i < j < found.len() implies found[i] != found[j] by {
        lemma_name_less_asymmetric(found[i], found[j]);
    }
}

/// Looking the same name up in the same rules gives the same set names, in
/// the same order, however often it is done.
pub proof fn lemma_lookup_is_repeatable(
    rules: Seq<RuleView>,
    value: Seq<char>,
    first: Seq<&str>,
    second: Seq<&str>,
)
    requires
        names_of(first) == matching_names(rules, value),
        names_of(second) == matching_names(rules, value),
    ensures
        first.len() == second.len(),
        forall|i: int| 0 <= i < first.len() ==> first[i]@ == second[i]@,
{
    assert(names_of(first).len() == first.len());
    assert forall|i: int| 0 <= i < first.len() implies first[i]@ == second[i]@ by {
        assert(names_of(first)[i] == names_of(second)[i]);
    }
}

/// A rule with an exact pattern sends its own domain name to its set, and
/// sends no other name there: where another name is routed to that set, some
/// other rule of the set matches it.
pub proof fn lemma_exact_rule(rules: Seq<RuleView>, i: int, domain: Seq<char>, value: Seq<char>)
    requires
        0 <= i < rules.len(),
        rules[i].pattern == PatternView::Exact(domain),
    ensures
        matching_names(rules, domain).contains(rules[i].setname),
        value != domain && matching_names(rules, value).contains(rules[i].setname)
            ==> exists|j: int|
            0 <= j < rules.len() && j != i && #[trigger] rules[j].setname == rules[i].setname
                && rules[j].pattern.matches(value),
{
    lemma_matching_names(rules, domain);
    lemma_matching_names(rules, value);
}

/// Two rules of different sets that both match a domain name route it to
/// both sets, and to each of them once.
pub proof fn lemma_overlapping_rules(rules: Seq<RuleView>, i: int, j: int, value: Seq<char>)
    requires
        0 <= i < rules.len(),
        0 <= j < rules.len(),
        rules[i].setname != rules[j].setname,
        rules[i].pattern.matches(value),
        rules[j].pattern.matches(value),
    ensures
        matching_names(rules, value).contains(rules[i].setname),
        matching_names(rules, value).contains(rules[j].setname),
        matching_names(rules, value).no_duplicates(),
{
    lemma_matching_names(rules, value);
}

/// A domain name that no rule matches belongs to no set.
pub proof fn lemma_no_match(rules: Seq<RuleView>, value: Seq<char>)
    requires
        forall|i: int| 0 <= i < rules.len() ==> !(#[trigger] rules[i]).pattern.matches(value),
    ensures
        matching_names(rules, value) == Seq::<Seq<char>>::empty(),
{
    lemma_matching_names(rules, value);
    let found = matching_names(rules, value);
    if found.len() > 0 {
        assert(found.contains(found[0]));
    }
}

/// Puts `name` where it belongs among `found`, unless it stands there
/// already.
fn insert_name<'a>(found: &mut Vec<&'a str>, name: &'a str)
    ensures
        names_of(final(found)@) == insert_sorted(names_of(old(found)@), name@),
{
    let ghost names = names_of(found@);
    let mut i: usize = 0;
    while i < found.len() && name_is_less(found[i], name)
        invariant
            i <= found@.len(),
            names == names_of(found@),
            found@ == old(found)@,
            forall|j: int| 0 <= j < i ==> name_less(#[trigger] names[j], name@),
        decreases found@.len() - i,
    {
        i += 1;
    }
    proof {
        if i < found@.len() {
            assert(names[i as int] == found@[i as int]@);
        }
        lemma_insert_index_is(names, name@, i as int);
    }
    if i < found.len() && found[i].eq(name) {
        assert(stands_at(names, name@, i as int));
    } else {
        found.insert(i, name);
        assert(names_of(found@) == names.insert(i as int, name@));
    }
}

/// Looks `value` up in `ipset`.
///
/// The result holds the set name of every rule that matches, once each and
/// in ascending order. No match gives the empty list. The rules are only
/// read.
pub fn find_setnames<'a>(ipset: &'a [SetnameMatcher], value: &str) -> (found: Vec<&'a str>)
    ensures
        names_of(found@) == matching_names(ipset.deep_view(), value@),
{
    let mut found: Vec<&'a str> = Vec::new();
    let mut i: usize = 0;
    while i < ipset.len()
        invariant
            i <= ipset@.len(),
            names_of(found@) == matching_names(ipset.deep_view().take(i as int), value@),
        decreases ipset@.len() - i,
    {
        let rule = &ipset[i];
        assert(ipset.deep_view().take(i + 1).drop_last() == ipset.deep_view().take(i as int));
        if rule.matches(value) {
            insert_name(&mut found, rule.setname());
        }
        i += 1;
    }
    assert(ipset.deep_view().take(i as int) == ipset.deep_view());
    found
}

} // verus!
