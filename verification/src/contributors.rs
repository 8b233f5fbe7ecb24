//! Contributors of a project, as mined from the commit history.
//!
//! A commit line has the form `Name <email>`. Lines are parsed, grouped by
//! email, reconciled by name and handed out sorted and without emails.

use crate::text::{
    chars_eq, chars_lt, chars_of, find_char, is_word, lemma_index_of_first_is,
    lemma_index_of_first_none, lemma_lex_asymmetric, lemma_lex_irreflexive,
    lemma_lex_lt_le_transitive, lex_le, lex_lt, lines_of, lowercase_of, split_lines, split_words,
    string_of, string_of_range, string_views, to_lowercase, trim, trim_bounds, views, words,
};
use vstd::prelude::*;

verus! {

/// One contributor: a name, an email where it is known, and the number of
/// commits counted for them.
#[derive(Debug, Clone)]
pub struct Contributor {
    pub name: String,
    pub email: Option<String>,
    pub contributions: i64,
}

/// The mathematical value of a `Contributor`.
pub struct ContributorView {
    pub name: Seq<char>,
    pub email: Option<Seq<char>>,
    pub contributions: int,
}

impl View for Contributor {
    type V = ContributorView;

    open spec fn view(&self) -> ContributorView {
        ContributorView {
            name: self.name@,
            email: match self.email {
                Some(e) => Some(e@),
                None => None,
            },
            contributions: self.contributions as int,
        }
    }
}

/// The values of the contributors of `v`.
pub open spec fn contributor_views(v: Seq<Contributor>) -> Seq<ContributorView> {
    Seq::new(v.len(), |i: int| v[i]@)
}

impl ContributorView {
    /// The words of the name.
    pub open spec fn name_parts(self) -> Seq<Seq<char>> {
        words(self.name)
    }

    /// The first word of the name, where there is one.
    pub open spec fn first_name(self) -> Option<Seq<char>> {
        if self.name_parts().len() > 0 {
            Some(self.name_parts()[0])
        } else {
            None
        }
    }

    /// Whether the name is one word.
    pub open spec fn has_only_a_single_name(self) -> bool {
        self.name_parts().len() == 1
    }

    /// The same contributor with no email.
    pub open spec fn without_email(self) -> ContributorView {
        ContributorView { name: self.name, email: None, contributions: self.contributions }
    }
}

/// Copies the strings of `parts`.
fn strings_of(parts: &Vec<Vec<char>>) -> (out: Vec<String>)
    ensures
        string_views(out@) == views(parts@),
{
    let mut out: Vec<String> = Vec::new();
    let mut i: usize = 0;
    while i < parts.len()
        invariant
            i <= parts.len(),
            out.len() == i,
            forall|j: int| 0 <= j < i ==> out@[j]@ == parts@[j]@,
        decreases parts.len() - i,
    {
        let s = string_of(&parts[i]);
        out.push(s);
        i += 1;
    }
    out
}

impl Contributor {
    /// A contributor with copies of the given values.
    pub fn new(name: &String, email: Option<&String>, contributions: &i64) -> (out: Contributor)
        ensures
            out.name@ == name@,
            out.email is Some == email is Some,
            email is Some ==> out.email->0@ == email->0@,
            out.contributions == *contributions,
    {
        let email_copy = match email {
            Some(e) => Some(e.clone()),
            None => None,
        };
        Contributor { name: name.clone(), email: email_copy, contributions: *contributions }
    }

    /// The same contributor with no email.
    pub fn without_email(&self) -> (out: Contributor)
        ensures
            out@ == self@.without_email(),
    {
        Contributor::new(&self.name, None, &self.contributions)
    }

    /// The words of the name.
    pub fn name_parts(&self) -> (out: Vec<String>)
        ensures
            string_views(out@) == self@.name_parts(),
    {
        let chars = chars_of(self.name.as_str());
        let parts = split_words(&chars);
        strings_of(&parts)
    }

    /// The words of the name.
    pub fn collected_name_parts(&self) -> (out: Vec<String>)
        ensures
            string_views(out@) == self@.name_parts(),
    {
        self.name_parts()
    }

    /// The first word of the name, where there is one.
    pub fn first_name(&self) -> (out: Option<String>)
        ensures
            match out {
                Some(s) => self@.first_name() == Some(s@) && is_word(s@),
                None => self@.first_name() is None,
            },
    {
        let chars = chars_of(self.name.as_str());
        let parts = split_words(&chars);
        if parts.len() > 0 {
            Some(string_of(&parts[0]))
        } else {
            None
        }
    }

    /// Whether the name is one word.
    pub fn has_only_a_single_name(&self) -> (r: bool)
        ensures
            r == self@.has_only_a_single_name(),
    {
        let chars = chars_of(self.name.as_str());
        let parts = split_words(&chars);
        parts.len() == 1
    }
}

/// The name that a commit line gives: the text before the first `<`,
/// trimmed, unless there is no `<` or nothing is left.
pub open spec fn line_name(line: Seq<char>) -> Option<Seq<char>> {
    match line.index_of_first('<') {
        None => None,
        Some(end) => {
            let name = trim(line.subrange(0, end));
            if name.len() == 0 {
                None
            } else {
                Some(name)
            }
        },
    }
}

/// The email that a commit line gives: the text between the first `<` and
/// the first `>`, where both are there and `>` comes later.
pub open spec fn line_email(line: Seq<char>) -> Option<Seq<char>> {
    match (line.index_of_first('<'), line.index_of_first('>')) {
        (Some(start), Some(end)) => if end <= start {
            None
        } else {
            Some(line.subrange(start + 1, end))
        },
        _ => None,
    }
}

/// Extracts the name from a line of the form `Name <email>`.
pub fn extract_name_out_of_contributors_line(line: &str) -> (out: Option<String>)
    ensures
        match out {
            Some(s) => line_name(line@) == Some(s@),
            None => line_name(line@) is None,
        },
{
    let chars = chars_of(line);
    let end = match find_char(&chars, '<') {
        None => return None,
        Some(end) => end,
    };
    proof {
        chars@.index_of_first_ensures('<');
    }
    let (a, b) = trim_bounds(&chars, 0, end);
    if a == b {
        return None;
    }
    Some(string_of_range(&chars, a, b))
}

/// Extracts the email from a line of the form `Name <email>`.
pub fn extract_email_out_of_contributors_line(line: &str) -> (out: Option<String>)
    ensures
        match out {
            Some(s) => line_email(line@) == Some(s@),
            None => line_email(line@) is None,
        },
{
    let chars = chars_of(line);
    let start = match find_char(&chars, '<') {
        None => return None,
        Some(start) => start,
    };
    let end = match find_char(&chars, '>') {
        None => return None,
        Some(end) => end,
    };
    proof {
        chars@.index_of_first_ensures('>');
    }
    if end <= start {
        return None;
    }
    Some(string_of_range(&chars, start + 1, end))
}

/// The canonical form of a name: known aliases give the full name, any
/// other name stays as it is.
pub open spec fn patched_name(name: Seq<char>) -> Seq<char> {
    if name == "kamaal111"@ || name == "Kamaal"@ {
        "Kamaal Farah"@
    } else {
        name
    }
}

/// Replaces a known alias by the full name.
pub fn patch_contributor_name(name: &String) -> (out: String)
    ensures
        out@ == patched_name(name@),
{
    let first = String::from_str("kamaal111");
    let second = String::from_str("Kamaal");
    if *name == first || *name == second {
        String::from_str("Kamaal Farah")
    } else {
        name.clone()
    }
}

/// What a commit line adds to the history: an email and the canonical
/// name, where the line gives both.
pub open spec fn line_observation(line: Seq<char>) -> Option<(Seq<char>, Seq<char>)> {
    match (line_email(line), line_name(line)) {
        (Some(email), Some(name)) => Some((email, patched_name(name))),
        _ => None,
    }
}

/// The emails of `acc`, in order.
pub open spec fn emails_of(acc: Seq<ContributorView>) -> Seq<Option<Seq<char>>> {
    Seq::new(acc.len(), |i: int| acc[i].email)
}

/// `acc` after one more commit by `email` under `name`: the record of that
/// email counts one more and takes the name if it is longer than the one
/// it has; an email not seen before gets a record of its own at the end.
pub open spec fn record_observation(
    acc: Seq<ContributorView>,
    email: Seq<char>,
    name: Seq<char>,
) -> Seq<ContributorView> {
    match emails_of(acc).index_of_first(Some(email)) {
        Some(i) => acc.update(
            i,
            ContributorView {
                name: if name.len() > acc[i].name.len() {
                    name
                } else {
                    acc[i].name
                },
                email: acc[i].email,
                contributions: acc[i].contributions + 1,
            },
        ),
        None => acc.push(ContributorView { name, email: Some(email), contributions: 1 }),
    }
}

/// One record per email for the commit lines `lines`, in the order in which
/// the emails first appear: the longest name seen for the email (the first
/// of them where several are as long) and the number of its commits.
pub open spec fn aggregated(lines: Seq<Seq<char>>) -> Seq<ContributorView>
    decreases lines.len(),
{
    if lines.len() == 0 {
        Seq::empty()
    } else {
        let acc = aggregated(lines.drop_last());
        match line_observation(lines.last()) {
            Some((email, name)) => record_observation(acc, email, name),
            None => acc,
        }
    }
}

/// The sum of the contributions of `s`.
pub open spec fn total_contributions(s: Seq<ContributorView>) -> int
    decreases s.len(),
{
    if s.len() == 0 {
        0
    } else {
        total_contributions(s.drop_last()) + s.last().contributions
    }
}

/// Every record of `s` counts at least one contribution.
pub open spec fn all_counted(s: Seq<ContributorView>) -> bool {
    forall|i: int| 0 <= i < s.len() ==> (#[trigger] s[i]).contributions >= 1
}

/// Replacing one record changes the sum by the difference of the counts.
pub proof fn lemma_total_update(s: Seq<ContributorView>, i: int, c: ContributorView)
    requires
        0 <= i < s.len(),
    ensures
        total_contributions(s.update(i, c)) == total_contributions(s) - s[i].contributions
            + c.contributions,
    decreases s.len(),
{
    if i == s.len() - 1 {
        assert(s.update(i, c).drop_last() =~= s.drop_last());
    } else {
        assert(s.update(i, c).drop_last() =~= s.drop_last().update(i, c));
        lemma_total_update(s.drop_last(), i, c);
    }
}

/// Adding a record at the end adds its count.
pub proof fn lemma_total_push(s: Seq<ContributorView>, c: ContributorView)
    ensures
        total_contributions(s.push(c)) == total_contributions(s) + c.contributions,
{
    assert(s.push(c).drop_last() =~= s);
}

/// Records that each count at least one count at least their number.
pub proof fn lemma_total_at_least_len(s: Seq<ContributorView>)
    requires
        all_counted(s),
    ensures
        total_contributions(s) >= s.len(),
    decreases s.len(),
{
    if s.len() > 0 {
        lemma_total_at_least_len(s.drop_last());
    }
}

/// No record counts more than all of them together.
pub proof fn lemma_total_bounds(s: Seq<ContributorView>, i: int)
    requires
        all_counted(s),
        0 <= i < s.len(),
    ensures
        s[i].contributions <= total_contributions(s),
    decreases s.len(),
{
    lemma_total_at_least_len(s.drop_last());
    if i < s.len() - 1 {
        lemma_total_bounds(s.drop_last(), i);
    }
}

/// Aggregation counts every record at least once and never more commits
/// than there are lines.
pub proof fn lemma_aggregated_counts(lines: Seq<Seq<char>>)
    ensures
        all_counted(aggregated(lines)),
        total_contributions(aggregated(lines)) <= lines.len(),
    decreases lines.len(),
{
    if lines.len() > 0 {
        let acc = aggregated(lines.drop_last());
        lemma_aggregated_counts(lines.drop_last());
        match line_observation(lines.last()) {
            Some((email, name)) => {
                emails_of(acc).index_of_first_ensures(Some(email));
                match emails_of(acc).index_of_first(Some(email)) {
                    Some(i) => {
                        let c = record_observation(acc, email, name)[i];
                        lemma_total_update(acc, i, c);
                    },
                    None => {
                        lemma_total_push(
                            acc,
                            ContributorView { name, email: Some(email), contributions: 1 },
                        );
                    },
                }
            },
            None => {},
        }
    }
}

/// Whether each record of `s` has an email and no two have the same.
pub open spec fn has_distinct_emails(s: Seq<ContributorView>) -> bool {
    &&& forall|i: int| 0 <= i < s.len() ==> (#[trigger] s[i]).email is Some
    &&& forall|i: int, j: int|
        0 <= i < j < s.len() ==> (#[trigger] s[i]).email != (#[trigger] s[j]).email
}

/// Aggregation makes one record per email.
pub proof fn lemma_aggregated_emails(lines: Seq<Seq<char>>)
    ensures
        has_distinct_emails(aggregated(lines)),
    decreases lines.len(),
{
    if lines.len() > 0 {
        let acc = aggregated(lines.drop_last());
        lemma_aggregated_emails(lines.drop_last());
        match line_observation(lines.last()) {
            Some((email, name)) => {
                let emails = emails_of(acc);
                let next = record_observation(acc, email, name);
                emails.index_of_first_ensures(Some(email));
                if emails.index_of_first(Some(email)) is None {
                    assert forall|i: int| 0 <= i < acc.len() implies (#[trigger] next[i]).email
                        != Some(email) by {
                        assert(emails.contains(emails[i]));
                    }
                }
            },
            None => {},
        }
    }
}

/// A copy of `c`.
pub(crate) fn copy_of(c: &Contributor) -> (out: Contributor)
    ensures
        out == *c,
{
    let email = match &c.email {
        Some(e) => Some(e.clone()),
        None => None,
    };
    Contributor { name: c.name.clone(), email, contributions: c.contributions }
}

/// Finds the record of `email` in `acc`.
fn find_email(acc: &Vec<Contributor>, email: &String) -> (r: Option<usize>)
    ensures
        match r {
            Some(i) => i < acc.len() && emails_of(contributor_views(acc@)).index_of_first(
                Some(email@),
            ) == Some(i as int),
            None => emails_of(contributor_views(acc@)).index_of_first(Some(email@)) is None,
        },
{
    let ghost emails = emails_of(contributor_views(acc@));
    let mut i: usize = 0;
    while i < acc.len()
        invariant
            i <= acc.len(),
            emails == emails_of(contributor_views(acc@)),
            forall|j: int| 0 <= j < i ==> emails[j] != Some(email@),
        decreases acc.len() - i,
    {
        let found = match &acc[i].email {
            Some(e) => *e == *email,
            None => false,
        };
        if found {
            proof {
                lemma_index_of_first_is(emails, Some(email@), i as int);
            }
            return Some(i);
        }
        i += 1;
    }
    proof {
        lemma_index_of_first_none(emails, Some(email@));
    }
    None
}

/// Groups the commit lines by email: one record per email, with the
/// longest name seen for it and the number of its commits.
pub fn aggregate_contributors(lines: &Vec<String>) -> (out: Vec<Contributor>)
    requires
        lines.len() <= i64::MAX,
    ensures
        contributor_views(out@) == aggregated(string_views(lines@)),
        has_distinct_emails(contributor_views(out@)),
        all_counted(contributor_views(out@)),
        total_contributions(contributor_views(out@)) <= lines.len(),
{
    let ghost all = string_views(lines@);
    let mut acc: Vec<Contributor> = Vec::new();
    let mut i: usize = 0;
    while i < lines.len()
        invariant
            i <= lines.len() <= i64::MAX,
            all == string_views(lines@),
            contributor_views(acc@) == aggregated(all.take(i as int)),
        decreases lines.len() - i,
    {
        let ghost before = contributor_views(acc@);
        proof {
            assert(all.take(i + 1).drop_last() =~= all.take(i as int));
            lemma_aggregated_counts(all.take(i as int));
        }
        let line = lines[i].as_str();
        let email = extract_email_out_of_contributors_line(line);
        let name = extract_name_out_of_contributors_line(line);
        match (email, name) {
            (Some(email), Some(name)) => {
                let name = patch_contributor_name(&name);
                match find_email(&acc, &email) {
                    Some(k) => {
                        proof {
                            lemma_total_bounds(before, k as int);
                            emails_of(before).index_of_first_ensures(Some(email@));
                        }
                        let old_length = chars_of(acc[k].name.as_str()).len();
                        let new_length = chars_of(name.as_str()).len();
                        let kept = if new_length > old_length {
                            name
                        } else {
                            acc[k].name.clone()
                        };
                        let record = Contributor {
                            name: kept,
                            email: Some(email),
                            contributions: acc[k].contributions + 1,
                        };
                        acc.set(k, record);
                    },
                    None => {
                        let record = Contributor { name, email: Some(email), contributions: 1 };
                        acc.push(record);
                    },
                }
            },
            _ => {},
        }
        i += 1;
    }
    proof {
        assert(all.take(lines.len() as int) =~= all);
        lemma_aggregated_emails(all);
        lemma_aggregated_counts(all);
    }
    acc
}

/// The text by which contributors are put in order.
#[derive(Debug, Clone, Copy)]
pub enum SortKey {
    /// The name as it is.
    Name,
    /// The name in lowercase, for an order that ignores case.
    LowercaseName,
}

/// The text that `by` takes from `c`.
pub open spec fn key_of(by: SortKey, c: ContributorView) -> Seq<char> {
    match by {
        SortKey::Name => c.name,
        SortKey::LowercaseName => lowercase_of(c.name),
    }
}

/// `s`, which is in order, with `x` put after the last record that does not
/// come after it.
pub open spec fn inserted_by(by: SortKey, s: Seq<ContributorView>, x: ContributorView) -> Seq<
    ContributorView,
>
    decreases s.len(),
{
    if s.len() > 0 && lex_lt(key_of(by, x), key_of(by, s.last())) {
        inserted_by(by, s.drop_last(), x).push(s.last())
    } else {
        s.push(x)
    }
}

/// The records of `s` in the lexicographic order of their keys; records
/// with equal keys stay in the order they had.
pub open spec fn sorted_by(by: SortKey, s: Seq<ContributorView>) -> Seq<ContributorView>
    decreases s.len(),
{
    if s.len() == 0 {
        Seq::empty()
    } else {
        inserted_by(by, sorted_by(by, s.drop_last()), s.last())
    }
}

/// Whether the keys of `s` never go down.
pub open spec fn is_ordered_by(by: SortKey, s: Seq<ContributorView>) -> bool {
    forall|i: int, j: int|
        0 <= i < j < s.len() ==> lex_le(#[trigger] key_of(by, s[i]), #[trigger] key_of(by, s[j]))
}

/// Putting `x` at a position where everything after it comes after `x`, and
/// the record before it does not, is `inserted_by`.
pub proof fn lemma_inserted_at(by: SortKey, s: Seq<ContributorView>, x: ContributorView, at: int)
    requires
        0 <= at <= s.len(),
        forall|j: int| at <= j < s.len() ==> lex_lt(key_of(by, x), key_of(by, #[trigger] s[j])),
        at > 0 ==> !lex_lt(key_of(by, x), key_of(by, s[at - 1])),
    ensures
        inserted_by(by, s, x) == s.insert(at, x),
    decreases s.len() - at,
{
    if at < s.len() {
        lemma_inserted_at(by, s.drop_last(), x, at);
    }
}

/// The text of `c` that `by` names.
fn key_chars(by: SortKey, c: &Contributor) -> (out: Vec<char>)
    ensures
        out@ == key_of(by, c@),
{
    match by {
        SortKey::Name => chars_of(c.name.as_str()),
        SortKey::LowercaseName => {
            let lower = to_lowercase(c.name.as_str());
            chars_of(lower.as_str())
        },
    }
}

/// Puts the contributors in the order of their keys; those with equal keys
/// stay in the order they had.
pub fn sort_contributors(by: SortKey, contributors: &Vec<Contributor>) -> (out: Vec<Contributor>)
    ensures
        contributor_views(out@) == sorted_by(by, contributor_views(contributors@)),
        is_ordered_by(by, contributor_views(out@)),
        contributor_views(out@).to_multiset() == contributor_views(contributors@).to_multiset(),
        forall|k: Seq<char>| #[trigger]
            with_key(by, contributor_views(out@), k) == with_key(
                by,
                contributor_views(contributors@),
                k,
            ),
{
    let ghost all = contributor_views(contributors@);
    let mut out: Vec<Contributor> = Vec::new();
    let mut keys: Vec<Vec<char>> = Vec::new();
    let mut i: usize = 0;
    while i < contributors.len()
        invariant
            i <= contributors.len(),
            all == contributor_views(contributors@),
            contributor_views(out@) == sorted_by(by, all.take(i as int)),
            keys.len() == out.len(),
            forall|j: int| 0 <= j < out.len() ==> (#[trigger] keys@[j])@ == key_of(by, out@[j]@),
        decreases contributors.len() - i,
    {
        let ghost before = contributor_views(out@);
        let item = copy_of(&contributors[i]);
        let key = key_chars(by, &item);
        let mut at: usize = out.len();
        while at > 0 && chars_lt(&key, &keys[at - 1])
            invariant
                at <= out.len(),
                keys.len() == out.len(),
                key@ == key_of(by, item@),
                before == contributor_views(out@),
                forall|j: int|
                    0 <= j < out.len() ==> (#[trigger] keys@[j])@ == key_of(by, out@[j]@),
                forall|j: int|
                    at <= j < before.len() ==> lex_lt(key_of(by, item@), key_of(by, #[trigger] before[j])),
            decreases at,
        {
            at -= 1;
        }
        proof {
            lemma_inserted_at(by, before, item@, at as int);
            assert(all.take(i + 1).drop_last() =~= all.take(i as int));
        }
        out.insert(at, item);
        keys.insert(at, key);
        i += 1;
    }
    proof {
        assert(all.take(contributors.len() as int) =~= all);
        lemma_sorted_by_is_ordered(by, all);
        lemma_sorted_by_permutes(by, all);
        assert forall|k: Seq<char>| #[trigger]
            with_key(by, contributor_views(out@), k) == with_key(by, all, k) by {
            lemma_sorted_by_is_stable(by, all, k);
        }
    }
    out
}

/// Whether the candidate `cand` and the record `c` are taken for one
/// person: they share the first name, and either the whole name, or one of
/// them has a single name and the other has more.
pub open spec fn is_same_person(cand: ContributorView, c: ContributorView) -> bool {
    &&& cand.first_name() is Some
    &&& c.first_name() == cand.first_name()
    &&& (cand.name == c.name || ((cand.has_only_a_single_name() || c.has_only_a_single_name())
        && cand.name_parts().len() != c.name_parts().len()))
}

/// The record that stands for both `cand` and `c`: the longer name, the
/// candidate's where they are as long; the candidate's email; the sum of
/// the contributions.
pub open spec fn merged_record(cand: ContributorView, c: ContributorView) -> ContributorView {
    ContributorView {
        name: if cand.name.len() >= c.name.len() {
            cand.name
        } else {
            c.name
        },
        email: cand.email,
        contributions: cand.contributions + c.contributions,
    }
}

/// The first names of `s`, in order.
pub open spec fn first_names_of(s: Seq<ContributorView>) -> Seq<Option<Seq<char>>> {
    Seq::new(s.len(), |i: int| s[i].first_name())
}

/// For each record of `s`, whether `cand` is taken for the same person.
pub open spec fn same_person_flags(s: Seq<ContributorView>, cand: ContributorView) -> Seq<bool> {
    Seq::new(s.len(), |i: int| is_same_person(cand, s[i]))
}

/// `merged` after the candidate `cand` was considered. A candidate without
/// a first name is left out. One whose first name is new is added at the
/// end. Else it is merged into the first record taken for the same person;
/// where there is none, it is left out.
pub open spec fn merge_step(merged: Seq<ContributorView>, cand: ContributorView) -> Seq<
    ContributorView,
> {
    if cand.first_name() is None {
        merged
    } else if !first_names_of(merged).contains(cand.first_name()) {
        merged.push(cand)
    } else {
        match same_person_flags(merged, cand).index_of_first(true) {
            Some(i) => merged.update(i, merged_record(cand, merged[i])),
            None => merged,
        }
    }
}

/// The records of `s` merged one after the other, from the first on.
pub open spec fn merged(s: Seq<ContributorView>) -> Seq<ContributorView>
    decreases s.len(),
{
    if s.len() == 0 {
        Seq::empty()
    } else {
        merge_step(merged(s.drop_last()), s.last())
    }
}

/// A step keeps every count at one or more and adds at most the
/// candidate's contributions to the sum.
pub proof fn lemma_merge_step_counts(s: Seq<ContributorView>, cand: ContributorView)
    requires
        all_counted(s),
        cand.contributions >= 1,
    ensures
        all_counted(merge_step(s, cand)),
        total_contributions(merge_step(s, cand)) <= total_contributions(s) + cand.contributions,
{
    if cand.first_name() is Some {
        if !first_names_of(s).contains(cand.first_name()) {
            lemma_total_push(s, cand);
        } else {
            let flags = same_person_flags(s, cand);
            flags.index_of_first_ensures(true);
            if let Some(i) = flags.index_of_first(true) {
                lemma_total_update(s, i, merged_record(cand, s[i]));
            }
        }
    }
}

/// A prefix counts no more than the whole.
pub proof fn lemma_total_take(s: Seq<ContributorView>, n: int)
    requires
        all_counted(s),
        0 <= n <= s.len(),
    ensures
        all_counted(s.take(n)),
        total_contributions(s.take(n)) <= total_contributions(s),
    decreases s.len() - n,
{
    if n == s.len() {
        assert(s.take(n) =~= s);
    } else {
        lemma_total_take(s, n + 1);
        assert(s.take(n + 1).drop_last() =~= s.take(n));
    }
}

/// Merging keeps every count at one or more and never counts more than
/// went in.
pub proof fn lemma_merged_counts(s: Seq<ContributorView>)
    requires
        all_counted(s),
    ensures
        all_counted(merged(s)),
        total_contributions(merged(s)) <= total_contributions(s),
    decreases s.len(),
{
    if s.len() > 0 {
        lemma_merged_counts(s.drop_last());
        lemma_merge_step_counts(merged(s.drop_last()), s.last());
    }
}

/// The words of the name of `c`.
fn name_words(c: &Contributor) -> (out: Vec<Vec<char>>)
    ensures
        views(out@) == c@.name_parts(),
{
    let chars = chars_of(c.name.as_str());
    split_words(&chars)
}

/// Decides whether the candidate `cand` and the record `c` are taken for
/// one person.
pub fn same_person(cand: &Contributor, c: &Contributor) -> (r: bool)
    ensures
        r == is_same_person(cand@, c@),
{
    let a = name_words(cand);
    let b = name_words(c);
    if a.len() == 0 || b.len() == 0 {
        return false;
    }
    if !chars_eq(&a[0], &b[0]) {
        return false;
    }
    let name_is_the_same = cand.name == c.name;
    name_is_the_same || ((a.len() == 1 || b.len() == 1) && a.len() != b.len())
}

/// Whether a record of `merged` has the first name `first`.
fn has_first_name(merged: &Vec<Contributor>, first: &Vec<char>) -> (r: bool)
    ensures
        r == first_names_of(contributor_views(merged@)).contains(Some(first@)),
{
    let ghost names = first_names_of(contributor_views(merged@));
    let mut i: usize = 0;
    while i < merged.len()
        invariant
            i <= merged.len(),
            names == first_names_of(contributor_views(merged@)),
            forall|j: int| 0 <= j < i ==> names[j] != Some(first@),
        decreases merged.len() - i,
    {
        let parts = name_words(&merged[i]);
        if parts.len() > 0 {
            if chars_eq(&parts[0], first) {
                assert(names[i as int] == Some(first@));
                return true;
            }
        }
        i += 1;
    }
    false
}

/// Finds the first record of `merged` that is taken for the same person as
/// `cand`.
fn find_same_person(merged: &Vec<Contributor>, cand: &Contributor) -> (r: Option<usize>)
    ensures
        match r {
            Some(i) => i < merged.len() && same_person_flags(
                contributor_views(merged@),
                cand@,
            ).index_of_first(true) == Some(i as int),
            None => same_person_flags(contributor_views(merged@), cand@).index_of_first(true)
                is None,
        },
{
    let ghost flags = same_person_flags(contributor_views(merged@), cand@);
    let mut i: usize = 0;
    while i < merged.len()
        invariant
            i <= merged.len(),
            flags == same_person_flags(contributor_views(merged@), cand@),
            forall|j: int| 0 <= j < i ==> !flags[j],
        decreases merged.len() - i,
    {
        if same_person(cand, &merged[i]) {
            proof {
                lemma_index_of_first_is(flags, true, i as int);
            }
            return Some(i);
        }
        i += 1;
    }
    proof {
        lemma_index_of_first_none(flags, true);
    }
    None
}

/// Merges the records that are taken for the same person, from the first
/// on, and leaves out those that share a first name with a record without
/// being taken for the same person.
pub fn merge_contributors_with_similar_names(contributors: &Vec<Contributor>) -> (out: Vec<
    Contributor,
>)
    requires
        all_counted(contributor_views(contributors@)),
        total_contributions(contributor_views(contributors@)) <= i64::MAX,
    ensures
        contributor_views(out@) == merged(contributor_views(contributors@)),
        all_counted(contributor_views(out@)),
        total_contributions(contributor_views(out@)) <= total_contributions(
            contributor_views(contributors@),
        ),
{
    let ghost all = contributor_views(contributors@);
    let mut out: Vec<Contributor> = Vec::new();
    let mut i: usize = 0;
    while i < contributors.len()
        invariant
            i <= contributors.len(),
            all == contributor_views(contributors@),
            all_counted(all),
            total_contributions(all) <= i64::MAX,
            contributor_views(out@) == merged(all.take(i as int)),
        decreases contributors.len() - i,
    {
        let ghost before = contributor_views(out@);
        let cand = &contributors[i];
        proof {
            assert(all.take(i + 1).drop_last() =~= all.take(i as int));
            lemma_total_take(all, i + 1);
            lemma_merged_counts(all.take(i as int));
        }
        let cand_words = name_words(cand);
        if cand_words.len() > 0 {
            if !has_first_name(&out, &cand_words[0]) {
                out.push(copy_of(cand));
            } else {
                match find_same_person(&out, cand) {
                    Some(k) => {
                        proof {
                            lemma_total_bounds(before, k as int);
                        }
                        let cand_length = chars_of(cand.name.as_str()).len();
                        let kept_length = chars_of(out[k].name.as_str()).len();
                        let name = if cand_length >= kept_length {
                            cand.name.clone()
                        } else {
                            out[k].name.clone()
                        };
                        let record = Contributor::new(
                            &name,
                            cand.email.as_ref(),
                            &(cand.contributions + out[k].contributions),
                        );
                        out.set(k, record);
                    },
                    None => {},
                }
            }
        }
        i += 1;
    }
    proof {
        assert(all.take(contributors.len() as int) =~= all);
        lemma_merged_counts(all);
    }
    out
}

/// Putting a record into `s` adds its count to the sum.
pub proof fn lemma_total_insert(s: Seq<ContributorView>, at: int, x: ContributorView)
    requires
        0 <= at <= s.len(),
    ensures
        total_contributions(s.insert(at, x)) == total_contributions(s) + x.contributions,
    decreases s.len() - at,
{
    if at == s.len() {
        assert(s.insert(at, x) =~= s.push(x));
        lemma_total_push(s, x);
    } else {
        assert(s.insert(at, x).drop_last() =~= s.drop_last().insert(at, x));
        lemma_total_insert(s.drop_last(), at, x);
    }
}

/// `inserted_by` puts `x` at one position of `s` and changes nothing else:
/// all that follows comes after `x`, and what stands before does not.
pub proof fn lemma_inserted_position(by: SortKey, s: Seq<ContributorView>, x: ContributorView)
    -> (at: int)
    ensures
        0 <= at <= s.len(),
        inserted_by(by, s, x) == s.insert(at, x),
        forall|j: int| at <= j < s.len() ==> lex_lt(key_of(by, x), key_of(by, #[trigger] s[j])),
        at > 0 ==> !lex_lt(key_of(by, x), key_of(by, s[at - 1])),
    decreases s.len(),
{
    if s.len() > 0 && lex_lt(key_of(by, x), key_of(by, s.last())) {
        let t = s.drop_last();
        let at = lemma_inserted_position(by, t, x);
        assert forall|j: int| at <= j < s.len() implies lex_lt(
            key_of(by, x),
            key_of(by, #[trigger] s[j]),
        ) by {
            if j < t.len() {
                assert(t[j] == s[j]);
            }
        }
        at
    } else {
        s.len() as int
    }
}

/// Sorting neither adds nor loses a record.
pub proof fn lemma_sorted_by_permutes(by: SortKey, s: Seq<ContributorView>)
    ensures
        sorted_by(by, s).to_multiset() == s.to_multiset(),
        sorted_by(by, s).len() == s.len(),
    decreases s.len(),
{
    broadcast use vstd::seq_lib::group_to_multiset_ensures;

    if s.len() > 0 {
        lemma_sorted_by_permutes(by, s.drop_last());
        lemma_inserted_position(by, sorted_by(by, s.drop_last()), s.last());
        assert(s.drop_last().push(s.last()) =~= s);
    }
}

/// The keys of a sorted sequence never go down.
pub proof fn lemma_sorted_by_is_ordered(by: SortKey, s: Seq<ContributorView>)
    ensures
        is_ordered_by(by, sorted_by(by, s)),
    decreases s.len(),
{
    if s.len() > 0 {
        let t = sorted_by(by, s.drop_last());
        let x = s.last();
        lemma_sorted_by_is_ordered(by, s.drop_last());
        let at = lemma_inserted_position(by, t, x);
        let r = t.insert(at, x);
        assert forall|i: int, j: int| 0 <= i < j < r.len() implies lex_le(
            #[trigger] key_of(by, r[i]),
            #[trigger] key_of(by, r[j]),
        ) by {
            if j == at {
                if lex_lt(key_of(by, x), key_of(by, t[i])) {
                    lemma_lex_lt_le_transitive(
                        key_of(by, x),
                        key_of(by, t[i]),
                        key_of(by, t[at - 1]),
                    );
                }
            } else if i == at {
                lemma_lex_asymmetric(key_of(by, x), key_of(by, t[j - 1]));
            }
        }
    }
}

/// The records of `s` whose key is `k`, in the order in which they stand.
pub open spec fn with_key(by: SortKey, s: Seq<ContributorView>, k: Seq<char>) -> Seq<
    ContributorView,
> {
    s.filter(|c: ContributorView| key_of(by, c) == k)
}

/// Where no record has the key `k`, none is left.
pub proof fn lemma_with_key_none(by: SortKey, s: Seq<ContributorView>, k: Seq<char>)
    requires
        forall|j: int| 0 <= j < s.len() ==> key_of(by, #[trigger] s[j]) != k,
    ensures
        with_key(by, s, k) == Seq::<ContributorView>::empty(),
    decreases s.len(),
{
    reveal(Seq::filter);
    if s.len() > 0 {
        lemma_with_key_none(by, s.drop_last(), k);
    }
}

/// A record that is put before records that come after it stands last
/// among the records of its key, and changes nothing for another key.
pub proof fn lemma_with_key_insert(
    by: SortKey,
    s: Seq<ContributorView>,
    x: ContributorView,
    at: int,
    k: Seq<char>,
)
    requires
        0 <= at <= s.len(),
        forall|j: int| at <= j < s.len() ==> lex_lt(key_of(by, x), key_of(by, #[trigger] s[j])),
    ensures
        with_key(by, s.insert(at, x), k) == if key_of(by, x) == k {
            with_key(by, s, k).push(x)
        } else {
            with_key(by, s, k)
        },
{
    let pred = |c: ContributorView| key_of(by, c) == k;
    let front = s.take(at);
    let back = s.skip(at);
    assert(s =~= front + back);
    Seq::filter_distributes_over_add(front.push(x), back, pred);
    Seq::filter_distributes_over_add(front, back, pred);
    front.lemma_filter_push(x, pred);
    if key_of(by, x) == k {
        assert forall|j: int| 0 <= j < back.len() implies key_of(by, #[trigger] back[j]) != k by {
            lemma_lex_irreflexive(k);
        }
        lemma_with_key_none(by, back, k);
    }
}

/// Sorting keeps the records of each key in the order they had.
pub proof fn lemma_sorted_by_is_stable(by: SortKey, s: Seq<ContributorView>, k: Seq<char>)
    ensures
        with_key(by, sorted_by(by, s), k) == with_key(by, s, k),
    decreases s.len(),
{
    if s.len() > 0 {
        let t = sorted_by(by, s.drop_last());
        let x = s.last();
        lemma_sorted_by_is_stable(by, s.drop_last(), k);
        let at = lemma_inserted_position(by, t, x);
        lemma_with_key_insert(by, t, x, at, k);
        s.drop_last().lemma_filter_push(x, |c: ContributorView| key_of(by, c) == k);
        assert(s.drop_last().push(x) =~= s);
    }
}

/// Sorting keeps every count and their sum.
pub proof fn lemma_sorted_by_counts(by: SortKey, s: Seq<ContributorView>)
    requires
        all_counted(s),
    ensures
        all_counted(sorted_by(by, s)),
        total_contributions(sorted_by(by, s)) == total_contributions(s),
    decreases s.len(),
{
    if s.len() > 0 {
        let t = sorted_by(by, s.drop_last());
        lemma_sorted_by_counts(by, s.drop_last());
        let at = lemma_inserted_position(by, t, s.last());
        lemma_total_insert(t, at, s.last());
        let r = t.insert(at, s.last());
        assert forall|j: int| 0 <= j < r.len() implies (#[trigger] r[j]).contributions >= 1 by {}
    }
}

/// The records of `s` without their emails.
pub open spec fn without_emails(s: Seq<ContributorView>) -> Seq<ContributorView> {
    Seq::new(s.len(), |i: int| s[i].without_email())
}

/// The contributors that the commit lines `lines` give: one record per
/// email, merged by person, sorted by name without regard to case, and
/// without emails. Before they are merged the records are put in the order
/// of their names, so that the merge goes by the names and not by the
/// order in which the emails first appear in the history.
pub open spec fn reconciled(lines: Seq<Seq<char>>) -> Seq<ContributorView> {
    let by_email = sorted_by(SortKey::Name, aggregated(lines));
    let by_person = merged(by_email);
    without_emails(sorted_by(SortKey::LowercaseName, by_person))
}

/// Taking the emails away keeps the order by name.
pub proof fn lemma_without_emails_ordered(s: Seq<ContributorView>)
    requires
        is_ordered_by(SortKey::LowercaseName, s),
    ensures
        is_ordered_by(SortKey::LowercaseName, without_emails(s)),
{
    let r = without_emails(s);
    assert forall|i: int, j: int| 0 <= i < j < r.len() implies lex_le(
        #[trigger] key_of(SortKey::LowercaseName, r[i]),
        #[trigger] key_of(SortKey::LowercaseName, r[j]),
    ) by {
        assert(key_of(SortKey::LowercaseName, r[i]) == key_of(SortKey::LowercaseName, s[i]));
    }
}

/// Reconciles the contributors that the commit lines give.
pub fn reconcile_contributors(lines: &Vec<String>) -> (out: Vec<Contributor>)
    requires
        lines.len() <= i64::MAX,
    ensures
        contributor_views(out@) == reconciled(string_views(lines@)),
        is_ordered_by(SortKey::LowercaseName, contributor_views(out@)),
        forall|i: int| 0 <= i < out.len() ==> (#[trigger] out@[i]).email is None,
        forall|i: int| 0 <= i < out.len() ==> (#[trigger] out@[i]).contributions >= 1,
{
    let by_email = aggregate_contributors(lines);
    let ordered = sort_contributors(SortKey::Name, &by_email);
    proof {
        lemma_sorted_by_counts(SortKey::Name, contributor_views(by_email@));
    }
    let by_person = merge_contributors_with_similar_names(&ordered);
    let sorted = sort_contributors(SortKey::LowercaseName, &by_person);
    proof {
        lemma_sorted_by_counts(SortKey::LowercaseName, contributor_views(by_person@));
        lemma_without_emails_ordered(contributor_views(sorted@));
    }
    let mut out: Vec<Contributor> = Vec::new();
    let mut i: usize = 0;
    while i < sorted.len()
        invariant
            i <= sorted.len(),
            out.len() == i,
            forall|j: int| 0 <= j < i ==> (#[trigger] out@[j])@ == sorted@[j]@.without_email(),
        decreases sorted.len() - i,
    {
        out.push(sorted[i].without_email());
        i += 1;
    }
    proof {
        let s = contributor_views(sorted@);
        assert forall|i: int| 0 <= i < out.len() implies (#[trigger] out@[i]).contributions
            >= 1 by {
            assert(s[i] == sorted@[i]@);
        }
    }
    out
}

/// The contributors of a project from the output of the version-control
/// log, one commit per line in the form `Name <email>`. Without a history
/// there are no contributors.
pub fn get_contributors_list(log_output: Option<&str>) -> (out: Vec<Contributor>)
    requires
        log_output is Some ==> log_output->0@.len() < i64::MAX,
    ensures
        contributor_views(out@) == match log_output {
            Some(text) => reconciled(lines_of(text@)),
            None => Seq::empty(),
        },
        log_output is None ==> out.len() == 0,
        is_ordered_by(SortKey::LowercaseName, contributor_views(out@)),
        forall|i: int| 0 <= i < out.len() ==> (#[trigger] out@[i]).email is None,
        forall|i: int| 0 <= i < out.len() ==> (#[trigger] out@[i]).contributions >= 1,
{
    match log_output {
        None => {
            let out: Vec<Contributor> = Vec::new();
            out
        },
        Some(text) => {
            let lines = split_lines(text);
            reconcile_contributors(&lines)
        },
    }
}

} // verus!
