use vstd::prelude::*;
use vstd::seq_lib::{group_to_multiset_ensures, lemma_multiset_commutative};

use crate::error::{check_status, error_text, is_success, RelayError, Service};
use crate::text::{decimal, push_decimal, trim, trimmed};

verus! {

/// What the profile service reports of one character.
pub struct CharacterSnapshot {
    pub name: String,
    pub level: u32,
    pub race: String,
    pub class: String,
}

/// One line of a level report: a character's name, its level, and a label
/// made of its race and class.
pub struct LevelEntry {
    pub name: String,
    pub level: u32,
    pub label: String,
}

/// The merged outcome of a fan-out over tracked names: the characters found,
/// highest level first, and one error text for each name that failed.
pub struct LevelReport {
    pub entries: Vec<LevelEntry>,
    pub errors: Vec<String>,
}

/// Reads the answer of the profile endpoint for `name`: its status, and its
/// body as a snapshot or the fault that kept it from being read. A not-found
/// status names the character; any other status outside 200..=299 is an
/// upstream error; then an unreadable body is malformed.
pub fn read_profile_answer(name: &str, status: u16, body: Result<CharacterSnapshot, String>) -> (r:
    Result<CharacterSnapshot, RelayError>)
    ensures
        status == 404 ==> (match r {
            Err(RelayError::NotFound(n)) => n@ == name@,
            _ => false,
        }),
        status != 404 && !is_success(status) ==> r == Err::<CharacterSnapshot, RelayError>(
            RelayError::Status(Service::Profile, status),
        ),
        is_success(status) ==> match body {
            Err(d) => r == Err::<CharacterSnapshot, RelayError>(
                RelayError::Malformed(Service::Profile, d),
            ),
            Ok(c) => r == Ok::<CharacterSnapshot, RelayError>(c),
        },
{
    match check_status(Service::Profile, status, name) {
        Err(e) => Err(e),
        Ok(()) => match body {
            Err(d) => Err(RelayError::Malformed(Service::Profile, d)),
            Ok(c) => Ok(c),
        },
    }
}

/// An entry as (name, level, label).
pub open spec fn entry_view(e: LevelEntry) -> (Seq<char>, u32, Seq<char>) {
    (e.name@, e.level, e.label@)
}

pub open spec fn entries_view(v: Seq<LevelEntry>) -> Seq<(Seq<char>, u32, Seq<char>)> {
    v.map_values(|e: LevelEntry| entry_view(e))
}

pub open spec fn strings_view(v: Seq<String>) -> Seq<Seq<char>> {
    v.map_values(|s: String| s@)
}

/// The entry for a character found: its label is its race, a space, its class.
pub open spec fn snapshot_entry(c: CharacterSnapshot) -> (Seq<char>, u32, Seq<char>) {
    (c.name@, c.level, c.race@ + " "@ + c.class@)
}

/// The entries of the outcomes that succeeded, in input order.
pub open spec fn found(o: Seq<Result<CharacterSnapshot, RelayError>>) -> Seq<
    (Seq<char>, u32, Seq<char>),
>
    decreases o.len(),
{
    if o.len() == 0 {
        Seq::empty()
    } else {
        match o.last() {
            Ok(c) => found(o.drop_last()).push(snapshot_entry(c)),
            Err(_) => found(o.drop_last()),
        }
    }
}

/// The error text of a failed outcome for `name`: the name, a colon, the error.
pub open spec fn failure_line(name: Seq<char>, e: RelayError) -> Seq<char> {
    name + ": "@ + error_text(e)
}

/// The error texts of the outcomes that failed, in input order, each with the
/// name it was asked for.
pub open spec fn failed(names: Seq<String>, o: Seq<Result<CharacterSnapshot, RelayError>>) -> Seq<
    Seq<char>,
>
    decreases o.len(),
{
    if o.len() == 0 {
        Seq::empty()
    } else {
        match o.last() {
            Ok(_) => failed(names, o.drop_last()),
            Err(e) => failed(names, o.drop_last()).push(failure_line(names[o.len() - 1]@, e)),
        }
    }
}

/// How many leading entries of `s` have a level of at least `level`.
pub open spec fn count_at_least(s: Seq<(Seq<char>, u32, Seq<char>)>, level: u32) -> nat
    decreases s.len(),
{
    if s.len() > 0 && s[0].1 >= level {
        1 + count_at_least(s.drop_first(), level)
    } else {
        0
    }
}

/// `e` placed in `s` after every leading entry whose level is at least its own.
pub open spec fn insert_by_level(s: Seq<(Seq<char>, u32, Seq<char>)>, e: (Seq<char>, u32, Seq<char>)) -> Seq<
    (Seq<char>, u32, Seq<char>),
> {
    s.insert(count_at_least(s, e.1) as int, e)
}

/// `s` sorted by level, highest first; entries of equal level keep their
/// relative order.
pub open spec fn by_level(s: Seq<(Seq<char>, u32, Seq<char>)>) -> Seq<(Seq<char>, u32, Seq<char>)>
    decreases s.len(),
{
    if s.len() == 0 {
        Seq::empty()
    } else {
        insert_by_level(by_level(s.drop_last()), s.last())
    }
}

proof fn lemma_count_at_least(s: Seq<(Seq<char>, u32, Seq<char>)>, level: u32, k: int)
    requires
        0 <= k <= s.len(),
        forall|j: int| 0 <= j < k ==> (#[trigger] s[j]).1 >= level,
        k == s.len() || s[k].1 < level,
    ensures
        count_at_least(s, level) == k,
    decreases k,
{
    if k > 0 {
        lemma_count_at_least(s.drop_first(), level, k - 1);
    }
}

/// Builds the label of a character: its race, a space, its class.
fn entry_of(c: &CharacterSnapshot) -> (r: LevelEntry)
    ensures
        entry_view(r) == snapshot_entry(*c),
{
    let mut label = String::new();
    label.append(c.race.as_str());
    label.append(" ");
    label.append(c.class.as_str());
    let mut name = String::new();
    name.append(c.name.as_str());
    LevelEntry { name, level: c.level, label }
}

/// Merges the outcome of each name's lookup, given in the order of `names`:
/// the characters found, sorted by level from highest to lowest with ties in
/// input order, and for each failure the name and its error text, in input
/// order. Every name gives exactly one entry or one error.
pub fn collate(names: &Vec<String>, outcomes: &Vec<Result<CharacterSnapshot, RelayError>>) -> (r:
    LevelReport)
    requires
        names@.len() == outcomes@.len(),
    ensures
        entries_view(r.entries@) == by_level(found(outcomes@)),
        strings_view(r.errors@) == failed(names@, outcomes@),
        r.entries@.len() + r.errors@.len() == names@.len(),
{
    let mut entries: Vec<LevelEntry> = Vec::new();
    let mut errors: Vec<String> = Vec::new();
    let mut i: usize = 0;
    while i < outcomes.len()
        invariant
            names@.len() == outcomes@.len(),
            i <= outcomes@.len(),
            entries_view(entries@) == by_level(found(outcomes@.take(i as int))),
            strings_view(errors@) == failed(names@, outcomes@.take(i as int)),
            entries@.len() + errors@.len() == i,
        decreases outcomes.len() - i,
    {
        let ghost pre = outcomes@.take(i as int);
        let ghost next = outcomes@.take(i + 1);
        assert(next.drop_last() =~= pre);
        proof {
            lemma_by_level_len(found(pre));
        }
        match &outcomes[i] {
            Ok(c) => {
                let e = entry_of(c);
                let ghost ev = entry_view(e);
                let ghost sorted = entries_view(entries@);
                let mut k: usize = 0;
                while k < entries.len() && entries[k].level >= e.level
                    invariant
                        k <= entries@.len(),
                        sorted == entries_view(entries@),
                        ev == entry_view(e),
                        forall|j: int| 0 <= j < k ==> (#[trigger] sorted[j]).1 >= ev.1,
                    decreases entries.len() - k,
                {
                    k = k + 1;
                }
                proof {
                    lemma_count_at_least(sorted, ev.1, k as int);
                }
                proof {
                    lemma_count_at_most_len(sorted, ev.1);
                }
                entries.insert(k, e);
                assert(entries_view(entries@) =~= sorted.insert(k as int, ev));
                assert(next.last() == outcomes@[i as int]);
                assert(found(next) == found(pre).push(ev));
                assert(found(next).drop_last() =~= found(pre));
            },
            Err(err) => {
                let mut line = String::new();
                line.append(names[i].as_str());
                line.append(": ");
                let text = err.message();
                line.append(text.as_str());
                let ghost prev = errors@;
                assert(next.last() == outcomes@[i as int]);
                assert(found(next) == found(pre));
                errors.push(line);
                assert(strings_view(errors@) =~= strings_view(prev).push(
                    failure_line(names@[i as int]@, *err),
                ));
            },
        }
        i = i + 1;
        proof {
            lemma_by_level_len(found(next));
        }
    }
    assert(outcomes@.take(i as int) =~= outcomes@);
    LevelReport { entries, errors }
}

/// Sorting by level keeps the number of entries.
pub proof fn lemma_by_level_len(s: Seq<(Seq<char>, u32, Seq<char>)>)
    ensures
        by_level(s).len() == s.len(),
    decreases s.len(),
{
    if s.len() > 0 {
        lemma_by_level_len(s.drop_last());
        lemma_count_at_most_len(by_level(s.drop_last()), s.last().1);
    }
}

proof fn lemma_count_at_most_len(s: Seq<(Seq<char>, u32, Seq<char>)>, level: u32)
    ensures
        count_at_least(s, level) <= s.len(),
    decreases s.len(),
{
    if s.len() > 0 {
        lemma_count_at_most_len(s.drop_first(), level);
    }
}


/// Levels never rise from one entry to the next.
pub open spec fn sorted_by_level(s: Seq<(Seq<char>, u32, Seq<char>)>) -> bool {
    forall|i: int, j: int| 0 <= i < j < s.len() ==> s[i].1 >= s[j].1
}

proof fn lemma_count_facts(s: Seq<(Seq<char>, u32, Seq<char>)>, level: u32)
    ensures
        count_at_least(s, level) <= s.len(),
        forall|j: int| 0 <= j < count_at_least(s, level) ==> (#[trigger] s[j]).1 >= level,
        count_at_least(s, level) < s.len() ==> s[count_at_least(s, level) as int].1 < level,
    decreases s.len(),
{
    if s.len() > 0 && s[0].1 >= level {
        let t = s.drop_first();
        lemma_count_facts(t, level);
        assert forall|j: int| 0 <= j < count_at_least(s, level) implies (#[trigger] s[j]).1
            >= level by {
            if j > 0 {
                assert(s[j] == t[j - 1]);
            }
        }
    }
}

proof fn lemma_insert_keeps_order(s: Seq<(Seq<char>, u32, Seq<char>)>, e: (Seq<char>, u32, Seq<char>))
    requires
        sorted_by_level(s),
    ensures
        sorted_by_level(insert_by_level(s, e)),
        insert_by_level(s, e).to_multiset() == s.to_multiset().insert(e),
{
    broadcast use group_to_multiset_ensures;

    let k = count_at_least(s, e.1) as int;
    lemma_count_facts(s, e.1);
    let r = insert_by_level(s, e);
    assert forall|i: int, j: int| 0 <= i < j < r.len() implies r[i].1 >= r[j].1 by {
        if i < k && j < k {
        } else if i < k && j == k {
        } else if i < k {
            assert(r[j] == s[j - 1]);
        } else if i == k {
            assert(r[j] == s[j - 1]);
            assert(s[k].1 < e.1);
        } else {
            assert(r[i] == s[i - 1]);
            assert(r[j] == s[j - 1]);
        }
    }
    let a = s.take(k);
    let b = s.skip(k);
    assert(s =~= a + b);
    assert(r =~= a + (seq![e] + b));
    lemma_multiset_commutative(a, b);
    lemma_multiset_commutative(a, seq![e] + b);
    lemma_multiset_commutative(seq![e], b);
    assert(seq![e] =~= Seq::<(Seq<char>, u32, Seq<char>)>::empty().push(e));
    assert(r.to_multiset() =~= s.to_multiset().insert(e));
}

/// The entries of a report come highest level first, and they are exactly the
/// entries that were found, each as often as it was found.
pub proof fn lemma_by_level_sorted(s: Seq<(Seq<char>, u32, Seq<char>)>)
    ensures
        sorted_by_level(by_level(s)),
        by_level(s).to_multiset() == s.to_multiset(),
    decreases s.len(),
{
    broadcast use group_to_multiset_ensures;

    if s.len() > 0 {
        let t = s.drop_last();
        lemma_by_level_sorted(t);
        lemma_insert_keeps_order(by_level(t), s.last());
        assert(s =~= t.push(s.last()));
    } else {
        assert(by_level(s) =~= s);
    }
}

/// Every name gives exactly one line of a report: the entries found and the
/// errors together number as many as the outcomes.
pub proof fn lemma_one_line_per_name(names: Seq<String>, o: Seq<Result<CharacterSnapshot, RelayError>>)
    ensures
        by_level(found(o)).len() + failed(names, o).len() == o.len(),
    decreases o.len(),
{
    lemma_by_level_len(found(o));
    if o.len() > 0 {
        lemma_one_line_per_name(names, o.drop_last());
        lemma_by_level_len(found(o.drop_last()));
    }
}


/// The request sent to the model for a short remark on one entry.
pub open spec fn annotation_prompt_text(e: (Seq<char>, u32, Seq<char>)) -> Seq<char> {
    "Give a 1-5 word insult for a level "@ + decimal(e.1 as nat) + " "@ + e.2 + " named "@ + e.0
        + ". Reply with ONLY the insult, nothing else."@
}

/// The request sent to the model for a short remark on one entry.
pub fn annotation_prompt(e: &LevelEntry) -> (r: String)
    ensures
        r@ == annotation_prompt_text(entry_view(*e)),
{
    let mut r = String::new();
    r.append("Give a 1-5 word insult for a level ");
    push_decimal(&mut r, e.level as u64);
    r.append(" ");
    r.append(e.label.as_str());
    r.append(" named ");
    r.append(e.name.as_str());
    r.append(". Reply with ONLY the insult, nothing else.");
    r
}

pub open spec fn option_view(a: Option<String>) -> Option<Seq<char>> {
    match a {
        Some(t) => Some(t@),
        None => None,
    }
}

/// One entry's line, with its remark (trimmed) where there is one.
pub open spec fn entry_line(e: (Seq<char>, u32, Seq<char>), remark: Option<Seq<char>>) -> Seq<char> {
    "  "@ + e.0 + " \u{2014} Level "@ + decimal(e.1 as nat) + " "@ + e.2 + match remark {
        Some(t) => " \u{2014} *"@ + trimmed(t) + "*\n"@,
        None => "\n"@,
    }
}

/// The lines of the first `es.len()` entries, the i-th with the i-th remark.
pub open spec fn entry_lines(es: Seq<(Seq<char>, u32, Seq<char>)>, remarks: Seq<Option<String>>) -> Seq<
    char,
>
    decreases es.len(),
{
    if es.len() == 0 {
        Seq::empty()
    } else {
        entry_lines(es.drop_last(), remarks) + entry_line(es.last(), option_view(remarks[es.len() - 1]))
    }
}

/// One line per error, each marked with a warning sign.
pub open spec fn error_lines(errs: Seq<Seq<char>>) -> Seq<char>
    decreases errs.len(),
{
    if errs.len() == 0 {
        Seq::empty()
    } else {
        error_lines(errs.drop_last()) + "  \u{26a0} "@ + errs.last() + "\n"@
    }
}

/// The text shown when no name is tracked.
pub open spec fn nothing_tracked_text() -> Seq<char> {
    "No characters tracked. Use `!addcharacter <name>` to add one."@
}

/// The rendered report: a heading, one line per entry, one line per error; or,
/// for a report with neither, the text that nothing is tracked.
pub open spec fn rendered(
    es: Seq<(Seq<char>, u32, Seq<char>)>,
    errs: Seq<Seq<char>>,
    remarks: Seq<Option<String>>,
) -> Seq<char> {
    if es.len() == 0 && errs.len() == 0 {
        nothing_tracked_text()
    } else {
        "**Level Check \u{2014} Nightslayer**\n"@ + entry_lines(es, remarks) + error_lines(errs)
    }
}

/// Appends the line of one entry, with its remark where there is one.
fn push_entry_line(r: &mut String, e: &LevelEntry, remark: &Option<String>)
    ensures
        final(r)@ == old(r)@ + entry_line(entry_view(*e), option_view(*remark)),
{
    r.append("  ");
    r.append(e.name.as_str());
    r.append(" \u{2014} Level ");
    push_decimal(r, e.level as u64);
    r.append(" ");
    r.append(e.label.as_str());
    match remark {
        Some(t) => {
            r.append(" \u{2014} *");
            let tt = trim(t.as_str());
            r.append(tt.as_str());
            r.append("*\n");
        },
        None => {
            r.append("\n");
        },
    }
    assert(r@ =~= old(r)@ + entry_line(entry_view(*e), option_view(*remark)));
}

/// Renders a report; `remarks[i]` is the remark obtained for the i-th entry, or
/// `None` where none was asked for or the request failed.
pub fn render(report: &LevelReport, remarks: &Vec<Option<String>>) -> (r: String)
    requires
        remarks@.len() == report.entries@.len(),
    ensures
        r@ == rendered(entries_view(report.entries@), strings_view(report.errors@), remarks@),
{
    let mut r = String::new();
    if report.entries.len() == 0 && report.errors.len() == 0 {
        r.append("No characters tracked. Use `!addcharacter <name>` to add one.");
        return r;
    }
    r.append("**Level Check \u{2014} Nightslayer**\n");
    let ghost head = r@;
    let ghost es = entries_view(report.entries@);
    let mut i: usize = 0;
    while i < report.entries.len()
        invariant
            remarks@.len() == report.entries@.len(),
            es == entries_view(report.entries@),
            i <= es.len(),
            r@ == head + entry_lines(es.take(i as int), remarks@),
        decreases report.entries.len() - i,
    {
        let e = &report.entries[i];
        push_entry_line(&mut r, e, &remarks[i]);
        assert(es.take(i + 1).drop_last() =~= es.take(i as int));
        assert(es[i as int] == entry_view(*e));
        i = i + 1;
        assert(r@ =~= head + entry_lines(es.take(i as int), remarks@));
    }
    assert(es.take(i as int) =~= es);
    let ghost body = r@;
    let ghost errs = strings_view(report.errors@);
    let mut j: usize = 0;
    while j < report.errors.len()
        invariant
            errs == strings_view(report.errors@),
            j <= errs.len(),
            r@ == body + error_lines(errs.take(j as int)),
        decreases report.errors.len() - j,
    {
        r.append("  \u{26a0} ");
        r.append(report.errors[j].as_str());
        r.append("\n");
        assert(errs.take(j + 1).drop_last() =~= errs.take(j as int));
        j = j + 1;
        assert(r@ =~= body + error_lines(errs.take(j as int)));
    }
    assert(errs.take(j as int) =~= errs);
    r
}

} // verus!
