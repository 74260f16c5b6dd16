//! The accumulator's storage: days in calendar order, and under each day
//! its projects in the order of their names.

use vstd::prelude::*;
use vstd::utf8::encode_utf8;
use crate::assoc::{distinct, keyed, lemma_keyed_at, lemma_keyed_insert, lemma_keyed_update};
use crate::names::{lemma_before_asymmetric, lemma_before_transitive, name_before, sorts_before};

verus! {

/// Seconds per project, for one day.
pub type ProjectTimes = Map<Seq<char>, nat>;

/// Seconds per day and project: what one aggregation pass produces.
pub type Accumulator = Map<int, ProjectTimes>;

/// The seconds that `times` holds for `project`; none where it has no entry.
pub open spec fn project_total(times: ProjectTimes, project: Seq<char>) -> nat {
    if times.dom().contains(project) {
        times[project]
    } else {
        0
    }
}

/// The seconds that `acc` holds for `project` on `day`; none where it has no
/// entry.
pub open spec fn total_of(acc: Accumulator, day: int, project: Seq<char>) -> nat {
    if acc.dom().contains(day) {
        project_total(acc[day], project)
    } else {
        0
    }
}

/// `times` with `amount` seconds more for `project`.
pub open spec fn credited_project(times: ProjectTimes, project: Seq<char>, amount: nat)
    -> ProjectTimes {
    times.insert(project, project_total(times, project) + amount)
}

/// `acc` with `amount` seconds more for `project` on `day`. The entry for
/// the day and the entry for the project are made where they are missing.
pub open spec fn credited(acc: Accumulator, day: int, project: Seq<char>, amount: nat)
    -> Accumulator {
    if acc.dom().contains(day) {
        acc.insert(day, credited_project(acc[day], project, amount))
    } else {
        acc.insert(day, credited_project(Map::empty(), project, amount))
    }
}

/// The time booked on one project on one day.
#[derive(Debug)]
pub struct ProjectTime {
    pub name: String,
    pub seconds: u128,
}

/// The mathematical value of a [`ProjectTime`].
pub struct ProjectTotal {
    pub name: Seq<char>,
    pub seconds: nat,
}

impl View for ProjectTime {
    type V = ProjectTotal;

    open spec fn view(&self) -> ProjectTotal {
        ProjectTotal { name: self.name@, seconds: self.seconds as nat }
    }
}

/// The projects of one day.
#[derive(Debug)]
pub struct DayTimes {
    pub day: i32,
    pub projects: Vec<ProjectTime>,
}

/// The mathematical value of a [`DayTimes`].
pub struct DayTotals {
    pub day: int,
    pub projects: Seq<ProjectTotal>,
}

/// The values of a day's projects, in their order.
pub open spec fn project_totals(projects: Seq<ProjectTime>) -> Seq<ProjectTotal> {
    Seq::new(projects.len(), |i: int| projects[i]@)
}

impl View for DayTimes {
    type V = DayTotals;

    open spec fn view(&self) -> DayTotals {
        DayTotals { day: self.day as int, projects: project_totals(self.projects@) }
    }
}

/// The values of the days, in their order.
pub open spec fn day_totals(days: Seq<DayTimes>) -> Seq<DayTotals> {
    Seq::new(days.len(), |i: int| days[i]@)
}

/// The names of a day's projects, in their order.
pub open spec fn names(projects: Seq<ProjectTotal>) -> Seq<Seq<char>> {
    Seq::new(projects.len(), |i: int| projects[i].name)
}

/// The seconds of a day's projects, in their order.
pub open spec fn amounts(projects: Seq<ProjectTotal>) -> Seq<nat> {
    Seq::new(projects.len(), |i: int| projects[i].seconds)
}

/// A day's projects are well listed: no name twice, and no name after one
/// that it comes before.
pub open spec fn projects_in_order(projects: Seq<ProjectTotal>) -> bool {
    forall|i: int, j: int|
        #![trigger projects[i], projects[j]]
        0 <= i < j < projects.len() ==> projects[i].name != projects[j].name && !name_before(
            projects[j].name,
            projects[i].name,
        )
}

/// A day's projects as a map from name to seconds.
pub open spec fn project_map(projects: Seq<ProjectTotal>) -> ProjectTimes {
    keyed(names(projects), amounts(projects))
}

/// The day numbers, in their order.
pub open spec fn day_numbers(days: Seq<DayTotals>) -> Seq<int> {
    Seq::new(days.len(), |i: int| days[i].day)
}

/// The project maps of the days, in their order.
pub open spec fn day_maps(days: Seq<DayTotals>) -> Seq<ProjectTimes> {
    Seq::new(days.len(), |i: int| project_map(days[i].projects))
}

/// All the seconds of one day's projects together.
pub open spec fn day_sum(projects: Seq<ProjectTotal>) -> nat
    decreases projects.len(),
{
    if projects.len() == 0 {
        0
    } else {
        day_sum(projects.drop_last()) + projects.last().seconds
    }
}

/// The seconds of the day that holds the most.
pub open spec fn heaviest(days: Seq<DayTotals>) -> nat
    decreases days.len(),
{
    if days.len() == 0 {
        0
    } else if day_sum(days.last().projects) > heaviest(days.drop_last()) {
        day_sum(days.last().projects)
    } else {
        heaviest(days.drop_last())
    }
}

/// The days are well listed: in calendar order, no day twice, each with at
/// least one project, each day's projects well listed, and each day's
/// seconds together within `u128`.
pub open spec fn days_in_order(days: Seq<DayTotals>) -> bool {
    &&& forall|i: int, j: int|
        #![trigger days[i], days[j]]
        0 <= i < j < days.len() ==> days[i].day < days[j].day
    &&& forall|i: int|
        0 <= i < days.len() ==> projects_in_order(#[trigger] days[i].projects)
            && days[i].projects.len() > 0 && day_sum(days[i].projects) <= u128::MAX
}

/// The days as a map from day number to the day's project map.
pub open spec fn day_map(days: Seq<DayTotals>) -> Accumulator {
    keyed(day_numbers(days), day_maps(days))
}

/// The names of well listed projects are distinct.
pub proof fn lemma_names_distinct(projects: Seq<ProjectTotal>)
    requires
        projects_in_order(projects),
    ensures
        distinct(names(projects)),
{
    let listed = names(projects);
    assert forall|i: int, j: int| 0 <= i < j < listed.len() implies listed[i] != listed[j] by {
        assert(projects[i].name != projects[j].name);
    }
}

/// The numbers of well listed days are distinct.
pub proof fn lemma_days_distinct(days: Seq<DayTotals>)
    requires
        days_in_order(days),
    ensures
        distinct(day_numbers(days)),
{
    let listed = day_numbers(days);
    assert forall|i: int, j: int| 0 <= i < j < listed.len() implies listed[i] != listed[j] by {
        assert(days[i].day < days[j].day);
    }
}

/// A project put into the list adds its seconds to the day's sum.
pub proof fn lemma_sum_insert(projects: Seq<ProjectTotal>, at: int, entry: ProjectTotal)
    requires
        0 <= at <= projects.len(),
    ensures
        day_sum(projects.insert(at, entry)) == day_sum(projects) + entry.seconds,
    decreases projects.len(),
{
    let grown = projects.insert(at, entry);
    if at == projects.len() {
        assert(grown.drop_last() =~= projects);
    } else {
        assert(grown.drop_last() =~= projects.drop_last().insert(at, entry));
        assert(grown.last() == projects.last());
        lemma_sum_insert(projects.drop_last(), at, entry);
    }
}

/// New seconds for one project change the day's sum by the difference.
pub proof fn lemma_sum_update(projects: Seq<ProjectTotal>, at: int, entry: ProjectTotal)
    requires
        0 <= at < projects.len(),
    ensures
        day_sum(projects.update(at, entry)) + projects[at].seconds == day_sum(projects)
            + entry.seconds,
    decreases projects.len(),
{
    let changed = projects.update(at, entry);
    if at == projects.len() - 1 {
        assert(changed.drop_last() =~= projects.drop_last());
    } else {
        assert(changed.drop_last() =~= projects.drop_last().update(at, entry));
        assert(changed.last() == projects.last());
        lemma_sum_update(projects.drop_last(), at, entry);
    }
}

/// No project holds more than its day's sum.
pub proof fn lemma_sum_covers(projects: Seq<ProjectTotal>, at: int)
    requires
        0 <= at < projects.len(),
    ensures
        projects[at].seconds <= day_sum(projects),
    decreases projects.len(),
{
    if at < projects.len() - 1 {
        lemma_sum_covers(projects.drop_last(), at);
    }
}

/// No day holds more than the heaviest.
pub proof fn lemma_heaviest_covers(days: Seq<DayTotals>, at: int)
    requires
        0 <= at < days.len(),
    ensures
        day_sum(days[at].projects) <= heaviest(days),
    decreases days.len(),
{
    if at < days.len() - 1 {
        lemma_heaviest_covers(days.drop_last(), at);
    }
}

/// Where no day holds more than `limit`, the heaviest does not either.
pub proof fn lemma_heaviest_under(days: Seq<DayTotals>, limit: int)
    requires
        0 <= limit,
        forall|i: int| 0 <= i < days.len() ==> day_sum((#[trigger] days[i]).projects) <= limit,
    ensures
        heaviest(days) <= limit,
    decreases days.len(),
{
    if days.len() > 0 {
        assert(day_sum(days[days.len() - 1].projects) <= limit);
        assert forall|i: int| 0 <= i < days.drop_last().len() implies day_sum(
            (#[trigger] days.drop_last()[i]).projects,
        ) <= limit by {
            assert(days.drop_last()[i] == days[i]);
        }
        lemma_heaviest_under(days.drop_last(), limit);
    }
}

/// A new project put at its place keeps the list well listed and adds its
/// seconds to the map.
pub proof fn lemma_project_insert(projects: Seq<ProjectTotal>, at: int, entry: ProjectTotal)
    requires
        projects_in_order(projects),
        0 <= at <= projects.len(),
        forall|k: int|
            0 <= k < at ==> (#[trigger] projects[k]).name != entry.name && !name_before(
                entry.name,
                projects[k].name,
            ),
        at < projects.len() ==> name_before(entry.name, projects[at].name),
    ensures
        projects_in_order(projects.insert(at, entry)),
        !project_map(projects).dom().contains(entry.name),
        project_map(projects.insert(at, entry)) == project_map(projects).insert(
            entry.name,
            entry.seconds,
        ),
{
    let grown = projects.insert(at, entry);
    let new_bytes = encode_utf8(entry.name);
    assert forall|k: int| at <= k < projects.len() implies (#[trigger] projects[k]).name
        != entry.name && !name_before(projects[k].name, entry.name) by {
        let here = encode_utf8(projects[at].name);
        let there = encode_utf8(projects[k].name);
        lemma_before_asymmetric(new_bytes, here, 0);
        if k > at {
            assert(!name_before(projects[k].name, projects[at].name));
            if name_before(projects[k].name, entry.name) {
                lemma_before_transitive(there, new_bytes, here, 0);
            }
        }
    }
    assert forall|i: int, j: int| 0 <= i < j < grown.len() implies grown[i].name
        != grown[j].name && !name_before(grown[j].name, grown[i].name) by {
        let a = if i < at { i } else { i - 1 };
        let b = if j < at { j } else { j - 1 };
        if i == at {
            assert(grown[j] == projects[b]);
        } else if j == at {
            assert(grown[i] == projects[a]);
        } else {
            assert(grown[i] == projects[a]);
            assert(grown[j] == projects[b]);
        }
    }
    lemma_names_distinct(projects);
    if names(projects).contains(entry.name) {
        let k = choose|k: int| 0 <= k < projects.len() && names(projects)[k] == entry.name;
        assert(projects[k].name == entry.name);
    }
    lemma_keyed_insert(names(projects), amounts(projects), at, entry.name, entry.seconds);
    assert(names(grown) =~= names(projects).insert(at, entry.name));
    assert(amounts(grown) =~= amounts(projects).insert(at, entry.seconds));
}

/// New seconds for the project at one place keep the list well listed and
/// change that project's seconds in the map.
pub proof fn lemma_project_update(projects: Seq<ProjectTotal>, at: int, seconds: nat)
    requires
        projects_in_order(projects),
        0 <= at < projects.len(),
    ensures
        projects_in_order(
            projects.update(at, ProjectTotal { name: projects[at].name, seconds }),
        ),
        project_map(projects).dom().contains(projects[at].name),
        project_map(projects)[projects[at].name] == projects[at].seconds,
        project_map(projects.update(at, ProjectTotal { name: projects[at].name, seconds }))
            == project_map(projects).insert(projects[at].name, seconds),
{
    let changed = projects.update(at, ProjectTotal { name: projects[at].name, seconds });
    assert forall|i: int, j: int| 0 <= i < j < changed.len() implies changed[i].name
        != changed[j].name && !name_before(changed[j].name, changed[i].name) by {
        assert(changed[i].name == projects[i].name);
        assert(changed[j].name == projects[j].name);
    }
    lemma_names_distinct(projects);
    lemma_keyed_at(names(projects), amounts(projects), at);
    lemma_keyed_update(names(projects), amounts(projects), at, seconds);
    assert(names(changed) =~= names(projects));
    assert(amounts(changed) =~= amounts(projects).update(at, seconds));
}

/// Books `amount` seconds more on the project `name` in one day's list.
pub fn credit_project(projects: &mut Vec<ProjectTime>, name: &String, amount: u128)
    requires
        projects_in_order(project_totals(old(projects)@)),
        day_sum(project_totals(old(projects)@)) + amount <= u128::MAX,
    ensures
        projects_in_order(project_totals(final(projects)@)),
        final(projects)@.len() > 0,
        day_sum(project_totals(final(projects)@)) == day_sum(project_totals(old(projects)@))
            + amount,
        project_map(project_totals(final(projects)@)) == credited_project(
            project_map(project_totals(old(projects)@)),
            name@,
            amount as nat,
        ),
{
    let ghost before = project_totals(projects@);
    let mut i: usize = 0;
    while i < projects.len()
        invariant
            i <= projects@.len(),
            projects@ == old(projects)@,
            before == project_totals(projects@),
            projects_in_order(before),
            day_sum(before) + amount <= u128::MAX,
            forall|k: int|
                0 <= k < i ==> (#[trigger] before[k]).name != name@ && !name_before(
                    name@,
                    before[k].name,
                ),
        decreases projects@.len() - i,
    {
        if projects[i].name == *name {
            proof {
                lemma_sum_covers(before, i as int);
                lemma_project_update(before, i as int, (before[i as int].seconds + amount) as nat);
                lemma_sum_update(
                    before,
                    i as int,
                    ProjectTotal {
                        name: before[i as int].name,
                        seconds: (before[i as int].seconds + amount) as nat,
                    },
                );
            }
            let sum: u128 = projects[i].seconds + amount;
            projects[i].seconds = sum;
            proof {
                assert(project_totals(projects@) =~= before.update(
                    i as int,
                    ProjectTotal { name: before[i as int].name, seconds: sum as nat },
                ));
            }
            return ;
        }
        if sorts_before(name.as_str(), projects[i].name.as_str()) {
            proof {
                lemma_project_insert(
                    before,
                    i as int,
                    ProjectTotal { name: name@, seconds: amount as nat },
                );
                lemma_sum_insert(
                    before,
                    i as int,
                    ProjectTotal { name: name@, seconds: amount as nat },
                );
            }
            let entry = ProjectTime { name: name.clone(), seconds: amount };
            projects.insert(i, entry);
            proof {
                assert(project_totals(projects@) =~= before.insert(i as int, entry@));
            }
            return ;
        }
        i += 1;
    }
    proof {
        lemma_project_insert(before, i as int, ProjectTotal { name: name@, seconds: amount as nat });
        lemma_sum_insert(before, i as int, ProjectTotal { name: name@, seconds: amount as nat });
    }
    let entry = ProjectTime { name: name.clone(), seconds: amount };
    projects.insert(i, entry);
    proof {
        assert(project_totals(projects@) =~= before.insert(i as int, entry@));
    }
}

/// A list without projects is the empty map.
pub proof fn lemma_no_projects()
    ensures
        projects_in_order(Seq::<ProjectTotal>::empty()),
        project_map(Seq::<ProjectTotal>::empty()) == Map::<Seq<char>, nat>::empty(),
{
    assert(project_map(Seq::<ProjectTotal>::empty()) =~= Map::<Seq<char>, nat>::empty());
}

/// A list without days is the empty map.
pub proof fn lemma_no_days()
    ensures
        days_in_order(Seq::<DayTotals>::empty()),
        day_map(Seq::<DayTotals>::empty()) == Map::<int, ProjectTimes>::empty(),
{
    assert(day_map(Seq::<DayTotals>::empty()) =~= Map::<int, ProjectTimes>::empty());
}

/// A new day put at its place keeps the list well listed and adds its
/// projects to the map.
pub proof fn lemma_day_insert(days: Seq<DayTotals>, at: int, entry: DayTotals)
    requires
        days_in_order(days),
        0 <= at <= days.len(),
        forall|k: int| 0 <= k < at ==> (#[trigger] days[k]).day < entry.day,
        at < days.len() ==> entry.day < days[at].day,
        projects_in_order(entry.projects),
        entry.projects.len() > 0,
        day_sum(entry.projects) <= u128::MAX,
    ensures
        days_in_order(days.insert(at, entry)),
        !day_map(days).dom().contains(entry.day),
        day_map(days.insert(at, entry)) == day_map(days).insert(
            entry.day,
            project_map(entry.projects),
        ),
{
    let grown = days.insert(at, entry);
    assert forall|k: int| at <= k < days.len() implies entry.day < (#[trigger] days[k]).day by {
        if k > at {
            assert(days[at].day < days[k].day);
        }
    }
    assert forall|i: int, j: int| 0 <= i < j < grown.len() implies grown[i].day
        < grown[j].day by {
        let a = if i < at { i } else { i - 1 };
        let b = if j < at { j } else { j - 1 };
        if i == at {
            assert(grown[j] == days[b]);
        } else if j == at {
            assert(grown[i] == days[a]);
        } else {
            assert(grown[i] == days[a]);
            assert(grown[j] == days[b]);
        }
    }
    assert forall|i: int| 0 <= i < grown.len() implies projects_in_order(
        #[trigger] grown[i].projects,
    ) && grown[i].projects.len() > 0 && day_sum(grown[i].projects) <= u128::MAX by {
        if i != at {
            let a = if i < at { i } else { i - 1 };
            assert(grown[i] == days[a]);
            assert(projects_in_order(days[a].projects));
        }
    }
    lemma_days_distinct(days);
    if day_numbers(days).contains(entry.day) {
        let k = choose|k: int| 0 <= k < days.len() && day_numbers(days)[k] == entry.day;
        assert(days[k].day == entry.day);
    }
    lemma_keyed_insert(
        day_numbers(days),
        day_maps(days),
        at,
        entry.day,
        project_map(entry.projects),
    );
    assert(day_numbers(grown) =~= day_numbers(days).insert(at, entry.day));
    assert(day_maps(grown) =~= day_maps(days).insert(at, project_map(entry.projects)));
}

/// New projects for the day at one place keep the list well listed and
/// change that day's projects in the map.
pub proof fn lemma_day_update(days: Seq<DayTotals>, at: int, projects: Seq<ProjectTotal>)
    requires
        days_in_order(days),
        0 <= at < days.len(),
        projects_in_order(projects),
        projects.len() > 0,
        day_sum(projects) <= u128::MAX,
    ensures
        days_in_order(days.update(at, DayTotals { day: days[at].day, projects })),
        day_map(days).dom().contains(days[at].day),
        day_map(days)[days[at].day] == project_map(days[at].projects),
        day_map(days.update(at, DayTotals { day: days[at].day, projects })) == day_map(
            days,
        ).insert(days[at].day, project_map(projects)),
{
    let changed = days.update(at, DayTotals { day: days[at].day, projects });
    assert forall|i: int, j: int| 0 <= i < j < changed.len() implies changed[i].day
        < changed[j].day by {
        assert(changed[i].day == days[i].day);
        assert(changed[j].day == days[j].day);
        assert(days[i].day < days[j].day);
    }
    assert forall|i: int| 0 <= i < changed.len() implies projects_in_order(
        #[trigger] changed[i].projects,
    ) && changed[i].projects.len() > 0 && day_sum(changed[i].projects) <= u128::MAX by {
        if i != at {
            assert(changed[i] == days[i]);
            assert(projects_in_order(days[i].projects));
        }
    }
    lemma_days_distinct(days);
    lemma_keyed_at(day_numbers(days), day_maps(days), at);
    lemma_keyed_update(day_numbers(days), day_maps(days), at, project_map(projects));
    assert(day_numbers(changed) =~= day_numbers(days));
    assert(day_maps(changed) =~= day_maps(days).update(at, project_map(projects)));
}

/// Books `amount` seconds more on the project `name` on the day `day`.
pub fn credit_day(days: &mut Vec<DayTimes>, day: i32, name: &String, amount: u128)
    requires
        days_in_order(day_totals(old(days)@)),
        heaviest(day_totals(old(days)@)) + amount <= u128::MAX,
    ensures
        days_in_order(day_totals(final(days)@)),
        heaviest(day_totals(final(days)@)) <= heaviest(day_totals(old(days)@)) + amount,
        day_map(day_totals(final(days)@)) == credited(
            day_map(day_totals(old(days)@)),
            day as int,
            name@,
            amount as nat,
        ),
{
    let ghost before = day_totals(days@);
    let mut i: usize = 0;
    while i < days.len() && days[i].day < day
        invariant
            i <= days@.len(),
            before == day_totals(days@),
            forall|k: int| 0 <= k < i ==> (#[trigger] before[k]).day < day,
        decreases days@.len() - i,
    {
        i += 1;
    }
    if i < days.len() && days[i].day == day {
        proof {
            assert(before[i as int] == days@[i as int]@);
            assert(projects_in_order(before[i as int].projects));
            lemma_day_update(before, i as int, before[i as int].projects);
            lemma_heaviest_covers(before, i as int);
        }
        credit_project(&mut days[i].projects, name, amount);
        proof {
            let projects = project_totals(days@[i as int].projects@);
            let after = before.update(i as int, DayTotals { day: day as int, projects });
            lemma_day_update(before, i as int, projects);
            assert(day_totals(days@) =~= after);
            assert forall|k: int| 0 <= k < after.len() implies day_sum(
                (#[trigger] after[k]).projects,
            ) <= heaviest(before) + amount by {
                lemma_heaviest_covers(before, k);
            }
            lemma_heaviest_under(after, heaviest(before) + amount);
        }
        return ;
    }
    let mut projects: Vec<ProjectTime> = Vec::new();
    proof {
        lemma_no_projects();
        assert(project_totals(projects@) =~= Seq::<ProjectTotal>::empty());
        assert(day_sum(Seq::<ProjectTotal>::empty()) == 0);
    }
    credit_project(&mut projects, name, amount);
    let entry = DayTimes { day, projects };
    proof {
        lemma_day_insert(before, i as int, entry@);
    }
    days.insert(i, entry);
    proof {
        let after = before.insert(i as int, entry@);
        assert(day_totals(days@) =~= after);
        assert forall|k: int| 0 <= k < after.len() implies day_sum((#[trigger] after[k]).projects)
            <= heaviest(before) + amount by {
            if k < i {
                lemma_heaviest_covers(before, k);
            } else if k > i {
                lemma_heaviest_covers(before, k - 1);
            }
        }
        lemma_heaviest_under(after, heaviest(before) + amount);
    }
}

/// Looks up the seconds booked on the project `name` in one day's list.
pub fn project_seconds(projects: &Vec<ProjectTime>, name: &String) -> (seconds: u128)
    requires
        projects_in_order(project_totals(projects@)),
    ensures
        seconds as nat == project_total(project_map(project_totals(projects@)), name@),
{
    let ghost listed = project_totals(projects@);
    let mut i: usize = 0;
    while i < projects.len()
        invariant
            i <= projects@.len(),
            listed == project_totals(projects@),
            projects_in_order(listed),
            forall|k: int| 0 <= k < i ==> (#[trigger] listed[k]).name != name@,
        decreases projects@.len() - i,
    {
        if projects[i].name == *name {
            proof {
                lemma_names_distinct(listed);
                lemma_keyed_at(names(listed), amounts(listed), i as int);
            }
            return projects[i].seconds;
        }
        i += 1;
    }
    proof {
        if names(listed).contains(name@) {
            let k = choose|k: int| 0 <= k < listed.len() && names(listed)[k] == name@;
            assert(listed[k].name == name@);
        }
    }
    0
}

/// Looks up the seconds booked on the project `name` on the day `day`.
pub fn day_seconds(days: &Vec<DayTimes>, day: i32, name: &String) -> (seconds: u128)
    requires
        days_in_order(day_totals(days@)),
    ensures
        seconds as nat == total_of(day_map(day_totals(days@)), day as int, name@),
{
    let ghost listed = day_totals(days@);
    let mut i: usize = 0;
    while i < days.len()
        invariant
            i <= days@.len(),
            listed == day_totals(days@),
            days_in_order(listed),
            forall|k: int| 0 <= k < i ==> (#[trigger] listed[k]).day != day,
        decreases days@.len() - i,
    {
        if days[i].day == day {
            proof {
                assert(listed[i as int] == days@[i as int]@);
                assert(projects_in_order(listed[i as int].projects));
                lemma_days_distinct(listed);
                lemma_keyed_at(day_numbers(listed), day_maps(listed), i as int);
            }
            return project_seconds(&days[i].projects, name);
        }
        i += 1;
    }
    proof {
        if day_numbers(listed).contains(day as int) {
            let k = choose|k: int| 0 <= k < listed.len() && day_numbers(listed)[k] == day as int;
            assert(listed[k].day == day);
        }
    }
    0
}

} // verus!
