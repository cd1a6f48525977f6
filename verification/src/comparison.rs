//! What a submission is worth, given how it compares with each flag of the challenge.
use crate::text::same;
use vstd::prelude::*;

verus! {

/// A submission that matches the flag that was generated for somebody else.
#[derive(Clone, Copy, Debug)]
pub struct SharedFlagEvidence {
    pub flag_id: i32,
    pub source_user_id: i32,
    pub accepted: bool,
    pub match_tag: [u8; 32],
}

#[derive(Clone, Copy, Debug, PartialEq, Eq, Structural)]
pub enum FlagResult {
    Correct,
    Partial,
    Incorrect,
}

/// How one candidate compares with one flag: the comparison may fail, where the stored flag
/// cannot be used.
#[derive(Clone, Copy, Debug)]
pub enum FlagEvaluation {
    Failed,
    Compared { matched: bool, shared: Option<SharedFlagEvidence> },
}

impl FlagEvaluation {
    /// A match or a failure ends the search for a candidate.
    pub open spec fn decides(self) -> bool {
        match self {
            FlagEvaluation::Failed => true,
            FlagEvaluation::Compared { matched, .. } => matched,
        }
    }

    pub open spec fn matches_flag(self) -> bool {
        self matches FlagEvaluation::Compared { matched: true, .. }
    }

    /// The evidence after this comparison, where `earlier` was there before it.
    pub open spec fn evidence(self, earlier: Option<SharedFlagEvidence>) -> Option<
        SharedFlagEvidence,
    > {
        match self {
            FlagEvaluation::Compared { shared: Some(found), .. } => Some(found),
            _ => earlier,
        }
    }

    fn is_match(&self) -> (result: bool)
        ensures
            result == self.matches_flag(),
    {
        match self {
            FlagEvaluation::Failed => false,
            FlagEvaluation::Compared { matched, .. } => *matched,
        }
    }

    fn decided(&self) -> (result: bool)
        ensures
            result == self.decides(),
    {
        match self {
            FlagEvaluation::Failed => true,
            FlagEvaluation::Compared { matched, .. } => *matched,
        }
    }

    fn evidence_after(&self, earlier: Option<SharedFlagEvidence>) -> (result: Option<
        SharedFlagEvidence,
    >)
        ensures
            result == self.evidence(earlier),
    {
        match self {
            FlagEvaluation::Compared { shared: Some(found), .. } => Some(*found),
            _ => earlier,
        }
    }
}

/// Where a comparison failed: the flag and the candidate.
#[derive(Clone, Copy, Debug, PartialEq, Eq, Structural)]
pub struct FailedAt {
    pub flag: usize,
    pub candidate: usize,
}

#[derive(Clone, Copy, Debug)]
pub struct ComparisonResult {
    pub outcome: FlagResult,
    pub shared: Option<SharedFlagEvidence>,
}

/// The first candidate from `from` on that decides about the flag, or the number of candidates.
pub open spec fn deciding(row: Seq<FlagEvaluation>, from: int) -> int
    decreases row.len() - from,
{
    if from >= row.len() {
        row.len() as int
    } else if row[from].decides() {
        from
    } else {
        deciding(row, from + 1)
    }
}

proof fn lemma_deciding(row: Seq<FlagEvaluation>, from: int)
    requires
        0 <= from <= row.len(),
    ensures
        from <= deciding(row, from) <= row.len(),
        deciding(row, from) < row.len() ==> row[deciding(row, from)].decides(),
        forall|i: int| from <= i < deciding(row, from) ==> !(#[trigger] row[i]).decides(),
    decreases row.len() - from,
{
    if from < row.len() && !row[from].decides() {
        lemma_deciding(row, from + 1);
    }
}

/// A table of comparisons: one row for each flag, in it one entry for each candidate, the current
/// submission last.
pub open spec fn table_ok(table: Seq<Vec<FlagEvaluation>>, candidates: nat) -> bool {
    forall|f: int| 0 <= f < table.len() ==> (#[trigger] table[f])@.len() == candidates
}

/// The end of a walk over the flags.
pub enum Walk {
    Matched { shared: Option<SharedFlagEvidence> },
    Missed { shared: Option<SharedFlagEvidence> },
    Failed { at: FailedAt },
}

/// The walk that asks of each flag from `from` on that some candidate matches it. It stops at the
/// first flag that none matches. Evidence is taken from the current submission alone.
pub open spec fn walk_all(
    table: Seq<Vec<FlagEvaluation>>,
    candidates: nat,
    from: int,
    shared: Option<SharedFlagEvidence>,
) -> Walk
    decreases table.len() - from,
{
    if from >= table.len() {
        Walk::Matched { shared }
    } else {
        let row = table[from]@;
        let stop = deciding(row, 0);
        let after = if stop >= candidates - 1 {
            row[candidates - 1].evidence(shared)
        } else {
            shared
        };
        if stop >= candidates {
            Walk::Missed { shared: after }
        } else if row[stop] is Failed {
            Walk::Failed { at: FailedAt { flag: from as usize, candidate: stop as usize } }
        } else {
            walk_all(table, candidates, from + 1, after)
        }
    }
}

/// The walk that looks for one flag that the current submission matches.
pub open spec fn walk_any(
    table: Seq<Vec<FlagEvaluation>>,
    candidates: nat,
    from: int,
    shared: Option<SharedFlagEvidence>,
) -> Walk
    decreases table.len() - from,
{
    if from >= table.len() {
        Walk::Missed { shared }
    } else {
        let current = table[from]@[candidates - 1];
        if current is Failed {
            Walk::Failed {
                at: FailedAt { flag: from as usize, candidate: (candidates - 1) as usize },
            }
        } else if current.matches_flag() {
            Walk::Matched { shared: current.evidence(shared) }
        } else {
            walk_any(table, candidates, from + 1, current.evidence(shared))
        }
    }
}

fn find_any(
    table: &Vec<Vec<FlagEvaluation>>,
    candidates: usize,
    earlier: Option<SharedFlagEvidence>,
) -> (result: Walk)
    requires
        candidates > 0,
        table_ok(table@, candidates as nat),
    ensures
        result == walk_any(table@, candidates as nat, 0, earlier),
{
    let mut shared = earlier;
    let mut flag: usize = 0;
    while flag < table.len()
        invariant
            flag <= table.len(),
            candidates > 0,
            table_ok(table@, candidates as nat),
            walk_any(table@, candidates as nat, 0, earlier) == walk_any(
                table@,
                candidates as nat,
                flag as int,
                shared,
            ),
        decreases table.len() - flag,
    {
        assert(table@[flag as int]@.len() == candidates);
        let current = &table[flag][candidates - 1];
        match current {
            FlagEvaluation::Failed => {
                return Walk::Failed { at: FailedAt { flag, candidate: candidates - 1 } };
            },
            FlagEvaluation::Compared { .. } => {},
        }
        shared = current.evidence_after(shared);
        if current.is_match() {
            return Walk::Matched { shared };
        }
        flag += 1;
    }
    Walk::Missed { shared }
}

fn find_all(table: &Vec<Vec<FlagEvaluation>>, candidates: usize) -> (result: Walk)
    requires
        candidates > 0,
        table_ok(table@, candidates as nat),
    ensures
        result == walk_all(table@, candidates as nat, 0, None),
{
    let mut shared: Option<SharedFlagEvidence> = None;
    let mut flag: usize = 0;
    while flag < table.len()
        invariant
            flag <= table.len(),
            candidates > 0,
            table_ok(table@, candidates as nat),
            walk_all(table@, candidates as nat, 0, None) == walk_all(
                table@,
                candidates as nat,
                flag as int,
                shared,
            ),
        decreases table.len() - flag,
    {
        let row = &table[flag];
        assert(row@ == table@[flag as int]@);
        let mut candidate: usize = 0;
        while candidate < candidates && !row[candidate].decided()
            invariant
                candidate <= candidates == row@.len(),
                deciding(row@, 0) == deciding(row@, candidate as int),
            decreases candidates - candidate,
        {
            candidate += 1;
        }
        if candidate >= candidates - 1 {
            shared = row[candidates - 1].evidence_after(shared);
        }
        if candidate == candidates {
            return Walk::Missed { shared };
        }
        match &row[candidate] {
            FlagEvaluation::Failed => {
                return Walk::Failed { at: FailedAt { flag, candidate } };
            },
            FlagEvaluation::Compared { .. } => {},
        }
        flag += 1;
    }
    Walk::Matched { shared }
}

/// Whether the two lists hold the same numbers.
pub open spec fn same_members(left: Seq<i32>, right: Seq<i32>) -> bool {
    forall|id: i32| left.contains(id) <==> #[trigger] right.contains(id)
}

fn holds(list: &Vec<i32>, id: i32) -> (result: bool)
    ensures
        result == list@.contains(id),
{
    let mut i: usize = 0;
    while i < list.len()
        invariant
            i <= list.len(),
            forall|j: int| 0 <= j < i ==> list@[j] != id,
        decreases list.len() - i,
    {
        if list[i] == id {
            assert(list@[i as int] == id);
            return true;
        }
        i += 1;
    }
    false
}

fn within(list: &Vec<i32>, other: &Vec<i32>) -> (result: bool)
    ensures
        result == (forall|id: i32| list@.contains(id) ==> #[trigger] other@.contains(id)),
{
    let mut i: usize = 0;
    while i < list.len()
        invariant
            i <= list.len(),
            forall|j: int| 0 <= j < i ==> other@.contains(#[trigger] list@[j]),
        decreases list.len() - i,
    {
        if !holds(other, list[i]) {
            assert(list@.contains(list@[i as int]));
            return false;
        }
        i += 1;
    }
    assert forall|id: i32| list@.contains(id) implies #[trigger] other@.contains(id) by {
        let j = choose|j: int| 0 <= j < list@.len() && list@[j] == id;
        assert(other@.contains(list@[j]));
    }
    true
}

/// Whether everybody in the team has handed in a flag, the one who submits now among them, and
/// nobody else has.
pub open spec fn whole_team(submitters: Seq<i32>, user_id: i32, members: Seq<i32>) -> bool {
    same_members(submitters.push(user_id), members)
}

pub fn team_complete(submitters: &Vec<i32>, user_id: i32, members: &Vec<i32>) -> (result: bool)
    ensures
        result == whole_team(submitters@, user_id, members@),
{
    let mut all: Vec<i32> = Vec::new();
    let mut i: usize = 0;
    while i < submitters.len()
        invariant
            i <= submitters.len(),
            all@ == submitters@.take(i as int),
        decreases submitters.len() - i,
    {
        all.push(submitters[i]);
        assert(submitters@.take(i + 1) =~= submitters@.take(i as int).push(submitters@[i as int]));
        i += 1;
    }
    assert(submitters@.take(submitters@.len() as int) =~= submitters@);
    all.push(user_id);
    within(&all, members) && within(members, &all)
}

/// What a submission is compared with.
pub struct ComparisonInput {
    /// One row for each flag; in it one entry for each candidate, the current submission last.
    pub table: Vec<Vec<FlagEvaluation>>,
    /// How many candidates there are: the earlier partial submissions, where all flags are asked
    /// for, and the current one.
    pub candidates: usize,
    pub logic: String,
    pub team_mode: bool,
    pub user_id: i32,
    /// Who of the team has handed in a flag of the challenge before.
    pub submitters: Vec<i32>,
    pub members: Vec<i32>,
}

impl ComparisonInput {
    pub open spec fn ok(self) -> bool {
        self.candidates > 0 && table_ok(self.table@, self.candidates as nat)
    }
}

pub open spec fn compared(input: ComparisonInput) -> Result<ComparisonResult, FailedAt> {
    let table = input.table@;
    let candidates = input.candidates as nat;
    if input.logic@ == "all"@ && table.len() > 0 {
        match walk_all(table, candidates, 0, None) {
            Walk::Failed { at } => Err(at),
            Walk::Matched { shared } => Ok(
                ComparisonResult { outcome: FlagResult::Correct, shared },
            ),
            Walk::Missed { shared } => match walk_any(table, candidates, 0, shared) {
                Walk::Failed { at } => Err(at),
                Walk::Matched { shared } => Ok(
                    ComparisonResult { outcome: FlagResult::Partial, shared },
                ),
                Walk::Missed { shared } => Ok(
                    ComparisonResult { outcome: FlagResult::Incorrect, shared },
                ),
            },
        }
    } else {
        match walk_any(table, candidates, 0, None) {
            Walk::Failed { at } => Err(at),
            Walk::Missed { shared } => Ok(
                ComparisonResult { outcome: FlagResult::Incorrect, shared },
            ),
            Walk::Matched { shared } => {
                let waits = input.logic@ == "team"@ && input.team_mode && !whole_team(
                    input.submitters@,
                    input.user_id,
                    input.members@,
                );
                Ok(
                    ComparisonResult {
                        outcome: if waits {
                            FlagResult::Partial
                        } else {
                            FlagResult::Correct
                        },
                        shared,
                    },
                )
            },
        }
    }
}

/// Judges a submission. With the logic `all` every flag has to be matched, by this submission or
/// an earlier partial one; with `team`, in team mode, every member of the team has to match one;
/// otherwise one match is enough.
pub fn compare_submission(input: &ComparisonInput) -> (result: Result<ComparisonResult, FailedAt>)
    requires
        input.ok(),
    ensures
        result == compared(*input),
{
    let every = same(input.logic.as_str(), "all") && input.table.len() > 0;
    if every {
        match find_all(&input.table, input.candidates) {
            Walk::Failed { at } => Err(at),
            Walk::Matched { shared } => Ok(
                ComparisonResult { outcome: FlagResult::Correct, shared },
            ),
            Walk::Missed { shared } => match find_any(&input.table, input.candidates, shared) {
                Walk::Failed { at } => Err(at),
                Walk::Matched { shared } => Ok(
                    ComparisonResult { outcome: FlagResult::Partial, shared },
                ),
                Walk::Missed { shared } => Ok(
                    ComparisonResult { outcome: FlagResult::Incorrect, shared },
                ),
            },
        }
    } else {
        match find_any(&input.table, input.candidates, None) {
            Walk::Failed { at } => Err(at),
            Walk::Missed { shared } => Ok(
                ComparisonResult { outcome: FlagResult::Incorrect, shared },
            ),
            Walk::Matched { shared } => {
                let waits = same(input.logic.as_str(), "team") && input.team_mode && !team_complete(
                    &input.submitters,
                    input.user_id,
                    &input.members,
                );
                Ok(
                    ComparisonResult {
                        outcome: if waits {
                            FlagResult::Partial
                        } else {
                            FlagResult::Correct
                        },
                        shared,
                    },
                )
            },
        }
    }
}

// ---------------------------------------------------------------------------
// Laws
// ---------------------------------------------------------------------------

pub open spec fn no_failures(table: Seq<Vec<FlagEvaluation>>) -> bool {
    forall|f: int, c: int|
        0 <= f < table.len() && 0 <= c < table[f]@.len() ==> !(#[trigger] table[f]@[c] is Failed)
}

/// The flag is matched by some candidate.
pub open spec fn flag_covered(row: Seq<FlagEvaluation>) -> bool {
    exists|c: int| 0 <= c < row.len() && (#[trigger] row[c]).matches_flag()
}

proof fn lemma_walk_all(
    table: Seq<Vec<FlagEvaluation>>,
    candidates: nat,
    from: int,
    shared: Option<SharedFlagEvidence>,
)
    requires
        0 <= from <= table.len(),
        candidates > 0,
        table_ok(table, candidates),
        no_failures(table),
    ensures
        !(walk_all(table, candidates, from, shared) is Failed),
        walk_all(table, candidates, from, shared) is Matched <==> (forall|f: int|
            from <= f < table.len() ==> flag_covered((#[trigger] table[f])@)),
    decreases table.len() - from,
{
    if from < table.len() {
        let row = table[from]@;
        lemma_deciding(row, 0);
        let stop = deciding(row, 0);
        let after = if stop >= candidates - 1 {
            row[candidates - 1].evidence(shared)
        } else {
            shared
        };
        if stop < candidates {
            assert(!(table[from]@[stop] is Failed));
            assert(row[stop].matches_flag());
            assert(flag_covered(row));
            lemma_walk_all(table, candidates, from + 1, after);
        } else {
            assert(!flag_covered(row)) by {
                if flag_covered(row) {
                    let c = choose|c: int| 0 <= c < row.len() && (#[trigger] row[c]).matches_flag();
                    assert(row[c].decides());
                }
            }
            assert(!flag_covered(table[from]@));
        }
    }
}

proof fn lemma_walk_any(
    table: Seq<Vec<FlagEvaluation>>,
    candidates: nat,
    from: int,
    shared: Option<SharedFlagEvidence>,
)
    requires
        0 <= from <= table.len(),
        candidates > 0,
        table_ok(table, candidates),
        no_failures(table),
    ensures
        !(walk_any(table, candidates, from, shared) is Failed),
        walk_any(table, candidates, from, shared) is Matched <==> (exists|f: int|
            from <= f < table.len() && (#[trigger] table[f])@[candidates - 1].matches_flag()),
    decreases table.len() - from,
{
    if from < table.len() {
        let current = table[from]@[candidates - 1];
        assert(table[from]@.len() == candidates);
        assert(!(table[from]@[candidates - 1] is Failed));
        if !current.matches_flag() {
            lemma_walk_any(table, candidates, from + 1, current.evidence(shared));
        }
    }
}

/// Where all flags are asked for and none of them is broken, a submission is correct exactly when
/// every flag is matched by it or by an earlier partial submission; it is partial exactly when it
/// matches a flag and others are still missing.
pub proof fn law_all_flags_are_needed(input: ComparisonInput)
    requires
        input.ok(),
        input.logic@ == "all"@,
        input.table@.len() > 0,
        no_failures(input.table@),
    ensures
        compared(input) is Ok,
        compared(input)->Ok_0.outcome == FlagResult::Correct <==> (forall|f: int|
            0 <= f < input.table@.len() ==> flag_covered((#[trigger] input.table@[f])@)),
        compared(input)->Ok_0.outcome == FlagResult::Partial <==> (exists|f: int|
            0 <= f < input.table@.len() && !flag_covered((#[trigger] input.table@[f])@)) && (exists|
            f: int,
        |
            0 <= f < input.table@.len() && (
            #[trigger] input.table@[f])@[input.candidates - 1].matches_flag()),
{
    let candidates = input.candidates as nat;
    lemma_walk_all(input.table@, candidates, 0, None);
    let walk = walk_all(input.table@, candidates, 0, None);
    if let Walk::Missed { shared } = walk {
        lemma_walk_any(input.table@, candidates, 0, shared);
    }
}

/// Where one flag is enough and none is broken, a submission is correct exactly when it matches
/// one.
pub proof fn law_any_flag_is_enough(input: ComparisonInput)
    requires
        input.ok(),
        input.logic@ != "all"@,
        input.logic@ != "team"@ || !input.team_mode,
        no_failures(input.table@),
    ensures
        compared(input) is Ok,
        compared(input)->Ok_0.outcome != FlagResult::Partial,
        compared(input)->Ok_0.outcome == FlagResult::Correct <==> (exists|f: int|
            0 <= f < input.table@.len() && (
            #[trigger] input.table@[f])@[input.candidates - 1].matches_flag()),
{
    lemma_walk_any(input.table@, input.candidates as nat, 0, None);
}

/// Where the whole team is asked for, a submission is correct exactly when it matches a flag and
/// everybody else in the team has handed one in already.
pub proof fn law_whole_team_is_needed(input: ComparisonInput)
    requires
        input.ok(),
        input.logic@ == "team"@,
        input.team_mode,
        no_failures(input.table@),
    ensures
        compared(input) is Ok,
        compared(input)->Ok_0.outcome == FlagResult::Correct <==> whole_team(
            input.submitters@,
            input.user_id,
            input.members@,
        ) && (exists|f: int|
            0 <= f < input.table@.len() && (
            #[trigger] input.table@[f])@[input.candidates - 1].matches_flag()),
{
    reveal_strlit("all");
    reveal_strlit("team");
    assert("all"@.len() != "team"@.len());
    lemma_walk_any(input.table@, input.candidates as nat, 0, None);
}

/// A candidate matches a flag exactly where the comparison went through and says so, and it decides
/// about the flag where it matches or the comparison failed.
pub proof fn law_matches_are_what_was_compared(evaluation: FlagEvaluation)
    ensures
        evaluation.matches_flag() <==> evaluation is Compared && evaluation->matched,
        evaluation.decides() <==> evaluation is Failed || evaluation->matched,
        forall|earlier: Option<SharedFlagEvidence>| #[trigger]
            evaluation.evidence(earlier) == if evaluation is Compared && evaluation->shared is Some {
                evaluation->shared
            } else {
                earlier
            },
{
}

/// A team is complete exactly where everybody in it has handed in a flag or does so now, and
/// whoever has is in it.
pub proof fn law_teams_are_complete(submitters: Seq<i32>, user_id: i32, members: Seq<i32>)
    ensures
        whole_team(submitters, user_id, members) <==> {
            &&& members.contains(user_id)
            &&& forall|id: i32| submitters.contains(id) ==> #[trigger] members.contains(id)
            &&& forall|id: i32| #[trigger]
                members.contains(id) ==> id == user_id || submitters.contains(id)
        },
{
    let all = submitters.push(user_id);
    assert forall|id: i32| #[trigger] all.contains(id) <==> id == user_id || submitters.contains(
        id,
    ) by {
        if submitters.contains(id) {
            let i = choose|i: int| 0 <= i < submitters.len() && submitters[i] == id;
            assert(all[i] == id);
        }
        assert(all[submitters.len() as int] == user_id);
        if all.contains(id) && id != user_id {
            let i = choose|i: int| 0 <= i < all.len() && all[i] == id;
            assert(submitters[i] == id);
        }
    }
    if whole_team(submitters, user_id, members) {
        assert(all.contains(user_id));
        assert forall|id: i32| submitters.contains(id) implies #[trigger] members.contains(id) by {
            assert(all.contains(id));
        }
    }
}

/// The current submission compares with the flag in such a way that it leaves evidence.
pub open spec fn leaves_evidence(
    input: ComparisonInput,
    flag: int,
    found: SharedFlagEvidence,
) -> bool {
    0 <= flag < input.table@.len() && (input.table@[flag]@[input.candidates - 1]
        matches FlagEvaluation::Compared { shared, .. } && shared == Some(found))
}

/// Evidence of a shared flag is taken from the current submission and a flag that it was compared
/// with, and from nowhere else.
pub proof fn law_evidence_is_of_the_submission(input: ComparisonInput)
    requires
        input.ok(),
        compared(input) is Ok,
        compared(input)->Ok_0.shared is Some,
    ensures
        exists|flag: int| #[trigger]
            leaves_evidence(input, flag, compared(input)->Ok_0.shared->Some_0),
{
    lemma_walk_all_evidence(input, 0, None);
    lemma_walk_any_evidence(input, 0, None);
    if walk_all(input.table@, input.candidates as nat, 0, None) is Missed {
        lemma_walk_any_evidence(
            input,
            0,
            walk_all(input.table@, input.candidates as nat, 0, None)->Missed_shared,
        );
    }
}

/// What a walk has found, where it did not fail.
spec fn found_by(walk: Walk) -> Option<SharedFlagEvidence> {
    match walk {
        Walk::Matched { shared } => shared,
        Walk::Missed { shared } => shared,
        Walk::Failed { .. } => None,
    }
}

proof fn lemma_walk_all_evidence(
    input: ComparisonInput,
    from: int,
    earlier: Option<SharedFlagEvidence>,
)
    requires
        input.ok(),
        0 <= from,
    ensures
        ({
            let found = found_by(walk_all(input.table@, input.candidates as nat, from, earlier));
            found is Some ==> found == earlier || exists|flag: int| #[trigger]
                leaves_evidence(input, flag, found->Some_0)
        }),
    decreases input.table@.len() - from,
{
    let candidates = input.candidates as nat;
    if from < input.table@.len() {
        let row = input.table@[from]@;
        let stop = deciding(row, 0);
        let after = if stop >= candidates - 1 {
            row[candidates - 1].evidence(earlier)
        } else {
            earlier
        };
        if after is Some && after != earlier {
            assert(leaves_evidence(input, from, after->Some_0));
        }
        lemma_walk_all_evidence(input, from + 1, after);
    }
}

proof fn lemma_walk_any_evidence(
    input: ComparisonInput,
    from: int,
    earlier: Option<SharedFlagEvidence>,
)
    requires
        input.ok(),
        0 <= from,
    ensures
        ({
            let found = found_by(walk_any(input.table@, input.candidates as nat, from, earlier));
            found is Some ==> found == earlier || exists|flag: int| #[trigger]
                leaves_evidence(input, flag, found->Some_0)
        }),
    decreases input.table@.len() - from,
{
    if from < input.table@.len() {
        let after = input.table@[from]@[input.candidates - 1].evidence(earlier);
        if after is Some && after != earlier {
            assert(leaves_evidence(input, from, after->Some_0));
        }
        lemma_walk_any_evidence(input, from + 1, after);
    }
}

/// Where one flag is enough and a submission matches none, the evidence that it leaves at any flag
/// is not lost.
pub proof fn law_evidence_is_kept(input: ComparisonInput, flag: int, found: SharedFlagEvidence)
    requires
        input.ok(),
        input.logic@ != "all"@,
        compared(input) is Ok,
        compared(input)->Ok_0.outcome == FlagResult::Incorrect,
        leaves_evidence(input, flag, found),
    ensures
        compared(input)->Ok_0.shared is Some,
{
    lemma_walk_any_keeps(input, 0, None, flag, found);
}

proof fn lemma_walk_any_keeps(
    input: ComparisonInput,
    from: int,
    earlier: Option<SharedFlagEvidence>,
    flag: int,
    found: SharedFlagEvidence,
)
    requires
        input.ok(),
        0 <= from,
        leaves_evidence(input, flag, found),
        flag >= from || earlier is Some,
    ensures
        walk_any(input.table@, input.candidates as nat, from, earlier) matches Walk::Missed { shared }
            ==> shared is Some,
    decreases input.table@.len() - from,
{
    if from < input.table@.len() {
        let after = input.table@[from]@[input.candidates - 1].evidence(earlier);
        lemma_walk_any_keeps(input, from + 1, after, flag, found);
    }
}

/// A comparison fails only at a flag and a candidate whose evaluation failed.
pub proof fn law_failures_are_where_they_happened(input: ComparisonInput)
    requires
        input.ok(),
        compared(input) is Err,
    ensures
        ({
            let at = compared(input)->Err_0;
            &&& at.flag < input.table@.len()
            &&& at.candidate < input.candidates
            &&& input.table@[at.flag as int]@[at.candidate as int] is Failed
        }),
{
    lemma_walk_all_fails(input, 0, None);
    lemma_walk_any_fails(input, 0, None);
    if walk_all(input.table@, input.candidates as nat, 0, None) is Missed {
        lemma_walk_any_fails(
            input,
            0,
            walk_all(input.table@, input.candidates as nat, 0, None)->Missed_shared,
        );
    }
}

spec fn failed_in_place(input: ComparisonInput, walk: Walk) -> bool {
    walk matches Walk::Failed { at } ==> at.flag < input.table@.len() && at.candidate
        < input.candidates && input.table@[at.flag as int]@[at.candidate as int] is Failed
}

proof fn lemma_walk_all_fails(
    input: ComparisonInput,
    from: int,
    earlier: Option<SharedFlagEvidence>,
)
    requires
        input.ok(),
        0 <= from,
    ensures
        failed_in_place(input, walk_all(input.table@, input.candidates as nat, from, earlier)),
    decreases input.table@.len() - from,
{
    let candidates = input.candidates as nat;
    assert(input.table@.len() == input.table.len());
    if from < input.table@.len() {
        let row = input.table@[from]@;
        let stop = deciding(row, 0);
        lemma_deciding_bounds(row, 0);
        let after = if stop >= candidates - 1 {
            row[candidates - 1].evidence(earlier)
        } else {
            earlier
        };
        lemma_walk_all_fails(input, from + 1, after);
    }
}

proof fn lemma_walk_any_fails(
    input: ComparisonInput,
    from: int,
    earlier: Option<SharedFlagEvidence>,
)
    requires
        input.ok(),
        0 <= from,
    ensures
        failed_in_place(input, walk_any(input.table@, input.candidates as nat, from, earlier)),
    decreases input.table@.len() - from,
{
    assert(input.table@.len() == input.table.len());
    if from < input.table@.len() {
        let after = input.table@[from]@[input.candidates - 1].evidence(earlier);
        lemma_walk_any_fails(input, from + 1, after);
    }
}

proof fn lemma_deciding_bounds(row: Seq<FlagEvaluation>, from: int)
    requires
        0 <= from,
    ensures
        0 <= deciding(row, from),
        from <= row.len() ==> deciding(row, from) <= row.len(),
    decreases row.len() - from,
{
    if from < row.len() {
        lemma_deciding_bounds(row, from + 1);
    }
}

/// Where the whole team is asked for, a submission that matches a flag before everybody has handed
/// one in is partial, and one that matches none is incorrect.
pub proof fn law_the_team_is_waited_for(input: ComparisonInput)
    requires
        input.ok(),
        input.logic@ == "team"@,
        input.team_mode,
        no_failures(input.table@),
    ensures
        ({
            let matched = exists|f: int|
                0 <= f < input.table@.len() && (
                #[trigger] input.table@[f])@[input.candidates - 1].matches_flag();
            let complete = whole_team(input.submitters@, input.user_id, input.members@);
            &&& compared(input) is Ok
            &&& compared(input)->Ok_0.outcome == FlagResult::Partial <==> matched && !complete
            &&& compared(input)->Ok_0.outcome == FlagResult::Incorrect <==> !matched
        }),
{
    law_whole_team_is_needed(input);
    reveal_strlit("all");
    reveal_strlit("team");
    assert("all"@.len() != "team"@.len());
    let single = ComparisonInput { team_mode: false, ..input };
    law_any_flag_is_enough(single);
}

/// The first flag that the submission matches, or that cannot be compared, decides where one flag is
/// enough: no flag behind it is looked at.
pub proof fn law_the_first_decision_counts(input: ComparisonInput, flag: int)
    requires
        input.ok(),
        input.logic@ != "all"@,
        0 <= flag < input.table@.len(),
        forall|f: int|
            0 <= f < flag ==> ((#[trigger] input.table@[f])@[input.candidates - 1]
                matches FlagEvaluation::Compared { matched: false, .. }),
    ensures
        input.table@[flag]@[input.candidates - 1] is Failed ==> (compared(input) matches Err(at)
            && at.flag == flag && at.candidate == input.candidates - 1),
        input.table@[flag]@[input.candidates - 1].matches_flag() ==> compared(input) is Ok
            && compared(input)->Ok_0.outcome != FlagResult::Incorrect,
{
    assert(input.table@.len() == input.table.len());
    lemma_walk_any_reaches(input, 0, None, flag);
}

proof fn lemma_walk_any_reaches(
    input: ComparisonInput,
    from: int,
    earlier: Option<SharedFlagEvidence>,
    flag: int,
)
    requires
        input.ok(),
        0 <= from <= flag < input.table@.len(),
        forall|f: int|
            from <= f < flag ==> ((#[trigger] input.table@[f])@[input.candidates - 1]
                matches FlagEvaluation::Compared { matched: false, .. }),
    ensures
        ({
            let walk = walk_any(input.table@, input.candidates as nat, from, earlier);
            let current = input.table@[flag]@[input.candidates - 1];
            &&& current is Failed ==> (walk matches Walk::Failed { at } && at.flag == flag as usize
                && at.candidate == (input.candidates - 1) as usize)
            &&& current.matches_flag() ==> walk is Matched
        }),
    decreases flag - from,
{
    if from < flag {
        let row = input.table@[from]@[input.candidates - 1];
        assert(row matches FlagEvaluation::Compared { matched: false, .. });
        lemma_walk_any_reaches(input, from + 1, row.evidence(earlier), flag);
    }
}

/// Where all flags are asked for, the evidence that the submission leaves at a flag that no earlier
/// one decides is not lost, whether the submission is correct or incorrect.
pub proof fn law_evidence_is_kept_for_all_flags(
    input: ComparisonInput,
    flag: int,
    found: SharedFlagEvidence,
)
    requires
        input.ok(),
        input.logic@ == "all"@,
        compared(input) is Ok,
        compared(input)->Ok_0.outcome != FlagResult::Partial,
        leaves_evidence(input, flag, found),
        compared(input)->Ok_0.outcome == FlagResult::Correct ==> forall|c: int|
            0 <= c < input.candidates - 1 ==> !(#[trigger] input.table@[flag]@[c]).decides(),
    ensures
        compared(input)->Ok_0.shared is Some,
{
    let candidates = input.candidates as nat;
    let walk = walk_all(input.table@, candidates, 0, None);
    if walk is Matched {
        lemma_walk_all_keeps(input, 0, None, flag, found);
    } else {
        lemma_walk_any_keeps(input, 0, walk->Missed_shared, flag, found);
    }
}

proof fn lemma_walk_all_keeps(
    input: ComparisonInput,
    from: int,
    earlier: Option<SharedFlagEvidence>,
    flag: int,
    found: SharedFlagEvidence,
)
    requires
        input.ok(),
        0 <= from,
        leaves_evidence(input, flag, found),
        flag >= from || earlier is Some,
        forall|c: int|
            0 <= c < input.candidates - 1 ==> !(#[trigger] input.table@[flag]@[c]).decides(),
    ensures
        walk_all(input.table@, input.candidates as nat, from, earlier) matches Walk::Matched {
            shared,
        } ==> shared is Some,
    decreases input.table@.len() - from,
{
    let candidates = input.candidates as nat;
    if from < input.table@.len() {
        let row = input.table@[from]@;
        let stop = deciding(row, 0);
        if from == flag {
            lemma_deciding_late(row, 0, candidates - 1);
        }
        let after = if stop >= candidates - 1 {
            row[candidates - 1].evidence(earlier)
        } else {
            earlier
        };
        lemma_walk_all_keeps(input, from + 1, after, flag, found);
    }
}

proof fn lemma_deciding_late(row: Seq<FlagEvaluation>, from: int, last: int)
    requires
        0 <= from <= last < row.len(),
        forall|c: int| from <= c < last ==> !(#[trigger] row[c]).decides(),
    ensures
        deciding(row, from) >= last,
    decreases last - from,
{
    if from < last {
        assert(!row[from].decides());
        lemma_deciding_late(row, from + 1, last);
    } else {
        lemma_deciding_from(row, from);
    }
}

proof fn lemma_deciding_from(row: Seq<FlagEvaluation>, from: int)
    requires
        0 <= from <= row.len(),
    ensures
        deciding(row, from) >= from,
    decreases row.len() - from,
{
    if from < row.len() {
        lemma_deciding_from(row, from + 1);
    }
}

} // verus!
