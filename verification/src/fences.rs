//! The order in which writers lock, check and write.
//!
//! Every writer opens a transaction and holds the configuration lock before it looks at anything
//! else, so the competition mode cannot change under it; one that acts for a signed-in user then
//! looks at the credential once more. A `Fence` goes along with the transaction and holds the writer
//! to its plan.
use vstd::prelude::*;

verus! {

/// What a writer does inside its transaction.
#[derive(Clone, Copy, Debug, PartialEq, Eq, Structural)]
pub enum FenceStep {
    Begin,
    LockConfigurationShared,
    RevalidateCredential,
    ReadUserMode,
    LockAccount,
    LockTeamMembership,
    RequireFullAccess,
    RequireSolve,
    RequireTeamMode,
    ResolveTeam,
    ResolvePrincipal,
    LoadAccount,
    LoadToken,
    LoadChallenge,
    LoadObject,
    SignDownload,
    Write(Table),
}

#[derive(Clone, Copy, Debug, PartialEq, Eq, Structural)]
pub enum Table {
    Submissions,
    Solves,
    Ratings,
    Awards,
    Unlocks,
    Challenges,
    Notifications,
    Tracking,
    Comments,
    Records,
    Sessions,
    StoredObjects,
    Users,
    Teams,
    Tokens,
}

/// The operations that write.
#[derive(Clone, Copy, Debug, PartialEq, Eq, Structural)]
pub enum Writer {
    Attempt,
    RateChallenge,
    Unlock,
    CreateAward,
    CreateSubmission,
    UpdateSubmission,
    CreateChallenge,
    UpdateChallenge,
    DeleteChallenge,
    TrackChallenge,
    CreateNotification,
    CreateComment,
    DeleteRecord,
    Login,
    Logout,
    RevokeSessions,
    UpdateUser,
    InitiateUpload,
    CompleteUpload,
    GrantDownload,
    ReadParticipantToken,
    RotateParticipantToken,
    CreateTeam,
    ChangeMembership,
    DeleteTeam,
    CreateToken,
    DeleteToken,
}

impl Writer {
    /// The writer acts for a user who is signed in already.
    pub open spec fn signed_in(self) -> bool {
        self != Writer::Login && self != Writer::Logout
    }

    /// What the writer does behind the fence.
    pub open spec fn work(self) -> Seq<FenceStep> {
        match self {
            Writer::Attempt => seq![
                FenceStep::ReadUserMode,
                FenceStep::LockTeamMembership,
                FenceStep::LockAccount,
                FenceStep::Write(Table::Submissions),
                FenceStep::Write(Table::Solves),
            ],
            Writer::RateChallenge => seq![
                FenceStep::ReadUserMode,
                FenceStep::LockTeamMembership,
                FenceStep::RequireFullAccess,
                FenceStep::RequireSolve,
                FenceStep::Write(Table::Ratings),
            ],
            Writer::Unlock => seq![
                FenceStep::ReadUserMode,
                FenceStep::LockAccount,
                FenceStep::Write(Table::Awards),
                FenceStep::Write(Table::Unlocks),
            ],
            Writer::CreateAward => seq![
                FenceStep::LockTeamMembership,
                FenceStep::ReadUserMode,
                FenceStep::ResolveTeam,
                FenceStep::Write(Table::Awards),
            ],
            Writer::CreateSubmission | Writer::UpdateSubmission => seq![
                FenceStep::LockTeamMembership,
                FenceStep::ReadUserMode,
                FenceStep::ResolveTeam,
                FenceStep::Write(Table::Submissions),
                FenceStep::Write(Table::Solves),
            ],
            Writer::CreateChallenge | Writer::DeleteChallenge => seq![
                FenceStep::Write(Table::Challenges),
            ],
            Writer::UpdateChallenge => seq![
                FenceStep::LoadChallenge,
                FenceStep::ReadUserMode,
                FenceStep::Write(Table::Challenges),
            ],
            Writer::TrackChallenge => seq![FenceStep::Write(Table::Tracking)],
            Writer::CreateNotification => seq![
                FenceStep::ReadUserMode,
                FenceStep::Write(Table::Notifications),
            ],
            Writer::CreateComment => seq![
                FenceStep::ReadUserMode,
                FenceStep::Write(Table::Comments),
            ],
            Writer::DeleteRecord => seq![FenceStep::Write(Table::Records)],
            Writer::Login => seq![FenceStep::LoadAccount, FenceStep::Write(Table::Sessions)],
            Writer::Logout | Writer::RevokeSessions | Writer::UpdateUser => seq![
                FenceStep::Write(Table::Sessions),
            ],
            Writer::InitiateUpload | Writer::CompleteUpload => seq![
                FenceStep::ReadUserMode,
                FenceStep::ResolvePrincipal,
                FenceStep::Write(Table::StoredObjects),
            ],
            Writer::GrantDownload => seq![
                FenceStep::ReadUserMode,
                FenceStep::LockTeamMembership,
                FenceStep::LoadObject,
                FenceStep::SignDownload,
            ],
            Writer::ReadParticipantToken => seq![
                FenceStep::LockTeamMembership,
                FenceStep::LoadAccount,
                FenceStep::LoadToken,
            ],
            Writer::RotateParticipantToken => seq![
                FenceStep::LoadAccount,
                FenceStep::Write(Table::Users),
                FenceStep::Write(Table::Teams),
            ],
            Writer::CreateTeam | Writer::DeleteTeam => seq![
                FenceStep::RequireTeamMode,
                FenceStep::Write(Table::Teams),
            ],
            Writer::ChangeMembership => seq![
                FenceStep::RequireTeamMode,
                FenceStep::Write(Table::Users),
            ],
            Writer::CreateToken | Writer::DeleteToken => seq![FenceStep::Write(Table::Tokens)],
        }
    }

    /// What the writer does, in its order.
    pub open spec fn plan(self) -> Seq<FenceStep> {
        if self.signed_in() {
            seq![
                FenceStep::Begin,
                FenceStep::LockConfigurationShared,
                FenceStep::RevalidateCredential,
            ] + self.work()
        } else {
            seq![FenceStep::Begin, FenceStep::LockConfigurationShared] + self.work()
        }
    }
}

/// What a writer does behind the fence.
pub fn writer_work(writer: Writer) -> (result: Vec<FenceStep>)
    ensures
        result@ == writer.work(),
{
    let steps: Vec<FenceStep> = match writer {
        Writer::Attempt => vec![
            FenceStep::ReadUserMode,
            FenceStep::LockTeamMembership,
            FenceStep::LockAccount,
            FenceStep::Write(Table::Submissions),
            FenceStep::Write(Table::Solves),
        ],
        Writer::RateChallenge => vec![
            FenceStep::ReadUserMode,
            FenceStep::LockTeamMembership,
            FenceStep::RequireFullAccess,
            FenceStep::RequireSolve,
            FenceStep::Write(Table::Ratings),
        ],
        Writer::Unlock => vec![
            FenceStep::ReadUserMode,
            FenceStep::LockAccount,
            FenceStep::Write(Table::Awards),
            FenceStep::Write(Table::Unlocks),
        ],
        Writer::CreateAward => vec![
            FenceStep::LockTeamMembership,
            FenceStep::ReadUserMode,
            FenceStep::ResolveTeam,
            FenceStep::Write(Table::Awards),
        ],
        Writer::CreateSubmission | Writer::UpdateSubmission => vec![
            FenceStep::LockTeamMembership,
            FenceStep::ReadUserMode,
            FenceStep::ResolveTeam,
            FenceStep::Write(Table::Submissions),
            FenceStep::Write(Table::Solves),
        ],
        Writer::CreateChallenge | Writer::DeleteChallenge => vec![
            FenceStep::Write(Table::Challenges),
        ],
        Writer::UpdateChallenge => vec![
            FenceStep::LoadChallenge,
            FenceStep::ReadUserMode,
            FenceStep::Write(Table::Challenges),
        ],
        Writer::TrackChallenge => vec![FenceStep::Write(Table::Tracking)],
        Writer::CreateNotification => vec![
            FenceStep::ReadUserMode,
            FenceStep::Write(Table::Notifications),
        ],
        Writer::CreateComment => vec![FenceStep::ReadUserMode, FenceStep::Write(Table::Comments)],
        Writer::DeleteRecord => vec![FenceStep::Write(Table::Records)],
        Writer::Login => vec![FenceStep::LoadAccount, FenceStep::Write(Table::Sessions)],
        Writer::Logout | Writer::RevokeSessions | Writer::UpdateUser => vec![
            FenceStep::Write(Table::Sessions),
        ],
        Writer::InitiateUpload | Writer::CompleteUpload => vec![
            FenceStep::ReadUserMode,
            FenceStep::ResolvePrincipal,
            FenceStep::Write(Table::StoredObjects),
        ],
        Writer::GrantDownload => vec![
            FenceStep::ReadUserMode,
            FenceStep::LockTeamMembership,
            FenceStep::LoadObject,
            FenceStep::SignDownload,
        ],
        Writer::ReadParticipantToken => vec![
            FenceStep::LockTeamMembership,
            FenceStep::LoadAccount,
            FenceStep::LoadToken,
        ],
        Writer::RotateParticipantToken => vec![
            FenceStep::LoadAccount,
            FenceStep::Write(Table::Users),
            FenceStep::Write(Table::Teams),
        ],
        Writer::CreateTeam | Writer::DeleteTeam => vec![
            FenceStep::RequireTeamMode,
            FenceStep::Write(Table::Teams),
        ],
        Writer::ChangeMembership => vec![
            FenceStep::RequireTeamMode,
            FenceStep::Write(Table::Users),
        ],
        Writer::CreateToken | Writer::DeleteToken => vec![FenceStep::Write(Table::Tokens)],
    };
    assert(steps@ =~= writer.work());
    steps
}

/// What a writer does, in its order.
pub fn writer_plan(writer: Writer) -> (result: Vec<FenceStep>)
    ensures
        result@ == writer.plan(),
{
    let mut plan: Vec<FenceStep> = vec![FenceStep::Begin, FenceStep::LockConfigurationShared];
    if !matches!(writer, Writer::Login | Writer::Logout) {
        plan.push(FenceStep::RevalidateCredential);
    }
    let mut work = writer_work(writer);
    plan.append(&mut work);
    assert(plan@ =~= writer.plan());
    plan
}

/// The fence comes first: a writer begins, locks the configuration and, where it acts for a
/// signed-in user, looks at the credential again before anything else; it does none of that twice.
pub proof fn law_the_fence_comes_first(writer: Writer)
    ensures
        writer.plan().len() > 2,
        writer.plan()[0] == FenceStep::Begin,
        writer.plan()[1] == FenceStep::LockConfigurationShared,
        writer.signed_in() ==> writer.plan().len() > 3 && writer.plan()[2]
            == FenceStep::RevalidateCredential,
        forall|i: int|
            0 <= i < writer.plan().len() && (#[trigger] writer.plan()[i] == FenceStep::Begin)
                ==> i == 0,
        forall|i: int|
            0 <= i < writer.plan().len() && (#[trigger] writer.plan()[i]
                == FenceStep::LockConfigurationShared) ==> i == 1,
        forall|i: int|
            0 <= i < writer.plan().len() && (#[trigger] writer.plan()[i] is Write) ==> i >= (
            if writer.signed_in() {
                3int
            } else {
                2
            }),
{
}

/// A writer whose record is for an account knows the mode or the team before it writes: nothing
/// that decides comes behind the first write.
pub proof fn law_decisions_come_before_writes(writer: Writer, i: int, j: int)
    requires
        0 <= i < j < writer.plan().len(),
        writer.plan()[i] is Write,
    ensures
        writer.plan()[j] is Write,
{
}

// ---------------------------------------------------------------------------
// Walking a plan
// ---------------------------------------------------------------------------

impl Writer {
    /// How many steps of the plan are the fence.
    pub open spec fn fence_len(self) -> int {
        if self.signed_in() {
            3
        } else {
            2
        }
    }
}

/// Where a step stands in a plan, from an index on.
pub open spec fn place_from(plan: Seq<FenceStep>, from: int, step: FenceStep) -> Option<int>
    decreases plan.len() - from,
{
    if from < 0 || from >= plan.len() {
        None
    } else if plan[from] == step {
        Some(from)
    } else {
        place_from(plan, from + 1, step)
    }
}

/// How far a writer has come in its plan once it takes a step, where it may. No step of the fence
/// can be left out. Behind it a writer takes the steps of its plan in their order, may leave some
/// out, and once it writes may do so to any of its tables, as often as it needs.
pub open spec fn position_after_step(writer: Writer, done: int, step: FenceStep) -> Option<int> {
    let plan = writer.plan();
    if done < writer.fence_len() {
        if plan[done] == step {
            Some(done + 1)
        } else {
            None
        }
    } else if step is Write {
        match place_from(plan, writer.fence_len(), step) {
            Some(place) => Some(
                if place < done {
                    done
                } else {
                    place + 1
                },
            ),
            None => None,
        }
    } else {
        match place_from(plan, done, step) {
            Some(place) => Some(place + 1),
            None => None,
        }
    }
}

/// How far a writer has come once it has taken some steps, where it may take them.
pub open spec fn position_after(writer: Writer, steps: Seq<FenceStep>) -> Option<int>
    decreases steps.len(),
{
    if steps.len() == 0 {
        Some(0)
    } else {
        match position_after(writer, steps.drop_last()) {
            Some(done) => position_after_step(writer, done, steps.last()),
            None => None,
        }
    }
}

fn find_from(plan: &Vec<FenceStep>, from: usize, step: FenceStep) -> (result: Option<usize>)
    ensures
        result matches Some(place) ==> place < plan.len() && place_from(plan@, from as int, step)
            == Some(place as int),
        result is None ==> place_from(plan@, from as int, step) is None,
{
    let mut i: usize = from;
    while i < plan.len()
        invariant
            from <= i,
            place_from(plan@, from as int, step) == place_from(plan@, i as int, step),
        decreases plan.len() - i,
    {
        if plan[i] == step {
            return Some(i);
        }
        i += 1;
    }
    None
}

/// How far a writer has come in its plan.
#[derive(Debug)]
pub struct Fence {
    writer: Writer,
    done: usize,
}

impl Fence {
    pub closed spec fn of(self) -> Writer {
        self.writer
    }

    pub closed spec fn position(self) -> int {
        self.done as int
    }

    /// A writer that has done nothing yet.
    pub fn new(writer: Writer) -> (result: Fence)
        ensures
            result.of() == writer,
            result.position() == 0,
    {
        Fence { writer, done: 0 }
    }

    /// Asks for the next step, and takes it where the plan allows it.
    pub fn pass(&mut self, step: FenceStep) -> (result: bool)
        ensures
            final(self).of() == old(self).of(),
            result == (position_after_step(old(self).of(), old(self).position(), step) is Some),
            final(self).position() == match position_after_step(
                old(self).of(),
                old(self).position(),
                step,
            ) {
                Some(done) => done,
                None => old(self).position(),
            },
    {
        let plan = writer_plan(self.writer);
        let fence: usize = if matches!(self.writer, Writer::Login | Writer::Logout) {
            2
        } else {
            3
        };
        let done: usize = self.done;
        if done < fence {
            if plan[done] == step {
                self.done = done + 1;
                return true;
            }
            return false;
        }
        let from: usize = if matches!(step, FenceStep::Write(_)) {
            fence
        } else {
            done
        };
        match find_from(&plan, from, step) {
            Some(place) => {
                proof {
                    lemma_place(plan@, from as int, step);
                }
                if place >= done {
                    self.done = place + 1;
                }
                true
            },
            None => false,
        }
    }
}

proof fn lemma_place(plan: Seq<FenceStep>, from: int, step: FenceStep)
    requires
        0 <= from,
    ensures
        place_from(plan, from, step) matches Some(place) ==> from <= place < plan.len()
            && plan[place] == step,
    decreases plan.len() - from,
{
    if from < plan.len() && plan[from] != step {
        lemma_place(plan, from + 1, step);
    }
}

proof fn lemma_walk(writer: Writer, steps: Seq<FenceStep>)
    requires
        position_after(writer, steps) is Some,
    ensures
        ({
            let done = position_after(writer, steps)->Some_0;
            let plan = writer.plan();
            let fence = writer.fence_len();
            &&& 0 <= done <= plan.len()
            &&& steps.len() <= fence ==> done == steps.len() && steps == plan.take(done)
            &&& steps.len() >= fence ==> done >= fence && steps.take(fence) == plan.take(fence)
            &&& forall|i: int|
                0 <= i < steps.len() && (#[trigger] steps[i]) is Write ==> done > 0
                    && plan[done - 1] is Write
            &&& forall|i: int, j: int|
                0 <= i < j < steps.len() && (#[trigger] steps[i]) is Write ==> (
                #[trigger] steps[j]) is Write
            &&& forall|i: int| 0 <= i < steps.len() ==> plan.contains(#[trigger] steps[i])
        }),
    decreases steps.len(),
{
    let plan = writer.plan();
    let fence = writer.fence_len();
    law_the_fence_comes_first(writer);
    if steps.len() == 0 {
        assert(steps =~= plan.take(0));
    } else {
        let before = steps.drop_last();
        let step = steps.last();
        lemma_walk(writer, before);
        let done = position_after(writer, before)->Some_0;
        let now = position_after(writer, steps)->Some_0;
        if done < fence {
            assert(before.len() < fence);
            assert(steps =~= plan.take(now));
            if steps.len() == fence {
                assert(steps.take(fence) =~= plan.take(fence));
            }
        } else {
            assert(before.len() >= fence);
            assert(steps.take(fence) =~= before.take(fence));
            lemma_place(plan, fence, step);
            lemma_place(plan, done, step);
        }
        assert(plan.contains(step)) by {
            if done < fence {
                assert(plan[done] == step);
            }
        }
        if done >= fence && step is Write {
            let place = place_from(plan, fence, step)->Some_0;
            if place < now - 1 {
                law_decisions_come_before_writes(writer, place, now - 1);
            }
        }
        assert forall|i: int| 0 <= i < steps.len() - 1 && (#[trigger] steps[i]) is Write implies
            step is Write && plan[now - 1] is Write by {
            assert(before[i] is Write);
            if done >= fence && !(step is Write) {
                let place = place_from(plan, done, step)->Some_0;
                law_decisions_come_before_writes(writer, done - 1, place);
            }
            if done < fence {
                assert(plan[done - 1] is Write);
            }
        }
        assert forall|i: int, j: int|
            0 <= i < j < steps.len() && (#[trigger] steps[i]) is Write implies (
        #[trigger] steps[j]) is Write by {
            if j < steps.len() - 1 {
                assert(before[i] is Write);
                assert(before[j] is Write);
            }
        }
        assert forall|i: int| 0 <= i < steps.len() implies plan.contains(#[trigger] steps[i]) by {
            if i < steps.len() - 1 {
                assert(plan.contains(before[i]));
            }
        }
    }
}

/// Whatever steps a writer passes, they start with its whole fence, are all in its plan, and
/// nothing but further writes follows a write.
pub proof fn law_passed_steps_are_fenced(writer: Writer, steps: Seq<FenceStep>)
    requires
        position_after(writer, steps) is Some,
    ensures
        ({
            let fence = writer.fence_len();
            &&& steps.len() <= fence ==> steps == writer.plan().take(steps.len() as int)
            &&& steps.len() >= fence ==> steps.take(fence) == writer.plan().take(fence)
            &&& forall|i: int|
                0 <= i < steps.len() ==> writer.plan().contains(#[trigger] steps[i])
            &&& forall|i: int, j: int|
                0 <= i < j < steps.len() && (#[trigger] steps[i]) is Write ==> (
                #[trigger] steps[j]) is Write
        }),
{
    lemma_walk(writer, steps);
}

proof fn lemma_next_place(plan: Seq<FenceStep>, from: int)
    requires
        0 <= from < plan.len(),
    ensures
        place_from(plan, from, plan[from]) == Some(from),
{
}

/// A writer can take all the steps of its plan, one after the other.
pub proof fn law_plans_can_be_walked(writer: Writer, n: int)
    requires
        0 <= n <= writer.plan().len(),
    ensures
        position_after(writer, writer.plan().take(n)) == Some(n),
    decreases n,
{
    let plan = writer.plan();
    if n > 0 {
        law_plans_can_be_walked(writer, n - 1);
        assert(plan.take(n).drop_last() =~= plan.take(n - 1));
        assert(plan.take(n).last() == plan[n - 1]);
        if n - 1 >= writer.fence_len() {
            let step = plan[n - 1];
            lemma_next_place(plan, n - 1);
            lemma_place(plan, writer.fence_len(), step);
            lemma_writes_differ(writer, n - 1);
        }
    }
}

/// No table stands in a plan twice.
proof fn lemma_writes_differ(writer: Writer, k: int)
    requires
        writer.fence_len() <= k < writer.plan().len(),
    ensures
        place_from(writer.plan(), writer.fence_len(), writer.plan()[k]) == Some(k),
{
    reveal_with_fuel(place_from, 8);
}

/// Each writer writes to its own tables: what a player hands in is recorded, what is unlocked is paid
/// for and kept, a rating is kept, and no writer writes nothing but those that only read.
pub proof fn law_writers_write_their_tables(writer: Writer)
    ensures
        writer == Writer::Attempt ==> writer.plan().contains(FenceStep::Write(Table::Submissions))
            && writer.plan().contains(FenceStep::Write(Table::Solves)) && writer.plan().contains(
            FenceStep::LockAccount,
        ),
        writer == Writer::Unlock ==> writer.plan().contains(FenceStep::Write(Table::Awards))
            && writer.plan().contains(FenceStep::Write(Table::Unlocks)) && writer.plan().contains(
            FenceStep::LockAccount,
        ),
        writer == Writer::RateChallenge ==> writer.plan().contains(
            FenceStep::Write(Table::Ratings),
        ) && writer.plan().contains(FenceStep::RequireFullAccess) && writer.plan().contains(
            FenceStep::RequireSolve,
        ),
        writer == Writer::GrantDownload || writer == Writer::ReadParticipantToken
            <==> !(writer.plan().last() is Write),
        writer.signed_in() <==> writer != Writer::Login && writer != Writer::Logout,
{
    let fence = writer.fence_len();
    let plan = writer.plan();
    let work = writer.work();
    assert forall|k: int| 0 <= k < work.len() implies plan[fence + k] == #[trigger] work[k] by {}
    assert(plan.last() == work.last());
    if writer == Writer::Attempt {
        assert(plan[fence + 2] == FenceStep::LockAccount);
        assert(plan[fence + 3] == FenceStep::Write(Table::Submissions));
        assert(plan[fence + 4] == FenceStep::Write(Table::Solves));
    }
    if writer == Writer::Unlock {
        assert(plan[fence + 1] == FenceStep::LockAccount);
        assert(plan[fence + 2] == FenceStep::Write(Table::Awards));
        assert(plan[fence + 3] == FenceStep::Write(Table::Unlocks));
    }
    if writer == Writer::RateChallenge {
        assert(plan[fence + 2] == FenceStep::RequireFullAccess);
        assert(plan[fence + 3] == FenceStep::RequireSolve);
        assert(plan[fence + 4] == FenceStep::Write(Table::Ratings));
    }
}

} // verus!
