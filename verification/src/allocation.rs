//! Handing out a generated flag: each player gets one, and gets the same one again.
use crate::error::{bad, conflict, str_of, text_of, ApiError};
use crate::flag_policy::{
    law_rendered_flags_differ, leet_positions, mask_capacity, mask_taken, match_tag_of,
    materialize_flag, next_available_leet_mask, parse_policy, placeholders, plan_allocation,
    policy_of, positions, random_leet_mask, rendered, rendered_from, replay_allocation, token_at,
    unsigned, Allocation, MaskSource, StoredFlag, MAX_LEET_POSITIONS, PLACEHOLDER_LENGTH,
    RANDOM_TOKEN_PLACEHOLDER,
};
use vstd::prelude::*;

verus! {

/// What a player has been given already: the revision of the definition that it was made from, the
/// token and the mask.
pub struct Assignment {
    pub revision: i64,
    pub random_token: Option<String>,
    pub leet_mask: Option<i64>,
}

/// What is known when a flag is handed out; the last two are drawn at random beforehand.
pub struct AllocationFacts {
    /// What the player has been given, once that has been read under the lock of the flag.
    pub existing: Option<Option<Assignment>>,
    /// The masks that were given to players, one entry for each player.
    pub masks: Option<Vec<Option<i64>>>,
    pub random: u64,
    pub token: String,
}

pub enum AllocationStep {
    ReadExisting,
    ReadMasks,
    /// The player's flag, as it was given before.
    Replay(String),
    /// A new flag, which is recorded for the player.
    Record { allocation: Allocation, random_token: Option<String>, leet_mask: Option<i64> },
}

/// The definition is one that was accepted: where letters vary there are some, and not too many.
pub open spec fn can_allocate(flag: StoredFlag, facts: AllocationFacts) -> bool {
    let count = positions(flag.content@).len();
    &&& mask_source(flag) != MaskSource::NoMask ==> 0 < count <= MAX_LEET_POSITIONS
    &&& given_mask(facts) is Some ==> count <= MAX_LEET_POSITIONS
}

/// The mask of the flag that the player has.
pub open spec fn given_mask(facts: AllocationFacts) -> Option<i64> {
    match facts.existing {
        Some(Some(given)) => given.leet_mask,
        _ => None,
    }
}

pub open spec fn mask_source(flag: StoredFlag) -> MaskSource {
    match policy_of(flag.data) {
        Some(policy) if policy.leet_variation => if placeholders(flag.content@) > 0 {
            MaskSource::Random
        } else {
            MaskSource::Lowest
        },
        _ => MaskSource::NoMask,
    }
}

/// The lowest mask that no player has.
pub open spec fn is_lowest_free(masks: Seq<Option<i64>>, mask: i64) -> bool {
    &&& mask >= 1
    &&& !mask_taken(masks, mask as int)
    &&& forall|m: int| 1 <= m < mask ==> #[trigger] mask_taken(masks, m)
}

/// The mask that a new flag gets.
pub open spec fn mask_fits(flag: StoredFlag, facts: AllocationFacts, mask: Option<i64>) -> bool {
    let capacity = mask_capacity(positions(flag.content@).len() as int);
    match mask_source(flag) {
        MaskSource::NoMask => mask is None,
        MaskSource::Random => mask is Some && mask->Some_0 == facts.random as int % capacity + 1,
        MaskSource::Lowest => mask is Some && mask->Some_0 <= capacity && facts.masks is Some
            && is_lowest_free(facts.masks->Some_0@, mask->Some_0),
    }
}

/// Every mask is given away.
pub open spec fn is_exhausted(flag: StoredFlag, facts: AllocationFacts) -> bool {
    facts.masks matches Some(masks) && masks@.len() >= mask_capacity(
        positions(flag.content@).len() as int,
    )
}

/// The flag that a player has by a token and a mask.
pub open spec fn flag_text(flag: StoredFlag, token: Option<Seq<char>>, mask: Option<i64>) -> Seq<
    char,
> {
    rendered(flag.content@, token, unsigned(mask))
}

/// The next step of handing out a flag. A player who has a flag gets it again, unless the
/// definition has changed; a new flag has a fresh token where the definition asks for one, and
/// where letters vary a mask that is random beside a token and the lowest free one without.
pub fn allocate(
    flag: &StoredFlag,
    challenge_id: i32,
    secret_key: &str,
    facts: &AllocationFacts,
) -> (result: Result<AllocationStep, ApiError>)
    requires
        can_allocate(*flag, *facts),
    ensures
        match facts.existing {
            None => result matches Ok(AllocationStep::ReadExisting),
            Some(Some(given)) => if given.revision != flag.revision {
                result matches Err(error) && error@ == conflict(
                    "The generated flag definition changed after allocation"@,
                )
            } else {
                result matches Ok(AllocationStep::Replay(text)) && text@ == rendered(
                    flag.content@,
                    text_of(given.random_token),
                    unsigned(given.leet_mask),
                )
            },
            Some(None) => match policy_of(flag.data) {
                None => result matches Err(error) && error@ == bad("Flag options are invalid"@),
                Some(policy) => if mask_source(*flag) == MaskSource::Lowest && facts.masks is None {
                    result matches Ok(AllocationStep::ReadMasks)
                } else if mask_source(*flag) == MaskSource::Lowest && is_exhausted(*flag, *facts) {
                    result matches Err(error) && error@ == conflict(
                        "The leet variation space for this challenge is exhausted"@,
                    )
                } else {
                    result matches Ok(
                        AllocationStep::Record { allocation, random_token, leet_mask },
                    ) && {
                        &&& text_of(random_token) == (if placeholders(flag.content@) > 0 {
                            Some(facts.token@)
                        } else {
                            None
                        })
                        &&& mask_fits(*flag, *facts, leet_mask)
                        &&& allocation.rendered@ == rendered(
                            flag.content@,
                            text_of(random_token),
                            unsigned(leet_mask),
                        )
                        &&& allocation.match_tag@ == match_tag_of(
                            secret_key@,
                            challenge_id,
                            allocation.rendered@,
                            policy.case_sensitive,
                        )
                        &&& allocation.leet_position_count == (if policy.leet_variation {
                            Some(positions(flag.content@).len() as i16)
                        } else {
                            None
                        })
                    }
                },
            },
        },
        result matches Ok(AllocationStep::Replay(text)) ==> text@ == flag_text(
            *flag,
            text_of(facts.existing->Some_0->Some_0.random_token),
            facts.existing->Some_0->Some_0.leet_mask,
        ),
        result matches Ok(AllocationStep::Record { allocation, random_token, leet_mask })
            ==> allocation.rendered@ == flag_text(*flag, text_of(random_token), leet_mask),
{
    match &facts.existing {
        None => return Ok(AllocationStep::ReadExisting),
        Some(Some(given)) => {
            let token = match &given.random_token {
                Some(text) => Some(text.as_str()),
                None => None,
            };
            assert(str_of(token) == text_of(given.random_token));
            return match replay_allocation(flag, given.revision, token, given.leet_mask) {
                Ok(text) => Ok(AllocationStep::Replay(text)),
                Err(error) => Err(error),
            };
        },
        Some(None) => {},
    }
    let policy = match parse_policy(&flag.data) {
        Ok(policy) => policy,
        Err(error) => return Err(error),
    };
    let content = flag.content.as_str();
    let (has_token, source) = plan_allocation(content, policy);
    let leet_mask: Option<i64> = match source {
        MaskSource::NoMask => None,
        MaskSource::Random => {
            let count: usize = leet_positions(content).len();
            Some(random_leet_mask(count, facts.random))
        },
        MaskSource::Lowest => {
            let masks = match &facts.masks {
                Some(masks) => masks,
                None => return Ok(AllocationStep::ReadMasks),
            };
            let count: usize = leet_positions(content).len();
            match next_available_leet_mask(count, masks) {
                Ok(mask) => Some(mask),
                Err(error) => return Err(error),
            }
        },
    };
    let random_token = if has_token {
        Some(facts.token.clone())
    } else {
        None
    };
    let token = match &random_token {
        Some(text) => Some(text.as_str()),
        None => None,
    };
    assert(str_of(token) == text_of(random_token));
    match materialize_flag(content, policy, challenge_id, secret_key, token, leet_mask) {
        Ok(allocation) => Ok(AllocationStep::Record { allocation, random_token, leet_mask }),
        Err(error) => Err(error),
    }
}

proof fn lemma_rendered_without_token(s: Seq<char>, from: int, mask: Option<u64>)
    ensures
        rendered_from(s, from, None, mask) == rendered_from(
            s,
            from,
            Some(RANDOM_TOKEN_PLACEHOLDER@),
            mask,
        ),
    decreases s.len() - from,
{
    if from < s.len() {
        if token_at(s, from) {
            lemma_rendered_without_token(s, from + PLACEHOLDER_LENGTH, mask);
        } else {
            lemma_rendered_without_token(s, from + 1, mask);
        }
    }
}

/// Where letters vary and there is no token, the flag of a new player is none of those that others
/// were given.
pub proof fn law_players_get_flags_of_their_own(
    flag: StoredFlag,
    facts: AllocationFacts,
    mask: i64,
    given: i64,
)
    requires
        can_allocate(flag, facts),
        mask_source(flag) == MaskSource::Lowest,
        mask_fits(flag, facts, Some(mask)),
        mask_taken(facts.masks->Some_0@, given as int),
        1 <= given <= mask_capacity(positions(flag.content@).len() as int),
    ensures
        rendered(flag.content@, None, unsigned(Some(mask))) != rendered(
            flag.content@,
            None,
            unsigned(Some(given)),
        ),
{
    let s = flag.content@;
    lemma_rendered_without_token(s, 0, Some(mask as u64));
    lemma_rendered_without_token(s, 0, Some(given as u64));
    if rendered(s, None, Some(mask as u64)) == rendered(s, None, Some(given as u64)) {
        law_rendered_flags_differ(
            s,
            RANDOM_TOKEN_PLACEHOLDER@,
            RANDOM_TOKEN_PLACEHOLDER@,
            mask as u64,
            given as u64,
        );
    }
}

/// Where the definition asks for a token, players with different tokens of one length have
/// different flags, whatever their masks are.
pub proof fn law_tokens_tell_flags_apart(
    content: Seq<char>,
    token: Seq<char>,
    other: Seq<char>,
    mask: u64,
    second: u64,
)
    requires
        placeholders(content) > 0,
        positions(content).len() <= MAX_LEET_POSITIONS,
        token.len() == other.len(),
        token != other,
        mask <= mask_capacity(positions(content).len() as int),
        second <= mask_capacity(positions(content).len() as int),
    ensures
        rendered(content, Some(token), Some(mask)) != rendered(content, Some(other), Some(second)),
{
    if rendered(content, Some(token), Some(mask)) == rendered(content, Some(other), Some(second)) {
        law_rendered_flags_differ(content, token, other, mask, second);
    }
}

/// A flag varies in its letters exactly where its options say so: at random beside a token, by the
/// lowest free variation without one.
pub proof fn law_options_choose_the_variation(flag: StoredFlag)
    ensures
        ({
            let varies = policy_of(flag.data) is Some && policy_of(
                flag.data,
            )->Some_0.leet_variation;
            &&& mask_source(flag) == MaskSource::NoMask <==> !varies
            &&& mask_source(flag) == MaskSource::Random <==> varies && placeholders(flag.content@)
                > 0
            &&& mask_source(flag) == MaskSource::Lowest <==> varies && placeholders(flag.content@)
                == 0
        }),
{
}

/// The variation of a new flag is one of those that its letters allow; without a token it is free,
/// and every lower one is taken. A flag without variation has none.
pub proof fn law_new_variations_are_allowed(
    flag: StoredFlag,
    facts: AllocationFacts,
    mask: Option<i64>,
)
    requires
        can_allocate(flag, facts),
        mask_fits(flag, facts, mask),
    ensures
        mask_source(flag) == MaskSource::NoMask <==> mask is None,
        mask matches Some(number) ==> 1 <= number <= mask_capacity(
            positions(flag.content@).len() as int,
        ),
        mask_source(flag) == MaskSource::Lowest ==> !mask_taken(
            facts.masks->Some_0@,
            mask->Some_0 as int,
        ) && forall|lower: int|
            1 <= lower < mask->Some_0 ==> #[trigger] mask_taken(facts.masks->Some_0@, lower),
{
    let count = positions(flag.content@).len() as int;
    if mask_source(flag) != MaskSource::NoMask {
        crate::flag_policy::law_each_letter_doubles_the_variations(count);
        if mask_source(flag) == MaskSource::Random {
            vstd::arithmetic::div_mod::lemma_mod_bound(
                facts.random as int,
                mask_capacity(count),
            );
        }
    }
}

/// The variations of a flag are used up exactly where as many players have one as there are.
pub proof fn law_variations_run_out(
    flag: StoredFlag,
    facts: AllocationFacts,
    masks: Vec<Option<i64>>,
)
    requires
        facts.masks == Some(masks),
    ensures
        is_exhausted(flag, facts) <==> masks@.len() >= mask_capacity(
            positions(flag.content@).len() as int,
        ),
{
}

/// A player who asks again gets the flag that was recorded: the same token and mask give the same
/// text, a definition without token and mask its own, and the token stands in the text where the
/// placeholder stood.
pub proof fn law_players_get_the_same_flag_again(
    flag: StoredFlag,
    token: Seq<char>,
    mask: Option<i64>,
)
    ensures
        flag_text(flag, None, None) == flag.content@,
        flag_text(flag, Some(token), mask) == rendered(
            flag.content@,
            Some(token),
            if mask is Some {
                Some(mask->Some_0 as u64)
            } else {
                None
            },
        ),
        placeholders(flag.content@) == 1 ==> {
            let place = crate::flag_policy::first_token(flag.content@, 0);
            flag_text(flag, Some(token), mask).subrange(place, place + token.len()) == token
        },
{
    crate::flag_policy::law_plain_rendering(flag.content@);
    if placeholders(flag.content@) == 1 {
        crate::flag_policy::law_token_is_protected(flag.content@, token, unsigned(mask));
    }
}

} // verus!
