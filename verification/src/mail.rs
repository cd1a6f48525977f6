//! Messages to users, and the verification of their addresses.
use crate::auth::CurrentUser;
use crate::crypto::{
    base64_url_bytes, base64_url_decode, base64_url_encode, base64_url_text, law_base64_decodes,
    sha256, sha256_digest, vec_view,
};
use crate::error::{
    bad, conflict, forbidden, not_found, shown, str_of, text_of, too_many, unauthorized, ApiError,
    Failure,
};
use crate::moment::{elapsed, seconds_since, Moment};
use crate::numbers::{integer_text, natural_value, parse_u64, to_text};
use crate::settings::{is_on, means_on};
use crate::text::{
    byte_len, byte_length, concat, replace_all, replaced_from, same, trim, trim_trailing, trimmed,
    without_trailing,
};
use rand::rngs::OsRng;
use rand::RngCore;
use vstd::prelude::*;
use vstd::utf8::encode_utf8;

verus! {

// ---------------------------------------------------------------------------
// Verification tokens
// ---------------------------------------------------------------------------

/// Calls `rand::rngs::OsRng.fill_bytes`: 32 random bytes, of which nothing is claimed.
#[verifier::external_body]
fn random_bytes() -> [u8; 32] {
    let mut random = [0_u8; 32];
    OsRng.fill_bytes(&mut random);
    random
}

/// A token: the text of some 32 bytes.
pub open spec fn is_token(token: Seq<char>) -> bool {
    base64_url_bytes(token) matches Some(bytes) && bytes.len() == 32
}

/// The token of 32 bytes.
pub fn token_of(bytes: &[u8; 32]) -> (result: String)
    ensures
        result@ == base64_url_text(bytes@),
        is_token(result@),
{
    proof {
        law_base64_decodes(bytes@);
    }
    base64_url_encode(bytes.as_slice())
}

/// A new token of 32 random bytes.
pub fn new_verification_token() -> (result: String)
    ensures
        is_token(result@),
        exists|bytes: [u8; 32]| result@ == #[trigger] base64_url_text(bytes@),
{
    let random = random_bytes();
    token_of(&random)
}

/// The hash under which a token is stored.
pub fn verification_token_hash(token: &str) -> (result: Option<Vec<u8>>)
    ensures
        vec_view(result) == (if is_token(token@) {
            Some(sha256_digest(encode_utf8(token@)))
        } else {
            None
        }),
{
    let decoded = match base64_url_decode(token) {
        Some(bytes) => bytes,
        None => return None,
    };
    if decoded.len() != 32 {
        return None;
    }
    let encoded = base64_url_encode(decoded.as_slice());
    if !same(encoded.as_str(), token) {
        return None;
    }
    let hash = sha256(token.as_bytes());
    let mut result: Vec<u8> = Vec::new();
    let mut i: usize = 0;
    while i < 32
        invariant
            i <= 32,
            result@ == hash@.take(i as int),
        decreases 32 - i,
    {
        result.push(hash[i]);
        assert(hash@.take(i + 1) =~= hash@.take(i as int).push(hash@[i as int]));
        i += 1;
    }
    assert(hash@.take(32) =~= hash@);
    Some(result)
}

/// The address of the page that confirms a token. The token stands in the fragment, which a
/// browser does not send.
pub open spec fn link_of(origin: Seq<char>, token: Seq<char>) -> Seq<char> {
    without_trailing(origin, '/') + "/confirm#"@ + token
}

pub fn verification_link(origin: &str, token: &str) -> (result: String)
    ensures
        result@ == link_of(origin@, token@),
{
    let site = trim_trailing(origin, '/');
    let start = concat(site.as_str(), "/confirm#");
    concat(start.as_str(), token)
}

pub open spec fn invalid_token() -> Failure {
    bad("This verification link is invalid or has expired"@)
}

pub fn invalid_verification_token() -> (result: ApiError)
    ensures
        result@ == invalid_token(),
{
    ApiError::bad_request("This verification link is invalid or has expired")
}

// ---------------------------------------------------------------------------
// Asking for a verification message
// ---------------------------------------------------------------------------

/// The account whose address is to be verified.
pub struct VerificationTarget {
    pub email: Option<String>,
    pub verified: bool,
}

/// The tokens that were sent before.
#[derive(Clone, Copy, Debug)]
pub struct TokenHistory {
    pub last_created: Option<Moment>,
    pub user_hour_count: i64,
    pub ip_hour_count: i64,
}

/// What is known of a request for a verification message.
pub struct VerificationFacts {
    pub user_rate: Option<bool>,
    pub ip_rate: Option<bool>,
    pub target: Option<Option<VerificationTarget>>,
    pub history: Option<TokenHistory>,
    pub now: Moment,
}

#[derive(Clone, Copy, Debug, PartialEq, Eq, Structural)]
pub enum VerificationRead {
    UserRate { limit: u32, seconds: u64 },
    IpRate { limit: u32, seconds: u64 },
    /// Opens the transaction, drops old tokens and locks the account.
    Target,
    History,
}

pub enum VerificationStep {
    Read(VerificationRead),
    /// Invalidates the tokens that are not used yet, stores a new one and sends it.
    Send { recipient: String },
}

/// The course of a request for a verification message.
pub enum VerificationCourse {
    Read(VerificationRead),
    Send(Seq<char>),
}

pub open spec fn shown_verification(result: Result<VerificationStep, ApiError>) -> Result<
    VerificationCourse,
    Failure,
> {
    match result {
        Ok(VerificationStep::Read(read)) => Ok(VerificationCourse::Read(read)),
        Ok(VerificationStep::Send { recipient }) => Ok(VerificationCourse::Send(recipient@)),
        Err(error) => Err(error@),
    }
}

/// A message was sent less than a minute ago, five within the hour to the account, or 25 within
/// the hour for the address of the visitor.
pub open spec fn sent_recently(history: TokenHistory, now: Moment) -> bool {
    ||| history.last_created matches Some(created) && elapsed(created, now) < 60
    ||| history.user_hour_count >= 5
    ||| history.ip_hour_count >= 25
}

fn was_sent_recently(history: &TokenHistory, now: Moment) -> (result: bool)
    requires
        now.ok(),
        history.last_created matches Some(created) ==> created.ok(),
    ensures
        result == sent_recently(*history, now),
{
    let cooling = match history.last_created {
        Some(created) => seconds_since(created, now) < 60,
        None => false,
    };
    cooling || history.user_hour_count >= 5 || history.ip_hour_count >= 25
}

impl VerificationFacts {
    pub open spec fn ok(self) -> bool {
        &&& self.now.ok()
        &&& self.history matches Some(history) ==> (history.last_created matches Some(created)
            ==> created.ok())
    }
}

pub open spec fn verification_course(facts: VerificationFacts) -> Result<
    VerificationCourse,
    Failure,
> {
    let refused = Err(too_many("Too many verification email requests; try again shortly"@));
    match (facts.user_rate, facts.ip_rate) {
        (None, _) => Ok(
            VerificationCourse::Read(VerificationRead::UserRate { limit: 10, seconds: 60 }),
        ),
        (Some(false), _) => refused,
        (Some(true), None) => Ok(
            VerificationCourse::Read(VerificationRead::IpRate { limit: 25, seconds: 60 }),
        ),
        (Some(true), Some(false)) => refused,
        (Some(true), Some(true)) => match facts.target {
            None => Ok(VerificationCourse::Read(VerificationRead::Target)),
            Some(None) => Err(unauthorized("Authenticated user no longer exists"@)),
            Some(Some(target)) => match target.email {
                Some(email) if trimmed(email@).len() > 0 => if target.verified {
                    Err(conflict("Your current email address is already verified"@))
                } else {
                    match facts.history {
                        None => Ok(VerificationCourse::Read(VerificationRead::History)),
                        Some(history) => if sent_recently(history, facts.now) {
                            Err(
                                too_many(
                                    "A verification email was sent recently; try again later"@,
                                ),
                            )
                        } else {
                            Ok(VerificationCourse::Send(email@))
                        },
                    }
                },
                _ => Err(bad("Your account does not have an email address"@)),
            },
        },
    }
}

/// The next step of a request for a verification message.
pub fn send_self_verification_email(facts: &VerificationFacts) -> (result: Result<
    VerificationStep,
    ApiError,
>)
    requires
        facts.ok(),
    ensures
        shown_verification(result) == verification_course(*facts),
{
    match facts.user_rate {
        None => return Ok(
            VerificationStep::Read(VerificationRead::UserRate { limit: 10, seconds: 60 }),
        ),
        Some(within) => {
            if !within {
                return Err(
                    ApiError::too_many_requests(
                        "Too many verification email requests; try again shortly",
                    ),
                );
            }
        },
    }
    match facts.ip_rate {
        None => return Ok(
            VerificationStep::Read(VerificationRead::IpRate { limit: 25, seconds: 60 }),
        ),
        Some(within) => {
            if !within {
                return Err(
                    ApiError::too_many_requests(
                        "Too many verification email requests; try again shortly",
                    ),
                );
            }
        },
    }
    let target = match &facts.target {
        None => return Ok(VerificationStep::Read(VerificationRead::Target)),
        Some(None) => return Err(ApiError::unauthorized("Authenticated user no longer exists")),
        Some(Some(target)) => target,
    };
    let recipient = match &target.email {
        Some(email) => {
            let content = trim(email.as_str());
            if content.as_str().is_empty() {
                return Err(ApiError::bad_request("Your account does not have an email address"));
            }
            email.clone()
        },
        None => return Err(ApiError::bad_request("Your account does not have an email address")),
    };
    if target.verified {
        return Err(ApiError::conflict("Your current email address is already verified"));
    }
    match &facts.history {
        None => Ok(VerificationStep::Read(VerificationRead::History)),
        Some(history) => if was_sent_recently(history, facts.now) {
            Err(
                ApiError::too_many_requests(
                    "A verification email was sent recently; try again later",
                ),
            )
        } else {
            Ok(VerificationStep::Send { recipient })
        },
    }
}

/// The name of the site in messages.
pub open spec fn site_name(ctf_name: Option<Seq<char>>) -> Seq<char> {
    match ctf_name {
        Some(name) => name,
        None => "CTFZone"@,
    }
}

pub open spec fn verification_subject(ctf_name: Option<Seq<char>>) -> Seq<char> {
    "Verify your email for "@ + site_name(ctf_name)
}

pub open spec fn verification_body(
    name: Option<Seq<char>>,
    ctf_name: Option<Seq<char>>,
    link: Seq<char>,
    ttl_seconds: i64,
) -> Seq<char> {
    let greeting = match name {
        Some(text) => text,
        None => "participant"@,
    };
    "Hello "@ + greeting + ",\n\nVerify your email address for "@ + site_name(ctf_name) + ":\n\n"@
        + link + "\n\nThis single-use link expires in "@ + integer_text(
        crate::moment::quotient(ttl_seconds as int, 60),
    ) + " minutes. If you did not expect this message, you can ignore it."@
}

/// The subject and the text of a verification message.
pub fn verification_message(
    name: Option<&str>,
    ctf_name: Option<&str>,
    link: &str,
    ttl_seconds: i64,
) -> (result: (String, String))
    ensures
        result.0@ == verification_subject(str_of(ctf_name)),
        result.1@ == verification_body(str_of(name), str_of(ctf_name), link@, ttl_seconds),
{
    let site = match ctf_name {
        Some(text) => text,
        None => "CTFZone",
    };
    let greeting = match name {
        Some(text) => text,
        None => "participant",
    };
    let minutes: i64 = if ttl_seconds < 0 {
        -((-(ttl_seconds as i128)) / 60) as i64
    } else {
        ttl_seconds / 60
    };
    let number = to_text(minutes);
    let a = concat("Hello ", greeting);
    let b = concat(a.as_str(), ",\n\nVerify your email address for ");
    let c = concat(b.as_str(), site);
    let d = concat(c.as_str(), ":\n\n");
    let e = concat(d.as_str(), link);
    let f = concat(e.as_str(), "\n\nThis single-use link expires in ");
    let g = concat(f.as_str(), number.as_str());
    let body = concat(
        g.as_str(),
        " minutes. If you did not expect this message, you can ignore it.",
    );
    (concat("Verify your email for ", site), body)
}

// ---------------------------------------------------------------------------
// Confirming an address
// ---------------------------------------------------------------------------

/// A token as it is stored.
pub struct VerificationToken {
    pub user_id: i32,
    pub email: String,
    pub used: bool,
    pub invalidated: bool,
}

/// What is known of a confirmation.
pub struct ConfirmFacts {
    pub within_rate: Option<bool>,
    pub owner: Option<Option<i32>>,
    pub current_email: Option<Option<String>>,
    pub token: Option<Option<VerificationToken>>,
    /// Whether the token could be marked as used: it has not expired and nobody was faster.
    pub consumed: Option<bool>,
    /// How many accounts were marked as verified.
    pub promoted: Option<u64>,
}

#[derive(Clone, Copy, Debug, PartialEq, Eq, Structural)]
pub enum ConfirmStep {
    RateLimit { limit: u32, seconds: u64 },
    /// Reads whose token it is.
    Owner,
    /// Locks the account of the owner and reads its address.
    Email { owner: i32 },
    /// Locks the token and reads it.
    Token,
    /// Marks the token as used.
    Consume,
    /// Marks the address of the owner as verified.
    Promote { owner: i32 },
    /// Invalidates the owner's other tokens and commits.
    Commit { owner: i32 },
}

pub open spec fn token_usable(token: VerificationToken, owner: i32, email: Seq<char>) -> bool {
    token.user_id == owner && token.email@ == email && !token.used && !token.invalidated
}

pub open spec fn confirm_course(token: Seq<char>, facts: ConfirmFacts) -> Result<
    ConfirmStep,
    Failure,
> {
    match facts.within_rate {
        None => Ok(ConfirmStep::RateLimit { limit: 20, seconds: 60 }),
        Some(false) => Err(too_many("Too many verification attempts; try again shortly"@)),
        Some(true) => if !is_token(trimmed(token)) {
            Err(invalid_token())
        } else {
            match (facts.owner, facts.current_email, facts.token) {
                (None, _, _) => Ok(ConfirmStep::Owner),
                (Some(None), _, _) => Err(invalid_token()),
                (Some(Some(owner)), None, _) => Ok(ConfirmStep::Email { owner }),
                (Some(Some(_)), Some(None), _) => Err(invalid_token()),
                (Some(Some(_)), Some(Some(_)), None) => Ok(ConfirmStep::Token),
                (Some(Some(_)), Some(Some(_)), Some(None)) => Err(invalid_token()),
                (Some(Some(owner)), Some(Some(email)), Some(Some(stored))) => if !token_usable(
                    stored,
                    owner,
                    email@,
                ) {
                    Err(invalid_token())
                } else {
                    match (facts.consumed, facts.promoted) {
                        (None, _) => Ok(ConfirmStep::Consume),
                        (Some(false), _) => Err(invalid_token()),
                        (Some(true), None) => Ok(ConfirmStep::Promote { owner }),
                        (Some(true), Some(count)) => if count == 1 {
                            Ok(ConfirmStep::Commit { owner })
                        } else {
                            Err(invalid_token())
                        },
                    }
                },
            }
        },
    }
}

/// The next step of a confirmation.
pub fn confirm_email(token: &str, facts: &ConfirmFacts) -> (result: Result<ConfirmStep, ApiError>)
    ensures
        shown(result) == confirm_course(token@, *facts),
{
    match facts.within_rate {
        None => return Ok(ConfirmStep::RateLimit { limit: 20, seconds: 60 }),
        Some(within) => {
            if !within {
                return Err(
                    ApiError::too_many_requests("Too many verification attempts; try again shortly"),
                );
            }
        },
    }
    let content = trim(token);
    if verification_token_hash(content.as_str()).is_none() {
        return Err(invalid_verification_token());
    }
    let owner: i32 = match facts.owner {
        None => return Ok(ConfirmStep::Owner),
        Some(None) => return Err(invalid_verification_token()),
        Some(Some(owner)) => owner,
    };
    let email = match &facts.current_email {
        None => return Ok(ConfirmStep::Email { owner }),
        Some(None) => return Err(invalid_verification_token()),
        Some(Some(email)) => email,
    };
    let stored = match &facts.token {
        None => return Ok(ConfirmStep::Token),
        Some(None) => return Err(invalid_verification_token()),
        Some(Some(stored)) => stored,
    };
    if stored.user_id != owner || !same(stored.email.as_str(), email.as_str()) || stored.used
        || stored.invalidated {
        return Err(invalid_verification_token());
    }
    match facts.consumed {
        None => return Ok(ConfirmStep::Consume),
        Some(consumed) => {
            if !consumed {
                return Err(invalid_verification_token());
            }
        },
    }
    match facts.promoted {
        None => Ok(ConfirmStep::Promote { owner }),
        Some(count) => if count == 1 {
            Ok(ConfirmStep::Commit { owner })
        } else {
            Err(invalid_verification_token())
        },
    }
}

/// An address is marked as verified only by a token of the same account and the same address that
/// was neither used nor invalidated, and only after the token was marked as used.
pub proof fn law_verification_needs_a_fresh_token(token: Seq<char>, facts: ConfirmFacts)
    requires
        confirm_course(token, facts) matches Ok(ConfirmStep::Promote { .. }) || confirm_course(
            token,
            facts,
        ) matches Ok(ConfirmStep::Commit { .. }),
    ensures
        is_token(trimmed(token)),
        facts.consumed == Some(true),
        facts.owner matches Some(Some(owner)) && facts.current_email matches Some(Some(email))
            && facts.token matches Some(Some(stored)) && token_usable(stored, owner, email@),
{
}

/// A token that was used or invalidated confirms nothing: it is never marked as used again, no
/// address is marked as verified by it, and once it is read the confirmation fails.
pub proof fn law_spent_tokens_are_refused(token: Seq<char>, facts: ConfirmFacts)
    requires
        facts.token matches Some(Some(stored)) && (stored.used || stored.invalidated),
    ensures
        !(confirm_course(token, facts) matches Ok(ConfirmStep::Consume)),
        !(confirm_course(token, facts) matches Ok(ConfirmStep::Promote { .. })),
        !(confirm_course(token, facts) matches Ok(ConfirmStep::Commit { .. })),
        facts.within_rate == Some(true) && facts.owner is Some
            && facts.current_email is Some ==> confirm_course(token, facts)
            == Err::<ConfirmStep, Failure>(invalid_token()),
{
}

/// A confirmation asks only for what it does not know yet.
pub proof fn law_confirmations_come_to_an_end(token: Seq<char>, facts: ConfirmFacts)
    ensures
        match confirm_course(token, facts) {
            Ok(ConfirmStep::RateLimit { .. }) => facts.within_rate is None,
            Ok(ConfirmStep::Owner) => facts.owner is None,
            Ok(ConfirmStep::Email { .. }) => facts.current_email is None,
            Ok(ConfirmStep::Token) => facts.token is None,
            Ok(ConfirmStep::Consume) => facts.consumed is None,
            Ok(ConfirmStep::Promote { .. }) => facts.promoted is None,
            Ok(ConfirmStep::Commit { .. }) => true,
            Err(_) => true,
        },
{
}

// ---------------------------------------------------------------------------
// The records that a confirmation reads and changes
// ---------------------------------------------------------------------------

/// A token among the records. Times are counted in any unit.
pub struct TokenRecord {
    pub user_id: i32,
    pub email: Seq<char>,
    pub created: int,
    pub expires: int,
    pub used: bool,
    pub invalidated: bool,
}

/// An account among the records.
pub struct AddressRecord {
    pub email: Option<Seq<char>>,
    pub verified: bool,
}

/// The tokens, by their hash, and the accounts.
#[verifier::ext_equal]
pub struct AddressRecords {
    pub tokens: Map<Seq<u8>, TokenRecord>,
    pub accounts: Map<i32, AddressRecord>,
}

/// The hash under which the token of a link is stored.
pub open spec fn hash_of(token: Seq<char>) -> Seq<u8> {
    sha256_digest(encode_utf8(trimmed(token)))
}

/// The hash by which a confirmation finds its token.
pub fn confirmation_hash(token: &str) -> (result: Option<Vec<u8>>)
    ensures
        vec_view(result) == (if is_token(trimmed(token@)) {
            Some(hash_of(token@))
        } else {
            None
        }),
{
    verification_token_hash(trim(token).as_str())
}

impl TokenRecord {
    pub open spec fn open(self) -> bool {
        !self.used && !self.invalidated
    }

    /// What marking the token as used asks of it.
    pub open spec fn consumable(self, now: int) -> bool {
        self.open() && self.created <= now < self.expires
    }
}

impl AddressRecords {
    /// The address that an account has.
    pub open spec fn address(self, owner: i32) -> Option<Seq<char>> {
        if self.accounts.contains_key(owner) {
            self.accounts[owner].email
        } else {
            None
        }
    }

    /// The token of the link is known, neither used, invalidated nor expired, and was sent to the
    /// address that its account still has.
    pub open spec fn confirmable(self, token: Seq<char>, now: int) -> bool {
        &&& is_token(trimmed(token))
        &&& self.tokens.contains_key(hash_of(token))
        &&& self.tokens[hash_of(token)].consumable(now)
        &&& self.address(self.tokens[hash_of(token)].user_id) == Some(
            self.tokens[hash_of(token)].email,
        )
    }

    /// The token is used, the other open tokens of its account are invalidated, and the address of
    /// the account is verified.
    pub open spec fn confirmed(self, hash: Seq<u8>) -> AddressRecords {
        let owner = self.tokens[hash].user_id;
        AddressRecords {
            tokens: self.tokens.map_entries(
                |key: Seq<u8>, record: TokenRecord|
                    if key == hash {
                        TokenRecord { used: true, ..record }
                    } else if record.user_id == owner && record.open() {
                        TokenRecord { invalidated: true, ..record }
                    } else {
                        record
                    },
            ),
            accounts: self.accounts.insert(
                owner,
                AddressRecord { verified: true, ..self.accounts[owner] },
            ),
        }
    }

    /// What is known of a confirmation is what the records hold.
    pub open spec fn agree(self, token: Seq<char>, now: int, facts: ConfirmFacts) -> bool {
        let hash = hash_of(token);
        let known = self.tokens.contains_key(hash);
        let record = self.tokens[hash];
        &&& facts.owner matches Some(owner) ==> owner == (if known {
            Some(record.user_id)
        } else {
            None
        })
        &&& facts.current_email matches Some(email) ==> text_of(email) == self.address(
            record.user_id,
        )
        &&& facts.token matches Some(stored) ==> match stored {
            Some(read) => known && read.user_id == record.user_id && read.email@ == record.email
                && read.used == record.used && read.invalidated == record.invalidated,
            None => !known,
        }
        &&& facts.consumed matches Some(done) ==> done == (known && record.consumable(now))
        &&& facts.promoted matches Some(count) ==> count == (if self.address(record.user_id)
            == Some(record.email) {
            1
        } else {
            0int
        })
    }
}

/// The records after a confirmation: they change only where it is committed.
pub open spec fn records_after(
    records: AddressRecords,
    token: Seq<char>,
    facts: ConfirmFacts,
) -> AddressRecords {
    match confirm_course(token, facts) {
        Ok(ConfirmStep::Commit { .. }) => records.confirmed(hash_of(token)),
        _ => records,
    }
}

/// A confirmation is committed only where the token can be confirmed, for the account of the
/// token, and fails within the rate limit only where it cannot; one that knows all it asks for is
/// committed where the token can be confirmed. One that fails changes nothing.
pub proof fn law_confirmation_goes_by_the_records(
    records: AddressRecords,
    token: Seq<char>,
    now: int,
    facts: ConfirmFacts,
)
    requires
        records.agree(token, now, facts),
    ensures
        confirm_course(token, facts) matches Ok(ConfirmStep::Commit { owner })
            ==> records.confirmable(token, now) && owner == records.tokens[hash_of(
            token,
        )].user_id && records_after(records, token, facts) == records.confirmed(hash_of(token)),
        confirm_course(token, facts) is Err && facts.within_rate == Some(true)
            ==> !records.confirmable(token, now),
        confirm_course(token, facts) is Err ==> records_after(records, token, facts) == records,
        records.confirmable(token, now) && facts.within_rate == Some(true) && facts.owner is Some
            && facts.current_email is Some && facts.token is Some && facts.consumed is Some
            && facts.promoted is Some ==> confirm_course(token, facts) == Ok::<
            ConfirmStep,
            Failure,
        >(ConfirmStep::Commit { owner: records.tokens[hash_of(token)].user_id }),
{
}

/// After a confirmation the address of the account is verified, neither the token nor any other
/// token of the account confirms anything again, and the tokens and addresses of other accounts
/// are what they were.
pub proof fn law_tokens_are_used_once(
    records: AddressRecords,
    token: Seq<char>,
    now: int,
    other: Seq<char>,
    later: int,
)
    requires
        records.confirmable(token, now),
    ensures
        ({
            let owner = records.tokens[hash_of(token)].user_id;
            let after = records.confirmed(hash_of(token));
            &&& after.accounts[owner].verified
            &&& forall|account: i32|
                account != owner ==> after.accounts.contains_key(account)
                    == records.accounts.contains_key(account) && #[trigger] after.accounts[account]
                    == records.accounts[account]
            &&& forall|account: i32| #[trigger] after.address(account) == records.address(account)
            &&& !after.confirmable(token, later)
            &&& records.tokens.contains_key(hash_of(other)) && records.tokens[hash_of(
                other,
            )].user_id == owner ==> !after.confirmable(other, later)
            &&& records.tokens.contains_key(hash_of(other)) && records.tokens[hash_of(
                other,
            )].user_id != owner ==> after.confirmable(other, later) == records.confirmable(
                other,
                later,
            )
        }),
{
    let after = records.confirmed(hash_of(token));
    assert(after.tokens.contains_key(hash_of(token)));
    assert(after.tokens.contains_key(hash_of(other)) == records.tokens.contains_key(
        hash_of(other),
    ));
}

/// A second confirmation with the same token fails, whatever it reads of the records that the first
/// one left: no step of it marks anything.
pub proof fn law_a_second_confirmation_fails(
    records: AddressRecords,
    token: Seq<char>,
    now: int,
    first: ConfirmFacts,
    later: int,
    second: ConfirmFacts,
)
    requires
        records.agree(token, now, first),
        confirm_course(token, first) matches Ok(ConfirmStep::Commit { .. }),
        records_after(records, token, first).agree(token, later, second),
    ensures
        !(confirm_course(token, second) matches Ok(ConfirmStep::Consume)),
        !(confirm_course(token, second) matches Ok(ConfirmStep::Promote { .. })),
        !(confirm_course(token, second) matches Ok(ConfirmStep::Commit { .. })),
        second.within_rate == Some(true) && second.owner is Some && second.current_email is Some
            && second.token is Some ==> confirm_course(token, second)
            == Err::<ConfirmStep, Failure>(invalid_token()),
{
    let after = records.confirmed(hash_of(token));
    assert(after.tokens.contains_key(hash_of(token)));
    assert(after.tokens[hash_of(token)].used);
}

// ---------------------------------------------------------------------------
// Delivering
// ---------------------------------------------------------------------------

/// A message of an administrator to a user.
pub open spec fn message_problem(admin: bool, within_rate: bool, text: Seq<char>) -> Option<
    Failure,
> {
    if !admin {
        Some(forbidden("Administrator access is required"@))
    } else if !within_rate {
        Some(too_many("Too many email requests; try again shortly"@))
    } else if trimmed(text).len() == 0 || byte_length(trimmed(text)) > 100_000 {
        Some(bad("Email text must contain between 1 and 100000 characters"@))
    } else {
        None
    }
}

/// The text of a message to a user; `recipient` is the user's address. The limit on messages is
/// only counted for administrators.
pub fn email_user(
    user: &CurrentUser,
    within_rate: bool,
    text: &str,
    recipient: Option<&str>,
) -> (result: Result<(String, String), ApiError>)
    ensures
        match result {
            Ok((to, body)) => message_problem(user.admin(), within_rate, text@) is None && str_of(
                recipient,
            ) == Some(to@) && body@ == trimmed(text@),
            Err(error) => match message_problem(user.admin(), within_rate, text@) {
                Some(failure) => error@ == failure,
                None => recipient is None && error@ == not_found("User not found"@),
            },
        },
{
    if let Err(error) = crate::auth::require_admin(user) {
        return Err(error);
    }
    if !within_rate {
        return Err(ApiError::too_many_requests("Too many email requests; try again shortly"));
    }
    let body = trim(text);
    if body.as_str().is_empty() || byte_len(body.as_str()) > 100_000 {
        return Err(
            ApiError::bad_request("Email text must contain between 1 and 100000 characters"),
        );
    }
    match recipient {
        Some(to) => Ok((to.to_owned(), body)),
        None => Err(ApiError::not_found("User not found")),
    }
}

/// The subject of such a message, with the name of the site in place of `{ctf_name}`.
pub fn message_subject(template: Option<&str>, ctf_name: Option<&str>) -> (result: String)
    ensures
        result@ == replaced_from(
            match str_of(template) {
                Some(text) => text,
                None => "Message from {ctf_name}"@,
            },
            "{ctf_name}"@,
            site_name(str_of(ctf_name)),
            0,
        ),
{
    let site = match ctf_name {
        Some(text) => text,
        None => "CTFZone",
    };
    let pattern = match template {
        Some(text) => text,
        None => "Message from {ctf_name}",
    };
    proof {
        reveal_strlit("{ctf_name}");
    }
    replace_all(pattern, "{ctf_name}", site)
}

/// The stored settings for the delivery of messages.
pub struct MailSettings {
    pub sender: Option<String>,
    pub provider: Option<String>,
    pub mailgun_base_url: Option<String>,
    pub mailgun_api_key: Option<String>,
    pub server: Option<String>,
    pub port: Option<String>,
}

/// How a message is delivered.
pub enum Delivery {
    Mailgun { sender: String, url: String, key: String },
    Smtp { sender: String, server: String, port: u16 },
}

/// How a message is delivered, by value.
pub enum DeliveryView {
    Mailgun(Seq<char>, Seq<char>, Seq<char>),
    Smtp(Seq<char>, Seq<char>, u16),
}

pub open spec fn shown_delivery(result: Result<Delivery, ApiError>) -> Result<
    DeliveryView,
    Failure,
> {
    match result {
        Ok(Delivery::Mailgun { sender, url, key }) => Ok(
            DeliveryView::Mailgun(sender@, url@, key@),
        ),
        Ok(Delivery::Smtp { sender, server, port }) => Ok(
            DeliveryView::Smtp(sender@, server@, port),
        ),
        Err(error) => Err(error@),
    }
}

/// A setting that is not blank.
pub open spec fn given_setting(value: Option<String>) -> Option<Seq<char>> {
    match value {
        Some(text) if trimmed(text@).len() > 0 => Some(text@),
        _ => None,
    }
}

fn given<'a>(value: &'a Option<String>) -> (result: Option<&'a str>)
    ensures
        str_of(result) == given_setting(*value),
{
    match value {
        Some(text) => {
            let content = trim(text.as_str());
            if content.as_str().is_empty() {
                None
            } else {
                Some(text.as_str())
            }
        },
        None => None,
    }
}

pub open spec fn messages_url(base: Seq<char>) -> Seq<char> {
    without_trailing(base, '/') + "/messages"@
}

/// The port of the mail server: 587, where none can be read.
pub open spec fn port_of(value: Option<Seq<char>>) -> u16 {
    match value {
        Some(text) => match natural_value(text, u16::MAX as int) {
            Some(port) => port as u16,
            None => 587,
        },
        None => 587,
    }
}

/// The delivery that the settings ask for: by the provider that is selected, or without one by
/// Mailgun where it is configured, else by SMTP.
pub open spec fn delivery_of(settings: MailSettings) -> Result<DeliveryView, Failure> {
    let provider = given_setting(settings.provider);
    let base = given_setting(settings.mailgun_base_url);
    let key = given_setting(settings.mailgun_api_key);
    let server = given_setting(settings.server);
    let automatic = provider is None || provider == Some("auto"@);
    match given_setting(settings.sender) {
        None => Err(bad("Email sender is not configured"@)),
        Some(sender) => if provider == Some("disabled"@) {
            Err(bad("Email delivery is disabled"@))
        } else if provider == Some("mailgun"@) || (automatic && base is Some && key is Some) {
            match (base, key) {
                (None, _) => Err(bad("Mailgun base URL is not configured"@)),
                (Some(_), None) => Err(bad("Mailgun API key is not configured"@)),
                (Some(url), Some(secret)) => Ok(
                    DeliveryView::Mailgun(sender, messages_url(url), secret),
                ),
            }
        } else if provider == Some("smtp"@) || (automatic && server is Some) {
            match server {
                None => Err(bad("Email server is not configured"@)),
                Some(host) => Ok(DeliveryView::Smtp(sender, host, port_of(text_of(settings.port)))),
            }
        } else {
            Err(bad("Email settings are not configured"@))
        },
    }
}

/// Chooses how a message is delivered.
pub fn deliver_email(settings: &MailSettings) -> (result: Result<Delivery, ApiError>)
    ensures
        shown_delivery(result) == delivery_of(*settings),
{
    let sender = match given(&settings.sender) {
        Some(sender) => sender.to_owned(),
        None => return Err(ApiError::bad_request("Email sender is not configured")),
    };
    let base = given(&settings.mailgun_base_url);
    let key = given(&settings.mailgun_api_key);
    let server = given(&settings.server);
    let (automatic, mailgun, smtp) = match given(&settings.provider) {
        None => (true, false, false),
        Some(word) => {
            if same(word, "disabled") {
                return Err(ApiError::bad_request("Email delivery is disabled"));
            }
            (same(word, "auto"), same(word, "mailgun"), same(word, "smtp"))
        },
    };
    if mailgun || (automatic && base.is_some() && key.is_some()) {
        let url = match base {
            Some(base) => {
                let site = trim_trailing(base, '/');
                concat(site.as_str(), "/messages")
            },
            None => return Err(ApiError::bad_request("Mailgun base URL is not configured")),
        };
        match key {
            Some(key) => Ok(Delivery::Mailgun { sender, url, key: key.to_owned() }),
            None => Err(ApiError::bad_request("Mailgun API key is not configured")),
        }
    } else if smtp || (automatic && server.is_some()) {
        match server {
            Some(server) => {
                let port: u16 = match &settings.port {
                    Some(text) => match parse_u64(text.as_str()) {
                        Some(number) => if number <= u16::MAX as u64 {
                            number as u16
                        } else {
                            587
                        },
                        None => 587,
                    },
                    None => 587,
                };
                Ok(Delivery::Smtp { sender, server: server.to_owned(), port })
            },
            None => Err(ApiError::bad_request("Email server is not configured")),
        }
    } else {
        Err(ApiError::bad_request("Email settings are not configured"))
    }
}

/// How the connection to the mail server is protected.
#[derive(Clone, Copy, Debug, PartialEq, Eq, Structural)]
pub enum MailSecurity {
    ImplicitTls,
    StartTls,
    Plain,
}

/// A switch that is off unless a word for on is stored.
pub open spec fn mail_switch(value: Option<Seq<char>>) -> bool {
    value matches Some(text) && means_on(trimmed(text))
}

pub fn config_bool(value: Option<&str>) -> (result: bool)
    ensures
        result == mail_switch(str_of(value)),
{
    match value {
        Some(text) => {
            let word = trim(text);
            is_on(word.as_str())
        },
        None => false,
    }
}

pub fn mail_security(mail_ssl: Option<&str>, mail_tls: Option<&str>) -> (result: Result<
    MailSecurity,
    ApiError,
>)
    ensures
        shown(result) == (if mail_switch(str_of(mail_ssl)) && mail_switch(str_of(mail_tls)) {
            Err(bad("Email cannot enable both implicit TLS and STARTTLS"@))
        } else if mail_switch(str_of(mail_ssl)) {
            Ok::<MailSecurity, Failure>(MailSecurity::ImplicitTls)
        } else if mail_switch(str_of(mail_tls)) {
            Ok(MailSecurity::StartTls)
        } else {
            Ok(MailSecurity::Plain)
        }),
{
    let ssl = config_bool(mail_ssl);
    let starttls = config_bool(mail_tls);
    if ssl && starttls {
        return Err(ApiError::bad_request("Email cannot enable both implicit TLS and STARTTLS"));
    }
    if ssl {
        Ok(MailSecurity::ImplicitTls)
    } else if starttls {
        Ok(MailSecurity::StartTls)
    } else {
        Ok(MailSecurity::Plain)
    }
}

/// A link to confirm an address names the token in its fragment only: before the hash it holds
/// nothing but the site and the path.
pub proof fn law_tokens_stay_in_the_fragment(origin: Seq<char>, token: Seq<char>)
    ensures
        link_of(origin, token).take(without_trailing(origin, '/').len() as int + 8)
            == without_trailing(origin, '/') + "/confirm"@,
        link_of(origin, token)[without_trailing(origin, '/').len() as int + 8] == '#',
        link_of(origin, token).skip(without_trailing(origin, '/').len() as int + 9) == token,
{
    reveal_strlit("/confirm#");
    reveal_strlit("/confirm");
    let site = without_trailing(origin, '/');
    let link = link_of(origin, token);
    let n = site.len() as int;
    assert(link.take(n + 8) =~= site + "/confirm"@);
    assert(link.skip(n + 9) =~= token);
}

/// A verification message goes to the address of the account, where it has one that is not verified,
/// unless one was sent less than a minute ago, five within the hour to the account or 25 to the
/// visitor's address; each other case is answered with its own message.
pub proof fn law_verification_messages_are_sent(
    facts: VerificationFacts,
    target: VerificationTarget,
    history: TokenHistory,
)
    requires
        facts.user_rate == Some(true),
        facts.ip_rate == Some(true),
        facts.target == Some(Some(target)),
        facts.history == Some(history),
    ensures
        ({
            let course = verification_course(facts);
            let addressed = target.email is Some && trimmed(target.email->Some_0@).len() > 0;
            let early = history.last_created is Some && elapsed(
                history.last_created->Some_0,
                facts.now,
            ) < 60;
            let often = history.user_hour_count >= 5 || history.ip_hour_count >= 25;
            &&& course is Ok <==> addressed && !target.verified && !early && !often
            &&& course is Ok ==> course->Ok_0 == VerificationCourse::Send(target.email->Some_0@)
            &&& !addressed ==> course == Err::<VerificationCourse, Failure>(
                bad("Your account does not have an email address"@),
            )
            &&& addressed && target.verified ==> course == Err::<VerificationCourse, Failure>(
                conflict("Your current email address is already verified"@),
            )
            &&& addressed && !target.verified && (early || often) ==> course == Err::<
                VerificationCourse,
                Failure,
            >(too_many("A verification email was sent recently; try again later"@))
        }),
{
}

/// Requests for messages are held to ten a minute of an account and 25 of an address, and an account
/// that is gone gets none.
pub proof fn law_verification_requests_are_limited(facts: VerificationFacts)
    ensures
        ({
            let course = verification_course(facts);
            &&& facts.user_rate is None ==> course == Ok::<VerificationCourse, Failure>(
                VerificationCourse::Read(VerificationRead::UserRate { limit: 10, seconds: 60 }),
            )
            &&& facts.user_rate == Some(true) && facts.ip_rate is None ==> course == Ok::<
                VerificationCourse,
                Failure,
            >(VerificationCourse::Read(VerificationRead::IpRate { limit: 25, seconds: 60 }))
            &&& facts.user_rate == Some(false) || (facts.user_rate == Some(true) && facts.ip_rate
                == Some(false)) ==> course == Err::<VerificationCourse, Failure>(
                too_many("Too many verification email requests; try again shortly"@),
            )
            &&& facts.user_rate == Some(true) && facts.ip_rate == Some(true) && facts.target
                == Some(None::<VerificationTarget>) ==> course == Err::<
                VerificationCourse,
                Failure,
            >(unauthorized("Authenticated user no longer exists"@))
            &&& course is Ok && course->Ok_0 is Send ==> facts.user_rate == Some(true)
                && facts.ip_rate == Some(true) && facts.history is Some
        }),
{
}

/// A token is usable by the account that it was sent to, at the address that the account has, once,
/// and not after it was invalidated; confirmations are held to twenty a minute.
pub proof fn law_usable_tokens(
    token: VerificationToken,
    owner: i32,
    email: Seq<char>,
    text: Seq<char>,
    facts: ConfirmFacts,
)
    ensures
        token_usable(token, owner, email) <==> token.user_id == owner && token.email@ == email
            && !token.used && !token.invalidated,
        facts.within_rate is None ==> confirm_course(text, facts) == Ok::<ConfirmStep, Failure>(
            ConfirmStep::RateLimit { limit: 20, seconds: 60 },
        ),
        facts.within_rate == Some(false) ==> confirm_course(text, facts) == Err::<
            ConfirmStep,
            Failure,
        >(too_many("Too many verification attempts; try again shortly"@)),
        facts.within_rate == Some(true) && !is_token(trimmed(text)) ==> confirm_course(text, facts)
            == Err::<ConfirmStep, Failure>(
            bad("This verification link is invalid or has expired"@),
        ),
{
}

/// The selected provider delivers a message, and without a selection Mailgun where it is configured
/// in full, else the mail server; nothing is delivered without a sender or where delivery is
/// disabled. What is missing is named.
pub proof fn law_messages_are_delivered_by_the_provider(settings: MailSettings)
    ensures
        ({
            let result = delivery_of(settings);
            let sender = given_setting(settings.sender);
            let provider = given_setting(settings.provider);
            let base = given_setting(settings.mailgun_base_url);
            let key = given_setting(settings.mailgun_api_key);
            let server = given_setting(settings.server);
            let automatic = provider is None || provider == Some("auto"@);
            let mailgun = sender is Some && base is Some && key is Some && (automatic || provider
                == Some("mailgun"@));
            let smtp = sender is Some && server is Some && (provider == Some("smtp"@) || (automatic
                && (base is None || key is None)));
            &&& result is Ok <==> mailgun || smtp
            &&& mailgun ==> result == Ok::<DeliveryView, Failure>(
                DeliveryView::Mailgun(
                    sender->Some_0,
                    without_trailing(base->Some_0, '/') + "/messages"@,
                    key->Some_0,
                ),
            )
            &&& smtp ==> (result matches Ok(DeliveryView::Smtp(from, host, port)) && from
                == sender->Some_0 && host == server->Some_0 && port == port_of(
                text_of(settings.port),
            ))
            &&& sender is None ==> result == Err::<DeliveryView, Failure>(
                bad("Email sender is not configured"@),
            )
            &&& sender is Some && provider == Some("disabled"@) ==> result == Err::<
                DeliveryView,
                Failure,
            >(bad("Email delivery is disabled"@))
            &&& sender is Some && provider == Some("mailgun"@) && base is None ==> result == Err::<
                DeliveryView,
                Failure,
            >(bad("Mailgun base URL is not configured"@))
            &&& sender is Some && provider == Some("mailgun"@) && base is Some && key is None
                ==> result == Err::<DeliveryView, Failure>(
                bad("Mailgun API key is not configured"@),
            )
            &&& sender is Some && provider == Some("smtp"@) && server is None ==> result == Err::<
                DeliveryView,
                Failure,
            >(bad("Email server is not configured"@))
        }),
{
    reveal_strlit("auto");
    reveal_strlit("mailgun");
    reveal_strlit("smtp");
    reveal_strlit("disabled");
    assert("auto"@.len() == 4 && "mailgun"@.len() == 7 && "smtp"@.len() == 4 && "disabled"@.len()
        == 8);
    assert("auto"@[0] != "smtp"@[0]);
}

/// A setting that is blank counts as none, and any other as it is written; a port is read back, and
/// is 587 where none can be read.
pub proof fn law_mail_settings_are_read(value: Option<String>, port: u16, text: Seq<char>)
    ensures
        given_setting(value) is Some <==> value is Some && trimmed(value->Some_0@).len() > 0,
        given_setting(value) is Some ==> given_setting(value)->Some_0 == value->Some_0@,
        port_of(Some(integer_text(port as int))) == port,
        port_of(None) == 587,
        natural_value(text, 65535) is None ==> port_of(Some(text)) == 587,
        mail_switch(None) == false,
        mail_switch(Some(text)) == means_on(trimmed(text)),
{
    crate::numbers::law_integer_text_reads_back(port as int);
    crate::numbers::lemma_integer_text_ends(port as int);
    crate::numbers::lemma_natural_text_starts(port as nat);
}

/// Only administrators write to users, within the rate, and what they write is 1 to 100000 bytes
/// long without the white space around it.
pub proof fn law_administrators_write_to_users(admin: bool, within_rate: bool, text: Seq<char>)
    ensures
        ({
            let problem = message_problem(admin, within_rate, text);
            &&& problem is None <==> admin && within_rate && 0 < trimmed(text).len() && byte_length(
                trimmed(text),
            ) <= 100_000
            &&& !admin ==> problem == Some(forbidden("Administrator access is required"@))
            &&& admin && !within_rate ==> problem == Some(
                too_many("Too many email requests; try again shortly"@),
            )
            &&& admin && within_rate && problem is Some ==> problem == Some(
                bad("Email text must contain between 1 and 100000 characters"@),
            )
        }),
{
}

/// A verification message names the site in its subject and holds the link as it is; a site without
/// a name is the default one.
pub proof fn law_verification_messages_hold_the_link(
    name: Option<Seq<char>>,
    ctf_name: Option<Seq<char>>,
    link: Seq<char>,
    ttl: i64,
)
    ensures
        ({
            let site = if ctf_name is Some {
                ctf_name->Some_0
            } else {
                "CTFZone"@
            };
            let who = if name is Some {
                name->Some_0
            } else {
                "participant"@
            };
            let head = "Hello "@ + who + ",\n\nVerify your email address for "@ + site + ":\n\n"@;
            let body = verification_body(name, ctf_name, link, ttl);
            &&& verification_subject(ctf_name) == "Verify your email for "@ + site
            &&& head.is_prefix_of(body)
            &&& body.subrange(head.len() as int, (head.len() + link.len()) as int) == link
            &&& ttl >= 0 ==> (link + "\n\nThis single-use link expires in "@ + integer_text(
                ttl as int / 60,
            ) + " minutes. If you did not expect this message, you can ignore it."@).is_suffix_of(
                body,
            )
        }),
{
    let site = site_name(ctf_name);
    let who = if name is Some {
        name->Some_0
    } else {
        "participant"@
    };
    let head = "Hello "@ + who + ",\n\nVerify your email address for "@ + site + ":\n\n"@;
    let tail = "\n\nThis single-use link expires in "@ + integer_text(
        crate::moment::quotient(ttl as int, 60),
    ) + " minutes. If you did not expect this message, you can ignore it."@;
    let body = verification_body(name, ctf_name, link, ttl);
    assert(body =~= head + link + tail);
    assert(head =~= body.subrange(0, head.len() as int));
    assert(body.subrange(head.len() as int, (head.len() + link.len()) as int) =~= link);
    if ttl >= 0 {
        let end = link + "\n\nThis single-use link expires in "@ + integer_text(ttl as int / 60)
            + " minutes. If you did not expect this message, you can ignore it."@;
        assert(end =~= link + tail);
        assert(end =~= body.subrange(body.len() - end.len(), body.len() as int));
    }
}

/// The token of a link is stored under the digest of its text without the white space around it, and
/// is one of 32 bytes.
pub proof fn law_tokens_are_stored_by_their_digest(token: Seq<char>, bytes: Seq<u8>)
    ensures
        hash_of(token) == sha256_digest(encode_utf8(trimmed(token))),
        bytes.len() == 32 ==> is_token(base64_url_text(bytes)),
        is_token(token) ==> base64_url_bytes(token) is Some && base64_url_bytes(token)->Some_0.len()
            == 32,
        bytes.len() != 32 ==> !is_token(base64_url_text(bytes)),
{
    law_base64_decodes(bytes);
}

} // verus!
