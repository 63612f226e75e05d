//! Account authentication by challenge: the service hands out a random code,
//! the account sends it to the bot account as a Geometry Dash message, and the
//! service trades the code for a session token once the message has arrived.

use std::sync::Arc;
use timedmap::TimedMap;
use vstd::prelude::*;

use crate::external::{
    is_alphanumeric, random_alphanumeric, timed_get, timed_insert_challenge, timed_insert_code,
    timed_map_new, timed_remove, timed_snapshot, uuid_new_v4, uuid_parse, parsed_uuid,
    UUID_V4_MARK, UUID_VERSION_VARIANT_MASK,
};
use crate::structs::{Challenge, GDMessage, GenericError};
use crate::text::{chars_of, parse_decimal_range, parse_u32, trim_start_all};

verus! {

/// Length of a challenge code.
pub const CHALLENGE_LEN: usize = 16;

/// Length of a session token.
pub const TOKEN_LEN: usize = 32;

/// Seconds a pending challenge or a received code stays usable.
pub const CHALLENGE_LIFETIME_SECS: u64 = 8;

/// How many times a completion is looked for before the attempt fails.
pub const MAX_TRIES: u32 = 7;

pub open spec fn all_alphanumeric(s: Seq<char>) -> bool {
    forall|i: int| 0 <= i < s.len() ==> is_alphanumeric(#[trigger] s[i])
}

/// Reads the bot's account id as `str::parse::<u32>` does.
pub fn parse_bot_account_id(value: &str) -> (id: Option<u32>)
    ensures
        id matches Some(v) ==> parse_u32(value@) == Some(v as int),
        id is None ==> parse_u32(value@) is None,
{
    let s = chars_of(value);
    assert(s@.subrange(0, s@.len() as int) =~= s@);
    match parse_decimal_range(&s, 0, s.len(), false, 0, u32::MAX as i128) {
        Some(v) => Some(v as u32),
        None => None,
    }
}

/// A fresh challenge for the bot account `bot_account_id`: a random code of
/// 16 letters and digits and a random version-4 UUID.
pub fn new_challenge(bot_account_id: u32) -> (c: Challenge)
    ensures
        c.bot_account_id == bot_account_id,
        c.challenge@.len() == CHALLENGE_LEN,
        all_alphanumeric(c.challenge@),
        c.id & UUID_VERSION_VARIANT_MASK == UUID_V4_MARK,
{
    let challenge = random_alphanumeric(CHALLENGE_LEN);
    let id = uuid_new_v4();
    Challenge { bot_account_id, challenge, id }
}

/// A fresh session token of 32 letters and digits.
pub fn new_token() -> (token: String)
    ensures
        token@.len() == TOKEN_LEN,
        all_alphanumeric(token@),
{
    random_alphanumeric(TOKEN_LEN)
}

/// Reads the id of a challenge from the text of a request; `UuidError` where
/// it is no UUID.
pub fn parse_challenge_id(challenge_id: &str) -> (res: Result<u128, GenericError>)
    ensures
        parsed_uuid(challenge_id@) matches Some(v) ==> res == Ok::<u128, GenericError>(v),
        parsed_uuid(challenge_id@) is None ==> res == Err::<u128, GenericError>(GenericError::UuidError),
{
    match uuid_parse(challenge_id) {
        Some(v) => Ok(v),
        None => Err(GenericError::UuidError),
    }
}

/// The position of the first pending challenge whose id is `id`.
pub fn find_challenge(pending: &Vec<(i64, Challenge)>, id: u128) -> (pos: Option<usize>)
    ensures
        pos matches Some(k) ==> k < pending@.len() && pending@[k as int].1.id == id,
        pos matches Some(k) ==> forall|j: int| 0 <= j < k ==> (#[trigger] pending@[j]).1.id != id,
        pos is None ==> forall|j: int| 0 <= j < pending@.len() ==> (#[trigger] pending@[j]).1.id != id,
{
    let mut k: usize = 0;
    while k < pending.len()
        invariant
            k <= pending@.len(),
            forall|j: int| 0 <= j < k ==> (#[trigger] pending@[j]).1.id != id,
        decreases pending@.len() - k,
    {
        if pending[k].1.id == id {
            return Some(k);
        }
        k = k + 1;
    }
    None
}

/// Whether a poll that has made `tries` looks may look again.
pub open spec fn attempt_allowed(tries: nat) -> bool {
    tries < MAX_TRIES
}

/// The looks counted after one more request to look.
pub open spec fn attempt_next(tries: nat) -> nat {
    if attempt_allowed(tries) {
        tries + 1
    } else {
        tries
    }
}

/// How many of `n` successive requests to look are allowed, for a poll that
/// has made `tries` looks.
pub open spec fn looks_allowed(tries: nat, n: nat) -> nat
    decreases n,
{
    if n == 0 {
        0
    } else {
        (if attempt_allowed(tries) {
            1nat
        } else {
            0nat
        }) + looks_allowed(attempt_next(tries), (n - 1) as nat)
    }
}

/// A fresh poll allows exactly `MAX_TRIES` looks, however often it is asked:
/// of `n` requests, the first `min(n, MAX_TRIES)` are allowed.
pub proof fn law_poll_allows_max_tries(n: nat)
    ensures
        looks_allowed(0, n) == if n < MAX_TRIES {
            n
        } else {
            MAX_TRIES as nat
        },
{
    lemma_looks_allowed(0, n);
}

proof fn lemma_looks_allowed(tries: nat, n: nat)
    requires
        tries <= MAX_TRIES,
    ensures
        looks_allowed(tries, n) == if n < MAX_TRIES - tries {
            n
        } else {
            (MAX_TRIES - tries) as nat
        },
    decreases n,
{
    if n > 0 {
        lemma_looks_allowed(attempt_next(tries), (n - 1) as nat);
    }
}

/// Counts the looks for a completed challenge; after `MAX_TRIES` looks the
/// attempt is over.
pub struct CompletionPoll {
    tries: u32,
}

impl CompletionPoll {
    /// How many looks have been made.
    pub closed spec fn tries(self) -> nat {
        self.tries as nat
    }

    #[verifier::type_invariant]
    closed spec fn bounded(self) -> bool {
        self.tries <= MAX_TRIES
    }

    /// A poll that has not looked yet.
    pub fn new() -> (poll: CompletionPoll)
        ensures
            poll.tries() == 0,
    {
        CompletionPoll { tries: 0 }
    }

    /// Begins one more look: `false`, and nothing changes, once `MAX_TRIES`
    /// looks have been made.
    pub fn next_attempt(&mut self) -> (allowed: bool)
        ensures
            allowed == attempt_allowed(old(self).tries()),
            final(self).tries() == attempt_next(old(self).tries()),
            final(self).tries() <= MAX_TRIES,
    {
        proof {
            use_type_invariant(&*self);
        }
        if self.tries >= MAX_TRIES {
            false
        } else {
            self.tries = self.tries + 1;
            true
        }
    }

    /// How many looks have been made.
    pub fn tries_made(&self) -> (n: u32)
        ensures
            n == self.tries(),
            n <= MAX_TRIES,
    {
        proof {
            use_type_invariant(self);
        }
        self.tries
    }
}

/// What one look for a completed challenge found.
#[derive(Debug, Clone, Copy, PartialEq, Eq, Structural)]
pub enum CompletionCheck {
    /// No code has arrived yet: wait and look again.
    Pending,
    /// The code that arrived is the challenge.
    Matched,
    /// A code arrived and is not the challenge.
    Mismatched,
}

/// The verdict on the code that arrived, against the challenge.
pub open spec fn judged(received: Option<String>, expected: Seq<char>) -> CompletionCheck {
    match received {
        None => CompletionCheck::Pending,
        Some(code) => if code@ == expected {
            CompletionCheck::Matched
        } else {
            CompletionCheck::Mismatched
        },
    }
}

/// Judges the code that arrived from the account against the challenge.
pub fn judge_completion(received: &Option<String>, expected: &String) -> (check: CompletionCheck)
    ensures
        check == judged(*received, expected@),
{
    match received {
        None => CompletionCheck::Pending,
        Some(code) => {
            if *code == *expected {
                CompletionCheck::Matched
            } else {
                CompletionCheck::Mismatched
            }
        },
    }
}

/// What a step of completing a challenge decided.
#[derive(Debug, Clone, Copy, PartialEq, Eq, Structural)]
pub enum CompletionStep {
    /// All looks are used up: the attempt fails.
    OutOfTries,
    /// No code yet: wait half a second and step again.
    Wait,
    /// The right code arrived and was consumed: issue a token.
    Accepted,
    /// A wrong code arrived: the attempt fails.
    Rejected,
}

/// What to do after a look found `check`: wait when nothing arrived, accept
/// the right code, refuse a wrong one.
pub open spec fn step_of(check: CompletionCheck) -> CompletionStep {
    match check {
        CompletionCheck::Pending => CompletionStep::Wait,
        CompletionCheck::Matched => CompletionStep::Accepted,
        CompletionCheck::Mismatched => CompletionStep::Rejected,
    }
}

/// What to do after a look found `check`.
pub fn step_for(check: CompletionCheck) -> (step: CompletionStep)
    ensures
        step == step_of(check),
{
    match check {
        CompletionCheck::Pending => CompletionStep::Wait,
        CompletionCheck::Matched => CompletionStep::Accepted,
        CompletionCheck::Mismatched => CompletionStep::Rejected,
    }
}

/// The prefix of a message subject that carries a challenge code.
pub open spec fn auth_prefix() -> Seq<char> {
    seq!['a', 'u', 't', 'h', '-']
}

/// The code a subject carries: the subject without every leading `auth-`,
/// where it starts with `auth-`.
pub open spec fn subject_code(subject: Seq<char>) -> Option<Seq<char>> {
    if subject.len() >= 5 && subject.take(5) == auth_prefix() {
        Some(trim_start_all(subject, auth_prefix()))
    } else {
        None
    }
}

/// Whether `s[start..]` begins with `auth-`.
fn auth_prefix_at(s: &Vec<char>, start: usize) -> (res: bool)
    requires
        start <= s@.len(),
    ensures
        res == (s@.skip(start as int).len() >= 5 && s@.skip(start as int).take(5) == auth_prefix()),
{
    let ghost rest = s@.skip(start as int);
    if s.len() - start < 5 {
        return false;
    }
    let res = s[start] == 'a' && s[start + 1] == 'u' && s[start + 2] == 't' && s[start + 3] == 'h'
        && s[start + 4] == '-';
    assert(rest[0] == s@[start as int] && rest[1] == s@[start + 1] && rest[2] == s@[start + 2]
        && rest[3] == s@[start + 3] && rest[4] == s@[start + 4]);
    if res {
        assert(rest.take(5) =~= auth_prefix());
    } else {
        assert(rest.take(5) != auth_prefix()) by {
            if rest.take(5) == auth_prefix() {
                assert(rest.take(5)[0] == 'a' && rest.take(5)[1] == 'u' && rest.take(5)[2] == 't'
                    && rest.take(5)[3] == 'h' && rest.take(5)[4] == '-');
            }
        }
    }
    res
}

/// The code a subject carries, if it starts with `auth-`.
pub fn auth_code(subject: &String) -> (code: Option<String>)
    ensures
        code matches Some(c) ==> subject_code(subject@) == Some(c@),
        code is None ==> subject_code(subject@) is None,
{
    let s = chars_of(subject.as_str());
    let n = s.len();
    let mut start: usize = 0;
    let ghost p = auth_prefix();
    assert(s@.skip(0) =~= s@);
    while auth_prefix_at(&s, start)
        invariant
            n == s@.len(),
            s@ == subject@,
            p == auth_prefix(),
            start <= n,
            trim_start_all(s@, p) == trim_start_all(s@.skip(start as int), p),
            start > 0 ==> s@.take(5) == p,
        decreases n - start,
    {
        let ghost rest = s@.skip(start as int);
        assert(rest.skip(5) =~= s@.skip(start + 5));
        if start == 0 {
            assert(s@.take(5) =~= rest.take(5));
        }
        start = start + 5;
    }
    let ghost rest = s@.skip(start as int);
    if start == 0 {
        return None;
    }
    assert(s@.subrange(start as int, n as int) =~= rest);
    let code = subject.as_str().substring_char(start, n).to_owned();
    Some(code)
}

/// An account that sends `auth-` followed by its challenge has its message
/// read as exactly that challenge, since a challenge is made of letters and
/// digits only.
pub proof fn law_auth_subject_carries_challenge(challenge: Seq<char>)
    requires
        all_alphanumeric(challenge),
    ensures
        subject_code(auth_prefix() + challenge) == Some(challenge),
{
    let subject = auth_prefix() + challenge;
    assert(subject.take(5) =~= auth_prefix());
    assert(subject.skip(5) =~= challenge);
    if challenge.len() >= 5 && challenge.take(5) == auth_prefix() {
        assert(challenge.take(5)[4] == '-');
        assert(is_alphanumeric(challenge[4]));
    }
    assert(trim_start_all(challenge, auth_prefix()) == challenge);
}

/// The codes that a batch of messages carries, in order, with their senders.
pub open spec fn completions_of(messages: Seq<GDMessage>) -> Seq<(i64, Seq<char>)>
    decreases messages.len(),
{
    if messages.len() == 0 {
        Seq::empty()
    } else {
        let before = completions_of(messages.drop_last());
        let m = messages.last();
        match subject_code(m.subject@) {
            Some(c) => before.push((m.from, c)),
            None => before,
        }
    }
}

/// The senders and codes of the messages whose subject starts with `auth-`.
pub fn auth_completions(messages: &Vec<GDMessage>) -> (out: Vec<(i64, String)>)
    ensures
        out@.len() == completions_of(messages@).len(),
        forall|i: int|
            0 <= i < out@.len() ==> (#[trigger] out@[i]).0 == completions_of(messages@)[i].0
                && out@[i].1@ == completions_of(messages@)[i].1,
{
    let mut out: Vec<(i64, String)> = Vec::new();
    let mut k: usize = 0;
    while k < messages.len()
        invariant
            k <= messages@.len(),
            out@.len() == completions_of(messages@.take(k as int)).len(),
            forall|i: int|
                0 <= i < out@.len() ==> (#[trigger] out@[i]).0 == completions_of(
                    messages@.take(k as int),
                )[i].0 && out@[i].1@ == completions_of(messages@.take(k as int))[i].1,
        decreases messages@.len() - k,
    {
        assert(messages@.take(k + 1).drop_last() =~= messages@.take(k as int));
        let m = &messages[k];
        match auth_code(&m.subject) {
            Some(code) => {
                out.push((m.from, code));
            },
            None => {},
        }
        k = k + 1;
    }
    assert(messages@.take(k as int) =~= messages@);
    out
}

/// The ids of a batch of messages joined with `,`, as the deletion request
/// lists them.
pub open spec fn ids_joined(messages: Seq<GDMessage>) -> Seq<char>
    decreases messages.len(),
{
    if messages.len() == 0 {
        Seq::empty()
    } else if messages.len() == 1 {
        messages[0].id@
    } else {
        ids_joined(messages.drop_last()) + seq![','] + messages.last().id@
    }
}

/// The ids of the messages, joined with `,`.
pub fn deletion_list(messages: &Vec<GDMessage>) -> (list: String)
    ensures
        list@ == ids_joined(messages@),
{
    let mut list = String::new();
    let mut k: usize = 0;
    while k < messages.len()
        invariant
            k <= messages@.len(),
            list@ == ids_joined(messages@.take(k as int)),
        decreases messages@.len() - k,
    {
        assert(messages@.take(k + 1).drop_last() =~= messages@.take(k as int));
        if k > 0 {
            list.append(",");
            proof {
                reveal_strlit(",");
            }
        }
        list.append(messages[k].id.as_str());
        k = k + 1;
        assert(list@ =~= ids_joined(messages@.take(k as int)));
    }
    assert(messages@.take(k as int) =~= messages@);
    list
}

/// The challenges waiting for their codes and the codes that have arrived,
/// each kept for a few seconds. Both maps are shared between threads.
pub struct AuthStuff {
    pub pending_challenges: Arc<TimedMap<i64, Challenge>>,
    pub completed_challenges: Arc<TimedMap<i64, String>>,
}

impl AuthStuff {
    /// Empty maps of challenges and codes.
    pub fn new() -> (stuff: AuthStuff) {
        AuthStuff { pending_challenges: timed_map_new(), completed_challenges: timed_map_new() }
    }

    /// Hands out a new challenge for the account `gd_acc`, to be sent to the
    /// bot account `bot_account_id`, and keeps it pending for a few seconds.
    pub fn request_challenge(&self, gd_acc: i64, bot_account_id: u32) -> (c: Challenge)
        ensures
            c.bot_account_id == bot_account_id,
            c.challenge@.len() == CHALLENGE_LEN,
            all_alphanumeric(c.challenge@),
            c.id & UUID_VERSION_VARIANT_MASK == UUID_V4_MARK,
    {
        let c = new_challenge(bot_account_id);
        timed_insert_challenge(&self.pending_challenges, gd_acc, c.clone(), CHALLENGE_LIFETIME_SECS);
        c
    }

    /// The account and challenge of the pending challenge with this id.
    pub fn find_pending(&self, id: u128) -> (found: Option<(i64, Challenge)>)
        ensures
            found matches Some((_, c)) ==> c.id == id,
    {
        let mut pending = timed_snapshot(&self.pending_challenges);
        match find_challenge(&pending, id) {
            Some(k) => Some(pending.swap_remove(k)),
            None => None,
        }
    }

    /// One look for the code of account `acc_id`: uses up one of the poll's
    /// looks, and consumes the code where it matches `expected`. Returns the
    /// decision and the code that the look found, if a look was made.
    pub fn completion_step(&self, poll: &mut CompletionPoll, acc_id: i64, expected: &String) -> (res: (CompletionStep, Option<String>))
        ensures
            final(poll).tries() == attempt_next(old(poll).tries()),
            !attempt_allowed(old(poll).tries()) ==> res.0 == CompletionStep::OutOfTries && res.1 is None,
            attempt_allowed(old(poll).tries()) ==> res.0 == step_of(judged(res.1, expected@)),
    {
        if !poll.next_attempt() {
            return (CompletionStep::OutOfTries, None);
        }
        let received = timed_get(&self.completed_challenges, acc_id);
        let check = judge_completion(&received, expected);
        let step = step_for(check);
        if step == CompletionStep::Accepted {
            timed_remove(&self.completed_challenges, acc_id);
        }
        (step, received)
    }

    /// Records the codes that a batch of inbox messages carries, each under its
    /// sender, replacing the code kept before; returns the ids of all the
    /// messages, joined with `,`, for their deletion.
    pub fn record_auth_messages(&self, messages: &Vec<GDMessage>) -> (ids: String)
        ensures
            ids@ == ids_joined(messages@),
    {
        let completions = auth_completions(messages);
        let mut k: usize = 0;
        while k < completions.len()
            invariant
                k <= completions@.len(),
            decreases completions@.len() - k,
        {
            let (from, code) = (completions[k].0, completions[k].1.clone());
            timed_remove(&self.completed_challenges, from);
            timed_insert_code(&self.completed_challenges, from, code, CHALLENGE_LIFETIME_SECS);
            k = k + 1;
        }
        deletion_list(messages)
    }
}

} // verus!
