//! Decisions of the authenticated client: token lifecycle and the handling of answers.
use vstd::prelude::*;

use crate::error::FsError;
use crate::text::chars_of;

verus! {

/// The most attempts that one token refresh makes.
pub const MAX_REFRESH_ATTEMPTS: u32 = 10;

/// How long before expiry the background refresher wakes.
pub const REFRESH_MARGIN_SECS: u64 = 200;

/// Seconds to sleep before the next background refresh: the lifetime less the margin, and
/// never below zero.
pub fn refresh_delay_secs(expires_in: u64) -> (r: u64)
    ensures
        r == if expires_in >= REFRESH_MARGIN_SECS {
            (expires_in - REFRESH_MARGIN_SECS) as u64
        } else {
            0
        },
{
    if expires_in >= REFRESH_MARGIN_SECS {
        expires_in - REFRESH_MARGIN_SECS
    } else {
        0
    }
}

/// Whether a start is possible: a refresh token is given, or one was kept on disk.
pub fn check_credentials(given: &str, from_file: &Option<String>) -> (r: Result<(), FsError>)
    ensures
        r is Ok <==> (given@.len() > 0 || from_file is Some),
        r is Err ==> r->Err_0 is NoCredential,
{
    if given.is_empty() && from_file.is_none() {
        Err(FsError::NoCredential)
    } else {
        Ok(())
    }
}

pub open spec fn count_char(s: Seq<char>, c: char) -> nat
    decreases s.len(),
{
    if s.len() == 0 {
        0
    } else {
        count_char(s.drop_last(), c) + if s.last() == c {
            1nat
        } else {
            0
        }
    }
}

/// A kept token in the current format has at least three `.`-separated parts.
pub open spec fn is_current_token_format(s: Seq<char>) -> bool {
    count_char(s, '.') >= 2
}

/// Checks a refresh token read from disk; one of the old format is refused.
pub fn check_saved_token(token: &str) -> (r: Result<(), FsError>)
    ensures
        r is Ok <==> is_current_token_format(token@),
        r is Err ==> r->Err_0 is GeneralFailure,
{
    let cs = chars_of(token);
    let mut n: u64 = 0;
    let mut i: usize = 0;
    while i < cs.len()
        invariant
            i <= cs@.len(),
            n as nat == count_char(cs@.subrange(0, i as int), '.'),
            n <= i,
        decreases cs.len() - i,
    {
        assert(cs@.subrange(0, i + 1).drop_last() =~= cs@.subrange(0, i as int));
        if cs[i] == '.' {
            n = n + 1;
        }
        i = i + 1;
    }
    assert(cs@.subrange(0, cs@.len() as int) =~= cs@);
    if n >= 2 {
        Ok(())
    } else {
        Err(FsError::GeneralFailure)
    }
}

/// White space as `char::is_whitespace` knows it (the Unicode `White_Space` property).
pub open spec fn is_white_space(c: char) -> bool {
    ('\t' <= c && c <= '\r') || c == ' ' || c == '\u{85}' || c == '\u{A0}' || c == '\u{1680}' || (
    '\u{2000}' <= c && c <= '\u{200A}') || c == '\u{2028}' || c == '\u{2029}' || c == '\u{202F}'
        || c == '\u{205F}' || c == '\u{3000}'
}

fn is_white_space_exec(c: char) -> (r: bool)
    ensures
        r == is_white_space(c),
{
    ('\t' <= c && c <= '\r') || c == ' ' || c == '\u{85}' || c == '\u{A0}' || c == '\u{1680}' || (
    '\u{2000}' <= c && c <= '\u{200A}') || c == '\u{2028}' || c == '\u{2029}' || c == '\u{202F}'
        || c == '\u{205F}' || c == '\u{3000}'
}

/// `s` without white space at either end, as `str::trim`.
pub open spec fn trimmed(s: Seq<char>) -> Seq<char>
    decreases s.len(),
{
    if s.len() > 0 && is_white_space(s[0]) {
        trimmed(s.drop_first())
    } else if s.len() > 0 && is_white_space(s.last()) {
        trimmed(s.drop_last())
    } else {
        s
    }
}

proof fn lemma_trimmed_range(s: Seq<char>, i: int, j: int)
    requires
        0 <= i <= j <= s.len(),
        forall|k: int| 0 <= k < i ==> is_white_space(#[trigger] s[k]),
        forall|k: int| j <= k < s.len() ==> is_white_space(#[trigger] s[k]),
        i == j || !is_white_space(s[i]),
    ensures
        trimmed(s) == trimmed(s.subrange(i, j)),
    decreases s.len(),
{
    if i > 0 {
        let t = s.drop_first();
        assert(t.subrange(i - 1, j - 1) =~= s.subrange(i, j));
        assert forall|k: int| 0 <= k < i - 1 implies is_white_space(#[trigger] t[k]) by {
            assert(t[k] == s[k + 1]);
        }
        assert forall|k: int| j - 1 <= k < t.len() implies is_white_space(#[trigger] t[k]) by {
            assert(t[k] == s[k + 1]);
        }
        lemma_trimmed_range(t, i - 1, j - 1);
    } else if j < s.len() {
        let t = s.drop_last();
        assert(t.subrange(i, j) =~= s.subrange(i, j));
        assert(is_white_space(s.last()));
        if s.len() > 0 && is_white_space(s[0]) {
            assert(i == j);
            assert(j == 0);
            let u = s.drop_first();
            assert(u.subrange(0, 0) =~= s.subrange(0, 0));
            assert forall|k: int| 0 <= k < u.len() implies is_white_space(#[trigger] u[k]) by {
                assert(u[k] == s[k + 1]);
            }
            lemma_trimmed_range(u, 0, 0);
        } else {
            lemma_trimmed_range(t, i, j);
        }
    } else {
        assert(s.subrange(i, j) =~= s);
        let t = s.subrange(i, j);
        if t.len() > 0 && is_white_space(t[0]) {
            assert(i == j);
        }
    }
}

/// `s` without white space at either end.
pub fn trim_chars(s: &Vec<char>) -> (r: Vec<char>)
    ensures
        r@ == trimmed(s@),
{
    let mut i: usize = 0;
    while i < s.len() && is_white_space_exec(s[i])
        invariant
            i <= s@.len(),
            forall|k: int| 0 <= k < i ==> is_white_space(#[trigger] s@[k]),
        decreases s.len() - i,
    {
        i = i + 1;
    }
    let mut j: usize = s.len();
    while j > i && is_white_space_exec(s[j - 1])
        invariant
            i <= j <= s@.len(),
            forall|k: int| j <= k < s@.len() ==> is_white_space(#[trigger] s@[k]),
        decreases j,
    {
        j = j - 1;
    }
    let mut r: Vec<char> = Vec::new();
    let mut k: usize = i;
    while k < j
        invariant
            i <= k <= j <= s@.len(),
            r@ == s@.subrange(i as int, k as int),
        decreases j - k,
    {
        r.push(s[k]);
        k = k + 1;
        assert(r@ =~= s@.subrange(i as int, k as int));
    }
    proof {
        lemma_trimmed_range(s@, i as int, j as int);
        let t = s@.subrange(i as int, j as int);
        if t.len() > 0 {
            assert(t[0] == s@[i as int]);
            assert(t.last() == s@[j - 1]);
        }
    }
    r
}

/// Why a refresh attempt failed.
#[derive(Debug, Clone, Copy, PartialEq, Eq, Structural)]
pub enum RefreshFailure {
    /// No connection, a timeout, or status 429: worth waiting for.
    Transient,
    /// Any other failure, such as a token that the service refuses.
    Rejected,
}

/// What the refresher does after a failed attempt.
#[derive(Debug, Clone)]
pub enum RefreshStep {
    /// Pause one second, then try again with this token.
    RetryWith(String),
    /// Stop and report the failure; the previous access token stays in place.
    GiveUp,
}

/// The next step after attempt number `attempt` (from 1) failed with `failure` while using
/// `current`. A transient failure is retried with the same token. A rejected one is retried
/// once with the token kept on disk (trimmed), where that one differs. No more than
/// ten attempts are made.
pub open spec fn refresh_step_spec(
    attempt: u32,
    failure: RefreshFailure,
    current: Seq<char>,
    from_file: Option<Seq<char>>,
) -> Option<Seq<char>> {
    if attempt >= MAX_REFRESH_ATTEMPTS {
        None
    } else if failure == RefreshFailure::Transient {
        Some(current)
    } else {
        match from_file {
            Some(f) => if current != trimmed(f) {
                Some(trimmed(f))
            } else {
                None
            },
            None => None,
        }
    }
}

pub fn refresh_step(attempt: u32, failure: RefreshFailure, current: &String, from_file: &Option<String>) -> (r: RefreshStep)
    ensures
        match r {
            RefreshStep::RetryWith(t) => refresh_step_spec(
                attempt,
                failure,
                current@,
                match from_file {
                    Some(f) => Some(f@),
                    None => None,
                },
            ) == Some(t@),
            RefreshStep::GiveUp => refresh_step_spec(
                attempt,
                failure,
                current@,
                match from_file {
                    Some(f) => Some(f@),
                    None => None,
                },
            ) is None,
        },
{
    if attempt >= MAX_REFRESH_ATTEMPTS {
        return RefreshStep::GiveUp;
    }
    if failure == RefreshFailure::Transient {
        return RefreshStep::RetryWith(current.clone());
    }
    match from_file {
        Some(f) => {
            let t = crate::text::string_from_chars(&trim_chars(&chars_of(f.as_str())));
            if !(*current == t) {
                RefreshStep::RetryWith(t)
            } else {
                RefreshStep::GiveUp
            }
        },
        None => RefreshStep::GiveUp,
    }
}

/// What to do with the answer to an authenticated POST.
#[derive(Debug, Clone, Copy, PartialEq, Eq, Structural)]
pub enum AnswerStep {
    /// 204: the call succeeded with nothing to decode.
    Empty,
    /// Another 2xx answer: decode the body.
    Decode,
    /// 401: refresh the token, then send once more.
    RefreshAndRetry,
    /// 408, 429, 500, 502, 503, 504: wait a second, then send once more.
    PauseAndRetry,
    /// 404: the entry is absent.
    NotFound,
    /// Any other failure: report it with its status.
    Fail,
}

pub open spec fn is_success_status(status: u16) -> bool {
    200 <= status < 300
}

pub open spec fn is_transient_status(status: u16) -> bool {
    status == 408 || status == 429 || status == 500 || status == 502 || status == 503 || status == 504
}

/// The step that answer `status` calls for on attempt `attempt` (1 or 2). Only the first
/// attempt is ever retried, so one call makes at most two POSTs.
pub open spec fn answer_step_spec(attempt: u32, status: u16) -> AnswerStep {
    if status == 204 {
        AnswerStep::Empty
    } else if is_success_status(status) {
        AnswerStep::Decode
    } else if status == 404 {
        AnswerStep::NotFound
    } else if attempt == 1 && status == 401 {
        AnswerStep::RefreshAndRetry
    } else if attempt == 1 && is_transient_status(status) {
        AnswerStep::PauseAndRetry
    } else {
        AnswerStep::Fail
    }
}

pub fn answer_step(attempt: u32, status: u16) -> (r: AnswerStep)
    requires
        attempt == 1 || attempt == 2,
    ensures
        r == answer_step_spec(attempt, status),
{
    if status == 204 {
        AnswerStep::Empty
    } else if 200 <= status && status < 300 {
        AnswerStep::Decode
    } else if status == 404 {
        AnswerStep::NotFound
    } else if attempt == 1 && status == 401 {
        AnswerStep::RefreshAndRetry
    } else if attempt == 1 && (status == 408 || status == 429 || status == 500 || status == 502
        || status == 503 || status == 504) {
        AnswerStep::PauseAndRetry
    } else {
        AnswerStep::Fail
    }
}

/// The error that a failed answer becomes.
pub fn answer_error(status: u16, body: String) -> (r: FsError)
    ensures
        status == 404 ==> r is NotFound,
        status != 404 ==> r == (FsError::Upstream { status, body }),
{
    if status == 404 {
        FsError::NotFound
    } else {
        FsError::Upstream { status, body }
    }
}

/// Whether a trash or delete call succeeded: an absent entry (404) or a refused id (400)
/// counts as done, so removing twice is harmless.
pub open spec fn removal_succeeded(status: u16) -> bool {
    is_success_status(status) || status == 404 || status == 400
}

pub fn removal_result(status: u16, body: String) -> (r: Result<(), FsError>)
    ensures
        r is Ok <==> removal_succeeded(status),
        r is Err ==> r->Err_0 == (FsError::Upstream { status, body }),
{
    if (200 <= status && status < 300) || status == 404 || status == 400 {
        Ok(())
    } else {
        Err(FsError::Upstream { status, body })
    }
}

/// Removing what is already gone succeeds: the service answers 404 (or 400 for an id it
/// no longer knows), and both count as done.
pub proof fn lemma_removing_absent_succeeds()
    ensures
        removal_succeeded(404),
        removal_succeeded(400),
{
}

/// One authenticated call never makes more than two POSTs: a second attempt is never
/// followed by a third.
pub proof fn lemma_at_most_two_posts(status: u16)
    ensures
        answer_step_spec(2, status) != AnswerStep::RefreshAndRetry,
        answer_step_spec(2, status) != AnswerStep::PauseAndRetry,
{
}

/// The token pair. The access token is absent until a refresh succeeds.
#[derive(Debug, Clone)]
pub struct Credentials {
    pub refresh_token: String,
    pub access_token: Option<String>,
}

impl Credentials {
    pub fn new(refresh_token: String) -> (r: Self)
        ensures
            r.refresh_token == refresh_token,
            r.access_token is None,
    {
        Credentials { refresh_token, access_token: None }
    }

    /// The access token for a call; a client that never refreshed is not authorized.
    pub fn access_token(&self) -> (r: Result<String, FsError>)
        ensures
            match self.access_token {
                Some(t) => r == Ok::<String, FsError>(t),
                None => r matches Err(FsError::NoCredential),
            },
    {
        match &self.access_token {
            Some(t) => Ok(t.clone()),
            None => Err(FsError::NoCredential),
        }
    }

    /// Takes in a successful refresh: both tokens rotate, and the returned refresh token is
    /// the one to keep on disk before the next call.
    pub fn rotate(&mut self, res: &crate::model::RefreshTokenResponse) -> (r: String)
        ensures
            final(self).refresh_token == res.refresh_token,
            final(self).access_token == Some(res.access_token),
            r == res.refresh_token,
    {
        self.refresh_token = res.refresh_token.clone();
        self.access_token = Some(res.access_token.clone());
        res.refresh_token.clone()
    }
}

} // verus!
