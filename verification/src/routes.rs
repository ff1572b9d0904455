//! The server's election: what it holds, and what each request does to it and
//! answers. The HTTP plumbing around it (decoding bodies, locking, threads)
//! stands outside the library; every decision stands here.
use vstd::prelude::*;
use crate::election::Ballot;
use crate::errors::AppError;
use crate::fhe::{choice_fits, clone_choice, clone_server_key, operable_key, trivial_count, EncryptedCount};
use crate::io::{ballot_from_bytes, decoded_ballot};
use crate::tally::{tally, tally_result};
use crate::election::NUM_CANDIDATES;
use crate::text::{spec_tally_summary, tally_summary};

verus! {

/// HTTP status 201 Created.
pub const STATUS_CREATED: u16 = 201;

/// HTTP status 400 Bad Request.
pub const STATUS_BAD_REQUEST: u16 = 400;

/// HTTP status 404 Not Found.
pub const STATUS_NOT_FOUND: u16 = 404;

/// HTTP status 409 Conflict.
pub const STATUS_CONFLICT: u16 = 409;

/// HTTP status 500 Internal Server Error.
pub const STATUS_INTERNAL_SERVER_ERROR: u16 = 500;

/// The error that a request is answered with: a status and a plain-text
/// message.
#[derive(Debug)]
pub struct ApiError {
    status: u16,
    message: String,
}

impl View for ApiError {
    type V = (u16, Seq<char>);

    closed spec fn view(&self) -> (u16, Seq<char>) {
        (self.status, self.message@)
    }
}

impl ApiError {
    /// An error with `status` and `message`.
    pub fn new(status: u16, message: &str) -> (r: ApiError)
        ensures
            r@ == (status, message@),
    {
        ApiError { status, message: String::from_str(message) }
    }

    /// The HTTP status.
    pub fn status(&self) -> (r: u16)
        ensures
            r == self@.0,
    {
        self.status
    }

    /// The plain-text message.
    pub fn message(&self) -> (r: &String)
        ensures
            r@ == self@.1,
    {
        &self.message
    }

    /// The status that an application error is answered with: an undecodable
    /// body is the client's fault (400), anything else is the server's (500).
    pub open spec fn spec_status_of(err: AppError) -> u16 {
        match err {
            AppError::Decode(_) => STATUS_BAD_REQUEST,
            _ => STATUS_INTERNAL_SERVER_ERROR,
        }
    }

    /// The answer to an application error: its status by `spec_status_of`, and
    /// the error's text.
    pub fn from(err: AppError) -> (r: ApiError)
        ensures
            r@ == (Self::spec_status_of(err), err.spec_text()),
    {
        let status = match err {
            AppError::Decode(_) => STATUS_BAD_REQUEST,
            _ => STATUS_INTERNAL_SERVER_ERROR,
        };
        ApiError { status, message: err.text() }
    }
}

/// The answer to a request that needs an open election when none is open.
pub open spec fn spec_not_open() -> (u16, Seq<char>) {
    (STATUS_CONFLICT, "election not open: upload a server key first"@)
}

/// The answer to a second server key.
pub open spec fn spec_key_already_set() -> (u16, Seq<char>) {
    (STATUS_CONFLICT, "election already has a server key"@)
}

/// The answer to a request for results before any tally.
pub open spec fn spec_no_tally() -> (u16, Seq<char>) {
    (STATUS_NOT_FOUND, "no tally has been run yet"@)
}

/// The answer to a request that needs an open election when none is open.
pub fn not_open() -> (r: ApiError)
    ensures
        r@ == spec_not_open(),
{
    ApiError::new(STATUS_CONFLICT, "election not open: upload a server key first")
}

/// What the server knows about the election: each part is public (the server
/// key) or encrypted (ballots, counts).
pub struct Election {
    server_key: Option<tfhe::ServerKey>,
    ballots: Vec<Ballot>,
    counts: Option<Vec<EncryptedCount>>,
}

/// The election as a value: the server key once one is set, the ballots in the
/// order they came, and the counts of the latest tally, if any.
pub struct ElectionState {
    pub server_key: Option<tfhe::ServerKey>,
    pub ballots: Seq<Ballot>,
    pub counts: Option<Seq<EncryptedCount>>,
}

impl View for Election {
    type V = ElectionState;

    closed spec fn view(&self) -> ElectionState {
        ElectionState {
            server_key: self.server_key,
            ballots: self.ballots@,
            counts: match self.counts {
                Some(c) => Some(c@),
                None => None,
            },
        }
    }
}

/// A request's outcome as a value: success with a status, or an error's view.
pub open spec fn outcome_view(r: Result<u16, ApiError>) -> Result<u16, (u16, Seq<char>)> {
    match r {
        Ok(status) => Ok(status),
        Err(e) => Err(e@),
    }
}

impl ElectionState {
    /// No key, no ballots, no tally.
    pub open spec fn initial() -> ElectionState {
        ElectionState { server_key: None, ballots: Seq::empty(), counts: None }
    }

    /// The election is open once a server key is set.
    pub open spec fn is_open(self) -> bool {
        self.server_key is Some
    }

    /// `POST /keys`: the first key opens the election; ballots are only
    /// meaningful under the key they were encrypted for, so a later key is
    /// refused and changes nothing.
    pub open spec fn upload_key(self, key: tfhe::ServerKey) -> (ElectionState, Result<u16, (u16, Seq<char>)>) {
        if self.is_open() {
            (self, Err(spec_key_already_set()))
        } else {
            (ElectionState { server_key: Some(key), ..self }, Ok(STATUS_CREATED))
        }
    }

    /// `POST /ballots`: an open election appends the ballot; a closed one
    /// refuses it and changes nothing.
    pub open spec fn cast_ballot(self, ballot: Ballot) -> (ElectionState, Result<u16, (u16, Seq<char>)>) {
        if self.is_open() {
            (ElectionState { ballots: self.ballots.push(ballot), ..self }, Ok(STATUS_CREATED))
        } else {
            (self, Err(spec_not_open()))
        }
    }

    /// The end of `POST /tally`: the counts computed become the latest result.
    pub open spec fn record_tally(self, counts: Seq<EncryptedCount>) -> ElectionState {
        ElectionState { counts: Some(counts), ..self }
    }
}


/// A request that changes the election: a key upload, a ballot, or the end of a
/// tally with the counts it computed. (Reading results changes nothing.)
pub enum Request {
    UploadKey(tfhe::ServerKey),
    CastBallot(Ballot),
    RecordTally(Seq<EncryptedCount>),
}

impl ElectionState {
    /// The election after one request.
    pub open spec fn apply(self, req: Request) -> ElectionState {
        match req {
            Request::UploadKey(key) => self.upload_key(key).0,
            Request::CastBallot(ballot) => self.cast_ballot(ballot).0,
            Request::RecordTally(counts) => self.record_tally(counts),
        }
    }

    /// The election after `reqs`, in order.
    pub open spec fn apply_all(self, reqs: Seq<Request>) -> ElectionState
        decreases reqs.len(),
    {
        if reqs.len() == 0 {
            self
        } else {
            self.apply(reqs[0]).apply_all(reqs.drop_first())
        }
    }
}

/// The ballots that `reqs` cast, in order.
pub open spec fn ballots_cast(reqs: Seq<Request>) -> Seq<Ballot>
    decreases reqs.len(),
{
    if reqs.len() == 0 {
        Seq::empty()
    } else {
        let rest = ballots_cast(reqs.drop_first());
        match reqs[0] {
            Request::CastBallot(b) => seq![b] + rest,
            _ => rest,
        }
    }
}

/// Whether one of `reqs` uploads a key.
pub open spec fn uploads_key(reqs: Seq<Request>) -> bool {
    exists|i: int| 0 <= i < reqs.len() && #[trigger] reqs[i] is UploadKey
}

/// Whether one of `reqs` records a tally.
pub open spec fn records_tally(reqs: Seq<Request>) -> bool {
    exists|i: int| 0 <= i < reqs.len() && #[trigger] reqs[i] is RecordTally
}

/// An open election takes every ballot: it answers 201 Created and appends the
/// ballot after those it held, keeping its key and results. A ballot is refused
/// only when the election is not open, with 409 Conflict, and then nothing
/// changes.
pub proof fn lemma_open_election_takes_every_ballot(s: ElectionState, ballot: Ballot)
    ensures
        s.cast_ballot(ballot).1 is Ok <==> s.is_open(),
        s.is_open() ==> s.cast_ballot(ballot).1 == Ok::<u16, (u16, Seq<char>)>(201u16),
        s.is_open() ==> s.cast_ballot(ballot).0.ballots == s.ballots.push(ballot),
        s.cast_ballot(ballot).0.server_key == s.server_key,
        s.cast_ballot(ballot).0.counts == s.counts,
        !s.is_open() ==> s.cast_ballot(ballot).0 == s && (s.cast_ballot(ballot).1 matches Err(e) && e.0 == 409u16),
{
}

/// The first key opens the election: it is answered 201 Created and becomes the
/// election's key, ballots and results untouched. Any later key is refused with
/// 409 Conflict and changes nothing.
pub proof fn lemma_first_key_opens_the_election(s: ElectionState, key: tfhe::ServerKey)
    ensures
        s.upload_key(key).1 is Ok <==> !s.is_open(),
        !s.is_open() ==> s.upload_key(key).1 == Ok::<u16, (u16, Seq<char>)>(201u16)
            && s.upload_key(key).0.server_key == Some(key),
        s.upload_key(key).0.ballots == s.ballots,
        s.upload_key(key).0.counts == s.counts,
        s.is_open() ==> s.upload_key(key).0 == s && (s.upload_key(key).1 matches Err(e) && e.0 == 409u16),
{
}

/// The server key cannot be swapped: once set, it stays, whatever requests
/// follow.
pub proof fn lemma_key_is_permanent(s: ElectionState, reqs: Seq<Request>, key: tfhe::ServerKey)
    requires
        s.server_key == Some(key),
    ensures
        s.apply_all(reqs).server_key == Some(key),
    decreases reqs.len(),
{
    if reqs.len() > 0 {
        lemma_key_is_permanent(s.apply(reqs[0]), reqs.drop_first(), key);
    }
}

/// An open election keeps every ballot it receives, in order, after those it
/// had: the ballots are the earlier ones followed by those that `reqs` cast.
pub proof fn lemma_open_election_keeps_every_ballot(s: ElectionState, reqs: Seq<Request>)
    requires
        s.is_open(),
    ensures
        s.apply_all(reqs).ballots == s.ballots + ballots_cast(reqs),
    decreases reqs.len(),
{
    if reqs.len() == 0 {
        assert(s.ballots + ballots_cast(reqs) =~= s.ballots);
    } else {
        let next = s.apply(reqs[0]);
        lemma_open_election_keeps_every_ballot(next, reqs.drop_first());
        match reqs[0] {
            Request::CastBallot(b) => {
                assert(s.ballots + ballots_cast(reqs) =~= s.ballots.push(b) + ballots_cast(reqs.drop_first()));
            },
            _ => {},
        }
    }
}

/// An election that is not open takes no ballot: until a key is uploaded,
/// every ballot is refused and the ballots stay as they were.
pub proof fn lemma_closed_election_takes_no_ballot(s: ElectionState, reqs: Seq<Request>)
    requires
        !s.is_open(),
        !uploads_key(reqs),
    ensures
        s.apply_all(reqs).ballots == s.ballots,
        !s.apply_all(reqs).is_open(),
    decreases reqs.len(),
{
    if reqs.len() > 0 {
        assert(!(reqs[0] is UploadKey)) by {
            if reqs[0] is UploadKey {
                assert(uploads_key(reqs));
            }
        }
        assert(!uploads_key(reqs.drop_first())) by {
            if uploads_key(reqs.drop_first()) {
                let i = choose|i: int| 0 <= i < reqs.drop_first().len() && #[trigger] reqs.drop_first()[i] is UploadKey;
                assert(reqs[i + 1] is UploadKey);
            }
        }
        lemma_closed_election_takes_no_ballot(s.apply(reqs[0]), reqs.drop_first());
    }
}

/// The results are those of the latest tally: votes and key uploads that come
/// after a tally do not clear or change its counts.
pub proof fn lemma_results_outlive_votes(s: ElectionState, reqs: Seq<Request>)
    requires
        !records_tally(reqs),
    ensures
        s.apply_all(reqs).counts == s.counts,
    decreases reqs.len(),
{
    if reqs.len() > 0 {
        assert(!(reqs[0] is RecordTally)) by {
            if reqs[0] is RecordTally {
                assert(records_tally(reqs));
            }
        }
        assert(!records_tally(reqs.drop_first())) by {
            if records_tally(reqs.drop_first()) {
                let i = choose|i: int| 0 <= i < reqs.drop_first().len() && #[trigger] reqs.drop_first()[i] is RecordTally;
                assert(reqs[i + 1] is RecordTally);
            }
        }
        lemma_results_outlive_votes(s.apply(reqs[0]), reqs.drop_first());
    }
}

/// What a read gives back of a write: after a tally is recorded, the results
/// are its counts until the next tally, whatever else is requested.
pub proof fn lemma_results_are_latest_tally(s: ElectionState, counts: Seq<EncryptedCount>, reqs: Seq<Request>)
    requires
        !records_tally(reqs),
    ensures
        s.record_tally(counts).apply_all(reqs).counts == Some(counts),
{
    lemma_results_outlive_votes(s.record_tally(counts), reqs);
}

/// A tally keeps the ballots that arrive while it computes: if the election is
/// open when the ballots are copied, and the requests that come before the
/// counts are recorded record no other tally, then afterwards the key is the
/// same, the ballots are the copied ones followed by every ballot cast in the
/// meantime, and the results are the recorded counts.
pub proof fn lemma_tally_keeps_late_ballots(s: ElectionState, reqs: Seq<Request>, counts: Seq<EncryptedCount>)
    requires
        s.is_open(),
        !records_tally(reqs),
    ensures
        s.apply_all(reqs).record_tally(counts).server_key == s.server_key,
        s.apply_all(reqs).record_tally(counts).ballots == s.ballots + ballots_cast(reqs),
        s.apply_all(reqs).record_tally(counts).counts == Some(counts),
{
    let key = s.server_key->0;
    lemma_key_is_permanent(s, reqs, key);
    lemma_open_election_keeps_every_ballot(s, reqs);
}

/// The election's history under any requests: a key, once set, never changes;
/// the ballots only grow at their end (those held before stay, in order); and
/// results, once recorded, never disappear, and stay the same unless a tally
/// is recorded.
pub proof fn lemma_election_history(s: ElectionState, reqs: Seq<Request>)
    ensures
        s.server_key is Some ==> s.apply_all(reqs).server_key == s.server_key,
        s.ballots.len() <= s.apply_all(reqs).ballots.len(),
        s.apply_all(reqs).ballots.subrange(0, s.ballots.len() as int) == s.ballots,
        s.counts is Some ==> s.apply_all(reqs).counts is Some,
        !records_tally(reqs) ==> s.apply_all(reqs).counts == s.counts,
    decreases reqs.len(),
{
    if s.server_key is Some {
        lemma_key_is_permanent(s, reqs, s.server_key->0);
    }
    if !records_tally(reqs) {
        lemma_results_outlive_votes(s, reqs);
    }
    if reqs.len() > 0 {
        let next = s.apply(reqs[0]);
        lemma_election_history(next, reqs.drop_first());
        assert(next.ballots.subrange(0, s.ballots.len() as int) =~= s.ballots);
        let last = s.apply_all(reqs);
        assert(last == next.apply_all(reqs.drop_first()));
        assert(last.ballots.subrange(0, s.ballots.len() as int) =~= next.ballots.subrange(0, next.ballots.len() as int).subrange(
            0,
            s.ballots.len() as int,
        ));
    } else {
        assert(s.ballots.subrange(0, s.ballots.len() as int) =~= s.ballots);
    }
}

/// The work of `POST /tally` between `prepare_tally` and `finish_tally`: the
/// counts of the copied ballots, and how many ballots they count (what the
/// summary reports). The key must be operable and the ballots must fit it, as
/// for `tally`.
pub fn count_prepared(server_key: &tfhe::ServerKey, ballots: &[Ballot]) -> (r: (Vec<EncryptedCount>, usize))
    requires
        operable_key(*server_key),
        forall|i: int| 0 <= i < ballots@.len() ==> choice_fits(*server_key, #[trigger] ballots@[i].encrypted_choice),
    ensures
        tally_result(*server_key, ballots@, trivial_count(*server_key, 0), r.0@),
        r.0@.len() == NUM_CANDIDATES,
        r.1 == ballots@.len(),
{
    let counts = tally(server_key, ballots);
    (counts, ballots.len())
}

impl Election {
    /// An election with no key, no ballots and no tally.
    pub fn new() -> (r: Election)
        ensures
            r@ == ElectionState::initial(),
    {
        let r = Election { server_key: None, ballots: Vec::new(), counts: None };
        assert(r@.ballots =~= Seq::<Ballot>::empty());
        r
    }

    /// `POST /keys`, given what decoding and decompressing the body gave: a
    /// body that did not decode is answered by its error (400 for a decoding
    /// error) before the key check, and changes nothing; a key is taken as by
    /// `upload_key`.
    pub fn receive_key(&mut self, decoded: Result<tfhe::ServerKey, AppError>) -> (r: Result<u16, ApiError>)
        ensures
            match decoded {
                Err(e) => final(self)@ == old(self)@ && (r matches Err(x) && x@ == (ApiError::spec_status_of(e), e.spec_text())),
                Ok(key) => (final(self)@, outcome_view(r)) == old(self)@.upload_key(key),
            },
    {
        match decoded {
            Err(e) => Err(ApiError::from(e)),
            Ok(key) => self.upload_key(key),
        }
    }

    /// `POST /ballots` with the request body: a body that holds no ballot is
    /// answered 400, before the election is checked, and changes nothing; a
    /// ballot is taken as by `cast_ballot`.
    pub fn receive_ballot(&mut self, body: &[u8]) -> (r: Result<u16, ApiError>)
        ensures
            match decoded_ballot(body@) {
                None => final(self)@ == old(self)@ && (r matches Err(x) && x@.0 == STATUS_BAD_REQUEST),
                Some(b) => (final(self)@, outcome_view(r)) == old(self)@.cast_ballot(b),
            },
    {
        match ballot_from_bytes(body) {
            Err(e) => Err(ApiError::from(e)),
            Ok(ballot) => self.cast_ballot(ballot),
        }
    }

    /// `POST /keys`, once the body has been decoded to a server key: opens the
    /// election (201), or refuses a second key (409).
    pub fn upload_key(&mut self, server_key: tfhe::ServerKey) -> (r: Result<u16, ApiError>)
        ensures
            (final(self)@, outcome_view(r)) == old(self)@.upload_key(server_key),
    {
        if self.server_key.is_some() {
            return Err(ApiError::new(STATUS_CONFLICT, "election already has a server key"));
        }
        self.server_key = Some(server_key);
        Ok(STATUS_CREATED)
    }

    /// `POST /ballots`, once the body has been decoded to a ballot: stores the
    /// ballot (201), or refuses it while the election is not open (409).
    pub fn cast_ballot(&mut self, ballot: Ballot) -> (r: Result<u16, ApiError>)
        ensures
            (final(self)@, outcome_view(r)) == old(self)@.cast_ballot(ballot),
    {
        if self.server_key.is_none() {
            return Err(not_open());
        }
        self.ballots.push(ballot);
        Ok(STATUS_CREATED)
    }

    /// The start of `POST /tally`: a copy of the server key and of the ballots
    /// received so far, so that the count can run without holding the
    /// election; or 409 while the election is not open.
    pub fn prepare_tally(&self) -> (r: Result<(tfhe::ServerKey, Vec<Ballot>), ApiError>)
        ensures
            match self@.server_key {
                Some(key) => r matches Ok((k, b)) && k == key && b@ == self@.ballots,
                None => r matches Err(e) && e@ == spec_not_open(),
            },
    {
        match &self.server_key {
            None => Err(not_open()),
            Some(key) => {
                let key = clone_server_key(key);
                let mut ballots: Vec<Ballot> = Vec::new();
                let mut i: usize = 0;
                while i < self.ballots.len()
                    invariant
                        i <= self.ballots@.len(),
                        ballots@ == self.ballots@.take(i as int),
                    decreases self.ballots@.len() - i,
                {
                    let b = Ballot { encrypted_choice: clone_choice(&self.ballots[i].encrypted_choice) };
                    ballots.push(b);
                    assert(ballots@ =~= self.ballots@.take(i + 1));
                    i = i + 1;
                }
                assert(self.ballots@.take(self.ballots@.len() as int) =~= self.ballots@);
                Ok((key, ballots))
            },
        }
    }

    /// The end of `POST /tally`: keeps `counts` as the latest result and
    /// answers "tallied N ballots", N being the number of ballots counted.
    pub fn finish_tally(&mut self, counts: Vec<EncryptedCount>, num_ballots: usize) -> (r: String)
        ensures
            final(self)@ == old(self)@.record_tally(counts@),
            r@ == spec_tally_summary(num_ballots as nat),
    {
        self.counts = Some(counts);
        tally_summary(num_ballots)
    }

    /// How many ballots the election holds.
    pub fn ballot_count(&self) -> (r: usize)
        ensures
            r == self@.ballots.len(),
    {
        self.ballots.len()
    }

    /// `GET /results`: the counts of the latest tally, or 404 before any.
    pub fn results(&self) -> (r: Result<&Vec<EncryptedCount>, ApiError>)
        ensures
            match self@.counts {
                Some(c) => r matches Ok(v) && v@ == c,
                None => r matches Err(e) && e@ == spec_no_tally(),
            },
    {
        match &self.counts {
            Some(c) => Ok(c),
            None => Err(ApiError::new(STATUS_NOT_FOUND, "no tally has been run yet")),
        }
    }
}

impl Default for Election {
    fn default() -> (r: Election)
        ensures
            r@ == ElectionState::initial(),
    {
        Election::new()
    }
}

} // verus!
