use vstd::prelude::*;
use vstd::string::*;
use crate::errors::AppError;
use crate::fhe::{
    choice_fits, is_encryption_of, is_server_key_of, sound_client_key, tfhe_error_text, try_encrypt_choice,
    EncryptedChoice,
};

verus! {

/// The candidates of the election; a ballot encrypts the id of one of them.
#[derive(Clone, Copy, Debug, PartialEq, Eq, Structural)]
pub enum Candidate {
    Alice,
    Bob,
}

/// How many candidates stand in the election.
pub const NUM_CANDIDATES: usize = 2;

/// Every candidate, in the order of their ids.
pub const ALL_CANDIDATES: [Candidate; NUM_CANDIDATES] = [Candidate::Alice, Candidate::Bob];

impl Candidate {
    /// The number that a ballot for this candidate encrypts.
    pub open spec fn spec_id(self) -> u8 {
        match self {
            Candidate::Alice => 0,
            Candidate::Bob => 1,
        }
    }

    /// The candidate's id: its position among `ALL_CANDIDATES`.
    pub fn id(self) -> (r: u8)
        ensures
            r == self.spec_id(),
    {
        match self {
            Candidate::Alice => 0,
            Candidate::Bob => 1,
        }
    }

    /// The candidate's name as it is shown.
    pub open spec fn spec_name(self) -> Seq<char> {
        match self {
            Candidate::Alice => "Alice"@,
            Candidate::Bob => "Bob"@,
        }
    }

    /// The candidate's name as it is shown (as `Debug` writes it).
    pub fn name(self) -> (r: &'static str)
        ensures
            r@ == self.spec_name(),
    {
        match self {
            Candidate::Alice => "Alice",
            Candidate::Bob => "Bob",
        }
    }

    /// The candidate whose id is `id`, if any.
    pub open spec fn spec_from_id(id: u8) -> Option<Candidate> {
        if id == 0 {
            Some(Candidate::Alice)
        } else if id == 1 {
            Some(Candidate::Bob)
        } else {
            None
        }
    }

    /// The candidate whose id is `id`, or `None` where no candidate has it.
    pub fn from_id(id: u8) -> (r: Option<Candidate>)
        ensures
            r == Self::spec_from_id(id),
    {
        if id == 0 {
            Some(Candidate::Alice)
        } else if id == 1 {
            Some(Candidate::Bob)
        } else {
            None
        }
    }

    /// The candidate that `s` names: "alice" or "bob", in any mix of ASCII
    /// upper and lower case.
    pub open spec fn spec_parse(s: Seq<char>) -> Option<Candidate> {
        if lowercase_matches(s, "alice"@) {
            Some(Candidate::Alice)
        } else if lowercase_matches(s, "bob"@) {
            Some(Candidate::Bob)
        } else {
            None
        }
    }

    /// Reads a candidate's name, as `FromStr` does: "alice" or "bob", ignoring
    /// ASCII case; any other text is refused.
    pub fn parse(s: &str) -> (r: Result<Candidate, ParseCandidateError>)
        ensures
            r == match Self::spec_parse(s@) {
                Some(c) => Ok::<Candidate, ParseCandidateError>(c),
                None => Err(ParseCandidateError),
            },
    {
        if lowercase_equals(s, "alice") {
            Ok(Candidate::Alice)
        } else if lowercase_equals(s, "bob") {
            Ok(Candidate::Bob)
        } else {
            Err(ParseCandidateError)
        }
    }
}


/// The code of `c` after ASCII lower-casing, as `to_ascii_lowercase` maps it:
/// 'A'..='Z' move to 'a'..='z', every other character stays.
pub open spec fn lower_code(c: char) -> int {
    if 65 <= c as int <= 90 {
        c as int + 32
    } else {
        c as int
    }
}

/// `s`, ASCII-lower-cased, is `word`.
pub open spec fn lowercase_matches(s: Seq<char>, word: Seq<char>) -> bool {
    &&& s.len() == word.len()
    &&& forall|i: int| 0 <= i < s.len() ==> lower_code(#[trigger] s[i]) == word[i] as int
}

fn lowercase_equals(s: &str, word: &str) -> (r: bool)
    ensures
        r == lowercase_matches(s@, word@),
{
    let n = s.unicode_len();
    let m = word.unicode_len();
    if n != m {
        return false;
    }
    let mut i: usize = 0;
    while i < n
        invariant
            n == s@.len(),
            m == word@.len(),
            n == m,
            i <= n,
            forall|j: int| 0 <= j < i ==> lower_code(#[trigger] s@[j]) == word@[j] as int,
        decreases n - i,
    {
        let c = s.get_char(i);
        let w = word.get_char(i);
        let code: u32 = c as u32;
        let lowered: u32 = if 65 <= code && code <= 90 {
            code + 32
        } else {
            code
        };
        if lowered != w as u32 {
            return false;
        }
        i = i + 1;
    }
    true
}

/// `ALL_CANDIDATES` lists the candidates by id: the one at position `i` has id
/// `i`.
pub proof fn lemma_all_candidates_in_id_order()
    ensures
        ALL_CANDIDATES@.len() == NUM_CANDIDATES,
        forall|i: int| 0 <= i < NUM_CANDIDATES ==> #[trigger] ALL_CANDIDATES@[i].spec_id() == i,
{
    assert(ALL_CANDIDATES@[0] == Candidate::Alice);
    assert(ALL_CANDIDATES@[1] == Candidate::Bob);
}

/// A candidate's id leads back to the candidate.
pub proof fn lemma_id_identifies_candidate(c: Candidate)
    ensures
        Candidate::spec_from_id(c.spec_id()) == Some(c),
        c.spec_id() < NUM_CANDIDATES,
{
}

/// The name that the results show reads back as the same candidate, so a
/// voter can vote by the name printed.
pub proof fn lemma_shown_name_parses_back(c: Candidate)
    ensures
        Candidate::spec_parse(c.spec_name()) == Some(c),
{
    reveal_strlit("Alice");
    reveal_strlit("alice");
    reveal_strlit("Bob");
    reveal_strlit("bob");
    assert(lower_code('A') == 'a' as int);
    assert(lower_code('B') == 'b' as int);
    if c == Candidate::Bob {
        assert(!lowercase_matches(c.spec_name(), "alice"@));
    }
}

/// The error of reading a text that names no candidate.
#[derive(Debug)]
pub struct ParseCandidateError;

impl std::str::FromStr for Candidate {
    type Err = ParseCandidateError;

    fn from_str(s: &str) -> (r: Result<Self, Self::Err>)
        ensures
            r == match Candidate::spec_parse(s@) {
                Some(c) => Ok::<Candidate, ParseCandidateError>(c),
                None => Err(ParseCandidateError),
            },
    {
        Candidate::parse(s)
    }
}

/// One voter's encrypted choice: the id of a candidate, encrypted under the
/// voter's client key.
pub struct Ballot {
    pub encrypted_choice: EncryptedChoice,
}

impl Ballot {
    /// Encrypts the id of `choice` under `client_key`, which must be sound (a
    /// degenerate key makes `tfhe` panic): the ballot is an encryption of the
    /// id, and fits every server key of `client_key`. `tfhe` in this version
    /// never refuses, and neither does this function.
    pub fn try_new(choice: Candidate, client_key: &tfhe::ClientKey) -> (r: Result<Ballot, AppError>)
        requires
            sound_client_key(*client_key),
        ensures
            r matches Ok(b) && is_encryption_of(*client_key, choice.spec_id(), b.encrypted_choice),
            r matches Ok(b) ==> forall|sk: tfhe::ServerKey|
                is_server_key_of(*client_key, sk) ==> choice_fits(sk, b.encrypted_choice),
    {
        match try_encrypt_choice(choice.id(), client_key) {
            Ok(encrypted_choice) => Ok(Ballot { encrypted_choice }),
            Err(e) => Err(AppError::Tfhe(tfhe_error_text(&e))),
        }
    }
}

} // verus!
