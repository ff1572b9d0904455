//! The texts that the election shows: numbers in decimal, the tally summary and
//! the result lines.
use vstd::prelude::*;
use vstd::string::*;
use crate::election::{Candidate, NUM_CANDIDATES};
use crate::fhe::{count_fits, decrypt_count, decrypted_count, is_server_key_of, sound_client_key, EncryptedCount};

verus! {

/// The character of a decimal digit.
pub open spec fn digit_char(d: nat) -> char {
    if d == 0 { '0' }
    else if d == 1 { '1' }
    else if d == 2 { '2' }
    else if d == 3 { '3' }
    else if d == 4 { '4' }
    else if d == 5 { '5' }
    else if d == 6 { '6' }
    else if d == 7 { '7' }
    else if d == 8 { '8' }
    else { '9' }
}

/// `n` written in decimal, without leading zeros.
pub open spec fn decimal(n: nat) -> Seq<char>
    decreases n,
{
    if n < 10 {
        seq![digit_char(n)]
    } else {
        decimal(n / 10) + seq![digit_char(n % 10)]
    }
}

fn digit_str(d: u64) -> (r: &'static str)
    requires
        d < 10,
    ensures
        r@ == seq![digit_char(d as nat)],
{
    proof {
        reveal_strlit("0");
        reveal_strlit("1");
        reveal_strlit("2");
        reveal_strlit("3");
        reveal_strlit("4");
        reveal_strlit("5");
        reveal_strlit("6");
        reveal_strlit("7");
        reveal_strlit("8");
        reveal_strlit("9");
    }
    match d {
        0 => "0",
        1 => "1",
        2 => "2",
        3 => "3",
        4 => "4",
        5 => "5",
        6 => "6",
        7 => "7",
        8 => "8",
        _ => "9",
    }
}

/// Appends `n` in decimal to `s`.
pub fn append_decimal(s: &mut String, n: u64)
    ensures
        final(s)@ == old(s)@ + decimal(n as nat),
    decreases n,
{
    if n >= 10 {
        append_decimal(s, n / 10);
    }
    let d = digit_str(n % 10);
    s.append(d);
    assert(old(s)@ + decimal(n as nat) =~= if n >= 10 {
        old(s)@ + decimal((n / 10) as nat) + seq![digit_char((n % 10) as nat)]
    } else {
        old(s)@ + seq![digit_char((n % 10) as nat)]
    });
}

/// `n` in decimal.
pub fn decimal_string(n: u64) -> (r: String)
    ensures
        r@ == decimal(n as nat),
{
    let mut s = String::new();
    append_decimal(&mut s, n);
    assert(s@ =~= decimal(n as nat));
    s
}

/// The text that reports a tally: "tallied N ballots".
pub open spec fn spec_tally_summary(num_ballots: nat) -> Seq<char> {
    "tallied "@ + decimal(num_ballots) + " ballots"@
}

/// The text that reports a tally of `num_ballots` ballots.
pub fn tally_summary(num_ballots: usize) -> (r: String)
    ensures
        r@ == spec_tally_summary(num_ballots as nat),
{
    let mut s = String::from_str("tallied ");
    append_decimal(&mut s, num_ballots as u64);
    s.append(" ballots");
    s
}

/// The line that shows a candidate's result: "Name: N votes".
pub open spec fn spec_result_line(candidate: Candidate, count: nat) -> Seq<char> {
    candidate.spec_name() + ": "@ + decimal(count) + " votes"@
}

/// The line that shows `count` votes for `candidate`.
pub fn result_line(candidate: Candidate, count: u32) -> (r: String)
    ensures
        r@ == spec_result_line(candidate, count as nat),
{
    let mut s = String::from_str(candidate.name());
    s.append(": ");
    append_decimal(&mut s, count as u64);
    s.append(" votes");
    s
}

/// The result lines for the counts of a tally: for each candidate in id order,
/// its name and the count that decryption under `client_key` gives. The client
/// key must be sound, and the counts must fit a server key of it: on others
/// decryption panics.
pub fn result_lines(counts: &Vec<EncryptedCount>, client_key: &tfhe::ClientKey) -> (r: Vec<String>)
    requires
        counts@.len() >= NUM_CANDIDATES,
        sound_client_key(*client_key),
        exists|sk: tfhe::ServerKey|
            is_server_key_of(*client_key, sk) && forall|i: int| 0 <= i < NUM_CANDIDATES ==> count_fits(sk, #[trigger] counts@[i]),
    ensures
        r@.len() == NUM_CANDIDATES,
        forall|i: int|
            0 <= i < NUM_CANDIDATES ==> #[trigger] r@[i]@ == spec_result_line(
                Candidate::spec_from_id(i as u8).unwrap(),
                decrypted_count(*client_key, counts@[i]) as nat,
            ),
{
    let mut lines: Vec<String> = Vec::new();
    let mut id: u8 = 0;
    while (id as usize) < NUM_CANDIDATES
        invariant
            id <= NUM_CANDIDATES,
            counts@.len() >= NUM_CANDIDATES,
            sound_client_key(*client_key),
            exists|sk: tfhe::ServerKey|
                is_server_key_of(*client_key, sk) && forall|i: int| 0 <= i < NUM_CANDIDATES ==> count_fits(sk, #[trigger] counts@[i]),
            lines@.len() == id,
            forall|i: int|
                0 <= i < id ==> #[trigger] lines@[i]@ == spec_result_line(
                    Candidate::spec_from_id(i as u8).unwrap(),
                    decrypted_count(*client_key, counts@[i]) as nat,
                ),
        decreases NUM_CANDIDATES - id,
    {
        let candidate = match Candidate::from_id(id) {
            Some(c) => c,
            None => Candidate::Alice,
        };
        let count = decrypt_count(&counts[id as usize], client_key);
        lines.push(result_line(candidate, count));
        id = id + 1;
    }
    lines
}

/// `s` is a decimal numeral: one or more digits '0'..'9', with no leading zero
/// unless it is the single digit '0'.
pub open spec fn is_numeral(s: Seq<char>) -> bool {
    &&& s.len() > 0
    &&& forall|i: int| 0 <= i < s.len() ==> '0' <= #[trigger] s[i] <= '9'
    &&& s.len() > 1 ==> s[0] != '0'
}

/// The number that the digits `s` stand for in base 10, the last digit being
/// the units.
pub open spec fn value_of_digits(s: Seq<char>) -> int
    decreases s.len(),
{
    if s.len() == 0 {
        0
    } else {
        value_of_digits(s.drop_last()) * 10 + (s.last() as int - '0' as int)
    }
}

/// The text written for a number is its base-10 numeral: the digits of
/// `decimal(n)` have no leading zero and read back in base 10 as `n`.
pub proof fn lemma_decimal_reads_back(n: nat)
    ensures
        is_numeral(decimal(n)),
        value_of_digits(decimal(n)) == n,
    decreases n,
{
    if n < 10 {
        let s = decimal(n);
        assert(s.drop_last() =~= Seq::<char>::empty());
        assert(value_of_digits(s.drop_last()) == 0);
    } else {
        let q = n / 10;
        let r = n % 10;
        lemma_decimal_reads_back(q as nat);
        let p = decimal(q as nat);
        let s = decimal(n);
        assert(s == p + seq![digit_char(r as nat)]);
        assert(s.drop_last() =~= p);
        assert(s.last() == digit_char(r as nat));
        assert(digit_char(r as nat) as int - '0' as int == r);
        assert(q * 10 + r == n) by (nonlinear_arith)
            requires
                q == n / 10,
                r == n % 10,
        ;
        assert(q > 0);
        assert(p.len() > 1 ==> p[0] != '0');
        assert(p.len() == 1 ==> p[0] != '0') by {
            if p.len() == 1 && p[0] == '0' {
                assert(value_of_digits(p) == value_of_digits(p.drop_last()) * 10 + 0);
                assert(p.drop_last() =~= Seq::<char>::empty());
            }
        }
        assert(s[0] == p[0]);
        assert forall|i: int| 0 <= i < s.len() implies '0' <= #[trigger] s[i] <= '9' by {
            if i < p.len() {
                assert(s[i] == p[i]);
            }
        }
    }
}

/// The summary of a tally states how many ballots were counted: it is
/// "tallied ", a numeral that reads back as `num_ballots`, and " ballots".
pub proof fn lemma_tally_summary_reports_count(num_ballots: nat)
    ensures
        ({
            let text = spec_tally_summary(num_ballots);
            let digits = text.subrange(8, text.len() - 8);
            &&& text.len() > 16
            &&& text.subrange(0, 8) == "tallied "@
            &&& text.subrange(text.len() - 8, text.len() as int) == " ballots"@
            &&& is_numeral(digits)
            &&& value_of_digits(digits) == num_ballots
        }),
{
    reveal_strlit("tallied ");
    reveal_strlit(" ballots");
    lemma_decimal_reads_back(num_ballots);
    let d = decimal(num_ballots);
    let text = spec_tally_summary(num_ballots);
    assert(text.subrange(0, 8) =~= "tallied "@);
    assert(text.subrange(text.len() - 8, text.len() as int) =~= " ballots"@);
    assert(text.subrange(8, text.len() - 8) =~= d);
}

/// A result line shows the candidate's name, ": ", a numeral that reads back as
/// the count itself, and " votes".
pub proof fn lemma_result_line_shows_count(candidate: Candidate, count: nat)
    ensures
        ({
            let line = spec_result_line(candidate, count);
            let k: int = candidate.spec_name().len() as int;
            let digits = line.subrange(k + 2, line.len() - 6);
            &&& line.len() > k + 8
            &&& line.subrange(0, k) == candidate.spec_name()
            &&& line.subrange(k, k + 2) == ": "@
            &&& line.subrange(line.len() - 6, line.len() as int) == " votes"@
            &&& is_numeral(digits)
            &&& value_of_digits(digits) == count
        }),
{
    reveal_strlit(": ");
    reveal_strlit(" votes");
    lemma_decimal_reads_back(count);
    let name = candidate.spec_name();
    let k: int = name.len() as int;
    let d = decimal(count);
    let line = spec_result_line(candidate, count);
    assert(line.subrange(0, k) =~= name);
    assert(line.subrange(k, k + 2) =~= ": "@);
    assert(line.subrange(line.len() - 6, line.len() as int) =~= " votes"@);
    assert(line.subrange(k + 2, line.len() - 6) =~= d);
}

} // verus!
