//! Validation of email addresses (the `addr-spec` form, without folding white space, comments
//! or obsolete forms) by a deterministic finite automaton.
//!
//! The automaton lives in [`fsm`]; [`Email`] is an address that the automaton has accepted,
//! split at its first `@` into local part and domain.

/// The automaton: its states, character classes, transition function and driver.
pub mod fsm;

use crate::fsm::{accepts, lemma_past_separator_has_at, Machine, State, FSM};
use vstd::prelude::*;
use vstd::string::StrSliceExecFns;
use vstd::string::StringExecFns;

verus! {

/// Why a string is not an email address.
#[derive(Clone, Copy, Debug, PartialEq, Eq, Structural)]
pub enum Error {
    /// The string is empty.
    EmptyEmail,
    /// The automaton does not accept the string.
    InvalidEmail,
}

/// An email address that the automaton has accepted, held as its local part and its domain.
/// The only way to make one is [`Email::from_str`].
pub struct Email {
    local: String,
    domain: String,
}

impl View for Email {
    /// The local part and the domain.
    type V = (Seq<char>, Seq<char>);

    closed spec fn view(&self) -> (Seq<char>, Seq<char>) {
        (self.local@, self.domain@)
    }
}

/// `input` is `local`, an `@` and `domain`, where `@` is the first `@` of `input`.
pub open spec fn split_at_first_at(input: Seq<char>, local: Seq<char>, domain: Seq<char>) -> bool {
    input == local + seq!['@'] + domain && !local.contains('@')
}

/// What validating `input` gives: the address split at its first `@` when the automaton
/// accepts it, else the error that says why not.
pub open spec fn validated(input: Seq<char>, r: Result<Email, Error>) -> bool {
    match r {
        Ok(e) => accepts(input) && split_at_first_at(input, e@.0, e@.1),
        Err(Error::EmptyEmail) => input.len() == 0,
        Err(Error::InvalidEmail) => input.len() > 0 && !accepts(input),
    }
}

/// The position of the first `@` in `s`.
fn first_at(s: &str) -> (r: usize)
    requires
        s@.contains('@'),
    ensures
        r < s@.len(),
        s@[r as int] == '@',
        !s@.take(r as int).contains('@'),
{
    let n: usize = s.unicode_len();
    let mut i: usize = 0;
    for c in it: s.chars()
        invariant
            n == s@.len(),
            it.seq() == s@,
            i == it.index(),
            s@.contains('@'),
            forall|j: int| 0 <= j < i ==> s@[j] != '@',
    {
        if c == '@' {
            assert(!s@.take(i as int).contains('@'));
            return i;
        }
        i += 1;
    }
    i
}

impl Email {
    /// The two parts joined by `@` form an accepted address whose first `@` is that one.
    #[verifier::type_invariant]
    spec fn inv(&self) -> bool {
        let joined = self.local@ + seq!['@'] + self.domain@;
        accepts(joined) && split_at_first_at(joined, self.local@, self.domain@)
    }

    /// Validates `s` and splits it at its first `@` into local part and domain.
    pub fn from_str(s: &str) -> (r: Result<Email, Error>)
        ensures
            validated(s@, r),
            r is Ok <==> accepts(s@),
            r == Err::<Email, Error>(Error::EmptyEmail) <==> s@.len() == 0,
            r == Err::<Email, Error>(Error::InvalidEmail) <==> (s@.len() > 0 && !accepts(s@)),
    {
        let m = Machine::new(s);
        let last = m.into_iter().last();
        let state = match last {
            Some(state) => state,
            None => {
                return Err(Error::EmptyEmail);
            },
        };
        if !State::is_final(&state) {
            return Err(Error::InvalidEmail);
        }
        proof {
            lemma_past_separator_has_at(s@);
        }
        let at = first_at(s);
        let n: usize = s.unicode_len();
        let local = s.substring_char(0, at).to_owned();
        let domain = s.substring_char(at + 1, n).to_owned();
        proof {
            assert(s@ =~= local@ + seq!['@'] + domain@);
        }
        Ok(Email { local, domain })
    }

    /// The local part: what comes before the first `@`.
    pub fn local(&self) -> (r: &str)
        ensures
            r@ == self@.0,
    {
        self.local.as_str()
    }

    /// The domain: what comes after the first `@`.
    pub fn domain(&self) -> (r: &str)
        ensures
            r@ == self@.1,
    {
        self.domain.as_str()
    }

    /// The address as text: local part, `@`, domain and a line feed.
    pub fn to_string(&self) -> (r: String)
        ensures
            r@ == self@.0 + seq!['@'] + self@.1 + seq!['\n'],
            validated(r@.drop_last(), Ok(*self)),
    {
        proof {
            use_type_invariant(self);
        }
        let mut r = String::from_str(self.local.as_str());
        let at = "@";
        let nl = "\n";
        proof {
            reveal_strlit("@");
            reveal_strlit("\n");
        }
        r.append(at);
        r.append(self.domain.as_str());
        r.append(nl);
        assert(r@.drop_last() =~= self@.0 + seq!['@'] + self@.1);
        r
    }
}

/// There is only one way to split an input at its first `@`.
pub proof fn lemma_split_unique(
    input: Seq<char>,
    local1: Seq<char>,
    domain1: Seq<char>,
    local2: Seq<char>,
    domain2: Seq<char>,
)
    requires
        split_at_first_at(input, local1, domain1),
        split_at_first_at(input, local2, domain2),
    ensures
        local1 == local2,
        domain1 == domain2,
{
    if local1.len() < local2.len() {
        assert(input[local1.len() as int] == '@');
        assert(local2[local1.len() as int] == '@');
    } else if local2.len() < local1.len() {
        assert(input[local2.len() as int] == '@');
        assert(local1[local2.len() as int] == '@');
    } else {
        let k = local1.len() as int;
        assert(local1 =~= input.take(k));
        assert(local2 =~= input.take(k));
        assert(domain1 =~= input.skip(k + 1));
        assert(domain2 =~= input.skip(k + 1));
    }
}

/// Validation is a function of its input: validating the same string twice gives the same
/// verdict, and on success the same local part and domain.
pub proof fn lemma_validation_deterministic(
    input: Seq<char>,
    r1: Result<Email, Error>,
    r2: Result<Email, Error>,
)
    requires
        validated(input, r1),
        validated(input, r2),
    ensures
        r1 is Ok <==> r2 is Ok,
        r1 is Err ==> r1 == r2,
        r1 is Ok ==> r1->Ok_0@ == r2->Ok_0@,
{
    if let (Ok(e1), Ok(e2)) = (r1, r2) {
        lemma_split_unique(input, e1@.0, e1@.1, e2@.0, e2@.1);
    }
}

/// Joining the local part and the domain of a validated address with `@` gives a string that
/// validates again, to the same local part and domain.
pub proof fn lemma_round_trip(input: Seq<char>, e: Email)
    requires
        validated(input, Ok(e)),
    ensures
        validated(e@.0 + seq!['@'] + e@.1, Ok(e)),
        accepts(e@.0 + seq!['@'] + e@.1),
{
}

/// Parsing with `str::parse` is [`Email::from_str`].
impl std::str::FromStr for Email {
    type Err = Error;

    fn from_str(s: &str) -> Result<Email, Error> {
        Email::from_str(s)
    }
}

} // verus!
