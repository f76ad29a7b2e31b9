//! A deterministic finite automaton whose language is the set of valid email addresses.
use vstd::prelude::*;

verus! {

/// A deterministic finite automaton over states `S`. It has a start state, a transition
/// function that consumes one symbol, and a set of final (accepting) states. An input is in
/// the automaton's language when, consumed whole from the start state, it ends in a final state.
pub trait FSM<S>: Sized {
    type Symbol;

    /// The state reached from `state` on `symbol`.
    spec fn spec_transition(state: S, symbol: Self::Symbol) -> S;

    /// Whether `state` is accepting.
    spec fn spec_is_final(state: S) -> bool;

    /// The start state.
    spec fn spec_start() -> S;

    fn transition(state: S, symbol: Self::Symbol) -> (r: S)
        ensures
            r == Self::spec_transition(state, symbol),
    ;

    fn is_final(state: &S) -> (r: bool)
        ensures
            r == Self::spec_is_final(*state),
    ;

    fn start() -> (r: S)
        ensures
            r == Self::spec_start(),
    ;
}

/// The states of the automaton. [`State::Error`] is a dead (trap) state.
#[derive(Clone, Copy, Debug, PartialEq, Eq, Structural)]
pub enum State {
    AddrSpec,
    LocalAtom,
    LocalQText,
    LocalDot,
    LocalEscape,
    LocalQString,
    LocalPart,
    DomainAtom,
    DomainDText,
    DomainDot,
    DomainLiteral,
    Error,
}

/// `ATEXT`: letters, digits and ``! # $ % & ' * + - / = ? ^ _ ` { | } ~``.
pub open spec fn spec_is_atext(c: char) -> bool {
    ||| 'A' <= c <= 'Z'
    ||| 'a' <= c <= 'z'
    ||| '0' <= c <= '9'
    ||| c == '!' || c == '#' || c == '$' || c == '%' || c == '&' || c == '\''
    ||| c == '*' || c == '+' || c == '-' || c == '/' || c == '=' || c == '?'
    ||| c == '^' || c == '_' || c == '`' || c == '{' || c == '|' || c == '}' || c == '~'
}

/// `QTEXT`: code points 33, 35 to 91 and 93 to 126; printable ASCII without `"` and `\\`.
pub open spec fn spec_is_qtext(c: char) -> bool {
    let n: u32 = c as u32;
    n == 33 || (35 <= n && n <= 91) || (93 <= n && n <= 126)
}

/// `DTEXT`: code points 33 to 90 and 94 to 126; printable ASCII without `[`, `\\` and `]`.
pub open spec fn spec_is_dtext(c: char) -> bool {
    let n: u32 = c as u32;
    (33 <= n && n <= 90) || (94 <= n && n <= 126)
}

/// `ESCAPE`: a visible character (33 to 126), a space or a horizontal tab.
pub open spec fn spec_is_escape(c: char) -> bool {
    let n: u32 = c as u32;
    (33 <= n && n <= 126) || n == 32 || n == 9
}

/// The transition table of the address automaton. Each state tries its rules in order;
/// a symbol that no rule admits leads to [`State::Error`].
pub open spec fn next_state(state: State, c: char) -> State {
    match state {
        State::AddrSpec => if c == '"' {
            State::LocalQText
        } else if spec_is_atext(c) {
            State::LocalAtom
        } else {
            State::Error
        },
        State::LocalAtom => if c == '.' {
            State::LocalDot
        } else if c == '@' {
            State::LocalPart
        } else if spec_is_atext(c) {
            State::LocalAtom
        } else {
            State::Error
        },
        State::LocalQText => if c == '\\' {
            State::LocalEscape
        } else if c == '"' {
            State::LocalQString
        } else if spec_is_qtext(c) {
            State::LocalQText
        } else {
            State::Error
        },
        State::LocalDot => if spec_is_atext(c) {
            State::LocalAtom
        } else {
            State::Error
        },
        State::LocalEscape => if spec_is_escape(c) {
            State::LocalQText
        } else {
            State::Error
        },
        State::LocalQString => if c == '@' {
            State::LocalPart
        } else {
            State::Error
        },
        State::LocalPart => if c == '[' {
            State::DomainDText
        } else if spec_is_atext(c) {
            State::DomainAtom
        } else {
            State::Error
        },
        State::DomainAtom => if c == '.' {
            State::DomainDot
        } else if spec_is_atext(c) {
            State::DomainAtom
        } else {
            State::Error
        },
        State::DomainDText => if c == ']' {
            State::DomainLiteral
        } else if spec_is_dtext(c) {
            State::DomainDText
        } else {
            State::Error
        },
        State::DomainDot => if spec_is_atext(c) {
            State::DomainAtom
        } else {
            State::Error
        },
        State::DomainLiteral => State::Error,
        State::Error => State::Error,
    }
}

/// The accepting states: a domain atom, or a closed domain literal.
pub open spec fn accepting(state: State) -> bool {
    state == State::DomainAtom || state == State::DomainLiteral
}

impl State {
    const DQUOTE: char = '"';
    const DOT: char = '.';
    const BACKSLASH: char = '\\';
    const AT: char = '@';
    const OPEN_BRACKET: char = '[';
    const CLOSE_BRACKET: char = ']';

    /// Whether `c` may stand in an atom.
    pub fn is_atext(c: char) -> (r: bool)
        ensures
            r == spec_is_atext(c),
    {
        ('A' <= c && c <= 'Z') || ('a' <= c && c <= 'z') || ('0' <= c && c <= '9') || c == '!'
            || c == '#' || c == '$' || c == '%' || c == '&' || c == '\'' || c == '*' || c == '+'
            || c == '-' || c == '/' || c == '=' || c == '?' || c == '^' || c == '_' || c == '`'
            || c == '{' || c == '|' || c == '}' || c == '~'
    }

    /// Whether `c` may stand unescaped in a quoted string.
    pub fn is_qtext(c: char) -> (r: bool)
        ensures
            r == spec_is_qtext(c),
    {
        let n: u32 = c as u32;
        n == 33 || (35 <= n && n <= 91) || (93 <= n && n <= 126)
    }

    /// Whether `c` may stand in a domain literal.
    pub fn is_dtext(c: char) -> (r: bool)
        ensures
            r == spec_is_dtext(c),
    {
        let n: u32 = c as u32;
        (33 <= n && n <= 90) || (94 <= n && n <= 126)
    }

    /// Whether `c` may follow a backslash in a quoted string.
    pub fn is_escape(c: char) -> (r: bool)
        ensures
            r == spec_is_escape(c),
    {
        let n: u32 = c as u32;
        (0x21 <= n && n <= 0x7E) || n == 0x20 || n == 0x09
    }
}

impl FSM<State> for State {
    type Symbol = char;

    open spec fn spec_transition(state: State, symbol: char) -> State {
        next_state(state, symbol)
    }

    open spec fn spec_is_final(state: State) -> bool {
        accepting(state)
    }

    open spec fn spec_start() -> State {
        State::AddrSpec
    }

    fn transition(state: State, c: char) -> (r: State) {
        match state {
            State::AddrSpec => if c == Self::DQUOTE {
                State::LocalQText
            } else if Self::is_atext(c) {
                State::LocalAtom
            } else {
                State::Error
            },
            State::LocalAtom => if c == Self::DOT {
                State::LocalDot
            } else if c == Self::AT {
                State::LocalPart
            } else if Self::is_atext(c) {
                State::LocalAtom
            } else {
                State::Error
            },
            State::LocalQText => if c == Self::BACKSLASH {
                State::LocalEscape
            } else if c == Self::DQUOTE {
                State::LocalQString
            } else if Self::is_qtext(c) {
                State::LocalQText
            } else {
                State::Error
            },
            State::LocalDot => if Self::is_atext(c) {
                State::LocalAtom
            } else {
                State::Error
            },
            State::LocalEscape => if Self::is_escape(c) {
                State::LocalQText
            } else {
                State::Error
            },
            State::LocalQString => if c == Self::AT {
                State::LocalPart
            } else {
                State::Error
            },
            State::LocalPart => if c == Self::OPEN_BRACKET {
                State::DomainDText
            } else if Self::is_atext(c) {
                State::DomainAtom
            } else {
                State::Error
            },
            State::DomainAtom => if c == Self::DOT {
                State::DomainDot
            } else if Self::is_atext(c) {
                State::DomainAtom
            } else {
                State::Error
            },
            State::DomainDText => if c == Self::CLOSE_BRACKET {
                State::DomainLiteral
            } else if Self::is_dtext(c) {
                State::DomainDText
            } else {
                State::Error
            },
            State::DomainDot => if Self::is_atext(c) {
                State::DomainAtom
            } else {
                State::Error
            },
            State::DomainLiteral => State::Error,
            State::Error => State::Error,
        }
    }

    fn is_final(state: &State) -> (r: bool) {
        match state {
            State::DomainLiteral | State::DomainAtom => true,
            _ => false,
        }
    }

    fn start() -> (r: State) {
        State::AddrSpec
    }
}

/// The state that the automaton reaches from its start state on `input`.
pub open spec fn run(input: Seq<char>) -> State
    decreases input.len(),
{
    if input.len() == 0 {
        State::AddrSpec
    } else {
        next_state(run(input.drop_last()), input.last())
    }
}

/// Whether the automaton accepts `input`.
pub open spec fn accepts(input: Seq<char>) -> bool {
    accepting(run(input))
}

/// [`State::Error`] absorbs every symbol.
pub proof fn lemma_error_absorbs(c: char)
    ensures
        State::spec_transition(State::Error, c) == State::Error,
{
}

/// Once the automaton is in [`State::Error`], no further input leads out of it.
pub proof fn lemma_error_absorbs_input(prefix: Seq<char>, suffix: Seq<char>)
    requires
        run(prefix) == State::Error,
    ensures
        run(prefix + suffix) == State::Error,
    decreases suffix.len(),
{
    if suffix.len() == 0 {
        assert(prefix + suffix =~= prefix);
    } else {
        lemma_error_absorbs_input(prefix, suffix.drop_last());
        assert((prefix + suffix).drop_last() =~= prefix + suffix.drop_last());
    }
}

/// A closed domain literal admits no further symbol.
pub proof fn lemma_domain_literal_is_terminal(c: char)
    ensures
        State::spec_transition(State::DomainLiteral, c) == State::Error,
{
}

/// Any symbol after a closed domain literal makes the whole input rejected, whatever follows.
pub proof fn lemma_domain_literal_then_reject(prefix: Seq<char>, suffix: Seq<char>)
    requires
        run(prefix) == State::DomainLiteral,
        suffix.len() > 0,
    ensures
        run(prefix + suffix) == State::Error,
        !accepts(prefix + suffix),
{
    let first = prefix.push(suffix[0]);
    assert(first.drop_last() =~= prefix);
    assert(first + suffix.drop_first() =~= prefix + suffix);
    lemma_error_absorbs_input(first, suffix.drop_first());
}

/// The accepting states are exactly [`State::DomainAtom`] and [`State::DomainLiteral`].
pub proof fn lemma_accepting_states(state: State)
    ensures
        State::spec_is_final(state) <==> (state == State::DomainAtom || state
            == State::DomainLiteral),
{
}

/// Whether the automaton has consumed the `@` that ends the local part.
pub open spec fn past_separator(state: State) -> bool {
    match state {
        State::LocalPart | State::DomainAtom | State::DomainDText | State::DomainDot
        | State::DomainLiteral => true,
        _ => false,
    }
}

/// An input that reaches the domain states holds an `@`; in particular every accepted one does.
pub proof fn lemma_past_separator_has_at(input: Seq<char>)
    requires
        past_separator(run(input)),
    ensures
        input.contains('@'),
    decreases input.len(),
{
    let prev = input.drop_last();
    if past_separator(run(prev)) {
        lemma_past_separator_has_at(prev);
        let i = choose|i: int| 0 <= i < prev.len() && prev[i] == '@';
        assert(input[i] == '@');
    } else {
        assert(input[input.len() - 1] == '@');
    }
}

/// The input of one run of the automaton.
pub struct Machine<'a> {
    input: &'a str,
}

impl<'a> View for Machine<'a> {
    type V = Seq<char>;

    closed spec fn view(&self) -> Seq<char> {
        self.input@
    }
}

impl<'a> Machine<'a> {
    /// A machine that will run over `s`.
    pub fn new(s: &'a str) -> (r: Self)
        ensures
            r@ == s@,
    {
        Machine { input: s }
    }

    /// The run of the automaton over this machine's input, not yet started.
    pub fn into_iter(self) -> (r: MachineIterator)
        ensures
            r.wf(),
            r.symbols() == self@,
            r.position() == 0,
            r.current() == State::AddrSpec,
            r.current() == run(r.symbols().take(0)),
    {
        let symbols = symbols_of(self.input);
        MachineIterator { symbols, pos: 0, state: State::AddrSpec }
    }
}

/// The characters of `s`, in order.
fn symbols_of(s: &str) -> (r: Vec<char>)
    ensures
        r@ == s@,
{
    let mut r: Vec<char> = Vec::new();
    for c in it: s.chars()
        invariant
            r@ == it.seq().take(it.index() as int),
    {
        r.push(c);
    }
    assert(r@ =~= s@);
    r
}

/// A run of the automaton, one symbol at a time. Each step consumes one symbol and moves to
/// the next state; once the input is used up no state is produced. An invalid symbol leads to
/// [`State::Error`], which the run never leaves, so a run's verdict is its last state.
pub struct MachineIterator {
    symbols: Vec<char>,
    pos: usize,
    state: State,
}

impl MachineIterator {
    /// The whole input of the run.
    pub closed spec fn symbols(&self) -> Seq<char> {
        self.symbols@
    }

    /// How many symbols have been consumed.
    pub closed spec fn position(&self) -> nat {
        self.pos as nat
    }

    /// The current state.
    pub closed spec fn current(&self) -> State {
        self.state
    }

    /// The current state is the one that the consumed symbols lead to.
    pub closed spec fn wf(&self) -> bool {
        &&& self.pos <= self.symbols@.len()
        &&& self.state == run(self.symbols@.take(self.pos as int))
    }

    /// A valid run has consumed at most its whole input, and its current state is the one that
    /// the automaton reaches on the symbols consumed so far.
    pub proof fn lemma_wf(&self)
        requires
            self.wf(),
        ensures
            self.position() <= self.symbols().len(),
            self.current() == run(self.symbols().take(self.position() as int)),
    {
    }

    /// Consumes the next symbol and returns the state it leads to, or `None` once the input is
    /// used up.
    pub fn next(&mut self) -> (r: Option<State>)
        requires
            old(self).wf(),
        ensures
            final(self).wf(),
            final(self).symbols() == old(self).symbols(),
            final(self).position() <= final(self).symbols().len(),
            final(self).current() == run(final(self).symbols().take(final(self).position() as int)),
            old(self).position() < old(self).symbols().len() ==> {
                &&& r == Some(next_state(old(self).current(), old(self).symbols()[old(self).position() as int]))
                &&& final(self).position() == old(self).position() + 1
                &&& final(self).current() == r->0
            },
            old(self).position() >= old(self).symbols().len() ==> {
                &&& r is None
                &&& final(self).position() == old(self).position()
                &&& final(self).current() == old(self).current()
            },
    {
        if self.pos < self.symbols.len() {
            let c = self.symbols[self.pos];
            proof {
                let t = self.symbols@.take(self.pos + 1);
                assert(t.drop_last() =~= self.symbols@.take(self.pos as int));
            }
            self.state = State::transition(self.state, c);
            self.pos = self.pos + 1;
            Some(self.state)
        } else {
            None
        }
    }

    /// Runs to the end of the input and returns the last state produced: `None` if no symbol
    /// was left to consume.
    pub fn last(self) -> (r: Option<State>)
        requires
            self.wf(),
        ensures
            self.position() >= self.symbols().len() ==> r is None,
            self.position() < self.symbols().len() ==> r == Some(run(self.symbols())),
    {
        let mut it = self;
        let mut last: Option<State> = None;
        while it.pos < it.symbols.len()
            invariant
                it.wf(),
                it.symbols() == self.symbols(),
                self.position() <= it.position(),
                last is None <==> it.position() == self.position(),
                last is Some ==> last == Some(it.current()),
            decreases it.symbols().len() - it.position(),
        {
            last = it.next();
        }
        assert(it.symbols().take(it.position() as int) =~= it.symbols());
        last
    }
}

} // verus!
