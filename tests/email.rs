use email_parser::fsm::{Machine, State, FSM};
use email_parser::{Email, Error};

fn parse(s: &str) -> Result<Email, Error> {
    Email::from_str(s)
}

#[test]
fn plain_address_accepted() {
    let e = parse("someone@example.com").unwrap();
    assert_eq!(e.local(), "someone");
    assert_eq!(e.domain(), "example.com");
}

#[test]
fn empty_address_rejected() {
    assert!(matches!(parse(""), Err(Error::EmptyEmail)));
}

#[test]
fn missing_at_rejected() {
    assert!(matches!(parse("plainaddress"), Err(Error::InvalidEmail)));
}

#[test]
fn domain_literal_accepted() {
    let e = parse("a@[192.168.1.1]").unwrap();
    assert_eq!(e.local(), "a");
    assert_eq!(e.domain(), "[192.168.1.1]");
}

#[test]
fn quoted_local_part_accepted() {
    let e = parse("\"quoted\"@example.com").unwrap();
    assert_eq!(e.local(), "\"quoted\"");
    assert_eq!(e.domain(), "example.com");
}

#[test]
fn quoted_local_part_with_escaped_at() {
    let e = parse("\"a\\\"b@c\"@example.com").unwrap();
    assert_eq!(e.local(), "\"a\\\"b");
    assert_eq!(e.domain(), "c\"@example.com");
}

#[test]
fn trailing_space_rejected() {
    assert!(matches!(parse("a@b.com extra"), Err(Error::InvalidEmail)));
}

#[test]
fn text_after_domain_literal_rejected() {
    assert!(matches!(parse("a@[1]extra"), Err(Error::InvalidEmail)));
}

#[test]
fn incomplete_addresses_rejected() {
    for s in ["a", "a@", "a.@b", "a..b@c", ".a@b", "a@b.", "a@[1", "\"ab", "\"ab\"", "@b", "a@@b", "a b@c"] {
        assert!(matches!(parse(s), Err(Error::InvalidEmail)), "{s}");
    }
}

#[test]
fn dotted_parts_accepted() {
    let e = parse("first.last@mail.example.org").unwrap();
    assert_eq!(e.local(), "first.last");
    assert_eq!(e.domain(), "mail.example.org");
}

#[test]
fn special_atext_accepted() {
    let e = parse("a!#$%&'*+-/=?^_`{|}~z@x").unwrap();
    assert_eq!(e.local(), "a!#$%&'*+-/=?^_`{|}~z");
}

#[test]
fn parse_through_from_str_trait() {
    let e: Email = "someone@example.com".parse().unwrap();
    assert_eq!(e.local(), "someone");
    assert!(matches!("".parse::<Email>(), Err(Error::EmptyEmail)));
}

#[test]
fn display_text() {
    let e = parse("someone@example.com").unwrap();
    assert_eq!(e.to_string(), "someone@example.com\n");
}

#[test]
fn validation_repeats() {
    for s in ["someone@example.com", "", "bad", "a@[1.2]"] {
        let a = parse(s);
        let b = parse(s);
        match (a, b) {
            (Ok(x), Ok(y)) => {
                assert_eq!(x.local(), y.local());
                assert_eq!(x.domain(), y.domain());
            }
            (Err(x), Err(y)) => assert_eq!(x, y),
            _ => panic!("different verdicts for {s:?}"),
        }
    }
}

#[test]
fn round_trip_revalidates() {
    for s in ["someone@example.com", "\"q\\\"@\"@[1.2.3.4]", "a.b@c.d"] {
        let e = parse(s).unwrap();
        let joined = format!("{}@{}", e.local(), e.domain());
        let again = parse(&joined).unwrap();
        assert_eq!(again.local(), e.local());
        assert_eq!(again.domain(), e.domain());
    }
}

#[test]
fn atext_classes() {
    assert!(State::is_atext('a') && State::is_atext('Z') && State::is_atext('0'));
    assert!(State::is_atext('|') && State::is_atext('~') && State::is_atext('{'));
    assert!(!State::is_atext('@') && !State::is_atext('.') && !State::is_atext(' '));
    assert!(!State::is_atext('"') && !State::is_atext('é'));
}

#[test]
fn qtext_bounds() {
    assert!(State::is_qtext('!'));
    assert!(!State::is_qtext('"'));
    assert!(State::is_qtext('#') && State::is_qtext('['));
    assert!(!State::is_qtext('\\'));
    assert!(State::is_qtext(']') && State::is_qtext('~'));
    assert!(!State::is_qtext(' ') && !State::is_qtext('\u{7f}'));
}

#[test]
fn dtext_bounds() {
    assert!(State::is_dtext('!'));
    assert!(State::is_dtext('Z'));
    assert!(!State::is_dtext('['));
    assert!(!State::is_dtext('\\'));
    assert!(!State::is_dtext(']'));
    assert!(State::is_dtext('^'));
    assert!(State::is_dtext('~'));
    assert!(!State::is_dtext(' ') && !State::is_dtext('\u{7f}'));
}

#[test]
fn escape_bounds() {
    assert!(State::is_escape('\t') && State::is_escape(' ') && State::is_escape('!') && State::is_escape('~'));
    assert!(!State::is_escape('\n') && !State::is_escape('\u{7f}') && !State::is_escape('\u{8}'));
}

#[test]
fn error_state_absorbs() {
    for c in ['a', '@', '.', '[', ']', '"', '\\', ' ', 'é'] {
        assert_eq!(State::transition(State::Error, c), State::Error);
    }
}

#[test]
fn domain_literal_is_terminal() {
    for c in ['a', '@', '.', '[', ']', '"', '\\', ' ', '1'] {
        assert_eq!(State::transition(State::DomainLiteral, c), State::Error);
    }
}

#[test]
fn accepting_states() {
    let all = [
        State::AddrSpec,
        State::LocalAtom,
        State::LocalQText,
        State::LocalDot,
        State::LocalEscape,
        State::LocalQString,
        State::LocalPart,
        State::DomainAtom,
        State::DomainDText,
        State::DomainDot,
        State::DomainLiteral,
        State::Error,
    ];
    for s in all {
        let expected = s == State::DomainAtom || s == State::DomainLiteral;
        assert_eq!(State::is_final(&s), expected);
    }
    assert_eq!(State::start(), State::AddrSpec);
}

#[test]
fn transition_rules() {
    assert_eq!(State::transition(State::AddrSpec, '"'), State::LocalQText);
    assert_eq!(State::transition(State::AddrSpec, 'x'), State::LocalAtom);
    assert_eq!(State::transition(State::AddrSpec, '.'), State::Error);
    assert_eq!(State::transition(State::LocalAtom, '.'), State::LocalDot);
    assert_eq!(State::transition(State::LocalAtom, '@'), State::LocalPart);
    assert_eq!(State::transition(State::LocalQText, '\\'), State::LocalEscape);
    assert_eq!(State::transition(State::LocalQText, '"'), State::LocalQString);
    assert_eq!(State::transition(State::LocalQText, '@'), State::LocalQText);
    assert_eq!(State::transition(State::LocalEscape, ' '), State::LocalQText);
    assert_eq!(State::transition(State::LocalEscape, '\n'), State::Error);
    assert_eq!(State::transition(State::LocalQString, '@'), State::LocalPart);
    assert_eq!(State::transition(State::LocalQString, 'a'), State::Error);
    assert_eq!(State::transition(State::LocalPart, '['), State::DomainDText);
    assert_eq!(State::transition(State::LocalPart, 'b'), State::DomainAtom);
    assert_eq!(State::transition(State::DomainAtom, '.'), State::DomainDot);
    assert_eq!(State::transition(State::DomainDText, ']'), State::DomainLiteral);
    assert_eq!(State::transition(State::DomainDText, '['), State::Error);
    assert_eq!(State::transition(State::DomainDot, '.'), State::Error);
}

#[test]
fn machine_steps() {
    let mut it = Machine::new("a@b").into_iter();
    assert_eq!(it.next(), Some(State::LocalAtom));
    assert_eq!(it.next(), Some(State::LocalPart));
    assert_eq!(it.next(), Some(State::DomainAtom));
    assert_eq!(it.next(), None);
    assert_eq!(it.next(), None);
}

#[test]
fn machine_last_state() {
    assert_eq!(Machine::new("").into_iter().last(), None);
    assert_eq!(Machine::new("a@[1]").into_iter().last(), Some(State::DomainLiteral));
    assert_eq!(Machine::new("a@[1]x").into_iter().last(), Some(State::Error));
    assert_eq!(Machine::new("ab").into_iter().last(), Some(State::LocalAtom));
    let mut it = Machine::new("ab").into_iter();
    it.next();
    assert_eq!(it.last(), Some(State::LocalAtom));
}

#[test]
fn machine_steps_plain_address() {
    let mut it = Machine::new("plainaddress").into_iter();
    for _ in 0..12 {
        assert_eq!(it.next(), Some(State::LocalAtom));
    }
    assert_eq!(it.next(), None);
}

#[test]
fn machine_steps_quoted_address() {
    let mut it = Machine::new("\"quoted\"@example.com").into_iter();
    let mut expected = vec![State::LocalQText; 7];
    expected.push(State::LocalQString);
    expected.push(State::LocalPart);
    expected.extend([State::DomainAtom; 7]);
    expected.push(State::DomainDot);
    expected.extend([State::DomainAtom; 3]);
    for s in expected {
        assert_eq!(it.next(), Some(s));
    }
    assert_eq!(it.next(), None);
}

#[test]
fn machine_error_is_never_left() {
    let mut it = Machine::new("a@[1]xyz").into_iter();
    let states: Vec<State> = (0..8).map(|_| it.next().unwrap()).collect();
    assert_eq!(states[4], State::DomainLiteral);
    assert!(states[5..].iter().all(|s| *s == State::Error));
    assert_eq!(it.next(), None);
}
