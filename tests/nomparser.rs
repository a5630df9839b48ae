use std::cell::Cell;

use mdo_state::nomparser::{nomp, run_nomparser, NomParser};
use nom::bytes::complete::tag;
use nom::error::{Error, ErrorKind};
use nom::Finish;

fn ptag<'a, S, T>(t: T) -> NomParser<'a, S, S>
where
    S: 'a + nom::InputTake + nom::Compare<T>,
    T: 'a + Clone + nom::InputLength,
{
    nomp(tag(t))
}

#[test]
fn nomparser_happyface() {
    let ma: NomParser<_, _> = ptag("hi").and_then(|_| ptag("the").and_then(|_| NomParser::lift("Yay!")));
    assert_eq!(Ok(("re", "Yay!")), run_nomparser("hithere", ma));
}

#[test]
fn nomparser_sadface() {
    let ma = ptag("hi").and_then(|_| ptag("thez").and_then(|_| NomParser::lift("Yay!")));
    let result = run_nomparser("hithere", ma).finish();
    assert_eq!(Err(Error { input: "there", code: ErrorKind::Tag }), result);
}

#[test]
fn nomparser_lift_consumes_nothing() {
    let ma: NomParser<&str, u8> = NomParser::lift(7);
    assert_eq!(Ok(("abc", 7)), run_nomparser("abc", ma));
}

#[test]
fn nomparser_value_feeds_next_step() {
    let ma: NomParser<&str, &str> = ptag("ab").and_then(|m: &str| NomParser::lift(m));
    assert_eq!(Ok(("cd", "ab")), run_nomparser("abcd", ma));
}

#[test]
fn nomparser_first_step_fails() {
    let built = Cell::new(0);
    let b = &built;
    let ma: NomParser<&str, &str> = ptag("x").and_then(move |_| {
        b.set(b.get() + 1);
        ptag("y")
    });
    let result = run_nomparser("abc", ma).finish();
    assert_eq!(Err(Error { input: "abc", code: ErrorKind::Tag }), result);
    assert_eq!(0, built.get());
}
