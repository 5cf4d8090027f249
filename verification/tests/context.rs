use core::convert::Infallible;
use error_derive::{Context, Help, With};

#[derive(Debug, PartialEq)]
enum Failure {
    Open { file: String, source: String },
    Missing { key: u32 },
}

struct Open {
    file: String,
}

impl With<Result<Infallible, String>, Failure> for Open {
    fn bind(self, source: Result<Infallible, String>) -> Failure {
        let source = match source {
            Ok(f) => match f {},
            Err(e) => e,
        };
        Failure::Open { file: self.file, source }
    }
}

struct Missing {
    key: u32,
}

impl With<Option<Infallible>, Failure> for Missing {
    fn bind(self, _: Option<Infallible>) -> Failure {
        Failure::Missing { key: self.key }
    }
}

#[test]
fn help_holds_its_message() {
    let help = Help::new(String::from("try again\n"));
    assert_eq!(help.to_string(), "try again\n");
}

#[test]
fn a_success_is_handed_on() {
    let step: Result<u8, String> = Ok(7);
    assert_eq!(step.context(Open { file: String::from("a") }), Ok(7));
    let found: Option<u8> = Some(3);
    assert_eq!(found.context(Missing { key: 1 }), Ok(3));
}

#[test]
fn a_failure_is_bound_to_its_context() {
    let step: Result<u8, String> = Err(String::from("denied"));
    assert_eq!(
        step.context(Open { file: String::from("a") }),
        Err(Failure::Open { file: String::from("a"), source: String::from("denied") })
    );
    let found: Option<u8> = None;
    assert_eq!(found.context(Missing { key: 1 }), Err(Failure::Missing { key: 1 }));
}

#[test]
fn the_context_is_made_on_failure_only() {
    let mut calls = 0;
    let step: Result<u8, String> = Ok(7);
    let r = step.with_context(|| {
        calls += 1;
        Open { file: String::from("a") }
    });
    assert_eq!(r, Ok(7));
    assert_eq!(calls, 0);
    let step: Result<u8, String> = Err(String::from("denied"));
    let r = step.with_context(|| {
        calls += 1;
        Open { file: String::from("b") }
    });
    assert_eq!(
        r,
        Err(Failure::Open { file: String::from("b"), source: String::from("denied") })
    );
    assert_eq!(calls, 1);
    let found: Option<u8> = None;
    let r = found.with_context(|| {
        calls += 1;
        Missing { key: 9 }
    });
    assert_eq!(r, Err(Failure::Missing { key: 9 }));
    assert_eq!(calls, 2);
}
