use error_derive::errs::{Problem, Span};
use error_derive::variant::{Argument, Flaw, Text};

fn some(s: &str) -> Option<String> {
    Some(String::from(s))
}

#[test]
fn a_message_without_arguments() {
    let text = Text::parse("nothing to see").ok().unwrap();
    assert_eq!(text.lit, "\"nothing to see\"");
    assert_eq!(text.args.len(), 0);
    assert_eq!(text.handed(), "");
}

#[test]
fn a_message_with_arguments() {
    let text = Text::parse("cannot open {file}: {source:?} ({ tries + 1 })").ok().unwrap();
    assert_eq!(text.lit, "\"cannot open {}: {:?} ({})\"");
    assert_eq!(text.args.len(), 3);
    assert_eq!(text.args[0].tokens, "file");
    assert!(text.args[0].span == Span { start: 13, end: 17 });
    assert_eq!(text.args[1].tokens, "source");
    assert!(text.args[1].span == Span { start: 21, end: 27 });
    assert_eq!(text.args[2].tokens, "tries + 1");
    assert!(text.args[2].span == Span { start: 33, end: 44 });
    assert_eq!(text.handed(), "file, source, tries + 1");
}

#[test]
fn a_keyword_is_an_expression() {
    let text = Text::parse("{self}").ok().unwrap();
    assert_eq!(text.args[0].tokens, "self");
    let text = Text::parse("{r#type}").ok().unwrap();
    assert_eq!(text.args[0].tokens, "r#type");
}

#[test]
fn the_flaws_of_a_message() {
    assert!(
        Text::parse("ab {c").err().unwrap()
            == Flaw { problem: Problem::BadFormat, span: Span { start: 0, end: 5 } }
    );
    assert!(
        Text::parse("ab {} {+}").err().unwrap()
            == Flaw { problem: Problem::NoFormatArg, span: Span { start: 3, end: 5 } }
    );
    assert!(
        Text::parse("ab {c} {+} {}").err().unwrap()
            == Flaw { problem: Problem::BadArgument, span: Span { start: 8, end: 9 } }
    );
    assert!(
        Text::parse("{:?}").err().unwrap()
            == Flaw { problem: Problem::NoFormatArg, span: Span { start: 0, end: 2 } }
    );
    assert!(
        Text::parse("{ }").err().unwrap()
            == Flaw { problem: Problem::BadArgument, span: Span { start: 1, end: 2 } }
    );
}

#[test]
fn a_dropped_placeholder_is_not_resolved() {
    let text = Text::parse("a{+}}b").ok().unwrap();
    assert_eq!(text.lit, "\"ab\"");
    assert_eq!(text.args.len(), 0);
}

#[test]
fn an_identifier_is_a_field() {
    let arg = Argument::resolve("file", 4, some("file"), None).ok().unwrap();
    assert_eq!(arg.tokens, "file");
    assert!(arg.span == Span { start: 4, end: 8 });
    let arg = Argument::resolve("file", 4, some("file"), some("other")).ok().unwrap();
    assert_eq!(arg.tokens, "file");
}

#[test]
fn another_name_is_an_expression() {
    let arg = Argument::resolve("a.b", 1, None, some("a . b")).ok().unwrap();
    assert_eq!(arg.tokens, "a . b");
    assert!(arg.span == Span { start: 1, end: 4 });
    let arg = Argument::resolve("né", 7, None, some("né")).ok().unwrap();
    assert!(arg.span == Span { start: 7, end: 10 });
}

#[test]
fn a_name_that_is_neither_is_a_flaw() {
    assert!(
        Argument::resolve("+", 9, None, None).err().unwrap()
            == Flaw { problem: Problem::BadArgument, span: Span { start: 9, end: 10 } }
    );
}

#[test]
fn an_empty_name_is_a_flaw() {
    assert!(
        Argument::resolve("", 9, None, None).err().unwrap()
            == Flaw { problem: Problem::NoFormatArg, span: Span { start: 8, end: 10 } }
    );
    assert!(
        Argument::resolve("", 1, some("x"), some("y")).err().unwrap()
            == Flaw { problem: Problem::NoFormatArg, span: Span { start: 0, end: 2 } }
    );
}
