use ironsaga::cmd_args::{ArgError, ArgErrorKind, ArgToken, IronCmdArgs};

fn ident(s: &str) -> ArgToken {
    ArgToken::Ident(s.to_string())
}

fn lit(s: &str) -> ArgToken {
    ArgToken::Str(s.to_string())
}

fn parse(toks: Vec<ArgToken>) -> Result<IronCmdArgs, ArgError> {
    IronCmdArgs::parse(&toks)
}

fn error_of(toks: Vec<ArgToken>) -> String {
    match parse(toks) {
        Ok(_) => panic!("the arguments were accepted"),
        Err(e) => e.message(),
    }
}

#[test]
fn no_arguments() {
    let a = parse(vec![]).unwrap();
    assert!(!a.is_result);
    assert!(!a.recursive_rollback);
    assert_eq!(a.rename, None);
}

#[test]
fn all_arguments_in_any_order() {
    let a = parse(vec![
        ident("rename"),
        ArgToken::Punct('='),
        lit("InsertUser"),
        ArgToken::Punct(','),
        ident("result"),
        ArgToken::Punct(','),
        ident("recursive_rollback"),
    ])
    .unwrap();
    assert!(a.is_result);
    assert!(a.recursive_rollback);
    assert_eq!(a.rename, Some("InsertUser".to_string()));
}

#[test]
fn commas_are_optional_and_may_trail() {
    let a = parse(vec![ident("result"), ident("recursive_rollback"), ArgToken::Punct(',')]).unwrap();
    assert!(a.is_result);
    assert!(a.recursive_rollback);
    assert_eq!(a.rename, None);
}

#[test]
fn duplicate_result_is_refused() {
    assert_eq!(
        error_of(vec![ident("result"), ArgToken::Punct(','), ident("result")]),
        "duplicate argument `result`"
    );
}

#[test]
fn duplicate_recursive_rollback_is_refused() {
    assert_eq!(
        error_of(vec![ident("recursive_rollback"), ident("recursive_rollback")]),
        "duplicate argument `recursive_rollback`"
    );
}

#[test]
fn duplicate_rename_is_refused() {
    assert_eq!(
        error_of(vec![
            ident("rename"),
            ArgToken::Punct('='),
            lit("Foo"),
            ArgToken::Punct(','),
            ident("rename"),
            ArgToken::Punct('='),
            lit("Bar"),
        ]),
        "duplicate argument `rename`"
    );
}

#[test]
fn rename_without_value_is_refused() {
    assert_eq!(error_of(vec![ident("rename")]), "expected `=`");
    assert_eq!(
        error_of(vec![ident("rename"), ArgToken::Punct('=')]),
        "unexpected end of input, expected string literal"
    );
    assert_eq!(
        error_of(vec![ident("rename"), ArgToken::Punct('='), ident("Foo")]),
        "expected string literal"
    );
}

#[test]
fn unknown_argument_is_refused() {
    assert_eq!(error_of(vec![ident("foobar")]), "unknown ironcmd argument `foobar`");
}

fn error_at(toks: Vec<ArgToken>) -> (usize, bool) {
    match parse(toks) {
        Ok(_) => panic!("the arguments were accepted"),
        Err(e) => (e.at, e.end_of_input),
    }
}

#[test]
fn duplicate_result_points_at_the_second_result() {
    let toks = vec![ident("result"), ArgToken::Punct(','), ident("result")];
    assert_eq!(error_at(toks), (2, false));
}

#[test]
fn unknown_argument_points_at_its_identifier() {
    let toks = vec![ident("result"), ident("foobar")];
    match parse(toks) {
        Err(e) => {
            assert!(matches!(e.kind, ArgErrorKind::UnknownArgument(ref n) if n == "foobar"));
            assert_eq!(e.at, 1);
        }
        Ok(_) => panic!("the arguments were accepted"),
    }
}

#[test]
fn missing_pieces_of_rename_point_where_they_are_missing() {
    assert_eq!(error_at(vec![ident("rename")]), (1, true));
    assert_eq!(error_at(vec![ident("rename"), ArgToken::Punct('=')]), (2, true));
    assert_eq!(error_at(vec![ident("rename"), ArgToken::Punct('='), ident("Foo")]), (2, false));
    assert_eq!(error_at(vec![ident("rename"), ArgToken::Punct(':'), lit("Foo")]), (1, false));
}

#[test]
fn a_keyword_is_refused_by_name() {
    assert_eq!(
        error_of(vec![ArgToken::Keyword("fn".to_string())]),
        "expected identifier, found keyword `fn`"
    );
}

#[test]
fn a_non_identifier_is_refused() {
    assert_eq!(error_of(vec![lit("result")]), "expected identifier");
    assert_eq!(error_of(vec![ident("result"), ArgToken::Other]), "expected identifier");
}
