//! The arguments of the `ironcmd` attribute: `result`, `recursive_rollback`
//! and `rename = "Name"`, in any order, each at most once, separated by
//! optional commas.
use vstd::prelude::*;
use vstd::string::StringExecFns;

verus! {

/// A token of the attribute's argument list.
#[derive(Debug)]
pub enum ArgToken {
    /// An identifier that is not a keyword.
    Ident(String),
    /// A keyword (or `_`), which cannot name an argument.
    Keyword(String),
    /// A punctuation character.
    Punct(char),
    /// A string literal, by its value.
    Str(String),
    /// Anything else: another literal, a group.
    Other,
}

/// The parsed arguments.
#[derive(Debug)]
pub struct IronCmdArgs {
    /// The function returns a `Result` whose error fails the command.
    pub is_result: bool,
    /// A rollback command that fails is rolled back in turn.
    pub recursive_rollback: bool,
    /// The name of the generated command type, in place of the default.
    pub rename: Option<String>,
}

/// Why an argument list is refused.
#[derive(Debug)]
pub enum ArgErrorKind {
    ExpectedIdentifier,
    FoundKeyword(String),
    DuplicateResult,
    DuplicateRecursiveRollback,
    DuplicateRename,
    ExpectedEquals,
    ExpectedStringLiteral,
    UnknownArgument(String),
}

/// A refused argument list: why, and where.
#[derive(Debug)]
pub struct ArgError {
    pub kind: ArgErrorKind,
    /// The index of the token that the error points at; the number of tokens
    /// where the list ended too early.
    pub at: usize,
    /// The list ended where a token was expected.
    pub end_of_input: bool,
}

/// The error of kind `kind` at the index `at` of `toks`.
pub open spec fn arg_error(toks: Seq<ArgToken>, kind: ArgErrorKind, at: int) -> ArgError {
    ArgError { kind, at: at as usize, end_of_input: at >= toks.len() }
}

/// The message of an error of kind `kind`, without where it stands.
pub open spec fn kind_message(kind: ArgErrorKind) -> Seq<char> {
    match kind {
        ArgErrorKind::ExpectedIdentifier => "expected identifier"@,
        ArgErrorKind::FoundKeyword(k) => "expected identifier, found keyword `"@ + k@ + "`"@,
        ArgErrorKind::DuplicateResult => "duplicate argument `result`"@,
        ArgErrorKind::DuplicateRecursiveRollback => "duplicate argument `recursive_rollback`"@,
        ArgErrorKind::DuplicateRename => "duplicate argument `rename`"@,
        ArgErrorKind::ExpectedEquals => "expected `=`"@,
        ArgErrorKind::ExpectedStringLiteral => "expected string literal"@,
        ArgErrorKind::UnknownArgument(name) => "unknown ironcmd argument `"@ + name@ + "`"@,
    }
}

impl ArgError {
    /// The message that the attribute reports for the error. A string literal
    /// missing at the end of the list is reported as the end of input.
    pub fn message(&self) -> (m: String)
        ensures
            m@ == if self.end_of_input && self.kind is ExpectedStringLiteral {
                "unexpected end of input, "@ + kind_message(self.kind)
            } else {
                kind_message(self.kind)
            },
    {
        let base = match &self.kind {
            ArgErrorKind::ExpectedIdentifier => String::from_str("expected identifier"),
            ArgErrorKind::FoundKeyword(k) => String::from_str(
                "expected identifier, found keyword `",
            ).concat(k.as_str()).concat("`"),
            ArgErrorKind::DuplicateResult => String::from_str("duplicate argument `result`"),
            ArgErrorKind::DuplicateRecursiveRollback => String::from_str(
                "duplicate argument `recursive_rollback`",
            ),
            ArgErrorKind::DuplicateRename => String::from_str("duplicate argument `rename`"),
            ArgErrorKind::ExpectedEquals => String::from_str("expected `=`"),
            ArgErrorKind::ExpectedStringLiteral => String::from_str("expected string literal"),
            ArgErrorKind::UnknownArgument(name) => String::from_str(
                "unknown ironcmd argument `",
            ).concat(name.as_str()).concat("`"),
        };
        let eof_literal = match &self.kind {
            ArgErrorKind::ExpectedStringLiteral => self.end_of_input,
            _ => false,
        };
        if eof_literal {
            String::from_str("unexpected end of input, ").concat(base.as_str())
        } else {
            base
        }
    }
}

/// The arguments before any token is read.
pub open spec fn no_args() -> IronCmdArgs {
    IronCmdArgs { is_result: false, recursive_rollback: false, rename: None }
}

/// The position after an argument that ends before `pos`: one optional comma
/// is skipped.
pub open spec fn after_separator(toks: Seq<ArgToken>, pos: int) -> int {
    if pos < toks.len() && toks[pos] == ArgToken::Punct(',') {
        pos + 1
    } else {
        pos
    }
}

/// The outcome of parsing `toks` from `pos` on, with `acc` the arguments read
/// before `pos`.
pub open spec fn parse_args_from(toks: Seq<ArgToken>, pos: int, acc: IronCmdArgs) -> Result<
    IronCmdArgs,
    ArgError,
>
    decreases toks.len() - pos,
{
    if pos < 0 || pos >= toks.len() {
        Ok(acc)
    } else {
        match toks[pos] {
            ArgToken::Ident(name) => if name@ == "result"@ {
                if acc.is_result {
                    Err(arg_error(toks, ArgErrorKind::DuplicateResult, pos))
                } else {
                    parse_args_from(
                        toks,
                        after_separator(toks, pos + 1),
                        IronCmdArgs { is_result: true, ..acc },
                    )
                }
            } else if name@ == "recursive_rollback"@ {
                if acc.recursive_rollback {
                    Err(arg_error(toks, ArgErrorKind::DuplicateRecursiveRollback, pos))
                } else {
                    parse_args_from(
                        toks,
                        after_separator(toks, pos + 1),
                        IronCmdArgs { recursive_rollback: true, ..acc },
                    )
                }
            } else if name@ == "rename"@ {
                if acc.rename is Some {
                    Err(arg_error(toks, ArgErrorKind::DuplicateRename, pos))
                } else if !(pos + 1 < toks.len() && toks[pos + 1] == ArgToken::Punct('=')) {
                    Err(arg_error(toks, ArgErrorKind::ExpectedEquals, pos + 1))
                } else if !(pos + 2 < toks.len() && toks[pos + 2] is Str) {
                    Err(arg_error(toks, ArgErrorKind::ExpectedStringLiteral, pos + 2))
                } else {
                    parse_args_from(
                        toks,
                        after_separator(toks, pos + 3),
                        IronCmdArgs { rename: Some(toks[pos + 2]->Str_0), ..acc },
                    )
                }
            } else {
                Err(arg_error(toks, ArgErrorKind::UnknownArgument(name), pos))
            },
            ArgToken::Keyword(k) => Err(arg_error(toks, ArgErrorKind::FoundKeyword(k), pos)),
            _ => Err(arg_error(toks, ArgErrorKind::ExpectedIdentifier, pos)),
        }
    }
}

/// The outcome of parsing the whole argument list `toks`.
pub open spec fn parse_args_spec(toks: Seq<ArgToken>) -> Result<IronCmdArgs, ArgError> {
    parse_args_from(toks, 0, no_args())
}

fn is_named(name: &String, expected: &str) -> (b: bool)
    ensures
        b == (name@ == expected@),
{
    let expected = String::from_str(expected);
    *name == expected
}

fn error_at(toks: &Vec<ArgToken>, kind: ArgErrorKind, at: usize) -> (e: ArgError)
    ensures
        e == arg_error(toks@, kind, at as int),
{
    ArgError { kind, at, end_of_input: at >= toks.len() }
}

fn is_punct(t: &ArgToken, c: char) -> (b: bool)
    ensures
        b == (*t == ArgToken::Punct(c)),
{
    match t {
        ArgToken::Punct(p) => *p == c,
        _ => false,
    }
}

impl IronCmdArgs {
    /// Parses the attribute's argument list.
    pub fn parse(toks: &Vec<ArgToken>) -> (r: Result<IronCmdArgs, ArgError>)
        ensures
            r == parse_args_spec(toks@),
    {
        let mut is_result = false;
        let mut recursive_rollback = false;
        let mut rename: Option<String> = None;
        let mut pos: usize = 0;
        while pos < toks.len()
            invariant
                pos <= toks@.len(),
                parse_args_from(
                    toks@,
                    pos as int,
                    IronCmdArgs { is_result, recursive_rollback, rename },
                ) == parse_args_spec(toks@),
            decreases toks@.len() - pos,
        {
            let next: usize;
            match &toks[pos] {
                ArgToken::Ident(name) => {
                    if is_named(name, "result") {
                        if is_result {
                            return Err(error_at(toks, ArgErrorKind::DuplicateResult, pos));
                        }
                        is_result = true;
                        next = pos + 1;
                    } else if is_named(name, "recursive_rollback") {
                        if recursive_rollback {
                            return Err(error_at(toks, ArgErrorKind::DuplicateRecursiveRollback, pos));
                        }
                        recursive_rollback = true;
                        next = pos + 1;
                    } else if is_named(name, "rename") {
                        if rename.is_some() {
                            return Err(error_at(toks, ArgErrorKind::DuplicateRename, pos));
                        }
                        if !(pos + 1 < toks.len() && is_punct(&toks[pos + 1], '=')) {
                            return Err(error_at(toks, ArgErrorKind::ExpectedEquals, pos + 1));
                        }
                        if pos + 2 >= toks.len() {
                            return Err(error_at(toks, ArgErrorKind::ExpectedStringLiteral, pos + 2));
                        }
                        match &toks[pos + 2] {
                            ArgToken::Str(value) => {
                                rename = Some(value.clone());
                            },
                            _ => {
                                return Err(error_at(toks, ArgErrorKind::ExpectedStringLiteral, pos + 2));
                            },
                        }
                        next = pos + 3;
                    } else {
                        return Err(error_at(toks, ArgErrorKind::UnknownArgument(name.clone()), pos));
                    }
                },
                ArgToken::Keyword(k) => {
                    return Err(error_at(toks, ArgErrorKind::FoundKeyword(k.clone()), pos));
                },
                _ => {
                    return Err(error_at(toks, ArgErrorKind::ExpectedIdentifier, pos));
                },
            }
            if next < toks.len() && is_punct(&toks[next], ',') {
                pos = next + 1;
            } else {
                pos = next;
            }
        }
        Ok(IronCmdArgs { is_result, recursive_rollback, rename })
    }
}

/// The identifier `name` stands in `toks` at index `pos` or after it.
pub open spec fn names_from(toks: Seq<ArgToken>, pos: int, name: Seq<char>) -> bool {
    exists|i: int| pos <= i < toks.len() && #[trigger] ident_at(toks, i, name)
}

/// The token at index `i` of `toks` is the identifier `name`.
pub open spec fn ident_at(toks: Seq<ArgToken>, i: int, name: Seq<char>) -> bool {
    0 <= i < toks.len() && toks[i] is Ident && toks[i]->Ident_0@ == name
}

proof fn lemma_flags_from(toks: Seq<ArgToken>, pos: int, acc: IronCmdArgs)
    requires
        0 <= pos,
        parse_args_from(toks, pos, acc) is Ok,
    ensures
        ({
            let a = parse_args_from(toks, pos, acc)->Ok_0;
            &&& a.is_result <==> acc.is_result || names_from(toks, pos, "result"@)
            &&& a.recursive_rollback <==> acc.recursive_rollback || names_from(
                toks,
                pos,
                "recursive_rollback"@,
            )
            &&& a.rename is Some <==> acc.rename is Some || names_from(toks, pos, "rename"@)
        }),
    decreases toks.len() - pos,
{
    reveal_strlit("result");
    reveal_strlit("recursive_rollback");
    reveal_strlit("rename");
    assert("result"@.len() != "recursive_rollback"@.len());
    assert("rename"@.len() != "recursive_rollback"@.len());
    assert("result"@[2] != "rename"@[2]);
    if pos < toks.len() {
        let name = toks[pos]->Ident_0;
        assert(ident_at(toks, pos, name@));
        let (next, acc2) = if name@ == "result"@ {
            (after_separator(toks, pos + 1), IronCmdArgs { is_result: true, ..acc })
        } else if name@ == "recursive_rollback"@ {
            (after_separator(toks, pos + 1), IronCmdArgs { recursive_rollback: true, ..acc })
        } else {
            (
                after_separator(toks, pos + 3),
                IronCmdArgs { rename: Some(toks[pos + 2]->Str_0), ..acc },
            )
        };
        lemma_flags_from(toks, next, acc2);
        assert forall|name2: Seq<char>|
            names_from(toks, pos, name2) <==> ident_at(toks, pos, name2) || names_from(
                toks,
                next,
                name2,
            ) by {
            if names_from(toks, pos, name2) {
                let i = choose|i: int| pos <= i < toks.len() && #[trigger] ident_at(toks, i, name2);
                if i != pos {
                    assert(i >= next);
                }
            }
            if names_from(toks, next, name2) {
                let i = choose|i: int| next <= i < toks.len() && #[trigger] ident_at(toks, i, name2);
                assert(pos <= i);
            }
        }
    }
}

/// `rename = <literal>` stands in `toks` at index `i` or after it, with the
/// literal `value`.
pub open spec fn renamed_from(toks: Seq<ArgToken>, pos: int, value: String) -> bool {
    exists|i: int| pos <= i && #[trigger] rename_at(toks, i, value)
}

/// `rename = <literal>` stands at index `i` of `toks`, with the literal `value`.
pub open spec fn rename_at(toks: Seq<ArgToken>, i: int, value: String) -> bool {
    &&& ident_at(toks, i, "rename"@)
    &&& i + 2 < toks.len()
    &&& toks[i + 1] == ArgToken::Punct('=')
    &&& toks[i + 2] == ArgToken::Str(value)
}

proof fn lemma_rename_from(toks: Seq<ArgToken>, pos: int, acc: IronCmdArgs)
    requires
        0 <= pos,
        parse_args_from(toks, pos, acc) is Ok,
        parse_args_from(toks, pos, acc)->Ok_0.rename is Some,
    ensures
        acc.rename == parse_args_from(toks, pos, acc)->Ok_0.rename || renamed_from(
            toks,
            pos,
            parse_args_from(toks, pos, acc)->Ok_0.rename->Some_0,
        ),
    decreases toks.len() - pos,
{
    reveal_strlit("result");
    reveal_strlit("recursive_rollback");
    reveal_strlit("rename");
    assert("result"@.len() != "recursive_rollback"@.len());
    assert("rename"@.len() != "recursive_rollback"@.len());
    assert("result"@[2] != "rename"@[2]);
    if pos < toks.len() {
        let name = toks[pos]->Ident_0;
        let v = parse_args_from(toks, pos, acc)->Ok_0.rename->Some_0;
        if name@ == "result"@ {
            lemma_rename_from(toks, after_separator(toks, pos + 1), IronCmdArgs { is_result: true, ..acc });
            if !(acc.rename == Some(v)) {
                let i = choose|i: int| after_separator(toks, pos + 1) <= i && #[trigger] rename_at(toks, i, v);
                assert(rename_at(toks, i, v));
            }
        } else if name@ == "recursive_rollback"@ {
            lemma_rename_from(
                toks,
                after_separator(toks, pos + 1),
                IronCmdArgs { recursive_rollback: true, ..acc },
            );
            if !(acc.rename == Some(v)) {
                let i = choose|i: int| after_separator(toks, pos + 1) <= i && #[trigger] rename_at(toks, i, v);
                assert(rename_at(toks, i, v));
            }
        } else {
            let acc2 = IronCmdArgs { rename: Some(toks[pos + 2]->Str_0), ..acc };
            lemma_rename_from(toks, after_separator(toks, pos + 3), acc2);
            if acc2.rename == Some(v) {
                assert(rename_at(toks, pos, v));
            } else {
                let i = choose|i: int| after_separator(toks, pos + 3) <= i && #[trigger] rename_at(toks, i, v);
                assert(rename_at(toks, i, v));
            }
        }
    }
}

/// In an accepted argument list, a new name is the literal that follows
/// `rename =` in the list.
pub proof fn law_rename_holds_its_literal(toks: Seq<ArgToken>)
    requires
        parse_args_spec(toks) is Ok,
        parse_args_spec(toks)->Ok_0.rename is Some,
    ensures
        renamed_from(toks, 0, parse_args_spec(toks)->Ok_0.rename->Some_0),
{
    lemma_rename_from(toks, 0, no_args());
}

/// `name` is one of the arguments the attribute knows.
pub open spec fn known_name(name: Seq<char>) -> bool {
    name == "result"@ || name == "recursive_rollback"@ || name == "rename"@
}

/// The identifier at index `i` of `toks` names an argument that `acc` already
/// holds.
pub open spec fn already_held(toks: Seq<ArgToken>, i: int, acc: IronCmdArgs) -> bool {
    ||| ident_at(toks, i, "result"@) && acc.is_result
    ||| ident_at(toks, i, "recursive_rollback"@) && acc.recursive_rollback
    ||| ident_at(toks, i, "rename"@) && acc.rename is Some
}

proof fn lemma_names_once_from(toks: Seq<ArgToken>, pos: int, acc: IronCmdArgs)
    requires
        0 <= pos,
        parse_args_from(toks, pos, acc) is Ok,
    ensures
        forall|i: int|
            pos <= i < toks.len() && (#[trigger] toks[i]) is Ident ==> known_name(
                toks[i]->Ident_0@,
            ) && !already_held(toks, i, acc),
        forall|i: int, j: int|
            pos <= i < j < toks.len() && (#[trigger] toks[i]) is Ident && (#[trigger] toks[j]) is Ident
                ==> toks[i]->Ident_0@ != toks[j]->Ident_0@,
    decreases toks.len() - pos,
{
    reveal_strlit("result");
    reveal_strlit("recursive_rollback");
    reveal_strlit("rename");
    assert("result"@.len() != "recursive_rollback"@.len());
    assert("rename"@.len() != "recursive_rollback"@.len());
    assert("result"@[2] != "rename"@[2]);
    if pos < toks.len() {
        let name = toks[pos]->Ident_0;
        let (next, acc2) = if name@ == "result"@ {
            (after_separator(toks, pos + 1), IronCmdArgs { is_result: true, ..acc })
        } else if name@ == "recursive_rollback"@ {
            (after_separator(toks, pos + 1), IronCmdArgs { recursive_rollback: true, ..acc })
        } else {
            (
                after_separator(toks, pos + 3),
                IronCmdArgs { rename: Some(toks[pos + 2]->Str_0), ..acc },
            )
        };
        lemma_names_once_from(toks, next, acc2);
        assert forall|i: int| pos < i < next implies !((#[trigger] toks[i]) is Ident) by {}
        assert forall|i: int|
            pos <= i < toks.len() && (#[trigger] toks[i]) is Ident implies known_name(
            toks[i]->Ident_0@,
        ) && !already_held(toks, i, acc) by {
            if i >= next {
                assert(!already_held(toks, i, acc2));
            }
        }
        assert forall|i: int, j: int|
            pos <= i < j < toks.len() && (#[trigger] toks[i]) is Ident && (#[trigger] toks[j]) is Ident
                implies toks[i]->Ident_0@ != toks[j]->Ident_0@ by {
            if i == pos {
                assert(!already_held(toks, j, acc2));
            }
        }
    }
}

/// In an accepted argument list every identifier names an argument the
/// attribute knows, and no identifier stands twice.
pub proof fn law_accepted_lists_name_each_argument_once(toks: Seq<ArgToken>)
    requires
        parse_args_spec(toks) is Ok,
    ensures
        forall|i: int|
            0 <= i < toks.len() && (#[trigger] toks[i]) is Ident ==> known_name(toks[i]->Ident_0@),
        forall|i: int, j: int|
            0 <= i < j < toks.len() && (#[trigger] toks[i]) is Ident && (#[trigger] toks[j]) is Ident
                ==> toks[i]->Ident_0@ != toks[j]->Ident_0@,
{
    lemma_names_once_from(toks, 0, no_args());
}

/// An accepted argument list sets each flag, and the new name, exactly when
/// its identifier occurs in the list.
pub proof fn law_arguments_are_set_by_their_names(toks: Seq<ArgToken>)
    requires
        parse_args_spec(toks) is Ok,
    ensures
        ({
            let a = parse_args_spec(toks)->Ok_0;
            &&& a.is_result <==> names_from(toks, 0, "result"@)
            &&& a.recursive_rollback <==> names_from(toks, 0, "recursive_rollback"@)
            &&& a.rename is Some <==> names_from(toks, 0, "rename"@)
        }),
{
    lemma_flags_from(toks, 0, no_args());
}

} // verus!
