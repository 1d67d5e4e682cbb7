//! What the `ironcmd` attribute makes of a function: the name of the command
//! type, and for each parameter how it is stored in the command and handed
//! back to the function's body when the command executes.
use crate::cmd_args::IronCmdArgs;
use vstd::prelude::*;
use vstd::string::StringExecFns;

verus! {

/// How the type of a parameter is written.
#[derive(Clone, Copy, Debug, PartialEq, Eq, Structural)]
pub enum TypeShape {
    /// A value, owned by the command.
    Owned,
    /// A shared reference `&T`.
    Ref,
    /// A mutable reference `&mut T`.
    MutRef,
}

/// A typed parameter of the function.
#[derive(Clone, Copy, Debug, PartialEq, Eq, Structural)]
pub struct ParamSig {
    /// The parameter's pattern is a plain identifier (such as `x` or `mut x`).
    pub ident_pattern: bool,
    /// The pattern is marked `mut`.
    pub mutable: bool,
    /// How the parameter's type is written.
    pub shape: TypeShape,
}

/// An input of the function.
#[derive(Clone, Copy, Debug, PartialEq, Eq, Structural)]
pub enum FnInput {
    /// `self`, `&self` or `&mut self`.
    Receiver,
    Typed(ParamSig),
}

/// What the attribute reads of the function it is put on.
#[derive(Debug)]
pub struct FnSignature {
    pub name: String,
    pub inputs: Vec<FnInput>,
    /// The function declares a return type (else it returns `()`).
    pub has_return_type: bool,
    pub is_async: bool,
}

/// How the body of the function gets a parameter back when the command
/// executes.
#[derive(Clone, Copy, Debug, PartialEq, Eq, Structural)]
pub enum ParamBinding {
    /// The value is taken out of the command's `Option` field, with the
    /// parameter's own pattern (`mut` kept).
    TakeOwned,
    /// `&*self.field`.
    Reborrow,
    /// `&mut *self.field`.
    ReborrowMut,
}

/// How a parameter is kept in the command.
#[derive(Clone, Copy, Debug, PartialEq, Eq, Structural)]
pub struct FieldPlan {
    /// The field holds `Option<T>` (an owned value, taken when executing)
    /// rather than the reference itself.
    pub optional: bool,
    pub binding: ParamBinding,
    /// The field's name is the pattern with its `mut` removed.
    pub strip_mut: bool,
}

/// Why a function cannot become a command.
#[derive(Clone, Copy, Debug, PartialEq, Eq, Structural)]
pub enum PlanError {
    /// The function takes `self`.
    SelfParameter,
}

impl PlanError {
    /// The message that the attribute reports for the error.
    pub fn message(&self) -> (m: String)
        ensures
            m@ == "`self` is not supported in #[ironcmd] functions"@,
    {
        String::from_str("`self` is not supported in #[ironcmd] functions")
    }
}

/// The command that the attribute generates for a function.
#[derive(Debug)]
pub struct OperationIronStruct {
    pub is_result: bool,
    pub recursive_rollback: bool,
    /// The name of the generated type.
    pub s_name: String,
    /// One entry per parameter, in order.
    pub fields: Vec<FieldPlan>,
    /// The function returns `()`.
    pub returns_unit: bool,
    pub is_async: bool,
}

/// The name of a string converted to PascalCase, as the `heck` crate does it.
pub uninterp spec fn pascal_case(s: Seq<char>) -> Seq<char>;

/// `c` is a lowercase ASCII letter, an ASCII digit or `_`.
pub open spec fn is_lower_snake_char(c: char) -> bool {
    (97 <= (c as u32) && (c as u32) <= 122) || (48 <= (c as u32) && (c as u32) <= 57) || c == '_'
}

/// `s` is a snake-case name: lowercase ASCII letters and digits in words
/// separated by underscores.
pub open spec fn is_lower_snake(s: Seq<char>) -> bool {
    forall|i: int| 0 <= i < s.len() ==> is_lower_snake_char(#[trigger] s[i])
}

/// `c` upper-cased, where it is a lowercase ASCII letter.
pub open spec fn ascii_upper(c: char) -> char {
    if 97 <= (c as u32) && (c as u32) <= 122 {
        ((c as u32) - 32) as char
    } else {
        c
    }
}

/// A snake-case name in PascalCase: the underscores dropped, and the first
/// character of each word (at the start, or after an underscore) upper-cased.
/// `at_word_start` says whether the first character of `s` starts a word.
pub open spec fn snake_to_pascal(s: Seq<char>, at_word_start: bool) -> Seq<char>
    decreases s.len(),
{
    if s.len() == 0 {
        Seq::empty()
    } else if s[0] == '_' {
        snake_to_pascal(s.drop_first(), true)
    } else {
        seq![if at_word_start { ascii_upper(s[0]) } else { s[0] }] + snake_to_pascal(
            s.drop_first(),
            false,
        )
    }
}

/// Calls `heck::ToPascalCase::to_pascal_case`: splits the name into words at
/// non-alphanumeric characters and case changes, and joins them capitalized.
/// Its result is named `pascal_case` of the argument. Of a snake-case name of
/// lowercase ASCII letters and digits the contract also states the result:
/// heck splits it at the underscores only (no letter is upper-case, so no case
/// change makes a word boundary, upper_camel.rs and `transform` in lib.rs),
/// drops the empty words, and capitalizes each word: its first character
/// upper-cased, the rest lower-cased, which leaves them as they are
/// (`capitalize` in lib.rs); the words are joined with nothing between them.
#[verifier::external_body]
fn to_pascal_case(s: &str) -> (r: String)
    ensures
        r@ == pascal_case(s@),
        is_lower_snake(s@) ==> r@ == snake_to_pascal(s@, true),
{
    heck::ToPascalCase::to_pascal_case(s)
}

/// How a parameter is kept in the command.
pub open spec fn field_plan_spec(p: ParamSig) -> FieldPlan {
    FieldPlan {
        optional: p.shape == TypeShape::Owned,
        binding: match p.shape {
            TypeShape::Owned => ParamBinding::TakeOwned,
            TypeShape::Ref => ParamBinding::Reborrow,
            TypeShape::MutRef => ParamBinding::ReborrowMut,
        },
        strip_mut: p.ident_pattern && p.mutable,
    }
}

/// The function takes `self` somewhere among its inputs.
pub open spec fn has_receiver(inputs: Seq<FnInput>) -> bool {
    exists|i: int| 0 <= i < inputs.len() && inputs[i] == FnInput::Receiver
}

/// `p` is the command planned for the function `sig` with the arguments
/// `args`, whatever its name.
pub open spec fn plan_matches(p: OperationIronStruct, sig: FnSignature, args: IronCmdArgs) -> bool {
    &&& p.is_result == args.is_result
    &&& p.recursive_rollback == args.recursive_rollback
    &&& p.returns_unit == !sig.has_return_type
    &&& p.is_async == sig.is_async
    &&& p.fields@.len() == sig.inputs@.len()
    &&& forall|i: int|
        0 <= i < sig.inputs@.len() ==> (#[trigger] p.fields@[i]) == field_plan_spec(
            sig.inputs@[i]->Typed_0,
        )
}

/// How a parameter is kept in the command.
pub fn field_plan(p: ParamSig) -> (f: FieldPlan)
    ensures
        f == field_plan_spec(p),
{
    FieldPlan {
        optional: p.shape == TypeShape::Owned,
        binding: match p.shape {
            TypeShape::Owned => ParamBinding::TakeOwned,
            TypeShape::Ref => ParamBinding::Reborrow,
            TypeShape::MutRef => ParamBinding::ReborrowMut,
        },
        strip_mut: p.ident_pattern && p.mutable,
    }
}

impl OperationIronStruct {
    /// The command for the function `sig` with the arguments `args`, named
    /// `s_name`. A function that takes `self` is refused.
    pub fn with_name(sig: &FnSignature, args: IronCmdArgs, s_name: String) -> (r: Result<
        OperationIronStruct,
        PlanError,
    >)
        ensures
            has_receiver(sig.inputs@) ==> r == Err::<OperationIronStruct, PlanError>(
                PlanError::SelfParameter,
            ),
            !has_receiver(sig.inputs@) ==> r is Ok && plan_matches(r->Ok_0, *sig, args)
                && r->Ok_0.s_name == s_name,
    {
        let mut fields: Vec<FieldPlan> = Vec::new();
        let mut i: usize = 0;
        while i < sig.inputs.len()
            invariant
                i <= sig.inputs@.len(),
                fields@.len() == i,
                forall|j: int| 0 <= j < i ==> sig.inputs@[j] != FnInput::Receiver,
                forall|j: int|
                    0 <= j < i ==> (#[trigger] fields@[j]) == field_plan_spec(
                        sig.inputs@[j]->Typed_0,
                    ),
            decreases sig.inputs@.len() - i,
        {
            match sig.inputs[i] {
                FnInput::Receiver => {
                    return Err(PlanError::SelfParameter);
                },
                FnInput::Typed(p) => {
                    fields.push(field_plan(p));
                },
            }
            i = i + 1;
        }
        Ok(
            OperationIronStruct {
                is_result: args.is_result,
                recursive_rollback: args.recursive_rollback,
                s_name,
                fields,
                returns_unit: !sig.has_return_type,
                is_async: sig.is_async,
            },
        )
    }

    /// The command for the function `sig` with the arguments `args`: named by
    /// `rename`, or else by the function's name in PascalCase. A function that
    /// takes `self` is refused.
    pub fn new(sig: &FnSignature, args: IronCmdArgs) -> (r: Result<OperationIronStruct, PlanError>)
        ensures
            has_receiver(sig.inputs@) ==> r == Err::<OperationIronStruct, PlanError>(
                PlanError::SelfParameter,
            ),
            !has_receiver(sig.inputs@) ==> r is Ok && plan_matches(r->Ok_0, *sig, args)
                && r->Ok_0.s_name@ == match args.rename {
                Some(n) => n@,
                None => pascal_case(sig.name@),
            },
            !has_receiver(sig.inputs@) && args.rename is None && is_lower_snake(sig.name@) ==> r->Ok_0.s_name@
                == snake_to_pascal(sig.name@, true),
    {
        let is_result = args.is_result;
        let recursive_rollback = args.recursive_rollback;
        let s_name = match args.rename {
            Some(n) => n,
            None => to_pascal_case(sig.name.as_str()),
        };
        OperationIronStruct::with_name(
            sig,
            IronCmdArgs { is_result, recursive_rollback, rename: None },
            s_name,
        )
    }
}

/// How each parameter is kept in the planned command: a parameter whose type
/// is not a reference is held in an `Option` field and taken out when the
/// command executes; a shared reference is kept as it is and reborrowed
/// shared; a mutable reference is kept as it is and reborrowed mutably; the
/// field drops the `mut` of an identifier pattern, and only that.
pub proof fn law_parameters_are_kept_by_their_type(
    p: OperationIronStruct,
    sig: FnSignature,
    args: IronCmdArgs,
)
    requires
        !has_receiver(sig.inputs@),
        plan_matches(p, sig, args),
    ensures
        p.fields@.len() == sig.inputs@.len(),
        forall|i: int|
            0 <= i < sig.inputs@.len() ==> {
                let q = (#[trigger] sig.inputs@[i])->Typed_0;
                let f = p.fields@[i];
                &&& sig.inputs@[i] is Typed
                &&& f.optional <==> q.shape == TypeShape::Owned
                &&& f.binding == ParamBinding::TakeOwned <==> q.shape == TypeShape::Owned
                &&& f.binding == ParamBinding::Reborrow <==> q.shape == TypeShape::Ref
                &&& f.binding == ParamBinding::ReborrowMut <==> q.shape == TypeShape::MutRef
                &&& f.strip_mut <==> q.ident_pattern && q.mutable
            },
        forall|i: int|
            0 <= i < p.fields@.len() && (#[trigger] p.fields@[i]).binding == ParamBinding::TakeOwned
                ==> p.fields@[i].optional,
{
    assert forall|i: int| 0 <= i < sig.inputs@.len() implies (#[trigger] sig.inputs@[i]) is Typed by {
        if !(sig.inputs@[i] is Typed) {
            assert(sig.inputs@[i] == FnInput::Receiver);
        }
    }
    assert forall|i: int| 0 <= i < sig.inputs@.len() implies p.fields@[i] == field_plan_spec(
        (#[trigger] sig.inputs@[i])->Typed_0,
    ) by {}
}

} // verus!
