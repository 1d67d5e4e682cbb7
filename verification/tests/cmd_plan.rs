use ironsaga::cmd_args::IronCmdArgs;
use ironsaga::cmd_plan::{
    FieldPlan, FnInput, FnSignature, OperationIronStruct, ParamBinding, ParamSig, PlanError,
    TypeShape,
};

fn param(mutable: bool, shape: TypeShape) -> FnInput {
    FnInput::Typed(ParamSig { ident_pattern: true, mutable, shape })
}

fn args(is_result: bool, recursive_rollback: bool, rename: Option<&str>) -> IronCmdArgs {
    IronCmdArgs { is_result, recursive_rollback, rename: rename.map(|s| s.to_string()) }
}

fn sig(name: &str, inputs: Vec<FnInput>, has_return_type: bool, is_async: bool) -> FnSignature {
    FnSignature { name: name.to_string(), inputs, has_return_type, is_async }
}

#[test]
fn default_name_is_the_function_name_in_pascal_case() {
    let s = sig("create_order", vec![param(false, TypeShape::Owned)], true, false);
    let plan = OperationIronStruct::new(&s, args(true, false, None)).unwrap();
    assert_eq!(plan.s_name, "CreateOrder");
    assert!(plan.is_result);
    assert!(!plan.recursive_rollback);
    assert!(!plan.returns_unit);
    assert!(!plan.is_async);
}

#[test]
fn rename_replaces_the_default_name() {
    let s = sig("insert_user_db", vec![], true, true);
    let plan = OperationIronStruct::new(&s, args(true, true, Some("InsertUser"))).unwrap();
    assert_eq!(plan.s_name, "InsertUser");
    assert!(plan.recursive_rollback);
    assert!(plan.is_async);
}

#[test]
fn parameters_are_kept_by_their_shape() {
    let s = sig(
        "process",
        vec![
            param(true, TypeShape::Owned),
            param(false, TypeShape::Ref),
            param(false, TypeShape::MutRef),
        ],
        false,
        false,
    );
    let plan = OperationIronStruct::new(&s, args(false, false, None)).unwrap();
    assert_eq!(plan.s_name, "Process");
    assert!(plan.returns_unit);
    assert_eq!(
        plan.fields,
        vec![
            FieldPlan { optional: true, binding: ParamBinding::TakeOwned, strip_mut: true },
            FieldPlan { optional: false, binding: ParamBinding::Reborrow, strip_mut: false },
            FieldPlan { optional: false, binding: ParamBinding::ReborrowMut, strip_mut: false },
        ]
    );
}

#[test]
fn a_method_taking_self_is_refused() {
    let s = sig("execute", vec![FnInput::Receiver, param(false, TypeShape::Owned)], true, false);
    let r = OperationIronStruct::new(&s, args(false, false, None));
    match r {
        Ok(_) => panic!("a method taking self was accepted"),
        Err(e) => {
            assert_eq!(e, PlanError::SelfParameter);
            assert_eq!(e.message(), "`self` is not supported in #[ironcmd] functions");
        }
    }
}

#[test]
fn with_name_uses_the_given_name() {
    let s = sig("delete_record", vec![param(false, TypeShape::Owned)], true, false);
    let plan =
        OperationIronStruct::with_name(&s, args(false, true, None), "DeleteRecord".to_string())
            .unwrap();
    assert_eq!(plan.s_name, "DeleteRecord");
    assert_eq!(plan.fields.len(), 1);
}
