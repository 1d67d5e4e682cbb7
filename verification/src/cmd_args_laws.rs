//! Which argument lists the `ironcmd` attribute accepts, stated by how the
//! lists are written rather than by how they are read.
use crate::cmd_args::{parse_args_from, parse_args_spec, ArgToken, IronCmdArgs};
use vstd::prelude::*;

verus! {

/// One argument as it is written.
pub enum ArgItem {
    /// A flag, by its identifier: `result` or `recursive_rollback`.
    Flag(String),
    /// `rename = "literal"`, by its identifier and its literal.
    Rename(String, String),
}

/// The tokens of an argument, followed by a comma when `comma`.
pub open spec fn item_tokens(it: ArgItem, comma: bool) -> Seq<ArgToken> {
    let body = match it {
        ArgItem::Flag(n) => seq![ArgToken::Ident(n)],
        ArgItem::Rename(n, v) => seq![ArgToken::Ident(n), ArgToken::Punct('='), ArgToken::Str(v)],
    };
    if comma {
        body.push(ArgToken::Punct(','))
    } else {
        body
    }
}

/// The tokens of a list of arguments written one after the other, each with
/// or without a comma after it.
pub open spec fn list_tokens(items: Seq<(ArgItem, bool)>) -> Seq<ArgToken>
    decreases items.len(),
{
    if items.len() == 0 {
        Seq::empty()
    } else {
        item_tokens(items[0].0, items[0].1) + list_tokens(items.drop_first())
    }
}

/// The identifier an argument is written with.
pub open spec fn item_name(it: ArgItem) -> Seq<char> {
    match it {
        ArgItem::Flag(n) => n@,
        ArgItem::Rename(n, _) => n@,
    }
}

/// Every argument is one the attribute knows, under its own identifier, and
/// none occurs twice.
pub open spec fn known_items(items: Seq<(ArgItem, bool)>) -> bool {
    &&& forall|i: int|
        0 <= i < items.len() ==> match (#[trigger] items[i]).0 {
            ArgItem::Flag(n) => n@ == "result"@ || n@ == "recursive_rollback"@,
            ArgItem::Rename(n, _) => n@ == "rename"@,
        }
    &&& forall|i: int, j: int|
        0 <= i < j < items.len() ==> item_name((#[trigger] items[i]).0) != item_name(
            (#[trigger] items[j]).0,
        )
}

/// An argument named `name` occurs in `items`.
pub open spec fn has_item(items: Seq<(ArgItem, bool)>, name: Seq<char>) -> bool {
    exists|i: int| 0 <= i < items.len() && item_name((#[trigger] items[i]).0) == name
}

proof fn lemma_names_differ()
    ensures
        "result"@ != "recursive_rollback"@,
        "result"@ != "rename"@,
        "rename"@ != "recursive_rollback"@,
{
    reveal_strlit("result");
    reveal_strlit("recursive_rollback");
    reveal_strlit("rename");
    assert("result"@.len() != "recursive_rollback"@.len());
    assert("rename"@.len() != "recursive_rollback"@.len());
    assert("result"@[2] != "rename"@[2]);
}

proof fn lemma_list_starts_with_ident(items: Seq<(ArgItem, bool)>)
    requires
        items.len() > 0,
    ensures
        list_tokens(items).len() > 0,
        list_tokens(items)[0] is Ident,
{
    let head = item_tokens(items[0].0, items[0].1);
    assert(list_tokens(items) == head + list_tokens(items.drop_first()));
    assert(head[0] is Ident);
}

spec fn parsed(p: Seq<ArgToken>, items: Seq<(ArgItem, bool)>, acc: IronCmdArgs) -> IronCmdArgs {
    parse_args_from(p + list_tokens(items), p.len() as int, acc)->Ok_0
}

/// The arguments once the argument `it` has been read after `acc`.
spec fn step_acc(it: ArgItem, acc: IronCmdArgs) -> IronCmdArgs {
    match it {
        ArgItem::Flag(n) => if n@ == "result"@ {
            IronCmdArgs { is_result: true, ..acc }
        } else {
            IronCmdArgs { recursive_rollback: true, ..acc }
        },
        ArgItem::Rename(_, v) => IronCmdArgs { rename: Some(v), ..acc },
    }
}

/// Reading the first argument of `items` after the tokens `p` moves past it
/// and its comma, and records it.
proof fn lemma_parse_step(p: Seq<ArgToken>, items: Seq<(ArgItem, bool)>, acc: IronCmdArgs)
    requires
        items.len() > 0,
        match items[0].0 {
            ArgItem::Flag(n) => (n@ == "result"@ && !acc.is_result) || (n@
                == "recursive_rollback"@ && !acc.recursive_rollback),
            ArgItem::Rename(n, _) => n@ == "rename"@ && acc.rename is None,
        },
    ensures
        parse_args_from(p + list_tokens(items), p.len() as int, acc) == parse_args_from(
            (p + item_tokens(items[0].0, items[0].1)) + list_tokens(items.drop_first()),
            (p + item_tokens(items[0].0, items[0].1)).len() as int,
            step_acc(items[0].0, acc),
        ),
{
    lemma_names_differ();
    let it = items[0].0;
    let comma = items[0].1;
    let rest = items.drop_first();
    let q = p + item_tokens(it, comma);
    let t = p + list_tokens(items);
    assert(list_tokens(items) == item_tokens(it, comma) + list_tokens(rest));
    assert(t =~= q + list_tokens(rest));
    let pos = p.len() as int;
    if rest.len() > 0 {
        lemma_list_starts_with_ident(rest);
        assert(t[q.len() as int] == list_tokens(rest)[0]);
    }
    match it {
        ArgItem::Flag(n) => {
            assert(t[pos] == ArgToken::Ident(n));
            if comma {
                assert(t[pos + 1] == ArgToken::Punct(','));
            }
        },
        ArgItem::Rename(n, v) => {
            assert(t[pos] == ArgToken::Ident(n));
            assert(t[pos + 1] == ArgToken::Punct('='));
            assert(t[pos + 2] == ArgToken::Str(v));
            if comma {
                assert(t[pos + 3] == ArgToken::Punct(','));
            }
        },
    }
}

proof fn lemma_rest_known(items: Seq<(ArgItem, bool)>)
    requires
        known_items(items),
        items.len() > 0,
    ensures
        known_items(items.drop_first()),
        forall|name: Seq<char>|
            #[trigger] has_item(items, name) <==> item_name(items[0].0) == name || has_item(
                items.drop_first(),
                name,
            ),
        !has_item(items.drop_first(), item_name(items[0].0)),
        forall|i: int|
            0 < i < items.len() ==> (#[trigger] items[i]) == items.drop_first()[i - 1],
{
    let rest = items.drop_first();
    assert forall|i: int| 0 < i < items.len() implies (#[trigger] items[i]) == rest[i - 1] by {}
    assert forall|i: int| 0 <= i < rest.len() implies match (#[trigger] rest[i]).0 {
        ArgItem::Flag(n) => n@ == "result"@ || n@ == "recursive_rollback"@,
        ArgItem::Rename(n, _) => n@ == "rename"@,
    } by {
        assert(rest[i] == items[i + 1]);
    }
    assert forall|i: int, j: int| 0 <= i < j < rest.len() implies item_name(
        (#[trigger] rest[i]).0,
    ) != item_name((#[trigger] rest[j]).0) by {
        assert(rest[i] == items[i + 1]);
        assert(rest[j] == items[j + 1]);
    }
    assert forall|name: Seq<char>| #[trigger] has_item(items, name) <==> item_name(items[0].0)
        == name || has_item(rest, name) by {
        if has_item(items, name) {
            let i = choose|i: int| 0 <= i < items.len() && item_name((#[trigger] items[i]).0) == name;
            if i > 0 {
                assert(rest[i - 1] == items[i]);
            }
        }
        if has_item(rest, name) {
            let i = choose|i: int| 0 <= i < rest.len() && item_name((#[trigger] rest[i]).0) == name;
            assert(rest[i] == items[i + 1]);
        }
    }
    if has_item(rest, item_name(items[0].0)) {
        let i = choose|i: int|
            0 <= i < rest.len() && item_name((#[trigger] rest[i]).0) == item_name(items[0].0);
        assert(rest[i] == items[i + 1]);
        assert(item_name(items[0].0) != item_name(items[i + 1].0));
    }
}

proof fn lemma_parse_items(p: Seq<ArgToken>, items: Seq<(ArgItem, bool)>, acc: IronCmdArgs)
    requires
        known_items(items),
        acc.is_result ==> !has_item(items, "result"@),
        acc.recursive_rollback ==> !has_item(items, "recursive_rollback"@),
        acc.rename is Some ==> !has_item(items, "rename"@),
    ensures
        parse_args_from(p + list_tokens(items), p.len() as int, acc) is Ok,
        parsed(p, items, acc).is_result <==> acc.is_result || has_item(items, "result"@),
        parsed(p, items, acc).recursive_rollback <==> acc.recursive_rollback || has_item(
            items,
            "recursive_rollback"@,
        ),
        !has_item(items, "rename"@) ==> parsed(p, items, acc).rename == acc.rename,
        forall|i: int|
            0 <= i < items.len() && (#[trigger] items[i]).0 is Rename ==> parsed(p, items, acc).rename
                == Some(items[i].0->Rename_1),
    decreases items.len(),
{
    lemma_names_differ();
    if items.len() == 0 {
        assert(list_tokens(items) =~= Seq::<ArgToken>::empty());
        assert(p + list_tokens(items) =~= p);
    } else {
        let it = items[0].0;
        let rest = items.drop_first();
        let q = p + item_tokens(it, items[0].1);
        lemma_rest_known(items);
        assert(has_item(items, item_name(it)));
        let acc2 = step_acc(it, acc);
        lemma_parse_step(p, items, acc);
        lemma_parse_items(q, rest, acc2);
        assert(parsed(p, items, acc) == parsed(q, rest, acc2));
        assert forall|i: int|
            0 <= i < items.len() && (#[trigger] items[i]).0 is Rename implies parsed(
            p,
            items,
            acc,
        ).rename == Some(items[i].0->Rename_1) by {
            if i == 0 {
                assert(!has_item(rest, "rename"@));
            } else {
                assert(items[i] == rest[i - 1]);
                assert(item_name(items[i].0) == "rename"@);
                assert(item_name(items[0].0) != item_name(items[i].0));
            }
        }
    }
}

/// Every list of the arguments the attribute knows, each at most once, in any
/// order, `rename` followed by `=` and a string literal, each argument with or
/// without a comma after it, is accepted; each flag is set exactly when it is
/// in the list, and the new name is the literal written after `rename =`.
pub proof fn law_known_arguments_are_accepted(items: Seq<(ArgItem, bool)>)
    requires
        known_items(items),
    ensures
        parse_args_spec(list_tokens(items)) is Ok,
        ({
            let a = parse_args_spec(list_tokens(items))->Ok_0;
            &&& a.is_result <==> has_item(items, "result"@)
            &&& a.recursive_rollback <==> has_item(items, "recursive_rollback"@)
            &&& a.rename is Some <==> has_item(items, "rename"@)
            &&& forall|i: int|
                0 <= i < items.len() && (#[trigger] items[i]).0 is Rename ==> a.rename == Some(
                    items[i].0->Rename_1,
                )
        }),
{
    let e = Seq::<ArgToken>::empty();
    lemma_parse_items(e, items, IronCmdArgs { is_result: false, recursive_rollback: false, rename: None });
    assert(e + list_tokens(items) =~= list_tokens(items));
    if has_item(items, "rename"@) {
        let i = choose|i: int| 0 <= i < items.len() && item_name((#[trigger] items[i]).0) == "rename"@;
        lemma_names_differ();
        assert(items[i].0 is Rename);
    }
}

} // verus!
