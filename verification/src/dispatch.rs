//! The dispatch table: from the name of the element type to a bit width.

use vstd::prelude::*;
use vstd::string::StringExecFns;
use crate::error::TransformError;

verus! {

/// One arm of the dispatch: a type token and the width that it selects.
#[derive(Debug)]
pub struct DispatchArm {
    pub token: String,
    pub width: u32,
}

/// The mathematical value of an arm.
pub struct DispatchArmView {
    pub token: Seq<char>,
    pub width: u32,
}

impl View for DispatchArm {
    type V = DispatchArmView;

    open spec fn view(&self) -> DispatchArmView {
        DispatchArmView { token: self.token@, width: self.width }
    }
}

/// The values of a sequence of arms, in order.
pub open spec fn arms_view(arms: Seq<DispatchArm>) -> Seq<DispatchArmView> {
    arms.map_values(|a: DispatchArm| a@)
}

/// The supported widths, each under the type name that selects it, narrowest first.
pub open spec fn width_table_spec() -> Seq<DispatchArmView> {
    seq![
        DispatchArmView { token: "u8"@, width: 8 },
        DispatchArmView { token: "u16"@, width: 16 },
        DispatchArmView { token: "u32"@, width: 32 },
        DispatchArmView { token: "u64"@, width: 64 },
        DispatchArmView { token: "u128"@, width: 128 },
    ]
}

/// Whether a width is one of the five supported ones.
pub open spec fn is_supported_width(width: u32) -> bool {
    width == 8 || width == 16 || width == 32 || width == 64 || width == 128
}

/// The width of the first arm that carries the given type name; a name that no arm
/// carries is refused.
pub open spec fn select_width_spec(arms: Seq<DispatchArmView>, token: Seq<char>) -> Result<
    u32,
    TransformError,
>
    decreases arms.len(),
{
    if arms.len() == 0 {
        Err(TransformError::UnsupportedType)
    } else if arms[0].token == token {
        Ok(arms[0].width)
    } else {
        select_width_spec(arms.drop_first(), token)
    }
}

/// Builds the table of the supported widths.
pub fn width_table() -> (result: Vec<DispatchArm>)
    ensures
        arms_view(result@) == width_table_spec(),
{
    let mut arms: Vec<DispatchArm> = Vec::new();
    arms.push(DispatchArm { token: String::from_str("u8"), width: 8 });
    arms.push(DispatchArm { token: String::from_str("u16"), width: 16 });
    arms.push(DispatchArm { token: String::from_str("u32"), width: 32 });
    arms.push(DispatchArm { token: String::from_str("u64"), width: 64 });
    arms.push(DispatchArm { token: String::from_str("u128"), width: 128 });
    proof {
        assert(arms_view(arms@) =~= width_table_spec());
    }
    arms
}

/// Selects the width of the first arm whose token is the given one.
pub fn select_width(arms: &Vec<DispatchArm>, token: &str) -> (result: Result<
    u32,
    TransformError,
>)
    ensures
        result == select_width_spec(arms_view(arms@), token@),
{
    let wanted = String::from_str(token);
    let ghost table = arms_view(arms@);
    let mut index: usize = 0;
    proof {
        assert(table.skip(0) =~= table);
    }
    while index < arms.len()
        invariant
            index <= arms.len(),
            table == arms_view(arms@),
            wanted@ == token@,
            select_width_spec(table, token@) == select_width_spec(
                table.skip(index as int),
                token@,
            ),
        decreases arms.len() - index,
    {
        proof {
            assert(table.skip(index as int)[0] == arms@[index as int]@);
            assert(table.skip(index as int).drop_first() =~= table.skip(index + 1));
        }
        if arms[index].token == wanted {
            return Ok(arms[index].width);
        }
        index += 1;
    }
    Err(TransformError::UnsupportedType)
}

/// Selects the width for a type name among the supported ones.
pub fn dispatch(token: &str) -> (result: Result<u32, TransformError>)
    ensures
        result == select_width_spec(width_table_spec(), token@),
{
    let arms = width_table();
    select_width(&arms, token)
}

/// Each of the five supported type names selects exactly the width that it is named
/// after, and every other name is refused.
pub proof fn lemma_dispatch_selects_matching_width(token: Seq<char>)
    ensures
        select_width_spec(width_table_spec(), "u8"@) == Ok::<u32, TransformError>(8),
        select_width_spec(width_table_spec(), "u16"@) == Ok::<u32, TransformError>(16),
        select_width_spec(width_table_spec(), "u32"@) == Ok::<u32, TransformError>(32),
        select_width_spec(width_table_spec(), "u64"@) == Ok::<u32, TransformError>(64),
        select_width_spec(width_table_spec(), "u128"@) == Ok::<u32, TransformError>(128),
        token != "u8"@ && token != "u16"@ && token != "u32"@ && token != "u64"@
            && token != "u128"@ ==> select_width_spec(width_table_spec(), token) == Err::<
            u32,
            TransformError,
        >(TransformError::UnsupportedType),
        select_width_spec(width_table_spec(), token) matches Ok(width) ==> is_supported_width(
            width,
        ),
{
    reveal_strlit("u8");
    reveal_strlit("u16");
    reveal_strlit("u32");
    reveal_strlit("u64");
    reveal_strlit("u128");
    reveal_with_fuel(select_width_spec, 6);
    let table = width_table_spec();
    assert(table.drop_first().drop_first().drop_first().drop_first().drop_first().len() == 0);
    assert("u8"@.len() == 2 && "u16"@.len() == 3 && "u32"@.len() == 3 && "u64"@.len() == 3
        && "u128"@.len() == 4);
    assert("u16"@[1] == '1' && "u32"@[1] == '3' && "u64"@[1] == '6');
}

} // verus!
