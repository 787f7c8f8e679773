//! Return coverage: for a function whose result kind is not `void`,
//! every control-flow path of the body must end in a `return`. Only the
//! last statement of a block can provide the cover: a `return` itself,
//! or an `if` with an `else` whose branches are both covered.

use vstd::prelude::*;
use crate::syntax_tree::{Kind, Location, Stat, StatList, StatType};
use super::semantic_error::MissingReturn;

verus! {

/// Whether a body is covered, or the missing-return error that points
/// at the function and at the offending last statement. An empty block
/// is covered only for a `void` result kind; with no statement to
/// blame, the error points at the function twice.
pub open spec fn spec_return_cover(body: Seq<Stat>, func_loc: Location, kind: Kind) -> Result<
    (),
    MissingReturn,
>
    decreases body, 1int,
{
    if body.len() == 0 {
        if kind == Kind::Void {
            Ok(())
        } else {
            Err(MissingReturn { func_loc, stat_loc: func_loc, kind })
        }
    } else {
        spec_return_last(body.last(), func_loc, kind)
    }
}

/// Whether a block's last statement covers it.
pub open spec fn spec_return_last(stat: Stat, func_loc: Location, kind: Kind) -> Result<
    (),
    MissingReturn,
>
    decreases stat, 0int,
{
    match stat.stat {
        StatType::ReturnStat(_) => Ok(()),
        StatType::IfStat(if_stat) => match if_stat.else_body {
            Some(else_part) => match spec_return_cover(if_stat.if_body@, func_loc, kind) {
                Ok(()) => spec_return_cover(else_part@, func_loc, kind),
                Err(e) => Err(e),
            },
            None => Err(MissingReturn { func_loc, stat_loc: stat.loc, kind }),
        },
        _ => Err(MissingReturn { func_loc, stat_loc: stat.loc, kind }),
    }
}

/// Verify that every path of `body` ends in a `return`, exactly as
/// `spec_return_cover` describes.
pub fn check_full_return_cover(body: &StatList, func_loc: &Location, kind: &Kind) -> (r: Result<
    (),
    MissingReturn,
>)
    ensures
        r == spec_return_cover(body@, *func_loc, *kind),
    decreases body@, 1int,
{
    if body.len() == 0 {
        if *kind == Kind::Void {
            Ok(())
        } else {
            Err(MissingReturn::new(func_loc, func_loc, *kind))
        }
    } else {
        let last = &body[body.len() - 1];
        proof {
            assert(body@.last() == body@[body@.len() - 1]);
        }
        check_return(last, func_loc, kind)
    }
}

/// Verify that a block's last statement covers the block.
fn check_return(stat: &Stat, func_loc: &Location, kind: &Kind) -> (r: Result<(), MissingReturn>)
    ensures
        r == spec_return_last(*stat, *func_loc, *kind),
    decreases *stat, 0int,
{
    match &stat.stat {
        StatType::ReturnStat(_) => Ok(()),
        StatType::IfStat(if_stat) => match &if_stat.else_body {
            Some(else_part) => {
                match check_full_return_cover(&if_stat.if_body, func_loc, kind) {
                    Ok(()) => check_full_return_cover(else_part, func_loc, kind),
                    Err(e) => Err(e),
                }
            },
            None => Err(MissingReturn::new(func_loc, &stat.loc, *kind)),
        },
        _ => Err(MissingReturn::new(func_loc, &stat.loc, *kind)),
    }
}

} // verus!
