//! Line-level text edits, as the game configuration rewriter uses them:
//! replacing numbered lines and inserting a line at a position.
//!
//! Line numbers count from one.  A line can be replaced only while some line
//! follows it, and text is written back joined with single newlines — both
//! exactly as the rewriting has always behaved.

use vstd::prelude::*;

use crate::strutil::{join_lines, spec_dec, spec_join, spec_lines, split_lines, usize_to_string};

verus! {

/// The out-of-bounds message for line number `n`.
pub open spec fn spec_out_of_bounds_msg(n: int) -> Seq<char> {
    "Line number "@ + spec_dec(n) + " out of bounds"@
}

fn out_of_bounds_msg(n: usize) -> (r: String)
    ensures
        r@ == spec_out_of_bounds_msg(n as int),
{
    let mut m = String::from_str("Line number ");
    let digits = usize_to_string(n);
    m.append(digits.as_str());
    m.append(" out of bounds");
    proof {
        assert(m@ =~= spec_out_of_bounds_msg(n as int));
    }
    m
}

/// The lines after applying the replacements in order: each pair holds a
/// one-based line number and the new line.  A number without a following
/// line stops the rewrite and names itself.
pub open spec fn apply_replacements(ls: Seq<Seq<char>>, rs: Seq<(usize, Seq<char>)>) -> Result<
    Seq<Seq<char>>,
    usize,
>
    decreases rs.len(),
{
    if rs.len() == 0 {
        Ok(ls)
    } else if 0 < rs[0].0 < ls.len() {
        apply_replacements(ls.update(rs[0].0 - 1, rs[0].1), rs.skip(1))
    } else {
        Err(rs[0].0)
    }
}

/// The replacement pairs' character view.
pub open spec fn reps_view(rs: Seq<(usize, String)>) -> Seq<(usize, Seq<char>)> {
    rs.map_values(|p: (usize, String)| (p.0, p.1@))
}

/// Replaces several numbered lines at once.  Every line number must have a
/// line following it; the first that does not is reported, after which the
/// content is dropped unchanged.
pub fn replace_multiple_parallel(content: String, replacements: &Vec<(usize, String)>) -> (r:
    Result<String, String>)
    requires
        forall|i: int| 0 <= i < replacements@.len() ==> (#[trigger] replacements@[i]).0 >= 1,
    ensures
        match apply_replacements(spec_lines(content@), reps_view(replacements@)) {
            Ok(ls) => {
                &&& r matches Ok(o)
                &&& o@ == spec_join(ls)
            },
            Err(n) => {
                &&& r matches Err(m)
                &&& m@ == spec_out_of_bounds_msg(n as int)
            },
        },
{
    let mut lines = split_lines(content.as_str());
    let ghost all = reps_view(replacements@);
    let k = replacements.len();
    let mut i: usize = 0;
    proof {
        assert(all.skip(0) =~= all);
    }
    while i < k
        invariant
            k == replacements@.len(),
            i <= k,
            forall|j: int| 0 <= j < replacements@.len() ==> (#[trigger] replacements@[j]).0 >= 1,
            all == reps_view(replacements@),
            apply_replacements(spec_lines(content@), all) == apply_replacements(
                lines.deep_view(),
                all.skip(i as int),
            ),
        decreases k - i,
    {
        let ghost rest = all.skip(i as int);
        proof {
            assert(rest[0] == (replacements@[i as int].0, replacements@[i as int].1@));
            assert(rest.skip(1) =~= all.skip(i as int + 1));
        }
        let line_number = replacements[i].0;
        if line_number < lines.len() {
            let new_line = replacements[i].1.clone();
            let ghost before = lines.deep_view();
            lines.set(line_number - 1, new_line);
            proof {
                assert(lines.deep_view() =~= before.update(line_number - 1, new_line@));
            }
        } else {
            return Err(out_of_bounds_msg(line_number));
        }
        i += 1;
    }
    proof {
        assert(all.skip(k as int).len() == 0);
    }
    Ok(join_lines(&lines))
}

/// Replaces one numbered line, failing when no line follows that number.
pub fn replace_single_parallel(content: String, line_number: usize, new_line: String) -> (r: Result<
    String,
    String,
>)
    requires
        line_number >= 1,
    ensures
        line_number < spec_lines(content@).len() ==> {
            &&& r matches Ok(o)
            &&& o@ == spec_join(spec_lines(content@).update(line_number - 1, new_line@))
        },
        line_number >= spec_lines(content@).len() ==> {
            &&& r matches Err(m)
            &&& m@ == spec_out_of_bounds_msg(line_number as int)
        },
{
    let mut lines = split_lines(content.as_str());
    if line_number < lines.len() {
        let ghost before = lines.deep_view();
        lines.set(line_number - 1, new_line);
        proof {
            assert(lines.deep_view() =~= before.update(line_number - 1, new_line@));
        }
        Ok(join_lines(&lines))
    } else {
        Err(out_of_bounds_msg(line_number))
    }
}

/// Inserts a line: before the numbered line when `mode` is zero, after it
/// when `mode` is one, and not at all for any other mode.  The number may
/// reach one past the last line; beyond that the rewrite fails.
pub fn insert_line_at(content: String, line_number: usize, mode: u32, new_line: String) -> (r:
    Result<String, String>)
    requires
        mode == 0 ==> line_number >= 1,
    ensures
        line_number <= spec_lines(content@).len() ==> {
            &&& r matches Ok(o)
            &&& o@ == spec_join(
                if mode == 1 {
                    spec_lines(content@).insert(line_number as int, new_line@)
                } else if mode == 0 {
                    spec_lines(content@).insert(line_number - 1, new_line@)
                } else {
                    spec_lines(content@)
                },
            )
        },
        line_number > spec_lines(content@).len() ==> {
            &&& r matches Err(m)
            &&& m@ == spec_out_of_bounds_msg(line_number as int)
        },
{
    let mut lines = split_lines(content.as_str());
    if line_number <= lines.len() {
        if mode == 1 {
            let ghost before = lines.deep_view();
            lines.insert(line_number, new_line);
            proof {
                assert(lines.deep_view() =~= before.insert(line_number as int, new_line@));
            }
        } else if mode == 0 {
            let ghost before = lines.deep_view();
            lines.insert(line_number - 1, new_line);
            proof {
                assert(lines.deep_view() =~= before.insert(line_number - 1, new_line@));
            }
        }
        Ok(join_lines(&lines))
    } else {
        Err(out_of_bounds_msg(line_number))
    }
}

} // verus!
