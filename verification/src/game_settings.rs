//! Rewriting the game's own settings file to match the target resolution.
//!
//! The settings file is an INI-style text; lines that pin the resolution,
//! letterboxing, vsync, dynamic resolution or fullscreen mode are replaced,
//! and a missing fullscreen-mode line is inserted at the top.  Reading the
//! file, unlocking it and writing it back is I/O done outside the library;
//! the text transformation is verified here.  The last-login user and the
//! per-user settings folder are found by the same line rules the game
//! writes.

use vstd::prelude::*;

use crate::strutil::{
    contains, spec_contains, spec_dec, spec_join, spec_lines, spec_starts_with, split_lines,
    starts_with, substring_from, u32_to_string,
};
use crate::text::{
    apply_replacements, insert_line_at, replace_multiple_parallel, reps_view,
    spec_out_of_bounds_msg,
};

verus! {

/// The replacement for one settings line, if the line pins one of the
/// rewritten keys: letterboxing, vsync and dynamic resolution are switched
/// off, the resolution keys take the target width and height, and every
/// fullscreen-mode key is pinned to mode 2.
pub open spec fn spec_line_replacement(line: Seq<char>, width: int, height: int) -> Option<
    Seq<char>,
> {
    if spec_starts_with(line, "bShouldLetterbox="@) {
        Some("bShouldLetterbox=False"@)
    } else if spec_starts_with(line, "bLastConfirmedShouldLetterbox="@) {
        Some("bLastConfirmedShouldLetterbox=False"@)
    } else if spec_starts_with(line, "bUseVSync="@) {
        Some("bUseVSync=False"@)
    } else if spec_starts_with(line, "bUseDynamicResolution="@) {
        Some("bUseDynamicResolution=False"@)
    } else if spec_starts_with(line, "ResolutionSizeX="@) {
        Some("ResolutionSizeX="@ + spec_dec(width))
    } else if spec_starts_with(line, "LastUserConfirmedResolutionSizeX="@) {
        Some("LastUserConfirmedResolutionSizeX="@ + spec_dec(width))
    } else if spec_starts_with(line, "ResolutionSizeY="@) {
        Some("ResolutionSizeY="@ + spec_dec(height))
    } else if spec_starts_with(line, "LastUserConfirmedResolutionSizeY="@) {
        Some("LastUserConfirmedResolutionSizeY="@ + spec_dec(height))
    } else if spec_starts_with(line, "LastConfirmedFullscreenMode="@) {
        Some("LastConfirmedFullscreenMode=2"@)
    } else if spec_starts_with(line, "PreferredFullscreenMode="@) {
        Some("PreferredFullscreenMode=2"@)
    } else if spec_starts_with(line, "FullscreenMode="@) {
        Some("FullscreenMode=2"@)
    } else {
        None
    }
}

fn line_replacement(line: &str, width: u32, height: u32) -> (r: Option<String>)
    ensures
        match spec_line_replacement(line@, width as int, height as int) {
            Some(v) => r matches Some(s) && s@ == v,
            None => r is None,
        },
{
    if starts_with(line, "bShouldLetterbox=") {
        Some(String::from_str("bShouldLetterbox=False"))
    } else if starts_with(line, "bLastConfirmedShouldLetterbox=") {
        Some(String::from_str("bLastConfirmedShouldLetterbox=False"))
    } else if starts_with(line, "bUseVSync=") {
        Some(String::from_str("bUseVSync=False"))
    } else if starts_with(line, "bUseDynamicResolution=") {
        Some(String::from_str("bUseDynamicResolution=False"))
    } else if starts_with(line, "ResolutionSizeX=") {
        let mut s = String::from_str("ResolutionSizeX=");
        let d = u32_to_string(width);
        s.append(d.as_str());
        Some(s)
    } else if starts_with(line, "LastUserConfirmedResolutionSizeX=") {
        let mut s = String::from_str("LastUserConfirmedResolutionSizeX=");
        let d = u32_to_string(width);
        s.append(d.as_str());
        Some(s)
    } else if starts_with(line, "ResolutionSizeY=") {
        let mut s = String::from_str("ResolutionSizeY=");
        let d = u32_to_string(height);
        s.append(d.as_str());
        Some(s)
    } else if starts_with(line, "LastUserConfirmedResolutionSizeY=") {
        let mut s = String::from_str("LastUserConfirmedResolutionSizeY=");
        let d = u32_to_string(height);
        s.append(d.as_str());
        Some(s)
    } else if starts_with(line, "LastConfirmedFullscreenMode=") {
        Some(String::from_str("LastConfirmedFullscreenMode=2"))
    } else if starts_with(line, "PreferredFullscreenMode=") {
        Some(String::from_str("PreferredFullscreenMode=2"))
    } else if starts_with(line, "FullscreenMode=") {
        Some(String::from_str("FullscreenMode=2"))
    } else {
        None
    }
}

/// The planned replacements for a settings text, one per rewritten line,
/// keyed by one-based line number in ascending order.
pub open spec fn spec_plan(ls: Seq<Seq<char>>, width: int, height: int) -> Seq<
    (usize, Seq<char>),
>
    decreases ls.len(),
{
    if ls.len() == 0 {
        Seq::empty()
    } else {
        spec_plan(ls.drop_last(), width, height) + (match spec_line_replacement(
            ls.last(),
            width,
            height,
        ) {
            Some(v) => seq![(ls.len() as usize, v)],
            None => Seq::empty(),
        })
    }
}

/// Plans the replacements for the settings lines.
pub fn plan_resolution_replacements(lines: &Vec<String>, width: u32, height: u32) -> (r: Vec<
    (usize, String)>)
    ensures
        reps_view(r@) == spec_plan(lines.deep_view(), width as int, height as int),
        forall|i: int| 0 <= i < r@.len() ==> (#[trigger] r@[i]).0 >= 1,
{
    let n = lines.len();
    let mut plan: Vec<(usize, String)> = Vec::new();
    let mut i: usize = 0;
    proof {
        assert(reps_view(plan@) =~= spec_plan(lines.deep_view().take(0), width as int, height as int));
    }
    while i < n
        invariant
            n == lines@.len(),
            i <= n,
            reps_view(plan@) == spec_plan(lines.deep_view().take(i as int), width as int, height as int),
            forall|j: int| 0 <= j < plan@.len() ==> (#[trigger] plan@[j]).0 >= 1,
        decreases n - i,
    {
        let ghost prefix = lines.deep_view().take(i as int + 1);
        proof {
            assert(prefix.drop_last() =~= lines.deep_view().take(i as int));
            assert(prefix.last() == lines.deep_view()[i as int]);
        }
        match line_replacement(lines[i].as_str(), width, height) {
            Some(v) => {
                let ghost before = reps_view(plan@);
                plan.push((i + 1, v));
                proof {
                    assert(reps_view(plan@) =~= before.push(
                        (plan@.last().0, plan@.last().1@),
                    ));
                    assert(reps_view(plan@) =~= before + seq![
                        ((i + 1) as usize, plan@.last().1@),
                    ]);
                }
            },
            None => {
                proof {
                    assert(reps_view(plan@) =~= spec_plan(prefix, width as int, height as int));
                }
            },
        }
        i += 1;
    }
    proof {
        assert(lines.deep_view().take(n as int) =~= lines.deep_view());
    }
    plan
}

/// No line of the text pins the fullscreen mode.
pub open spec fn spec_no_fullscreen_line(ls: Seq<Seq<char>>) -> bool {
    forall|i: int| 0 <= i < ls.len() ==> !spec_starts_with(#[trigger] ls[i], "FullscreenMode="@)
}

fn has_fullscreen_line(lines: &Vec<String>) -> (r: bool)
    ensures
        r == !spec_no_fullscreen_line(lines.deep_view()),
{
    let n = lines.len();
    let mut i: usize = 0;
    while i < n
        invariant
            n == lines@.len(),
            i <= n,
            forall|j: int|
                0 <= j < i ==> !spec_starts_with(
                    #[trigger] lines.deep_view()[j],
                    "FullscreenMode="@,
                ),
        decreases n - i,
    {
        if starts_with(lines[i].as_str(), "FullscreenMode=") {
            proof {
                assert(spec_starts_with(lines.deep_view()[i as int], "FullscreenMode="@));
            }
            return true;
        }
        i += 1;
    }
    false
}

/// The rewritten settings text: every pinned key replaced for the target
/// width and height, and a fullscreen-mode line inserted after the first
/// line when none survives the replacement.  A rewrite that would touch a
/// line with nothing after it fails with that line's number, and an empty
/// text cannot take the inserted line.
pub open spec fn spec_apply_settings(content: Seq<char>, width: int, height: int) -> Result<
    Seq<char>,
    Seq<char>,
> {
    let ls = spec_lines(content);
    match apply_replacements(ls, spec_plan(ls, width, height)) {
        Err(n) => Err(spec_out_of_bounds_msg(n as int)),
        Ok(ls2) => {
            let joined = spec_join(ls2);
            if spec_no_fullscreen_line(spec_lines(joined)) {
                if 1 <= spec_lines(joined).len() {
                    Ok(spec_join(spec_lines(joined).insert(1, "FullscreenMode=2"@)))
                } else {
                    Err(spec_out_of_bounds_msg(1))
                }
            } else {
                Ok(joined)
            }
        },
    }
}

/// Rewrites a settings text for the target width and height.
pub fn apply_resolution_settings(content: String, width: u32, height: u32) -> (r: Result<
    String,
    String,
>)
    ensures
        match spec_apply_settings(content@, width as int, height as int) {
            Ok(t) => r matches Ok(o) && o@ == t,
            Err(m) => r matches Err(e) && e@ == m,
        },
{
    let lines = split_lines(content.as_str());
    let plan = plan_resolution_replacements(&lines, width, height);
    let replaced = match replace_multiple_parallel(content, &plan) {
        Ok(t) => t,
        Err(e) => {
            return Err(e);
        },
    };
    let replaced_lines = split_lines(replaced.as_str());
    if !has_fullscreen_line(&replaced_lines) {
        insert_line_at(replaced, 1, 1, String::from_str("FullscreenMode=2"))
    } else {
        Ok(replaced)
    }
}

/// The value of the first line that carries the given key prefix, if any.
pub open spec fn spec_first_value(ls: Seq<Seq<char>>, key: Seq<char>) -> Option<Seq<char>>
    decreases ls.len(),
{
    if ls.len() == 0 {
        None
    } else if spec_starts_with(ls[0], key) {
        Some(ls[0].skip(key.len() as int))
    } else {
        spec_first_value(ls.skip(1), key)
    }
}

/// Finds the user the game last logged in, from the local-machine INI text:
/// the value of its first `LastKnownUser=` line.
pub fn last_known_user(user_info: &str) -> (r: Result<String, String>)
    ensures
        match spec_first_value(spec_lines(user_info@), "LastKnownUser="@) {
            Some(v) => r matches Ok(u) && u@ == v,
            None => r matches Err(m) && m@ == "LastKnownUser not found"@,
        },
{
    let lines = split_lines(user_info);
    let n = lines.len();
    let mut i: usize = 0;
    proof {
        assert(lines.deep_view().skip(0) =~= lines.deep_view());
    }
    while i < n
        invariant
            n == lines@.len(),
            i <= n,
            lines.deep_view() == spec_lines(user_info@),
            spec_first_value(lines.deep_view(), "LastKnownUser="@) == spec_first_value(
                lines.deep_view().skip(i as int),
                "LastKnownUser="@,
            ),
        decreases n - i,
    {
        let ghost remaining = lines.deep_view().skip(i as int);
        proof {
            assert(remaining[0] == lines.deep_view()[i as int]);
            assert(lines.deep_view()[i as int] == lines@[i as int]@);
            assert(remaining.skip(1) =~= lines.deep_view().skip(i as int + 1));
        }
        if starts_with(lines[i].as_str(), "LastKnownUser=") {
            let v = substring_from(lines[i].as_str(), "LastKnownUser=".unicode_len());
            proof {
                assert(spec_starts_with(remaining[0], "LastKnownUser="@));
                assert(spec_first_value(remaining, "LastKnownUser="@) == Some(
                    remaining[0].skip("LastKnownUser="@.len() as int),
                ));
                assert(v@ == remaining[0].skip("LastKnownUser="@.len() as int));
            }
            return Ok(v);
        }
        i += 1;
    }
    proof {
        assert(lines.deep_view().skip(n as int).len() == 0);
    }
    Err(String::from_str("LastKnownUser not found"))
}

/// The first entry that holds the user's name, if any.
pub open spec fn spec_first_containing(entries: Seq<Seq<char>>, user: Seq<char>) -> Option<
    Seq<char>,
>
    decreases entries.len(),
{
    if entries.len() == 0 {
        None
    } else if spec_contains(entries[0], user) {
        Some(entries[0])
    } else {
        spec_first_containing(entries.skip(1), user)
    }
}

/// Finds the per-user settings folder: the first directory entry whose name
/// holds the user's name.  The directory listing is read outside the
/// library and handed over as plain names.
pub fn find_user_folder(entries: &Vec<String>, user: &str) -> (r: Option<String>)
    ensures
        match spec_first_containing(entries.deep_view(), user@) {
            Some(v) => r matches Some(f) && f@ == v,
            None => r is None,
        },
{
    let n = entries.len();
    let mut i: usize = 0;
    proof {
        assert(entries.deep_view().skip(0) =~= entries.deep_view());
    }
    while i < n
        invariant
            n == entries@.len(),
            i <= n,
            spec_first_containing(entries.deep_view(), user@) == spec_first_containing(
                entries.deep_view().skip(i as int),
                user@,
            ),
        decreases n - i,
    {
        let ghost remaining = entries.deep_view().skip(i as int);
        proof {
            assert(remaining[0] == entries.deep_view()[i as int]);
            assert(entries.deep_view()[i as int] == entries@[i as int]@);
            assert(remaining.skip(1) =~= entries.deep_view().skip(i as int + 1));
        }
        if contains(entries[i].as_str(), user) {
            return Some(entries[i].clone());
        }
        i += 1;
    }
    proof {
        assert(entries.deep_view().skip(n as int).len() == 0);
    }
    None
}

} // verus!
