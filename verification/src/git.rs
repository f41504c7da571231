//! Reading what git and other commands print: changed paths, porcelain
//! status lines, and the outcome record of a captured command.
use vstd::prelude::*;

use crate::sorting::{sort_dedup, strictly_sorted, views};
use crate::text::{
    byte_boundary, chars_of, char_index_at_byte, lines, slice, split_last, split_last_piece,
    split_lines, string_of, trim, trim_chars,
};

verus! {

/// What a captured command produced: exit success, trimmed standard output
/// and error, and the exit code (1 when the process had none).
#[derive(Debug, Clone)]
pub struct CommandOutcome {
    pub success: bool,
    pub output: String,
    pub error: String,
    pub exit_code: i32,
}

/// The separator of renamed entries in porcelain status lines.
pub open spec fn rename_arrow() -> Seq<char> {
    seq![' ', '-', '>', ' ']
}

/// The path that one `git status --porcelain=v1` line reports: the text
/// after the two status columns (byte offset 2, which must be a character
/// boundary), trimmed, non-empty, and for a rename the part after the arrow.
pub open spec fn status_entry(line: Seq<char>) -> Option<Seq<char>> {
    if exists|k: int| byte_boundary(line, 2, k) {
        let k = choose|k: int| byte_boundary(line, 2, k);
        let t = trim(line.subrange(k, line.len() as int));
        if t.len() == 0 {
            None
        } else {
            Some(split_last(t, rename_arrow()))
        }
    } else {
        None
    }
}

/// The paths reported by porcelain status `output`.
pub open spec fn status_paths(output: Seq<char>) -> Set<Seq<char>> {
    Set::new(
        |p: Seq<char>|
            exists|i: int|
                0 <= i < lines(output).len() && status_entry(#[trigger] lines(output)[i])
                    == Some(p),
    )
}

fn status_entry_of(line: &[char]) -> (r: Option<Vec<char>>)
    ensures
        r matches Some(p) ==> status_entry(line@) == Some(p@),
        r is None ==> status_entry(line@) is None,
{
    match char_index_at_byte(line, 2) {
        None => None,
        Some(k) => {
            proof {
                assert(byte_boundary(line@, 2, k as int));
                let c = choose|c: int| byte_boundary(line@, 2, c);
                crate::text::lemma_byte_boundary_unique(line@, 2, k as int, c);
            }
            let rest = slice(line, k, line.len());
            let t = trim_chars(&rest);
            if t.len() == 0 {
                None
            } else {
                let arrow = [' ', '-', '>', ' '];
                assert(arrow@ =~= rename_arrow());
                Some(split_last_piece(&t, &arrow))
            }
        },
    }
}

/// Paths that `git status --porcelain=v1` reported, sorted, without
/// duplicates.
pub fn parse_git_status_paths(output: &str) -> (paths: Vec<String>)
    ensures
        strictly_sorted(paths@.map_values(|p: String| p@)),
        paths@.map_values(|p: String| p@).to_set() == status_paths(output@),
{
    let o = chars_of(output);
    let ls = split_lines(&o);
    let mut found: Vec<Vec<char>> = Vec::new();
    let mut i: usize = 0;
    while i < ls.len()
        invariant
            i <= ls@.len(),
            ls@.len() == lines(output@).len(),
            forall|k: int| 0 <= k < ls@.len() ==> #[trigger] ls@[k]@ == lines(output@)[k],
            forall|q: Seq<char>|
                views(found@).contains(q) <==> exists|j: int|
                    0 <= j < i && status_entry(#[trigger] lines(output@)[j]) == Some(q),
        decreases ls@.len() - i,
    {
        let ghost before = views(found@);
        let ghost li = lines(output@)[i as int];
        match status_entry_of(&ls[i]) {
            Some(p) => {
                let ghost pv = p@;
                found.push(p);
                proof {
                    assert(views(found@) =~= before.push(pv));
                    assert forall|q: Seq<char>| views(found@).contains(q) <==> exists|j: int|
                        0 <= j < i + 1 && status_entry(#[trigger] lines(output@)[j]) == Some(q) by {
                        if views(found@).contains(q) {
                            if q == pv {
                                assert(status_entry(lines(output@)[i as int]) == Some(q));
                            } else {
                                let k = choose|k: int| 0 <= k < views(found@).len() && views(found@)[k] == q;
                                assert(before[k] == q);
                                assert(before.contains(q));
                            }
                        }
                        if exists|j: int| 0 <= j < i + 1 && status_entry(#[trigger] lines(output@)[j]) == Some(q) {
                            let j = choose|j: int| 0 <= j < i + 1 && status_entry(#[trigger] lines(output@)[j]) == Some(q);
                            if j < i {
                                assert(before.contains(q));
                                let k = choose|k: int| 0 <= k < before.len() && before[k] == q;
                                assert(views(found@)[k] == q);
                            } else {
                                assert(views(found@)[before.len() as int] == q);
                            }
                        }
                    }
                }
            },
            None => {
                proof {
                    assert forall|q: Seq<char>| views(found@).contains(q) <==> exists|j: int|
                        0 <= j < i + 1 && status_entry(#[trigger] lines(output@)[j]) == Some(q) by {
                        if exists|j: int| 0 <= j < i + 1 && status_entry(#[trigger] lines(output@)[j]) == Some(q) {
                            let j = choose|j: int| 0 <= j < i + 1 && status_entry(#[trigger] lines(output@)[j]) == Some(q);
                            assert(j < i);
                        }
                    }
                }
            },
        }
        i = i + 1;
    }
    let sorted = sort_dedup(found);
    let mut out: Vec<String> = Vec::new();
    let mut j: usize = 0;
    while j < sorted.len()
        invariant
            j <= sorted@.len(),
            out@.map_values(|p: String| p@) == views(sorted@).take(j as int),
        decreases sorted@.len() - j,
    {
        out.push(string_of(&sorted[j]));
        assert(views(sorted@).take(j + 1) =~= views(sorted@).take(j as int).push(sorted@[j as int]@));
        assert(out@.map_values(|p: String| p@) =~= views(sorted@).take(j + 1));
        j = j + 1;
    }
    assert(views(sorted@).take(sorted@.len() as int) == views(sorted@));
    assert(views(found@).to_set() =~= status_paths(output@));
    out
}

/// The lines of a command's output when the command succeeded and printed
/// something (after trimming, where `trimmed` is set); `None` otherwise.
pub fn paths_if_present(outcome: &CommandOutcome, trimmed: bool) -> (r: Option<Vec<String>>)
    ensures
        r is Some == (outcome.success && (if trimmed {
            trim(outcome.output@).len() > 0
        } else {
            outcome.output@.len() > 0
        })),
        r matches Some(ls) ==> ls@.map_values(|l: String| l@) == lines(outcome.output@),
{
    let o = chars_of(outcome.output.as_str());
    let present = if trimmed {
        trim_chars(&o).len() > 0
    } else {
        o.len() > 0
    };
    if !outcome.success || !present {
        return None;
    }
    let ls = split_lines(&o);
    let mut out: Vec<String> = Vec::new();
    let mut j: usize = 0;
    while j < ls.len()
        invariant
            j <= ls@.len(),
            ls@.len() == lines(o@).len(),
            forall|k: int| 0 <= k < ls@.len() ==> #[trigger] ls@[k]@ == lines(o@)[k],
            out@.map_values(|p: String| p@) == lines(o@).take(j as int),
        decreases ls@.len() - j,
    {
        out.push(string_of(&ls[j]));
        assert(lines(o@).take(j + 1) =~= lines(o@).take(j as int).push(ls@[j as int]@));
        assert(out@.map_values(|p: String| p@) =~= lines(o@).take(j + 1));
        j = j + 1;
    }
    assert(lines(o@).take(ls@.len() as int) =~= lines(o@));
    Some(out)
}

} // verus!
