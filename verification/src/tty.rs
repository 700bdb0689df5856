//! The second-stage pick lists: what the fzf run over a list of rows is
//! given, and what its output means.
use vstd::prelude::*;

use crate::palette::args_view;
use crate::text::{chars_of, owned, trim};

verus! {

broadcast use vstd::string::group_string_axioms;

/// The lines joined with newlines, each one ended by one.
pub open spec fn lines_text(lines: Seq<Seq<char>>) -> Seq<char>
    decreases lines.len(),
{
    if lines.len() == 0 {
        Seq::empty()
    } else {
        lines_text(lines.drop_last()) + lines.last() + "\n"@
    }
}

/// How to run fzf over some rows.
#[derive(Debug)]
pub struct PickPlan {
    /// What fzf reads.
    pub input: String,
    /// fzf's arguments.
    pub args: Vec<String>,
}

/// fzf's arguments for a pick over rows whose first row is `first`: show the
/// label column of `value<tab>label` rows (the whole row otherwise), prompt,
/// optional pre-typed query.
pub open spec fn spec_pick_args(first: Seq<char>, prompt: Seq<char>, prefill: Seq<char>) -> Seq<Seq<char>> {
    let with_nth = if first.contains('\t') { "--with-nth=2"@ } else { "--with-nth=1"@ };
    seq!["--delimiter=\t"@, with_nth, "--prompt"@, prompt]
        + (if prefill.len() > 0 { seq!["--query"@, prefill] } else { Seq::empty() })
        + seq!["--reverse"@, "--cycle"@, "--no-multi"@, "--tiebreak=begin,index"@]
}

/// The fzf run over `lines` with nothing typed in; `None` when there is
/// nothing to pick from.
pub fn pick_lines(lines: &Vec<String>, prompt: &str) -> (r: Option<PickPlan>)
    ensures
        lines@.len() == 0 ==> r is None,
        lines@.len() > 0 ==> (r matches Some(p) && p.input@ == lines_text(crate::files::views(lines@))
            && args_view(p.args@) == spec_pick_args(lines@[0]@, prompt@, Seq::empty())),
{
    proof {
        reveal_strlit("");
    }
    pick_lines_q(lines, prompt, "")
}

/// The fzf run over `lines`, with `prefill` typed in; `None` when there is
/// nothing to pick from.
pub fn pick_lines_q(lines: &Vec<String>, prompt: &str, prefill: &str) -> (r: Option<PickPlan>)
    ensures
        lines@.len() == 0 ==> r is None,
        lines@.len() > 0 ==> (r matches Some(p) && p.input@ == lines_text(crate::files::views(lines@))
            && args_view(p.args@) == spec_pick_args(lines@[0]@, prompt@, prefill@)),
{
    if lines.len() == 0 {
        return None;
    }
    let ghost lv = crate::files::views(lines@);
    let mut input = String::new();
    let mut i: usize = 0;
    while i < lines.len()
        invariant
            i <= lines.len(),
            lv == crate::files::views(lines@),
            input@ == lines_text(lv.take(i as int)),
        decreases lines.len() - i,
    {
        assert(lv.take(i + 1).drop_last() =~= lv.take(i as int));
        assert(lv.take(i + 1).last() == lines@[i as int]@);
        input.append(lines[i].as_str());
        input.append("\n");
        i = i + 1;
    }
    assert(lv.take(lv.len() as int) =~= lv);
    let first = chars_of(lines[0].as_str());
    let with_nth = if crate::text::contains_char(&first, '\t') {
        "--with-nth=2"
    } else {
        "--with-nth=1"
    };
    let mut args: Vec<String> = Vec::new();
    args.push(owned("--delimiter=\t"));
    args.push(owned(with_nth));
    args.push(owned("--prompt"));
    args.push(owned(prompt));
    if !prefill.is_empty() {
        args.push(owned("--query"));
        args.push(owned(prefill));
    }
    args.push(owned("--reverse"));
    args.push(owned("--cycle"));
    args.push(owned("--no-multi"));
    args.push(owned("--tiebreak=begin,index"));
    assert(args_view(args@) =~= spec_pick_args(lines@[0]@, prompt@, prefill@));
    Some(PickPlan { input, args })
}

/// The chosen line in fzf's output: the output trimmed, `None` when it is
/// empty or not UTF-8.
pub open spec fn spec_picked(out: Seq<u8>) -> Option<Seq<char>> {
    if vstd::utf8::valid_utf8(out) && trim(vstd::utf8::decode_utf8(out)).len() > 0 {
        Some(trim(vstd::utf8::decode_utf8(out)))
    } else {
        None
    }
}

/// The chosen line in the output of a successful fzf run.
pub fn picked(out: &[u8]) -> (r: Option<String>)
    ensures
        match r {
            Some(s) => spec_picked(out@) == Some(s@),
            None => spec_picked(out@) is None,
        },
{
    match crate::text::utf8_str(out) {
        Some(s) => {
            let t = crate::text::trimmed(s);
            if t.as_str().is_empty() {
                None
            } else {
                Some(t)
            }
        },
        None => None,
    }
}

} // verus!
