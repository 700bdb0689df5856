//! Content search (`/` mode): the preview of the matching lines, with the
//! search hits painted over bat's own colors.
//!
//! Painting walks the *visible* characters of each line: ANSI escape
//! sequences are read by a small automaton (`step`), the line-number gutter is
//! left alone, and a background color is switched on and off around each hit.
use vstd::prelude::*;

use crate::text::{chars_of, has_prefix_at, owned, trim, trim_start};

verus! {

broadcast use vstd::string::group_string_axioms;

/// Background only — no underline — so the hit word stands out on bat's colors.
pub const HIT_BG: &'static str = "\u{1b}[48;5;178m";
/// Ends the hit background.
pub const HIT_END: &'static str = "\u{1b}[49m";

/// Where the escape-sequence reader stands.
#[derive(Clone, Copy, PartialEq, Eq, Structural)]
pub enum Esc {
    /// Reading visible characters.
    Text,
    /// Just read an ESC.
    AfterEsc,
    /// Inside a `ESC [ ...` control sequence, up to its final letter.
    InCsi,
}

/// ASCII letters, which end a control sequence.
pub open spec fn is_alpha(c: char) -> bool {
    ('a' <= c && c <= 'z') || ('A' <= c && c <= 'Z')
}

/// One character through the reader: what it shows and the next state.
/// ESC starts an escape; `[` after it opens a control sequence that a
/// letter closes; ESC followed by anything else is a lone ESC.
pub open spec fn step(c: char, st: Esc) -> (Seq<char>, Esc) {
    match st {
        Esc::InCsi => if is_alpha(c) {
            (Seq::empty(), Esc::Text)
        } else {
            (Seq::empty(), Esc::InCsi)
        },
        Esc::AfterEsc => if c == '[' {
            (Seq::empty(), Esc::InCsi)
        } else if c == '\u{1b}' {
            (Seq::empty(), Esc::AfterEsc)
        } else {
            (seq![c], Esc::Text)
        },
        Esc::Text => if c == '\u{1b}' {
            (Seq::empty(), Esc::AfterEsc)
        } else {
            (seq![c], Esc::Text)
        },
    }
}

/// `s` through the reader from state `st`: the visible characters and the
/// final state.
pub open spec fn run(s: Seq<char>, st: Esc) -> (Seq<char>, Esc)
    decreases s.len(),
{
    if s.len() == 0 {
        (Seq::empty(), st)
    } else {
        let (o, st1) = step(s[0], st);
        let (o2, st2) = run(s.drop_first(), st1);
        (o + o2, st2)
    }
}

/// The visible text of `s`: `s` without its ANSI escape sequences.
pub open spec fn visible(s: Seq<char>) -> Seq<char> {
    run(s, Esc::Text).0
}

/// The indices in `s` of its visible characters.
pub open spec fn positions(s: Seq<char>) -> Seq<int>
    decreases s.len(),
{
    if s.len() == 0 {
        Seq::empty()
    } else {
        let p = positions(s.drop_last());
        if step(s.last(), run(s.drop_last(), Esc::Text).1).0.len() > 0 {
            p.push(s.len() - 1)
        } else {
            p
        }
    }
}

/// Reading `a + b` is reading `a`, then `b` from where `a` left off.
pub proof fn lemma_run_concat(a: Seq<char>, b: Seq<char>, st: Esc)
    ensures
        run(a + b, st) == (run(a, st).0 + run(b, run(a, st).1).0, run(b, run(a, st).1).1),
    decreases a.len(),
{
    if a.len() == 0 {
        assert(a + b =~= b);
    } else {
        lemma_run_concat(a.drop_first(), b, step(a[0], st).1);
        assert((a + b).drop_first() =~= a.drop_first() + b);
        assert((a + b)[0] == a[0]);
    }
}

/// Reading one more character.
pub proof fn lemma_run_push(a: Seq<char>, c: char, st: Esc)
    ensures
        run(a.push(c), st) == (run(a, st).0 + step(c, run(a, st).1).0, step(c, run(a, st).1).1),
{
    lemma_run_concat(a, seq![c], st);
    assert(a + seq![c] =~= a.push(c));
    let s1 = run(a, st).1;
    let one = seq![c];
    assert(one.drop_first() =~= Seq::<char>::empty());
    assert(one[0] == c);
    assert(run(one.drop_first(), step(c, s1).1) == (Seq::<char>::empty(), step(c, s1).1));
    assert(run(one, s1) == (step(c, s1).0 + Seq::<char>::empty(), step(c, s1).1));
    assert(step(c, s1).0 + Seq::<char>::empty() =~= step(c, s1).0);
}

/// A step shows at most the character it reads, and ends in `Text` when it
/// shows it.
pub proof fn lemma_step_shape(c: char, st: Esc)
    ensures
        step(c, st).0.len() == 0 || (step(c, st).0 == seq![c] && step(c, st).1 == Esc::Text && c != '\u{1b}'),
{
}

/// The index of the first character after visible character `k - 1`.
pub open spec fn piece_start(p: Seq<int>, k: int) -> int {
    if k == 0 {
        0
    } else {
        p[k - 1] + 1
    }
}

/// The visible characters of `s` split it into pieces: before each visible
/// character stands an invisible stretch that the reader leaves in a state
/// that shows that character; after the last one, an invisible tail.
pub open spec fn pieces_ok(s: Seq<char>, p: Seq<int>) -> bool {
    &&& p.len() == visible(s).len()
    &&& forall|k: int| 0 <= k < p.len() ==> 0 <= piece_start(p, k) <= #[trigger] p[k] < s.len()
    &&& forall|k: int| #![trigger p[k]] 0 <= k < p.len() ==> visible(s)[k] == s[p[k]]
    &&& forall|k: int| #![trigger p[k]] 0 <= k < p.len() ==> run(s.subrange(piece_start(p, k), p[k]), Esc::Text).0.len() == 0
    &&& forall|k: int| #![trigger p[k]] 0 <= k < p.len() ==> step(s[p[k]], run(s.subrange(piece_start(p, k), p[k]), Esc::Text).1) == (seq![s[p[k]]], Esc::Text)
    &&& 0 <= piece_start(p, p.len() as int) <= s.len()
    &&& run(s.subrange(piece_start(p, p.len() as int), s.len() as int), Esc::Text) == (Seq::<char>::empty(), run(s, Esc::Text).1)
}

/// `positions` splits `s` into pieces.
pub proof fn lemma_positions_pieces(s: Seq<char>)
    ensures
        pieces_ok(s, positions(s)),
    decreases s.len(),
{
    if s.len() == 0 {
        assert(s.subrange(0, 0) =~= Seq::<char>::empty());
    } else {
        let a = s.drop_last();
        lemma_positions_pieces(a);
        assert(a.push(s.last()) =~= s);
        lemma_pieces_extend(a, s.last());
    }
}

/// The open stretch after the last visible character, followed by `c`.
proof fn lemma_open_stretch(a: Seq<char>, p: Seq<int>, c: char)
    requires
        pieces_ok(a, p),
    ensures
        0 <= piece_start(p, p.len() as int) <= a.len(),
        run(a.push(c).subrange(piece_start(p, p.len() as int), a.len() + 1int), Esc::Text)
            == (step(c, run(a, Esc::Text).1).0, step(c, run(a, Esc::Text).1).1),
{
    let last = piece_start(p, p.len() as int);
    let t = a.subrange(last, a.len() as int);
    lemma_run_push(t, c, Esc::Text);
    assert(t.push(c) =~= a.push(c).subrange(last, a.len() + 1int));
    assert(Seq::<char>::empty() + step(c, run(a, Esc::Text).1).0 =~= step(c, run(a, Esc::Text).1).0);
}

/// Earlier pieces are unchanged by one more character.
proof fn lemma_pieces_prefix(a: Seq<char>, p: Seq<int>, c: char, k: int)
    requires
        pieces_ok(a, p),
        0 <= k < p.len(),
    ensures
        a.push(c).subrange(piece_start(p, k), p[k]) == a.subrange(piece_start(p, k), p[k]),
        a.push(c)[p[k]] == a[p[k]],
{
    assert(0 <= piece_start(p, k) <= p[k] < a.len());
    assert(a.push(c).subrange(piece_start(p, k), p[k]) =~= a.subrange(piece_start(p, k), p[k]));
}

/// One more character keeps the pieces well split.
#[verifier::spinoff_prover]
proof fn lemma_pieces_extend(a: Seq<char>, c: char)
    requires
        pieces_ok(a, positions(a)),
    ensures
        pieces_ok(a.push(c), positions(a.push(c))),
{
    let s = a.push(c);
    let p = positions(a);
    let st = run(a, Esc::Text).1;
    assert(s.drop_last() =~= a);
    assert(s.last() == c);
    lemma_run_push(a, c, Esc::Text);
    lemma_step_shape(c, st);
    lemma_open_stretch(a, p, c);
    let last = piece_start(p, p.len() as int);
    assert forall|k: int| 0 <= k < p.len() implies #[trigger] s.subrange(piece_start(p, k), p[k]) == a.subrange(piece_start(p, k), p[k]) && s[p[k]] == a[p[k]] by {
        lemma_pieces_prefix(a, p, c, k);
    }
    if step(c, st).0.len() > 0 {
        let q = p.push(a.len() as int);
        assert(positions(s) == q);
        assert(visible(s) =~= visible(a).push(c));
        assert forall|k: int| 0 <= k < q.len() implies 0 <= piece_start(q, k) <= #[trigger] q[k] < s.len() by {
            if k < p.len() {
                assert(piece_start(q, k) == piece_start(p, k));
            }
        }
        assert forall|k: int| #![trigger q[k]] 0 <= k < q.len() implies visible(s)[k] == s[q[k]] by {
            if k < p.len() {
                assert(visible(s)[k] == visible(a)[k]);
            }
        }
        assert(s.subrange(last, a.len() as int) =~= a.subrange(last, a.len() as int));
        assert forall|k: int| #![trigger q[k]] 0 <= k < q.len() implies run(s.subrange(piece_start(q, k), q[k]), Esc::Text).0.len() == 0
            && step(s[q[k]], run(s.subrange(piece_start(q, k), q[k]), Esc::Text).1) == (seq![s[q[k]]], Esc::Text) by {
            if k < p.len() {
                assert(piece_start(q, k) == piece_start(p, k));
            } else {
                assert(piece_start(q, k) == last);
            }
        }
        assert(piece_start(q, q.len() as int) == s.len());
        assert(s.subrange(s.len() as int, s.len() as int) =~= Seq::<char>::empty());
        assert(pieces_ok(s, q));
    } else {
        assert(positions(s) == p);
        assert(visible(s) =~= visible(a));
        assert(pieces_ok(s, p));
    }
}

// ---------------------------------------------------------------------------
// Reading visible text
// ---------------------------------------------------------------------------
/// Executable `step`.
fn step_exec(c: char, st: Esc) -> (r: (bool, Esc))
    ensures
        r.0 == (step(c, st).0.len() > 0),
        r.1 == step(c, st).1,
{
    proof {
        lemma_step_shape(c, st);
    }
    match st {
        Esc::InCsi => {
            if ('a' <= c && c <= 'z') || ('A' <= c && c <= 'Z') {
                (false, Esc::Text)
            } else {
                (false, Esc::InCsi)
            }
        },
        Esc::AfterEsc => {
            if c == '[' {
                (false, Esc::InCsi)
            } else if c == '\u{1b}' {
                (false, Esc::AfterEsc)
            } else {
                (true, Esc::Text)
            }
        },
        Esc::Text => {
            if c == '\u{1b}' {
                (false, Esc::AfterEsc)
            } else {
                (true, Esc::Text)
            }
        },
    }
}

/// A line's visible text and, for each visible character, its index in the
/// line.
#[derive(Debug)]
pub struct Vis {
    pub text: String,
    /// Index in the line of each visible character.
    pub starts: Vec<usize>,
}

/// The visible characters of `s` (ANSI escape sequences skipped) and where
/// each stands.
pub fn visible_chars(s: &[char]) -> (r: (Vec<char>, Vec<usize>))
    ensures
        r.0@ == visible(s@),
        r.1@.map_values(|x: usize| x as int) == positions(s@),
{
    let mut text: Vec<char> = Vec::new();
    let mut starts: Vec<usize> = Vec::new();
    let mut st = Esc::Text;
    let mut i: usize = 0;
    while i < s.len()
        invariant
            i <= s.len(),
            text@ == run(s@.take(i as int), Esc::Text).0,
            st == run(s@.take(i as int), Esc::Text).1,
            starts@.map_values(|x: usize| x as int) == positions(s@.take(i as int)),
        decreases s.len() - i,
    {
        let c = s[i];
        let (shows, next) = step_exec(c, st);
        proof {
            lemma_run_push(s@.take(i as int), c, Esc::Text);
            assert(s@.take(i as int).push(c) =~= s@.take(i + 1));
            assert(s@.take(i + 1).drop_last() =~= s@.take(i as int));
            lemma_step_shape(c, st);
        }
        if shows {
            let ghost before = starts@.map_values(|x: usize| x as int);
            text.push(c);
            starts.push(i);
            assert(starts@.map_values(|x: usize| x as int) =~= before.push(i as int));
        }
        proof {
            if !shows {
                assert(text@ =~= text@ + step(c, st).0);
            }
        }
        st = next;
        i = i + 1;
    }
    assert(s@.take(s@.len() as int) =~= s@);
    (text, starts)
}

/// The visible text of a line and where each visible character stands.
pub fn visible_map(s: &str) -> (v: Vis)
    ensures
        v.text@ == visible(s@),
        v.starts@.map_values(|x: usize| x as int) == positions(s@),
        v.starts@.len() == v.text@.len(),
        forall|k: int| 0 <= k < v.starts@.len() ==> #[trigger] v.starts@[k] < s@.len() && s@[v.starts@[k] as int]
            == v.text@[k],
        forall|j: int, k: int| 0 <= j < k < v.starts@.len() ==> #[trigger] v.starts@[j] < #[trigger] v.starts@[k],
{
    let cs = chars_of(s);
    let (text, starts) = visible_chars(&cs);
    let v = Vis { text: crate::text::string_of(&text), starts };
    proof {
        let p = positions(s@);
        lemma_positions_pieces(s@);
        assert(v.starts@.len() == p.len());
        assert forall|k: int| 0 <= k < v.starts@.len() implies #[trigger] v.starts@[k] < s@.len() && s@[v.starts@[k] as int]
            == v.text@[k] by {
            assert(p[k] == v.starts@[k] as int);
        }
        assert forall|j: int, k: int| 0 <= j < k < v.starts@.len() implies #[trigger] v.starts@[j] < #[trigger] v.starts@[k] by {
            assert(p[j] == v.starts@[j] as int && p[k] == v.starts@[k] as int);
            lemma_pieces_increasing(s@, p, j, k);
        }
    }
    v
}

// ---------------------------------------------------------------------------
// The gutter
// ---------------------------------------------------------------------------
/// The number of leading characters of `s` satisfying `digits`
/// (ASCII digits) or, without it, spaces.
pub open spec fn leading(s: Seq<char>, digits: bool) -> nat
    decreases s.len(),
{
    if s.len() > 0 && (if digits { '0' <= s[0] && s[0] <= '9' } else { s[0] == ' ' }) {
        1 + leading(s.drop_first(), digits)
    } else {
        0
    }
}

/// The width of bat's line-number gutter: spaces, at least one digit, and a
/// space; 0 when the line does not start that way.
pub open spec fn spec_gutter(v: Seq<char>) -> int {
    let a = leading(v, false) as int;
    let b = a + leading(v.skip(a), true);
    if b > a && b < v.len() && v[b] == ' ' {
        b + 1
    } else {
        0
    }
}

proof fn lemma_leading_skip(s: Seq<char>, i: int, digits: bool)
    requires
        0 <= i < s.len(),
        if digits { '0' <= s[i] && s[i] <= '9' } else { s[i] == ' ' },
    ensures
        leading(s.skip(i), digits) == 1 + leading(s.skip(i + 1), digits),
{
    assert(s.skip(i).drop_first() =~= s.skip(i + 1));
}

proof fn lemma_leading_bound(s: Seq<char>, digits: bool)
    ensures
        leading(s, digits) <= s.len(),
    decreases s.len(),
{
    if s.len() > 0 {
        lemma_leading_bound(s.drop_first(), digits);
    }
}

/// The gutter width of a visible line.
pub fn gutter_bytes(v: &[char]) -> (g: usize)
    ensures
        g == spec_gutter(v@),
        g <= v.len(),
{
    let mut i: usize = 0;
    assert(v@.skip(0) =~= v@);
    while i < v.len() && v[i] == ' '
        invariant
            i <= v.len(),
            leading(v@, false) == i + leading(v@.skip(i as int), false),
        decreases v.len() - i,
    {
        proof {
            lemma_leading_skip(v@, i as int, false);
        }
        i = i + 1;
    }
    let ghost a = i;
    assert(leading(v@.skip(i as int), false) == 0);
    let digits = i;
    let mut j: usize = i;
    assert(v@.skip(a as int).skip(0) =~= v@.skip(a as int));
    while j < v.len() && '0' <= v[j] && v[j] <= '9'
        invariant
            a <= j <= v.len(),
            a == digits,
            leading(v@, false) == a,
            leading(v@.skip(a as int), true) == (j - a) + leading(v@.skip(j as int), true),
        decreases v.len() - j,
    {
        proof {
            lemma_leading_skip(v@, j as int, true);
            assert(v@.skip(a as int).skip(j - a) =~= v@.skip(j as int));
        }
        j = j + 1;
    }
    proof {
        if j < v.len() {
            assert(leading(v@.skip(j as int), true) == 0);
        } else {
            assert(v@.skip(j as int).len() == 0);
        }
    }
    if j > digits && j < v.len() && v[j] == ' ' {
        j + 1
    } else {
        0
    }
}

// ---------------------------------------------------------------------------
// Marking the hits
// ---------------------------------------------------------------------------
/// The length of the first needle (in order) that is non-empty and starts
/// `rest`; 0 when none does.
pub open spec fn first_hit(rest: Seq<char>, needles: Seq<Seq<char>>) -> int
    decreases needles.len(),
{
    if needles.len() == 0 {
        0
    } else if needles[0].len() > 0 && needles[0].is_prefix_of(rest) {
        needles[0].len() as int
    } else {
        first_hit(rest, needles.drop_first())
    }
}

/// Marks for the characters of `rest`, scanning left to right: a hit marks
/// its characters and the scan resumes after it; otherwise one character is
/// left unmarked.
pub open spec fn mark_scan(rest: Seq<char>, needles: Seq<Seq<char>>) -> Seq<bool>
    decreases rest.len(),
{
    if rest.len() == 0 {
        Seq::empty()
    } else {
        let h = first_hit(rest, needles);
        if 0 < h <= rest.len() {
            Seq::new(h as nat, |i: int| true) + mark_scan(rest.skip(h), needles)
        } else {
            seq![false] + mark_scan(rest.drop_first(), needles)
        }
    }
}

/// The marks of a visible line: nothing in the gutter, the scan after it.
pub open spec fn spec_marks(text: Seq<char>, needles: Seq<Seq<char>>) -> Seq<bool> {
    let g = spec_gutter(text);
    Seq::new(g as nat, |i: int| false) + mark_scan(text.skip(g), needles)
}

proof fn lemma_first_hit_bound(rest: Seq<char>, needles: Seq<Seq<char>>)
    ensures
        0 <= first_hit(rest, needles) <= rest.len(),
    decreases needles.len(),
{
    if needles.len() > 0 && !(needles[0].len() > 0 && needles[0].is_prefix_of(rest)) {
        lemma_first_hit_bound(rest, needles.drop_first());
    }
}

/// The length of the first needle that occurs at `at` in `t`.
fn first_hit_at(t: &[char], at: usize, needles: &Vec<Vec<char>>) -> (h: usize)
    requires
        at <= t.len(),
    ensures
        h == first_hit(t@.skip(at as int), needles@.map_values(|n: Vec<char>| n@)),
{
    let ghost ns = needles@.map_values(|n: Vec<char>| n@);
    let mut k: usize = 0;
    assert(ns.skip(0) =~= ns);
    while k < needles.len()
        invariant
            k <= needles.len(),
            at <= t.len(),
            ns == needles@.map_values(|n: Vec<char>| n@),
            first_hit(t@.skip(at as int), ns) == first_hit(t@.skip(at as int), ns.skip(k as int)),
        decreases needles.len() - k,
    {
        assert(ns.skip(k as int).drop_first() =~= ns.skip(k + 1));
        assert(ns.skip(k as int)[0] == needles@[k as int]@);
        if needles[k].len() > 0 && has_prefix_at(t, at, needles[k].as_slice()) {
            return needles[k].len();
        }
        k = k + 1;
    }
    0
}

/// The marks of a visible line.
pub fn marks_for(text: &[char], needles: &Vec<Vec<char>>) -> (m: Vec<bool>)
    ensures
        m@ == spec_marks(text@, needles@.map_values(|n: Vec<char>| n@)),
{
    let ghost ns = needles@.map_values(|n: Vec<char>| n@);
    let g = gutter_bytes(text);
    let mut m: Vec<bool> = Vec::new();
    let mut k: usize = 0;
    while k < g
        invariant
            k <= g <= text.len(),
            m@ == Seq::new(k as nat, |i: int| false),
        decreases g - k,
    {
        m.push(false);
        k = k + 1;
        assert(m@ =~= Seq::new(k as nat, |i: int| false));
    }
    let mut i: usize = g;
    while i < text.len()
        invariant
            g <= i <= text.len(),
            g == spec_gutter(text@),
            ns == needles@.map_values(|n: Vec<char>| n@),
            m@ + mark_scan(text@.skip(i as int), ns) == spec_marks(text@, ns),
        decreases text.len() - i,
    {
        let ghost rest = text@.skip(i as int);
        let ghost before = m@;
        let h = first_hit_at(text, i, needles);
        proof {
            lemma_first_hit_bound(rest, ns);
        }
        if h > 0 {
            let mut j: usize = 0;
            while j < h
                invariant
                    j <= h,
                    m@ == before + Seq::new(j as nat, |x: int| true),
                decreases h - j,
            {
                m.push(true);
                j = j + 1;
                assert(m@ =~= before + Seq::new(j as nat, |x: int| true));
            }
            assert(rest.skip(h as int) =~= text@.skip(i + h));
            assert(m@ + mark_scan(text@.skip(i + h), ns) =~= before + (Seq::new(h as nat, |x: int| true) + mark_scan(rest.skip(h as int), ns)));
            i = i + h;
        } else {
            m.push(false);
            assert(rest.drop_first() =~= text@.skip(i + 1));
            assert(m@ + mark_scan(text@.skip(i + 1), ns) =~= before + (seq![false] + mark_scan(rest.drop_first(), ns)));
            i = i + 1;
        }
    }
    assert(text@.skip(text@.len() as int) =~= Seq::<char>::empty());
    assert(m@ + Seq::<bool>::empty() =~= m@);
    m
}

// ---------------------------------------------------------------------------
// Painting
// ---------------------------------------------------------------------------
/// An invisible stretch copied through, re-opening the hit background after
/// it when it holds an escape that may have reset the colors.
pub open spec fn spec_emit(chunk: Seq<char>, in_hit: bool) -> Seq<char> {
    if in_hit && chunk.contains('\u{1b}') {
        chunk + HIT_BG@
    } else {
        chunk
    }
}

/// The painted line from visible character `k` on, the previous one ending
/// at `last` and the background being on when `in_hit`.
pub open spec fn paint_from(line: Seq<char>, starts: Seq<int>, marks: Seq<bool>, k: int, last: int, in_hit: bool) -> Seq<char>
    decreases starts.len() - k,
{
    if k >= starts.len() || k < 0 {
        (if last < line.len() { spec_emit(line.subrange(last, line.len() as int), in_hit) } else { Seq::empty() })
            + (if in_hit { HIT_END@ } else { Seq::empty() })
    } else {
        let start = starts[k];
        let chunk = if start > last { spec_emit(line.subrange(last, start), in_hit) } else { Seq::empty() };
        let on = k < marks.len() && marks[k];
        let toggle = if on && !in_hit { HIT_BG@ } else if !on && in_hit { HIT_END@ } else { Seq::empty() };
        chunk + toggle + seq![line[start]] + paint_from(line, starts, marks, k + 1, start + 1, on)
    }
}

/// One visible character of the painting.
proof fn lemma_paint_step(line: Seq<char>, starts: Seq<int>, marks: Seq<bool>, k: int, last: int, in_hit: bool)
    requires
        0 <= k < starts.len(),
    ensures
        paint_from(line, starts, marks, k, last, in_hit) == (if starts[k] > last { spec_emit(line.subrange(last, starts[k]), in_hit) } else { Seq::empty() })
            + (if (k < marks.len() && marks[k]) && !in_hit { HIT_BG@ } else if !(k < marks.len() && marks[k]) && in_hit { HIT_END@ } else { Seq::empty() })
            + seq![line[starts[k]]] + paint_from(line, starts, marks, k + 1, starts[k] + 1, k < marks.len() && marks[k]),
{
}

/// The line with the background switched on around the marked visible
/// characters.
pub open spec fn spec_paint(line: Seq<char>, starts: Seq<int>, marks: Seq<bool>) -> Seq<char> {
    paint_from(line, starts, marks, 0, 0, false)
}

/// Append `v[lo..hi]` to `out`.
fn push_range(out: &mut String, v: &[char], lo: usize, hi: usize)
    requires
        lo <= hi <= v.len(),
    ensures
        final(out)@ == old(out)@ + v@.subrange(lo as int, hi as int),
{
    let mut i: usize = lo;
    while i < hi
        invariant
            lo <= i <= hi <= v.len(),
            out@ == old(out)@ + v@.subrange(lo as int, i as int),
        decreases hi - i,
    {
        out.push(v[i]);
        i = i + 1;
        assert(out@ =~= old(out)@ + v@.subrange(lo as int, i as int));
    }
}

/// Copy an invisible stretch `line[lo..hi]`, re-opening the hit background
/// after it when needed.
fn emit_ansi(out: &mut String, line: &[char], lo: usize, hi: usize, in_hit: bool)
    requires
        lo <= hi <= line.len(),
    ensures
        final(out)@ == old(out)@ + spec_emit(line@.subrange(lo as int, hi as int), in_hit),
{
    push_range(out, line, lo, hi);
    if in_hit {
        let mut has_esc = false;
        let mut i: usize = lo;
        while i < hi
            invariant
                lo <= i <= hi <= line.len(),
                has_esc == line@.subrange(lo as int, i as int).contains('\u{1b}'),
            decreases hi - i,
        {
            if line[i] == '\u{1b}' {
                has_esc = true;
                assert(line@.subrange(lo as int, i + 1)[i - lo] == '\u{1b}');
            }
            proof {
                if !has_esc {
                    assert forall|x: int| 0 <= x < i + 1 - lo implies #[trigger] line@.subrange(lo as int, i + 1)[x] != '\u{1b}' by {
                        if x < i - lo {
                            assert(line@.subrange(lo as int, i + 1)[x] == line@.subrange(lo as int, i as int)[x]);
                        }
                    }
                } else if line[i as int] != '\u{1b}' {
                    let y = choose|y: int| 0 <= y < i - lo && line@.subrange(lo as int, i as int)[y] == '\u{1b}';
                    assert(line@.subrange(lo as int, i + 1)[y] == '\u{1b}');
                }
            }
            i = i + 1;
        }
        if has_esc {
            out.append(HIT_BG);
        }
    }
}

#[verifier::rlimit(40)]
/// Paint the marked visible characters of `line` (whose visible characters
/// stand at `starts`).
pub fn apply_marks(line: &[char], starts: &[usize], marks: &[bool]) -> (out: String)
    requires
        forall|k: int| 0 <= k < starts.len() ==> #[trigger] starts@[k] < line.len(),
        forall|j: int, k: int| 0 <= j < k < starts.len() ==> starts@[j] < starts@[k],
    ensures
        out@ == spec_paint(line@, starts@.map_values(|x: usize| x as int), marks@),
{
    let ghost ss = starts@.map_values(|x: usize| x as int);
    let mut out = String::new();
    let mut last: usize = 0;
    let mut in_hit = false;
    let mut k: usize = 0;
    while k < starts.len()
        invariant
            k <= starts.len(),
            ss == starts@.map_values(|x: usize| x as int),
            forall|k: int| 0 <= k < starts.len() ==> #[trigger] starts@[k] < line.len(),
            forall|j: int, k: int| 0 <= j < k < starts.len() ==> starts@[j] < starts@[k],
            last <= line.len(),
            k > 0 ==> last == starts@[k - 1] + 1,
            k == 0 ==> last == 0,
            out@ + paint_from(line@, ss, marks@, k as int, last as int, in_hit) == spec_paint(line@, ss, marks@),
        decreases starts.len() - k,
    {
        let start = starts[k];
        let ghost before = out@;
        proof {
            assert(ss[k as int] == start as int);
            lemma_paint_step(line@, ss, marks@, k as int, last as int, in_hit);
        }
        if start > last {
            emit_ansi(&mut out, line, last, start, in_hit);
        }
        let on = k < marks.len() && marks[k];
        if on && !in_hit {
            out.append(HIT_BG);
        } else if !on && in_hit {
            out.append(HIT_END);
        }
        out.push(line[start]);
        proof {
            let chunk = if start > last { spec_emit(line@.subrange(last as int, start as int), in_hit) } else { Seq::<char>::empty() };
            let toggle = if on && !in_hit { HIT_BG@ } else if !on && in_hit { HIT_END@ } else { Seq::<char>::empty() };
            assert(out@ =~= before + (chunk + toggle + seq![line@[start as int]]));
        }
        in_hit = on;
        last = start + 1;
        k = k + 1;
    }
    let ghost before = out@;
    if last < line.len() {
        emit_ansi(&mut out, line, last, line.len(), in_hit);
    }
    if in_hit {
        out.append(HIT_END);
    }
    assert(out@ =~= before + paint_from(line@, ss, marks@, k as int, last as int, in_hit));
    out
}

/// The painted form of a line of bat's output, painted by its chars and the
/// needles as views.
pub open spec fn spec_highlight_chars(line: Seq<char>, needles: Seq<Seq<char>>) -> Seq<char> {
    let text = visible(line);
    if "File:"@.is_prefix_of(trim_start(text)) {
        line
    } else {
        spec_paint(line, positions(line), spec_marks(text, needles))
    }
}

/// The needles as views.
pub open spec fn needle_views(needles: Seq<String>) -> Seq<Seq<char>> {
    needles.map_values(|n: String| n@)
}

/// Paint the search hits in one line of bat's output: the header line
/// (`File: …`) stays as it is, the line-number gutter is never painted.
pub fn highlight_line(line: &str, needles: &[String]) -> (out: String)
    ensures
        out@ == spec_highlight_chars(line@, needle_views(needles@)),
{
    let v = chars_of(line);
    let ns = needle_chars(needles);
    highlight_chars(&v, &ns)
}

/// The needles as character vectors.
fn needle_chars(needles: &[String]) -> (r: Vec<Vec<char>>)
    ensures
        r@.map_values(|n: Vec<char>| n@) == needle_views(needles@),
{
    let mut r: Vec<Vec<char>> = Vec::new();
    let mut i: usize = 0;
    while i < needles.len()
        invariant
            i <= needles.len(),
            r@.map_values(|n: Vec<char>| n@) == needle_views(needles@.take(i as int)),
        decreases needles.len() - i,
    {
        let ghost before = r@.map_values(|n: Vec<char>| n@);
        r.push(chars_of(needles[i].as_str()));
        assert(r@.map_values(|n: Vec<char>| n@) =~= before.push(needles@[i as int]@));
        assert(needles@.take(i + 1) =~= needles@.take(i as int).push(needles@[i as int]));
        i = i + 1;
        assert(needle_views(needles@.take(i as int)) =~= before.push(needles@[i - 1]@));
    }
    assert(needles@.take(needles@.len() as int) =~= needles@);
    r
}

/// `highlight_line` on characters.
fn highlight_chars(v: &[char], ns: &Vec<Vec<char>>) -> (out: String)
    ensures
        out@ == spec_highlight_chars(v@, ns@.map_values(|n: Vec<char>| n@)),
{
    let (text, starts) = visible_chars(v);
    proof {
        lemma_positions_pieces(v@);
    }
    let a = crate::text::trim_start_len(&text);
    let file = chars_of("File:");
    if has_prefix_at(&text, a, &file) {
        return crate::text::string_of(v);
    }
    let marks = marks_for(&text, ns);
    proof {
        let ss = starts@.map_values(|x: usize| x as int);
        assert forall|k: int| 0 <= k < starts.len() implies #[trigger] starts@[k] < v.len() by {
            assert(ss[k] == starts@[k] as int);
        }
        assert forall|j: int, k: int| 0 <= j < k < starts.len() implies starts@[j] < starts@[k] by {
            lemma_pieces_increasing(v@, ss, j, k);
        }
    }
    apply_marks(v, &starts, &marks)
}

/// The visible characters of a well-split line stand in increasing order.
proof fn lemma_pieces_increasing(s: Seq<char>, p: Seq<int>, j: int, k: int)
    requires
        forall|k: int| 0 <= k < p.len() ==> 0 <= piece_start(p, k) <= #[trigger] p[k] < s.len(),
        0 <= j < k < p.len(),
    ensures
        p[j] < p[k],
    decreases k - j,
{
    assert(piece_start(p, k) <= p[k]);
    if j < k - 1 {
        lemma_pieces_increasing(s, p, j, k - 1);
        assert(piece_start(p, k - 1) <= p[k - 1]);
    }
}

// ---------------------------------------------------------------------------
// Painting keeps the visible text
// ---------------------------------------------------------------------------
/// The rest of a control sequence after `ESC [` shows nothing and ends it.
proof fn lemma_csi_tail(t: Seq<char>)
    requires
        t.len() >= 1,
        forall|i: int| 0 <= i < t.len() - 1 ==> !is_alpha(#[trigger] t[i]),
        is_alpha(t.last()),
    ensures
        run(t, Esc::InCsi) == (Seq::<char>::empty(), Esc::Text),
    decreases t.len(),
{
    if t.len() > 1 {
        assert(!is_alpha(t[0]));
        let u = t.drop_first();
        assert forall|i: int| 0 <= i < u.len() - 1 implies !is_alpha(#[trigger] u[i]) by {
            assert(u[i] == t[i + 1]);
        }
        assert(u.last() == t.last());
        lemma_csi_tail(u);
        assert(step(t[0], Esc::InCsi) == (Seq::<char>::empty(), Esc::InCsi));
        assert(Seq::<char>::empty() + Seq::<char>::empty() =~= Seq::<char>::empty());
        assert(run(t, Esc::InCsi).0 == step(t[0], Esc::InCsi).0 + run(u, Esc::InCsi).0);
    } else {
        assert(t[0] == t.last());
        assert(step(t[0], Esc::InCsi) == (Seq::<char>::empty(), Esc::Text));
        assert(t.drop_first() =~= Seq::<char>::empty());
        assert(run(t.drop_first(), Esc::Text) == (Seq::<char>::empty(), Esc::Text));
        assert(Seq::<char>::empty() + Seq::<char>::empty() =~= Seq::<char>::empty());
    }
}

/// A complete control sequence `ESC [ … letter` shows nothing and leaves the
/// reader reading text, whatever state it started in.
proof fn lemma_escape_invisible(t: Seq<char>, st: Esc)
    requires
        t.len() >= 3,
        t[0] == '\u{1b}',
        t[1] == '[',
        forall|i: int| 2 <= i < t.len() - 1 ==> !is_alpha(#[trigger] t[i]),
        is_alpha(t.last()),
    ensures
        run(t, st) == (Seq::<char>::empty(), Esc::Text),
{
    let u = t.drop_first();
    let w = u.drop_first();
    assert forall|i: int| 0 <= i < w.len() - 1 implies !is_alpha(#[trigger] w[i]) by {
        assert(w[i] == t[i + 2]);
    }
    assert(w.last() == t.last());
    lemma_csi_tail(w);
    assert(u[0] == '[');
    let st1 = step(t[0], st).1;
    assert(st1 == Esc::AfterEsc || st1 == Esc::InCsi);
    assert(step(u[0], st1) == (Seq::<char>::empty(), Esc::InCsi));
    assert(run(u, st1) == (Seq::<char>::empty() + run(w, Esc::InCsi).0, run(w, Esc::InCsi).1));
    assert(Seq::<char>::empty() + Seq::<char>::empty() =~= Seq::<char>::empty());
}

/// The codes that switch the hit background on and off are invisible.
proof fn lemma_hit_codes_invisible(st: Esc)
    ensures
        run(HIT_BG@, st) == (Seq::<char>::empty(), Esc::Text),
        run(HIT_END@, st) == (Seq::<char>::empty(), Esc::Text),
{
    reveal_strlit("\u{1b}[48;5;178m");
    reveal_strlit("\u{1b}[49m");
    lemma_escape_invisible(HIT_BG@, st);
    lemma_escape_invisible(HIT_END@, st);
}

/// An emitted stretch reads like the unpainted one, except that a re-opened
/// background leaves the reader reading text.
proof fn lemma_emit_run(chunk: Seq<char>, in_hit: bool)
    ensures
        run(spec_emit(chunk, in_hit), Esc::Text).0 == run(chunk, Esc::Text).0,
        run(spec_emit(chunk, in_hit), Esc::Text).1 == run(chunk, Esc::Text).1 || run(spec_emit(chunk, in_hit), Esc::Text).1 == Esc::Text,
{
    if in_hit && chunk.contains('\u{1b}') {
        lemma_run_concat(chunk, HIT_BG@, Esc::Text);
        lemma_hit_codes_invisible(run(chunk, Esc::Text).1);
        assert(run(chunk, Esc::Text).0 + Seq::<char>::empty() =~= run(chunk, Esc::Text).0);
    }
}

/// Reading one visible character of the painting.
proof fn lemma_paint_piece(chunk: Seq<char>, in_hit: bool, toggle: Seq<char>, c: char)
    requires
        run(chunk, Esc::Text).0.len() == 0,
        step(c, run(chunk, Esc::Text).1) == (seq![c], Esc::Text),
        toggle == HIT_BG@ || toggle == HIT_END@ || toggle.len() == 0,
    ensures
        run(spec_emit(chunk, in_hit) + toggle + seq![c], Esc::Text) == (seq![c], Esc::Text),
{
    let e = spec_emit(chunk, in_hit);
    lemma_emit_run(chunk, in_hit);
    lemma_step_shape(c, run(chunk, Esc::Text).1);
    let se = run(e, Esc::Text).1;
    lemma_run_concat(e, toggle, Esc::Text);
    lemma_hit_codes_invisible(se);
    if toggle.len() == 0 {
        assert(run(toggle, se) == (Seq::<char>::empty(), se));
    }
    let st2 = run(e + toggle, Esc::Text).1;
    assert(run(e + toggle, Esc::Text).0 =~= Seq::<char>::empty());
    assert(step(c, st2) == (seq![c], Esc::Text));
    lemma_run_push(e + toggle, c, Esc::Text);
    assert((e + toggle).push(c) =~= e + toggle + seq![c]);
    assert(Seq::<char>::empty() + seq![c] =~= seq![c]);
}

/// The painting from visible character `k` on shows the visible text from
/// `k` on.
#[verifier::spinoff_prover]
#[verifier::rlimit(40)]
proof fn lemma_paint_visible(line: Seq<char>, p: Seq<int>, marks: Seq<bool>, k: int, in_hit: bool)
    requires
        pieces_ok(line, p),
        0 <= k <= p.len(),
    ensures
        run(paint_from(line, p, marks, k, piece_start(p, k), in_hit), Esc::Text).0 == visible(line).skip(k),
    decreases p.len() - k,
{
    let last = piece_start(p, k);
    if k == p.len() {
        let tail = if last < line.len() { spec_emit(line.subrange(last, line.len() as int), in_hit) } else { Seq::<char>::empty() };
        let end = if in_hit { HIT_END@ } else { Seq::<char>::empty() };
        if last < line.len() {
            lemma_emit_run(line.subrange(last, line.len() as int), in_hit);
        }
        lemma_run_concat(tail, end, Esc::Text);
        lemma_hit_codes_invisible(run(tail, Esc::Text).1);
        assert(visible(line).skip(k) =~= Seq::<char>::empty());
        assert(Seq::<char>::empty() + Seq::<char>::empty() =~= Seq::<char>::empty());
    } else {
        let start = p[k];
        let c = line[start];
        let raw = line.subrange(last, start);
        let chunk = if start > last { spec_emit(raw, in_hit) } else { Seq::<char>::empty() };
        let on = k < marks.len() && marks[k];
        let toggle = if on && !in_hit { HIT_BG@ } else if !on && in_hit { HIT_END@ } else { Seq::<char>::empty() };
        lemma_paint_step(line, p, marks, k, last, in_hit);
        assert(piece_start(p, k + 1) == start + 1);
        lemma_paint_visible(line, p, marks, k + 1, on);
        let rest = paint_from(line, p, marks, k + 1, start + 1, on);
        if start > last {
            lemma_paint_piece(raw, in_hit, toggle, c);
        } else {
            assert(raw =~= Seq::<char>::empty());
            assert(spec_emit(raw, in_hit) =~= Seq::<char>::empty());
            lemma_paint_piece(raw, in_hit, toggle, c);
        }
        lemma_run_concat(chunk + toggle + seq![c], rest, Esc::Text);
        assert(visible(line).skip(k) =~= seq![c] + visible(line).skip(k + 1));
    }
}

/// Highlighting never changes what a line shows: painting the hits only adds
/// and re-opens background codes around the visible characters, so the line's
/// visible text (its characters without escape sequences) is exactly the
/// visible text it had before.
pub proof fn law_highlight_keeps_visible_text(line: Seq<char>, needles: Seq<Seq<char>>)
    ensures
        visible(spec_highlight_chars(line, needles)) == visible(line),
{
    let text = visible(line);
    if !"File:"@.is_prefix_of(trim_start(text)) {
        lemma_positions_pieces(line);
        lemma_paint_visible(line, positions(line), spec_marks(text, needles), 0, false);
        assert(text.skip(0) =~= text);
    }
}

/// Painting with no mark on from visible character `k` on, starting outside
/// a hit, leaves the rest of the line as it is.
#[verifier::spinoff_prover]
proof fn lemma_paint_plain(line: Seq<char>, p: Seq<int>, marks: Seq<bool>, k: int)
    requires
        forall|i: int| 0 <= i < p.len() ==> 0 <= piece_start(p, i) <= #[trigger] p[i] < line.len(),
        0 <= piece_start(p, p.len() as int) <= line.len(),
        0 <= k <= p.len(),
        forall|i: int| k <= i < marks.len() ==> !#[trigger] marks[i],
    ensures
        paint_from(line, p, marks, k, piece_start(p, k), false) == line.subrange(piece_start(p, k), line.len() as int),
    decreases p.len() - k,
{
    let last = piece_start(p, k);
    if k == p.len() {
        if last < line.len() {
            assert(spec_emit(line.subrange(last, line.len() as int), false) == line.subrange(last, line.len() as int));
        } else {
            assert(line.subrange(last, line.len() as int) =~= Seq::<char>::empty());
        }
        assert(paint_from(line, p, marks, k, last, false) =~= line.subrange(last, line.len() as int));
    } else {
        let start = p[k];
        lemma_paint_step(line, p, marks, k, last, false);
        assert(!(k < marks.len() && marks[k]));
        assert(0 <= piece_start(p, k) <= p[k] < line.len());
        lemma_paint_plain(line, p, marks, k + 1);
        assert(piece_start(p, k + 1) == start + 1);
        let chunk = if start > last { spec_emit(line.subrange(last, start), false) } else { Seq::<char>::empty() };
        assert(chunk =~= line.subrange(last, start));
        assert(line.subrange(last, start) + seq![line[start]] + line.subrange(start + 1, line.len() as int)
            =~= line.subrange(last, line.len() as int));
    }
}

/// Needle `j` is non-empty and occurs in `t` at `s`.
pub open spec fn hit_at(t: Seq<char>, needles: Seq<Seq<char>>, s: int, j: int) -> bool {
    &&& 0 <= j < needles.len()
    &&& needles[j].len() > 0
    &&& 0 <= s <= t.len()
    &&& needles[j].is_prefix_of(t.skip(s))
}

/// Position `k` of `t` lies inside an occurrence of some needle.
pub open spec fn in_hit(t: Seq<char>, needles: Seq<Seq<char>>, k: int) -> bool {
    exists|s: int, j: int| #[trigger] hit_at(t, needles, s, j) && s <= k < s + needles[j].len()
}

proof fn lemma_first_hit(rest: Seq<char>, needles: Seq<Seq<char>>)
    ensures
        first_hit(rest, needles) == 0 ==> forall|j: int| 0 <= j < needles.len() ==> !(#[trigger] needles[j].len() > 0
            && needles[j].is_prefix_of(rest)),
        first_hit(rest, needles) > 0 ==> exists|j: int| 0 <= j < needles.len() && #[trigger] needles[j].len()
            == first_hit(rest, needles) && needles[j].is_prefix_of(rest),
    decreases needles.len(),
{
    lemma_first_hit_bound(rest, needles);
    if needles.len() > 0 && !(needles[0].len() > 0 && needles[0].is_prefix_of(rest)) {
        lemma_first_hit(rest, needles.drop_first());
        lemma_first_hit_bound(rest, needles.drop_first());
        if first_hit(rest, needles) == 0 {
            assert forall|j: int| 0 <= j < needles.len() implies !(#[trigger] needles[j].len() > 0
                && needles[j].is_prefix_of(rest)) by {
                if j > 0 {
                    assert(needles[j] == needles.drop_first()[j - 1]);
                }
            }
        } else {
            let j = choose|j: int| 0 <= j < needles.drop_first().len() && #[trigger] needles.drop_first()[j].len()
                == first_hit(rest, needles.drop_first()) && needles.drop_first()[j].is_prefix_of(rest);
            assert(needles[j + 1] == needles.drop_first()[j]);
        }
    } else if needles.len() > 0 {
        assert(needles[0].len() == first_hit(rest, needles));
    }
}

/// The scan marks one flag per character; every position where a needle
/// occurs is marked, and only positions inside an occurrence are.
spec fn scan_ok(rest: Seq<char>, needles: Seq<Seq<char>>) -> bool {
    &&& mark_scan(rest, needles).len() == rest.len()
    &&& forall|k: int, j: int| #[trigger] hit_at(rest, needles, k, j) && k < rest.len() ==> mark_scan(rest, needles)[k]
    &&& forall|k: int| 0 <= k < rest.len() && #[trigger] mark_scan(rest, needles)[k] ==> in_hit(rest, needles, k)
}

/// A scan step over a hit of length `h`.
#[verifier::spinoff_prover]
proof fn lemma_scan_hit(rest: Seq<char>, needles: Seq<Seq<char>>)
    requires
        rest.len() > 0,
        0 < first_hit(rest, needles) <= rest.len(),
        scan_ok(rest.skip(first_hit(rest, needles)), needles),
    ensures
        scan_ok(rest, needles),
{
    let h = first_hit(rest, needles);
    lemma_first_hit(rest, needles);
    let tail = rest.skip(h);
    let ms = mark_scan(rest, needles);
    assert(ms == Seq::new(h as nat, |i: int| true) + mark_scan(tail, needles));
    let j0 = choose|j: int| 0 <= j < needles.len() && #[trigger] needles[j].len() == h && needles[j].is_prefix_of(rest);
    assert(rest.skip(0) =~= rest);
    assert(hit_at(rest, needles, 0, j0));
    assert forall|k: int, j: int| #[trigger] hit_at(rest, needles, k, j) && k < rest.len() implies ms[k] by {
        if k >= h {
            assert(rest.skip(k) =~= tail.skip(k - h));
            assert(hit_at(tail, needles, k - h, j));
        }
    }
    assert forall|k: int| 0 <= k < rest.len() && #[trigger] ms[k] implies in_hit(rest, needles, k) by {
        if k < h {
            assert(hit_at(rest, needles, 0, j0) && 0 <= k < 0 + needles[j0].len());
        } else {
            assert(ms[k] == mark_scan(tail, needles)[k - h]);
            let (s, j) = choose|s: int, j: int| #[trigger] hit_at(tail, needles, s, j) && s <= k - h < s
                + needles[j].len();
            assert(rest.skip(s + h) =~= tail.skip(s));
            assert(hit_at(rest, needles, s + h, j));
        }
    }
}

/// A scan step over a character where no needle occurs.
#[verifier::spinoff_prover]
proof fn lemma_scan_miss(rest: Seq<char>, needles: Seq<Seq<char>>)
    requires
        rest.len() > 0,
        first_hit(rest, needles) == 0,
        scan_ok(rest.drop_first(), needles),
    ensures
        scan_ok(rest, needles),
{
    lemma_first_hit(rest, needles);
    let tail = rest.drop_first();
    let ms = mark_scan(rest, needles);
    assert(ms == seq![false] + mark_scan(tail, needles));
    assert forall|k: int, j: int| #[trigger] hit_at(rest, needles, k, j) && k < rest.len() implies ms[k] by {
        if k == 0 {
            assert(rest.skip(0) =~= rest);
            assert(!(needles[j].len() > 0 && needles[j].is_prefix_of(rest)));
        } else {
            assert(rest.skip(k) =~= tail.skip(k - 1));
            assert(hit_at(tail, needles, k - 1, j));
        }
    }
    assert forall|k: int| 0 <= k < rest.len() && #[trigger] ms[k] implies in_hit(rest, needles, k) by {
        assert(k > 0);
        assert(ms[k] == mark_scan(tail, needles)[k - 1]);
        let (s, j) = choose|s: int, j: int| #[trigger] hit_at(tail, needles, s, j) && s <= k - 1 < s
            + needles[j].len();
        assert(rest.skip(s + 1) =~= tail.skip(s));
        assert(hit_at(rest, needles, s + 1, j));
    }
}

proof fn lemma_mark_scan(rest: Seq<char>, needles: Seq<Seq<char>>)
    ensures
        scan_ok(rest, needles),
    decreases rest.len(),
{
    if rest.len() == 0 {
        assert(mark_scan(rest, needles) =~= Seq::<bool>::empty());
    } else {
        let h = first_hit(rest, needles);
        lemma_first_hit_bound(rest, needles);
        if 0 < h {
            lemma_mark_scan(rest.skip(h), needles);
            lemma_scan_hit(rest, needles);
        } else {
            lemma_mark_scan(rest.drop_first(), needles);
            lemma_scan_miss(rest, needles);
        }
    }
}

/// What gets painted: one mark per visible character; none in the
/// line-number gutter; after it, every character where a search hit starts
/// is marked, and only characters inside a hit are.
pub proof fn law_marks_are_hits(text: Seq<char>, needles: Seq<Seq<char>>)
    ensures
        spec_marks(text, needles).len() == text.len(),
        forall|k: int| 0 <= k < spec_gutter(text) ==> !#[trigger] spec_marks(text, needles)[k],
        forall|k: int, j: int|
            #[trigger] hit_at(text.skip(spec_gutter(text)), needles, k, j) && spec_gutter(text) + k < text.len()
                ==> spec_marks(text, needles)[spec_gutter(text) + k],
        forall|k: int|
            spec_gutter(text) <= k < text.len() && #[trigger] spec_marks(text, needles)[k]
                ==> in_hit(text.skip(spec_gutter(text)), needles, k - spec_gutter(text)),
{
    let g = spec_gutter(text);
    assert(0 <= g <= text.len());
    let rest = text.skip(g);
    lemma_mark_scan(rest, needles);
    let m = spec_marks(text, needles);
    assert forall|k: int, j: int|
        #[trigger] hit_at(rest, needles, k, j) && g + k < text.len() implies m[g + k] by {
        assert(m[g + k] == mark_scan(rest, needles)[k]);
    }
    assert forall|k: int| g <= k < text.len() && #[trigger] m[k] implies in_hit(rest, needles, k - g) by {
        assert(m[k] == mark_scan(rest, needles)[k - g]);
    }
}

/// A line with nothing to paint comes back unchanged: bat's `File:` header,
/// and any line in whose text (after the gutter) no needle occurs.
pub proof fn law_unhit_line_unchanged(line: Seq<char>, needles: Seq<Seq<char>>)
    ensures
        ("File:"@.is_prefix_of(trim_start(visible(line))) || forall|k: int, j: int|
            !#[trigger] hit_at(visible(line).skip(spec_gutter(visible(line))), needles, k, j))
            ==> spec_highlight_chars(line, needles) == line,
{
    let text = visible(line);
    let g = spec_gutter(text);
    if !"File:"@.is_prefix_of(trim_start(text)) && forall|k: int, j: int|
        !#[trigger] hit_at(text.skip(g), needles, k, j) {
        law_marks_are_hits(text, needles);
        let m = spec_marks(text, needles);
        assert forall|i: int| 0 <= i < m.len() implies !#[trigger] m[i] by {
            if i >= g && m[i] {
                let (s0, j0) = choose|s0: int, j0: int| #[trigger] hit_at(text.skip(g), needles, s0, j0) && s0 <= i - g
                    < s0 + needles[j0].len();
            }
        }
        lemma_positions_pieces(line);
        lemma_paint_plain(line, positions(line), m, 0);
        assert(line.subrange(0, line.len() as int) =~= line);
    }
}

} // verus!

verus! {

// ---------------------------------------------------------------------------
// Painting a whole preview
// ---------------------------------------------------------------------------
/// Every line of `s` (each with its newline) painted.
pub open spec fn highlight_text(s: Seq<char>, needles: Seq<Seq<char>>) -> Seq<char>
    decreases s.len(),
{
    if s.len() == 0 {
        Seq::empty()
    } else {
        match crate::text::first_index_of(s, '\n') {
            Some(i) => if 0 <= i < s.len() {
                spec_highlight_chars(s.take(i + 1), needles) + highlight_text(s.skip(i + 1), needles)
            } else {
                spec_highlight_chars(s, needles)
            },
            None => spec_highlight_chars(s, needles),
        }
    }
}

/// Paint the needles in bat's colored output, line by line; without
/// needles the output is left as it is.
pub fn highlight_visible(colored: &str, needles: &[String]) -> (out: String)
    ensures
        out@ == (if needles@.len() == 0 { colored@ } else { highlight_text(colored@, needle_views(needles@)) }),
{
    if needles.len() == 0 {
        return owned(colored);
    }
    let v = chars_of(colored);
    let ns = needle_chars(needles);
    let ghost nv = needle_views(needles@);
    let mut out = String::new();
    let mut start: usize = 0;
    assert(v@.skip(0) =~= v@);
    while start < v.len()
        invariant
            start <= v.len(),
            nv == ns@.map_values(|n: Vec<char>| n@),
            out@ + highlight_text(v@.skip(start as int), nv) == highlight_text(v@, nv),
        decreases v.len() - start,
    {
        let ghost rest = v@.skip(start as int);
        let mut j: usize = start;
        while j < v.len() && v[j] != '\n'
            invariant
                start <= j <= v.len(),
                forall|k: int| start <= k < j ==> v@[k] != '\n',
            decreases v.len() - j,
        {
            j = j + 1;
        }
        proof {
            assert forall|k: int| 0 <= k < j - start implies rest[k] != '\n' by {
                assert(rest[k] == v@[start + k]);
            }
            if j < v.len() {
                assert(rest[j - start] == v@[j as int]);
            }
            crate::text::lemma_first_index_of_is(rest, '\n', j - start);
        }
        let end = if j < v.len() {
            j + 1
        } else {
            j
        };
        let line: Vec<char> = {
            let mut l: Vec<char> = Vec::new();
            let mut k: usize = start;
            while k < end
                invariant
                    start <= k <= end <= v.len(),
                    l@ == v@.subrange(start as int, k as int),
                decreases end - k,
            {
                l.push(v[k]);
                k = k + 1;
                assert(l@ =~= v@.subrange(start as int, k as int));
            }
            l
        };
        let painted = highlight_chars(&line, &ns);
        let ghost before = out@;
        out.append(painted.as_str());
        proof {
            if j < v.len() {
                assert(rest.take(j - start + 1) =~= line@);
                assert(rest.skip(j - start + 1) =~= v@.skip(end as int));
            } else {
                assert(rest =~= line@);
                assert(v@.skip(end as int) =~= Seq::<char>::empty());
            }
        }
        start = end;
    }
    assert(v@.skip(v@.len() as int) =~= Seq::<char>::empty());
    assert(out@ + Seq::<char>::empty() =~= out@);
    out
}

/// bat's output (decoded lossily) with the hit texts painted.
pub fn bat_painted(stdout: &[u8], needles: &[String]) -> (out: String)
    ensures
        out@ == (if needles@.len() == 0 {
            crate::text::utf8_lossy(stdout@)
        } else {
            highlight_text(crate::text::utf8_lossy(stdout@), needle_views(needles@))
        }),
{
    let text = crate::text::utf8_lossy_string(stdout);
    highlight_visible(text.as_str(), needles)
}

// ---------------------------------------------------------------------------
// ripgrep's report of the hits
// ---------------------------------------------------------------------------
/// The hit line numbers and distinct hit texts in rg's
/// `--line-number --only-matching` report lines, after those already read;
/// reading stops at 50 line numbers.
pub open spec fn hits_from(ls: Seq<Seq<char>>, lines: Seq<u32>, texts: Seq<Seq<char>>) -> (Seq<u32>, Seq<Seq<char>>)
    decreases ls.len(),
{
    if ls.len() == 0 {
        (lines, texts)
    } else {
        let raw = ls[0];
        match crate::text::first_index_of(raw, ':') {
            Some(i) => match crate::text::parse_unsigned(raw.take(i), u32::MAX as nat) {
                Some(n) => {
                    let l2 = if lines.len() > 0 && lines.last() == n { lines } else { lines.push(n as u32) };
                    let t = raw.skip(i + 1);
                    let t2 = if t.len() > 0 && !texts.contains(t) { texts.push(t) } else { texts };
                    if l2.len() >= 50 {
                        (l2, t2)
                    } else {
                        hits_from(ls.drop_first(), l2, t2)
                    }
                },
                None => hits_from(ls.drop_first(), lines, texts),
            },
            None => hits_from(ls.drop_first(), lines, texts),
        }
    }
}

/// The UTF-8 length of a text.
pub open spec fn byte_len(t: Seq<char>) -> usize {
    vstd::utf8::encode_utf8(t).len() as usize
}

/// `x` put after every element at least as long (stable, longest first).
pub open spec fn insert_desc(sorted: Seq<Seq<char>>, x: Seq<char>) -> Seq<Seq<char>>
    decreases sorted.len(),
{
    if sorted.len() == 0 {
        seq![x]
    } else if byte_len(sorted.last()) >= byte_len(x) {
        sorted.push(x)
    } else {
        insert_desc(sorted.drop_last(), x).push(sorted.last())
    }
}

/// The texts sorted longest first, keeping the order of equally long ones.
pub open spec fn sort_desc(s: Seq<Seq<char>>) -> Seq<Seq<char>>
    decreases s.len(),
{
    if s.len() == 0 {
        Seq::empty()
    } else {
        insert_desc(sort_desc(s.drop_last()), s.last())
    }
}

/// The hit line numbers and the hit texts (longest first) in rg's report.
pub open spec fn spec_match_hits(report: Seq<char>) -> (Seq<u32>, Seq<Seq<char>>) {
    let (ls, ts) = hits_from(crate::config::lines_of(report), Seq::empty(), Seq::empty());
    (ls, sort_desc(ts))
}

proof fn lemma_insert_desc_at(sorted: Seq<Seq<char>>, x: Seq<char>, j: int)
    requires
        0 <= j <= sorted.len(),
        forall|k: int| j <= k < sorted.len() ==> byte_len(#[trigger] sorted[k]) < byte_len(x),
        j > 0 ==> byte_len(sorted[j - 1]) >= byte_len(x),
    ensures
        insert_desc(sorted, x) == sorted.insert(j, x),
    decreases sorted.len(),
{
    if sorted.len() == 0 {
        assert(sorted.insert(j, x) =~= seq![x]);
    } else if j == sorted.len() {
        assert(sorted.insert(j, x) =~= sorted.push(x));
    } else {
        lemma_insert_desc_at(sorted.drop_last(), x, j);
        assert(sorted.drop_last().insert(j, x).push(sorted.last()) =~= sorted.insert(j, x));
    }
}

/// Sort the texts longest first, stably (by UTF-8 length).
fn sort_texts(texts: Vec<String>) -> (r: Vec<String>)
    ensures
        crate::files::views(r@) == sort_desc(crate::files::views(texts@)),
{
    let ghost tv = crate::files::views(texts@);
    let mut out: Vec<String> = Vec::new();
    let mut i: usize = 0;
    while i < texts.len()
        invariant
            i <= texts.len(),
            tv == crate::files::views(texts@),
            crate::files::views(out@) == sort_desc(tv.take(i as int)),
        decreases texts.len() - i,
    {
        let x = texts[i].clone();
        let xl = x.as_str().len();
        let mut j: usize = out.len();
        while j > 0 && out[j - 1].as_str().len() < xl
            invariant
                j <= out.len(),
                xl == byte_len(x@),
                forall|k: int| j <= k < out.len() ==> byte_len(#[trigger] crate::files::views(out@)[k]) < byte_len(x@),
            decreases j,
        {
            assert(crate::files::views(out@)[j - 1] == out@[j - 1]@);
            j = j - 1;
        }
        let ghost before = crate::files::views(out@);
        proof {
            lemma_insert_desc_at(before, x@, j as int);
            assert(tv.take(i + 1).drop_last() =~= tv.take(i as int));
            assert(tv.take(i + 1).last() == x@);
        }
        out.insert(j, x);
        assert(crate::files::views(out@) =~= before.insert(j as int, x@));
        i = i + 1;
    }
    assert(tv.take(tv.len() as int) =~= tv);
    out
}

/// Whether `v` holds a string equal to `t`.
fn contains_text(v: &Vec<String>, t: &str) -> (r: bool)
    ensures
        r == crate::files::views(v@).contains(t@),
{
    let mut i: usize = 0;
    while i < v.len()
        invariant
            i <= v.len(),
            forall|k: int| 0 <= k < i ==> crate::files::views(v@)[k] != t@,
        decreases v.len() - i,
    {
        if crate::text::str_eq(v[i].as_str(), t) {
            assert(crate::files::views(v@)[i as int] == t@);
            return true;
        }
        i = i + 1;
    }
    false
}

/// Longest first: no text is shorter (in UTF-8 bytes) than a later one.
pub open spec fn longest_first(ts: Seq<Seq<char>>) -> bool {
    forall|i: int, j: int| 0 <= i < j < ts.len() ==> byte_len(#[trigger] ts[i]) >= byte_len(#[trigger] ts[j])
}

proof fn lemma_insert_desc(sorted: Seq<Seq<char>>, x: Seq<char>, b: int)
    requires
        longest_first(sorted),
    ensures
        longest_first(insert_desc(sorted, x)),
        insert_desc(sorted, x).len() == sorted.len() + 1,
        (forall|i: int| 0 <= i < sorted.len() ==> byte_len(#[trigger] sorted[i]) >= b) && byte_len(x) >= b
            ==> forall|i: int| 0 <= i < insert_desc(sorted, x).len() ==> byte_len(#[trigger] insert_desc(sorted, x)[i]) >= b,
    decreases sorted.len(),
{
    let r = insert_desc(sorted, x);
    if sorted.len() == 0 {
        assert(r =~= seq![x]);
    } else if byte_len(sorted.last()) >= byte_len(x) {
        assert(r =~= sorted.push(x));
        assert forall|i: int, j: int| 0 <= i < j < r.len() implies byte_len(#[trigger] r[i]) >= byte_len(#[trigger] r[j]) by {
            if j == sorted.len() {
                if i < sorted.len() - 1 {
                    assert(byte_len(sorted[i]) >= byte_len(sorted[sorted.len() - 1]));
                }
            }
        }
        if (forall|i: int| 0 <= i < sorted.len() ==> byte_len(#[trigger] sorted[i]) >= b) && byte_len(x) >= b {
            assert forall|i: int| 0 <= i < r.len() implies byte_len(#[trigger] r[i]) >= b by {
                if i < sorted.len() {
                    assert(r[i] == sorted[i]);
                }
            }
        }
    } else {
        let front = sorted.drop_last();
        let last = sorted.last();
        assert(longest_first(front)) by {
            assert forall|i: int, j: int| 0 <= i < j < front.len() implies byte_len(#[trigger] front[i]) >= byte_len(#[trigger] front[j]) by {
                assert(front[i] == sorted[i] && front[j] == sorted[j]);
            }
        }
        lemma_insert_desc(front, x, byte_len(last) as int);
        lemma_insert_desc(front, x, b);
        let r0 = insert_desc(front, x);
        assert(r == r0.push(last));
        assert forall|i: int| 0 <= i < front.len() implies byte_len(#[trigger] front[i]) >= byte_len(last) by {
            assert(front[i] == sorted[i]);
            assert(byte_len(sorted[i]) >= byte_len(sorted[sorted.len() - 1]));
        }
        assert(forall|i: int| 0 <= i < r0.len() ==> byte_len(#[trigger] r0[i]) >= byte_len(last));
        assert forall|i: int, j: int| 0 <= i < j < r.len() implies byte_len(#[trigger] r[i]) >= byte_len(#[trigger] r[j]) by {
            if j == r0.len() {
                assert(r[i] == r0[i]);
            } else {
                assert(r[i] == r0[i] && r[j] == r0[j]);
            }
        }
        if (forall|i: int| 0 <= i < sorted.len() ==> byte_len(#[trigger] sorted[i]) >= b) && byte_len(x) >= b {
            assert forall|i: int| 0 <= i < front.len() implies byte_len(#[trigger] front[i]) >= b by {
                assert(front[i] == sorted[i]);
            }
            assert(byte_len(sorted[sorted.len() - 1]) >= b);
            assert forall|i: int| 0 <= i < r.len() implies byte_len(#[trigger] r[i]) >= b by {
                if i < r0.len() {
                    assert(r[i] == r0[i]);
                }
            }
        }
    }
}

proof fn lemma_sort_desc(s: Seq<Seq<char>>)
    ensures
        longest_first(sort_desc(s)),
        sort_desc(s).len() == s.len(),
    decreases s.len(),
{
    if s.len() > 0 {
        lemma_sort_desc(s.drop_last());
        lemma_insert_desc(sort_desc(s.drop_last()), s.last(), 0);
    }
}

proof fn lemma_hits_from(ls: Seq<Seq<char>>, lines: Seq<u32>, texts: Seq<Seq<char>>)
    requires
        lines.len() < 50,
        forall|i: int| 0 < i < lines.len() ==> lines[i - 1] != #[trigger] lines[i],
    ensures
        hits_from(ls, lines, texts).0.len() <= 50,
        forall|i: int| 0 < i < hits_from(ls, lines, texts).0.len() ==> hits_from(ls, lines, texts).0[i - 1]
            != #[trigger] hits_from(ls, lines, texts).0[i],
    decreases ls.len(),
{
    if ls.len() > 0 {
        let raw = ls[0];
        match crate::text::first_index_of(raw, ':') {
            Some(i) => match crate::text::parse_unsigned(raw.take(i), u32::MAX as nat) {
                Some(n) => {
                    let l2 = if lines.len() > 0 && lines.last() == n { lines } else { lines.push(n as u32) };
                    let t = raw.skip(i + 1);
                    let t2 = if t.len() > 0 && !texts.contains(t) { texts.push(t) } else { texts };
                    if l2.len() < 50 {
                        assert forall|k: int| 0 < k < l2.len() implies l2[k - 1] != #[trigger] l2[k] by {
                            if k == lines.len() {
                                assert(l2[k] == n);
                            } else {
                                assert(l2[k - 1] == lines[k - 1] && l2[k] == lines[k]);
                            }
                        }
                        lemma_hits_from(ls.drop_first(), l2, t2);
                    } else {
                        assert forall|k: int| 0 < k < l2.len() implies l2[k - 1] != #[trigger] l2[k] by {
                            if k == lines.len() {
                                assert(l2[k] == n);
                            } else {
                                assert(l2[k - 1] == lines[k - 1] && l2[k] == lines[k]);
                            }
                        }
                    }
                },
                None => lemma_hits_from(ls.drop_first(), lines, texts),
            },
            None => lemma_hits_from(ls.drop_first(), lines, texts),
        }
    }
}

/// What the preview reads from rg's report: at most 50 hit line numbers,
/// none repeating the one before it, and the hit texts longest first (so a
/// longer hit is painted before its prefixes).
pub proof fn law_match_hits_shape(report: Seq<char>)
    ensures
        spec_match_hits(report).0.len() <= 50,
        forall|i: int| 0 < i < spec_match_hits(report).0.len() ==> spec_match_hits(report).0[i - 1]
            != #[trigger] spec_match_hits(report).0[i],
        longest_first(spec_match_hits(report).1),
{
    lemma_hits_from(crate::config::lines_of(report), Seq::empty(), Seq::empty());
    lemma_sort_desc(hits_from(crate::config::lines_of(report), Seq::empty(), Seq::empty()).1);
}

/// The hit line numbers and hit texts (longest first, so longer hits are
/// painted before their prefixes) from the output of rg's
/// `--line-number --only-matching` run (decoded lossily).
pub fn match_hits(stdout: &[u8]) -> (r: (Vec<u32>, Vec<String>))
    ensures
        (r.0@, crate::files::views(r.1@)) == spec_match_hits(crate::text::utf8_lossy(stdout@)),
{
    let report = crate::text::utf8_lossy_string(stdout);
    hits_of_report(report.as_str())
}

/// The hit line numbers and hit texts of an rg report.
fn hits_of_report(report: &str) -> (r: (Vec<u32>, Vec<String>))
    ensures
        (r.0@, crate::files::views(r.1@)) == spec_match_hits(report@),
{
    let v = chars_of(report);
    let ls = crate::config::lines(&v);
    let ghost lv = ls@.map_values(|l: Vec<char>| l@);
    let mut lines: Vec<u32> = Vec::new();
    let mut texts: Vec<String> = Vec::new();
    let ghost whole = hits_from(lv, Seq::empty(), Seq::empty());
    let mut i: usize = 0;
    assert(lv.skip(0) =~= lv);
    assert(crate::files::views(texts@) =~= Seq::<Seq<char>>::empty());
    loop
        invariant_except_break
            i <= ls.len(),
            lv == ls@.map_values(|l: Vec<char>| l@),
            whole == hits_from(lv.skip(i as int), lines@, crate::files::views(texts@)),
        ensures
            (lines@, crate::files::views(texts@)) == whole,
        decreases ls.len() - i,
    {
        if i >= ls.len() {
            assert(lv.skip(i as int) =~= Seq::<Seq<char>>::empty());
            break;
        }
        let raw = &ls[i];
        let ghost rest = lv.skip(i as int);
        assert(rest[0] == raw@);
        assert(rest.drop_first() =~= lv.skip(i + 1));
        match crate::text::find_char(raw.as_slice(), ':') {
            Some(c) => {
                let n_str = crate::text::string_of_range(raw.as_slice(), 0, c);
                assert(n_str@ =~= raw@.take(c as int));
                match crate::text::parse_u32(n_str.as_str()) {
                    Some(n) => {
                        let same = lines.len() > 0 && lines[lines.len() - 1] == n;
                        if !same {
                            lines.push(n);
                        }
                        let t = crate::text::string_of_range(raw.as_slice(), c + 1, raw.len());
                        assert(t@ =~= raw@.skip(c + 1));
                        if !t.as_str().is_empty() && !contains_text(&texts, t.as_str()) {
                            let ghost before = crate::files::views(texts@);
                            texts.push(t);
                            assert(crate::files::views(texts@) =~= before.push(raw@.skip(c + 1)));
                        }
                        if lines.len() >= 50 {
                            break;
                        }
                    },
                    None => {},
                }
            },
            None => {},
        }
        i = i + 1;
    }
    let sorted = sort_texts(texts);
    (lines, sorted)
}


// ---------------------------------------------------------------------------
// The preview
// ---------------------------------------------------------------------------
/// The `n`-th `\t`-separated field of `s`, if there is one.
pub open spec fn nth_field(s: Seq<char>, n: nat) -> Option<Seq<char>>
    decreases n,
{
    if n == 0 {
        Some(crate::text::first_field(s, '\t'))
    } else {
        match crate::text::first_index_of(s, '\t') {
            Some(i) => nth_field(s.skip(i + 1), (n - 1) as nat),
            None => None,
        }
    }
}

/// What the preview of a selected row shows.
#[derive(Debug)]
pub enum PreviewTarget {
    /// The hits in this file (search mode).
    File(String),
    /// This hint (the row's fifth field).
    Hint(String),
    /// Nothing.
    Nothing,
}

/// What the preview of row `line` shows under prompt `prompt`.
pub open spec fn spec_preview_target(line: Seq<char>, prompt: Seq<char>, t: PreviewTarget) -> bool {
    if prompt == crate::palette::SEARCH_PROMPT@ {
        t matches PreviewTarget::File(f) && f@ == (match nth_field(line, 1) {
            Some(x) => x,
            None => Seq::<char>::empty(),
        })
    } else {
        match nth_field(line, 4) {
            Some(h) => t matches PreviewTarget::Hint(x) && x@ == h,
            None => t is Nothing,
        }
    }
}

/// The `n`-th field of `v`, if there is one.
fn nth_field_of(v: &[char], n: usize) -> (r: Option<String>)
    ensures
        match r {
            Some(f) => nth_field(v@, n as nat) == Some(f@),
            None => nth_field(v@, n as nat) is None,
        },
{
    let mut start: usize = 0;
    let mut k: usize = 0;
    assert(v@.skip(0) =~= v@);
    while k < n
        invariant
            k <= n,
            start <= v.len(),
            nth_field(v@, n as nat) == nth_field(v@.skip(start as int), (n - k) as nat),
        decreases n - k,
    {
        let rest = crate::text::string_of_range(v, start, v.len());
        let rv = chars_of(rest.as_str());
        assert(rv@ =~= v@.skip(start as int));
        match crate::text::find_char(&rv, '\t') {
            Some(i) => {
                assert(v@.skip(start as int).skip(i + 1) =~= v@.skip(start + i + 1));
                start = start + i + 1;
            },
            None => return None,
        }
        k = k + 1;
    }
    let rest = crate::text::string_of_range(v, start, v.len());
    assert(rest@ =~= v@.skip(start as int));
    Some(crate::text::first_field_of(rest.as_str(), '\t'))
}

/// What the fzf preview shows for a selected row: in search mode the hits in
/// the file of field 2, otherwise the hint of field 5.
pub fn preview_row(line: &str, prompt: &str) -> (t: PreviewTarget)
    ensures
        spec_preview_target(line@, prompt@, t),
{
    let v = chars_of(line);
    if crate::text::str_eq(prompt, crate::palette::SEARCH_PROMPT) {
        match nth_field_of(&v, 1) {
            Some(f) => PreviewTarget::File(f),
            None => PreviewTarget::File(String::new()),
        }
    } else {
        match nth_field_of(&v, 4) {
            Some(h) => PreviewTarget::Hint(h),
            None => PreviewTarget::Nothing,
        }
    }
}

/// The first step of previewing the hits in `file`.
#[derive(Debug)]
pub enum PreviewPlan {
    /// Nothing to show.
    Nothing,
    /// Show this line.
    Message(&'static str),
    /// Look the (trimmed) query up in the file.
    Search(String),
}

/// The first step of the hits preview: nothing without a file, a hint
/// without a query, else search for the trimmed query.
pub fn preview_plan(file: &str, query: &str) -> (p: PreviewPlan)
    ensures
        file@.len() == 0 ==> p is Nothing,
        file@.len() > 0 && trim(query@).len() == 0 ==> p == PreviewPlan::Message("type a pattern after /"),
        file@.len() > 0 && trim(query@).len() > 0 ==> (p matches PreviewPlan::Search(q) && q@ == trim(query@)),
{
    let q = crate::text::trimmed(query);
    if file.is_empty() {
        return PreviewPlan::Nothing;
    }
    if q.as_str().is_empty() {
        return PreviewPlan::Message("type a pattern after /");
    }
    PreviewPlan::Search(q)
}

/// The line shown instead of the excerpt: rg could not run, or found nothing.
pub fn hits_message(rg_ran: bool, hit_lines: usize) -> (m: Option<&'static str>)
    ensures
        !rg_ran ==> m == Some("rg not found"),
        rg_ran && hit_lines == 0 ==> m == Some("no matches"),
        rg_ran && hit_lines > 0 ==> m is None,
{
    if !rg_ran {
        Some("rg not found")
    } else if hit_lines == 0 {
        Some("no matches")
    } else {
        None
    }
}

/// rg's arguments listing the hits of `query` in `file`.
pub fn match_hits_args(query: &str, file: &str) -> (r: Vec<String>)
    ensures
        crate::palette::args_view(r@) == seq!["--color=never"@, "--line-number"@, "--no-heading"@, "--hidden"@,
            "--only-matching"@, "--"@, query@, file@],
{
    let mut r: Vec<String> = Vec::new();
    r.push(owned("--color=never"));
    r.push(owned("--line-number"));
    r.push(owned("--no-heading"));
    r.push(owned("--hidden"));
    r.push(owned("--only-matching"));
    r.push(owned("--"));
    r.push(owned(query));
    r.push(owned(file));
    assert(crate::palette::args_view(r@) =~= seq!["--color=never"@, "--line-number"@, "--no-heading"@, "--hidden"@,
        "--only-matching"@, "--"@, query@, file@]);
    r
}

/// rg's arguments for the plain fallback excerpt.
pub fn fallback_args(query: &str, file: &str) -> (r: Vec<String>)
    ensures
        crate::palette::args_view(r@) == seq!["--color=never"@, "--line-number"@, "--heading"@, "--context"@,
            "2"@, "--hidden"@, "--"@, query@, file@],
{
    let mut r: Vec<String> = Vec::new();
    r.push(owned("--color=never"));
    r.push(owned("--line-number"));
    r.push(owned("--heading"));
    r.push(owned("--context"));
    r.push(owned("2"));
    r.push(owned("--hidden"));
    r.push(owned("--"));
    r.push(owned(query));
    r.push(owned(file));
    assert(crate::palette::args_view(r@) =~= seq!["--color=never"@, "--line-number"@, "--heading"@, "--context"@,
        "2"@, "--hidden"@, "--"@, query@, file@]);
    r
}

/// The preview width: `$FZF_PREVIEW_COLUMNS` when it holds a positive
/// number, else 80.
pub fn preview_width(env: Option<&str>) -> (w: u32)
    ensures
        w == (match env {
            Some(s) => match crate::text::parse_unsigned(s@, u32::MAX as nat) {
                Some(n) => if n > 0 { n } else { 80 },
                None => 80,
            },
            None => 80,
        }),
{
    match env {
        Some(s) => match crate::text::parse_u32(s) {
            Some(n) => if n > 0 {
                n
            } else {
                80
            },
            None => 80,
        },
        None => 80,
    }
}

/// The `--line-range` value showing a hit with two lines of context after.
pub open spec fn line_range(n: u32) -> Seq<char> {
    crate::text::decimal(n as nat) + "::2"@
}

/// bat's arguments for the excerpt of the hit lines of `file`.
pub open spec fn spec_bat_args(width: u32, hits: Seq<u32>, file: Seq<char>) -> Seq<Seq<char>> {
    seq!["--paging=never"@, "--color=always"@, "--decorations=always"@, "--style=numbers,header"@,
        "--theme=ansi"@, "--wrap=never"@, "--terminal-width"@, crate::text::decimal(width as nat)]
        + range_args(hits) + seq!["--"@, file]
}

/// `--line-range <n>::2` for each hit line.
pub open spec fn range_args(hits: Seq<u32>) -> Seq<Seq<char>>
    decreases hits.len(),
{
    if hits.len() == 0 {
        Seq::empty()
    } else {
        range_args(hits.drop_last()) + seq!["--line-range"@, line_range(hits.last())]
    }
}

/// bat's arguments: colors, line numbers and the file header, the hit lines
/// with two lines of context each.
pub fn bat_args(width: u32, hits: &Vec<u32>, file: &str) -> (r: Vec<String>)
    ensures
        crate::palette::args_view(r@) == spec_bat_args(width, hits@, file@),
{
    let mut r: Vec<String> = Vec::new();
    r.push(owned("--paging=never"));
    r.push(owned("--color=always"));
    r.push(owned("--decorations=always"));
    r.push(owned("--style=numbers,header"));
    r.push(owned("--theme=ansi"));
    r.push(owned("--wrap=never"));
    r.push(owned("--terminal-width"));
    let mut w = String::new();
    crate::text::push_decimal(&mut w, width as u64);
    r.push(w);
    let ghost head = crate::palette::args_view(r@);
    let mut i: usize = 0;
    while i < hits.len()
        invariant
            i <= hits.len(),
            crate::palette::args_view(r@) == head + range_args(hits@.take(i as int)),
        decreases hits.len() - i,
    {
        let ghost before = crate::palette::args_view(r@);
        r.push(owned("--line-range"));
        let mut s = String::new();
        crate::text::push_decimal(&mut s, hits[i] as u64);
        s.append("::2");
        r.push(s);
        assert(hits@.take(i + 1).drop_last() =~= hits@.take(i as int));
        assert(hits@.take(i + 1).last() == hits@[i as int]);
        assert(crate::palette::args_view(r@) =~= before + seq!["--line-range"@, line_range(hits@[i as int])]);
        i = i + 1;
    }
    assert(hits@.take(hits@.len() as int) =~= hits@);
    let ghost before = crate::palette::args_view(r@);
    r.push(owned("--"));
    r.push(owned(file));
    assert(crate::palette::args_view(r@) =~= before + seq!["--"@, file@]);
    r
}

// ---------------------------------------------------------------------------
// Files matching the live query
// ---------------------------------------------------------------------------
/// The pattern to search for: the trimmed query, or none when it is empty or
/// there is no directory to search.
pub fn search_query(cwd: &str, query: &str) -> (r: Option<String>)
    ensures
        (trim(query@).len() == 0 || cwd@.len() == 0) ==> r is None,
        (trim(query@).len() > 0 && cwd@.len() > 0) ==> (r matches Some(q) && q@ == trim(query@)),
{
    let q = crate::text::trimmed(query);
    if q.as_str().is_empty() || cwd.is_empty() {
        None
    } else {
        Some(q)
    }
}

/// rg's arguments listing the files whose contents match `query`.
pub fn files_with_matches_args(query: &str) -> (r: Vec<String>)
    ensures
        crate::palette::args_view(r@) == seq!["--files-with-matches"@, "--color=never"@, "--hidden"@, "-g"@,
            "!.git"@, "--"@, query@],
{
    let mut r: Vec<String> = Vec::new();
    r.push(owned("--files-with-matches"));
    r.push(owned("--color=never"));
    r.push(owned("--hidden"));
    r.push(owned("-g"));
    r.push(owned("!.git"));
    r.push(owned("--"));
    r.push(owned(query));
    assert(crate::palette::args_view(r@) =~= seq!["--files-with-matches"@, "--color=never"@, "--hidden"@, "-g"@,
        "!.git"@, "--"@, query@]);
    r
}

/// The single row shown when rg is not installed.
pub fn rg_missing_rows() -> (r: Vec<String>)
    ensures
        crate::files::views(r@) == seq!["files\t\trg not found\trg is required for / search\tinstall ripgrep"@],
{
    let mut r: Vec<String> = Vec::new();
    r.push(owned("files\t\trg not found\trg is required for / search\tinstall ripgrep"));
    assert(crate::files::views(r@) =~= seq!["files\t\trg not found\trg is required for / search\tinstall ripgrep"@]);
    r
}

/// The rows of the files rg reported (at most 5000), made absolute under
/// `cwd`; nothing when rg failed without output.
pub open spec fn spec_search_rows(cwd: Seq<char>, success: bool, stdout: Seq<u8>) -> Seq<Seq<char>> {
    if !success && stdout.len() == 0 {
        Seq::empty()
    } else {
        crate::files::absolutize(cwd, crate::files::spec_output_paths(stdout, 10u8, false, Some(5000usize)))
            .map_values(|p: Seq<char>| crate::files::spec_file_row(cwd, p))
    }
}

/// The list rows of the files matching the query, from rg's output.
pub fn search_rows(cwd: &str, success: bool, stdout: &[u8]) -> (r: Vec<String>)
    ensures
        crate::files::views(r@) == spec_search_rows(cwd@, success, stdout@),
{
    if !success && stdout.len() == 0 {
        let r: Vec<String> = Vec::new();
        assert(crate::files::views(r@) =~= Seq::<Seq<char>>::empty());
        return r;
    }
    let mut paths = crate::files::output_paths(stdout, 10u8, false, Some(5000usize));
    crate::files::ensure_absolute(cwd, &mut paths);
    let mut rows: Vec<String> = Vec::new();
    let mut i: usize = 0;
    while i < paths.len()
        invariant
            i <= paths.len(),
            crate::files::views(rows@) == crate::files::views(paths@).take(i as int).map_values(|p: Seq<char>| crate::files::spec_file_row(cwd@, p)),
        decreases paths.len() - i,
    {
        let ghost before = crate::files::views(rows@);
        rows.push(crate::files::file_row(cwd, paths[i].as_str()));
        assert(crate::files::views(paths@).take(i + 1) =~= crate::files::views(paths@).take(i as int).push(paths@[i as int]@));
        assert(crate::files::views(rows@) =~= before.push(crate::files::spec_file_row(cwd@, paths@[i as int]@)));
        i = i + 1;
    }
    assert(crate::files::views(paths@).take(paths@.len() as int) =~= crate::files::views(paths@));
    rows
}

} // verus!
