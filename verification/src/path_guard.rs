//! How a render path is found to be unsafe on this machine.
//!
//! A lost device ends the process on the spot, so nothing in it can react. What is left is a marker
//! file: the paths that were attempted and have not been proven yet, one to a line. A path enters it
//! before the device is made; the file goes once the path has worked. Paths found in it at the start
//! are skipped, and the next one down is run.
use vstd::prelude::*;
use crate::render_path::{option_text, RenderPath};
use crate::text::{same, split_at_char, trim};
use crate::text::{
    pieces, pieces_of_joined, pieces_of_plain, texts, trimmed, trimmed_end, trimmed_start, white_space,
};

verus! {

/// The frames that prove a path.
pub const FRAMES_TO_TRUST: u32 = 120;

/// The word for a path in the marker.
pub open spec fn token_text(p: RenderPath) -> Seq<char> {
    match p {
        RenderPath::GpuDriven => "gpu"@,
        RenderPath::Standard => "std"@,
        RenderPath::M0Instanced => "m0"@,
    }
}

/// The word for a path in the marker.
pub fn token(p: RenderPath) -> (r: &'static str)
    ensures
        r@ == token_text(p),
{
    match p {
        RenderPath::GpuDriven => "gpu",
        RenderPath::Standard => "std",
        RenderPath::M0Instanced => "m0",
    }
}

/// The path that a line of the marker names.
pub open spec fn path_of_line(s: Seq<char>) -> Option<RenderPath> {
    let t = trimmed(s);
    if t == "gpu"@ {
        Some(RenderPath::GpuDriven)
    } else if t == "std"@ {
        Some(RenderPath::Standard)
    } else if t == "m0"@ {
        Some(RenderPath::M0Instanced)
    } else {
        None
    }
}

/// The path that a line of the marker names; none for anything else.
pub fn from_token(s: &str) -> (r: Option<RenderPath>)
    ensures
        r == path_of_line(s@),
{
    let trimmed_text = trim(s);
    let t = trimmed_text.as_str();
    if same(t, "gpu") {
        Some(RenderPath::GpuDriven)
    } else if same(t, "std") {
        Some(RenderPath::Standard)
    } else if same(t, "m0") {
        Some(RenderPath::M0Instanced)
    } else {
        None
    }
}

/// The next path down. The untextured path is never an automatic choice: a rescue that looks broken
/// is none.
pub open spec fn below(p: RenderPath) -> Option<RenderPath> {
    match p {
        RenderPath::GpuDriven => Some(RenderPath::Standard),
        RenderPath::Standard => None,
        RenderPath::M0Instanced => None,
    }
}

/// The next path to try once `p` has proven unsafe.
pub fn downgrade(p: RenderPath) -> (r: Option<RenderPath>)
    ensures
        r == below(p),
{
    match p {
        RenderPath::GpuDriven => Some(RenderPath::Standard),
        RenderPath::Standard | RenderPath::M0Instanced => None,
    }
}

/// The paths that lines name, in their order; other lines are passed over.
pub open spec fn paths_in(lines: Seq<Seq<char>>) -> Seq<RenderPath>
    decreases lines.len(),
{
    if lines.len() == 0 {
        seq![]
    } else {
        match path_of_line(lines.last()) {
            Some(p) => paths_in(lines.drop_last()).push(p),
            None => paths_in(lines.drop_last()),
        }
    }
}

/// The paths that a marker with the given text names; none where there is no marker.
pub open spec fn marked(raw: Option<Seq<char>>) -> Seq<RenderPath> {
    match raw {
        Some(s) => paths_in(pieces(s, '\n')),
        None => seq![],
    }
}

/// The paths that earlier runs left unproven, newest last, given the text of the marker.
pub fn unproven(raw: Option<&str>) -> (r: Vec<RenderPath>)
    ensures
        r@ == marked(option_text(raw)),
{
    let mut r: Vec<RenderPath> = Vec::new();
    if let Some(s) = raw {
        let lines = split_at_char(s, '\n');
        let n: usize = lines.len();
        let mut i: usize = 0;
        proof {
            assert(texts(lines@).take(0) =~= Seq::<Seq<char>>::empty());
        }
        while i < n
            invariant
                i <= n,
                n == lines@.len(),
                r@ == paths_in(texts(lines@).take(i as int)),
            decreases n - i,
        {
            proof {
                let t = texts(lines@).take(i + 1);
                assert(t.drop_last() =~= texts(lines@).take(i as int));
                assert(t.last() == lines@[i as int]@);
            }
            if let Some(p) = from_token(lines[i].as_str()) {
                r.push(p);
            }
            i = i + 1;
        }
        proof {
            assert(texts(lines@).take(n as int) =~= texts(lines@));
        }
    }
    r
}

fn holds(v: &Vec<RenderPath>, p: RenderPath) -> (r: bool)
    ensures
        r == v@.contains(p),
{
    let n: usize = v.len();
    let mut i: usize = 0;
    while i < n
        invariant
            i <= n,
            n == v@.len(),
            forall|j: int| 0 <= j < i ==> v@[j] != p,
        decreases n - i,
    {
        if v[i] == p {
            return true;
        }
        i = i + 1;
    }
    false
}

/// How many steps down there are from a path.
pub open spec fn rung(p: RenderPath) -> nat {
    match p {
        RenderPath::GpuDriven => 1,
        RenderPath::Standard => 0,
        RenderPath::M0Instanced => 0,
    }
}

/// The first path from `p` downwards that is not in `bad`; the last one where all are.
pub open spec fn settled(p: RenderPath, bad: Seq<RenderPath>) -> RenderPath
    decreases rung(p),
{
    if bad.contains(p) && below(p) is Some {
        settled(below(p)->0, bad)
    } else {
        p
    }
}

/// The first path from `chosen` downwards that is not known to be bad.
pub fn pick(chosen: RenderPath, bad: &Vec<RenderPath>) -> (r: RenderPath)
    ensures
        r == settled(chosen, bad@),
{
    let mut candidate: RenderPath = chosen;
    loop
        invariant
            settled(candidate, bad@) == settled(chosen, bad@),
        ensures
            candidate == settled(chosen, bad@),
        decreases rung(candidate),
    {
        if !holds(bad, candidate) {
            break;
        }
        match downgrade(candidate) {
            Some(next) => {
                candidate = next;
            },
            None => {
                break;
            },
        }
    }
    candidate
}

/// The path to run, given the text of the marker: the chosen one where the user forced it, else the
/// first from there downwards that no earlier run left unproven.
pub fn resolve_after_crash(chosen: RenderPath, explicit: bool, raw: Option<&str>) -> (r: RenderPath)
    ensures
        r == (if explicit {
            chosen
        } else {
            settled(chosen, marked(option_text(raw)))
        }),
{
    let bad = unproven(raw);
    if bad.len() == 0 || explicit {
        return chosen;
    }
    pick(chosen, &bad)
}

/// `set` with `p`, at the end where it is new.
pub open spec fn with_attempt(set: Seq<RenderPath>, p: RenderPath) -> Seq<RenderPath> {
    if set.contains(p) {
        set
    } else {
        set.push(p)
    }
}

/// The text of a marker that names the given paths, one to a line.
pub open spec fn marker_text(set: Seq<RenderPath>) -> Seq<char>
    decreases set.len(),
{
    if set.len() == 0 {
        seq![]
    } else if set.len() == 1 {
        token_text(set[0])
    } else {
        marker_text(set.drop_last()).push('\n') + token_text(set.last())
    }
}

/// The text that the marker gets before `p` is attempted, given the text that it has: earlier entries
/// stay, so that repeated failures add up.
pub fn mark_attempt(raw: Option<&str>, p: RenderPath) -> (r: String)
    ensures
        r@ == marker_text(with_attempt(marked(option_text(raw)), p)),
{
    let mut set = unproven(raw);
    if !holds(&set, p) {
        set.push(p);
    }
    let mut r = String::new();
    let n: usize = set.len();
    let mut i: usize = 0;
    proof {
        assert(r@ =~= marker_text(set@.take(0)));
    }
    while i < n
        invariant
            i <= n,
            n == set@.len(),
            r@ == marker_text(set@.take(i as int)),
        decreases n - i,
    {
        let ghost t = set@.take(i + 1);
        proof {
            assert(t.drop_last() =~= set@.take(i as int));
            assert(t.last() == set@[i as int]);
        }
        if i > 0 {
            r.push('\n');
        }
        r.append(token(set[i]));
        proof {
            if i == 0 {
                assert(r@ =~= token_text(t[0]));
            }
        }
        i = i + 1;
    }
    proof {
        assert(set@.take(n as int) =~= set@);
    }
    r
}

/// Counts the frames that prove the running path.
#[derive(Clone, Copy, Debug, PartialEq, Eq, Structural)]
pub struct TrustCounter {
    pub frames: u32,
    pub cleared: bool,
}

impl TrustCounter {
    /// At the start nothing is proven.
    pub fn new() -> (r: TrustCounter)
        ensures
            r == (TrustCounter { frames: 0, cleared: false }),
    {
        TrustCounter { frames: 0, cleared: false }
    }

    /// The count stays below the limit until the marker is cleared.
    pub open spec fn valid(self) -> bool {
        self.cleared || self.frames < FRAMES_TO_TRUST
    }

    /// The counter after a frame in which the program exits or not, and in which there is something
    /// to draw (a pack, or the menu) or not.
    pub open spec fn after(self, exit: bool, drawing: bool) -> TrustCounter {
        if self.cleared {
            self
        } else if exit {
            TrustCounter { cleared: true, ..self }
        } else if !drawing {
            self
        } else {
            TrustCounter {
                frames: (self.frames + 1) as u32,
                cleared: self.frames + 1 >= FRAMES_TO_TRUST,
            }
        }
    }

    /// One frame. Returns whether the marker is to be cleared: the path has been proven by enough
    /// frames, or the program exits cleanly.
    pub fn trust_current_path(&mut self, exit: bool, pack: bool, menu: bool) -> (clear: bool)
        requires
            old(self).valid(),
        ensures
            final(self).valid(),
            *final(self) == old(self).after(exit, pack || menu),
            clear == (!old(self).cleared && final(self).cleared),
    {
        if self.cleared {
            return false;
        }
        if exit {
            self.cleared = true;
            return true;
        }
        if !pack && !menu {
            return false;
        }
        self.frames = self.frames + 1;
        if self.frames >= FRAMES_TO_TRUST {
            self.cleared = true;
            return true;
        }
        false
    }
}

/// Text that neither starts nor ends with white space is its own trimming.
proof fn trimmed_is_itself(s: Seq<char>)
    requires
        s.len() > 0,
        !white_space(s[0]),
        !white_space(s.last()),
    ensures
        trimmed(s) == s,
{
    assert(trimmed_start(s) == s);
    assert(trimmed_end(s) == s);
}

/// Every path survives being written to the marker and read back.
pub proof fn tokens_round_trip(p: RenderPath)
    ensures
        path_of_line(token_text(p)) == Some(p),
        !token_text(p).contains('\n'),
{
    reveal_strlit("gpu");
    reveal_strlit("std");
    reveal_strlit("m0");
    trimmed_is_itself(token_text(p));
    assert("gpu"@[0] != "std"@[0]);
    assert("gpu"@[0] != "m0"@[0]);
    assert("std"@[0] != "m0"@[0]);
}

/// What is written to the marker is what is read from it.
pub proof fn marker_round_trip(set: Seq<RenderPath>)
    ensures
        marked(Some(marker_text(set))) == set,
    decreases set.len(),
{
    let text = marker_text(set);
    reveal_with_fuel(paths_in, 2);
    if set.len() == 0 {
        assert(text =~= Seq::<char>::empty());
        let lines = pieces(text, '\n');
        assert(lines =~= seq![Seq::<char>::empty()]);
        assert(lines.drop_last() =~= Seq::<Seq<char>>::empty());
        reveal_strlit("gpu");
        reveal_strlit("std");
        reveal_strlit("m0");
        assert(trimmed(Seq::<char>::empty()).len() == 0);
        assert(marked(Some(text)) =~= set);
    } else if set.len() == 1 {
        let p = set[0];
        tokens_round_trip(p);
        pieces_of_plain(text, '\n');
        let lines = seq![text];
        assert(lines.drop_last() =~= Seq::<Seq<char>>::empty());
        assert(lines.last() == text);
        assert(marked(Some(text)) =~= set);
    } else {
        let p = set.last();
        let head = marker_text(set.drop_last());
        tokens_round_trip(p);
        marker_round_trip(set.drop_last());
        pieces_of_plain(token_text(p), '\n');
        pieces_of_joined(head, token_text(p), '\n');
        let lines = pieces(head, '\n').push(token_text(p));
        assert(pieces(text, '\n') =~= lines);
        assert(lines.drop_last() =~= pieces(head, '\n'));
        assert(marked(Some(text)) =~= set);
    }
}

/// Attempts accumulate: after `p` was marked, the marker names all that it named before, and `p`.
pub proof fn attempts_accumulate(raw: Option<Seq<char>>, p: RenderPath)
    ensures
        marked(Some(marker_text(with_attempt(marked(raw), p)))) == with_attempt(marked(raw), p),
        with_attempt(marked(raw), p).contains(p),
        forall|q: RenderPath| marked(raw).contains(q) ==> with_attempt(marked(raw), p).contains(q),
{
    let set = marked(raw);
    marker_round_trip(with_attempt(set, p));
    if !set.contains(p) {
        assert(set.push(p)[set.len() as int] == p);
        assert forall|q: RenderPath| set.contains(q) implies set.push(p).contains(q) by {
            let j = choose|j: int| 0 <= j < set.len() && set[j] == q;
            assert(set.push(p)[j] == q);
        }
    }
}

/// The walk only goes down: it ends on the chosen path or on the standard one below it, never above
/// the choice, and never on the untextured path unless that was the choice.
pub proof fn the_walk_only_descends(chosen: RenderPath, bad: Seq<RenderPath>)
    ensures
        rung(settled(chosen, bad)) <= rung(chosen),
        settled(chosen, bad) == chosen || settled(chosen, bad) == RenderPath::Standard,
        settled(chosen, bad) == RenderPath::M0Instanced ==> chosen == RenderPath::M0Instanced,
{
    reveal_with_fuel(settled, 3);
}

/// A path that is not known to be bad is kept, whatever else is.
pub proof fn a_working_path_is_kept(chosen: RenderPath, bad: Seq<RenderPath>)
    requires
        !bad.contains(chosen),
    ensures
        settled(chosen, bad) == chosen,
{
}

/// A path known to be bad is run only where there is none below it.
pub proof fn a_bad_path_is_skipped(chosen: RenderPath, bad: Seq<RenderPath>)
    requires
        bad.contains(settled(chosen, bad)),
    ensures
        below(settled(chosen, bad)) is None,
{
    reveal_with_fuel(settled, 3);
}

/// A run that died on the fast path makes the next one use the standard path.
pub proof fn a_crash_steps_down(raw: Option<Seq<char>>)
    ensures
        settled(
            RenderPath::GpuDriven,
            marked(Some(marker_text(with_attempt(marked(raw), RenderPath::GpuDriven)))),
        ) == RenderPath::Standard,
{
    attempts_accumulate(raw, RenderPath::GpuDriven);
    reveal_with_fuel(settled, 3);
}

/// The counter after `n` frames in which there is something to draw and no exit.
pub open spec fn after_frames(c: TrustCounter, n: nat) -> TrustCounter
    decreases n,
{
    if n == 0 {
        c
    } else {
        after_frames(c, (n - 1) as nat).after(false, true)
    }
}

/// A new counter clears the marker at the set number of frames, not before.
pub proof fn trust_takes_its_frames(n: nat)
    ensures
        after_frames(TrustCounter { frames: 0, cleared: false }, n).cleared == (n >= FRAMES_TO_TRUST),
        n < FRAMES_TO_TRUST ==> after_frames(TrustCounter { frames: 0, cleared: false }, n).frames == n,
    decreases n,
{
    if n > 0 {
        trust_takes_its_frames((n - 1) as nat);
    }
}

} // verus!
