//! The Content-Security-Policy of served HTML assets: nonce tokens in the HTML are replaced with
//! fresh random nonces, which the policy then allows, together with the hashes of the asset's
//! inline scripts and styles.

use vstd::prelude::*;

use crate::text::{chars_of, concat, decimal, push_char, str_eq};

verus! {

/// The token in HTML assets that stands for a script nonce.
pub const SCRIPT_NONCE_TOKEN: &'static str = "__TAURI_SCRIPT_NONCE__";

/// The token in HTML assets that stands for a style nonce.
pub const STYLE_NONCE_TOKEN: &'static str = "__TAURI_STYLE_NONCE__";

/// Whether `p` occurs in `s` at `i`.
pub open spec fn occurs_at(s: Seq<char>, p: Seq<char>, i: int) -> bool {
    0 <= i && i + p.len() <= s.len() && s.subrange(i, i + p.len()) == p
}

/// The positions of the occurrences of `p` in `s` from `i` on, found left to right without
/// overlapping (`str::match_indices`); an empty `p` occurs at every position, the end included.
pub open spec fn occurrences_from(s: Seq<char>, p: Seq<char>, i: int) -> Seq<int>
    decreases s.len() + 1 - i,
{
    if i < 0 || i > s.len() {
        Seq::empty()
    } else if p.len() == 0 {
        seq![i] + occurrences_from(s, p, i + 1)
    } else if i + p.len() > s.len() {
        Seq::empty()
    } else if occurs_at(s, p, i) {
        seq![i] + occurrences_from(s, p, i + p.len())
    } else {
        occurrences_from(s, p, i + 1)
    }
}

/// The positions of the occurrences of `p` in `s`, left to right, without overlapping.
pub open spec fn occurrences(s: Seq<char>, p: Seq<char>) -> Seq<int> {
    occurrences_from(s, p, 0)
}

/// `s` with the occurrences of a pattern of length `plen` at `positions` (from the `k`-th on,
/// after `last_end`) replaced with `reps`.
pub open spec fn spliced_from(s: Seq<char>, plen: int, positions: Seq<int>, reps: Seq<Seq<char>>, k: int, last_end: int) -> Seq<char>
    decreases positions.len() - k,
{
    if k < 0 || k >= positions.len() {
        s.subrange(last_end, s.len() as int)
    } else {
        s.subrange(last_end, positions[k]) + reps[k] + spliced_from(s, plen, positions, reps, k + 1, positions[k] + plen)
    }
}

/// `s` with the occurrences of `p` replaced, in order, with `reps`.
pub open spec fn replaced(s: Seq<char>, p: Seq<char>, reps: Seq<Seq<char>>) -> Seq<char> {
    spliced_from(s, p.len() as int, occurrences(s, p), reps, 0, 0)
}

/// The positions found from `i` on are increasing, each at or after `i`, and each an occurrence.
pub proof fn lemma_occurrences_ordered(s: Seq<char>, p: Seq<char>, i: int)
    ensures
        forall|k: int| 0 <= k < occurrences_from(s, p, i).len() ==> i <= #[trigger] occurrences_from(s, p, i)[k] <= s.len(),
        forall|k: int| 0 <= k < occurrences_from(s, p, i).len() && p.len() > 0 ==> occurrences_from(s, p, i)[k] + p.len() <= s.len(),
        forall|k: int| 0 <= k < occurrences_from(s, p, i).len() && p.len() > 0 ==> occurs_at(s, p, #[trigger] occurrences_from(s, p, i)[k]),
        forall|k: int| 0 <= k < occurrences_from(s, p, i).len() - 1 ==> #[trigger] occurrences_from(s, p, i)[k] + (if p.len() == 0 { 1 } else { p.len() as int }) <= occurrences_from(s, p, i)[k + 1],
    decreases s.len() + 1 - i,
{
    let o = occurrences_from(s, p, i);
    if i < 0 || i > s.len() {
    } else if p.len() == 0 || (i + p.len() <= s.len() && occurs_at(s, p, i)) {
        let next = if p.len() == 0 { i + 1 } else { i + p.len() };
        lemma_occurrences_ordered(s, p, next);
        let rest = occurrences_from(s, p, next);
        assert(o == seq![i] + rest);
        assert forall|k: int| 0 <= k < o.len() implies i <= #[trigger] o[k] <= s.len() by {
            if k > 0 {
                assert(o[k] == rest[k - 1]);
            }
        }
        assert forall|k: int| 0 <= k < o.len() && p.len() > 0 implies o[k] + p.len() <= s.len() by {
            if k > 0 {
                assert(o[k] == rest[k - 1]);
            }
        }
        assert forall|k: int| 0 <= k < o.len() && p.len() > 0 implies occurs_at(s, p, #[trigger] o[k]) by {
            if k > 0 {
                assert(o[k] == rest[k - 1]);
            }
        }
        assert forall|k: int| 0 <= k < o.len() - 1 implies #[trigger] o[k] + (if p.len() == 0 { 1 } else { p.len() as int }) <= o[k + 1] by {
            assert(o[k + 1] == rest[k]);
            if k > 0 {
                assert(o[k] == rest[k - 1]);
            }
        }
    } else if i + p.len() > s.len() {
        assert(o.len() == 0);
    } else {
        lemma_occurrences_ordered(s, p, i + 1);
        assert(o == occurrences_from(s, p, i + 1));
    }
}

/// Whether `pc` occurs in `sc` at `i`.
fn occurs_at_exec(sc: &Vec<char>, pc: &Vec<char>, i: usize) -> (r: bool)
    requires
        i + pc@.len() <= sc@.len(),
        sc@.len() <= usize::MAX,
    ensures
        r == occurs_at(sc@, pc@, i as int),
{
    let mut j: usize = 0;
    while j < pc.len()
        invariant
            i + pc@.len() <= sc@.len(),
            sc@.len() <= usize::MAX,
            j <= pc@.len(),
            forall|k: int| 0 <= k < j ==> sc@[i + k] == pc@[k],
        decreases pc@.len() - j,
    {
        if sc[i + j] != pc[j] {
            assert(sc@.subrange(i as int, i + pc@.len())[j as int] != pc@[j as int]);
            return false;
        }
        j += 1;
    }
    assert(sc@.subrange(i as int, i + pc@.len()) =~= pc@);
    true
}

/// The positions of the occurrences of `pattern` in `text` (counted in characters), left to
/// right, without overlapping.
pub fn match_positions(text: &str, pattern: &str) -> (r: Vec<usize>)
    ensures
        r@.map_values(|x: usize| x as int) == occurrences(text@, pattern@),
{
    let sc = chars_of(text);
    let pc = chars_of(pattern);
    let n = sc.len();
    let mut out: Vec<usize> = Vec::new();
    let mut i: usize = 0;
    let mut done = false;
    while !done
        invariant
            sc@ == text@,
            pc@ == pattern@,
            n == sc@.len(),
            i <= n,
            !done ==> out@.map_values(|x: usize| x as int) + occurrences_from(sc@, pc@, i as int) == occurrences(sc@, pc@),
            done ==> out@.map_values(|x: usize| x as int) == occurrences(sc@, pc@),
        decreases (n - i) * 2 + (if done { 0int } else { 1int }),
    {
        let ghost before = out@.map_values(|x: usize| x as int);
        if pc.len() == 0 {
            out.push(i);
            assert(out@.map_values(|x: usize| x as int) =~= before.push(i as int));
            assert(occurrences_from(sc@, pc@, i as int) =~= seq![i as int] + occurrences_from(sc@, pc@, i + 1));
            assert(before.push(i as int) + occurrences_from(sc@, pc@, i + 1) =~= before + occurrences_from(sc@, pc@, i as int));
            if i == n {
                assert(occurrences_from(sc@, pc@, i + 1) =~= Seq::<int>::empty());
                assert(out@.map_values(|x: usize| x as int) =~= before.push(i as int) + occurrences_from(sc@, pc@, i + 1));
                done = true;
            } else {
                i += 1;
            }
        } else if pc.len() > n - i {
            assert(occurrences_from(sc@, pc@, i as int) =~= Seq::<int>::empty());
            assert(before + occurrences_from(sc@, pc@, i as int) =~= before);
            done = true;
        } else if occurs_at_exec(&sc, &pc, i) {
            out.push(i);
            assert(out@.map_values(|x: usize| x as int) =~= before.push(i as int));
            assert(before.push(i as int) + occurrences_from(sc@, pc@, i + pc@.len()) =~= before + occurrences_from(sc@, pc@, i as int));
            i += pc.len();
        } else {
            i += 1;
        }
    }
    out
}

/// `text` with the occurrences of `pattern` replaced, in order, with `replacements` (one
/// for each occurrence).
#[verifier::spinoff_prover]
#[verifier::rlimit(40)]
pub fn splice(text: &str, pattern: &str, replacements: &Vec<String>) -> (r: String)
    requires
        replacements@.len() == occurrences(text@, pattern@).len(),
    ensures
        r@ == replaced(text@, pattern@, replacements@.map_values(|s: String| s@)),
{
    let positions = match_positions(text, pattern);
    let sc = chars_of(text);
    let plen = chars_of(pattern).len();
    let ghost occ = occurrences(text@, pattern@);
    let ghost reps = replacements@.map_values(|s: String| s@);
    proof {
        lemma_occurrences_ordered(text@, pattern@, 0);
        assert(positions@.len() == occ.len());
        assert forall|k: int| 0 <= k < occ.len() implies #[trigger] occ[k] == positions@[k] as int by {
            assert(positions@.map_values(|x: usize| x as int)[k] == positions@[k] as int);
        }
    }
    let n = sc.len();
    let mut out = String::new();
    let mut last_end: usize = 0;
    let mut k: usize = 0;
    while k < positions.len()
        invariant
            sc@ == text@,
            n == text@.len(),
            plen == pattern@.len(),
            occ == occurrences(text@, pattern@),
            positions@.len() == occ.len(),
            replacements@.len() == occ.len(),
            reps == replacements@.map_values(|s: String| s@),
            forall|j: int| 0 <= j < occ.len() ==> #[trigger] occ[j] == positions@[j] as int,
            forall|j: int| 0 <= j < occ.len() ==> 0 <= #[trigger] occ[j] <= text@.len(),
            forall|j: int| 0 <= j < occ.len() && pattern@.len() > 0 ==> #[trigger] occ[j] + pattern@.len() <= text@.len(),
            forall|j: int| 0 <= j < occ.len() - 1 ==> #[trigger] occ[j] + (if pattern@.len() == 0 { 1 } else { pattern@.len() as int }) <= occ[j + 1],
            k <= occ.len(),
            k < occ.len() ==> last_end <= positions@[k as int],
            last_end <= text@.len(),
            out@ + spliced_from(text@, plen as int, occ, reps, k as int, last_end as int) == replaced(text@, pattern@, reps),
        decreases positions@.len() - k,
    {
        let pos = positions[k];
        let ghost before = out@;
        let piece = crate::text::substring(text, last_end, pos);
        out.append(piece.as_str());
        out.append(replacements[k].as_str());
        assert(reps[k as int] == replacements@[k as int]@);
        let next_end: usize = if plen == 0 { pos } else { pos + plen };
        assert(spliced_from(text@, plen as int, occ, reps, k as int, last_end as int)
            == text@.subrange(last_end as int, pos as int) + reps[k as int] + spliced_from(text@, plen as int, occ, reps, k + 1, next_end as int));
        assert(out@ =~= before + text@.subrange(last_end as int, pos as int) + reps[k as int]);
        last_end = next_end;
        k += 1;
    }
    let tail = crate::text::substring(text, last_end, sc.len());
    out.append(tail.as_str());
    out
}

/// `text` with each occurrence of `pattern` replaced, in order, with what `replacement`
/// gives for the occurrence's index (0 for the first).
pub fn replace_with_callback<F: Fn(usize) -> String>(text: &str, pattern: &str, replacement: F) -> (r: String)
    requires
        forall|i: usize| replacement.requires((i,)),
    ensures
        exists|reps: Seq<String>|
            #![trigger reps.len()]
            reps.len() == occurrences(text@, pattern@).len()
            && (forall|i: int| 0 <= i < reps.len() ==> replacement.ensures((i as usize,), #[trigger] reps[i]))
            && r@ == replaced(text@, pattern@, reps.map_values(|s: String| s@)),
{
    let positions = match_positions(text, pattern);
    let mut reps: Vec<String> = Vec::new();
    let mut k: usize = 0;
    while k < positions.len()
        invariant
            k <= positions@.len(),
            reps@.len() == k,
            forall|i: usize| replacement.requires((i,)),
            forall|i: int| 0 <= i < k ==> replacement.ensures((i as usize,), #[trigger] reps@[i]),
        decreases positions@.len() - k,
    {
        let value = replacement(k);
        reps.push(value);
        k += 1;
    }
    proof {
        assert(positions@.map_values(|x: usize| x as int).len() == positions@.len());
    }
    let r = splice(text, pattern, &reps);
    assert(reps@.len() == occurrences(text@, pattern@).len());
    r
}

/// The sources a Content-Security-Policy allows, by directive, each directive once.
pub struct CspMap {
    entries: Vec<(String, Vec<String>)>,
}

/// The model of a policy: each directive with its sources, in the order they were added.
pub open spec fn csp_view(entries: Seq<(String, Vec<String>)>) -> Seq<(Seq<char>, Seq<Seq<char>>)> {
    entries.map_values(|e: (String, Vec<String>)| (e.0@, e.1@.map_values(|s: String| s@)))
}

/// Whether a directive is in the model.
pub open spec fn has_directive(m: Seq<(Seq<char>, Seq<Seq<char>>)>, d: Seq<char>) -> bool {
    exists|i: int| 0 <= i < m.len() && (#[trigger] m[i]).0 == d
}

/// The sources of a directive (none when it is absent).
pub open spec fn directive_sources(m: Seq<(Seq<char>, Seq<Seq<char>>)>, d: Seq<char>) -> Seq<Seq<char>> {
    if has_directive(m, d) {
        m[choose|i: int| 0 <= i < m.len() && (#[trigger] m[i]).0 == d].1
    } else {
        Seq::empty()
    }
}

/// No directive is listed twice.
pub open spec fn directives_unique(m: Seq<(Seq<char>, Seq<Seq<char>>)>) -> bool {
    forall|i: int, j: int| 0 <= i < m.len() && 0 <= j < m.len() && i != j ==> (#[trigger] m[i]).0 != (#[trigger] m[j]).0
}

/// The sources of a directive after allowing nonces and hashes: `'self'` added if missing, then
/// each nonce as `'nonce-<n>'`, then the hashes.
pub open spec fn allowed_sources(sources: Seq<Seq<char>>, nonces: Seq<usize>, hashes: Seq<Seq<char>>) -> Seq<Seq<char>> {
    let with_self = if sources.contains("'self'"@) { sources } else { sources.push("'self'"@) };
    with_self + nonces.map_values(|n: usize| "'nonce-"@ + decimal(n as nat) + "'"@) + hashes
}

/// `'nonce-<n>'`.
fn nonce_source(n: usize) -> (r: String)
    ensures
        r@ == "'nonce-"@ + decimal(n as nat) + "'"@,
{
    let d = crate::text::u64_to_decimal(n as u64);
    let head = concat("'nonce-", d.as_str());
    concat(head.as_str(), "'")
}

impl CspMap {
    /// The policy.
    pub closed spec fn directives(&self) -> Seq<(Seq<char>, Seq<Seq<char>>)> {
        csp_view(self.entries@)
    }

    /// Each directive is listed once.
    pub open spec fn wf(&self) -> bool {
        directives_unique(self.directives())
    }

    /// An empty policy.
    pub fn new() -> (r: Self)
        ensures
            r.wf(),
            r.directives().len() == 0,
    {
        let r = CspMap { entries: Vec::new() };
        assert(r.directives() =~= Seq::empty());
        r
    }

    /// The position of a directive, if present.
    fn position(&self, directive: &str) -> (r: Option<usize>)
        requires
            self.wf(),
        ensures
            r matches Some(i) ==> i < self.directives().len() && self.directives()[i as int].0 == directive@,
            r is None ==> !has_directive(self.directives(), directive@),
    {
        let mut i: usize = 0;
        while i < self.entries.len()
            invariant
                i <= self.entries@.len(),
                forall|j: int| 0 <= j < i ==> (#[trigger] self.directives()[j]).0 != directive@,
            decreases self.entries@.len() - i,
        {
            assert(self.directives()[i as int].0 == self.entries@[i as int].0@);
            if str_eq(self.entries[i].0.as_str(), directive) {
                return Some(i);
            }
            i += 1;
        }
        None
    }

    /// The sources of a directive (none when it is absent).
    pub fn sources(&self, directive: &str) -> (r: Vec<String>)
        requires
            self.wf(),
        ensures
            r@.map_values(|s: String| s@) == directive_sources(self.directives(), directive@),
    {
        match self.position(directive) {
            Some(i) => {
                let ghost m = self.directives();
                let ghost j = choose|j: int| 0 <= j < m.len() && (#[trigger] m[j]).0 == directive@;
                assert(j == i as int);
                let v = self.entries[i].1.clone();
                assert(v@.map_values(|s: String| s@) =~= m[i as int].1) by {
                    assert forall|k: int| 0 <= k < v@.len() implies #[trigger] v@[k]@ == self.entries@[i as int].1@[k]@ by {
                        assert(vstd::pervasive::cloned(self.entries@[i as int].1@[k], v@[k]));
                    }
                }
                v
            },
            None => {
                let r: Vec<String> = Vec::new();
                assert(r@.map_values(|s: String| s@) =~= Seq::<Seq<char>>::empty());
                r
            },
        }
    }

    /// Allows the nonces and hashes on a directive (created if missing): `'self'` is added if
    /// missing, then each nonce as `'nonce-<n>'`, then the hashes.
    pub fn allow_sources(&mut self, directive: &str, nonces: &Vec<usize>, hashes: &Vec<String>)
        requires
            old(self).wf(),
        ensures
            final(self).wf(),
            final(self).directives() == csp_allowed(old(self).directives(), directive@, nonces@, hashes@.map_values(|h: String| h@)),
            directive_sources(final(self).directives(), directive@).len() >= directive_sources(old(self).directives(), directive@).len(),
            directive_sources(final(self).directives(), directive@).subrange(0, directive_sources(old(self).directives(), directive@).len() as int)
                == directive_sources(old(self).directives(), directive@),
            forall|d2: Seq<char>| d2 != directive@ ==> #[trigger] directive_sources(final(self).directives(), d2) == directive_sources(old(self).directives(), d2),
    {
        let ghost m = self.directives();
        let ghost hs = hashes@.map_values(|h: String| h@);
        proof {
            lemma_allow_keeps_sources(m, directive@, nonces@, hs);
        }
        let (index, mut sources) = match self.position(directive) {
            Some(i) => {
                let (_d, v) = self.entries.remove(i);
                (Some(i), v)
            },
            None => (None, Vec::new()),
        };
        let ghost start = sources@.map_values(|s: String| s@);
        proof {
            if index is Some {
                let i = index->Some_0 as int;
                assert(start == m[i].1);
                lemma_directive_position(m, i);
            } else {
                assert(start =~= Seq::<Seq<char>>::empty());
            }
        }
        let mut has_self = false;
        let mut k: usize = 0;
        while k < sources.len()
            invariant
                k <= sources@.len(),
                start == sources@.map_values(|s: String| s@),
                has_self <==> exists|j: int| 0 <= j < k && #[trigger] start[j] == "'self'"@,
            decreases sources@.len() - k,
        {
            if str_eq(sources[k].as_str(), "'self'") {
                has_self = true;
            }
            assert(start[k as int] == sources@[k as int]@);
            k += 1;
        }
        proof {
            if start.contains("'self'"@) {
                let j = choose|j: int| 0 <= j < start.len() && start[j] == "'self'"@;
                assert(start[j] == "'self'"@);
            }
        }
        if !has_self {
            sources.push(String::from_str("'self'"));
        }
        let ghost with_self = sources@.map_values(|s: String| s@);
        assert(with_self =~= (if start.contains("'self'"@) { start } else { start.push("'self'"@) }));
        let mut n: usize = 0;
        while n < nonces.len()
            invariant
                n <= nonces@.len(),
                sources@.map_values(|s: String| s@) == with_self + nonces@.take(n as int).map_values(|x: usize| "'nonce-"@ + decimal(x as nat) + "'"@),
            decreases nonces@.len() - n,
        {
            let ghost before = sources@.map_values(|s: String| s@);
            sources.push(nonce_source(nonces[n]));
            assert(nonces@.take(n + 1).map_values(|x: usize| "'nonce-"@ + decimal(x as nat) + "'"@)
                =~= nonces@.take(n as int).map_values(|x: usize| "'nonce-"@ + decimal(x as nat) + "'"@).push("'nonce-"@ + decimal(nonces@[n as int] as nat) + "'"@));
            assert(sources@.map_values(|s: String| s@) =~= before.push("'nonce-"@ + decimal(nonces@[n as int] as nat) + "'"@));
            n += 1;
        }
        assert(nonces@.take(n as int) =~= nonces@);
        let ghost with_nonces = sources@.map_values(|s: String| s@);
        let mut h: usize = 0;
        while h < hashes.len()
            invariant
                h <= hashes@.len(),
                hs == hashes@.map_values(|x: String| x@),
                sources@.map_values(|s: String| s@) == with_nonces + hs.take(h as int),
            decreases hashes@.len() - h,
        {
            let ghost before = sources@.map_values(|s: String| s@);
            let copy = hashes[h].clone();
            sources.push(copy);
            assert(hs.take(h + 1) =~= hs.take(h as int).push(hs[h as int]));
            assert(sources@.map_values(|s: String| s@) =~= before.push(hs[h as int]));
            h += 1;
        }
        assert(hs.take(h as int) =~= hs);
        let ghost done = sources@.map_values(|s: String| s@);
        assert(done == allowed_sources(start, nonces@, hs));
        let ghost mid = self.directives();
        match index {
            Some(i) => {
                self.entries.insert(i, (String::from_str(directive), sources));
                assert(self.directives() =~= m.update(i as int, (directive@, done)));
            },
            None => {
                self.entries.push((String::from_str(directive), sources));
                assert(self.directives() =~= m.push((directive@, done)));
            },
        }
        proof {
            let r = self.directives();
            assert forall|a: int, b: int| 0 <= a < r.len() && 0 <= b < r.len() && a != b implies (#[trigger] r[a]).0 != (#[trigger] r[b]).0 by {
                if index is None {
                    if a < m.len() && b < m.len() {
                        assert(r[a] == m[a] && r[b] == m[b]);
                    } else if a < m.len() {
                        assert(r[a] == m[a]);
                    } else {
                        assert(r[b] == m[b]);
                    }
                } else {
                    assert(r[a].0 == m[a].0 && r[b].0 == m[b].0);
                }
            }
        }
    }
}

/// A policy after allowing nonces and hashes on a directive (appended when missing).
pub open spec fn csp_allowed(m: Seq<(Seq<char>, Seq<Seq<char>>)>, d: Seq<char>, nonces: Seq<usize>, hashes: Seq<Seq<char>>) -> Seq<(Seq<char>, Seq<Seq<char>>)> {
    if has_directive(m, d) {
        let i = choose|i: int| 0 <= i < m.len() && (#[trigger] m[i]).0 == d;
        m.update(i, (d, allowed_sources(m[i].1, nonces, hashes)))
    } else {
        m.push((d, allowed_sources(Seq::empty(), nonces, hashes)))
    }
}

/// With unique directives, the one at a position is the one the policy names.
pub proof fn lemma_directive_position(m: Seq<(Seq<char>, Seq<Seq<char>>)>, i: int)
    requires
        directives_unique(m),
        0 <= i < m.len(),
    ensures
        has_directive(m, m[i].0),
        (choose|j: int| 0 <= j < m.len() && (#[trigger] m[j]).0 == m[i].0) == i,
{
    assert(m[i].0 == m[i].0);
    let j = choose|j: int| 0 <= j < m.len() && (#[trigger] m[j]).0 == m[i].0;
    assert(m[j].0 == m[i].0);
}

/// The sources `'nonce-<n>'` of nonces.
pub open spec fn nonce_sources(nonces: Seq<usize>) -> Seq<Seq<char>> {
    nonces.map_values(|n: usize| "'nonce-"@ + decimal(n as nat) + "'"@)
}

/// Allowing nonces and hashes on a directive keeps the policy's directives distinct and leaves
/// the other directives as they were; the directive is then present, the sources it had come
/// first, unchanged and in order, and after them it lists `'self'`, each nonce and each hash.
pub proof fn lemma_allow_keeps_sources(m: Seq<(Seq<char>, Seq<Seq<char>>)>, d: Seq<char>, nonces: Seq<usize>, hashes: Seq<Seq<char>>)
    requires
        directives_unique(m),
    ensures
        directives_unique(csp_allowed(m, d, nonces, hashes)),
        has_directive(csp_allowed(m, d, nonces, hashes), d),
        ({
            let before = directive_sources(m, d);
            let after = directive_sources(csp_allowed(m, d, nonces, hashes), d);
            &&& after.len() >= before.len()
            &&& after.subrange(0, before.len() as int) == before
            &&& after.contains("'self'"@)
            &&& forall|i: int| 0 <= i < nonces.len() ==> after.contains(#[trigger] nonce_sources(nonces)[i])
            &&& forall|i: int| 0 <= i < hashes.len() ==> after.contains(#[trigger] hashes[i])
        }),
        forall|d2: Seq<char>| d2 != d ==> #[trigger] directive_sources(csp_allowed(m, d, nonces, hashes), d2) == directive_sources(m, d2),
{
    let m2 = csp_allowed(m, d, nonces, hashes);
    let (pos, before) = if has_directive(m, d) {
        let i = choose|i: int| 0 <= i < m.len() && (#[trigger] m[i]).0 == d;
        (i, m[i].1)
    } else {
        (m.len() as int, Seq::<Seq<char>>::empty())
    };
    let new_sources = allowed_sources(before, nonces, hashes);
    assert(m2[pos] == (d, new_sources));
    assert(m2.len() == if has_directive(m, d) { m.len() } else { m.len() + 1 });
    assert(forall|k: int| 0 <= k < m.len() && k != pos ==> #[trigger] m2[k] == m[k]);
    assert(directives_unique(m2)) by {
        assert forall|a: int, b: int| 0 <= a < m2.len() && 0 <= b < m2.len() && a != b implies (#[trigger] m2[a]).0 != (#[trigger] m2[b]).0 by {
            if a != pos && b != pos {
                assert(m2[a] == m[a] && m2[b] == m[b]);
            } else if a == pos {
                assert(m2[b] == m[b]);
                if !has_directive(m, d) {
                    assert(m[b].0 != d);
                }
            } else {
                assert(m2[a] == m[a]);
                if !has_directive(m, d) {
                    assert(m[a].0 != d);
                }
            }
        }
    }
    lemma_directive_position(m2, pos);
    let after = directive_sources(m2, d);
    assert(after == new_sources);
    if has_directive(m, d) {
        lemma_directive_position(m, pos);
        assert(directive_sources(m, d) == before);
    }
    let with_self = if before.contains("'self'"@) { before } else { before.push("'self'"@) };
    assert(new_sources == with_self + nonce_sources(nonces) + hashes);
    assert(new_sources.subrange(0, before.len() as int) =~= before);
    if before.contains("'self'"@) {
        let k = choose|k: int| 0 <= k < before.len() && before[k] == "'self'"@;
        assert(new_sources[k] == "'self'"@);
    } else {
        assert(new_sources[before.len() as int] == "'self'"@);
    }
    assert forall|i: int| 0 <= i < nonces.len() implies after.contains(#[trigger] nonce_sources(nonces)[i]) by {
        assert(new_sources[with_self.len() + i] == nonce_sources(nonces)[i]);
    }
    assert forall|i: int| 0 <= i < hashes.len() implies after.contains(#[trigger] hashes[i]) by {
        assert(new_sources[with_self.len() + nonces.len() + i] == hashes[i]);
    }
    assert forall|d2: Seq<char>| d2 != d implies #[trigger] directive_sources(m2, d2) == directive_sources(m, d2) by {
        if has_directive(m, d2) {
            let k = choose|k: int| 0 <= k < m.len() && (#[trigger] m[k]).0 == d2;
            assert(k != pos);
            assert(m2[k] == m[k]);
            lemma_directive_position(m, k);
            lemma_directive_position(m2, k);
        } else {
            if has_directive(m2, d2) {
                let k = choose|k: int| 0 <= k < m2.len() && (#[trigger] m2[k]).0 == d2;
                if k != pos {
                    assert(m2[k] == m[k]);
                }
            }
        }
    }
}

/// One nonce step: the asset after has each occurrence of `token` replaced, in order, by the
/// decimal text of a nonce, and the policy after allows those nonces and the hashes on the
/// directive (it is unchanged when there are neither).
pub open spec fn nonce_step(
    asset: Seq<char>,
    policy: Seq<(Seq<char>, Seq<Seq<char>>)>,
    token: Seq<char>,
    directive: Seq<char>,
    hashes: Seq<Seq<char>>,
    asset_after: Seq<char>,
    policy_after: Seq<(Seq<char>, Seq<Seq<char>>)>,
) -> bool {
    exists|nonces: Seq<usize>|
        #![trigger nonces.len()]
        nonces.len() == occurrences(asset, token).len()
        && asset_after == replaced(asset, token, nonces.map_values(|n: usize| decimal(n as nat)))
        && policy_after == (if nonces.len() == 0 && hashes.len() == 0 {
            policy
        } else {
            csp_allowed(policy, directive, nonces, hashes)
        })
}

/// Replaces each nonce token in an HTML asset with a fresh random nonce, and allows those
/// nonces, and the given hashes, on the directive (unless there is neither).
pub fn replace_csp_nonce(asset: &mut String, token: &str, csp: &mut CspMap, directive: &str, hashes: &Vec<String>)
    requires
        old(csp).wf(),
    ensures
        final(csp).wf(),
        nonce_step(old(asset)@, old(csp).directives(), token@, directive@, hashes@.map_values(|h: String| h@), final(asset)@, final(csp).directives()),
{
    let positions = match_positions(asset.as_str(), token);
    let mut nonces: Vec<usize> = Vec::new();
    let mut texts: Vec<String> = Vec::new();
    let mut k: usize = 0;
    while k < positions.len()
        invariant
            k <= positions@.len(),
            nonces@.len() == k,
            texts@.map_values(|t: String| t@) == nonces@.map_values(|n: usize| decimal(n as nat)),
        decreases positions@.len() - k,
    {
        let n = crate::random::random_usize();
        let ghost before_t = texts@.map_values(|t: String| t@);
        let ghost before_n = nonces@;
        nonces.push(n);
        texts.push(crate::text::u64_to_decimal(n as u64));
        assert(texts@.map_values(|t: String| t@) =~= before_t.push(decimal(n as nat)));
        assert(nonces@.map_values(|x: usize| decimal(x as nat)) =~= before_n.map_values(|x: usize| decimal(x as nat)).push(decimal(n as nat)));
        k += 1;
    }
    proof {
        assert(positions@.map_values(|x: usize| x as int).len() == positions@.len());
    }
    let replaced_text = splice(asset.as_str(), token, &texts);
    *asset = replaced_text;
    if !(nonces.len() == 0 && hashes.len() == 0) {
        csp.allow_sources(directive, &nonces, hashes);
    }
    assert(nonces@.len() == occurrences(old(asset)@, token@).len());
}

/// The script step then the style step of [`set_csp`], through the asset and policy in between;
/// a step that may not change its directive leaves both as they are.
pub open spec fn csp_steps(
    asset: Seq<char>,
    policy: Seq<(Seq<char>, Seq<Seq<char>>)>,
    mid_asset: Seq<char>,
    mid_policy: Seq<(Seq<char>, Seq<Seq<char>>)>,
    asset_after: Seq<char>,
    policy_after: Seq<(Seq<char>, Seq<Seq<char>>)>,
    script_hashes: Seq<Seq<char>>,
    style_hashes: Seq<Seq<char>>,
    can_modify_script: bool,
    can_modify_style: bool,
) -> bool {
    &&& if can_modify_script {
        nonce_step(asset, policy, SCRIPT_NONCE_TOKEN@, "script-src"@, script_hashes, mid_asset, mid_policy)
    } else {
        mid_asset == asset && mid_policy == policy
    }
    &&& if can_modify_style {
        nonce_step(mid_asset, mid_policy, STYLE_NONCE_TOKEN@, "style-src"@, style_hashes, asset_after, policy_after)
    } else {
        asset_after == mid_asset && policy_after == mid_policy
    }
}

/// Sets the nonces and hashes of an HTML asset in its policy: on `script-src` (unless the app
/// forbids changing it) for the script nonce tokens and script hashes, then likewise on
/// `style-src` for styles.
pub fn set_csp(asset: &mut String, csp: &mut CspMap, script_hashes: &Vec<String>, style_hashes: &Vec<String>, can_modify_script: bool, can_modify_style: bool)
    requires
        old(csp).wf(),
    ensures
        final(csp).wf(),
        exists|mid_asset: Seq<char>, mid_policy: Seq<(Seq<char>, Seq<Seq<char>>)>|
            #[trigger] csp_steps(old(asset)@, old(csp).directives(), mid_asset, mid_policy, final(asset)@, final(csp).directives(),
                crate::acl::texts(script_hashes@), crate::acl::texts(style_hashes@), can_modify_script, can_modify_style),
{
    if can_modify_script {
        replace_csp_nonce(asset, SCRIPT_NONCE_TOKEN, csp, "script-src", script_hashes);
    }
    let ghost mid_asset = asset@;
    let ghost mid_policy = csp.directives();
    if can_modify_style {
        replace_csp_nonce(asset, STYLE_NONCE_TOKEN, csp, "style-src", style_hashes);
    }
    assert(csp_steps(old(asset)@, old(csp).directives(), mid_asset, mid_policy, asset@, csp.directives(),
        crate::acl::texts(script_hashes@), crate::acl::texts(style_hashes@), can_modify_script, can_modify_style));
}



/// The policy the app serves: the configured one, or in development the development policy when
/// one is configured, else the configured one.
pub fn select_csp<T>(is_dev: bool, csp: Option<T>, dev_csp: Option<T>) -> (r: Option<T>)
    ensures
        r == (if is_dev && dev_csp is Some { dev_csp } else { csp }),
{
    if !is_dev {
        csp
    } else {
        match dev_csp {
            Some(d) => Some(d),
            None => csp,
        }
    }
}

} // verus!
