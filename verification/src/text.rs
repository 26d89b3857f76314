//! Character sequences: literal substring search and replacement, and the
//! spacing of token text.
//!
//! Every text that the expansions read or write is a `String` whose view is a
//! `Seq<char>`. The functions here are stated over those sequences.

use vstd::prelude::*;
use vstd::string::*;

verus! {

/// `pat` stands in `s` at position `i`.
pub open spec fn occurs_at(s: Seq<char>, pat: Seq<char>, i: int) -> bool {
    &&& 0 <= i
    &&& i + pat.len() <= s.len()
    &&& s.subrange(i, i + pat.len()) == pat
}

/// `pat` stands somewhere in `s`.
pub open spec fn occurs_in(s: Seq<char>, pat: Seq<char>) -> bool {
    exists|i: int| occurs_at(s, pat, i)
}

/// `s` with every occurrence of `from` replaced by `to`, scanning from the
/// left; an occurrence that overlaps an earlier one is not replaced. An empty
/// `from` replaces nothing.
pub open spec fn replace_all(s: Seq<char>, from: Seq<char>, to: Seq<char>) -> Seq<char>
    decreases s.len(),
{
    if from.len() == 0 || s.len() < from.len() {
        s
    } else if s.subrange(0, from.len() as int) == from {
        to + replace_all(s.skip(from.len() as int), from, to)
    } else {
        s.take(1) + replace_all(s.skip(1), from, to)
    }
}

/// The parts in order, each followed by one blank: the shape of all token
/// text that the expansions write.
pub open spec fn spaced(parts: Seq<Seq<char>>) -> Seq<char>
    decreases parts.len(),
{
    if parts.len() == 0 {
        Seq::empty()
    } else {
        spaced(parts.drop_last()) + parts.last() + seq![' ']
    }
}

/// The texts in order, one after the other.
pub open spec fn concat(texts: Seq<Seq<char>>) -> Seq<char>
    decreases texts.len(),
{
    if texts.len() == 0 {
        Seq::empty()
    } else {
        concat(texts.drop_last()) + texts.last()
    }
}

/// One more part at the end adds that part and a blank.
pub proof fn lemma_spaced_push(parts: Seq<Seq<char>>, part: Seq<char>)
    ensures
        spaced(parts.push(part)) == spaced(parts) + part + seq![' '],
{
    assert(parts.push(part).drop_last() =~= parts);
}

/// The spacing of two runs of parts is the spacing of the first, then that
/// of the second.
pub proof fn lemma_spaced_add(a: Seq<Seq<char>>, b: Seq<Seq<char>>)
    ensures
        spaced(a + b) == spaced(a) + spaced(b),
    decreases b.len(),
{
    if b.len() == 0 {
        assert(a + b =~= a);
        assert(spaced(a) + spaced(b) =~= spaced(a));
    } else {
        lemma_spaced_add(a, b.drop_last());
        assert((a + b).drop_last() =~= a + b.drop_last());
        assert((a + b).last() == b.last());
        assert(spaced(a + b) =~= spaced(a) + spaced(b));
    }
}

/// One more text at the end is appended.
pub proof fn lemma_concat_push(texts: Seq<Seq<char>>, text: Seq<char>)
    ensures
        concat(texts.push(text)) == concat(texts) + text,
{
    assert(texts.push(text).drop_last() =~= texts);
}

/// Past an occurrence at the front, replacement writes `to` and goes on
/// behind the occurrence; past any other character it keeps the character.
proof fn lemma_replace_step(s: Seq<char>, from: Seq<char>, to: Seq<char>, i: int)
    requires
        from.len() > 0,
        0 <= i < s.len(),
    ensures
        occurs_at(s, from, i) ==> replace_all(s.skip(i), from, to) == to + replace_all(
            s.skip(i + from.len()),
            from,
            to,
        ),
        !occurs_at(s, from, i) ==> replace_all(s.skip(i), from, to) == seq![s[i]] + replace_all(
            s.skip(i + 1),
            from,
            to,
        ),
{
    let rest = s.skip(i);
    assert(rest.skip(1) =~= s.skip(i + 1));
    assert(rest.take(1) =~= seq![s[i]]);
    if i + from.len() <= s.len() {
        assert(rest.subrange(0, from.len() as int) =~= s.subrange(i, i + from.len()));
        assert(rest.skip(from.len() as int) =~= s.skip(i + from.len()));
    } else {
        // Too short for an occurrence here, and so is everything behind.
        assert(replace_all(rest, from, to) == rest);
        assert(replace_all(s.skip(i + 1), from, to) == s.skip(i + 1));
        assert(rest =~= seq![s[i]] + s.skip(i + 1));
    }
}

/// Up to the first occurrence of `from`, replacement keeps the text as it
/// is: where no occurrence begins before `p`, the first `p` characters stay
/// and the rest is replaced on its own.
pub proof fn lemma_replace_prefix(s: Seq<char>, from: Seq<char>, to: Seq<char>, p: int)
    requires
        from.len() > 0,
        0 <= p <= s.len(),
        forall|j: int| 0 <= j < p ==> !occurs_at(s, from, j),
    ensures
        replace_all(s, from, to) == s.take(p) + replace_all(s.skip(p), from, to),
    decreases p,
{
    if p == 0 {
        assert(s.skip(0) =~= s);
        assert(s.take(0) + replace_all(s, from, to) =~= replace_all(s, from, to));
    } else {
        lemma_replace_prefix(s, from, to, p - 1);
        lemma_replace_step(s, from, to, p - 1);
        assert(s.take(p - 1) + (seq![s[p - 1]] + replace_all(s.skip(p), from, to)) =~= s.take(p)
            + replace_all(s.skip(p), from, to));
    }
}

/// A text in which `from` does not occur is not changed.
pub proof fn lemma_replace_absent(s: Seq<char>, from: Seq<char>, to: Seq<char>)
    requires
        !occurs_in(s, from),
    ensures
        replace_all(s, from, to) == s,
{
    if from.len() > 0 {
        lemma_replace_prefix(s, from, to, s.len() as int);
        assert(s.skip(s.len() as int) =~= Seq::<char>::empty());
        assert(s.take(s.len() as int) + Seq::<char>::empty() =~= s);
    }
}

/// No character of `a` is a character of `b`.
pub open spec fn no_common_char(a: Seq<char>, b: Seq<char>) -> bool {
    forall|i: int, j: int| 0 <= i < a.len() && 0 <= j < b.len() ==> a[i] != b[j]
}

/// Where the replaced text begins with `k` characters of which none is a
/// character of `to`, these are the first `k` characters of the text itself,
/// and no occurrence of `from` begins among them.
proof fn lemma_unchanged_front(s: Seq<char>, from: Seq<char>, to: Seq<char>, k: int)
    requires
        from.len() > 0,
        to.len() > 0,
        0 <= k <= replace_all(s, from, to).len(),
        forall|i: int, j: int|
            0 <= i < k && 0 <= j < to.len() ==> replace_all(s, from, to)[i] != to[j],
    ensures
        k <= s.len(),
        s.take(k) == replace_all(s, from, to).take(k),
        forall|j: int| 0 <= j < k ==> !occurs_at(s, from, j),
    decreases s.len(),
{
    let r = replace_all(s, from, to);
    if k == 0 {
        assert(s.take(0) =~= r.take(0));
    } else if s.len() < from.len() {
    } else if s.subrange(0, from.len() as int) == from {
        assert(r[0] == to[0]);
    } else {
        let s1 = s.skip(1);
        let r1 = replace_all(s1, from, to);
        assert(r == s.take(1) + r1);
        assert forall|i: int, j: int| 0 <= i < k - 1 && 0 <= j < to.len() implies r1[i] != to[j] by {
            assert(r1[i] == r[i + 1]);
        }
        lemma_unchanged_front(s1, from, to, k - 1);
        assert(s.take(k) =~= s.take(1) + s1.take(k - 1));
        assert(r.take(k) =~= s.take(1) + r1.take(k - 1));
        assert forall|j: int| 0 <= j < k implies !occurs_at(s, from, j) by {
            if j > 0 && occurs_at(s, from, j) {
                assert(s1.subrange(j - 1, j - 1 + from.len()) =~= s.subrange(j, j + from.len()));
                assert(occurs_at(s1, from, j - 1));
            }
        }
    }
}

/// Where `from` and `to` share no character, nothing is left to replace:
/// `from` does not occur in the replaced text.
pub proof fn lemma_replace_leaves_none(s: Seq<char>, from: Seq<char>, to: Seq<char>)
    requires
        from.len() > 0,
        to.len() > 0,
        no_common_char(from, to),
    ensures
        !occurs_in(replace_all(s, from, to), from),
    decreases s.len(),
{
    let r = replace_all(s, from, to);
    let m = from.len() as int;
    assert forall|q: int| !occurs_at(r, from, q) by {
        if occurs_at(r, from, q) {
            assert(r.subrange(q, q + m)[0] == from[0]);
            if s.len() < from.len() {
            } else if s.subrange(0, m) == from {
                let rest = replace_all(s.skip(m), from, to);
                lemma_replace_leaves_none(s.skip(m), from, to);
                if q < to.len() {
                    assert(r[q] == to[q]);
                } else {
                    assert(rest.subrange(q - to.len(), q - to.len() + m) =~= r.subrange(q, q + m));
                    assert(occurs_at(rest, from, q - to.len()));
                }
            } else {
                let rest = replace_all(s.skip(1), from, to);
                lemma_replace_leaves_none(s.skip(1), from, to);
                if q >= 1 {
                    assert(rest.subrange(q - 1, q - 1 + m) =~= r.subrange(q, q + m));
                    assert(occurs_at(rest, from, q - 1));
                } else {
                    assert forall|i: int, j: int| 0 <= i < m && 0 <= j < to.len() implies r[i]
                        != to[j] by {
                        assert(r.subrange(0, m)[i] == from[i]);
                    }
                    lemma_unchanged_front(s, from, to, m);
                    assert(s.take(m) =~= s.subrange(0, m));
                    assert(r.take(m) =~= r.subrange(0, m));
                }
            }
        }
    }
}

/// Where `from` and `to` share no character, replacing twice is replacing
/// once.
pub proof fn lemma_replace_idempotent(s: Seq<char>, from: Seq<char>, to: Seq<char>)
    requires
        from.len() > 0,
        to.len() > 0,
        no_common_char(from, to),
    ensures
        replace_all(replace_all(s, from, to), from, to) == replace_all(s, from, to),
{
    lemma_replace_leaves_none(s, from, to);
    lemma_replace_absent(replace_all(s, from, to), from, to);
}

/// How many occurrences of `pat` in `s` begin before position `p`.
pub open spec fn count_before(s: Seq<char>, pat: Seq<char>, p: int) -> nat
    decreases p,
{
    if p <= 0 {
        0
    } else {
        count_before(s, pat, p - 1) + if occurs_at(s, pat, p - 1) {
            1nat
        } else {
            0nat
        }
    }
}

/// An end of `pat` is also a beginning of it, so that two occurrences of
/// `pat` can overlap.
pub open spec fn overlaps_itself(pat: Seq<char>) -> bool {
    exists|k: int| 0 < k < pat.len() && #[trigger] pat.skip(k) == pat.take(pat.len() - k)
}

/// Occurrences are counted the same from any position on.
proof fn lemma_count_shift(s: Seq<char>, pat: Seq<char>, k: int, p: int)
    requires
        0 <= k <= p,
        k <= s.len(),
    ensures
        count_before(s, pat, p) == count_before(s, pat, k) + count_before(s.skip(k), pat, p - k),
    decreases p,
{
    if p > k {
        lemma_count_shift(s, pat, k, p - 1);
        if p - 1 + pat.len() <= s.len() {
            assert(s.skip(k).subrange(p - 1 - k, p - 1 - k + pat.len()) =~= s.subrange(
                p - 1,
                p - 1 + pat.len(),
            ));
        }
    }
}

/// Behind an occurrence of a pattern that does not overlap itself, the next
/// occurrence begins no earlier than the first one ends.
proof fn lemma_one_before_end(s: Seq<char>, pat: Seq<char>, j: int)
    requires
        !overlaps_itself(pat),
        occurs_at(s, pat, 0),
        1 <= j <= pat.len(),
    ensures
        count_before(s, pat, j) == 1,
    decreases j,
{
    if j == 1 {
        assert(count_before(s, pat, 0) == 0);
    } else {
        lemma_one_before_end(s, pat, j - 1);
        let k = j - 1;
        let m = pat.len() as int;
        if occurs_at(s, pat, k) {
            assert(s.subrange(0, m) == pat);
            assert(s.subrange(k, k + m) == pat);
            assert forall|i: int| 0 <= i < m - k implies pat.skip(k)[i] == pat.take(m - k)[i] by {
                assert(s.subrange(0, m)[k + i] == s[k + i]);
                assert(s.subrange(k, k + m)[i] == s[k + i]);
            }
            assert(pat.skip(k) =~= pat.take(m - k));
        }
    }
}

/// Every occurrence of a pattern that does not overlap itself is replaced:
/// where `from` stood at `p`, `to` stands in the replaced text, moved by the
/// difference in length once for each occurrence before `p`.
pub proof fn lemma_replace_every(s: Seq<char>, from: Seq<char>, to: Seq<char>, p: int)
    requires
        from.len() > 0,
        !overlaps_itself(from),
        occurs_at(s, from, p),
    ensures
        occurs_at(
            replace_all(s, from, to),
            to,
            p + count_before(s, from, p) * (to.len() - from.len()),
        ),
    decreases s.len(),
{
    let r = replace_all(s, from, to);
    let m = from.len() as int;
    let d = to.len() - from.len();
    if s.subrange(0, m) == from {
        let rest = s.skip(m);
        let rr = replace_all(rest, from, to);
        assert(r == to + rr);
        if p == 0 {
            assert(count_before(s, from, 0) == 0);
            assert(0 * d == 0) by (nonlinear_arith);
            assert(r.subrange(0, to.len() as int) =~= to);
        } else {
            assert(occurs_at(s, from, 0));
            if p < m {
                lemma_one_before_end(s, from, p);
                lemma_one_before_end(s, from, p + 1);
            }
            lemma_one_before_end(s, from, m);
            lemma_count_shift(s, from, m, p);
            assert(rest.subrange(p - m, p - m + m) =~= s.subrange(p, p + m));
            lemma_replace_every(rest, from, to, p - m);
            let c = count_before(rest, from, p - m) as int;
            let q = p - m + c * d;
            assert((1 + c) * d == d + c * d) by (nonlinear_arith);
            assert(r.subrange(to.len() + q, to.len() + q + to.len()) =~= rr.subrange(
                q,
                q + to.len(),
            ));
        }
    } else {
        let rest = s.skip(1);
        let rr = replace_all(rest, from, to);
        assert(r == s.take(1) + rr);
        assert(!occurs_at(s, from, 0));
        assert(count_before(s, from, 0) == 0);
        assert(count_before(s, from, 1) == 0);
        lemma_count_shift(s, from, 1, p);
        assert(rest.subrange(p - 1, p - 1 + m) =~= s.subrange(p, p + m));
        lemma_replace_every(rest, from, to, p - 1);
        let c = count_before(rest, from, p - 1) as int;
        let q = p - 1 + c * d;
        assert(r.subrange(1 + q, 1 + q + to.len()) =~= rr.subrange(q, q + to.len()));
    }
}

/// A run of parts stands in the spacing of a longer run, behind the spacing
/// of the parts before it.
pub proof fn lemma_spaced_holds(a: Seq<Seq<char>>, mid: Seq<Seq<char>>, b: Seq<Seq<char>>)
    ensures
        occurs_at(spaced(a + mid + b), spaced(mid), spaced(a).len() as int),
{
    lemma_spaced_add(a + mid, b);
    lemma_spaced_add(a, mid);
    let whole = spaced(a + mid + b);
    let at = spaced(a).len() as int;
    assert(whole == spaced(a) + spaced(mid) + spaced(b));
    assert(whole.subrange(at, at + spaced(mid).len()) =~= spaced(mid));
}

/// Each text stands in the concatenation of all.
pub proof fn lemma_concat_holds(texts: Seq<Seq<char>>, i: int)
    requires
        0 <= i < texts.len(),
    ensures
        occurs_in(concat(texts), texts[i]),
    decreases texts.len(),
{
    let front = concat(texts.drop_last());
    if i == texts.len() - 1 {
        assert(concat(texts).subrange(
            front.len() as int,
            (front.len() + texts[i].len()) as int,
        ) =~= texts[i]);
        assert(occurs_at(concat(texts), texts[i], front.len() as int));
    } else {
        lemma_concat_holds(texts.drop_last(), i);
        let at = choose|at: int| occurs_at(front, texts[i], at);
        assert(concat(texts).subrange(at, at + texts[i].len()) =~= front.subrange(
            at,
            at + texts[i].len(),
        ));
        assert(occurs_at(concat(texts), texts[i], at));
    }
}

/// What stands in a part of a text stands in the text.
pub proof fn lemma_occurs_within(front: Seq<char>, mid: Seq<char>, back: Seq<char>, pat: Seq<char>)
    requires
        occurs_in(mid, pat),
    ensures
        occurs_in(front + mid + back, pat),
{
    let at = choose|at: int| occurs_at(mid, pat, at);
    let whole = front + mid + back;
    assert(whole.subrange(front.len() + at, front.len() + at + pat.len()) =~= mid.subrange(
        at,
        at + pat.len(),
    ));
    assert(occurs_at(whole, pat, front.len() + at));
}

/// Whether `pat` stands in `s` at position `i`.
pub fn matches_at(s: &Vec<char>, pat: &Vec<char>, i: usize) -> (r: bool)
    ensures
        r == occurs_at(s@, pat@, i as int),
{
    if pat.len() > s.len() || i > s.len() - pat.len() {
        return false;
    }
    let mut k: usize = 0;
    while k < pat.len()
        invariant
            k <= pat.len(),
            i + pat.len() <= s.len(),
            forall|j: int| 0 <= j < k ==> s@[i + j] == pat@[j],
        decreases pat.len() - k,
    {
        if s[i + k] != pat[k] {
            proof {
                assert(s@.subrange(i as int, i + pat.len())[k as int] == s@[i + k]);
            }
            return false;
        }
        k += 1;
    }
    proof {
        assert(s@.subrange(i as int, i + pat.len()) =~= pat@);
    }
    true
}

/// The characters of `s`, one element each.
pub fn chars_of(s: &str) -> (v: Vec<char>)
    ensures
        v@ == s@,
{
    let mut v: Vec<char> = Vec::new();
    for c in it: s.chars()
        invariant
            it.seq() == s@,
            v@ == it.seq().take(it.index()),
    {
        v.push(c);
    }
    v
}

/// Whether `a` and `b` hold the same characters.
pub fn same_text(a: &str, b: &str) -> (r: bool)
    ensures
        r == (a@ == b@),
{
    let av = chars_of(a);
    let bv = chars_of(b);
    if av.len() != bv.len() {
        return false;
    }
    let r = matches_at(&av, &bv, 0);
    proof {
        assert(av@.subrange(0, bv@.len() as int) =~= av@);
    }
    r
}

/// Whether `pat` stands somewhere in `s`.
pub fn contains(s: &str, pat: &str) -> (r: bool)
    ensures
        r == occurs_in(s@, pat@),
{
    let sv = chars_of(s);
    let pv = chars_of(pat);
    if pv.len() > sv.len() {
        return false;
    }
    let last: usize = sv.len() - pv.len();
    let mut i: usize = 0;
    loop
        invariant
            sv@ == s@,
            pv@ == pat@,
            last == sv.len() - pv.len(),
            i <= last,
            forall|j: int| 0 <= j < i ==> !occurs_at(s@, pat@, j),
        decreases last - i,
    {
        if matches_at(&sv, &pv, i) {
            return true;
        }
        if i == last {
            return false;
        }
        i += 1;
    }
}

/// `s` with every occurrence of `from` replaced by `to`, as `str::replace`
/// does it for a pattern that is not empty. An empty pattern replaces
/// nothing.
pub fn replace(s: &str, from: &str, to: &str) -> (r: String)
    ensures
        r@ == replace_all(s@, from@, to@),
{
    let sv = chars_of(s);
    let fv = chars_of(from);
    if fv.len() == 0 {
        return String::from_str(s);
    }
    let mut out = String::new();
    let mut kept: usize = 0;
    let mut i: usize = 0;
    proof {
        assert(s@.skip(0) =~= s@);
        assert(out@ + s@.subrange(0, 0) =~= Seq::<char>::empty());
    }
    while i < sv.len()
        invariant
            sv@ == s@,
            fv@ == from@,
            fv.len() > 0,
            kept <= i <= sv.len(),
            replace_all(s@, from@, to@) == out@ + s@.subrange(kept as int, i as int) + replace_all(
                s@.skip(i as int),
                from@,
                to@,
            ),
        decreases sv.len() - i,
    {
        proof {
            lemma_replace_step(s@, from@, to@, i as int);
        }
        if matches_at(&sv, &fv, i) {
            let ghost before = out@;
            let ghost pending = s@.subrange(kept as int, i as int);
            let ghost rest = replace_all(s@.skip(i + fv.len()), from@, to@);
            out.append(s.substring_char(kept, i));
            out.append(to);
            i += fv.len();
            kept = i;
            proof {
                assert(s@.subrange(kept as int, i as int) =~= Seq::<char>::empty());
                assert(out@ + s@.subrange(kept as int, i as int) + rest =~= before + pending + (to@
                    + rest));
            }
        } else {
            proof {
                assert(s@.subrange(kept as int, i + 1) =~= s@.subrange(kept as int, i as int)
                    + seq![s@[i as int]]);
            }
            i += 1;
        }
    }
    proof {
        assert(s@.skip(i as int) =~= Seq::<char>::empty());
    }
    out.append(s.substring_char(kept, i));
    out
}

/// Token text under construction: the parts written so far, each followed by
/// one blank.
pub struct TokenWriter {
    text: String,
    parts: Ghost<Seq<Seq<char>>>,
}

impl TokenWriter {
    /// The text is the spacing of the parts.
    pub closed spec fn wf(&self) -> bool {
        self.text@ == spaced(self.parts@)
    }

    /// The parts written so far.
    pub closed spec fn parts(&self) -> Seq<Seq<char>> {
        self.parts@
    }

    /// A writer that holds nothing.
    pub fn new() -> (w: TokenWriter)
        ensures
            w.wf(),
            w.parts() == Seq::<Seq<char>>::empty(),
    {
        TokenWriter { text: String::new(), parts: Ghost(Seq::empty()) }
    }

    /// Writes one more part.
    pub fn put(&mut self, part: &str)
        requires
            old(self).wf(),
        ensures
            final(self).wf(),
            final(self).parts() == old(self).parts().push(part@),
    {
        proof {
            reveal_strlit(" ");
            lemma_spaced_push(self.parts@, part@);
            assert(" "@ =~= seq![' ']);
        }
        self.text.append(part);
        self.text.append(" ");
        self.parts = Ghost(self.parts@.push(part@));
    }

    /// The text written.
    pub fn finish(self) -> (text: String)
        requires
            self.wf(),
        ensures
            text@ == spaced(self.parts()),
    {
        self.text
    }
}

} // verus!
