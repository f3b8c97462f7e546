//! The path sanitizer: decodes a raw request path and normalizes it, purely
//! lexically, into a root-relative, traversal-free sequence of segments.
//!
//! Decoding happens before normalization, so that percent-encoded traversal
//! sequences are caught like literal ones.

use crate::text::chars_to_string;
use crate::text::str_chars;
use vstd::prelude::*;

verus! {

/// What percent-decoding with lossy UTF-8 substitution makes of a raw path.
pub uninterp spec fn decoded_of(s: Seq<char>) -> Seq<char>;

/// Relies on percent_encoding::percent_decode_str: every `%` followed by two
/// hexadecimal digits becomes the encoded byte, all other bytes pass through
/// unchanged, and invalid UTF-8 in the result is replaced lossily. The result
/// depends on the input characters alone; an input without `%` is returned
/// unchanged (nothing is decoded, and the input was already valid UTF-8).
#[verifier::external_body]
fn percent_decode_lossy(s: &str) -> (r: String)
    ensures
        r@ == decoded_of(s@),
        (forall|i: int| 0 <= i < s@.len() ==> s@[i] != '%') ==> r@ == s@,
{
    percent_encoding::percent_decode_str(s).decode_utf8_lossy().into_owned()
}

/// A single-character `.` segment.
pub open spec fn is_dot(seg: Seq<char>) -> bool {
    seg.len() == 1 && seg[0] == '.'
}

/// A parent-directory `..` segment.
pub open spec fn is_dot_dot(seg: Seq<char>) -> bool {
    seg.len() == 2 && seg[0] == '.' && seg[1] == '.'
}

/// A segment that may stand in a sanitized path: a real name, not a
/// no-op or parent marker, and free of separators.
pub open spec fn seg_ok(seg: Seq<char>) -> bool {
    &&& seg.len() > 0
    &&& !is_dot(seg)
    &&& !is_dot_dot(seg)
    &&& !seg.contains('/')
}

/// Every segment of the sequence may stand in a sanitized path.
pub open spec fn wf_segments(segs: Seq<Seq<char>>) -> bool {
    forall|i: int| 0 <= i < segs.len() ==> seg_ok(#[trigger] segs[i])
}

/// The raw segments of `s`, split at every `/` (empty segments included),
/// as `str::split('/')` would produce them.
pub open spec fn split_slash(s: Seq<char>) -> Seq<Seq<char>>
    decreases s.len(),
{
    if s.len() == 0 {
        seq![Seq::<char>::empty()]
    } else if s.last() == '/' {
        split_slash(s.drop_last()).push(Seq::<char>::empty())
    } else {
        let r = split_slash(s.drop_last());
        r.update(r.len() - 1, r.last().push(s.last()))
    }
}

/// One step of lexical resolution: empty and `.` segments vanish, `..` pops
/// the last kept segment and is a root escape when nothing is left to pop,
/// and any other segment is kept.
pub open spec fn step_resolve(st: Option<Seq<Seq<char>>>, seg: Seq<char>) -> Option<Seq<Seq<char>>> {
    match st {
        None => None,
        Some(stack) => {
            if seg.len() == 0 || is_dot(seg) {
                Some(stack)
            } else if is_dot_dot(seg) {
                if stack.len() == 0 {
                    None
                } else {
                    Some(stack.drop_last())
                }
            } else {
                Some(stack.push(seg))
            }
        },
    }
}

/// Lexical resolution of the first `n` raw segments; `None` means the path
/// tried to escape the root.
pub open spec fn resolve_upto(segs: Seq<Seq<char>>, n: int) -> Option<Seq<Seq<char>>>
    decreases n,
{
    if n <= 0 {
        Some(Seq::<Seq<char>>::empty())
    } else {
        step_resolve(resolve_upto(segs, n - 1), segs[n - 1])
    }
}

/// Lexical resolution of a whole raw segment sequence.
pub open spec fn resolve_segments(segs: Seq<Seq<char>>) -> Option<Seq<Seq<char>>> {
    resolve_upto(segs, segs.len() as int)
}

/// The whole sanitizer on an already-decoded path: split, then resolve.
pub open spec fn spec_sanitize(s: Seq<char>) -> Option<Seq<Seq<char>>> {
    resolve_segments(split_slash(s))
}

/// A decoded, normalized, root-relative path: its segments contain no `.`,
/// no `..` and no separator, so joining it under a root can never ascend
/// above that root.
pub struct SanitizedPath {
    segments: Vec<String>,
}

impl View for SanitizedPath {
    type V = Seq<Seq<char>>;

    closed spec fn view(&self) -> Seq<Seq<char>> {
        self.segments.deep_view()
    }
}

/// Why a raw path was rejected: its `..` segments would escape the root.
#[derive(Debug)]
pub enum SanitizeError {
    Traversal,
}

/// Splits a decoded path into its raw segments.
fn split_segments(chars: &Vec<char>) -> (segs: Vec<String>)
    ensures
        segs.deep_view() == split_slash(chars@),
{
    let mut segs: Vec<String> = Vec::new();
    let mut cur: Vec<char> = Vec::new();
    let mut i: usize = 0;
    while i < chars.len()
        invariant
            i <= chars.len(),
            split_slash(chars@.take(i as int)) == segs.deep_view().push(cur@),
        decreases chars.len() - i,
    {
        proof {
            assert(chars@.take((i + 1) as int).drop_last() =~= chars@.take(i as int));
            assert(chars@.take((i + 1) as int).last() == chars@[i as int]);
        }
        let c = chars[i];
        if c == '/' {
            let ghost prev = segs.deep_view();
            let ghost curv = cur@;
            let done = chars_to_string(&cur);
            segs.push(done);
            cur = Vec::new();
            proof {
                assert(segs.deep_view() =~= prev.push(curv));
            }
        } else {
            cur.push(c);
            proof {
                let sp = split_slash(chars@.take(i as int));
                assert(sp.update(sp.len() - 1, sp.last().push(c)) =~= segs.deep_view().push(cur@));
            }
        }
        i += 1;
    }
    proof {
        assert(chars@.take(chars@.len() as int) =~= chars@);
    }
    let done = chars_to_string(&cur);
    segs.push(done);
    proof {
        assert(segs.deep_view() =~= split_slash(chars@));
    }
    segs
}

/// Once resolution has aborted, reading more segments cannot revive it.
proof fn lemma_resolve_none_persists(segs: Seq<Seq<char>>, n: int, m: int)
    requires
        resolve_upto(segs, n) is None,
        n <= m,
    ensures
        resolve_upto(segs, m) is None,
    decreases m - n,
{
    if n < m {
        lemma_resolve_none_persists(segs, n, m - 1);
    }
}

/// Resolves the raw segments, rejecting a root escape.
fn resolve_exec(segs: &Vec<String>) -> (r: Option<Vec<String>>)
    ensures
        match r {
            Some(stack) => resolve_segments(segs.deep_view()) == Some(stack.deep_view()),
            None => resolve_segments(segs.deep_view()) is None,
        },
{
    let mut stack: Vec<String> = Vec::new();
    let mut i: usize = 0;
    while i < segs.len()
        invariant
            i <= segs.len(),
            resolve_upto(segs.deep_view(), i as int) == Some(stack.deep_view()),
        decreases segs.len() - i,
    {
        let c = str_chars(segs[i].as_str());
        if c.len() == 0 || (c.len() == 1 && c[0] == '.') {
            // nothing to keep
        } else if c.len() == 2 && c[0] == '.' && c[1] == '.' {
            if stack.len() == 0 {
                proof {
                    lemma_resolve_none_persists(
                        segs.deep_view(),
                        (i + 1) as int,
                        segs.deep_view().len() as int,
                    );
                }
                return None;
            }
            let ghost prev = stack.deep_view();
            stack.pop();
            proof {
                assert(stack.deep_view() =~= prev.drop_last());
            }
        } else {
            let ghost prev = stack.deep_view();
            let kept = segs[i].clone();
            stack.push(kept);
            proof {
                assert(stack.deep_view() =~= prev.push(segs.deep_view()[i as int]));
            }
        }
        i += 1;
    }
    Some(stack)
}

/// Splitting always yields at least one raw segment.
proof fn lemma_split_len(s: Seq<char>)
    ensures
        split_slash(s).len() >= 1,
    decreases s.len(),
{
    if s.len() > 0 {
        lemma_split_len(s.drop_last());
    }
}

/// Kept segments of the raw input never contain a separator.
proof fn lemma_split_no_slash(s: Seq<char>)
    ensures
        forall|i: int|
            0 <= i < split_slash(s).len() ==> !(#[trigger] split_slash(s)[i]).contains('/'),
    decreases s.len(),
{
    assert(!Seq::<char>::empty().contains('/'));
    if s.len() == 0 {
        assert forall|i: int|
            0 <= i < split_slash(s).len() implies !(#[trigger] split_slash(s)[i]).contains(
            '/',
        ) by {
            assert(split_slash(s)[i] == Seq::<char>::empty());
        }
    } else {
        lemma_split_no_slash(s.drop_last());
        lemma_split_len(s.drop_last());
        if s.last() != '/' {
            let r = split_slash(s.drop_last());
            assert forall|i: int|
                0 <= i < split_slash(s).len() implies !(#[trigger] split_slash(s)[i]).contains(
                '/',
            ) by {
                if i == r.len() - 1 {
                    let ext = r.last().push(s.last());
                    assert(!r.last().contains('/'));
                    assert forall|j: int| 0 <= j < ext.len() implies ext[j] != '/' by {
                        if j < ext.len() - 1 {
                            assert(ext[j] == r.last()[j]);
                        }
                    }
                    assert(split_slash(s)[i] == ext);
                    assert(!ext.contains('/'));
                } else {
                    assert(split_slash(s)[i] == r[i]);
                }
            }
        }
    }
}

/// Resolution keeps only segments fit for a sanitized path, provided the raw
/// segments are separator-free.
proof fn lemma_resolve_wf(segs: Seq<Seq<char>>, n: int)
    requires
        forall|i: int| 0 <= i < segs.len() ==> !(#[trigger] segs[i]).contains('/'),
        0 <= n <= segs.len(),
    ensures
        resolve_upto(segs, n) matches Some(st) ==> wf_segments(st),
    decreases n,
{
    if n > 0 {
        lemma_resolve_wf(segs, n - 1);
        if let Some(prev) = resolve_upto(segs, n - 1) {
            let seg = segs[n - 1];
            if !(seg.len() == 0 || is_dot(seg)) && !is_dot_dot(seg) {
                assert forall|i: int|
                    0 <= i < prev.push(seg).len() implies seg_ok(
                    #[trigger] prev.push(seg)[i],
                ) by {
                    if i < prev.len() {
                        assert(wf_segments(prev));
                    }
                }
            } else if is_dot_dot(seg) && prev.len() > 0 {
                assert(wf_segments(prev));
                assert forall|i: int|
                    0 <= i < prev.drop_last().len() implies seg_ok(
                    #[trigger] prev.drop_last()[i],
                ) by {
                    assert(prev.drop_last()[i] == prev[i]);
                }
            }
        }
    }
}

/// A sanitized path is well formed: every kept segment is a real,
/// separator-free name.
pub proof fn lemma_sanitize_wf(s: Seq<char>)
    ensures
        spec_sanitize(s) matches Some(sp) ==> wf_segments(sp),
{
    lemma_split_no_slash(s);
    lemma_resolve_wf(split_slash(s), split_slash(s).len() as int);
}

/// Decodes and normalizes a raw request path; rejects, before any further
/// work, a path whose `..` segments (encoded or literal) would escape the
/// root.
pub fn sanitize(raw: &str) -> (r: Result<SanitizedPath, SanitizeError>)
    ensures
        match r {
            Ok(sp) => spec_sanitize(decoded_of(raw@)) == Some(sp@) && wf_segments(sp@),
            Err(_) => spec_sanitize(decoded_of(raw@)) is None,
        },
        (forall|i: int| 0 <= i < raw@.len() ==> raw@[i] != '%') ==> match r {
            Ok(sp) => spec_sanitize(raw@) == Some(sp@),
            Err(_) => spec_sanitize(raw@) is None,
        },
{
    let decoded = percent_decode_lossy(raw);
    proof {
        lemma_sanitize_wf(decoded@);
    }
    let chars = str_chars(decoded.as_str());
    let segs = split_segments(&chars);
    match resolve_exec(&segs) {
        Some(stack) => Ok(SanitizedPath { segments: stack }),
        None => Err(SanitizeError::Traversal),
    }
}

/// The segments joined with `/`: the root-relative rendering of a sanitized
/// path (empty for the root itself).
pub open spec fn join_segs(segs: Seq<Seq<char>>) -> Seq<char>
    decreases segs.len(),
{
    if segs.len() == 0 {
        Seq::<char>::empty()
    } else if segs.len() == 1 {
        segs[0]
    } else {
        join_segs(segs.drop_last()) + seq!['/'] + segs.last()
    }
}

/// The filesystem location of a sanitized path under `root`.
pub open spec fn spec_resolve_under(root: Seq<char>, segs: Seq<Seq<char>>) -> Seq<char> {
    if segs.len() == 0 {
        root
    } else {
        root + seq!['/'] + join_segs(segs)
    }
}

/// `p` names `root` itself, or a location strictly below it: `root`, a
/// separator, and traversal-free segments.
pub open spec fn descends_from(p: Seq<char>, root: Seq<char>) -> bool {
    ||| p == root
    ||| {
        &&& p.len() > root.len() + 1
        &&& p.take(root.len() as int) == root
        &&& p[root.len() as int] == '/'
        &&& wf_segments(split_slash(p.skip(root.len() + 1 as int)))
    }
}

/// Appending separator-free characters extends the last raw segment.
proof fn lemma_split_append_no_slash(x: Seq<char>, y: Seq<char>)
    requires
        !y.contains('/'),
    ensures
        split_slash(x + y) =~= split_slash(x).update(
            split_slash(x).len() - 1,
            split_slash(x).last() + y,
        ),
    decreases y.len(),
{
    lemma_split_len(x);
    if y.len() == 0 {
        assert(x + y =~= x);
        assert(split_slash(x).last() + y =~= split_slash(x).last());
    } else {
        assert(!y.drop_last().contains('/')) by {
            assert(forall|i: int|
                0 <= i < y.drop_last().len() ==> y.drop_last()[i] == #[trigger] y[i]);
        }
        lemma_split_append_no_slash(x, y.drop_last());
        lemma_split_len(x + y.drop_last());
        assert((x + y).drop_last() =~= x + y.drop_last());
        assert((x + y).last() == y.last());
        assert(y.last() != '/') by {
            assert(y[y.len() - 1] == y.last());
        }
        let r = split_slash(x + y.drop_last());
        assert(r.last() == split_slash(x).last() + y.drop_last());
        assert((split_slash(x).last() + y.drop_last()).push(y.last()) =~= split_slash(x).last()
            + y);
    }
}

/// Splitting undoes joining, for well-formed segments.
proof fn lemma_split_join(segs: Seq<Seq<char>>)
    requires
        wf_segments(segs),
        segs.len() > 0,
    ensures
        split_slash(join_segs(segs)) =~= segs,
    decreases segs.len(),
{
    if segs.len() == 1 {
        assert(seg_ok(segs[0]));
        lemma_split_append_no_slash(Seq::<char>::empty(), segs[0]);
        assert(split_slash(Seq::<char>::empty() + segs[0]) =~= seq![segs[0]]);
        assert(Seq::<char>::empty() + segs[0] =~= segs[0]);
        assert(join_segs(segs) == segs[0]);
    } else {
        assert(wf_segments(segs.drop_last())) by {
            assert(forall|i: int|
                0 <= i < segs.drop_last().len() ==> segs.drop_last()[i] == #[trigger] segs[i]);
        }
        lemma_split_join(segs.drop_last());
        let j = join_segs(segs.drop_last());
        assert((j + seq!['/']).drop_last() =~= j);
        assert(split_slash(j + seq!['/']) =~= split_slash(j).push(Seq::<char>::empty()));
        assert(seg_ok(segs.last()));
        lemma_split_append_no_slash(j + seq!['/'], segs.last());
        assert(join_segs(segs) =~= (j + seq!['/']) + segs.last());
        assert(split_slash(j).push(Seq::<char>::empty()).update(
            segs.drop_last().len() as int,
            Seq::<char>::empty() + segs.last(),
        ) =~= segs);
    }
}

/// Resolving well-formed segments keeps every one of them.
proof fn lemma_resolve_wf_identity(segs: Seq<Seq<char>>, n: int)
    requires
        wf_segments(segs),
        0 <= n <= segs.len(),
    ensures
        resolve_upto(segs, n) == Some(segs.take(n)),
    decreases n,
{
    if n == 0 {
        assert(segs.take(0) =~= Seq::<Seq<char>>::empty());
    } else {
        lemma_resolve_wf_identity(segs, n - 1);
        assert(seg_ok(segs[n - 1]));
        assert(segs.take(n - 1).push(segs[n - 1]) =~= segs.take(n));
    }
}

/// Law: normalization is idempotent. A path that came out of the sanitizer,
/// rendered back to text, normalizes to exactly the same path. (Decoding is
/// a separate step: a rendered path that itself contains a `%` escape would
/// be decoded once more before normalization.)
pub proof fn lemma_sanitize_idempotent(s: Seq<char>)
    ensures
        spec_sanitize(s) matches Some(sp) ==> spec_sanitize(join_segs(sp)) == Some(sp),
{
    if let Some(sp) = spec_sanitize(s) {
        lemma_sanitize_wf(s);
        if sp.len() == 0 {
            assert(join_segs(sp) =~= Seq::<char>::empty());
            assert(split_slash(Seq::<char>::empty()) =~= seq![Seq::<char>::empty()]);
            let raw = seq![Seq::<char>::empty()];
            assert(resolve_upto(raw, 1) == step_resolve(resolve_upto(raw, 0), raw[0]));
            assert(resolve_segments(raw) == Some(Seq::<Seq<char>>::empty()));
            assert(sp =~= Seq::<Seq<char>>::empty());
        } else {
            lemma_split_join(sp);
            lemma_resolve_wf_identity(sp, sp.len() as int);
            assert(sp.take(sp.len() as int) =~= sp);
        }
    }
}

/// Law: a sanitized path joined under a root names a descendant of that
/// root (or the root itself).
pub proof fn lemma_resolved_path_descends(root: Seq<char>, segs: Seq<Seq<char>>)
    requires
        wf_segments(segs),
    ensures
        descends_from(spec_resolve_under(root, segs), root),
{
    if segs.len() > 0 {
        let p = spec_resolve_under(root, segs);
        lemma_split_join(segs);
        assert(join_segs(segs).len() >= 1) by {
            if segs.len() == 1 {
                assert(seg_ok(segs[0]));
            }
        }
        assert(p.take(root.len() as int) =~= root);
        assert(p[root.len() as int] == '/');
        assert(p.skip(root.len() + 1 as int) =~= join_segs(segs));
    }
}

/// The net depth a segment contributes: `.` and empty segments nothing,
/// `..` one level up, anything else one level down.
pub open spec fn seg_delta(seg: Seq<char>) -> int {
    if seg.len() == 0 || is_dot(seg) {
        0
    } else if is_dot_dot(seg) {
        -1
    } else {
        1
    }
}

/// The depth reached after the first `n` raw segments.
pub open spec fn depth_after(segs: Seq<Seq<char>>, n: int) -> int
    decreases n,
{
    if n <= 0 {
        0
    } else {
        depth_after(segs, n - 1) + seg_delta(segs[n - 1])
    }
}

proof fn lemma_resolve_depth(segs: Seq<Seq<char>>, n: int)
    requires
        0 <= n <= segs.len(),
    ensures
        resolve_upto(segs, n) matches Some(st) ==> st.len() == depth_after(segs, n) && (forall|
            m: int,
        |
            0 <= m <= n ==> depth_after(segs, m) >= 0),
        resolve_upto(segs, n) is None ==> exists|m: int|
            0 <= m <= n && depth_after(segs, m) < 0,
    decreases n,
{
    if n > 0 {
        lemma_resolve_depth(segs, n - 1);
        match resolve_upto(segs, n - 1) {
            None => {
                let m = choose|m: int| 0 <= m <= n - 1 && depth_after(segs, m) < 0;
                assert(0 <= m <= n && depth_after(segs, m) < 0);
            },
            Some(st) => {
                let seg = segs[n - 1];
                if is_dot_dot(seg) && st.len() == 0 {
                    assert(depth_after(segs, n) < 0);
                }
            },
        }
    }
}

/// Law: the sanitizer rejects a path exactly when its `..` segments would,
/// at some point while reading it left to right, climb above the root.
pub proof fn lemma_escape_iff_rejected(s: Seq<char>)
    ensures
        spec_sanitize(s) is None <==> exists|n: int|
            0 <= n <= split_slash(s).len() && depth_after(split_slash(s), n) < 0,
{
    let segs = split_slash(s);
    lemma_resolve_depth(segs, segs.len() as int);
    if resolve_segments(segs) is Some {
        assert forall|n: int| 0 <= n <= segs.len() implies !(depth_after(segs, n) < 0) by {}
    }
}

impl SanitizedPath {
    /// Every segment is a real, separator-free name: what `sanitize`
    /// guarantees of each path it returns.
    pub open spec fn wf(&self) -> bool {
        wf_segments(self@)
    }

    /// True on the path that names the serving root itself.
    pub fn is_root(&self) -> (r: bool)
        ensures
            r == (self@.len() == 0),
    {
        self.segments.len() == 0
    }

    /// The root-relative rendering: the segments joined with `/`.
    pub fn render(&self) -> (r: String)
        ensures
            r@ == join_segs(self@),
    {
        let mut out: Vec<char> = Vec::new();
        let mut i: usize = 0;
        while i < self.segments.len()
            invariant
                i <= self.segments.len(),
                out@ == join_segs(self@.take(i as int)),
            decreases self.segments.len() - i,
        {
            if i > 0 {
                out.push('/');
            }
            crate::text::push_str_chars(&mut out, self.segments[i].as_str());
            proof {
                let t = self@.take((i + 1) as int);
                assert(t.drop_last() =~= self@.take(i as int));
                assert(t.last() == self@[i as int]);
                if i == 0 {
                    assert(out@ =~= join_segs(t));
                } else {
                    assert(out@ =~= join_segs(self@.take(i as int)) + seq!['/'] + self@[i as int]);
                }
            }
            i += 1;
        }
        proof {
            assert(self@.take(self@.len() as int) =~= self@);
        }
        chars_to_string(&out)
    }

    /// The filesystem location of this path under `root`; always a
    /// descendant of `root` (or `root` itself).
    pub fn resolve_under(&self, root: &str) -> (r: String)
        ensures
            r@ == spec_resolve_under(root@, self@),
            self.wf() ==> descends_from(r@, root@),
    {
        proof {
            if self.wf() {
                lemma_resolved_path_descends(root@, self@);
            }
        }
        if self.segments.len() == 0 {
            let mut out: Vec<char> = Vec::new();
            crate::text::push_str_chars(&mut out, root);
            proof {
                assert(out@ =~= root@);
            }
            chars_to_string(&out)
        } else {
            let rel = self.render();
            let mut out: Vec<char> = Vec::new();
            crate::text::push_str_chars(&mut out, root);
            out.push('/');
            crate::text::push_str_chars(&mut out, rel.as_str());
            proof {
                assert(out@ =~= spec_resolve_under(root@, self@));
            }
            chars_to_string(&out)
        }
    }
}

} // verus!
