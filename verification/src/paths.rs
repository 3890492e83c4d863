//! Path resolution: turning a root and a user-supplied relative path into a
//! safe absolute path, rejecting every escape.
//!
//! Resolution here is purely lexical — no filesystem is consulted, so a
//! rejected path causes no I/O at all. A path is modelled as its sequence of
//! components (the non-empty runs between `/` separators); resolution
//! normalises `.` and `..` against the root and fails with `PathTraversal`
//! the moment the path would climb above it. The layer that touches the disk
//! canonicalises the root beforehand and re-checks the final path with
//! `is_within` after resolving symlinks, so symlink escapes are caught by the
//! same prefix rule.

use vstd::prelude::*;
use crate::errors::FmError;
use crate::text::{chars_eq, chars_to_string, copy_vec, push_all, str_chars};

verus! {

/// The sequence views of a list of character vectors.
pub open spec fn views_of(cs: Seq<Vec<char>>) -> Seq<Seq<char>> {
    cs.map_values(|c: Vec<char>| c@)
}

/// A pending run of characters, as the components it contributes: none when
/// empty, itself otherwise.
pub open spec fn seg_close(cur: Seq<char>) -> Seq<Seq<char>> {
    if cur.len() == 0 {
        Seq::empty()
    } else {
        seq![cur]
    }
}

/// Splitting a path into components, processing characters left to right
/// with `cur` the run accumulated since the last separator.
pub open spec fn split_acc(s: Seq<char>, cur: Seq<char>) -> Seq<Seq<char>>
    decreases s.len(),
{
    if s.len() == 0 {
        seg_close(cur)
    } else if s[0] == '/' {
        seg_close(cur) + split_acc(s.drop_first(), Seq::empty())
    } else {
        split_acc(s.drop_first(), cur.push(s[0]))
    }
}

/// The components of a path: its non-empty runs between `/` separators.
pub open spec fn split_path(s: Seq<char>) -> Seq<Seq<char>> {
    split_acc(s, Seq::empty())
}

/// A well-formed component: non-empty and free of separators.
pub open spec fn wf_comp(c: Seq<char>) -> bool {
    c.len() > 0 && forall|i: int| 0 <= i < c.len() ==> c[i] != '/'
}

/// Every component is well-formed.
pub open spec fn wf_comps(cs: Seq<Seq<char>>) -> bool {
    forall|i: int| 0 <= i < cs.len() ==> wf_comp(#[trigger] cs[i])
}

/// The component `.`: the current directory.
pub open spec fn is_dot(c: Seq<char>) -> bool {
    c.len() == 1 && c[0] == '.'
}

/// The component `..`: the parent directory.
pub open spec fn is_dotdot(c: Seq<char>) -> bool {
    c.len() == 2 && c[0] == '.' && c[1] == '.'
}

/// Normalising the components `q` on top of the already-normalised `acc`:
/// `.` vanishes, `..` pops, and popping past the start — escaping the root —
/// yields nothing.
pub open spec fn norm_rel(acc: Seq<Seq<char>>, q: Seq<Seq<char>>) -> Option<Seq<Seq<char>>>
    decreases q.len(),
{
    if q.len() == 0 {
        Some(acc)
    } else if is_dot(q[0]) {
        norm_rel(acc, q.drop_first())
    } else if is_dotdot(q[0]) {
        if acc.len() == 0 {
            None
        } else {
            norm_rel(acc.drop_last(), q.drop_first())
        }
    } else {
        norm_rel(acc.push(q[0]), q.drop_first())
    }
}

/// The normalised components of a requested path, relative to the root;
/// nothing when the path escapes.
pub open spec fn resolved_rel(req: Seq<char>) -> Option<Seq<Seq<char>>> {
    norm_rel(Seq::empty(), split_path(req))
}

/// An acceptable root: absolute and already canonical in the lexical sense —
/// no `.` or `..` among its components.
pub open spec fn root_ok(root: Seq<char>) -> bool {
    &&& root.len() > 0
    &&& root[0] == '/'
    &&& forall|i: int|
        0 <= i < split_path(root).len() ==> !is_dot(#[trigger] split_path(root)[i]) && !is_dotdot(
            split_path(root)[i],
        )
}

/// The text of an absolute path with the given components: `/` before each.
pub open spec fn render_comps(cs: Seq<Seq<char>>) -> Seq<char>
    decreases cs.len(),
{
    if cs.len() == 0 {
        Seq::empty()
    } else {
        seq!['/'] + cs[0] + render_comps(cs.drop_first())
    }
}

/// The text of an absolute path: `/` alone when there are no components.
pub open spec fn render_abs(cs: Seq<Seq<char>>) -> Seq<char> {
    if cs.len() == 0 {
        seq!['/']
    } else {
        render_comps(cs)
    }
}

/// `pre` is a component-wise prefix of `all`.
pub open spec fn comps_prefix(pre: Seq<Seq<char>>, all: Seq<Seq<char>>) -> bool {
    pre.len() <= all.len() && all.take(pre.len() as int) == pre
}

/// Splits a path into its components.
pub fn split_components(s: &str) -> (r: Vec<Vec<char>>)
    ensures
        views_of(r@) == split_path(s@),
{
    let chars = str_chars(s);
    let n = chars.len();
    let mut comps: Vec<Vec<char>> = Vec::new();
    let mut cur: Vec<char> = Vec::new();
    let mut i: usize = 0;
    proof {
        assert(s@.skip(0) =~= s@);
    }
    while i < n
        invariant
            chars@ == s@,
            n == s@.len(),
            i <= n,
            split_path(s@) == views_of(comps@) + split_acc(s@.skip(i as int), cur@),
        decreases n - i,
    {
        let c = chars[i];
        proof {
            assert(s@.skip(i as int)[0] == c);
            assert(s@.skip(i as int).drop_first() =~= s@.skip(i as int + 1));
        }
        if c == '/' {
            if cur.len() > 0 {
                let done = cur;
                cur = Vec::new();
                comps.push(done);
                proof {
                    assert(views_of(comps@) =~= views_of(comps@.drop_last()) + seg_close(
                        done@,
                    ));
                    assert(views_of(comps@.drop_last()) + seg_close(done@) + split_acc(
                        s@.skip(i as int + 1),
                        Seq::empty(),
                    ) =~= views_of(comps@) + split_acc(s@.skip(i as int + 1), cur@));
                }
            } else {
                proof {
                    assert(cur@ =~= Seq::<char>::empty());
                    assert(seg_close(cur@) =~= Seq::<Seq<char>>::empty());
                    assert(views_of(comps@) + (seg_close(cur@) + split_acc(
                        s@.skip(i as int + 1),
                        Seq::empty(),
                    )) =~= views_of(comps@) + split_acc(s@.skip(i as int + 1), cur@));
                }
            }
        } else {
            cur.push(c);
        }
        i += 1;
    }
    proof {
        assert(s@.skip(n as int) =~= Seq::<char>::empty());
    }
    if cur.len() > 0 {
        let done = cur;
        comps.push(done);
        proof {
            assert(views_of(comps@) =~= views_of(comps@.drop_last()) + seg_close(done@));
        }
    } else {
        proof {
            assert(views_of(comps@) + seg_close(cur@) =~= views_of(comps@));
        }
    }
    comps
}

/// Components produced by splitting are well-formed, provided the pending
/// run holds no separator.
pub proof fn lemma_split_acc_wf(s: Seq<char>, cur: Seq<char>)
    requires
        forall|i: int| 0 <= i < cur.len() ==> cur[i] != '/',
    ensures
        wf_comps(split_acc(s, cur)),
    decreases s.len(),
{
    if s.len() == 0 {
    } else if s[0] == '/' {
        lemma_split_acc_wf(s.drop_first(), Seq::empty());
    } else {
        lemma_split_acc_wf(s.drop_first(), cur.push(s[0]));
    }
}

/// The components of any path are well-formed.
pub proof fn lemma_split_wf(s: Seq<char>)
    ensures
        wf_comps(split_path(s)),
{
    lemma_split_acc_wf(s, Seq::empty());
}

/// Normalising keeps components well-formed: the result only ever holds
/// components of `acc` or of `q`.
pub proof fn lemma_norm_rel_wf(acc: Seq<Seq<char>>, q: Seq<Seq<char>>)
    requires
        wf_comps(acc),
        wf_comps(q),
        norm_rel(acc, q) is Some,
    ensures
        wf_comps(norm_rel(acc, q)->0),
    decreases q.len(),
{
    if q.len() == 0 {
    } else {
        assert(wf_comps(q.drop_first())) by {
            assert(forall|i: int|
                0 <= i < q.len() - 1 ==> q.drop_first()[i] == #[trigger] q[i + 1]);
        }
        if is_dot(q[0]) {
            lemma_norm_rel_wf(acc, q.drop_first());
        } else if is_dotdot(q[0]) {
            assert(wf_comps(acc.drop_last())) by {
                assert(forall|i: int|
                    0 <= i < acc.len() - 1 ==> acc.drop_last()[i] == #[trigger] acc[i]);
            }
            lemma_norm_rel_wf(acc.drop_last(), q.drop_first());
        } else {
            assert(wf_comps(acc.push(q[0]))) by {
                assert(forall|i: int|
                    0 <= i < acc.len() ==> acc.push(q[0])[i] == #[trigger] acc[i]);
            }
            lemma_norm_rel_wf(acc.push(q[0]), q.drop_first());
        }
    }
}

/// Splitting after a well-formed component run consumes the run into the
/// pending segment.
proof fn lemma_split_acc_through_comp(c: Seq<char>, t: Seq<char>, cur: Seq<char>)
    requires
        forall|i: int| 0 <= i < c.len() ==> c[i] != '/',
    ensures
        split_acc(c + t, cur) == split_acc(t, cur + c),
    decreases c.len(),
{
    if c.len() == 0 {
        assert(c + t =~= t);
        assert(cur + c =~= cur);
    } else {
        assert((c + t)[0] == c[0]);
        assert((c + t).drop_first() =~= c.drop_first() + t);
        lemma_split_acc_through_comp(c.drop_first(), t, cur.push(c[0]));
        assert(cur.push(c[0]) + c.drop_first() =~= cur + c);
    }
}

/// Rendering then splitting gives the components back.
pub proof fn lemma_split_render(cs: Seq<Seq<char>>)
    requires
        wf_comps(cs),
    ensures
        split_path(render_comps(cs)) == cs,
    decreases cs.len(),
{
    if cs.len() == 0 {
        assert(split_acc(render_comps(cs), Seq::empty()) =~= Seq::<Seq<char>>::empty());
    } else {
        let rest = cs.drop_first();
        let rrest = render_comps(rest);
        let body = cs[0] + rrest;
        assert(render_comps(cs) == seq!['/'] + cs[0] + rrest);
        assert((seq!['/'] + cs[0] + rrest)[0] == '/');
        assert((seq!['/'] + cs[0] + rrest).drop_first() =~= body);
        assert(split_path(render_comps(cs)) == seg_close(Seq::empty()) + split_acc(
            body,
            Seq::empty(),
        ));
        lemma_split_acc_through_comp(cs[0], rrest, Seq::empty());
        assert(Seq::<char>::empty() + cs[0] =~= cs[0]);
        assert(split_acc(body, Seq::empty()) == split_acc(rrest, cs[0]));
        assert(wf_comps(rest)) by {
            assert(forall|i: int|
                0 <= i < cs.len() - 1 ==> cs.drop_first()[i] == #[trigger] cs[i + 1]);
        }
        if rest.len() == 0 {
            assert(rrest.len() == 0);
            assert(split_acc(rrest, cs[0]) == seg_close(cs[0]));
            assert(seg_close(Seq::empty()) + seg_close(cs[0]) =~= cs);
        } else {
            lemma_split_render(rest);
            assert(rrest == seq!['/'] + rest[0] + render_comps(rest.drop_first()));
            assert(rrest[0] == '/');
            assert(split_acc(rrest, cs[0]) == seg_close(cs[0]) + split_acc(
                rrest.drop_first(),
                Seq::empty(),
            ));
            assert(split_path(rrest) == seg_close(Seq::empty()) + split_acc(
                rrest.drop_first(),
                Seq::empty(),
            ));
            assert(split_acc(rrest.drop_first(), Seq::empty()) =~= split_path(rrest));
            assert(seg_close(Seq::empty()) + (seg_close(cs[0]) + split_path(rrest)) =~= seq![
                cs[0],
            ] + rest);
            assert(seq![cs[0]] + rest =~= cs);
        }
    }
}

/// Whether a component is `.`.
fn comp_is_dot(c: &Vec<char>) -> (r: bool)
    ensures
        r == is_dot(c@),
{
    c.len() == 1 && c[0] == '.'
}

/// Whether a component is `..`.
fn comp_is_dotdot(c: &Vec<char>) -> (r: bool)
    ensures
        r == is_dotdot(c@),
{
    c.len() == 2 && c[0] == '.' && c[1] == '.'
}

/// Rendering distributes over concatenation of component lists.
proof fn lemma_render_append(a: Seq<Seq<char>>, b: Seq<Seq<char>>)
    ensures
        render_comps(a + b) == render_comps(a) + render_comps(b),
    decreases a.len(),
{
    if a.len() == 0 {
        assert(a + b =~= b);
        assert(render_comps(a) + render_comps(b) =~= render_comps(b));
    } else {
        assert((a + b)[0] == a[0]);
        assert((a + b).drop_first() =~= a.drop_first() + b);
        lemma_render_append(a.drop_first(), b);
        assert(seq!['/'] + a[0] + (render_comps(a.drop_first()) + render_comps(b)) =~= (seq![
            '/',
        ] + a[0] + render_comps(a.drop_first())) + render_comps(b));
    }
}

/// The absolute path with the given components as text.
fn render_path(cs: &Vec<Vec<char>>) -> (r: String)
    ensures
        r@ == render_abs(views_of(cs@)),
{
    let n = cs.len();
    if n == 0 {
        let mut out: Vec<char> = Vec::new();
        out.push('/');
        proof {
            assert(out@ =~= seq!['/']);
        }
        return chars_to_string(&out);
    }
    let mut out: Vec<char> = Vec::new();
    let mut i: usize = 0;
    proof {
        assert(views_of(cs@).take(0) =~= Seq::<Seq<char>>::empty());
    }
    while i < n
        invariant
            n == cs@.len(),
            i <= n,
            out@ == render_comps(views_of(cs@).take(i as int)),
        decreases n - i,
    {
        out.push('/');
        let c = &cs[i];
        push_all(&mut out, c);
        proof {
            let vs = views_of(cs@);
            assert(vs.take(i as int + 1) =~= vs.take(i as int) + seq![vs[i as int]]);
            lemma_render_append(vs.take(i as int), seq![vs[i as int]]);
            assert(seq![vs[i as int]].drop_first() =~= Seq::<Seq<char>>::empty());
            assert(render_comps(seq![vs[i as int]].drop_first()) =~= Seq::<char>::empty());
            assert(render_comps(seq![vs[i as int]]) =~= seq!['/'] + vs[i as int]);
            assert(render_comps(vs.take(i as int)) + (seq!['/'] + vs[i as int]) =~= out@);
        }
        i += 1;
    }
    proof {
        assert(views_of(cs@).take(n as int) =~= views_of(cs@));
    }
    chars_to_string(&out)
}

/// A local-disk backend; its file operations live with the I/O layer, while
/// the path discipline they all share is defined here.
pub struct LocalFileSystem;

impl LocalFileSystem {
    /// Resolves a user-supplied path against a canonical root, purely
    /// lexically: the request's components are normalised (`.` dropped, `..`
    /// popped) on top of the root, and any attempt to climb above the root
    /// fails with `PathTraversal` before any filesystem call could happen.
    ///
    /// The root must be absolute with no `.` or `..` components — the form a
    /// canonicalised path has — else `InvalidRoot` is returned. On success
    /// the result is the root extended by the normalised components, so the
    /// root's components are always a prefix of the result's.
    pub fn resolve_path(base_path: &str, path: &str) -> (r: Result<String, FmError>)
        ensures
            !root_ok(base_path@) ==> r == Err::<String, FmError>(FmError::InvalidRoot),
            root_ok(base_path@) && resolved_rel(path@) is None ==> r == Err::<String, FmError>(
                FmError::PathTraversal,
            ),
            root_ok(base_path@) && resolved_rel(path@) is Some ==> (r matches Ok(p) && p@
                == render_abs(split_path(base_path@) + resolved_rel(path@)->0)),
            r matches Ok(p) ==> comps_prefix(split_path(base_path@), split_path(p@)),
    {
        let base_chars = str_chars(base_path);
        if base_chars.len() == 0 {
            return Err(FmError::InvalidRoot);
        }
        if base_chars[0] != '/' {
            return Err(FmError::InvalidRoot);
        }
        let base_comps = split_components(base_path);
        let bn = base_comps.len();
        let mut i: usize = 0;
        while i < bn
            invariant
                views_of(base_comps@) == split_path(base_path@),
                bn == base_comps@.len(),
                i <= bn,
                forall|j: int|
                    0 <= j < i ==> !is_dot(#[trigger] split_path(base_path@)[j]) && !is_dotdot(
                        split_path(base_path@)[j],
                    ),
            decreases bn - i,
        {
            let c = &base_comps[i];
            proof {
                assert(views_of(base_comps@)[i as int] == c@);
            }
            if comp_is_dot(c) || comp_is_dotdot(c) {
                proof {
                    assert(is_dot(split_path(base_path@)[i as int]) || is_dotdot(
                        split_path(base_path@)[i as int],
                    ));
                    assert(!root_ok(base_path@));
                }
                return Err(FmError::InvalidRoot);
            }
            i += 1;
        }
        proof {
            assert(root_ok(base_path@));
        }
        let q = split_components(path);
        let qn = q.len();
        let mut stack: Vec<Vec<char>> = Vec::new();
        let mut k: usize = 0;
        proof {
            assert(views_of(stack@) =~= Seq::<Seq<char>>::empty());
            assert(views_of(q@).skip(0) =~= views_of(q@));
        }
        while k < qn
            invariant
                root_ok(base_path@),
                views_of(q@) == split_path(path@),
                qn == q@.len(),
                k <= qn,
                resolved_rel(path@) == norm_rel(views_of(stack@), views_of(q@).skip(k as int)),
            decreases qn - k,
        {
            let c = &q[k];
            proof {
                assert(views_of(q@).skip(k as int)[0] == c@);
                assert(views_of(q@).skip(k as int).drop_first() =~= views_of(q@).skip(
                    k as int + 1,
                ));
            }
            if comp_is_dot(c) {
            } else if comp_is_dotdot(c) {
                if stack.len() == 0 {
                    proof {
                        assert(views_of(stack@).len() == 0);
                    }
                    return Err(FmError::PathTraversal);
                }
                let ghost prev = stack@;
                stack.pop();
                proof {
                    assert(views_of(stack@) =~= views_of(prev).drop_last());
                }
            } else {
                let ghost prev = stack@;
                let cc = copy_vec(c);
                stack.push(cc);
                proof {
                    assert(views_of(stack@) =~= views_of(prev).push(c@));
                }
            }
            k += 1;
        }
        proof {
            assert(views_of(q@).skip(qn as int) =~= Seq::<Seq<char>>::empty());
        }
        let mut all = base_comps;
        let mut rel = stack;
        let ghost base_vs = views_of(all@);
        let ghost rel_vs = views_of(rel@);
        all.append(&mut rel);
        proof {
            assert(views_of(all@) =~= base_vs + rel_vs);
        }
        let out = render_path(&all);
        proof {
            lemma_split_wf(base_path@);
            lemma_split_wf(path@);
            lemma_norm_rel_wf(Seq::empty(), split_path(path@));
            if views_of(all@).len() == 0 {
                assert(out@ =~= seq!['/']);
                assert(seq!['/'].drop_first() =~= Seq::<char>::empty());
                assert(split_acc(seq!['/'].drop_first(), Seq::empty()) =~= Seq::<
                    Seq<char>,
                >::empty());
                assert(split_acc(seq!['/'], Seq::empty()) =~= Seq::<Seq<char>>::empty());
                assert(split_path(out@) =~= Seq::<Seq<char>>::empty());
                assert(base_vs.len() == 0);
                assert(split_path(out@).take(0) =~= split_path(base_path@));
            } else {
                lemma_split_render(views_of(all@));
                assert(split_path(out@).take(base_vs.len() as int) =~= base_vs);
            }
        }
        Ok(out)
    }
}

/// Whether `candidate`'s components extend `base_path`'s: the re-check run
/// after the platform resolves symlinks.
pub fn is_within(base_path: &str, candidate: &str) -> (r: bool)
    ensures
        r == comps_prefix(split_path(base_path@), split_path(candidate@)),
{
    let b = split_components(base_path);
    let c = split_components(candidate);
    let bn = b.len();
    if bn > c.len() {
        return false;
    }
    let mut i: usize = 0;
    while i < bn
        invariant
            views_of(b@) == split_path(base_path@),
            views_of(c@) == split_path(candidate@),
            bn == b@.len(),
            bn <= c@.len(),
            i <= bn,
            forall|j: int| 0 <= j < i ==> views_of(b@)[j] == views_of(c@)[j],
        decreases bn - i,
    {
        proof {
            assert(views_of(b@)[i as int] == b@[i as int]@);
            assert(views_of(c@)[i as int] == c@[i as int]@);
        }
        if !chars_eq(&b[i], &c[i]) {
            proof {
                assert(split_path(candidate@).take(bn as int)[i as int] != split_path(
                    base_path@,
                )[i as int]);
            }
            return false;
        }
        i += 1;
    }
    proof {
        assert(split_path(candidate@).take(bn as int) =~= split_path(base_path@));
    }
    true
}

/// A path with its trailing separators removed.
pub open spec fn trim_trailing_slashes(s: Seq<char>) -> Seq<char>
    decreases s.len(),
{
    if s.len() > 0 && s.last() == '/' {
        trim_trailing_slashes(s.drop_last())
    } else {
        s
    }
}

/// A path with its leading separators removed.
pub open spec fn trim_leading_slashes(s: Seq<char>) -> Seq<char>
    decreases s.len(),
{
    if s.len() > 0 && s[0] == '/' {
        trim_leading_slashes(s.drop_first())
    } else {
        s
    }
}

/// The caller-facing path of a listed entry: the browsed path without
/// trailing separators, then `/`, then the entry's name.
pub open spec fn child_path(path: Seq<char>, name: Seq<char>) -> Seq<char> {
    trim_trailing_slashes(path) + seq!['/'] + name
}

/// Builds the display path of an entry named `name` inside the browsed
/// `path`; an empty or `/` path yields `/name`.
pub fn child_display_path(path: &str, name: &str) -> (r: String)
    ensures
        r@ == child_path(path@, name@),
{
    let mut out = str_chars(path);
    while out.len() > 0 && out[out.len() - 1] == '/'
        invariant
            trim_trailing_slashes(path@) == trim_trailing_slashes(out@),
        decreases out@.len(),
    {
        let ghost prev = out@;
        out.pop();
        proof {
            assert(out@ =~= prev.drop_last());
        }
    }
    out.push('/');
    let nm = str_chars(name);
    push_all(&mut out, &nm);
    proof {
        assert(out@ =~= child_path(path@, name@));
    }
    chars_to_string(&out)
}

/// A base URL joined with a relative path: the base without trailing
/// slashes, one `/`, then the path without leading slashes.
pub open spec fn url_join(base: Seq<char>, path: Seq<char>) -> Seq<char> {
    trim_trailing_slashes(base) + seq!['/'] + trim_leading_slashes(path)
}

/// Joins a base URL and a relative path with exactly one separator between
/// them.
pub fn join_url(base: &str, path: &str) -> (r: String)
    ensures
        r@ == url_join(base@, path@),
{
    let mut out = str_chars(base);
    while out.len() > 0 && out[out.len() - 1] == '/'
        invariant
            trim_trailing_slashes(base@) == trim_trailing_slashes(out@),
        decreases out@.len(),
    {
        let ghost prev = out@;
        out.pop();
        proof {
            assert(out@ =~= prev.drop_last());
        }
    }
    out.push('/');
    let p = str_chars(path);
    let pn = p.len();
    let mut i: usize = 0;
    proof {
        assert(path@.skip(0) =~= path@);
    }
    while i < pn && p[i] == '/'
        invariant
            p@ == path@,
            pn == path@.len(),
            i <= pn,
            trim_leading_slashes(path@) == trim_leading_slashes(path@.skip(i as int)),
        decreases pn - i,
    {
        proof {
            assert(path@.skip(i as int)[0] == p@[i as int]);
            assert(path@.skip(i as int).drop_first() =~= path@.skip(i as int + 1));
        }
        i += 1;
    }
    proof {
        if i < pn {
            assert(path@.skip(i as int)[0] != '/');
        } else {
            assert(path@.skip(i as int).len() == 0);
        }
        assert(trim_leading_slashes(path@.skip(i as int)) == path@.skip(i as int));
    }
    let ghost mid = out@;
    let mut j: usize = i;
    while j < pn
        invariant
            p@ == path@,
            pn == path@.len(),
            i <= j <= pn,
            out@ == mid + path@.subrange(i as int, j as int),
        decreases pn - j,
    {
        let c = p[j];
        out.push(c);
        proof {
            assert(mid + path@.subrange(i as int, j as int + 1) =~= (mid + path@.subrange(
                i as int,
                j as int,
            )).push(path@[j as int]));
        }
        j += 1;
    }
    proof {
        assert(path@.subrange(i as int, pn as int) =~= path@.skip(i as int));
        assert(out@ =~= url_join(base@, path@));
    }
    chars_to_string(&out)
}

} // verus!
