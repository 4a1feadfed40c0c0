//! A character-level model of the filesystem paths the guard reasons
//! about.
//!
//! Policy lookups compare paths the way the platform's path type does:
//! by components, so `/tmp` and `/tmp/` name the same directory while
//! `/tmp/..` does not.  A path is modelled as its component list: a
//! leading `/` marker for absolute paths, a leading `.` marker for
//! relative paths spelled with one, then the plain segments with empty
//! and `.` segments dropped.  Nothing here touches the filesystem;
//! canonicalization (which must) lives behind a trusted wrapper in
//! [`crate::fsops`].

use vstd::prelude::*;

use crate::strutil::{
    from_chars, lemma_split_word_end, lemma_split_word_sep, push_char, split_on, str_eq,
    subrange_chars, to_chars,
};

verus! {

/// A path is absolute exactly when it opens with `/`.
pub open spec fn is_abs_path(s: Seq<char>) -> bool {
    s.len() > 0 && s[0] == '/'
}

/// Executable twin of [`is_abs_path`].
pub fn is_absolute(s: &str) -> (r: bool)
    ensures
        r == is_abs_path(s@),
{
    let n = s.unicode_len();
    n > 0 && s.get_char(0) == '/'
}

/// The predicate path splitting separates on.
pub open spec fn slash_pred() -> spec_fn(char) -> bool {
    |c: char| c == '/'
}

/// The non-empty `/`-separated segments of a path, in order.
pub open spec fn segments(s: Seq<char>) -> Seq<Seq<char>> {
    split_on(s, slash_pred())
}

/// The marker standing for the root directory in a component list.
pub open spec fn root_marker() -> Seq<char> {
    seq!['/']
}

/// The one-dot segment.
pub open spec fn dot_seg() -> Seq<char> {
    seq!['.']
}

/// The two-dot (parent directory) segment.
pub open spec fn dotdot_seg() -> Seq<char> {
    seq!['.', '.']
}

/// The segments that survive normalization: everything but `.`.
pub open spec fn kept_segments(s: Seq<char>) -> Seq<Seq<char>> {
    segments(s).filter(|g: Seq<char>| g != dot_seg())
}

/// The component list of a path: a root marker for absolute paths, a
/// `.` marker when a relative path is spelled with a leading one, then
/// the surviving segments.  Two paths name the same location exactly
/// when their component lists agree.
pub open spec fn path_components_spec(s: Seq<char>) -> Seq<Seq<char>> {
    if is_abs_path(s) {
        seq![root_marker()] + kept_segments(s)
    } else if segments(s).len() > 0 && segments(s)[0] == dot_seg() {
        seq![dot_seg()] + kept_segments(s)
    } else {
        kept_segments(s)
    }
}

/// Component-wise path equality: the identity the policy store compares
/// source paths by.
pub open spec fn path_eq(a: Seq<char>, b: Seq<char>) -> bool {
    path_components_spec(a) == path_components_spec(b)
}

/// The shape canonicalization promises of its result: absolute, with
/// every `.` and `..` segment resolved away.
pub open spec fn canonical_shaped(s: Seq<char>) -> bool {
    &&& is_abs_path(s)
    &&& forall|i: int|
        0 <= i < segments(s).len() ==> #[trigger] segments(s)[i] != dot_seg() && segments(s)[i]
            != dotdot_seg()
}

/// Filtering changes nothing when the predicate holds everywhere.
proof fn lemma_filter_all<A>(s: Seq<A>, p: spec_fn(A) -> bool)
    requires
        forall|i: int| 0 <= i < s.len() ==> p(#[trigger] s[i]),
    ensures
        s.filter(p) == s,
    decreases s.len(),
{
    reveal(Seq::filter);
    if s.len() == 0 {
        assert(s.filter(p) =~= s);
    } else {
        assert(forall|i: int| 0 <= i < s.drop_last().len() ==> p(#[trigger] s.drop_last()[i]));
        lemma_filter_all(s.drop_last(), p);
        assert(p(s.last()));
        assert(s.filter(p) == s.drop_last().push(s.last()));
        assert(s.drop_last().push(s.last()) =~= s);
    }
}

/// An absolute path component-equal to a canonically shaped path has no
/// parent-directory traversal left in it: the defence the escalation
/// guard's source re-check rests on.
pub proof fn lemma_canonical_equal_no_traversal(t: Seq<char>, c: Seq<char>)
    requires
        is_abs_path(t),
        path_eq(t, c),
        canonical_shaped(c),
    ensures
        forall|i: int|
            0 <= i < kept_segments(t).len() ==> #[trigger] kept_segments(t)[i] != dotdot_seg(),
{
    lemma_filter_all(segments(c), |g: Seq<char>| g != dot_seg());
    assert(kept_segments(c) == segments(c));
    assert(path_components_spec(t) == seq![root_marker()] + kept_segments(t));
    assert(path_components_spec(c) == seq![root_marker()] + kept_segments(c));
    assert(kept_segments(t) =~= kept_segments(c)) by {
        let lhs = seq![root_marker()] + kept_segments(t);
        let rhs = seq![root_marker()] + kept_segments(c);
        assert(lhs == rhs);
        assert(forall|i: int|
            0 <= i < kept_segments(t).len() ==> kept_segments(t)[i] == lhs[i + 1] && #[trigger] kept_segments(
                c,
            )[i] == rhs[i + 1]);
    }
}

/// Splits `s` on `/`, dropping empty pieces.
pub fn split_slash(s: &str) -> (r: Vec<String>)
    ensures
        r.deep_view() == segments(s@),
{
    let chars = to_chars(s);
    let mut r: Vec<String> = Vec::new();
    let mut cur: Vec<char> = Vec::new();
    let mut i: usize = 0;
    proof {
        assert(cur@ + s@.skip(0) =~= s@);
        assert(r.deep_view() =~= Seq::<Seq<char>>::empty());
        assert(r.deep_view() + segments(s@) =~= segments(s@));
    }
    while i < chars.len()
        invariant
            i <= chars@.len(),
            chars@ == s@,
            forall|k: int| 0 <= k < cur@.len() ==> #[trigger] cur@[k] != '/',
            r.deep_view() + split_on(cur@ + s@.skip(i as int), slash_pred()) == segments(s@),
        decreases chars@.len() - i,
    {
        let c = chars[i];
        let ghost prev_rest = cur@ + s@.skip(i as int);
        let ghost next_rest = s@.skip(i as int + 1);
        assert(s@.skip(i as int) == seq![c] + next_rest) by {
            assert(s@.skip(i as int) =~= seq![c] + s@.skip(i as int + 1));
        }
        if c == '/' {
            if cur.len() > 0 {
                proof {
                    assert(prev_rest =~= cur@ + seq![c] + next_rest);
                    assert(forall|k: int|
                        0 <= k < cur@.len() ==> !(slash_pred())(#[trigger] cur@[k]));
                    lemma_split_word_sep(cur@, c, next_rest, slash_pred());
                }
                let word = from_chars(&cur);
                let ghost old_r = r.deep_view();
                let ghost word_seq = cur@;
                r.push(word);
                proof {
                    assert(r.deep_view() =~= old_r + seq![word_seq]);
                    assert((old_r + seq![word_seq]) + split_on(next_rest, slash_pred()) =~= old_r
                        + (seq![word_seq] + split_on(next_rest, slash_pred())));
                }
                cur = Vec::new();
                proof {
                    assert(cur@ + next_rest =~= next_rest);
                }
            } else {
                proof {
                    assert(prev_rest =~= seq![c] + next_rest);
                    assert(prev_rest[0] == c);
                    assert(prev_rest.drop_first() =~= next_rest);
                    assert(cur@ + next_rest =~= next_rest);
                }
            }
        } else {
            cur.push(c);
            proof {
                assert(cur@ + next_rest =~= prev_rest);
            }
        }
        i = i + 1;
    }
    proof {
        assert(cur@ + s@.skip(i as int) =~= cur@);
    }
    if cur.len() > 0 {
        proof {
            assert(forall|k: int| 0 <= k < cur@.len() ==> !(slash_pred())(#[trigger] cur@[k]));
            lemma_split_word_end(cur@, slash_pred());
        }
        let word = from_chars(&cur);
        let ghost old_r = r.deep_view();
        r.push(word);
        proof {
            assert(r.deep_view() =~= old_r + seq![cur@]);
        }
    }
    assert(r.deep_view() =~= segments(s@));
    r
}

/// The component list of `s`, computed.
pub fn path_components(s: &str) -> (r: Vec<String>)
    ensures
        r.deep_view() == path_components_spec(s@),
{
    let segs = split_slash(s);
    let mut r: Vec<String> = Vec::new();
    if is_absolute(s) {
        let m = String::from_str("/");
        proof {
            reveal_strlit("/");
            assert("/"@ =~= root_marker());
        }
        r.push(m);
        assert(r.deep_view() =~= seq![root_marker()]);
    } else if segs.len() > 0 && str_eq(segs[0].as_str(), ".") {
        let m = String::from_str(".");
        proof {
            reveal_strlit(".");
            assert("."@ =~= dot_seg());
        }
        assert(segs@[0]@ == dot_seg());
        r.push(m);
        assert(r.deep_view() =~= seq![dot_seg()]);
    } else {
        assert(r.deep_view() =~= Seq::<Seq<char>>::empty());
        proof {
            reveal_strlit(".");
            assert("."@ =~= dot_seg());
            if segments(s@).len() > 0 {
                assert(segs.deep_view()[0] == segs@[0]@);
            }
        }
    }
    let ghost prefix = r.deep_view();
    let ghost p = |g: Seq<char>| g != dot_seg();
    let mut i: usize = 0;
    proof {
        reveal(Seq::filter);
        assert(segs.deep_view().take(0).filter(p) =~= Seq::<Seq<char>>::empty());
        assert(r.deep_view() =~= prefix + segs.deep_view().take(0).filter(p));
    }
    while i < segs.len()
        invariant
            i <= segs@.len(),
            segs.deep_view().len() == segs@.len(),
            forall|k: int| 0 <= k < segs@.len() ==> segs.deep_view()[k] == #[trigger] segs@[k]@,
            p == (|g: Seq<char>| g != dot_seg()),
            r.deep_view() == prefix + segs.deep_view().take(i as int).filter(p),
        decreases segs@.len() - i,
    {
        let ghost before = segs.deep_view().take(i as int).filter(p);
        proof {
            reveal(Seq::filter);
            assert(segs.deep_view().take(i as int + 1).drop_last() =~= segs.deep_view().take(
                i as int,
            ));
            assert(segs.deep_view().take(i as int + 1).last() == segs@[i as int]@);
        }
        if !str_eq(segs[i].as_str(), ".") {
            proof {
                reveal_strlit(".");
                assert("."@ =~= dot_seg());
                assert(p(segs@[i as int]@));
            }
            let seg = segs[i].clone();
            let ghost old_r = r.deep_view();
            r.push(seg);
            proof {
                assert(r.deep_view() =~= old_r + seq![segs@[i as int]@]);
                assert(segs.deep_view().take(i as int + 1).filter(p) == before.push(
                    segs@[i as int]@,
                ));
                assert(prefix + before.push(segs@[i as int]@) =~= (prefix + before) + seq![
                    segs@[i as int]@,
                ]);
            }
        } else {
            proof {
                reveal_strlit(".");
                assert("."@ =~= dot_seg());
                assert(segs@[i as int]@ == dot_seg());
                assert(!p(segs@[i as int]@));
                assert(segs.deep_view().take(i as int + 1).filter(p) == before);
            }
        }
        i = i + 1;
    }
    proof {
        assert(segs.deep_view().take(segs@.len() as int) =~= segs.deep_view());
        if is_abs_path(s@) {
            assert(r.deep_view() =~= path_components_spec(s@));
        } else if segments(s@).len() > 0 && segments(s@)[0] == dot_seg() {
            assert(r.deep_view() =~= path_components_spec(s@));
        } else {
            assert(r.deep_view() =~= path_components_spec(s@));
        }
    }
    r
}

/// Decides component-wise equality of two paths.
pub fn paths_equal(a: &str, b: &str) -> (r: bool)
    ensures
        r == path_eq(a@, b@),
{
    let ca = path_components(a);
    let cb = path_components(b);
    if ca.len() != cb.len() {
        assert(ca.deep_view().len() != cb.deep_view().len());
        return false;
    }
    let mut i: usize = 0;
    while i < ca.len()
        invariant
            i <= ca@.len(),
            ca@.len() == cb@.len(),
            ca.deep_view() == path_components_spec(a@),
            cb.deep_view() == path_components_spec(b@),
            ca.deep_view().len() == ca@.len(),
            cb.deep_view().len() == cb@.len(),
            forall|k: int| 0 <= k < i ==> ca.deep_view()[k] == cb.deep_view()[k],
        decreases ca@.len() - i,
    {
        assert(ca.deep_view()[i as int] == ca@[i as int]@);
        assert(cb.deep_view()[i as int] == cb@[i as int]@);
        if !str_eq(ca[i].as_str(), cb[i].as_str()) {
            assert(ca.deep_view()[i as int] != cb.deep_view()[i as int]);
            return false;
        }
        i = i + 1;
    }
    assert(ca.deep_view() =~= cb.deep_view());
    true
}

/// The final component of `s`, as the platform's path type reports it:
/// the last surviving segment, unless the path ends in `..` or has no
/// segment at all.
pub open spec fn file_name_spec(s: Seq<char>) -> Option<Seq<char>> {
    let f = kept_segments(s);
    if f.len() == 0 {
        Option::None
    } else if f.last() == dotdot_seg() {
        Option::None
    } else {
        Option::Some(f.last())
    }
}

/// Computes [`file_name_spec`].
pub fn path_file_name(s: &str) -> (r: Option<String>)
    ensures
        match r {
            Option::Some(name) => file_name_spec(s@) == Option::Some(name@),
            Option::None => file_name_spec(s@) is None,
        },
{
    let segs = split_slash(s);
    let ghost p = |g: Seq<char>| g != dot_seg();
    let mut last: Option<String> = Option::None;
    let mut i: usize = 0;
    proof {
        reveal(Seq::filter);
        assert(segs.deep_view().take(0).filter(p) =~= Seq::<Seq<char>>::empty());
    }
    while i < segs.len()
        invariant
            i <= segs@.len(),
            segs.deep_view().len() == segs@.len(),
            forall|k: int| 0 <= k < segs@.len() ==> segs.deep_view()[k] == #[trigger] segs@[k]@,
            p == (|g: Seq<char>| g != dot_seg()),
            match last {
                Option::Some(name) => {
                    &&& segs.deep_view().take(i as int).filter(p).len() > 0
                    &&& segs.deep_view().take(i as int).filter(p).last() == name@
                },
                Option::None => segs.deep_view().take(i as int).filter(p).len() == 0,
            },
        decreases segs@.len() - i,
    {
        let ghost before = segs.deep_view().take(i as int).filter(p);
        proof {
            reveal(Seq::filter);
            assert(segs.deep_view().take(i as int + 1).drop_last() =~= segs.deep_view().take(
                i as int,
            ));
            assert(segs.deep_view().take(i as int + 1).last() == segs@[i as int]@);
        }
        if !str_eq(segs[i].as_str(), ".") {
            proof {
                reveal_strlit(".");
                assert("."@ =~= dot_seg());
                assert(p(segs@[i as int]@));
                assert(segs.deep_view().take(i as int + 1).filter(p) == before.push(
                    segs@[i as int]@,
                ));
            }
            last = Option::Some(segs[i].clone());
        } else {
            proof {
                reveal_strlit(".");
                assert("."@ =~= dot_seg());
                assert(segs@[i as int]@ == dot_seg());
                assert(!p(segs@[i as int]@));
                assert(segs.deep_view().take(i as int + 1).filter(p) == before);
            }
        }
        i = i + 1;
    }
    proof {
        assert(segs.deep_view().take(segs@.len() as int) =~= segs.deep_view());
    }
    match last {
        Option::None => Option::None,
        Option::Some(name) => {
            if str_eq(name.as_str(), "..") {
                proof {
                    reveal_strlit("..");
                    assert(".."@ =~= dotdot_seg());
                    assert(name@ == dotdot_seg());
                }
                Option::None
            } else {
                proof {
                    reveal_strlit("..");
                    assert(".."@ =~= dotdot_seg());
                    assert(name@ != dotdot_seg());
                }
                Option::Some(name)
            }
        },
    }
}

/// The index of the last occurrence of `c` in `s`, if any.
pub open spec fn last_index_of(s: Seq<char>, c: char) -> Option<int>
    decreases s.len(),
{
    if s.len() == 0 {
        Option::None
    } else if s.last() == c {
        Option::Some(s.len() - 1)
    } else {
        last_index_of(s.drop_last(), c)
    }
}

/// Computes [`last_index_of`].
pub fn find_last_char(chars: &Vec<char>, c: char) -> (r: Option<usize>)
    ensures
        match r {
            Option::Some(i) => last_index_of(chars@, c) == Option::Some(i as int),
            Option::None => last_index_of(chars@, c) is None,
        },
{
    let mut i: usize = chars.len();
    proof {
        assert(chars@.take(chars@.len() as int) =~= chars@);
    }
    while i > 0
        invariant
            i <= chars@.len(),
            last_index_of(chars@, c) == last_index_of(chars@.take(i as int), c),
        decreases i,
    {
        proof {
            assert(chars@.take(i as int).last() == chars@[i - 1]);
            assert(chars@.take(i as int).drop_last() =~= chars@.take(i as int - 1));
        }
        if chars[i - 1] == c {
            return Option::Some(i - 1);
        }
        i = i - 1;
    }
    proof {
        assert(chars@.take(0) =~= Seq::<char>::empty());
    }
    Option::None
}

/// What replacing the extension of `p`'s final component with `ext`
/// yields: everything up to the final component, then the component's
/// stem (the part before its last dot, unless that dot opens the name),
/// a dot, and `ext`.  On a path with a trailing slash this keeps the
/// slash where the platform's path type would drop it; no caller hands
/// one in (companion files are derived from destination directories,
/// which are built without trailing slashes).
pub open spec fn with_extension_spec(p: Seq<char>, ext: Seq<char>) -> Seq<char> {
    let dir_len = match last_index_of(p, '/') {
        Option::Some(i) => i + 1,
        Option::None => 0,
    };
    let fname = p.skip(dir_len);
    let stem = match last_index_of(fname, '.') {
        Option::Some(j) => if j == 0 {
            fname
        } else {
            fname.take(j)
        },
        Option::None => fname,
    };
    p.take(dir_len) + stem + seq!['.'] + ext
}

/// Computes [`with_extension_spec`].
pub fn path_with_extension(p: &str, ext: &str) -> (r: String)
    ensures
        r@ == with_extension_spec(p@, ext@),
{
    let chars = to_chars(p);
    let n = chars.len();
    let slash = find_last_char(&chars, '/');
    proof {
        lemma_last_index_in_range(chars@, '/');
    }
    let dir_len: usize = match slash {
        Option::Some(i) => {
            assert(last_index_of(chars@, '/') == Option::Some(i as int));
            assert(i < n);
            i + 1
        },
        Option::None => 0,
    };
    let fname = subrange_chars(&chars, dir_len, n);
    assert(fname@ =~= p@.skip(dir_len as int));
    let dot = find_last_char(&fname, '.');
    proof {
        lemma_last_index_in_range(fname@, '.');
    }
    let stem_len: usize = match dot {
        Option::Some(j) => if j == 0 {
            fname.len()
        } else {
            j
        },
        Option::None => fname.len(),
    };
    let mut out = subrange_chars(&chars, 0, dir_len);
    let mut stem = subrange_chars(&fname, 0, stem_len);
    out.append(&mut stem);
    out.push('.');
    let mut ext_chars = to_chars(ext);
    out.append(&mut ext_chars);
    proof {
        assert(fname@.take(fname@.len() as int) =~= fname@);
        assert(out@ =~= with_extension_spec(p@, ext@));
    }
    from_chars(&out)
}

/// A found occurrence lies inside the string.
proof fn lemma_last_index_in_range(s: Seq<char>, c: char)
    ensures
        match last_index_of(s, c) {
            Option::Some(i) => 0 <= i < s.len() && s[i] == c,
            Option::None => true,
        },
    decreases s.len(),
{
    if s.len() > 0 && s.last() != c {
        lemma_last_index_in_range(s.drop_last(), c);
    }
}

/// `s` with its leading slashes removed.
pub open spec fn strip_leading_slashes(s: Seq<char>) -> Seq<char>
    decreases s.len(),
{
    if s.len() > 0 && s[0] == '/' {
        strip_leading_slashes(s.drop_first())
    } else {
        s
    }
}

/// `s` with its trailing slashes removed.
pub open spec fn strip_trailing_slashes(s: Seq<char>) -> Seq<char>
    decreases s.len(),
{
    if s.len() > 0 && s.last() == '/' {
        strip_trailing_slashes(s.drop_last())
    } else {
        s
    }
}

/// `s` with slashes removed from both ends.
pub open spec fn trim_slashes_spec(s: Seq<char>) -> Seq<char> {
    strip_trailing_slashes(strip_leading_slashes(s))
}

/// Computes [`trim_slashes_spec`].
pub fn trim_slashes(s: &str) -> (r: String)
    ensures
        r@ == trim_slashes_spec(s@),
{
    let chars = to_chars(s);
    let mut start: usize = 0;
    proof {
        assert(s@.skip(0) =~= s@);
    }
    while start < chars.len() && chars[start] == '/'
        invariant
            start <= chars@.len(),
            chars@ == s@,
            strip_leading_slashes(s@) == strip_leading_slashes(s@.skip(start as int)),
        decreases chars@.len() - start,
    {
        proof {
            assert(s@.skip(start as int)[0] == '/');
            assert(s@.skip(start as int).drop_first() =~= s@.skip(start as int + 1));
        }
        start = start + 1;
    }
    proof {
        if start < chars@.len() {
            assert(s@.skip(start as int)[0] != '/');
        } else {
            assert(s@.skip(start as int) =~= Seq::<char>::empty());
        }
        assert(strip_leading_slashes(s@) == s@.skip(start as int));
    }
    let mut end: usize = chars.len();
    proof {
        assert(s@.subrange(start as int, end as int) =~= s@.skip(start as int));
    }
    while end > start && chars[end - 1] == '/'
        invariant
            start <= end <= chars@.len(),
            chars@ == s@,
            strip_leading_slashes(s@) == s@.skip(start as int),
            strip_trailing_slashes(s@.skip(start as int)) == strip_trailing_slashes(
                s@.subrange(start as int, end as int),
            ),
        decreases end,
    {
        proof {
            let sub = s@.subrange(start as int, end as int);
            assert(sub.last() == s@[end - 1]);
            assert(sub.drop_last() =~= s@.subrange(start as int, end as int - 1));
        }
        end = end - 1;
    }
    proof {
        let sub = s@.subrange(start as int, end as int);
        if end > start {
            assert(sub.last() == s@[end - 1]);
            assert(sub.last() != '/');
        } else {
            assert(sub =~= Seq::<char>::empty());
        }
        assert(strip_trailing_slashes(s@.skip(start as int)) == sub);
    }
    let mut out: Vec<char> = Vec::new();
    let mut i: usize = start;
    while i < end
        invariant
            start <= i <= end <= chars@.len(),
            chars@ == s@,
            out@ == s@.subrange(start as int, i as int),
        decreases end - i,
    {
        out.push(chars[i]);
        i = i + 1;
        assert(out@ =~= s@.subrange(start as int, i as int));
    }
    let r = from_chars(&out);
    assert(r@ == trim_slashes_spec(s@));
    r
}

/// What pushing `b` onto `a` yields: `b` itself when `b` is absolute,
/// otherwise `a` and `b` with exactly one separator between them.
pub open spec fn join_spec(a: Seq<char>, b: Seq<char>) -> Seq<char> {
    if is_abs_path(b) {
        b
    } else if a.len() == 0 {
        b
    } else if a.last() == '/' {
        a + b
    } else {
        a + seq!['/'] + b
    }
}

/// Computes [`join_spec`].
pub fn path_join(a: &str, b: &str) -> (r: String)
    ensures
        r@ == join_spec(a@, b@),
{
    if is_absolute(b) {
        return String::from_str(b);
    }
    let n = a.unicode_len();
    if n == 0 {
        return String::from_str(b);
    }
    let mut r = String::from_str(a);
    if a.get_char(n - 1) != '/' {
        push_char(&mut r, '/');
        assert(r@ =~= a@ + seq!['/']);
    }
    r.append(b);
    r
}

} // verus!
