//! The Argument Filter: shape-checks an rsync server invocation and
//! strips the two flags that would let the remote peer delete files on
//! the backup source.
//!
//! Only a `--server --sender` invocation — rsync serving files to a
//! puller, read-only — is ever allowed through, so everything else in
//! the token list is passed on verbatim; the `--remove-sent-files` and
//! `--remove-source-files` flags are dropped wherever they appear,
//! because they would defeat the one-way pull model.

use vstd::prelude::*;

use crate::errors::{DoppelbackError, SpecError};
use crate::fsops::canonicalize_path;
use crate::pathmodel::{
    canonical_shaped, dotdot_seg, is_abs_path, is_absolute, kept_segments,
    lemma_canonical_equal_no_traversal, path_eq, paths_equal,
};
use crate::strutil::str_eq;

verus! {

/// The fewest tokens an rsync server invocation can have.
pub const MIN_RSYNC_ARGS: usize = 5;

/// The flags the filter drops: either lets the peer delete files on the
/// source.
pub open spec fn is_dropped_token(t: Seq<char>) -> bool {
    t == "--remove-sent-files"@ || t == "--remove-source-files"@
}

/// The predicate the filter keeps tokens by.
pub open spec fn kept_pred() -> spec_fn(Seq<char>) -> bool {
    |t: Seq<char>| !is_dropped_token(t)
}

/// What the Argument Filter returns for any token list: a rejection for
/// short or misshapen lists, otherwise every token in order with the
/// two unsafe flags dropped.
pub open spec fn spec_filter_args(args: Seq<Seq<char>>) -> Result<Seq<Seq<char>>, SpecError> {
    if args.len() < MIN_RSYNC_ARGS as int {
        Result::Err(SpecError::TooFewArguments)
    } else if args[0] != "--server"@ {
        Result::Err(SpecError::UnexpectedShape)
    } else if args[1] != "--sender"@ {
        Result::Err(SpecError::UnexpectedShape)
    } else {
        Result::Ok(args.filter(kept_pred()))
    }
}

/// Validates and filters the token list of an rsync server invocation.
///
/// Token lists shorter than [`MIN_RSYNC_ARGS`] are rejected as
/// `TooFewArguments`; lists whose first two tokens are not exactly
/// `--server`, `--sender` are rejected as `UnexpectedShape`.  On
/// success the output is the input with the unsafe flags dropped and
/// the order of everything else preserved.
pub fn filter_args(args: &Vec<String>) -> (r: Result<Vec<String>, DoppelbackError>)
    ensures
        match r {
            Result::Ok(f) => spec_filter_args(args.deep_view()) == Result::Ok::<
                Seq<Seq<char>>,
                SpecError,
            >(f.deep_view()),
            Result::Err(e) => spec_filter_args(args.deep_view()) == Result::Err::<
                Seq<Seq<char>>,
                SpecError,
            >(e@),
        },
{
    if args.len() < MIN_RSYNC_ARGS {
        return Result::Err(DoppelbackError::TooFewArguments);
    }
    assert(args.deep_view().len() == args@.len());
    assert(args.deep_view()[0] == args@[0]@);
    assert(args.deep_view()[1] == args@[1]@);
    if !str_eq(args[0].as_str(), "--server") {
        return Result::Err(DoppelbackError::UnexpectedShape);
    }
    if !str_eq(args[1].as_str(), "--sender") {
        return Result::Err(DoppelbackError::UnexpectedShape);
    }
    let ghost p = kept_pred();
    let mut filtered: Vec<String> = Vec::new();
    let mut i: usize = 0;
    proof {
        reveal(Seq::filter);
        assert(args.deep_view().take(0).filter(p) =~= Seq::<Seq<char>>::empty());
        assert(filtered.deep_view() =~= args.deep_view().take(0).filter(p));
    }
    while i < args.len()
        invariant
            i <= args@.len(),
            args.deep_view().len() == args@.len(),
            forall|k: int| 0 <= k < args@.len() ==> args.deep_view()[k] == #[trigger] args@[k]@,
            p == kept_pred(),
            filtered.deep_view() == args.deep_view().take(i as int).filter(p),
        decreases args@.len() - i,
    {
        let ghost before = args.deep_view().take(i as int).filter(p);
        proof {
            reveal(Seq::filter);
            assert(args.deep_view().take(i as int + 1).drop_last() =~= args.deep_view().take(
                i as int,
            ));
            assert(args.deep_view().take(i as int + 1).last() == args@[i as int]@);
        }
        let dropped = str_eq(args[i].as_str(), "--remove-sent-files") || str_eq(
            args[i].as_str(),
            "--remove-source-files",
        );
        if !dropped {
            assert(p(args@[i as int]@));
            let ghost old_f = filtered.deep_view();
            let tok = args[i].clone();
            filtered.push(tok);
            proof {
                assert(filtered.deep_view() =~= old_f + seq![args@[i as int]@]);
                assert(args.deep_view().take(i as int + 1).filter(p) == before.push(
                    args@[i as int]@,
                ));
                assert(before.push(args@[i as int]@) =~= before + seq![args@[i as int]@]);
            }
        } else {
            assert(!p(args@[i as int]@));
            assert(args.deep_view().take(i as int + 1).filter(p) == before);
        }
        i = i + 1;
    }
    proof {
        assert(args.deep_view().take(args@.len() as int) =~= args.deep_view());
    }
    Result::Ok(filtered)
}

/// Every token the filter emits survived the keep predicate: the two
/// removal flags never appear in any successful output, wherever they
/// stood in the input.
pub proof fn lemma_filter_never_emits_unsafe(args: Seq<Seq<char>>, out: Seq<Seq<char>>)
    requires
        spec_filter_args(args) == Result::Ok::<Seq<Seq<char>>, SpecError>(out),
    ensures
        forall|i: int|
            0 <= i < out.len() ==> #[trigger] out[i] != "--remove-sent-files"@ && out[i]
                != "--remove-source-files"@,
{
    assert(out == args.filter(kept_pred()));
    assert forall|i: int| 0 <= i < out.len() implies #[trigger] out[i] != "--remove-sent-files"@
        && out[i] != "--remove-source-files"@ by {
        args.lemma_filter_pred(kept_pred(), i);
    }
}

/// Filtering keeps the head of the list when the head is kept.
proof fn lemma_filter_head<A>(s: Seq<A>, p: spec_fn(A) -> bool)
    requires
        s.len() > 0,
        p(s[0]),
    ensures
        s.filter(p) == seq![s[0]] + s.drop_first().filter(p),
    decreases s.len(),
{
    reveal(Seq::filter);
    if s.len() == 1 {
        assert(s.drop_last() =~= Seq::<A>::empty());
        assert(s.drop_first() =~= Seq::<A>::empty());
        assert(s.filter(p) =~= seq![s[0]] + s.drop_first().filter(p));
    } else {
        let head = s.drop_last();
        lemma_filter_head(head, p);
        assert(head.drop_first() =~= s.drop_first().drop_last());
        assert(s.drop_first().last() == s.last());
        if p(s.last()) {
            assert(s.filter(p) == head.filter(p).push(s.last()));
            assert(s.drop_first().filter(p) == s.drop_first().drop_last().filter(p).push(s.last()));
            assert((seq![s[0]] + s.drop_first().drop_last().filter(p)).push(s.last()) =~= seq![
                s[0],
            ] + s.drop_first().drop_last().filter(p).push(s.last()));
        } else {
            assert(s.filter(p) == head.filter(p));
            assert(s.drop_first().filter(p) == s.drop_first().drop_last().filter(p));
        }
    }
}

/// Filtering twice filters once.
proof fn lemma_filter_idem<A>(s: Seq<A>, p: spec_fn(A) -> bool)
    ensures
        s.filter(p).filter(p) == s.filter(p),
    decreases s.len(),
{
    reveal(Seq::filter);
    if s.len() == 0 {
        assert(s.filter(p) =~= Seq::<A>::empty());
    } else {
        let t = s.drop_last().filter(p);
        lemma_filter_idem(s.drop_last(), p);
        if p(s.last()) {
            assert(s.filter(p) == t.push(s.last()));
            assert(t.push(s.last()).drop_last() =~= t);
            assert(t.push(s.last()).filter(p) == t.filter(p).push(s.last()));
        } else {
            assert(s.filter(p) == t);
        }
    }
}

/// Filtering an already-filtered list changes nothing: the filter
/// passes its own checks on its own output (as long as the output is
/// still long enough) and drops nothing further, so the relative order
/// of the kept tokens is exactly the order they arrived in.
///
/// The length premise cannot be dropped: a list such as
/// `--server --sender --remove-sent-files --remove-source-files x`
/// filters to three tokens, which the shape check then rejects.
pub proof fn lemma_filter_idempotent(args: Seq<Seq<char>>, out: Seq<Seq<char>>)
    requires
        spec_filter_args(args) == Result::Ok::<Seq<Seq<char>>, SpecError>(out),
        out.len() >= MIN_RSYNC_ARGS as int,
    ensures
        spec_filter_args(out) == Result::Ok::<Seq<Seq<char>>, SpecError>(out),
{
    let p = kept_pred();
    assert(out == args.filter(p));
    assert(args[0] == "--server"@ && args[1] == "--sender"@);
    assert(p(args[0]) && p(args[1])) by {
        reveal_strlit("--server");
        reveal_strlit("--sender");
        reveal_strlit("--remove-sent-files");
        reveal_strlit("--remove-source-files");
        assert("--server"@.len() == 8);
        assert("--sender"@.len() == 8);
        assert("--remove-sent-files"@.len() == 19);
        assert("--remove-source-files"@.len() == 21);
        assert(!is_dropped_token("--server"@));
        assert(!is_dropped_token("--sender"@));
    }
    lemma_filter_head(args, p);
    assert(out[0] == args[0]);
    let rest = args.drop_first();
    assert(rest[0] == args[1]);
    lemma_filter_head(rest, p);
    assert(out == seq![args[0]] + (seq![args[1]] + rest.drop_first().filter(p)));
    assert(out[1] == (seq![args[1]] + rest.drop_first().filter(p))[0]);
    assert(out[1] == args[1]);
    lemma_filter_idem(args, p);
    assert(out.filter(p) == out);
}

/// `m` lists, strictly increasing, the input positions the tokens of
/// `out` came from: `out` is `s` with some tokens dropped and nothing
/// reordered.
pub open spec fn is_order_embedding<A>(s: Seq<A>, out: Seq<A>, m: Seq<int>) -> bool {
    &&& m.len() == out.len()
    &&& forall|k: int| 0 <= k < m.len() ==> 0 <= #[trigger] m[k] < s.len() && out[k] == s[m[k]]
    &&& forall|k: int| 0 <= k && k + 1 < m.len() ==> #[trigger] m[k] < m[k + 1]
}

#[verifier::rlimit(30)]
proof fn lemma_filter_order_embedding<A>(s: Seq<A>, p: spec_fn(A) -> bool)
    ensures
        exists|m: Seq<int>| is_order_embedding(s, s.filter(p), m),
    decreases s.len(),
{
    reveal(Seq::filter);
    if s.len() == 0 {
        assert(s.filter(p) =~= Seq::<A>::empty());
        assert(is_order_embedding(s, s.filter(p), Seq::<int>::empty()));
    } else {
        let head = s.drop_last();
        lemma_filter_order_embedding(head, p);
        let m0 = choose|m: Seq<int>| is_order_embedding(head, head.filter(p), m);
        assert(forall|k: int| 0 <= k < m0.len() ==> 0 <= #[trigger] m0[k] < head.len());
        assert(forall|k: int|
            0 <= k < m0.len() ==> head.filter(p)[k] == head[#[trigger] m0[k]] && head[m0[k]]
                == s[m0[k]]);
        if p(s.last()) {
            let m = m0.push(s.len() - 1);
            assert(s.filter(p) == head.filter(p).push(s.last()));
            assert forall|k: int| 0 <= k < m.len() implies 0 <= #[trigger] m[k] < s.len()
                && s.filter(p)[k] == s[m[k]] by {
                if k < m0.len() {
                    assert(m[k] == m0[k]);
                    assert(s.filter(p)[k] == head.filter(p)[k]);
                    assert(s[m0[k]] == head[m0[k]]);
                } else {
                    assert(k == m.len() - 1);
                    assert(m[k] == s.len() - 1);
                    assert(s.filter(p)[k] == s.last());
                }
            }
            assert forall|k: int| 0 <= k && k + 1 < m.len() implies #[trigger] m[k] < m[k
                + 1] by {
                if k + 1 < m0.len() {
                    assert(m[k] == m0[k] && m[k + 1] == m0[k + 1]);
                } else {
                    assert(k + 1 == m.len() - 1);
                    assert(m[k] == m0[k]);
                    assert(m0[k] < head.len());
                }
            }
            assert(is_order_embedding(s, s.filter(p), m));
        } else {
            assert(s.filter(p) == head.filter(p));
            assert(is_order_embedding(s, s.filter(p), m0));
        }
    }
}

/// The filter preserves the relative order of every token it keeps:
/// each successful output is the input with some tokens dropped and
/// none moved.
pub proof fn lemma_filter_preserves_order(args: Seq<Seq<char>>, out: Seq<Seq<char>>)
    requires
        spec_filter_args(args) == Result::Ok::<Seq<Seq<char>>, SpecError>(out),
    ensures
        exists|m: Seq<int>| is_order_embedding(args, out, m),
{
    lemma_filter_order_embedding(args, kept_pred());
}

/// The first absolute-looking token of a list: the argument the
/// escalation guard treats as the transfer's source path.
pub open spec fn first_abs_token(args: Seq<Seq<char>>) -> Option<Seq<char>>
    decreases args.len(),
{
    if args.len() == 0 {
        Option::None
    } else if is_abs_path(args[0]) {
        Option::Some(args[0])
    } else {
        first_abs_token(args.drop_first())
    }
}

/// A found first token is itself absolute.
pub proof fn lemma_first_abs_token_abs(args: Seq<Seq<char>>)
    ensures
        match first_abs_token(args) {
            Option::Some(t) => is_abs_path(t),
            Option::None => true,
        },
    decreases args.len(),
{
    if args.len() > 0 && !is_abs_path(args[0]) {
        lemma_first_abs_token_abs(args.drop_first());
    }
}

/// The canonical-form re-check has passed for `args`: the first
/// absolute token names the same location as some canonically shaped —
/// absolute and traversal-free — path.
pub open spec fn source_path_checked(args: Seq<Seq<char>>) -> bool {
    exists|c: Seq<char>|
        #[trigger] path_eq(first_abs_token(args)->0, c) && canonical_shaped(c)
}

/// An accepted source token carries no parent-directory traversal: the
/// defence-in-depth the escalation guard's re-check exists for.
pub proof fn lemma_checked_source_has_no_traversal(args: Seq<Seq<char>>)
    requires
        first_abs_token(args) is Some,
        source_path_checked(args),
    ensures
        forall|i: int|
            0 <= i < kept_segments(first_abs_token(args)->0).len() ==> #[trigger] kept_segments(
                first_abs_token(args)->0,
            )[i] != dotdot_seg(),
{
    let t = first_abs_token(args)->0;
    lemma_first_abs_token_abs(args);
    let c = choose|c: Seq<char>| #[trigger] path_eq(t, c) && canonical_shaped(c);
    lemma_canonical_equal_no_traversal(t, c);
}

/// Re-checks the source path an rsync invocation names, as the
/// escalation guard demands: the first token that looks like an absolute
/// path must exist and must already be spelled in canonical form.
///
/// With no absolute token, or one that does not canonicalize, the check
/// fails with `NotFound`; a token whose canonical form differs from its
/// literal form (a traversal sequence, a symlink) fails with
/// `InvalidPath` carrying that token.  Whether a given token
/// canonicalizes depends on the filesystem, so success is not promised
/// here; what is promised is that success implies the first absolute
/// token is component-equal to a canonically shaped path — so, by
/// [`lemma_checked_source_has_no_traversal`], it carries no `..`
/// component — and that only those two rejections can come back.
pub fn check_source_path(args: &Vec<String>) -> (r: Result<(), DoppelbackError>)
    ensures
        first_abs_token(args.deep_view()) is None ==> (r matches Result::Err(e) && e@
            == SpecError::NotFound),
        r is Ok ==> first_abs_token(args.deep_view()) is Some && source_path_checked(
            args.deep_view(),
        ),
        (match r {
            Result::Err(e) => match e@ {
                SpecError::NotFound => true,
                SpecError::InvalidPath(p) => first_abs_token(args.deep_view())
                    == Option::Some(p),
                _ => false,
            },
            Result::Ok(_) => true,
        }),
{
    let ghost whole = args.deep_view();
    let mut i: usize = 0;
    proof {
        assert(whole.skip(0) =~= whole);
    }
    while i < args.len()
        invariant
            i <= args@.len(),
            whole == args.deep_view(),
            whole.len() == args@.len(),
            forall|k: int| 0 <= k < args@.len() ==> whole[k] == #[trigger] args@[k]@,
            first_abs_token(whole) == first_abs_token(whole.skip(i as int)),
            forall|k: int| 0 <= k < i ==> !is_abs_path(whole[k]),
        decreases args@.len() - i,
    {
        proof {
            assert(whole.skip(i as int)[0] == whole[i as int]);
            assert(whole.skip(i as int).drop_first() =~= whole.skip(i as int + 1));
        }
        if is_absolute(args[i].as_str()) {
            assert(first_abs_token(whole) == Option::Some(whole[i as int]));
            let canon = canonicalize_path(args[i].as_str());
            match canon {
                Option::None => {
                    return Result::Err(DoppelbackError::NotFound);
                },
                Option::Some(c) => {
                    if paths_equal(args[i].as_str(), c.as_str()) {
                        proof {
                            assert(path_eq(first_abs_token(whole)->0, c@) && canonical_shaped(
                                c@,
                            ));
                            assert(source_path_checked(whole));
                        }
                        return Result::Ok(());
                    } else {
                        return Result::Err(DoppelbackError::InvalidPath(args[i].clone()));
                    }
                },
            }
        }
        i = i + 1;
    }
    proof {
        assert(whole.skip(args@.len() as int) =~= Seq::<Seq<char>>::empty());
    }
    Result::Err(DoppelbackError::NotFound)
}

} // verus!
