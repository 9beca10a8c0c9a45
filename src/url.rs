//! Route paths with positional segments (`/widgets/:id`) and the URL
//! formatter generated for them.

use vstd::prelude::*;
use crate::text::{split_on, join_with, split_str, join_str, starts_with_char, drop_first, copy_str, lemma_join_split};

verus! {

/// A segment that stands for a value (`:id`).
pub open spec fn is_positional(seg: Seq<char>) -> bool {
    seg.len() > 0 && seg[0] == ':'
}

/// The segments of a route path, split at `/`.
pub open spec fn path_segments(path: Seq<char>) -> Seq<Seq<char>> {
    split_on(path, '/')
}

/// How many of the segments are positional.
pub open spec fn positional_count(segs: Seq<Seq<char>>) -> nat
    decreases segs.len(),
{
    if segs.len() == 0 {
        0
    } else {
        positional_count(segs.drop_last()) + if is_positional(segs.last()) { 1nat } else { 0nat }
    }
}

/// The names of the positional segments (without `:`), left to right.
pub open spec fn positional_names(segs: Seq<Seq<char>>) -> Seq<Seq<char>>
    decreases segs.len(),
{
    if segs.len() == 0 {
        Seq::empty()
    } else if is_positional(segs.last()) {
        positional_names(segs.drop_last()).push(segs.last().drop_first())
    } else {
        positional_names(segs.drop_last())
    }
}

/// The segments with the k-th positional one replaced by `args[k]`.
pub open spec fn fill_positional(segs: Seq<Seq<char>>, args: Seq<Seq<char>>) -> Seq<Seq<char>>
    decreases segs.len(),
{
    if segs.len() == 0 {
        Seq::empty()
    } else {
        let prev = fill_positional(segs.drop_last(), args);
        if is_positional(segs.last()) {
            prev.push(args[positional_count(segs.drop_last()) as int])
        } else {
            prev.push(segs.last())
        }
    }
}

/// The concrete URL for `path` with `args` substituted for its positional
/// segments in left-to-right order.
pub open spec fn format_url_spec(path: Seq<char>, args: Seq<Seq<char>>) -> Seq<char> {
    join_with(fill_positional(path_segments(path), args), seq!['/'])
}

proof fn lemma_fill_identity(segs: Seq<Seq<char>>, args: Seq<Seq<char>>)
    requires
        positional_count(segs) == 0,
    ensures
        fill_positional(segs, args) == segs,
    decreases segs.len(),
{
    if segs.len() > 0 {
        lemma_fill_identity(segs.drop_last(), args);
        assert(segs.drop_last().push(segs.last()) =~= segs);
    }
}

/// A path without positional segments formats to itself, whatever the
/// arguments.
pub proof fn lemma_format_url_literal(path: Seq<char>, args: Seq<Seq<char>>)
    requires
        positional_count(path_segments(path)) == 0,
    ensures
        format_url_spec(path, args) == path,
{
    lemma_fill_identity(path_segments(path), args);
    lemma_join_split(path, '/');
}

/// The names of the positional segments of `path`, left to right.
pub fn url_params(path: &str) -> (r: Vec<String>)
    ensures
        r.deep_view() == positional_names(path_segments(path@)),
        r@.len() == positional_count(path_segments(path@)),
{
    let segs = split_str(path, '/');
    let mut r: Vec<String> = Vec::new();
    let mut i: usize = 0;
    while i < segs.len()
        invariant
            i <= segs.len(),
            r.deep_view() == positional_names(segs.deep_view().subrange(0, i as int)),
            r@.len() == positional_count(segs.deep_view().subrange(0, i as int)),
        decreases segs.len() - i,
    {
        proof {
            let q = segs.deep_view().subrange(0, i as int + 1);
            assert(q.drop_last() =~= segs.deep_view().subrange(0, i as int));
        }
        if starts_with_char(segs[i].as_str(), ':') {
            let ghost prev = r.deep_view();
            let name = copy_str(drop_first(segs[i].as_str()));
            r.push(name);
            assert(r.deep_view() =~= prev.push(segs.deep_view()[i as int].drop_first()));
        }
        i = i + 1;
    }
    assert(segs.deep_view().subrange(0, segs.len() as int) =~= segs.deep_view());
    r
}

/// The concrete URL: each positional segment of `path` replaced, left to
/// right, by the next of `args`; a path without positional segments comes
/// back unchanged.
pub fn format_url(path: &str, args: &Vec<String>) -> (r: String)
    requires
        args@.len() == positional_count(path_segments(path@)),
    ensures
        r@ == format_url_spec(path@, args.deep_view()),
{
    let segs = split_str(path, '/');
    let ghost av = args.deep_view();
    let mut out: Vec<String> = Vec::new();
    let mut i: usize = 0;
    let mut k: usize = 0;
    while i < segs.len()
        invariant
            i <= segs.len(),
            segs.deep_view() == path_segments(path@),
            av == args.deep_view(),
            k == positional_count(segs.deep_view().subrange(0, i as int)),
            positional_count(segs.deep_view()) == args@.len(),
            out.deep_view() == fill_positional(segs.deep_view().subrange(0, i as int), av),
        decreases segs.len() - i,
    {
        proof {
            let q = segs.deep_view().subrange(0, i as int + 1);
            assert(q.drop_last() =~= segs.deep_view().subrange(0, i as int));
            lemma_count_prefix(segs.deep_view(), i as int + 1);
        }
        let ghost prev = out.deep_view();
        if starts_with_char(segs[i].as_str(), ':') {
            assert(segs.deep_view()[i as int] == segs@[i as int]@);
            assert(k < args.len());
            out.push(copy_str(args[k].as_str()));
            k = k + 1;
        } else {
            out.push(copy_str(segs[i].as_str()));
        }
        assert(out.deep_view() =~= fill_positional(segs.deep_view().subrange(0, i as int + 1), av));
        i = i + 1;
    }
    assert(segs.deep_view().subrange(0, segs.len() as int) =~= segs.deep_view());
    proof {
        reveal_strlit("/");
        assert("/"@ =~= seq!['/']);
    }
    join_str(&out, "/")
}

proof fn lemma_count_prefix(segs: Seq<Seq<char>>, j: int)
    requires
        0 <= j <= segs.len(),
    ensures
        positional_count(segs.subrange(0, j)) <= positional_count(segs),
        j < segs.len() ==> positional_count(segs.subrange(0, j)) + (if is_positional(segs[j]) { 1nat } else { 0nat }) <= positional_count(segs),
    decreases segs.len() - j,
{
    if j < segs.len() {
        lemma_count_prefix(segs, j + 1);
        let q = segs.subrange(0, j + 1);
        assert(q.drop_last() =~= segs.subrange(0, j));
    } else {
        assert(segs.subrange(0, j) =~= segs);
    }
}

} // verus!
