//! Splitting and joining address text on the `/` separator, with the proof
//! that the two are inverse on separator-free segments.

use crate::keyed::{first_index_where, lemma_first_index_where, lemma_first_index_where_is};
use vstd::assert_seqs_equal;
use vstd::prelude::*;

verus! {

/// The segment holds no separator character.
pub open spec fn no_sep(s: Seq<char>) -> bool {
    forall|k: int| 0 <= k < s.len() ==> s[k] != '/'
}

/// Index of the first separator, `-1` when there is none.
pub open spec fn first_sep(s: Seq<char>) -> int {
    first_index_where(s, |c: char| c == '/')
}

/// The segments of `s` between separators: always at least one segment,
/// and one more than there are separators.
pub open spec fn split_at_seps(s: Seq<char>) -> Seq<Seq<char>>
    decreases s.len(),
{
    let i = first_sep(s);
    if 0 <= i < s.len() {
        seq![s.take(i)] + split_at_seps(s.skip(i + 1))
    } else {
        seq![s]
    }
}

/// The segments joined back with one separator between neighbours.
pub open spec fn join_with_sep(segs: Seq<Seq<char>>) -> Seq<char>
    decreases segs.len(),
{
    if segs.len() == 0 {
        Seq::<char>::empty()
    } else if segs.len() == 1 {
        segs[0]
    } else {
        segs[0] + seq!['/'] + join_with_sep(segs.drop_first())
    }
}

/// A separator-free text is one single segment.
pub proof fn lemma_split_no_sep(s: Seq<char>)
    requires
        no_sep(s),
    ensures
        split_at_seps(s) == seq![s],
{
    let p = |c: char| c == '/';
    lemma_first_index_where(s, p);
    if first_sep(s) >= 0 {
        assert(p(s[first_sep(s)]));
    }
}

/// The first separator of `a + "/" + r` sits right after `a`.
pub proof fn lemma_first_sep_of_concat(a: Seq<char>, r: Seq<char>)
    requires
        no_sep(a),
    ensures
        first_sep(a + seq!['/'] + r) == a.len(),
{
    let p = |c: char| c == '/';
    let s = a + seq!['/'] + r;
    assert(p(s[a.len() as int]));
    assert forall|k: int| 0 <= k < a.len() implies !p(s[k]) by {
        assert(s[k] == a[k]);
    }
    lemma_first_index_where_is(s, p, a.len() as int);
}

/// Splitting after a leading separator-free segment peels that segment off.
pub proof fn lemma_split_of_concat(a: Seq<char>, r: Seq<char>)
    requires
        no_sep(a),
    ensures
        split_at_seps(a + seq!['/'] + r) == seq![a] + split_at_seps(r),
{
    let s = a + seq!['/'] + r;
    lemma_first_sep_of_concat(a, r);
    assert_seqs_equal!(s.take(a.len() as int) == a);
    assert_seqs_equal!(s.skip(a.len() as int + 1) == r);
}

/// Joining then appending one more segment adds a separator and the segment.
pub proof fn lemma_join_push(segs: Seq<Seq<char>>, x: Seq<char>)
    requires
        segs.len() >= 1,
    ensures
        join_with_sep(segs.push(x)) == join_with_sep(segs) + seq!['/'] + x,
    decreases segs.len(),
{
    if segs.len() == 1 {
        assert(segs.push(x).drop_first() =~= seq![x]);
        assert(join_with_sep(seq![x]) == x);
        assert(segs.push(x)[0] == segs[0]);
        assert(join_with_sep(segs.push(x)) == segs[0] + seq!['/'] + x);
    } else {
        assert(segs.push(x).drop_first() =~= segs.drop_first().push(x));
        lemma_join_push(segs.drop_first(), x);
        assert_seqs_equal!(
            segs[0] + seq!['/'] + (join_with_sep(segs.drop_first()) + seq!['/'] + x)
            == (segs[0] + seq!['/'] + join_with_sep(segs.drop_first())) + seq!['/'] + x
        );
    }
}

/// Splitting undoes joining, for at least one separator-free segment.
pub proof fn lemma_split_join(segs: Seq<Seq<char>>)
    requires
        segs.len() >= 1,
        forall|i: int| 0 <= i < segs.len() ==> no_sep(#[trigger] segs[i]),
    ensures
        split_at_seps(join_with_sep(segs)) == segs,
    decreases segs.len(),
{
    if segs.len() == 1 {
        lemma_split_no_sep(segs[0]);
        assert(seq![segs[0]] =~= segs);
    } else {
        let rest = segs.drop_first();
        assert(forall|i: int| 0 <= i < rest.len() ==> no_sep(#[trigger] rest[i]));
        lemma_split_join(rest);
        lemma_split_of_concat(segs[0], join_with_sep(rest));
        assert(seq![segs[0]] + rest =~= segs);
    }
}


/// Two texts hold the same characters.
pub(crate) fn str_equal(a: &str, b: &str) -> (r: bool)
    ensures
        r == (a@ == b@),
{
    let sa = a.to_owned();
    let sb = b.to_owned();
    sa.eq(&sb)
}

/// Index of the first separator in `s`, or `None` when there is none.
fn find_sep(s: &str) -> (r: Option<usize>)
    ensures
        match r {
            Some(i) => i == first_sep(s@) && i < s@.len(),
            None => first_sep(s@) < 0 && no_sep(s@),
        },
{
    let ghost p = |c: char| c == '/';
    let n = s.unicode_len();
    let mut i: usize = 0;
    while i < n
        invariant
            i <= n,
            forall|k: int| 0 <= k < i ==> !p(s@[k]),
        decreases n - i,
    {
        if s.get_char(i) == '/' {
            proof {
                assert(p(s@[i as int]));
                lemma_first_index_where_is(s@, p, i as int);
            }
            return Some(i);
        }
        i += 1;
    }
    proof {
        lemma_first_index_where(s@, p);
        if first_sep(s@) >= 0 {
            assert(p(s@[first_sep(s@)]));
        }
    }
    None
}

/// The segments of `s` between separators, in order.
pub fn split_text(s: &str) -> (segs: Vec<String>)
    ensures
        segs@.map_values(|x: String| x@) == split_at_seps(s@),
        segs@.len() >= 1,
    decreases s@.len(),
{
    match find_sep(s) {
        None => {
            let mut v: Vec<String> = Vec::new();
            v.push(s.to_owned());
            proof {
                lemma_split_no_sep(s@);
                assert(v@.map_values(|x: String| x@) =~= seq![s@]);
            }
            v
        },
        Some(i) => {
            let n = s.unicode_len();
            let head = s.substring_char(0, i).to_owned();
            let tail = s.substring_char(i + 1, n);
            proof {
                assert(tail@ == s@.skip(i + 1));
            }
            let mut rest = split_text(tail);
            rest.insert(0, head);
            proof {
                assert(head@ == s@.take(i as int));
                assert(rest@.map_values(|x: String| x@) =~= seq![s@.take(i as int)]
                    + split_at_seps(s@.skip(i + 1)));
            }
            rest
        },
    }
}

/// The segments joined back with one separator between neighbours.
pub fn join_segments(segs: &Vec<String>) -> (r: String)
    ensures
        r@ == join_with_sep(segs@.map_values(|x: String| x@)),
{
    let ghost f = |x: String| x@;
    proof {
        reveal_strlit("/");
        assert(("/")@ =~= seq!['/']);
    }
    if segs.len() == 0 {
        let r = String::new();
        return r;
    }
    let mut out = segs[0].clone();
    let n = segs.len();
    let mut i: usize = 1;
    proof {
        assert(segs@.take(1).map_values(f) =~= seq![segs@[0]@]);
    }
    while i < n
        invariant
            1 <= i <= n,
            out@ == join_with_sep(segs@.take(i as int).map_values(f)),
        decreases n - i,
    {
        out.append("/");
        out.append(segs[i].as_str());
        proof {
            let pre = segs@.take(i as int).map_values(f);
            let now = segs@.take(i + 1 as int).map_values(f);
            assert(now.drop_last() =~= pre);
            assert(now.last() == segs@[i as int]@);
            assert(now =~= pre.push(segs@[i as int]@));
            lemma_join_push(pre, segs@[i as int]@);
        }
        i += 1;
    }
    proof {
        assert(segs@.take(n as int) =~= segs@);
    }
    out
}

} // verus!
