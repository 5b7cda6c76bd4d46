//! The textual form the favorites take in their backing store: one value
//! holding the names joined with `"; "`. Encoding writes that value;
//! decoding splits it back into names, an empty value meaning no favorites.

use vstd::prelude::*;

use crate::text::{lemma_views_push, seq_views};

verus! {

/// The names joined with `"; "`.
pub open spec fn joined(s: Seq<Seq<char>>) -> Seq<char>
    decreases s.len(),
{
    if s.len() == 0 {
        Seq::empty()
    } else if s.len() == 1 {
        s[0]
    } else {
        joined(s.drop_last()) + "; "@ + s.last()
    }
}

/// The separator starts at `i`.
pub open spec fn sep_at(s: Seq<char>, i: int) -> bool {
    0 <= i && i + 2 <= s.len() && s[i] == ';' && s[i + 1] == ' '
}

/// The first position where the separator starts, or -1.
pub open spec fn first_sep(s: Seq<char>) -> int
    decreases s.len(),
{
    if s.len() < 2 {
        -1
    } else if s[0] == ';' && s[1] == ' ' {
        0
    } else if first_sep(s.skip(1)) < 0 {
        -1
    } else {
        first_sep(s.skip(1)) + 1
    }
}

proof fn lemma_first_sep_bounds(s: Seq<char>)
    ensures
        first_sep(s) == -1 || (0 <= first_sep(s) && first_sep(s) + 2 <= s.len() && sep_at(
            s,
            first_sep(s),
        )),
    decreases s.len(),
{
    if s.len() >= 2 && !(s[0] == ';' && s[1] == ' ') {
        lemma_first_sep_bounds(s.skip(1));
    }
}

/// The first separator is where the scan finds it: at `k`, with none
/// before.
proof fn lemma_first_sep_at(s: Seq<char>, k: int)
    requires
        sep_at(s, k),
        forall|j: int| 0 <= j < k ==> !sep_at(s, j),
    ensures
        first_sep(s) == k,
    decreases s.len(),
{
    if k == 0 {
    } else {
        assert(!sep_at(s, 0));
        assert(sep_at(s.skip(1), k - 1));
        assert forall|j: int| 0 <= j < k - 1 implies !sep_at(s.skip(1), j) by {
            assert(!sep_at(s, j + 1));
        }
        lemma_first_sep_at(s.skip(1), k - 1);
    }
}

/// No separator anywhere means the scan finds none.
proof fn lemma_first_sep_none(s: Seq<char>)
    requires
        forall|j: int| !sep_at(s, j),
    ensures
        first_sep(s) == -1,
    decreases s.len(),
{
    if s.len() >= 2 {
        assert(!sep_at(s, 0));
        assert forall|j: int| !sep_at(s.skip(1), j) by {
            if 0 <= j {
                assert(!sep_at(s, j + 1));
            }
        }
        lemma_first_sep_none(s.skip(1));
    }
}

/// The value split at every separator, left to right.
pub open spec fn split_all(s: Seq<char>) -> Seq<Seq<char>>
    decreases s.len(),
    via split_all_decreases
{
    let i = first_sep(s);
    if i < 0 {
        seq![s]
    } else {
        seq![s.take(i)] + split_all(s.skip(i + 2))
    }
}

#[via_fn]
proof fn split_all_decreases(s: Seq<char>) {
    lemma_first_sep_bounds(s);
}

/// The names a stored value decodes to: none for the empty value, else the
/// value split at every separator.
pub open spec fn decoded_names(s: Seq<char>) -> Seq<Seq<char>> {
    if s.len() == 0 {
        Seq::empty()
    } else {
        split_all(s)
    }
}

/// The separator appears nowhere in the name.
pub open spec fn sep_free(n: Seq<char>) -> bool {
    forall|j: int| !sep_at(n, j)
}

/// Joining peels from the left as well: the first name, the separator,
/// then the rest joined.
proof fn lemma_joined_left(s: Seq<Seq<char>>)
    requires
        s.len() >= 2,
    ensures
        joined(s) == s[0] + "; "@ + joined(s.skip(1)),
    decreases s.len(),
{
    if s.len() == 2 {
        assert(s.drop_last() =~= seq![s[0]]);
        assert(s.skip(1) =~= seq![s[1]]);
        assert(joined(seq![s[0]]) == s[0]);
        assert(joined(seq![s[1]]) == s[1]);
        assert(joined(s) =~= s[0] + "; "@ + joined(s.skip(1)));
    } else {
        lemma_joined_left(s.drop_last());
        assert(s.skip(1).drop_last() =~= s.drop_last().skip(1));
        assert(s.skip(1).last() == s.last());
        assert(joined(s.skip(1)) == joined(s.drop_last().skip(1)) + "; "@ + s.last());
        assert(joined(s) =~= s[0] + "; "@ + joined(s.skip(1)));
    }
}

/// Splitting undoes joining, name by name.
proof fn lemma_split_joined(s: Seq<Seq<char>>)
    requires
        s.len() >= 1,
        forall|i: int| 0 <= i < s.len() ==> (#[trigger] s[i]).len() > 0 && sep_free(s[i]),
    ensures
        split_all(joined(s)) == s,
    decreases s.len(),
{
    if s.len() == 1 {
        assert(joined(s) == s[0]);
        lemma_first_sep_none(s[0]);
        assert(split_all(joined(s)) =~= s);
    } else {
        reveal_strlit("; ");
        lemma_joined_left(s);
        let t = joined(s);
        let n = s[0].len() as int;
        assert(t[n] == ';' && t[n + 1] == ' ');
        assert(sep_at(t, n));
        assert forall|j: int| 0 <= j < n implies !sep_at(t, j) by {
            if j + 1 < n {
                assert(t[j] == s[0][j] && t[j + 1] == s[0][j + 1]);
                assert(!sep_at(s[0], j));
            } else {
                assert(t[j + 1] == ';');
            }
        }
        lemma_first_sep_at(t, n);
        assert(t.take(n) =~= s[0]);
        assert(t.skip(n + 2) =~= joined(s.skip(1)));
        assert forall|i: int| 0 <= i < s.skip(1).len() implies (#[trigger] s.skip(1)[i]).len() > 0
            && sep_free(s.skip(1)[i]) by {
            assert(s.skip(1)[i] == s[i + 1]);
        }
        lemma_split_joined(s.skip(1));
        assert(split_all(t) == seq![s[0]] + s.skip(1));
        assert(split_all(t) =~= s);
    }
}

/// Round trip of the favorites codec: decoding an encoded value returns
/// exactly the names that were encoded, for any list of names that are
/// non-empty and do not contain the separator. A name holding `"; "`
/// cannot survive the joined form, so it is left out here.
pub proof fn lemma_codec_round_trip(s: Seq<Seq<char>>)
    requires
        forall|i: int| 0 <= i < s.len() ==> (#[trigger] s[i]).len() > 0 && sep_free(s[i]),
    ensures
        decoded_names(joined(s)) == s,
{
    if s.len() == 0 {
        assert(decoded_names(joined(s)) =~= s);
    } else {
        if s.len() == 1 {
            assert(joined(s).len() > 0);
        } else {
            lemma_joined_left(s);
            assert(joined(s).len() > 0);
        }
        lemma_split_joined(s);
    }
}

/// Encodes the names as the backing store's single value.
pub fn encode_favorites(names: &Vec<String>) -> (r: String)
    ensures
        r@ == joined(seq_views(names@)),
{
    let mut out = String::new();
    let mut k: usize = 0;
    proof {
        assert(seq_views(names@).take(0) =~= Seq::<Seq<char>>::empty());
    }
    while k < names.len()
        invariant
            k <= names@.len(),
            out@ == joined(seq_views(names@).take(k as int)),
        decreases names@.len() - k,
    {
        if k > 0 {
            out.append("; ");
        }
        out.append(names[k].as_str());
        proof {
            let vs = seq_views(names@);
            assert(vs.take(k + 1).drop_last() =~= vs.take(k as int));
            assert(vs.take(k + 1).last() == vs[k as int]);
            if k == 0 {
                assert(out@ =~= joined(vs.take(1)));
            } else {
                assert(out@ =~= joined(vs.take(k as int)) + "; "@ + vs[k as int]);
            }
        }
        k += 1;
    }
    proof {
        assert(seq_views(names@).take(names@.len() as int) =~= seq_views(names@));
    }
    out
}

/// Decodes the backing store's value back into names.
pub fn decode_favorites(s: &str) -> (r: Vec<String>)
    ensures
        seq_views(r@) == decoded_names(s@),
{
    let n = s.unicode_len();
    let mut out: Vec<String> = Vec::new();
    if n == 0 {
        proof {
            assert(seq_views(out@) =~= decoded_names(s@));
        }
        return out;
    }
    let mut start: usize = 0;
    let mut i: usize = 0;
    proof {
        assert(s@.skip(0) =~= s@);
    }
    while i < n - 1
        invariant
            n == s@.len(),
            n >= 1,
            start <= i <= n,
            start <= n,
            forall|j: int| start <= j < i ==> !sep_at(s@, j),
            split_all(s@) == seq_views(out@) + split_all(s@.skip(start as int)),
        decreases n - i,
    {
        if s.get_char(i) == ';' && s.get_char(i + 1) == ' ' {
            let piece = s.substring_char(start, i);
            let ghost ov = out@;
            out.push(piece.to_owned());
            proof {
                lemma_views_push(ov, out@.last());
                let rest = s@.skip(start as int);
                assert(sep_at(rest, i - start));
                assert forall|j: int| 0 <= j < i - start implies !sep_at(rest, j) by {
                    assert(!sep_at(s@, j + start));
                }
                lemma_first_sep_at(rest, i - start);
                assert(rest.take(i - start) =~= s@.subrange(start as int, i as int));
                assert(rest.skip(i - start + 2) =~= s@.skip(i + 2));
                assert(split_all(rest) == seq![rest.take(i - start)] + split_all(
                    s@.skip(i + 2),
                ));
                assert(seq_views(out@) =~= seq_views(ov).push(
                    s@.subrange(start as int, i as int),
                ));
                assert(split_all(s@) == seq_views(out@) + split_all(s@.skip(i + 2)));
            }
            start = i + 2;
            i = start;
        } else {
            i += 1;
        }
    }
    // no separator from start on: the rest is the last name
    let last = s.substring_char(start, n);
    let ghost ov = out@;
    out.push(last.to_owned());
    proof {
        lemma_views_push(ov, out@.last());
        let rest = s@.skip(start as int);
        assert forall|j: int| !sep_at(rest, j) by {
            if 0 <= j && j + 2 <= rest.len() {
                assert(!sep_at(s@, j + start));
            }
        }
        lemma_first_sep_none(rest);
        assert(rest =~= s@.subrange(start as int, n as int));
        assert(split_all(rest) == seq![rest]);
        assert(seq_views(out@) =~= decoded_names(s@));
    }
    out
}

} // verus!
