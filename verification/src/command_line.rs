//! Splitting a configured command line into the program name and its
//! arguments.
//!
//! The configuration file holds each switching command as one line; the
//! words between single spaces are the program and its arguments, and two
//! adjacent spaces enclose an empty word, exactly as a split on one space
//! character gives. The split works on bytes: in UTF-8 the space byte never
//! occurs inside a multi-byte character, so byte words are character words.

use vstd::prelude::*;

verus! {

/// The byte the command line is split on.
pub const SPACE: u8 = 32;

/// The words of `s` between single occurrences of the space byte, in order,
/// empty words included: one more word than there are spaces.
pub open spec fn split_words_spec(s: Seq<u8>) -> Seq<Seq<u8>>
    decreases s.len(),
{
    if s.len() == 0 {
        seq![Seq::empty()]
    } else {
        let rest = split_words_spec(s.drop_last());
        if s.last() == SPACE {
            rest.push(Seq::empty())
        } else {
            rest.update(rest.len() - 1, rest.last().push(s.last()))
        }
    }
}

/// The words joined back together with one space byte between each pair.
pub open spec fn join_spaced(parts: Seq<Seq<u8>>) -> Seq<u8>
    decreases parts.len(),
{
    if parts.len() == 0 {
        Seq::empty()
    } else if parts.len() == 1 {
        parts[0]
    } else {
        join_spaced(parts.drop_last()) + seq![SPACE] + parts.last()
    }
}

/// The byte contents of a vector of words.
pub open spec fn word_views(words: Seq<Vec<u8>>) -> Seq<Seq<u8>> {
    words.map_values(|v: Vec<u8>| v@)
}

/// There is always at least the one word before any space.
pub proof fn lemma_split_words_nonempty(s: Seq<u8>)
    ensures
        split_words_spec(s).len() >= 1,
    decreases s.len(),
{
    if s.len() > 0 {
        lemma_split_words_nonempty(s.drop_last());
    }
}

/// Law: no word of the split contains a space.
pub proof fn lemma_split_words_space_free(s: Seq<u8>, j: int)
    requires
        0 <= j < split_words_spec(s).len(),
    ensures
        !split_words_spec(s)[j].contains(SPACE),
    decreases s.len(),
{
    if s.len() == 0 {
        assert(!Seq::<u8>::empty().contains(SPACE));
    } else {
        let rest = split_words_spec(s.drop_last());
        lemma_split_words_nonempty(s.drop_last());
        if s.last() == SPACE {
            if j < rest.len() {
                lemma_split_words_space_free(s.drop_last(), j);
            } else {
                assert(!Seq::<u8>::empty().contains(SPACE));
            }
        } else {
            if j < rest.len() - 1 {
                lemma_split_words_space_free(s.drop_last(), j);
            } else {
                lemma_split_words_space_free(s.drop_last(), rest.len() - 1);
                let grown = rest.last().push(s.last());
                assert forall|k: int| 0 <= k < grown.len() implies grown[k] != SPACE by {
                    if k < grown.len() - 1 {
                        assert(rest.last()[k] != SPACE);
                    }
                }
            }
        }
    }
}

/// Law: the split is exact — the words joined back with single spaces give
/// the original line, so together with `lemma_split_words_space_free` the
/// split is the unique decomposition of the line on single spaces.
pub proof fn lemma_split_words_reassembles(s: Seq<u8>)
    ensures
        join_spaced(split_words_spec(s)) == s,
    decreases s.len(),
{
    if s.len() == 0 {
        assert(join_spaced(split_words_spec(s)) =~= s);
    } else {
        lemma_split_words_reassembles(s.drop_last());
        lemma_split_words_nonempty(s.drop_last());
        let rest = split_words_spec(s.drop_last());
        if s.last() == SPACE {
            let parts = rest.push(Seq::<u8>::empty());
            assert(parts.drop_last() =~= rest);
            assert(join_spaced(parts) == join_spaced(rest) + seq![SPACE]
                + Seq::<u8>::empty());
            assert(join_spaced(parts) =~= s);
        } else {
            let grown = rest.last().push(s.last());
            let parts = rest.update(rest.len() - 1, grown);
            if rest.len() == 1 {
                assert(join_spaced(parts) == grown);
                assert(join_spaced(rest) == rest[0]);
                assert(join_spaced(parts) =~= s);
            } else {
                assert(parts.drop_last() =~= rest.drop_last());
                assert(parts.last() == grown);
                assert(join_spaced(parts) == join_spaced(rest.drop_last()) + seq![SPACE]
                    + grown);
                assert(join_spaced(rest) == join_spaced(rest.drop_last()) + seq![SPACE]
                    + rest.last());
                assert(join_spaced(parts) =~= join_spaced(rest).push(s.last()));
                assert(join_spaced(rest).push(s.last()) =~= s);
            }
        }
    }
}

/// The words of the command line, split on single spaces: the first is the
/// program, the rest are its arguments.
pub fn split_words(line: &[u8]) -> (r: Vec<Vec<u8>>)
    ensures
        word_views(r@) == split_words_spec(line@),
        r@.len() >= 1,
{
    let mut out: Vec<Vec<u8>> = Vec::new();
    let mut cur: Vec<u8> = Vec::new();
    let n = line.len();
    let mut i: usize = 0;
    proof {
        assert(word_views(out@).push(cur@) =~= split_words_spec(line@.take(0)));
    }
    while i < n
        invariant
            i <= n,
            n == line@.len(),
            word_views(out@).push(cur@) == split_words_spec(line@.take(i as int)),
        decreases n - i,
    {
        let ghost prefix = line@.take(i as int);
        let ghost words = word_views(out@);
        let ghost cur_word = cur@;
        let b = line[i];
        if b == SPACE {
            out.push(cur);
            cur = Vec::new();
        } else {
            cur.push(b);
        }
        i = i + 1;
        proof {
            let next = line@.take(i as int);
            assert(next.drop_last() =~= prefix);
            assert(next.last() == b);
            if b == SPACE {
                assert(word_views(out@) =~= words.push(cur_word));
                assert(split_words_spec(next) == split_words_spec(prefix).push(
                    Seq::<u8>::empty(),
                ));
                assert(word_views(out@).push(cur@) =~= split_words_spec(next));
            } else {
                assert(word_views(out@) == words);
                assert(split_words_spec(prefix).last() == cur_word);
                assert(split_words_spec(next) == split_words_spec(prefix).update(
                    split_words_spec(prefix).len() - 1,
                    cur_word.push(b),
                ));
                assert(word_views(out@).push(cur@) =~= split_words_spec(next));
            }
        }
    }
    proof {
        assert(line@.take(n as int) =~= line@);
    }
    out.push(cur);
    proof {
        assert(word_views(out@) =~= split_words_spec(line@));
    }
    out
}

} // verus!
