//! Splitting a command line into words separated by single spaces.

use vstd::prelude::*;

verus! {

/// The fields of `s` separated by the character `' '`: every space ends a
/// field, so two adjacent spaces give an empty field and there is always at
/// least one field.
pub open spec fn split_spec(s: Seq<char>) -> Seq<Seq<char>>
    decreases s.len(),
{
    if s.len() == 0 {
        seq![Seq::<char>::empty()]
    } else {
        let w = split_spec(s.drop_last());
        if s.last() == ' ' {
            w.push(Seq::<char>::empty())
        } else {
            w.update(w.len() - 1, w.last().push(s.last()))
        }
    }
}

/// The character sequences of a list of strings.
pub open spec fn words_view(v: Seq<String>) -> Seq<Seq<char>> {
    v.map_values(|w: String| w@)
}

/// `split_spec` always yields at least one field.
pub proof fn lemma_split_nonempty(s: Seq<char>)
    ensures
        split_spec(s).len() >= 1,
    decreases s.len(),
{
    if s.len() > 0 {
        lemma_split_nonempty(s.drop_last());
    }
}

/// Splits `line` at every `' '`, as `line.split(' ')` does.
pub fn split_words(line: &str) -> (words: Vec<String>)
    ensures
        words_view(words@) == split_spec(line@),
{
    let n = line.unicode_len();
    let mut words: Vec<String> = Vec::new();
    let mut start: usize = 0;
    let mut i: usize = 0;
    assert(line@.take(0) =~= Seq::<char>::empty());
    while i < n
        invariant
            n == line@.len(),
            start <= i <= n,
            split_spec(line@.take(i as int)) == words_view(words@).push(
                line@.subrange(start as int, i as int),
            ),
        decreases n - i,
    {
        let c = line.get_char(i);
        proof {
            assert(line@.take(i + 1).drop_last() =~= line@.take(i as int));
            assert(line@.take(i + 1).last() == c);
            lemma_split_nonempty(line@.take(i as int));
        }
        if c == ' ' {
            let w = line.substring_char(start, i).to_owned();
            let ghost old_words = words@;
            words.push(w);
            proof {
                assert(words_view(words@) =~= words_view(old_words).push(
                    line@.subrange(start as int, i as int),
                ));
                assert(line@.subrange(i + 1, i + 1) =~= Seq::<char>::empty());
            }
            start = i + 1;
        } else {
            proof {
                assert(line@.subrange(start as int, i + 1) =~= line@.subrange(
                    start as int,
                    i as int,
                ).push(c));
                assert(split_spec(line@.take(i + 1)) =~= words_view(words@).push(
                    line@.subrange(start as int, i + 1),
                ));
            }
        }
        i = i + 1;
    }
    let last = line.substring_char(start, n).to_owned();
    let ghost old_words = words@;
    words.push(last);
    proof {
        assert(line@.take(n as int) =~= line@);
        assert(words_view(words@) =~= words_view(old_words).push(
            line@.subrange(start as int, n as int),
        ));
    }
    words
}

} // verus!
