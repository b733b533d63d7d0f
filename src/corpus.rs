use std::collections::VecDeque;
use vstd::prelude::*;
use crate::model::Word;

verus! {

/// The lines of a text, as `str::lines` splits it.
pub uninterp spec fn lines_of(text: Seq<char>) -> Seq<Seq<char>>;

/// The whitespace-separated words of a line, as `str::split_whitespace` splits it.
pub uninterp spec fn words_of(line: Seq<char>) -> Seq<Word>;

/// Relies on `str::lines`: the lines of `text`, without their line endings.
#[verifier::external_body]
fn split_lines(text: &str) -> (r: Vec<String>)
    ensures
        r.deep_view() == lines_of(text@),
{
    text.lines().map(|l| l.to_string()).collect()
}

/// Relies on `str::split_whitespace`: the words of `line`.
#[verifier::external_body]
fn split_words(line: &str) -> (r: VecDeque<String>)
    ensures
        r.deep_view() == words_of(line@),
{
    line.split_whitespace().map(|w| w.to_string()).collect()
}

/// The lines at even positions: the source language.
pub open spec fn even_lines(lines: Seq<Seq<Word>>) -> Seq<Seq<Word>> {
    Seq::new(((lines.len() + 1) / 2) as nat, |k: int| lines[2 * k])
}

/// The lines at odd positions: the target language.
pub open spec fn odd_lines(lines: Seq<Seq<Word>>) -> Seq<Seq<Word>> {
    Seq::new((lines.len() / 2) as nat, |k: int| lines[2 * k + 1])
}

/// Why a text cannot be loaded.
#[derive(Clone, Copy, Debug, PartialEq, Eq, Structural)]
pub enum LoadError {
    /// The last source line has no target line.
    OddLineCount,
}

/// The line pairs not yet brought into work, one sequence per language.
pub struct Corpus {
    source: VecDeque<VecDeque<String>>,
    target: VecDeque<VecDeque<String>>,
}

impl Corpus {
    /// Both languages always hold the same number of lines.
    #[verifier::type_invariant]
    closed spec fn equal_lengths(self) -> bool {
        self.source@.len() == self.target@.len()
    }
}

impl View for Corpus {
    type V = (Seq<Seq<Word>>, Seq<Seq<Word>>);

    closed spec fn view(&self) -> (Seq<Seq<Word>>, Seq<Seq<Word>>) {
        (self.source.deep_view(), self.target.deep_view())
    }
}

impl Corpus {
    /// Pairs up lines that alternate source and target language. An odd
    /// number of lines is refused.
    pub fn from_word_lines(lines: VecDeque<VecDeque<String>>) -> (r: Result<Corpus, LoadError>)
        ensures
            r is Ok <==> lines@.len() % 2 == 0,
            r is Err ==> r == Err::<Corpus, LoadError>(LoadError::OddLineCount),
            r matches Ok(c) ==> c@ == (even_lines(lines.deep_view()), odd_lines(lines.deep_view())),
            r matches Ok(c) ==> c@.0.len() == c@.1.len(),
    {
        if lines.len() % 2 == 1 {
            return Err(LoadError::OddLineCount);
        }
        let ghost all = lines.deep_view();
        let n = lines.len();
        let mut rest = lines;
        let mut source: VecDeque<VecDeque<String>> = VecDeque::new();
        let mut target: VecDeque<VecDeque<String>> = VecDeque::new();
        let mut to_source = true;
        let mut i: usize = 0;
        assert(source.deep_view() =~= even_lines(all.take(0)));
        assert(target.deep_view() =~= odd_lines(all.take(0)));
        while i < n
            invariant
                n == all.len(),
                i <= n,
                rest.deep_view() == all.skip(i as int),
                to_source == (i % 2 == 0),
                source.deep_view() == even_lines(all.take(i as int)),
                target.deep_view() == odd_lines(all.take(i as int)),
            decreases n - i,
        {
            let ghost r0 = rest.deep_view();
            let ghost s0 = source.deep_view();
            let ghost t0 = target.deep_view();
            let ghost rv = rest@;
            assert(r0.len() > 0);
            assert(r0[0] == rv[0].deep_view());
            assert(r0[0] == all[i as int]);
            match rest.pop_front() {
                Some(line) => {
                    assert(line.deep_view() == all[i as int]);
                    assert forall|k: int| 0 <= k < rest@.len() implies rest.deep_view()[k] == all[i
                        + 1 + k] by {
                        assert(rest.deep_view()[k] == rv[k + 1].deep_view());
                        assert(r0[k + 1] == rv[k + 1].deep_view());
                    }
                    assert(rest.deep_view() =~= all.skip(i + 1));
                    if to_source {
                        let ghost sv = source@;
                        source.push_back(line);
                        assert forall|k: int| 0 <= k < sv.len() implies source.deep_view()[k]
                            == s0[k] by {
                            assert(s0[k] == sv[k].deep_view());
                        }
                        assert(source.deep_view() =~= s0.push(all[i as int]));
                        assert(source.deep_view() =~= even_lines(all.take(i + 1)));
                        assert(target.deep_view() =~= odd_lines(all.take(i + 1)));
                    } else {
                        let ghost tv = target@;
                        target.push_back(line);
                        assert forall|k: int| 0 <= k < tv.len() implies target.deep_view()[k]
                            == t0[k] by {
                            assert(t0[k] == tv[k].deep_view());
                        }
                        assert(target.deep_view() =~= t0.push(all[i as int]));
                        assert(source.deep_view() =~= even_lines(all.take(i + 1)));
                        assert(target.deep_view() =~= odd_lines(all.take(i + 1)));
                    }
                },
                None => {},
            }
            to_source = !to_source;
            i = i + 1;
        }
        assert(all.take(n as int) =~= all);
        assert(source@.len() == source.deep_view().len());
        assert(target@.len() == target.deep_view().len());
        Ok(Corpus { source, target })
    }

    /// Reads a text whose lines alternate source and target language and
    /// splits each line into words. An odd number of lines is refused.
    pub fn from_text(text: &str) -> (r: Result<Corpus, LoadError>)
        ensures
            r is Ok <==> lines_of(text@).len() % 2 == 0,
            r is Err ==> r == Err::<Corpus, LoadError>(LoadError::OddLineCount),
            r matches Ok(c) ==> c@ == (
                even_lines(lines_of(text@).map_values(|l: Seq<char>| words_of(l))),
                odd_lines(lines_of(text@).map_values(|l: Seq<char>| words_of(l))),
            ),
    {
        let lines = split_lines(text);
        let ghost ls = lines_of(text@);
        let mut words: VecDeque<VecDeque<String>> = VecDeque::new();
        let mut i: usize = 0;
        while i < lines.len()
            invariant
                lines.deep_view() == ls,
                i <= lines@.len(),
                words@.len() == i,
                words.deep_view() == ls.take(i as int).map_values(|l: Seq<char>| words_of(l)),
            decreases lines@.len() - i,
        {
            let w = split_words(lines[i].as_str());
            let ghost w0 = words.deep_view();
            let ghost old_words = words@;
            words.push_back(w);
            assert(lines.deep_view()[i as int] == lines@[i as int]@);
            assert(lines@[i as int]@ == ls[i as int]);
            assert(words.deep_view()[i as int] == words_of(ls[i as int]));
            assert forall|k: int| 0 <= k < i implies words.deep_view()[k] == w0[k] by {
                assert(words@[k] == old_words[k]);
            }
            assert(words.deep_view() =~= w0.push(words_of(ls[i as int])));
            assert(words.deep_view() =~= ls.take(i + 1).map_values(|l: Seq<char>| words_of(l)));
            i = i + 1;
        }
        assert(ls.take(lines@.len() as int) =~= ls);
        Corpus::from_word_lines(words)
    }

    pub fn into_lines(self) -> (r: (VecDeque<VecDeque<String>>, VecDeque<VecDeque<String>>))
        ensures
            r.0.deep_view() == self@.0,
            r.1.deep_view() == self@.1,
            r.0@.len() == r.1@.len(),
    {
        proof {
            use_type_invariant(&self);
        }
        (self.source, self.target)
    }
}

} // verus!
