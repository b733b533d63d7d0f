use std::collections::VecDeque;
use vstd::prelude::*;
use crate::language::Language;
use crate::corpus::Corpus;
use crate::model::{joined, pair_text, pairs_text, EngineModel, Lane};
use crate::text::{append_joined, lemma_joined_concat, record_text};

verus! {

/// The state of one language.
struct LaneState {
    pending: VecDeque<VecDeque<String>>,
    work: VecDeque<String>,
    sel: VecDeque<String>,
    undo: VecDeque<String>,
}

impl View for LaneState {
    type V = Lane;

    closed spec fn view(&self) -> Lane {
        Lane {
            pending: self.pending.deep_view(),
            work: self.work.deep_view(),
            sel: self.sel.deep_view(),
            undo: self.undo.deep_view(),
        }
    }
}

/// Moves every word of `from` to the front of `work`, keeping their order.
fn put_back(from: &mut VecDeque<String>, work: &mut VecDeque<String>)
    ensures
        final(from)@.len() == 0,
        final(work).deep_view() == old(from).deep_view() + old(work).deep_view(),
{
    while from.len() > 0
        invariant
            from.deep_view() + work.deep_view() == old(from).deep_view() + old(work).deep_view(),
        decreases from.len(),
    {
        let ghost f = from.deep_view();
        let ghost w0 = work.deep_view();
        match from.pop_back() {
            Some(w) => {
                work.push_front(w);
                assert(from.deep_view() =~= f.drop_last());
                assert(work.deep_view() =~= seq![f.last()] + w0);
                assert(f.drop_last() + (seq![f.last()] + w0) =~= f + w0);
            },
            None => {},
        }
    }
    assert(from.deep_view() =~= Seq::empty());
    assert(from.deep_view() + work.deep_view() =~= work.deep_view());
}

impl LaneState {
    fn select(&mut self)
        ensures
            final(self)@ == old(self)@.select(),
    {
        match self.work.pop_front() {
            Some(w) => {
                self.sel.push_back(w);
                assert(self.work.deep_view() =~= old(self).work.deep_view().drop_first());
                assert(self.sel.deep_view() =~= old(self).sel.deep_view().push(
                    old(self).work.deep_view()[0],
                ));
            },
            None => {},
        }
    }

    fn deselect(&mut self)
        ensures
            final(self)@ == old(self)@.deselect(),
    {
        match self.sel.pop_back() {
            Some(w) => {
                self.work.push_front(w);
                assert(self.sel.deep_view() =~= old(self).sel.deep_view().drop_last());
                assert(self.work.deep_view() =~= seq![old(self).sel.deep_view().last()]
                    + old(self).work.deep_view());
            },
            None => {},
        }
    }

    fn commit(&mut self)
        ensures
            final(self)@ == old(self)@.commit(),
    {
        let mut taken: VecDeque<String> = VecDeque::new();
        std::mem::swap(&mut self.sel, &mut taken);
        self.undo = taken;
        proof {
            assert(self.sel.deep_view() =~= Seq::empty());
        }
        self.select();
    }

    fn restore(&mut self)
        ensures
            final(self)@ == old(self)@.restore(),
    {
        put_back(&mut self.sel, &mut self.work);
        put_back(&mut self.undo, &mut self.work);
        assert(self.sel.deep_view() =~= Seq::empty());
        assert(self.undo.deep_view() =~= Seq::empty());
        assert(self.work.deep_view() =~= old(self).undo.deep_view() + old(self).sel.deep_view()
            + old(self).work.deep_view());
    }

    fn refill(&mut self)
        ensures
            final(self)@ == old(self)@.refill(),
    {
        match self.pending.pop_front() {
            Some(line) => {
                self.work = line;
                assert(self.pending.deep_view() =~= old(self).pending.deep_view().drop_first());
            },
            None => {
                self.work = VecDeque::new();
                assert(self.work.deep_view() =~= Seq::empty());
            },
        }
    }

    fn seed(&mut self)
        ensures
            final(self)@ == old(self)@.seed(),
    {
        if self.work.len() > 0 {
            self.select();
        } else {
            self.sel.push_back(String::new());
            assert(self.sel.deep_view() =~= old(self).sel.deep_view().push(Seq::empty()));
        }
    }
}

/// The alignment engine: the working line, selection and undo snapshot of
/// each language, the lines not yet brought in, and the log of records.
pub struct Engine {
    source: LaneState,
    target: LaneState,
    log: Vec<String>,
    active: Language,
}

impl View for Engine {
    type V = EngineModel;

    closed spec fn view(&self) -> EngineModel {
        EngineModel {
            source: self.source@,
            target: self.target@,
            log: self.log.deep_view(),
            active: self.active,
        }
    }
}

impl Engine {
    /// Builds the engine over a corpus and brings in its first line pair,
    /// with one word of each language already selected.
    pub fn new(corpus: Corpus) -> (r: Engine)
        ensures
            r@ == EngineModel::fresh(corpus@.0, corpus@.1).advance(),
            r@.source.pending.len() == r@.target.pending.len(),
    {
        let (source, target) = corpus.into_lines();
        let mut e = Engine {
            source: LaneState {
                pending: source,
                work: VecDeque::new(),
                sel: VecDeque::new(),
                undo: VecDeque::new(),
            },
            target: LaneState {
                pending: target,
                work: VecDeque::new(),
                sel: VecDeque::new(),
                undo: VecDeque::new(),
            },
            log: Vec::new(),
            active: Language::Source,
        };
        assert(e.source.work.deep_view() =~= Seq::empty());
        assert(e.source.sel.deep_view() =~= Seq::empty());
        assert(e.source.undo.deep_view() =~= Seq::empty());
        assert(e.target.work.deep_view() =~= Seq::empty());
        assert(e.target.sel.deep_view() =~= Seq::empty());
        assert(e.target.undo.deep_view() =~= Seq::empty());
        assert(e.log.deep_view() =~= Seq::empty());
        e.advance_line();
        e
    }

    /// Moves the front word of `lang`'s working line to the end of its
    /// selection; does nothing when the working line is empty.
    pub fn select_word(&mut self, lang: Language)
        ensures
            final(self)@ == old(self)@.select(lang),
    {
        match lang {
            Language::Source => self.source.select(),
            Language::Target => self.target.select(),
        }
    }

    /// Moves the last selected word of `lang` back to the front of its
    /// working line; does nothing when the selection is empty.
    pub fn deselect_word(&mut self, lang: Language)
        ensures
            final(self)@ == old(self)@.deselect(lang),
    {
        match lang {
            Language::Source => self.source.deselect(),
            Language::Target => self.target.deselect(),
        }
    }

    /// Chooses the language that the selection keys act on.
    pub fn set_active_language(&mut self, lang: Language)
        ensures
            final(self)@ == (EngineModel { active: lang, ..old(self)@ }),
    {
        self.active = lang;
    }

    pub fn active_language(&self) -> (r: Language)
        ensures
            r == self@.active,
    {
        self.active
    }

    /// Appends the record of the current selection to the log, keeps the
    /// selection as the undo snapshot and selects one new word per language.
    pub fn commit_line(&mut self)
        ensures
            final(self)@ == old(self)@.commit(),
    {
        let r = record_text(&self.source.sel, &self.target.sel);
        self.log.push(r);
        assert(self.log.deep_view() =~= old(self).log.deep_view().push(r@));
        self.source.commit();
        self.target.commit();
    }

    /// Undoes the latest commit: the selection and the undo snapshot go back
    /// to the front of the working lines, and the last record leaves the log.
    /// Does nothing when there is neither a snapshot nor a selection.
    pub fn undo_last_commit(&mut self)
        ensures
            final(self)@ == old(self)@.undo(),
    {
        if self.source.undo.len() == 0 && self.target.undo.len() == 0 && self.source.sel.len() == 0
            && self.target.sel.len() == 0 {
            return;
        }
        self.source.restore();
        self.target.restore();
        let ghost before = self.log.deep_view();
        match self.log.pop() {
            Some(_) => {
                assert(self.log.deep_view() =~= before.drop_last());
            },
            None => {},
        }
    }

    /// Brings in the next line pair once both working lines are empty (empty
    /// lines when the corpus is exhausted), and then, when nothing is
    /// selected, selects one word per language.
    pub fn advance_line(&mut self)
        ensures
            final(self)@ == old(self)@.advance(),
    {
        if self.source.work.len() == 0 && self.target.work.len() == 0 {
            self.source.refill();
            self.target.refill();
            if self.source.sel.len() == 0 && self.target.sel.len() == 0 {
                self.source.seed();
                self.target.seed();
            }
        }
    }

    /// The words of `lang`'s working line.
    pub fn working_line(&self, lang: Language) -> (r: &VecDeque<String>)
        ensures
            r.deep_view() == self@.lane(lang).work,
    {
        match lang {
            Language::Source => &self.source.work,
            Language::Target => &self.target.work,
        }
    }

    /// The words selected in `lang`, in the order of selection.
    pub fn selection(&self, lang: Language) -> (r: &VecDeque<String>)
        ensures
            r.deep_view() == self@.lane(lang).sel,
    {
        match lang {
            Language::Source => &self.source.sel,
            Language::Target => &self.target.sel,
        }
    }

    /// The records committed so far, oldest first.
    pub fn output_log(&self) -> (r: &Vec<String>)
        ensures
            r.deep_view() == self@.log,
    {
        &self.log
    }

    /// The lines not yet brought in, as (source, target).
    pub fn pending_lines(&self) -> (r: (&VecDeque<VecDeque<String>>, &VecDeque<VecDeque<String>>))
        ensures
            r.0.deep_view() == self@.source.pending,
            r.1.deep_view() == self@.target.pending,
    {
        (&self.source.pending, &self.target.pending)
    }

    /// The words selected in `lang`, each followed by one space.
    pub fn selection_text(&self, lang: Language) -> (r: String)
        ensures
            r@ == joined(self@.lane(lang).sel),
    {
        let mut out = String::new();
        append_joined(&mut out, self.selection(lang));
        out
    }

    /// The word at position `i` of `lang`'s working line, or `---` past its end.
    pub fn working_word(&self, lang: Language, i: usize) -> (r: String)
        ensures
            i < self@.lane(lang).work.len() ==> r@ == self@.lane(lang).work[i as int],
            i >= self@.lane(lang).work.len() ==> r@ == seq!['-', '-', '-'],
    {
        let line = self.working_line(lang);
        if i < line.len() {
            line[i].clone()
        } else {
            let mut out = String::new();
            proof {
                reveal_strlit("---");
            }
            out.append("---");
            assert(out@ =~= seq!['-', '-', '-']);
            out
        }
    }

    /// The unprocessed text in the alternating input format: the working
    /// line pair with its selection put back in front, then each pending pair.
    pub fn remainder_text(&self) -> (r: String)
        ensures
            r@ == self@.remainder(),
    {
        let mut out = String::new();
        append_joined(&mut out, &self.source.sel);
        append_joined(&mut out, &self.source.work);
        proof {
            reveal_strlit("\n");
            lemma_joined_concat(self.source.sel.deep_view(), self.source.work.deep_view());
            lemma_joined_concat(self.target.sel.deep_view(), self.target.work.deep_view());
        }
        out.append("\n");
        append_joined(&mut out, &self.target.sel);
        append_joined(&mut out, &self.target.work);
        out.append("\n");
        let ghost head = out@;
        assert(head =~= pair_text(
            self@.source.sel + self@.source.work,
            self@.target.sel + self@.target.work,
        ));
        let n = if self.source.pending.len() < self.target.pending.len() {
            self.source.pending.len()
        } else {
            self.target.pending.len()
        };
        let mut i: usize = 0;
        while i < n
            invariant
                n <= self.source.pending@.len(),
                n <= self.target.pending@.len(),
                i <= n,
                out@ == head + pairs_text(self@.source.pending, self@.target.pending, i as nat),
            decreases n - i,
        {
            append_joined(&mut out, &self.source.pending[i]);
            proof {
                reveal_strlit("\n");
            }
            out.append("\n");
            append_joined(&mut out, &self.target.pending[i]);
            out.append("\n");
            let ghost ps = self@.source.pending;
            let ghost pt = self@.target.pending;
            assert(ps[i as int] == self.source.pending@[i as int].deep_view());
            assert(pt[i as int] == self.target.pending@[i as int].deep_view());
            assert(pairs_text(ps, pt, (i + 1) as nat) == pairs_text(ps, pt, i as nat) + pair_text(
                ps[i as int],
                pt[i as int],
            ));
            assert(out@ =~= head + pairs_text(
                self@.source.pending,
                self@.target.pending,
                (i + 1) as nat,
            ));
            i = i + 1;
        }
        out
    }
}

} // verus!
