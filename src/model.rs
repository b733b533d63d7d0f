use vstd::prelude::*;
use crate::language::Language;

verus! {

/// A word as the characters it is made of.
pub type Word = Seq<char>;

/// The words of `ws`, each followed by one space.
pub open spec fn joined(ws: Seq<Word>) -> Seq<char>
    decreases ws.len(),
{
    if ws.len() == 0 {
        Seq::empty()
    } else {
        joined(ws.drop_last()) + ws.last() + seq![' ']
    }
}

/// The alignment record written for a selection: a bare line break when
/// nothing is selected in either language, else the source words, a bar,
/// the target words and a line break.
pub open spec fn record(source: Seq<Word>, target: Seq<Word>) -> Seq<char> {
    if source.len() == 0 && target.len() == 0 {
        seq!['\n']
    } else {
        joined(source) + seq!['|'] + joined(target) + seq!['\n']
    }
}

/// One pair of lines in the alternating text format.
pub open spec fn pair_text(source: Seq<Word>, target: Seq<Word>) -> Seq<char> {
    joined(source) + seq!['\n'] + joined(target) + seq!['\n']
}

/// The first `n` pairs of lines in the alternating text format.
pub open spec fn pairs_text(source: Seq<Seq<Word>>, target: Seq<Seq<Word>>, n: nat) -> Seq<char>
    decreases n,
{
    if n == 0 {
        Seq::empty()
    } else {
        pairs_text(source, target, (n - 1) as nat) + pair_text(source[n - 1], target[n - 1])
    }
}

/// The state of one language: the lines not yet brought in, the working
/// line, the selection and the undo snapshot.
pub ghost struct Lane {
    pub pending: Seq<Seq<Word>>,
    pub work: Seq<Word>,
    pub sel: Seq<Word>,
    pub undo: Seq<Word>,
}

impl Lane {
    /// Moves the front word of the working line to the end of the selection.
    pub open spec fn select(self) -> Lane {
        if self.work.len() > 0 {
            Lane { work: self.work.drop_first(), sel: self.sel.push(self.work[0]), ..self }
        } else {
            self
        }
    }

    /// Moves the last selected word back to the front of the working line.
    pub open spec fn deselect(self) -> Lane {
        if self.sel.len() > 0 {
            Lane { work: seq![self.sel.last()] + self.work, sel: self.sel.drop_last(), ..self }
        } else {
            self
        }
    }

    /// The selection becomes the undo snapshot; then one word is selected.
    pub open spec fn commit(self) -> Lane {
        Lane { undo: self.sel, sel: Seq::empty(), ..self }.select()
    }

    /// Selection and undo snapshot go back to the front of the working line.
    pub open spec fn restore(self) -> Lane {
        Lane { work: self.undo + self.sel + self.work, sel: Seq::empty(), undo: Seq::empty(), ..self }
    }

    /// The working line becomes the next pending line, or empty when none is left.
    pub open spec fn refill(self) -> Lane {
        if self.pending.len() > 0 {
            Lane { work: self.pending[0], pending: self.pending.drop_first(), ..self }
        } else {
            Lane { work: Seq::empty(), ..self }
        }
    }

    /// Selects one word, or an empty placeholder word when the working line is empty.
    pub open spec fn seed(self) -> Lane {
        if self.work.len() > 0 {
            self.select()
        } else {
            Lane { sel: self.sel.push(Seq::empty()), ..self }
        }
    }
}

/// The whole engine as mathematical values.
pub ghost struct EngineModel {
    pub source: Lane,
    pub target: Lane,
    pub log: Seq<Seq<char>>,
    pub active: Language,
}

impl EngineModel {
    pub open spec fn lane(self, lang: Language) -> Lane {
        match lang {
            Language::Source => self.source,
            Language::Target => self.target,
        }
    }

    pub open spec fn with_lane(self, lang: Language, lane: Lane) -> EngineModel {
        match lang {
            Language::Source => EngineModel { source: lane, ..self },
            Language::Target => EngineModel { target: lane, ..self },
        }
    }

    pub open spec fn select(self, lang: Language) -> EngineModel {
        self.with_lane(lang, self.lane(lang).select())
    }

    pub open spec fn deselect(self, lang: Language) -> EngineModel {
        self.with_lane(lang, self.lane(lang).deselect())
    }

    pub open spec fn commit(self) -> EngineModel {
        EngineModel {
            source: self.source.commit(),
            target: self.target.commit(),
            log: self.log.push(record(self.source.sel, self.target.sel)),
            ..self
        }
    }

    /// Nothing to undo: no snapshot and no selection in either language.
    pub open spec fn nothing_to_undo(self) -> bool {
        self.source.undo.len() == 0 && self.target.undo.len() == 0 && self.source.sel.len() == 0
            && self.target.sel.len() == 0
    }

    pub open spec fn undo(self) -> EngineModel {
        if self.nothing_to_undo() {
            self
        } else {
            EngineModel {
                source: self.source.restore(),
                target: self.target.restore(),
                log: if self.log.len() > 0 { self.log.drop_last() } else { self.log },
                ..self
            }
        }
    }

    pub open spec fn advance(self) -> EngineModel {
        if self.source.work.len() == 0 && self.target.work.len() == 0 {
            let s = self.source.refill();
            let t = self.target.refill();
            if s.sel.len() == 0 && t.sel.len() == 0 {
                EngineModel { source: s.seed(), target: t.seed(), ..self }
            } else {
                EngineModel { source: s, target: t, ..self }
            }
        } else {
            self
        }
    }

    /// The engine built over the given pending lines, before its first advance.
    pub open spec fn fresh(source: Seq<Seq<Word>>, target: Seq<Seq<Word>>) -> EngineModel {
        EngineModel {
            source: Lane { pending: source, work: Seq::empty(), sel: Seq::empty(), undo: Seq::empty() },
            target: Lane { pending: target, work: Seq::empty(), sel: Seq::empty(), undo: Seq::empty() },
            log: Seq::empty(),
            active: Language::Source,
        }
    }

    /// The text that lets a later session resume: the working line with its
    /// selection put back in front, then every pending pair.
    pub open spec fn remainder(self) -> Seq<char> {
        pair_text(self.source.sel + self.source.work, self.target.sel + self.target.work)
            + pairs_text(
            self.source.pending,
            self.target.pending,
            if self.source.pending.len() < self.target.pending.len() {
                self.source.pending.len()
            } else {
                self.target.pending.len()
            },
        )
    }
}

/// One selection move of the operator.
pub ghost enum Move {
    Select(Language),
    Deselect(Language),
}

/// The state after the given selection moves, in order.
pub open spec fn apply_moves(m: EngineModel, moves: Seq<Move>) -> EngineModel
    decreases moves.len(),
{
    if moves.len() == 0 {
        m
    } else {
        let before = apply_moves(m, moves.drop_last());
        match moves.last() {
            Move::Select(lang) => before.select(lang),
            Move::Deselect(lang) => before.deselect(lang),
        }
    }
}

/// The state after `n` advances.
pub open spec fn advance_times(m: EngineModel, n: nat) -> EngineModel
    decreases n,
{
    if n == 0 {
        m
    } else {
        advance_times(m, (n - 1) as nat).advance()
    }
}

} // verus!
