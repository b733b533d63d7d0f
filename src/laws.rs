use vstd::prelude::*;
use crate::language::Language;
use crate::model::{advance_times, apply_moves, EngineModel, Move};

verus! {

/// Selecting and deselecting only move words between a working line and its
/// selection: for each language, the selection followed by the working line
/// stays the same sequence of words, so their combined count is unchanged.
/// Nothing else of the engine changes.
pub proof fn lemma_moves_conserve_words(m: EngineModel, moves: Seq<Move>)
    ensures
        forall|lang: Language|
            #![auto]
            apply_moves(m, moves).lane(lang).sel + apply_moves(m, moves).lane(lang).work
                == m.lane(lang).sel + m.lane(lang).work,
        forall|lang: Language|
            #![auto]
            apply_moves(m, moves).lane(lang).sel.len() + apply_moves(m, moves).lane(lang).work.len()
                == m.lane(lang).sel.len() + m.lane(lang).work.len(),
        forall|lang: Language|
            #![auto]
            apply_moves(m, moves).lane(lang).pending == m.lane(lang).pending
                && apply_moves(m, moves).lane(lang).undo == m.lane(lang).undo,
        apply_moves(m, moves).log == m.log,
        apply_moves(m, moves).active == m.active,
    decreases moves.len(),
{
    if moves.len() > 0 {
        lemma_moves_conserve_words(m, moves.drop_last());
        let b = apply_moves(m, moves.drop_last());
        assert forall|lang: Language|
            #![auto]
            b.select(lang).lane(lang).sel + b.select(lang).lane(lang).work == b.lane(lang).sel
                + b.lane(lang).work && b.deselect(lang).lane(lang).sel + b.deselect(
                lang,
            ).lane(lang).work == b.lane(lang).sel + b.lane(lang).work by {
            let l = b.lane(lang);
            if l.work.len() > 0 {
                assert(l.sel.push(l.work[0]) + l.work.drop_first() =~= l.sel + l.work);
            }
            if l.sel.len() > 0 {
                assert(l.sel.drop_last() + (seq![l.sel.last()] + l.work) =~= l.sel + l.work);
            }
        }
        assert forall|lang: Language|
            #![auto]
            apply_moves(m, moves).lane(lang).sel + apply_moves(m, moves).lane(lang).work
                == m.lane(lang).sel + m.lane(lang).work by {
            let r = apply_moves(m, moves);
            assert(r.lane(lang).sel + r.lane(lang).work == b.lane(lang).sel + b.lane(lang).work);
        }
        assert forall|lang: Language|
            #![auto]
            apply_moves(m, moves).lane(lang).sel.len() + apply_moves(m, moves).lane(lang).work.len()
                == m.lane(lang).sel.len() + m.lane(lang).work.len() by {
            let r = apply_moves(m, moves);
            assert((r.lane(lang).sel + r.lane(lang).work).len() == (m.lane(lang).sel + m.lane(
                lang,
            ).work).len());
        }
    }
}

/// A commit followed at once by an undo gives the log back exactly as it
/// was. The words that were selected and the working line come back as one
/// working line, selection first, with nothing left selected; when nothing was
/// selected, working line and selection are exactly as before. This needs
/// something to select or commit: with both selections and both working lines
/// empty, the undo finds nothing to take back and the blank record stays.
pub proof fn lemma_commit_then_undo(m: EngineModel)
    requires
        !(m.source.sel.len() == 0 && m.target.sel.len() == 0 && m.source.work.len() == 0
            && m.target.work.len() == 0),
    ensures
        m.commit().undo().log == m.log,
        forall|lang: Language|
            #![auto]
            m.commit().undo().lane(lang).work == m.lane(lang).sel + m.lane(lang).work,
        forall|lang: Language| #![auto] m.commit().undo().lane(lang).sel.len() == 0,
        forall|lang: Language| #![auto] m.commit().undo().lane(lang).pending == m.lane(lang).pending,
        m.source.sel.len() == 0 && m.target.sel.len() == 0 ==> m.commit().undo().source.work
            == m.source.work && m.commit().undo().target.work == m.target.work
            && m.commit().undo().source.sel == m.source.sel && m.commit().undo().target.sel
            == m.target.sel,
{
    let c = m.commit();
    let r = c.undo();
    assert(c.log.drop_last() =~= m.log);
    assert forall|lang: Language|
        #![auto]
        r.lane(lang).work == m.lane(lang).sel + m.lane(lang).work by {
        let l = m.lane(lang);
        if l.work.len() > 0 {
            assert(l.sel + seq![l.work[0]] + l.work.drop_first() =~= l.sel + l.work);
        } else {
            assert(l.sel + Seq::<Seq<char>>::empty() + l.work =~= l.sel + l.work);
        }
    }
    if m.source.sel.len() == 0 && m.target.sel.len() == 0 {
        assert(m.source.sel + m.source.work =~= m.source.work);
        assert(m.target.sel + m.target.work =~= m.target.work);
        assert(r.source.sel =~= m.source.sel);
        assert(r.target.sel =~= m.target.sel);
    }
}

/// Advancing keeps the two languages' pending lines equal in number.
pub proof fn lemma_advance_keeps_parity(m: EngineModel)
    requires
        m.source.pending.len() == m.target.pending.len(),
    ensures
        m.advance().source.pending.len() == m.advance().target.pending.len(),
{
}

/// Once no lines are pending, any number of advances leaves the working
/// lines as they are and nothing pending: in particular, working lines that
/// are empty stay empty.
pub proof fn lemma_exhausted_advance(m: EngineModel, n: nat)
    requires
        m.source.pending.len() == 0,
        m.target.pending.len() == 0,
    ensures
        advance_times(m, n).source.work == m.source.work,
        advance_times(m, n).target.work == m.target.work,
        advance_times(m, n).source.pending.len() == 0,
        advance_times(m, n).target.pending.len() == 0,
        m.source.work.len() == 0 && m.target.work.len() == 0 ==> advance_times(m, n).source.work.len()
            == 0 && advance_times(m, n).target.work.len() == 0,
    decreases n,
{
    if n > 0 {
        lemma_exhausted_advance(m, (n - 1) as nat);
        let p = advance_times(m, (n - 1) as nat);
        if p.source.work.len() == 0 && p.target.work.len() == 0 {
            assert(p.source.work =~= Seq::empty());
            assert(p.target.work =~= Seq::empty());
        }
    }
}

/// Committing with nothing selected in either language logs a bare line break.
pub proof fn lemma_skip_record(m: EngineModel)
    requires
        m.source.sel.len() == 0,
        m.target.sel.len() == 0,
    ensures
        m.commit().log == m.log.push(seq!['\n']),
{
}

} // verus!
