use std::collections::VecDeque;
use vstd::prelude::*;
use crate::model::{joined, record, Word};

verus! {

/// Joining a concatenation is concatenating the joins.
pub proof fn lemma_joined_concat(a: Seq<Word>, b: Seq<Word>)
    ensures
        joined(a + b) == joined(a) + joined(b),
    decreases b.len(),
{
    if b.len() == 0 {
        assert(a + b =~= a);
        assert(joined(a) + joined(b) =~= joined(a));
    } else {
        lemma_joined_concat(a, b.drop_last());
        assert((a + b).drop_last() =~= a + b.drop_last());
        assert((a + b).last() == b.last());
        assert(joined(a + b) =~= joined(a) + joined(b));
    }
}

/// Appends every word of `ws` to `out`, each followed by one space.
pub fn append_joined(out: &mut String, ws: &VecDeque<String>)
    ensures
        final(out)@ == old(out)@ + joined(ws.deep_view()),
{
    let n = ws.len();
    let mut i: usize = 0;
    while i < n
        invariant
            n == ws@.len(),
            i <= n,
            out@ == old(out)@ + joined(ws.deep_view().take(i as int)),
        decreases n - i,
    {
        let ghost prev = out@;
        out.append(ws[i].as_str());
        proof {
            reveal_strlit(" ");
        }
        out.append(" ");
        proof {
            let t = ws.deep_view().take(i + 1);
            assert(t.drop_last() =~= ws.deep_view().take(i as int));
            assert(t.last() == ws@[i as int]@);
            assert(out@ =~= old(out)@ + joined(t));
        }
        i = i + 1;
    }
    assert(ws.deep_view().take(n as int) =~= ws.deep_view());
}

/// The alignment record for the selected words of each language.
pub fn record_text(source: &VecDeque<String>, target: &VecDeque<String>) -> (r: String)
    ensures
        r@ == record(source.deep_view(), target.deep_view()),
{
    let mut out = String::new();
    if source.len() == 0 && target.len() == 0 {
        proof {
            reveal_strlit("\n");
        }
        out.append("\n");
        assert(out@ =~= seq!['\n']);
    } else {
        append_joined(&mut out, source);
        proof {
            reveal_strlit("|");
            reveal_strlit("\n");
        }
        out.append("|");
        append_joined(&mut out, target);
        out.append("\n");
        assert(out@ =~= record(source.deep_view(), target.deep_view()));
    }
    out
}

} // verus!
