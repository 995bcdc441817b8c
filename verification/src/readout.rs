//! Laws of the readout: the order of names is a strict order, and two
//! readouts of the same metrics show the same names at the same places.

use vstd::prelude::*;
use crate::metrics::{
    ascending, family_name, instrument_names, labeled_touched, name_before, readout_of,
    shows_count, shows_level, shows_observations, shows_usage, MetricsView,
};

verus! {

/// The names of the families `fs`, in their order.
pub open spec fn names_of(fs: Seq<prometheus::proto::MetricFamily>) -> Seq<Seq<char>> {
    Seq::new(fs.len(), |k: int| family_name(fs[k]))
}

/// Each name stands before all that follow it.
pub open spec fn strictly_ascending(names: Seq<Seq<char>>) -> bool {
    forall|i: int, j: int|
        0 <= i < j < names.len() ==> name_before(#[trigger] names[i], #[trigger] names[j])
}

/// No name stands before itself.
pub proof fn lemma_name_before_irreflexive(a: Seq<char>)
    ensures
        !name_before(a, a),
    decreases a.len(),
{
    if a.len() > 0 {
        lemma_name_before_irreflexive(a.drop_first());
    }
}

/// The order of names is transitive.
pub proof fn lemma_name_before_transitive(a: Seq<char>, b: Seq<char>, c: Seq<char>)
    requires
        name_before(a, b),
        name_before(b, c),
    ensures
        name_before(a, c),
    decreases a.len(),
{
    if a.len() > 0 && b.len() > 0 && c.len() > 0 && a[0] == b[0] && b[0] == c[0] {
        lemma_name_before_transitive(a.drop_first(), b.drop_first(), c.drop_first());
    }
}

/// Two lists of names in strictly ascending order that hold the same names
/// are the same list.
pub proof fn lemma_ascending_lists_agree(a: Seq<Seq<char>>, b: Seq<Seq<char>>)
    requires
        strictly_ascending(a),
        strictly_ascending(b),
        forall|i: int| 0 <= i < a.len() ==> b.contains(#[trigger] a[i]),
        forall|j: int| 0 <= j < b.len() ==> a.contains(#[trigger] b[j]),
    ensures
        a == b,
    decreases a.len(),
{
    if a.len() == 0 {
        if b.len() > 0 {
            assert(a.contains(b[0]));
        }
        assert(a =~= b);
    } else {
        let x = a.last();
        assert(b.contains(a[a.len() - 1]));
        let j = choose|j: int| 0 <= j < b.len() && b[j] == x;
        let y = b.last();
        assert(a.contains(b[b.len() - 1]));
        let i = choose|i: int| 0 <= i < a.len() && a[i] == y;
        if j < b.len() - 1 {
            assert(name_before(b[j], b[b.len() - 1]));
            if i < a.len() - 1 {
                assert(name_before(a[i], a[a.len() - 1]));
                lemma_name_before_transitive(x, y, x);
            }
            lemma_name_before_irreflexive(x);
        }
        assert(x == y);
        let a0 = a.drop_last();
        let b0 = b.drop_last();
        assert forall|p: int| 0 <= p < a0.len() implies b0.contains(#[trigger] a0[p]) by {
            assert(b.contains(a[p]));
            let q = choose|q: int| 0 <= q < b.len() && b[q] == a[p];
            if q == b.len() - 1 {
                assert(name_before(a[p], a[a.len() - 1]));
                lemma_name_before_irreflexive(x);
            }
            assert(b0[q] == a0[p]);
        }
        assert forall|q: int| 0 <= q < b0.len() implies a0.contains(#[trigger] b0[q]) by {
            assert(a.contains(b[q]));
            let p = choose|p: int| 0 <= p < a.len() && a[p] == b[q];
            if p == a.len() - 1 {
                assert(name_before(b[q], b[b.len() - 1]));
                lemma_name_before_irreflexive(y);
            }
            assert(a0[p] == b0[q]);
        }
        assert(strictly_ascending(a0)) by {
            assert forall|p: int, q: int| 0 <= p < q < a0.len() implies name_before(
                #[trigger] a0[p],
                #[trigger] a0[q],
            ) by {
                assert(name_before(a[p], a[q]));
            }
        }
        assert(strictly_ascending(b0)) by {
            assert forall|p: int, q: int| 0 <= p < q < b0.len() implies name_before(
                #[trigger] b0[p],
                #[trigger] b0[q],
            ) by {
                assert(name_before(b[p], b[q]));
            }
        }
        lemma_ascending_lists_agree(a0, b0);
        assert(a =~= a0.push(x));
        assert(b =~= b0.push(y));
    }
}

/// A readout has a family under the name of every instrument, but for the
/// counter of uses by command while no command was used.
pub proof fn lemma_readout_names(m: MetricsView, fs: Seq<prometheus::proto::MetricFamily>, k: int)
    requires
        readout_of(m, fs),
        0 <= k < 13,
        k == 12 ==> labeled_touched(m.command_usage),
    ensures
        names_of(fs).contains(instrument_names()[k]),
{
    let n = instrument_names();
    let names = names_of(fs);
    if k == 0 {
        assert(shows_count(fs, n[0], m.prompts_generated));
        let i = choose|i: int| 0 <= i < fs.len() && family_name(#[trigger] fs[i]) == n[0];
        assert(names[i] == n[0]);
    } else if k == 1 {
        assert(shows_count(fs, n[1], m.prompts_manual));
        let i = choose|i: int| 0 <= i < fs.len() && family_name(#[trigger] fs[i]) == n[1];
        assert(names[i] == n[1]);
    } else if k == 2 {
        assert(shows_count(fs, n[2], m.responses_completed));
        let i = choose|i: int| 0 <= i < fs.len() && family_name(#[trigger] fs[i]) == n[2];
        assert(names[i] == n[2]);
    } else if k == 3 {
        assert(shows_count(fs, n[3], m.responses_abandoned));
        let i = choose|i: int| 0 <= i < fs.len() && family_name(#[trigger] fs[i]) == n[3];
        assert(names[i] == n[3]);
    } else if k == 4 {
        assert(shows_count(fs, n[4], m.sessions_completed));
        let i = choose|i: int| 0 <= i < fs.len() && family_name(#[trigger] fs[i]) == n[4];
        assert(names[i] == n[4]);
    } else if k == 5 {
        assert(shows_count(fs, n[5], m.search_queries));
        let i = choose|i: int| 0 <= i < fs.len() && family_name(#[trigger] fs[i]) == n[5];
        assert(names[i] == n[5]);
    } else if k == 6 {
        assert(shows_count(fs, n[6], m.archive_exports));
        let i = choose|i: int| 0 <= i < fs.len() && family_name(#[trigger] fs[i]) == n[6];
        assert(names[i] == n[6]);
    } else if k == 7 {
        assert(shows_level(fs, n[7], m.current_streak));
        let i = choose|i: int| 0 <= i < fs.len() && family_name(#[trigger] fs[i]) == n[7];
        assert(names[i] == n[7]);
    } else if k == 8 {
        assert(shows_level(fs, n[8], m.total_entries));
        let i = choose|i: int| 0 <= i < fs.len() && family_name(#[trigger] fs[i]) == n[8];
        assert(names[i] == n[8]);
    } else if k == 9 {
        assert(shows_observations(fs, n[9], m.word_bounds, m.response_words));
        let i = choose|i: int| 0 <= i < fs.len() && family_name(#[trigger] fs[i]) == n[9];
        assert(names[i] == n[9]);
    } else if k == 10 {
        assert(shows_observations(fs, n[10], m.response_bounds, m.response_seconds));
        let i = choose|i: int| 0 <= i < fs.len() && family_name(#[trigger] fs[i]) == n[10];
        assert(names[i] == n[10]);
    } else if k == 11 {
        assert(shows_observations(fs, n[11], m.session_bounds, m.session_seconds));
        let i = choose|i: int| 0 <= i < fs.len() && family_name(#[trigger] fs[i]) == n[11];
        assert(names[i] == n[11]);
    } else {
        assert(shows_usage(fs, n[12], m.command_usage));
        let i = choose|i: int| 0 <= i < fs.len() && family_name(#[trigger] fs[i]) == n[12];
        assert(names[i] == n[12]);
    }
}

/// Every name in one readout of the metrics stands in every other.
pub proof fn lemma_readout_names_shared(
    m: MetricsView,
    fs: Seq<prometheus::proto::MetricFamily>,
    gs: Seq<prometheus::proto::MetricFamily>,
    i: int,
)
    requires
        readout_of(m, fs),
        readout_of(m, gs),
        0 <= i < fs.len(),
    ensures
        names_of(gs).contains(names_of(fs)[i]),
{
    let n = instrument_names();
    let x = family_name(fs[i]);
    assert(n.contains(x));
    let k = choose|k: int| 0 <= k < n.len() && n[k] == x;
    lemma_readout_names(m, gs, k);
}

/// Two readouts of the same metrics have the same number of families and
/// show the same names at the same places; by what a readout is, both show
/// under each name the value that the metrics hold.
pub proof fn lemma_readouts_agree(
    m: MetricsView,
    fs: Seq<prometheus::proto::MetricFamily>,
    gs: Seq<prometheus::proto::MetricFamily>,
)
    requires
        readout_of(m, fs),
        readout_of(m, gs),
    ensures
        fs.len() == gs.len(),
        names_of(fs) == names_of(gs),
        forall|k: int| 0 <= k < fs.len() ==> family_name(#[trigger] fs[k]) == family_name(gs[k]),
{
    let a = names_of(fs);
    let b = names_of(gs);
    assert(strictly_ascending(a)) by {
        assert(ascending(fs));
        assert forall|i: int, j: int| 0 <= i < j < a.len() implies name_before(
            #[trigger] a[i],
            #[trigger] a[j],
        ) by {
            assert(name_before(family_name(fs[i]), family_name(fs[j])));
        }
    }
    assert(strictly_ascending(b)) by {
        assert(ascending(gs));
        assert forall|i: int, j: int| 0 <= i < j < b.len() implies name_before(
            #[trigger] b[i],
            #[trigger] b[j],
        ) by {
            assert(name_before(family_name(gs[i]), family_name(gs[j])));
        }
    }
    assert forall|i: int| 0 <= i < a.len() implies b.contains(#[trigger] a[i]) by {
        lemma_readout_names_shared(m, fs, gs, i);
    }
    assert forall|j: int| 0 <= j < b.len() implies a.contains(#[trigger] b[j]) by {
        lemma_readout_names_shared(m, gs, fs, j);
    }
    lemma_ascending_lists_agree(a, b);
    assert forall|k: int| 0 <= k < fs.len() implies family_name(#[trigger] fs[k]) == family_name(
        gs[k],
    ) by {
        assert(a[k] == b[k]);
    }
}

} // verus!
