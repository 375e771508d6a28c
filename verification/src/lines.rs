//! Lines: how a run of code units is cut at its line feeds.
use vstd::prelude::*;

verus! {

/// The line feed, which ends a line.
pub const LINE_FEED: u8 = 0x0a;

/// The length of the first line of `units`: the number of units before the
/// first line feed, or all of them where there is none.
pub open spec fn line_len(units: Seq<u8>) -> nat
    decreases units.len(),
{
    if units.len() == 0 || units[0] == LINE_FEED {
        0
    } else {
        1 + line_len(units.drop_first())
    }
}

/// What is left of `units` after their first line and the line feed that
/// ends it.
pub open spec fn after_first_line(units: Seq<u8>) -> Seq<u8> {
    if line_len(units) < units.len() {
        units.subrange(line_len(units) as int + 1, units.len() as int)
    } else {
        Seq::empty()
    }
}

/// The lines of `units`: the stretches between line feeds. The last
/// stretch is a line also where no line feed ends it; after a final line
/// feed, no empty line follows.
pub open spec fn split_lines(units: Seq<u8>) -> Seq<Seq<u8>>
    decreases units.len(),
{
    if units.len() == 0 {
        Seq::empty()
    } else {
        seq![units.subrange(0, line_len(units) as int)] + split_lines(after_first_line(units))
    }
}

/// `line_len(units)` is the one place at or before the end of `units`
/// that no line feed precedes and that holds a line feed or is the end.
pub proof fn lemma_line_len(units: Seq<u8>)
    ensures
        line_len(units) <= units.len(),
        forall|i: int| 0 <= i < line_len(units) ==> #[trigger] units[i] != LINE_FEED,
        line_len(units) < units.len() ==> units[line_len(units) as int] == LINE_FEED,
    decreases units.len(),
{
    if units.len() == 0 || units[0] == LINE_FEED {
    } else {
        let rest = units.drop_first();
        lemma_line_len(rest);
        assert forall|i: int| 0 <= i < line_len(units) implies #[trigger] units[i] != LINE_FEED by {
            if i > 0 {
                assert(rest[i - 1] != LINE_FEED);
            }
        }
    }
}

/// A place that no line feed precedes and that holds a line feed or is the
/// end is `line_len(units)`.
pub proof fn lemma_line_len_is(units: Seq<u8>, n: int)
    requires
        0 <= n <= units.len(),
        forall|i: int| 0 <= i < n ==> #[trigger] units[i] != LINE_FEED,
        n < units.len() ==> units[n] == LINE_FEED,
    ensures
        line_len(units) == n,
    decreases units.len(),
{
    if units.len() == 0 || units[0] == LINE_FEED {
        if n > 0 {
            assert(units[0] != LINE_FEED);
        }
    } else {
        let rest = units.drop_first();
        assert forall|i: int| 0 <= i < n - 1 implies #[trigger] rest[i] != LINE_FEED by {
            assert(units[i + 1] != LINE_FEED);
        }
        lemma_line_len_is(rest, n - 1);
    }
}

} // verus!
