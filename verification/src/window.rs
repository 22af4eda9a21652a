use vstd::prelude::*;

verus! {

/// The ids of the focused windows among `windows` (each an id and whether it
/// has focus), in their order.
pub open spec fn focused_windows(windows: Seq<(u64, bool)>) -> Seq<u64>
    decreases windows.len(),
{
    if windows.len() == 0 {
        Seq::empty()
    } else {
        let rest = focused_windows(windows.drop_last());
        if windows.last().1 {
            rest.push(windows.last().0)
        } else {
            rest
        }
    }
}

/// The windows that Escape closes: when Escape was just pressed, every
/// focused window, in the order given; otherwise none.
pub fn close_on_esc(windows: &Vec<(u64, bool)>, escape_just_pressed: bool) -> (closed: Vec<u64>)
    ensures
        escape_just_pressed ==> closed@ == focused_windows(windows@),
        !escape_just_pressed ==> closed@ == Seq::<u64>::empty(),
        escape_just_pressed ==> closed@ == windows@.filter(|w: (u64, bool)| w.1).map_values(
            |w: (u64, bool)| w.0,
        ),
{
    let mut closed: Vec<u64> = Vec::new();
    let n = windows.len();
    let mut i: usize = 0;
    while i < n
        invariant
            n == windows@.len(),
            i <= n,
            escape_just_pressed ==> closed@ == focused_windows(windows@.take(i as int)),
            !escape_just_pressed ==> closed@ == Seq::<u64>::empty(),
        decreases n - i,
    {
        proof {
            assert(windows@.take(i + 1).drop_last() == windows@.take(i as int));
        }
        let (window, focused) = windows[i];
        if focused && escape_just_pressed {
            closed.push(window);
        }
        i = i + 1;
    }
    proof {
        assert(windows@.take(n as int) == windows@);
        lemma_closed_are_focused_in_order(windows@);
    }
    closed
}

/// A window is closed only if it is focused, and every focused window is
/// closed, when Escape was just pressed.
pub proof fn lemma_closes_exactly_focused(windows: Seq<(u64, bool)>, id: u64)
    ensures
        focused_windows(windows).contains(id) <==> exists|i: int|
            0 <= i < windows.len() && #[trigger] windows[i] == (id, true),
    decreases windows.len(),
{
    if windows.len() > 0 {
        let init = windows.drop_last();
        let last = windows.last();
        let rest = focused_windows(init);
        let f = focused_windows(windows);
        lemma_closes_exactly_focused(init, id);
        if f.contains(id) {
            if last.1 && last.0 == id {
                assert(windows[windows.len() - 1] == (id, true));
            } else {
                let j = choose|j: int| 0 <= j < f.len() && f[j] == id;
                if last.1 {
                    assert(j < rest.len());
                }
                assert(rest[j] == id);
                assert(rest.contains(id));
                let i = choose|i: int| 0 <= i < init.len() && #[trigger] init[i] == (id, true);
                assert(windows[i] == (id, true));
            }
        }
        if exists|i: int| 0 <= i < windows.len() && #[trigger] windows[i] == (id, true) {
            let i = choose|i: int| 0 <= i < windows.len() && #[trigger] windows[i] == (id, true);
            if i == windows.len() - 1 {
                assert(f[f.len() - 1] == id);
            } else {
                assert(init[i] == (id, true));
                assert(rest.contains(id));
                let j = choose|j: int| 0 <= j < rest.len() && rest[j] == id;
                assert(f[j] == id);
            }
        }
    }
}

/// The windows Escape closes are the focused windows, each once and in the
/// order given: the list is the focused entries of `windows` with their ids.
pub proof fn lemma_closed_are_focused_in_order(windows: Seq<(u64, bool)>)
    ensures
        focused_windows(windows) == windows.filter(|w: (u64, bool)| w.1).map_values(
            |w: (u64, bool)| w.0,
        ),
    decreases windows.len(),
{
    reveal(Seq::filter);
    if windows.len() > 0 {
        let init = windows.drop_last();
        lemma_closed_are_focused_in_order(init);
        let sub = init.filter(|w: (u64, bool)| w.1);
        assert(windows.filter(|w: (u64, bool)| w.1) == if windows.last().1 {
            sub.push(windows.last())
        } else {
            sub
        });
        assert(sub.push(windows.last()).map_values(|w: (u64, bool)| w.0) =~= sub.map_values(
            |w: (u64, bool)| w.0,
        ).push(windows.last().0));
    } else {
        assert(windows.filter(|w: (u64, bool)| w.1).map_values(|w: (u64, bool)| w.0) =~= Seq::<
            u64,
        >::empty());
    }
}

/// Escape closes as many windows as are focused, and the `k`-th closed window
/// is the `k`-th focused one.
pub proof fn lemma_closed_count_and_order(windows: Seq<(u64, bool)>, k: int)
    requires
        0 <= k < windows.filter(|w: (u64, bool)| w.1).len(),
    ensures
        focused_windows(windows).len() == windows.filter(|w: (u64, bool)| w.1).len(),
        focused_windows(windows)[k] == windows.filter(|w: (u64, bool)| w.1)[k].0,
        windows.filter(|w: (u64, bool)| w.1)[k].1,
{
    lemma_closed_are_focused_in_order(windows);
    windows.filter_lemma(|w: (u64, bool)| w.1);
}

} // verus!
