//! Moving the selection through a device list in which some devices are hidden.
use vstd::prelude::*;

verus! {

/// Whether the entry at `i` can be selected: hidden entries can only where hidden
/// entries are shown; positions past the list count as not hidden.
pub open spec fn selectable(hidden: Seq<bool>, show_hidden: bool, i: int) -> bool {
    show_hidden || !(0 <= i < hidden.len() && hidden[i])
}

fn is_selectable(hidden: &Vec<bool>, show_hidden: bool, i: usize) -> (r: bool)
    ensures
        r == selectable(hidden@, show_hidden, i as int),
{
    show_hidden || !(i < hidden.len() && hidden[i])
}

/// The selection after moving up from `selected`: the nearest selectable entry above
/// it, or `selected` itself where there is none.
pub fn select_up(hidden: &Vec<bool>, show_hidden: bool, selected: usize) -> (r: usize)
    ensures
        r == selected || (r < selected && selectable(hidden@, show_hidden, r as int) && forall|j: int|
            r < j < selected ==> !selectable(hidden@, show_hidden, j)),
        r == selected ==> forall|j: int| 0 <= j < selected ==> !selectable(hidden@, show_hidden, j),
{
    let mut i: usize = selected;
    while i > 0
        invariant
            i <= selected,
            forall|j: int| i <= j < selected ==> !selectable(hidden@, show_hidden, j),
        decreases i,
    {
        if is_selectable(hidden, show_hidden, i - 1) {
            return i - 1;
        }
        i = i - 1;
    }
    selected
}

/// The selection after moving down from `selected` in a list of `len` entries: the
/// nearest selectable entry below it, or `selected` itself where there is none.
pub fn select_down(hidden: &Vec<bool>, show_hidden: bool, selected: usize, len: usize) -> (r: usize)
    ensures
        r == selected || (selected < r < len && selectable(hidden@, show_hidden, r as int) && forall|j: int|
            selected < j < r ==> !selectable(hidden@, show_hidden, j)),
        r == selected ==> forall|j: int| selected < j < len ==> !selectable(hidden@, show_hidden, j),
{
    if selected >= len {
        return selected;
    }
    let mut i: usize = selected + 1;
    while i < len
        invariant
            selected < i <= len,
            forall|j: int| selected < j < i ==> !selectable(hidden@, show_hidden, j),
        decreases len - i,
    {
        if is_selectable(hidden, show_hidden, i) {
            return i;
        }
        i = i + 1;
    }
    selected
}

/// The selection after the selected entry was hidden while hidden entries are not
/// shown: the nearest visible entry below it, else the nearest above it, else
/// `selected` itself.
pub fn select_after_hide(hidden: &Vec<bool>, selected: usize) -> (r: usize)
    requires
        selected < hidden@.len(),
    ensures
        ({
            let below = exists|j: int| selected < j < hidden@.len() && !hidden@[j];
            let above = exists|j: int| 0 <= j < selected && !hidden@[j];
            if below {
                selected < r < hidden@.len() && !hidden@[r as int] && forall|j: int|
                    selected < j < r ==> hidden@[j]
            } else if above {
                r < selected && !hidden@[r as int] && forall|j: int| r < j < selected ==> hidden@[j]
            } else {
                r == selected
            }
        }),
{
    let down = select_down(hidden, false, selected, hidden.len());
    if down != selected {
        proof {
            assert(selectable(hidden@, false, down as int));
            assert(!hidden@[down as int]);
            assert forall|j: int| selected < j < down implies hidden@[j] by {
                assert(!selectable(hidden@, false, j));
            }
        }
        return down;
    }
    let up = select_up(hidden, false, selected);
    proof {
        assert forall|j: int| selected < j < hidden@.len() implies hidden@[j] by {
            assert(!selectable(hidden@, false, j));
        }
        assert forall|j: int| 0 <= j < selected implies (up == selected ==> hidden@[j]) by {
            if up == selected {
                assert(!selectable(hidden@, false, j));
            }
        }
        if up != selected {
            assert(selectable(hidden@, false, up as int));
            assert forall|j: int| up < j < selected implies hidden@[j] by {
                assert(!selectable(hidden@, false, j));
            }
        }
    }
    up
}

} // verus!
