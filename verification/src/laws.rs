use vstd::prelude::*;

use crate::config::{merge_view, ConfigView};
use crate::contract::{page_lo, page_spec};
use crate::game::GameView;
use crate::state::{games_sorted, lemma_insert_pos_properties, next_idx_spec};
use crate::types::Rate;

verus! {

/// The session indices are exactly 0, 1, 2, ... in storage order.
pub open spec fn dense(s: Seq<GameView>) -> bool {
    forall|i: int| 0 <= i < s.len() ==> (#[trigger] s[i]).idx == i
}

/// While no session is ever removed, creation assigns the indices
/// 0, 1, 2, ... in order: on a store holding sessions 0 ... n-1, the next
/// created session receives index n, and the collection stays dense.
pub proof fn lemma_indices_sequential(s: Seq<GameView>, g: GameView)
    requires
        dense(s),
        g.idx == next_idx_spec(s),
    ensures
        g.idx == s.len(),
        dense(s.push(g)),
{
    if s.len() > 0 {
        assert(s[s.len() - 1].idx == s.len() - 1);
    }
    assert forall|i: int| 0 <= i < s.push(g).len() implies (#[trigger] s.push(g)[i]).idx == i by {
        if i < s.len() {
            assert(s.push(g)[i] == s[i]);
        } else {
            assert(s.push(g)[i] == g);
        }
    }
}

/// A partial configuration update with every field absent leaves the
/// configuration unchanged.
pub proof fn lemma_merge_all_absent(c: ConfigView)
    ensures
        merge_view(c, None, None, None, None) == c,
{
    assert(merge_view(c, None, None, None, None) =~= c);
}

/// A partial configuration update changes exactly the fields that are
/// present: each absent field keeps its prior value, each present field
/// takes the given one, and the floors never change.
pub proof fn lemma_merge_partial(
    c: ConfigView,
    admin: Option<Seq<char>>,
    fee_amount: Option<Rate>,
    fee_address: Option<Seq<char>>,
    max_players: Option<u8>,
)
    ensures
        ({
            let m = merge_view(c, admin, fee_amount, fee_address, max_players);
            &&& (admin is None ==> m.admin == c.admin)
            &&& (admin matches Some(a) ==> m.admin == a)
            &&& (fee_amount is None ==> m.fee_amount == c.fee_amount)
            &&& (fee_amount matches Some(r) ==> m.fee_amount == r)
            &&& (fee_address is None ==> m.fee_address == c.fee_address)
            &&& (fee_address matches Some(a) ==> m.fee_address == a)
            &&& (max_players is None ==> m.max_players == c.max_players)
            &&& (max_players matches Some(p) ==> m.max_players == p)
            &&& m.min_entry_fee == c.min_entry_fee
        }),
{
}

/// A listed page of sessions is ascending in index, holds only indices
/// above `start_after`, and is cut to the limit: it is shorter than the
/// limit only when it already holds every session past `start_after`.
pub proof fn lemma_page_properties(s: Seq<GameView>, limit: Option<u8>, start_after: Option<u128>)
    requires
        games_sorted(s),
    ensures
        ({
            let page = page_spec(s, limit, start_after);
            let lim = (match limit {
                Some(l) => l,
                None => 10u8,
            }) as int;
            let remaining = s.len() - page_lo(s, start_after);
            &&& games_sorted(page)
            &&& (start_after matches Some(b) ==> forall|j: int|
                0 <= j < page.len() ==> (#[trigger] page[j]).idx > b)
            &&& page.len() == (if lim <= remaining {
                lim
            } else {
                remaining
            })
        }),
{
    let page = page_spec(s, limit, start_after);
    let lo = page_lo(s, start_after);
    match start_after {
        Some(b) => {
            lemma_insert_pos_properties(s, b as int + 1);
            assert forall|j: int| 0 <= j < page.len() implies (#[trigger] page[j]).idx > b by {
                assert(page[j] == s[lo + j]);
                if lo + j > lo {
                    assert(s[lo].idx < s[lo + j].idx);
                }
                assert(s[lo].idx >= b + 1);
            }
        },
        None => {},
    }
    assert forall|a: int, b2: int|
        0 <= a < b2 < page.len() implies (#[trigger] page[a]).idx < (#[trigger] page[b2]).idx by {
        assert(page[a] == s[lo + a]);
        assert(page[b2] == s[lo + b2]);
    }
}

} // verus!
