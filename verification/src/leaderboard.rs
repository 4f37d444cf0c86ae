//! The bounded leaderboard: a top-10 cache of entity scores, upserted
//! on every share change. It stays sorted descending, duplicate-free
//! and length-bounded under arbitrary interleavings of upserts and
//! removals.

use vstd::prelude::*;

use crate::state::LeaderboardEntry;

verus! {

/// The most entries the leaderboard keeps.
pub const LEADERBOARD_CAP: usize = 10;

/// Scores never increase along the list.
pub open spec fn lb_sorted(s: Seq<LeaderboardEntry>) -> bool {
    forall|i: int, j: int| 0 <= i < j < s.len() ==> s[i].score >= s[j].score
}

/// No entity appears twice.
pub open spec fn lb_unique(s: Seq<LeaderboardEntry>) -> bool {
    forall|i: int, j: int|
        0 <= i < j < s.len() ==> s[i].token_id != s[j].token_id
}

/// The collection invariant: bounded, sorted descending, no duplicate
/// entities.
pub open spec fn lb_wf(s: Seq<LeaderboardEntry>) -> bool {
    s.len() <= LEADERBOARD_CAP && lb_sorted(s) && lb_unique(s)
}

/// The list with every entry of one entity dropped, order kept.
pub open spec fn lb_remove(s: Seq<LeaderboardEntry>, token_id: u64) -> Seq<LeaderboardEntry>
    decreases s.len(),
{
    if s.len() == 0 {
        Seq::empty()
    } else if s.last().token_id == token_id {
        lb_remove(s.drop_last(), token_id)
    } else {
        lb_remove(s.drop_last(), token_id).push(s.last())
    }
}

/// Where a score ranks: the length of the leading run of entries that
/// score at least as much, so an equal score goes after its peers.
pub open spec fn lb_rank(s: Seq<LeaderboardEntry>, score: u128) -> int
    decreases s.len(),
{
    if s.len() == 0 {
        0
    } else if s[0].score >= score {
        1 + lb_rank(s.drop_first(), score)
    } else {
        0
    }
}

/// The list truncated to the cap.
pub open spec fn lb_truncate(s: Seq<LeaderboardEntry>) -> Seq<LeaderboardEntry> {
    if s.len() <= LEADERBOARD_CAP {
        s
    } else {
        s.subrange(0, LEADERBOARD_CAP as int)
    }
}

/// What an upsert produces: the entity's old entry dropped, the new
/// one ranked in, the list truncated to the cap.
pub open spec fn lb_upsert(
    s: Seq<LeaderboardEntry>,
    token_id: u64,
    score: u128,
) -> Seq<LeaderboardEntry> {
    let cleaned = lb_remove(s, token_id);
    let entry = LeaderboardEntry { token_id, score };
    lb_truncate(cleaned.insert(lb_rank(cleaned, score), entry))
}

/// Every entry that survives a removal stood in the list before it.
proof fn lemma_lb_remove_membership(s: Seq<LeaderboardEntry>, token_id: u64)
    ensures
        lb_remove(s, token_id).len() <= s.len(),
        forall|k: int| #![trigger lb_remove(s, token_id)[k]]
            0 <= k < lb_remove(s, token_id).len() ==> exists|j: int|
                0 <= j < s.len() && lb_remove(s, token_id)[k] == #[trigger] s[j],
        forall|k: int| #![trigger lb_remove(s, token_id)[k]]
            0 <= k < lb_remove(s, token_id).len() ==> lb_remove(s, token_id)[k].token_id
                != token_id,
    decreases s.len(),
{
    if s.len() > 0 {
        lemma_lb_remove_membership(s.drop_last(), token_id);
        let res = lb_remove(s, token_id);
        let sub = lb_remove(s.drop_last(), token_id);
        if s.last().token_id != token_id {
            assert forall|k: int| #![trigger res[k]] 0 <= k < res.len() implies exists|j: int|
                0 <= j < s.len() && res[k] == #[trigger] s[j] by {
                if k < sub.len() {
                    let j = choose|j: int| 0 <= j < s.drop_last().len() && sub[k] == #[trigger] s.drop_last()[j];
                    assert(res[k] == s[j]);
                } else {
                    assert(res[k] == s[s.len() - 1]);
                }
            }
        } else {
            assert forall|k: int| #![trigger res[k]] 0 <= k < res.len() implies exists|j: int|
                0 <= j < s.len() && res[k] == #[trigger] s[j] by {
                let j = choose|j: int| 0 <= j < s.drop_last().len() && sub[k] == #[trigger] s.drop_last()[j];
                assert(res[k] == s[j]);
            }
        }
    }
}

/// Removal keeps the order and the uniqueness of what stays.
proof fn lemma_lb_remove_wf(s: Seq<LeaderboardEntry>, token_id: u64)
    ensures
        lb_sorted(s) ==> lb_sorted(lb_remove(s, token_id)),
        lb_unique(s) ==> lb_unique(lb_remove(s, token_id)),
    decreases s.len(),
{
    if s.len() > 0 {
        lemma_lb_remove_wf(s.drop_last(), token_id);
        lemma_lb_remove_membership(s.drop_last(), token_id);
        let res = lb_remove(s, token_id);
        let sub = lb_remove(s.drop_last(), token_id);
        if s.last().token_id != token_id {
            if lb_sorted(s) {
                assert forall|i: int, j: int| 0 <= i < j < res.len() implies res[i].score
                    >= res[j].score by {
                    if j < sub.len() {
                    } else {
                        let oi = choose|oi: int|
                            0 <= oi < s.drop_last().len() && sub[i] == #[trigger] s.drop_last()[oi];
                        assert(res[i] == s[oi]);
                        assert(res[j] == s[s.len() - 1]);
                    }
                }
            }
            if lb_unique(s) {
                assert forall|i: int, j: int| 0 <= i < j < res.len() implies res[i].token_id
                    != res[j].token_id by {
                    if j < sub.len() {
                    } else {
                        let oi = choose|oi: int|
                            0 <= oi < s.drop_last().len() && sub[i] == #[trigger] s.drop_last()[oi];
                        assert(res[i] == s[oi]);
                        assert(res[j] == s[s.len() - 1]);
                    }
                }
            }
        }
    }
}

/// The rank is a valid position: everything before it scores at least
/// as much, and the entry at it (if any) scores strictly less.
proof fn lemma_lb_rank_props(s: Seq<LeaderboardEntry>, score: u128)
    ensures
        0 <= lb_rank(s, score) <= s.len(),
        forall|j: int| 0 <= j < lb_rank(s, score) ==> s[j].score >= score,
        lb_rank(s, score) < s.len() ==> s[lb_rank(s, score)].score < score,
    decreases s.len(),
{
    if s.len() > 0 && s[0].score >= score {
        lemma_lb_rank_props(s.drop_first(), score);
        assert forall|j: int| 0 <= j < lb_rank(s, score) implies s[j].score >= score by {
            if j > 0 {
                assert(s.drop_first()[j - 1] == s[j]);
            }
        }
    }
}

/// Ranking a fresh entry into a sorted, duplicate-free list keeps it
/// sorted and duplicate-free.
proof fn lemma_lb_insert_wf(s: Seq<LeaderboardEntry>, entry: LeaderboardEntry)
    requires
        lb_sorted(s),
        lb_unique(s),
        forall|k: int| 0 <= k < s.len() ==> s[k].token_id != entry.token_id,
    ensures
        lb_sorted(s.insert(lb_rank(s, entry.score), entry)),
        lb_unique(s.insert(lb_rank(s, entry.score), entry)),
{
    lemma_lb_rank_props(s, entry.score);
    let r = lb_rank(s, entry.score);
    let res = s.insert(r, entry);
    assert forall|i: int, j: int| 0 <= i < j < res.len() implies res[i].score >= res[j].score by {
        if i < r && j == r {
            assert(res[i] == s[i]);
        } else if i == r && j > r {
            assert(res[j] == s[j - 1]);
            assert(s[r].score < entry.score);
        } else if i < r && j > r {
            assert(res[i] == s[i] && res[j] == s[j - 1]);
        } else if i > r && j > r {
            assert(res[i] == s[i - 1] && res[j] == s[j - 1]);
        } else if i < r && j < r {
            assert(res[i] == s[i] && res[j] == s[j]);
        }
    }
    assert forall|i: int, j: int| 0 <= i < j < res.len() implies res[i].token_id
        != res[j].token_id by {
        if i != r && j != r {
            let oi: int = if i < r { i } else { i - 1 };
            let oj: int = if j < r { j } else { j - 1 };
            assert(res[i] == s[oi] && res[j] == s[oj]);
        } else if i == r {
            assert(res[j] == s[j - 1]);
        } else {
            assert(res[i] == s[i]);
        }
    }
}

/// A prefix of a sorted, duplicate-free list is sorted and
/// duplicate-free.
proof fn lemma_lb_truncate_wf(s: Seq<LeaderboardEntry>)
    requires
        lb_sorted(s),
        lb_unique(s),
    ensures
        lb_wf(lb_truncate(s)),
{
}

/// An upsert yields a well-formed leaderboard.
pub proof fn lemma_lb_upsert_wf(s: Seq<LeaderboardEntry>, token_id: u64, score: u128)
    requires
        lb_sorted(s),
        lb_unique(s),
    ensures
        lb_wf(lb_upsert(s, token_id, score)),
{
    lemma_lb_remove_wf(s, token_id);
    lemma_lb_remove_membership(s, token_id);
    let cleaned = lb_remove(s, token_id);
    let entry = LeaderboardEntry { token_id, score };
    lemma_lb_insert_wf(cleaned, entry);
    lemma_lb_truncate_wf(cleaned.insert(lb_rank(cleaned, score), entry));
}

/// A removal from a well-formed leaderboard leaves it well-formed.
pub proof fn lemma_lb_remove_keeps_wf(s: Seq<LeaderboardEntry>, token_id: u64)
    requires
        lb_wf(s),
    ensures
        lb_wf(lb_remove(s, token_id)),
{
    lemma_lb_remove_wf(s, token_id);
    lemma_lb_remove_membership(s, token_id);
}

/// Drops any existing entry for the entity, ranks in the new score,
/// and truncates to the cap.
pub fn update_leaderboard(leaderboard: &mut Vec<LeaderboardEntry>, token_id: u64, score: u128)
    ensures
        final(leaderboard)@ == lb_upsert(old(leaderboard)@, token_id, score),
        lb_wf(old(leaderboard)@) ==> lb_wf(final(leaderboard)@),
{
    let ghost orig = leaderboard@;
    let n = leaderboard.len();
    let mut cleaned: Vec<LeaderboardEntry> = Vec::new();
    let mut i: usize = 0;
    while i < n
        invariant
            i <= n,
            n == leaderboard@.len(),
            leaderboard@ == orig,
            cleaned@ == lb_remove(orig.subrange(0, i as int), token_id),
        decreases n - i,
    {
        proof {
            assert(orig.subrange(0, i + 1).drop_last() =~= orig.subrange(0, i as int));
            assert(orig.subrange(0, i + 1).last() == orig[i as int]);
        }
        let e = leaderboard[i];
        if e.token_id != token_id {
            cleaned.push(e);
        }
        i = i + 1;
    }
    proof {
        assert(orig.subrange(0, n as int) =~= orig);
        lemma_lb_remove_membership(orig, token_id);
    }
    let entry = LeaderboardEntry { token_id, score };
    let m = cleaned.len();
    let mut idx: usize = 0;
    while idx < m && cleaned[idx].score >= score
        invariant
            idx <= m,
            m == cleaned@.len(),
            cleaned@ == lb_remove(orig, token_id),
            forall|j: int| 0 <= j < idx ==> cleaned@[j].score >= score,
        decreases m - idx,
    {
        idx = idx + 1;
    }
    proof {
        lemma_lb_rank_is_scan(cleaned@, score, idx as int);
    }
    cleaned.insert(idx, entry);
    if cleaned.len() > LEADERBOARD_CAP {
        cleaned.truncate(LEADERBOARD_CAP);
        proof {
            assert(cleaned@ =~= lb_truncate(lb_remove(orig, token_id).insert(
                lb_rank(lb_remove(orig, token_id), score),
                entry,
            )));
        }
    }
    *leaderboard = cleaned;
    proof {
        if lb_wf(orig) {
            lemma_lb_upsert_wf(orig, token_id, score);
        }
    }
}

/// A scan that stops at the first lower score lands on the rank.
proof fn lemma_lb_rank_is_scan(s: Seq<LeaderboardEntry>, score: u128, i: int)
    requires
        0 <= i <= s.len(),
        forall|j: int| 0 <= j < i ==> s[j].score >= score,
        i < s.len() ==> s[i].score < score,
    ensures
        lb_rank(s, score) == i,
    decreases i,
{
    if i == 0 {
    } else {
        assert(s[0].score >= score);
        assert forall|j: int| 0 <= j < i - 1 implies s.drop_first()[j].score >= score by {
            assert(s.drop_first()[j] == s[j + 1]);
        }
        if i - 1 < s.drop_first().len() {
            assert(s.drop_first()[i - 1] == s[i]);
        }
        lemma_lb_rank_is_scan(s.drop_first(), score, i - 1);
    }
}

/// Deletes the entity's entry, if present; everything else keeps its
/// position.
pub fn remove_from_leaderboard(leaderboard: &mut Vec<LeaderboardEntry>, token_id: u64)
    ensures
        final(leaderboard)@ == lb_remove(old(leaderboard)@, token_id),
        lb_wf(old(leaderboard)@) ==> lb_wf(final(leaderboard)@),
{
    let ghost orig = leaderboard@;
    let n = leaderboard.len();
    let mut cleaned: Vec<LeaderboardEntry> = Vec::new();
    let mut i: usize = 0;
    while i < n
        invariant
            i <= n,
            n == leaderboard@.len(),
            leaderboard@ == orig,
            cleaned@ == lb_remove(orig.subrange(0, i as int), token_id),
        decreases n - i,
    {
        proof {
            assert(orig.subrange(0, i + 1).drop_last() =~= orig.subrange(0, i as int));
            assert(orig.subrange(0, i + 1).last() == orig[i as int]);
        }
        let e = leaderboard[i];
        if e.token_id != token_id {
            cleaned.push(e);
        }
        i = i + 1;
    }
    proof {
        assert(orig.subrange(0, n as int) =~= orig);
        if lb_wf(orig) {
            lemma_lb_remove_keeps_wf(orig, token_id);
        }
    }
    *leaderboard = cleaned;
}

} // verus!
