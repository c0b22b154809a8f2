//! The TGFS statistics page: links generated per bot.

use vstd::prelude::*;
use crate::text::{self, i64_to_string};
use crate::tgfs_models::TgfsBotBreakdown;
use crate::util::{self, commas};

verus! {

/// Sum of the counts given for `bot` among the first `n` `(bot, count)` groups.
pub open spec fn bot_sum(groups: Seq<(i64, i64)>, bot: i64, n: int) -> int
    decreases n,
{
    if n <= 0 {
        0
    } else {
        bot_sum(groups, bot, n - 1) + (if groups[n - 1].0 == bot {
            groups[n - 1].1 as int
        } else {
            0
        })
    }
}

/// Some of the first `n` groups is for `bot`.
pub open spec fn has_bot(groups: Seq<(i64, i64)>, bot: i64, n: int) -> bool {
    exists|k: int| 0 <= k < n && #[trigger] groups[k].0 == bot
}

/// The running total of every bot stays an `i64` while the groups are added up.
pub open spec fn sums_fit(groups: Seq<(i64, i64)>) -> bool {
    forall|bot: i64, n: int|
        0 <= n <= groups.len() ==> i64::MIN <= #[trigger] bot_sum(groups, bot, n) <= i64::MAX
}

/// Some row is for `bot`.
pub open spec fn has_row(rows: Seq<(i64, i64)>, bot: i64) -> bool {
    exists|a: int| 0 <= a < rows.len() && #[trigger] rows[a].0 == bot
}

/// `rows` holds one `(bot, total)` per bot among the first `n` groups, in
/// increasing bot order.
pub open spec fn merged(rows: Seq<(i64, i64)>, groups: Seq<(i64, i64)>, n: int) -> bool {
    &&& forall|a: int, b: int| 0 <= a < b < rows.len() ==> (#[trigger] rows[a]).0 < (#[trigger] rows[b]).0
    &&& forall|a: int|
        0 <= a < rows.len() ==> has_bot(groups, (#[trigger] rows[a]).0, n) && rows[a].1 == bot_sum(
            groups,
            rows[a].0,
            n,
        )
    &&& forall|k: int| 0 <= k < n ==> has_row(rows, (#[trigger] groups[k]).0)
}

/// The running totals of the first `n` groups fit an `i64`.
pub open spec fn prefix_sums_fit(groups: Seq<(i64, i64)>, n: int) -> bool {
    forall|bot: i64, m: int| 0 <= m <= n ==> i64::MIN <= #[trigger] bot_sum(groups, bot, m) <= i64::MAX
}

/// Adds up per-bot link counts gathered from several clusters, one row per bot,
/// ordered by bot id; none when a bot's running total leaves the `i64` range
/// (where adding up with `+=` would overflow).
pub fn merge_bot_counts(groups: &[(i64, i64)]) -> (r: Option<Vec<(i64, i64)>>)
    ensures
        r is Some <==> sums_fit(groups@),
        r matches Some(rows) ==> merged(rows@, groups@, groups@.len() as int),
{
    let mut rows: Vec<(i64, i64)> = Vec::new();
    let mut i: usize = 0;
    while i < groups.len()
        invariant
            i <= groups@.len(),
            prefix_sums_fit(groups@, i as int),
            merged(rows@, groups@, i as int),
        decreases groups@.len() - i,
    {
        let (bot, count) = groups[i];
        let mut j: usize = 0;
        while j < rows.len() && rows[j].0 < bot
            invariant
                j <= rows@.len(),
                forall|a: int| 0 <= a < j ==> (#[trigger] rows@[a]).0 < bot,
            decreases rows@.len() - j,
        {
            j = j + 1;
        }
        let ghost old_rows = rows@;
        let ghost n = i as int;
        proof {
            assert(bot_sum(groups@, bot, n + 1) == bot_sum(groups@, bot, n) + count);
            assert forall|b: i64| b != bot implies bot_sum(groups@, b, n + 1) == bot_sum(groups@, b, n) by {}
        }
        if j < rows.len() && rows[j].0 == bot {
            let total = match rows[j].1.checked_add(count) {
                Some(t) => t,
                None => {
                    proof {
                        assert(!(i64::MIN <= bot_sum(groups@, bot, n + 1) <= i64::MAX));
                    }
                    return None;
                },
            };
            proof {
                assert forall|b: i64, m: int| 0 <= m <= n + 1 implies i64::MIN <= #[trigger] bot_sum(groups@, b, m)
                    <= i64::MAX by {
                    if m == n + 1 && b != bot {
                        assert(bot_sum(groups@, b, n + 1) == bot_sum(groups@, b, n));
                    }
                }
            }
            rows.set(j, (bot, total));
            proof {
                assert forall|a: int| 0 <= a < rows@.len() implies has_bot(groups@, (#[trigger] rows@[a]).0, n + 1)
                    && rows@[a].1 == bot_sum(groups@, rows@[a].0, n + 1) by {
                    assert(has_bot(groups@, old_rows[a].0, n));
                    let w = choose|w: int| 0 <= w < n && #[trigger] groups@[w].0 == old_rows[a].0;
                    assert(groups@[w].0 == rows@[a].0);
                }
                assert forall|k: int| 0 <= k < n + 1 implies has_row(rows@, (#[trigger] groups@[k]).0) by {
                    if k < n {
                        assert(has_row(old_rows, groups@[k].0));
                        let a = choose|a: int| 0 <= a < old_rows.len() && #[trigger] old_rows[a].0 == groups@[k].0;
                        assert(rows@[a].0 == groups@[k].0);
                    } else {
                        assert(rows@[j as int].0 == groups@[k].0);
                    }
                }
            }
        } else {
            proof {
                if j < old_rows.len() {
                    assert forall|a: int| j <= a < old_rows.len() implies (#[trigger] old_rows[a]).0 > bot by {
                        if j < a {
                            assert(old_rows[j as int].0 < old_rows[a].0);
                        }
                    }
                }
                assert(!has_bot(groups@, bot, n)) by {
                    if has_bot(groups@, bot, n) {
                        let w = choose|w: int| 0 <= w < n && #[trigger] groups@[w].0 == bot;
                        assert(has_row(old_rows, groups@[w].0));
                        let a = choose|a: int| 0 <= a < old_rows.len() && #[trigger] old_rows[a].0 == groups@[w].0;
                        if a < j {
                            assert(old_rows[a].0 < bot);
                        } else {
                            assert(old_rows[a].0 > bot);
                        }
                    }
                }
                lemma_bot_sum_absent(groups@, bot, n);
                assert forall|b: i64, m: int| 0 <= m <= n + 1 implies i64::MIN <= #[trigger] bot_sum(groups@, b, m)
                    <= i64::MAX by {
                    if m == n + 1 && b != bot {
                        assert(bot_sum(groups@, b, n + 1) == bot_sum(groups@, b, n));
                    }
                }
            }
            rows.insert(j, (bot, count));
            proof {
                assert(rows@ == old_rows.insert(j as int, (bot, count)));
                assert forall|a: int, b: int| 0 <= a < b < rows@.len() implies (#[trigger] rows@[a]).0 < (
                #[trigger] rows@[b]).0 by {
                    if b < j {
                        assert(old_rows[a].0 < old_rows[b].0);
                    } else if b == j {
                        assert(old_rows[a].0 < bot);
                    } else if a == j {
                        assert(old_rows[b - 1].0 > bot);
                    } else if a < j {
                        assert(old_rows[a].0 < bot);
                        assert(old_rows[b - 1].0 > bot);
                    } else {
                        assert(old_rows[a - 1].0 < old_rows[b - 1].0);
                    }
                }
                assert forall|a: int| 0 <= a < rows@.len() implies has_bot(groups@, (#[trigger] rows@[a]).0, n + 1)
                    && rows@[a].1 == bot_sum(groups@, rows@[a].0, n + 1) by {
                    if a == j {
                        assert(groups@[n].0 == bot);
                    } else {
                        let o = if a < j {
                            a
                        } else {
                            a - 1
                        };
                        assert(rows@[a] == old_rows[o]);
                        assert(has_bot(groups@, old_rows[o].0, n));
                        let w = choose|w: int| 0 <= w < n && #[trigger] groups@[w].0 == old_rows[o].0;
                        assert(groups@[w].0 == rows@[a].0);
                        assert(old_rows[o].0 != bot);
                    }
                }
                assert forall|k: int| 0 <= k < n + 1 implies has_row(rows@, (#[trigger] groups@[k]).0) by {
                    if k < n {
                        assert(has_row(old_rows, groups@[k].0));
                        let a = choose|a: int| 0 <= a < old_rows.len() && #[trigger] old_rows[a].0 == groups@[k].0;
                        if a < j {
                            assert(rows@[a].0 == groups@[k].0);
                        } else {
                            assert(rows@[a + 1].0 == groups@[k].0);
                        }
                    } else {
                        assert(rows@[j as int].0 == groups@[k].0);
                    }
                }
            }
        }
        i = i + 1;
    }
    Some(rows)
}

proof fn lemma_bot_sum_absent(groups: Seq<(i64, i64)>, bot: i64, n: int)
    requires
        0 <= n <= groups.len(),
        !has_bot(groups, bot, n),
    ensures
        bot_sum(groups, bot, n) == 0,
    decreases n,
{
    if n > 0 {
        assert(groups[n - 1].0 != bot);
        assert(!has_bot(groups, bot, n - 1)) by {
            if has_bot(groups, bot, n - 1) {
                let w = choose|w: int| 0 <= w < n - 1 && #[trigger] groups[w].0 == bot;
                assert(0 <= w < n && groups[w].0 == bot);
            }
        }
        lemma_bot_sum_absent(groups, bot, n - 1);
    }
}

/// The breakdown table: each bot id with its count, thousands separated.
pub fn bot_breakdown_rows(rows: &[(i64, i64)]) -> (r: Vec<TgfsBotBreakdown>)
    ensures
        r@.len() == rows@.len(),
        forall|k: int|
            0 <= k < r@.len() ==> (#[trigger] r@[k]).bot_id@ == text::int_decimal(rows@[k].0 as int)
                && r@[k].count_fmt@ == util::spec_commas(rows@[k].1 as int),
{
    let mut r: Vec<TgfsBotBreakdown> = Vec::new();
    let mut i: usize = 0;
    while i < rows.len()
        invariant
            i <= rows@.len(),
            r@.len() == i,
            forall|k: int|
                0 <= k < r@.len() ==> (#[trigger] r@[k]).bot_id@ == text::int_decimal(rows@[k].0 as int)
                    && r@[k].count_fmt@ == util::spec_commas(rows@[k].1 as int),
        decreases rows@.len() - i,
    {
        r.push(TgfsBotBreakdown { bot_id: i64_to_string(rows[i].0), count_fmt: commas(rows[i].1) });
        i = i + 1;
    }
    r
}

} // verus!
