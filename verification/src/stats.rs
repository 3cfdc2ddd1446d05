//! Derived match statistics: KD ratio with two-decimal fixed
//! formatting, truncated headshot percentage, average combat score, and
//! the leaderboard position of a participant under the stable
//! KD-descending ordering.
//!
//! Division by zero is defined away rather than left to crash: zero
//! deaths render as a sentinel, and rate fields whose denominator is
//! zero are skipped entirely.

use vstd::prelude::*;
use vstd::arithmetic::div_mod::{
    lemma_div_by_multiple,
    lemma_div_is_ordered,
    lemma_div_nonincreasing,
    lemma_fundamental_div_mod_converse,
};
use vstd::string::StringExecFns;
use crate::hendrix_response::Player;
use crate::text::{append_u64, dec_rep, digit_char, digit_str};

verus! {

/// KD ratio in hundredths: `kills / deaths` scaled by 100 and rounded
/// to the nearest hundredth, halves away from zero.
pub open spec fn kd_hundredths(kills: int, deaths: int) -> int {
    (kills * 200 / deaths + 1) / 2
}

/// The rendered KD ratio: two-decimal fixed formatting, or the
/// sentinel `"Perfect"` when the player never died.
pub open spec fn kd_seq(kills: int, deaths: int) -> Seq<char>
    recommends
        0 <= kills,
        0 <= deaths,
{
    if deaths == 0 {
        "Perfect"@
    } else {
        let h = kd_hundredths(kills, deaths);
        let f = h % 100;
        dec_rep((h / 100) as nat) + seq!['.', digit_char(f / 10), digit_char(f % 10)]
    }
}

/// Formats `kills / deaths` with exactly two decimals, rounded to the
/// nearest hundredth, e.g. 10 kills and 4 deaths render as `"2.50"`
/// and 2 kills and 3 deaths as `"0.67"`.  Zero deaths render as
/// `"Perfect"`.
pub fn format_kd(kills: i64, deaths: i64) -> (r: String)
    requires
        0 <= kills,
        0 <= deaths,
    ensures
        r@ == kd_seq(kills as int, deaths as int),
{
    if deaths == 0 {
        return "Perfect".to_owned();
    }
    let a: u128 = (kills as u128) * 200 / (deaths as u128);
    let h: u128 = (a + 1) / 2;
    proof {
        lemma_div_nonincreasing(kills as int * 200, deaths as int);
        lemma_div_is_ordered(a as int + 1, kills as int * 200 + 1, 2);
        lemma_fundamental_div_mod_converse(kills as int * 200 + 1, 2, kills as int * 100, 1);
        assert(h as int <= kills as int * 100);
        lemma_div_is_ordered(h as int, kills as int * 100, 100);
        lemma_div_by_multiple(kills as int, 100);
        assert(kills as int * 100 == 100 * (kills as int)) by (nonlinear_arith);
        assert(h as int / 100 <= kills as int);
    }
    let whole: u64 = (h / 100) as u64;
    let f: u64 = (h % 100) as u64;
    let mut s = String::new();
    append_u64(&mut s, whole);
    proof {
        reveal_strlit(".");
        assert("."@ =~= seq!['.']);
    }
    s.append(".");
    s.append(digit_str(f / 10));
    s.append(digit_str(f % 10));
    proof {
        assert(s@ =~= kd_seq(kills as int, deaths as int));
    }
    s
}

/// Truncated percentage of shots that were headshots.
pub open spec fn headshot_pct(head: int, body: int, leg: int) -> int {
    head * 100 / (head + body + leg)
}

/// The headshot percentage, truncated (not rounded), or `None` when no
/// shot was recorded at all, in which case the field is skipped.
pub fn headshot_percentage(head: i64, body: i64, leg: i64) -> (r: Option<i64>)
    requires
        0 <= head,
        0 <= body,
        0 <= leg,
    ensures
        match r {
            None => head + body + leg == 0,
            Some(p) => head + body + leg > 0 && p == headshot_pct(
                head as int,
                body as int,
                leg as int,
            ),
        },
{
    let total: u128 = head as u128 + body as u128 + leg as u128;
    if total == 0 {
        return None;
    }
    let p: u128 = (head as u128) * 100 / total;
    proof {
        assert(head as int * 100 <= total as int * 100) by (nonlinear_arith)
            requires
                0 <= head as int <= total as int,
        ;
        lemma_div_is_ordered(head as int * 100, total as int * 100, total as int);
        lemma_div_by_multiple(100, total as int);
        assert(total as int * 100 == 100 * (total as int)) by (nonlinear_arith);
        assert(p as int <= 100);
    }
    Some(p as i64)
}

/// Average combat score: total score over rounds played, integer
/// division, or `None` (field skipped) when no round was played.
pub fn average_combat_score(score: i64, rounds: usize) -> (r: Option<i64>)
    requires
        0 <= score,
    ensures
        match r {
            None => rounds == 0,
            Some(a) => rounds > 0 && a == score as int / rounds as int,
        },
{
    if rounds == 0 {
        return None;
    }
    let a: u128 = (score as u128) / (rounds as u128);
    proof {
        lemma_div_nonincreasing(score as int, rounds as int);
    }
    Some(a as i64)
}

/// Whether KD ratio `k1 / d1` is strictly greater than `k2 / d2`,
/// comparing as exact rationals; zero deaths count as an infinite
/// ratio, above every finite one and tied with every other infinite
/// one.
pub open spec fn kd_gt(k1: int, d1: int, k2: int, d2: int) -> bool {
    if d1 == 0 {
        d2 != 0
    } else if d2 == 0 {
        false
    } else {
        k1 * d2 > k2 * d1
    }
}

pub open spec fn player_kd_gt(a: Player, b: Player) -> bool {
    kd_gt(a.stats.kills as int, a.stats.deaths as int, b.stats.kills as int, b.stats.deaths as int)
}

/// Whether the participant at index `i` stands before the one at index
/// `j` when all participants are sorted by KD ratio descending with
/// ties broken by original provider order.
pub open spec fn player_beats(a: Player, b: Player, i: int, j: int) -> bool {
    player_kd_gt(a, b) || (!player_kd_gt(a, b) && !player_kd_gt(b, a) && i < j)
}

/// How many of the first `upto` participants stand before the one at
/// index `j`.
pub open spec fn count_beating(players: Seq<Player>, j: int, upto: int) -> int
    decreases upto,
{
    if upto <= 0 {
        0
    } else {
        count_beating(players, j, upto - 1) + if player_beats(
            players[upto - 1],
            players[j],
            upto - 1,
            j,
        ) {
            1 as int
        } else {
            0 as int
        }
    }
}

/// The 1-based rank of the participant at index `j` under the stable
/// KD-descending ordering.
pub open spec fn kd_position(players: Seq<Player>, j: int) -> int {
    1 + count_beating(players, j, players.len() as int)
}

fn kd_gt_exec(k1: i64, d1: i64, k2: i64, d2: i64) -> (b: bool)
    ensures
        b == kd_gt(k1 as int, d1 as int, k2 as int, d2 as int),
{
    if d1 == 0 {
        d2 != 0
    } else if d2 == 0 {
        false
    } else {
        proof {
            assert(-0x4000_0000_0000_0000_0000_0000_0000_0000 <= (k1 as int) * (d2 as int)
                <= 0x4000_0000_0000_0000_0000_0000_0000_0000
                && -0x4000_0000_0000_0000_0000_0000_0000_0000 <= (k2 as int) * (d1 as int)
                <= 0x4000_0000_0000_0000_0000_0000_0000_0000) by (nonlinear_arith)
                requires
                    -0x8000_0000_0000_0000 <= k1 as int <= 0x7fff_ffff_ffff_ffff,
                    -0x8000_0000_0000_0000 <= d1 as int <= 0x7fff_ffff_ffff_ffff,
                    -0x8000_0000_0000_0000 <= k2 as int <= 0x7fff_ffff_ffff_ffff,
                    -0x8000_0000_0000_0000 <= d2 as int <= 0x7fff_ffff_ffff_ffff,
            ;
        }
        (k1 as i128) * (d2 as i128) > (k2 as i128) * (d1 as i128)
    }
}

fn player_beats_exec(a: &Player, b: &Player, i: usize, j: usize) -> (r: bool)
    ensures
        r == player_beats(*a, *b, i as int, j as int),
{
    let ab = kd_gt_exec(a.stats.kills, a.stats.deaths, b.stats.kills, b.stats.deaths);
    let ba = kd_gt_exec(b.stats.kills, b.stats.deaths, a.stats.kills, a.stats.deaths);
    ab || (!ab && !ba && i < j)
}

/// The 1-based leaderboard position of the participant at index `j`:
/// one more than the number of participants standing before it.
pub fn leaderboard_position(players: &Vec<Player>, j: usize) -> (r: usize)
    requires
        j < players@.len(),
    ensures
        r == kd_position(players@, j as int),
        1 <= r <= players@.len(),
{
    let n = players.len();
    let mut count: usize = 0;
    let mut i: usize = 0;
    while i < n
        invariant
            n == players@.len(),
            j < n,
            0 <= i <= n,
            count == count_beating(players@, j as int, i as int),
            j < i ==> count < i,
            i <= j ==> count <= i,
        decreases n - i,
    {
        if player_beats_exec(&players[i], &players[j], i, j) {
            count = count + 1;
        }
        proof {
            if i == j {
                assert(!player_beats(players@[j as int], players@[j as int], j as int, j as int));
            }
        }
        i = i + 1;
    }
    count + 1
}

} // verus!
