//! Lookup of wager and stats records by key, and the lemmas that connect
//! one concrete update of the record vectors to the abstract per-key view
//! (`has_game` / `game_of`, `has_player` / `player_of`) the contracts use.

use vstd::prelude::*;

use crate::state::{
    game_key_is, game_of, games_unique, has_game, has_player, player_of, players_unique,
    GameEntry, PlayerEntry,
};

verus! {

/// In a key-unique record vector, the record at a matching index is the
/// record of that key.
pub proof fn lemma_game_at(s: Seq<GameEntry>, i: int, p: Seq<char>, r: u64)
    requires
        games_unique(s),
        0 <= i < s.len(),
        game_key_is(s[i], p, r),
    ensures
        has_game(s, p, r),
        game_of(s, p, r) == s[i].game,
{
    let j = choose|j: int| 0 <= j < s.len() && game_key_is(#[trigger] s[j], p, r);
    if j < i {
        assert(!game_key_is(s[i], s[j].player@, s[j].round));
    } else if i < j {
        assert(!game_key_is(s[j], s[i].player@, s[i].round));
    }
}

/// Replacing a record with one of the same key preserves uniqueness and
/// leaves every other key's record untouched.
pub proof fn lemma_game_update(s: Seq<GameEntry>, i: int, e: GameEntry)
    requires
        games_unique(s),
        0 <= i < s.len(),
        e.player@ == s[i].player@,
        e.round == s[i].round,
    ensures
        games_unique(s.update(i, e)),
        has_game(s.update(i, e), e.player@, e.round),
        game_of(s.update(i, e), e.player@, e.round) == e.game,
        forall|p: Seq<char>, r: u64|
            #![trigger has_game(s.update(i, e), p, r)]
            !(p == e.player@ && r == e.round) ==> has_game(s.update(i, e), p, r) == has_game(
                s,
                p,
                r,
            ),
        forall|p: Seq<char>, r: u64|
            #![trigger game_of(s.update(i, e), p, r)]
            !(p == e.player@ && r == e.round) && has_game(s, p, r) ==> game_of(
                s.update(i, e),
                p,
                r,
            ) == game_of(s, p, r),
{
    let t = s.update(i, e);
    assert forall|a: int, b: int| 0 <= a < b < t.len() implies !game_key_is(
        #[trigger] t[b],
        #[trigger] t[a].player@,
        t[a].round,
    ) by {
        if a == i {
            assert(!game_key_is(s[b], s[i].player@, s[i].round));
        } else if b == i {
            assert(!game_key_is(s[b], s[a].player@, s[a].round));
        } else {
            assert(!game_key_is(s[b], s[a].player@, s[a].round));
        }
    }
    lemma_game_at(t, i, e.player@, e.round);
    assert forall|p: Seq<char>, r: u64|
        #![trigger has_game(t, p, r)]
        !(p == e.player@ && r == e.round) implies has_game(t, p, r) == has_game(s, p, r) by {
        if has_game(s, p, r) {
            let j = choose|j: int| 0 <= j < s.len() && game_key_is(#[trigger] s[j], p, r);
            assert(j != i);
            assert(game_key_is(t[j], p, r));
            lemma_game_at(t, j, p, r);
        }
        if has_game(t, p, r) {
            let j = choose|j: int| 0 <= j < t.len() && game_key_is(#[trigger] t[j], p, r);
            assert(j != i);
            assert(game_key_is(s[j], p, r));
        }
    }
    assert forall|p: Seq<char>, r: u64|
        #![trigger game_of(t, p, r)]
        !(p == e.player@ && r == e.round) && has_game(s, p, r) implies game_of(t, p, r) == game_of(
        s,
        p,
        r,
    ) by {
        let j = choose|j: int| 0 <= j < s.len() && game_key_is(#[trigger] s[j], p, r);
        assert(j != i);
        assert(game_key_is(t[j], p, r));
        lemma_game_at(t, j, p, r);
        lemma_game_at(s, j, p, r);
    }
}

/// Appending a record with a fresh key preserves uniqueness, registers the
/// new key, and leaves every other key's record untouched.
pub proof fn lemma_game_push(s: Seq<GameEntry>, e: GameEntry)
    requires
        games_unique(s),
        !has_game(s, e.player@, e.round),
    ensures
        games_unique(s.push(e)),
        has_game(s.push(e), e.player@, e.round),
        game_of(s.push(e), e.player@, e.round) == e.game,
        forall|p: Seq<char>, r: u64|
            #![trigger has_game(s.push(e), p, r)]
            !(p == e.player@ && r == e.round) ==> has_game(s.push(e), p, r) == has_game(s, p, r),
        forall|p: Seq<char>, r: u64|
            #![trigger game_of(s.push(e), p, r)]
            !(p == e.player@ && r == e.round) && has_game(s, p, r) ==> game_of(s.push(e), p, r)
                == game_of(s, p, r),
{
    let t = s.push(e);
    assert forall|i: int, j: int| 0 <= i < j < t.len() implies !game_key_is(
        #[trigger] t[j],
        #[trigger] t[i].player@,
        t[i].round,
    ) by {
        if j == t.len() - 1 {
            assert(t[i] == s[i]);
            if game_key_is(t[j], t[i].player@, t[i].round) {
                assert(game_key_is(s[i], e.player@, e.round));
            }
        } else {
            assert(t[i] == s[i] && t[j] == s[j]);
        }
    }
    lemma_game_at(t, t.len() - 1, e.player@, e.round);
    assert forall|p: Seq<char>, r: u64|
        #![trigger has_game(t, p, r)]
        !(p == e.player@ && r == e.round) implies has_game(t, p, r) == has_game(s, p, r) by {
        if has_game(s, p, r) {
            let j = choose|j: int| 0 <= j < s.len() && game_key_is(#[trigger] s[j], p, r);
            assert(game_key_is(t[j], p, r));
            lemma_game_at(t, j, p, r);
        }
        if has_game(t, p, r) {
            let j = choose|j: int| 0 <= j < t.len() && game_key_is(#[trigger] t[j], p, r);
            assert(j != t.len() - 1);
            assert(game_key_is(s[j], p, r));
        }
    }
    assert forall|p: Seq<char>, r: u64|
        #![trigger game_of(t, p, r)]
        !(p == e.player@ && r == e.round) && has_game(s, p, r) implies game_of(t, p, r) == game_of(
        s,
        p,
        r,
    ) by {
        let j = choose|j: int| 0 <= j < s.len() && game_key_is(#[trigger] s[j], p, r);
        assert(game_key_is(t[j], p, r));
        lemma_game_at(t, j, p, r);
        lemma_game_at(s, j, p, r);
    }
}

/// In an identity-unique stats vector, the record at a matching index is
/// the record of that identity.
pub proof fn lemma_player_at(s: Seq<PlayerEntry>, i: int, p: Seq<char>)
    requires
        players_unique(s),
        0 <= i < s.len(),
        s[i].address@ == p,
    ensures
        has_player(s, p),
        player_of(s, p) == s[i].stats,
{
    let j = choose|j: int| 0 <= j < s.len() && (#[trigger] s[j]).address@ == p;
    if j < i {
        assert(s[j].address@ != s[i].address@);
    } else if i < j {
        assert(s[i].address@ != s[j].address@);
    }
}

/// Replacing a stats record with one of the same identity preserves
/// uniqueness and leaves every other identity's record untouched.
pub proof fn lemma_player_update(s: Seq<PlayerEntry>, i: int, e: PlayerEntry)
    requires
        players_unique(s),
        0 <= i < s.len(),
        e.address@ == s[i].address@,
    ensures
        players_unique(s.update(i, e)),
        has_player(s.update(i, e), e.address@),
        player_of(s.update(i, e), e.address@) == e.stats,
        forall|p: Seq<char>|
            #![trigger has_player(s.update(i, e), p)]
            p != e.address@ ==> has_player(s.update(i, e), p) == has_player(s, p),
        forall|p: Seq<char>|
            #![trigger player_of(s.update(i, e), p)]
            p != e.address@ && has_player(s, p) ==> player_of(s.update(i, e), p) == player_of(
                s,
                p,
            ),
{
    let t = s.update(i, e);
    assert(players_unique(t));
    lemma_player_at(t, i, e.address@);
    assert forall|p: Seq<char>|
        #![trigger has_player(t, p)]
        p != e.address@ implies has_player(t, p) == has_player(s, p) by {
        if has_player(s, p) {
            let j = choose|j: int| 0 <= j < s.len() && (#[trigger] s[j]).address@ == p;
            assert(j != i);
            assert(t[j].address@ == p);
            lemma_player_at(t, j, p);
        }
        if has_player(t, p) {
            let j = choose|j: int| 0 <= j < t.len() && (#[trigger] t[j]).address@ == p;
            assert(j != i);
            assert(s[j].address@ == p);
        }
    }
    assert forall|p: Seq<char>|
        #![trigger player_of(t, p)]
        p != e.address@ && has_player(s, p) implies player_of(t, p) == player_of(s, p) by {
        let j = choose|j: int| 0 <= j < s.len() && (#[trigger] s[j]).address@ == p;
        assert(j != i);
        assert(t[j].address@ == p);
        lemma_player_at(t, j, p);
        lemma_player_at(s, j, p);
    }
}

/// Appending a stats record with a fresh identity preserves uniqueness,
/// registers the identity, and leaves every other record untouched.
pub proof fn lemma_player_push(s: Seq<PlayerEntry>, e: PlayerEntry)
    requires
        players_unique(s),
        !has_player(s, e.address@),
    ensures
        players_unique(s.push(e)),
        has_player(s.push(e), e.address@),
        player_of(s.push(e), e.address@) == e.stats,
        forall|p: Seq<char>|
            #![trigger has_player(s.push(e), p)]
            p != e.address@ ==> has_player(s.push(e), p) == has_player(s, p),
        forall|p: Seq<char>|
            #![trigger player_of(s.push(e), p)]
            p != e.address@ && has_player(s, p) ==> player_of(s.push(e), p) == player_of(s, p),
{
    let t = s.push(e);
    assert forall|i: int, j: int| 0 <= i < j < t.len() implies (#[trigger] t[i]).address@ != (
    #[trigger] t[j]).address@ by {
        if j == t.len() - 1 {
            assert(t[i] == s[i]);
            if t[i].address@ == t[j].address@ {
                assert(s[i].address@ == e.address@);
            }
        } else {
            assert(t[i] == s[i] && t[j] == s[j]);
        }
    }
    lemma_player_at(t, t.len() - 1, e.address@);
    assert forall|p: Seq<char>|
        #![trigger has_player(t, p)]
        p != e.address@ implies has_player(t, p) == has_player(s, p) by {
        if has_player(s, p) {
            let j = choose|j: int| 0 <= j < s.len() && (#[trigger] s[j]).address@ == p;
            assert(t[j].address@ == p);
            lemma_player_at(t, j, p);
        }
        if has_player(t, p) {
            let j = choose|j: int| 0 <= j < t.len() && (#[trigger] t[j]).address@ == p;
            assert(j != t.len() - 1);
            assert(s[j].address@ == p);
        }
    }
    assert forall|p: Seq<char>|
        #![trigger player_of(t, p)]
        p != e.address@ && has_player(s, p) implies player_of(t, p) == player_of(s, p) by {
        let j = choose|j: int| 0 <= j < s.len() && (#[trigger] s[j]).address@ == p;
        assert(t[j].address@ == p);
        lemma_player_at(t, j, p);
        lemma_player_at(s, j, p);
    }
}

/// Two stats-record frames compose: records other than `addr`'s untouched
/// from `base` to `pre` and from `pre` to `post` are untouched from `base`
/// to `post`.
pub proof fn lemma_players_frame(
    base: Seq<PlayerEntry>,
    pre: Seq<PlayerEntry>,
    post: Seq<PlayerEntry>,
    addr: Seq<char>,
)
    requires
        forall|p: Seq<char>|
            #![trigger has_player(post, p)]
            p != addr ==> has_player(post, p) == has_player(pre, p),
        forall|p: Seq<char>|
            #![trigger player_of(post, p)]
            p != addr && has_player(pre, p) ==> player_of(post, p) == player_of(pre, p),
        forall|p: Seq<char>|
            #![trigger has_player(pre, p)]
            p != addr ==> has_player(pre, p) == has_player(base, p),
        forall|p: Seq<char>|
            #![trigger player_of(pre, p)]
            p != addr && has_player(base, p) ==> player_of(pre, p) == player_of(base, p),
    ensures
        forall|p: Seq<char>|
            #![trigger has_player(post, p)]
            p != addr ==> has_player(post, p) == has_player(base, p),
        forall|p: Seq<char>|
            #![trigger player_of(post, p)]
            p != addr && has_player(base, p) ==> player_of(post, p) == player_of(base, p),
{
    assert forall|p: Seq<char>|
        #![trigger has_player(post, p)]
        p != addr implies has_player(post, p) == has_player(base, p) by {
        assert(has_player(pre, p) == has_player(base, p));
    }
    assert forall|p: Seq<char>|
        #![trigger player_of(post, p)]
        p != addr && has_player(base, p) implies player_of(post, p) == player_of(base, p) by {
        assert(has_player(pre, p) == has_player(base, p));
        assert(player_of(pre, p) == player_of(base, p));
        assert(player_of(post, p) == player_of(pre, p));
    }
}

/// Finds the index of the wager of `player` on round `round`, if one exists.
pub fn find_game_index(games: &Vec<GameEntry>, player: &String, round: u64) -> (r: Option<usize>)
    ensures
        match r {
            Some(i) => i < games@.len() && game_key_is(games@[i as int], player@, round),
            None => !has_game(games@, player@, round),
        },
{
    let mut i: usize = 0;
    while i < games.len()
        invariant
            0 <= i <= games@.len(),
            forall|j: int| 0 <= j < i ==> !game_key_is(#[trigger] games@[j], player@, round),
        decreases games@.len() - i,
    {
        if games[i].round == round && games[i].player == *player {
            return Some(i);
        }
        i = i + 1;
    }
    None
}

/// Finds the index of the stats record of `player`, if one exists.
pub fn find_player_index(players: &Vec<PlayerEntry>, player: &String) -> (r: Option<usize>)
    ensures
        match r {
            Some(i) => i < players@.len() && players@[i as int].address@ == player@,
            None => !has_player(players@, player@),
        },
{
    let mut i: usize = 0;
    while i < players.len()
        invariant
            0 <= i <= players@.len(),
            forall|j: int| 0 <= j < i ==> (#[trigger] players@[j]).address@ != player@,
        decreases players@.len() - i,
    {
        if players[i].address == *player {
            return Some(i);
        }
        i = i + 1;
    }
    None
}

} // verus!

