//! Board configuration: the known board keys and the per-board settings.

use crate::text::{chars_of, pieces, split, string_of};
use vstd::hash_map::StringHashMap;
use vstd::prelude::*;

verus! {

/// The known boards: a map from board key to board id.
pub struct BoardKeys {
    map: StringHashMap<usize>,
}

impl View for BoardKeys {
    type V = Map<Seq<char>, usize>;

    closed spec fn view(&self) -> Map<Seq<char>, usize> {
        self.map@
    }
}

impl BoardKeys {
    /// No boards.
    pub fn new() -> (r: Self)
        ensures
            r@ == Map::<Seq<char>, usize>::empty(),
    {
        BoardKeys { map: StringHashMap::new() }
    }

    /// Makes `key` the key of board `board_id`, replacing an earlier entry.
    pub fn insert(&mut self, key: String, board_id: usize)
        ensures
            final(self)@ == old(self)@.insert(key@, board_id),
    {
        self.map.insert(key, board_id);
    }

    /// The id of the board with this key, if there is one.
    pub fn get(&self, key: &str) -> (r: Option<usize>)
        ensures
            r == if self@.contains_key(key@) {
                Some(self@[key@])
            } else {
                None
            },
    {
        match self.map.get(key) {
            Some(id) => Some(*id),
            None => None,
        }
    }
}


/// The settings of one board.
#[derive(Debug, Clone)]
pub struct BoardConfig {
    pub board_id: usize,
    pub board_key: String,
    pub title: String,
    pub default_name: String,
}

/// The known board keys that a comma-separated list names: the key at
/// position `i`, counted from zero, belongs to board `i + 1`. Of two equal
/// keys the later one counts.
pub open spec fn board_keys_upto(keys: Seq<Seq<char>>, n: int) -> Map<Seq<char>, usize>
    decreases n,
{
    if n <= 0 {
        Map::<Seq<char>, usize>::empty()
    } else {
        board_keys_upto(keys, n - 1).insert(keys[n - 1], n as usize)
    }
}

/// The known board keys that the setting `BOARD_KEYS` names.
pub open spec fn board_keys_of(setting: Seq<char>) -> Map<Seq<char>, usize> {
    let keys = pieces(setting, ',');
    board_keys_upto(keys, keys.len() as int)
}

/// Reads the known board keys from the setting `BOARD_KEYS`.
pub fn get_board_keys(setting: &str) -> (r: BoardKeys)
    ensures
        r@ == board_keys_of(setting@),
{
    let chars = chars_of(setting);
    let keys = split(&chars, ',');
    let mut map = BoardKeys::new();
    let mut k: usize = 0;
    while k < keys.len()
        invariant
            k <= keys.len(),
            keys@.len() == pieces(setting@, ',').len(),
            forall|j: int|
                0 <= j < keys@.len() ==> #[trigger] keys@[j]@ == pieces(
                    setting@,
                    ',',
                )[j],
            map@ == board_keys_upto(pieces(setting@, ','), k as int),
        decreases keys.len() - k,
    {
        let key = string_of(&keys[k]);
        assert(keys@[k as int]@ == pieces(setting@, ',')[k as int]);
        map.insert(key, k + 1);
        k += 1;
    }
    map
}

/// The title and the default name that the setting of a board names: its
/// first two comma-separated parts. None where there are fewer than two.
pub open spec fn board_info_of(setting: Seq<char>) -> Option<(Seq<char>, Seq<char>)> {
    let parts = pieces(setting, ',');
    if parts.len() < 2 {
        None
    } else {
        Some((parts[0], parts[1]))
    }
}

/// Reads the settings of a board from its setting `title,default_name`.
pub fn get_board_info(setting: &str, board_id: usize, board_key: &str) -> (r: Option<BoardConfig>)
    ensures
        match r {
            Some(c) => board_info_of(setting@) == Some((c.title@, c.default_name@)) && c.board_id
                == board_id && c.board_key@ == board_key@,
            None => board_info_of(setting@) is None,
        },
{
    let chars = chars_of(setting);
    let parts = split(&chars, ',');
    if parts.len() < 2 {
        None
    } else {
        Some(
            BoardConfig {
                board_id,
                board_key: board_key.to_owned(),
                title: string_of(&parts[0]),
                default_name: string_of(&parts[1]),
            },
        )
    }
}

/// The settings of the board `board_id` among `boards`: the first with
/// that id.
pub open spec fn config_index(boards: Seq<BoardConfig>, board_id: usize) -> Option<int>
    decreases boards.len(),
{
    if boards.len() == 0 {
        None
    } else {
        match config_index(boards.drop_last(), board_id) {
            Some(i) => Some(i),
            None => if boards.last().board_id == board_id {
                Some(boards.len() - 1)
            } else {
                None
            },
        }
    }
}

/// Finds the settings of the board `board_id`.
pub fn find_board(boards: &Vec<BoardConfig>, board_id: usize) -> (r: Option<usize>)
    ensures
        match r {
            Some(i) => config_index(boards@, board_id) == Some(i as int) && i < boards.len(),
            None => config_index(boards@, board_id) is None,
        },
{
    let mut i: usize = 0;
    assert(boards@.take(0) == Seq::<BoardConfig>::empty());
    while i < boards.len()
        invariant
            i <= boards.len(),
            config_index(boards@.take(i as int), board_id) is None,
        decreases boards.len() - i,
    {
        assert(boards@.take(i + 1).drop_last() == boards@.take(i as int));
        assert(boards@.take(i + 1).last() == boards@[i as int]);
        if boards[i].board_id == board_id {
            proof {
                lemma_config_index_stays(boards@, i + 1, board_id);
            }
            return Some(i);
        }
        i += 1;
    }
    assert(boards@.take(boards.len() as int) == boards@);
    None
}

/// A board found among the first `n` is the one found among all.
pub proof fn lemma_config_index_stays(boards: Seq<BoardConfig>, n: int, board_id: usize)
    requires
        0 <= n <= boards.len(),
        config_index(boards.take(n), board_id) is Some,
    ensures
        config_index(boards, board_id) == config_index(boards.take(n), board_id),
    decreases boards.len() - n,
{
    if n < boards.len() {
        assert(boards.take(n + 1).drop_last() == boards.take(n));
        lemma_config_index_stays(boards, n + 1, board_id);
    } else {
        assert(boards.take(n) == boards);
    }
}

/// The texts of a list of strings.
pub open spec fn names_view(names: Seq<String>) -> Seq<Seq<char>> {
    Seq::new(names.len(), |i: int| names[i]@)
}

/// The board keys that the setting `BOARD_KEYS` names, in its order.
pub fn board_key_names(setting: &str) -> (r: Vec<String>)
    ensures
        names_view(r@) == pieces(setting@, ','),
{
    let chars = chars_of(setting);
    let keys = split(&chars, ',');
    let mut out: Vec<String> = Vec::new();
    let mut k: usize = 0;
    while k < keys.len()
        invariant
            k <= keys.len(),
            out@.len() == k,
            keys@.len() == pieces(setting@, ',').len(),
            forall|j: int| 0 <= j < keys@.len() ==> #[trigger] keys@[j]@ == pieces(setting@, ',')[j],
            forall|j: int| 0 <= j < k ==> #[trigger] out@[j]@ == pieces(setting@, ',')[j],
        decreases keys.len() - k,
    {
        out.push(string_of(&keys[k]));
        k += 1;
    }
    assert(names_view(out@) =~= pieces(setting@, ','));
    out
}

} // verus!
