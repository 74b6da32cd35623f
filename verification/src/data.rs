//! Where the players' styles are kept between two runs, and what is kept
//! of them.

use std::collections::HashMap;
use std::path::PathBuf;
use uuid::Uuid;
use vstd::prelude::*;
use vstd::std_specs::hash::{group_hash_axioms, spec_hash_map_iter};
use vstd::std_specs::iter::IteratorSpec;

use crate::config::{ChatColorStyle, PlayerData, PluginData};

verus! {

broadcast use group_hash_axioms;

/// `std::path::PathBuf`, carried through as it is.
#[verifier::external_type_specification]
#[verifier::external_body]
pub struct ExPathBuf(PathBuf);

/// Keeps the players' styles in a file below its folder.
pub struct DataManager {
    data_folder: PathBuf,
}

impl DataManager {
    /// The folder below which the data is kept.
    pub closed spec fn folder(&self) -> PathBuf {
        self.data_folder
    }

    /// The manager of the data below `data_folder`.
    pub fn new(data_folder: PathBuf) -> (manager: Self)
        ensures
            manager.folder() == data_folder,
    {
        Self { data_folder }
    }

    /// The folder below which the data is kept.
    pub fn data_folder(&self) -> (folder: &PathBuf)
        ensures
            *folder == self.folder(),
    {
        &self.data_folder
    }
}

/// The text that `Uuid`'s `to_string` gives the identifier with the bits
/// `id`: thirty-two lower-case hexadecimal digits in five hyphenated groups.
pub uninterp spec fn uuid_text(id: u128) -> Seq<char>;

/// The bits of the identifier that `Uuid::parse_str` reads from a text,
/// `None` where it reads none.
pub uninterp spec fn uuid_of_text(text: Seq<char>) -> Option<u128>;

/// `Uuid`'s `to_string`, on the identifier made by `Uuid::from_u128`. The
/// result is a function of the bits alone, and `Uuid::parse_str` reads the
/// same identifier back from it.
#[verifier::external_body]
fn uuid_to_string(id: u128) -> (text: String)
    ensures
        text@ == uuid_text(id),
        uuid_of_text(text@) == Some(id),
{
    Uuid::from_u128(id).to_string()
}

/// `Uuid::parse_str`, the identifier given by `Uuid::as_u128`. Whether a
/// text is read, and as what, is a function of the text alone.
#[verifier::external_body]
fn parse_uuid(text: &str) -> (id: Option<u128>)
    ensures
        id == uuid_of_text(text@),
{
    match Uuid::parse_str(text) {
        Ok(uuid) => Some(uuid.as_u128()),
        Err(_) => None,
    }
}

/// The styles of one player, who has at least one.
#[derive(Clone, Debug, PartialEq, Eq)]
pub struct PlayerStyles {
    /// The bits of the player's identifier.
    pub id: u128,
    pub chat_color: Option<ChatColorStyle>,
    pub name_color: Option<ChatColorStyle>,
}

/// The style under `id` in `styles`, if there is one.
pub open spec fn style_of(styles: Map<u128, ChatColorStyle>, id: u128) -> Option<ChatColorStyle> {
    if styles.contains_key(id) {
        Some(styles[id])
    } else {
        None
    }
}

/// Whether `entries` has an entry of the player `id`.
pub open spec fn has_player(entries: Seq<PlayerStyles>, id: u128) -> bool {
    exists|i: int| 0 <= i < entries.len() && (#[trigger] entries[i]).id == id
}

/// Whether `entries` holds the styles of exactly the players who have one
/// for the chat or for the name: each entry holds both styles of such a
/// player, no two entries are of the same player, and no such player is
/// left out.
pub open spec fn merges(
    entries: Seq<PlayerStyles>,
    chat_colors: Map<u128, ChatColorStyle>,
    name_colors: Map<u128, ChatColorStyle>,
) -> bool {
    &&& forall|i: int|
        0 <= i < entries.len() ==> {
            let entry = #[trigger] entries[i];
            &&& chat_colors.contains_key(entry.id) || name_colors.contains_key(entry.id)
            &&& entry.chat_color == style_of(chat_colors, entry.id)
            &&& entry.name_color == style_of(name_colors, entry.id)
        }
    &&& forall|i: int, j: int|
        0 <= i < j < entries.len() ==> (#[trigger] entries[i]).id != (#[trigger] entries[j]).id
    &&& forall|id: u128|
        chat_colors.contains_key(id) || name_colors.contains_key(id) ==> #[trigger] has_player(
            entries,
            id,
        )
}

/// Whether `id` is the key of one of the first `n` of `pairs`.
spec fn key_before(pairs: Seq<(&u128, &ChatColorStyle)>, id: u128, n: int) -> bool {
    exists|t: int| 0 <= t < n && *(#[trigger] pairs[t]).0 == id
}

/// Two pairs of one map's walk with the same key are the same pair.
proof fn lemma_same_key_same_pair(
    styles: &HashMap<u128, ChatColorStyle>,
    pairs: Seq<(&u128, &ChatColorStyle)>,
    s: int,
    t: int,
)
    requires
        pairs == spec_hash_map_iter(styles).remaining(),
        0 <= s < pairs.len(),
        0 <= t < pairs.len(),
        *pairs[s].0 == *pairs[t].0,
    ensures
        pairs[s] == pairs[t],
{
    assert(styles@[*pairs[s].0] == *pairs[s].1);
    assert(styles@[*pairs[t].0] == *pairs[t].1);
}

fn copy_of(style: Option<&ChatColorStyle>) -> (copy: Option<ChatColorStyle>)
    ensures
        copy == match style {
            Some(s) => Some(*s),
            None => None,
        },
{
    match style {
        Some(s) => Some(s.duplicate()),
        None => None,
    }
}

/// The styles of the players who have one, player by player and in no
/// particular order.
pub fn merge_player_styles(
    chat_colors: &HashMap<u128, ChatColorStyle>,
    name_colors: &HashMap<u128, ChatColorStyle>,
) -> (entries: Vec<PlayerStyles>)
    ensures
        merges(entries@, chat_colors@, name_colors@),
{
    let mut entries: Vec<PlayerStyles> = Vec::new();
    let ghost chat_pairs = spec_hash_map_iter(chat_colors).remaining();
    let ghost name_pairs = spec_hash_map_iter(name_colors).remaining();
    for pair in it: chat_colors.iter()
        invariant
            it.seq() == chat_pairs,
            chat_pairs == spec_hash_map_iter(chat_colors).remaining(),
            chat_pairs.no_duplicates(),
            entries@.len() == it.index(),
            forall|i: int|
                0 <= i < entries@.len() ==> {
                    let entry = #[trigger] entries@[i];
                    &&& entry.id == *chat_pairs[i].0
                    &&& entry.chat_color == style_of(chat_colors@, entry.id)
                    &&& entry.name_color == style_of(name_colors@, entry.id)
                },
    {
        let (id, style) = pair;
        entries.push(
            PlayerStyles {
                id: *id,
                chat_color: Some(style.duplicate()),
                name_color: copy_of(name_colors.get(id)),
            },
        );
    }
    let ghost shared = entries@;
    assert(shared.len() == chat_pairs.len());
    assert forall|i: int, j: int| 0 <= i < j < shared.len() implies (#[trigger] shared[i]).id != (
    #[trigger] shared[j]).id by {
        if *chat_pairs[i].0 == *chat_pairs[j].0 {
            lemma_same_key_same_pair(chat_colors, chat_pairs, i, j);
        }
    }
    for pair in it: name_colors.iter()
        invariant
            it.seq() == name_pairs,
            name_pairs == spec_hash_map_iter(name_colors).remaining(),
            name_pairs.no_duplicates(),
            shared.len() <= entries@.len(),
            forall|i: int| 0 <= i < shared.len() ==> entries@[i] == shared[i],
            forall|i: int|
                0 <= i < entries@.len() ==> {
                    let entry = #[trigger] entries@[i];
                    &&& chat_colors@.contains_key(entry.id) || key_before(
                        name_pairs,
                        entry.id,
                        it.index(),
                    )
                    &&& chat_colors@.contains_key(entry.id) || name_colors@.contains_key(entry.id)
                    &&& entry.chat_color == style_of(chat_colors@, entry.id)
                    &&& entry.name_color == style_of(name_colors@, entry.id)
                },
            forall|i: int, j: int|
                0 <= i < j < entries@.len() ==> (#[trigger] entries@[i]).id != (
                #[trigger] entries@[j]).id,
            forall|t: int|
                0 <= t < it.index() ==> chat_colors@.contains_key(*(#[trigger] name_pairs[t]).0)
                    || has_player(entries@, *name_pairs[t].0),
    {
        let (id, style) = pair;
        let ghost before = entries@;
        let ghost at = it.index();
        assert(*name_pairs[at].0 == *id);
        if !chat_colors.contains_key(id) {
            entries.push(
                PlayerStyles { id: *id, chat_color: None, name_color: Some(style.duplicate()) },
            );
            let ghost added = before.len() as int;
            assert forall|i: int| 0 <= i < added implies (#[trigger] entries@[i]).id
                != entries@[added].id by {
                assert(entries@[i] == before[i]);
                if before[i].id == *id {
                    let t = choose|t: int| 0 <= t < at && *(#[trigger] name_pairs[t]).0 == *id;
                    lemma_same_key_same_pair(name_colors, name_pairs, t, at);
                }
            }
            assert(entries@[added].id == *id);
            assert(has_player(entries@, *id));
        }
        assert forall|i: int| 0 <= i < entries@.len() implies chat_colors@.contains_key(
            (#[trigger] entries@[i]).id,
        ) || key_before(name_pairs, entries@[i].id, at + 1) by {
            let known = entries@[i].id;
            if i < before.len() {
                assert(entries@[i] == before[i]);
                if !chat_colors@.contains_key(known) {
                    let t = choose|t: int| 0 <= t < at && *(#[trigger] name_pairs[t]).0 == known;
                    assert(0 <= t < at + 1 && *name_pairs[t].0 == known);
                }
            } else {
                assert(0 <= at < at + 1 && *name_pairs[at].0 == known);
            }
        }
        assert forall|t: int| 0 <= t < at + 1 implies chat_colors@.contains_key(
            *(#[trigger] name_pairs[t]).0,
        ) || has_player(entries@, *name_pairs[t].0) by {
            if t < at && !chat_colors@.contains_key(*name_pairs[t].0) {
                assert(has_player(before, *name_pairs[t].0));
                let i = choose|i: int|
                    0 <= i < before.len() && (#[trigger] before[i]).id == *name_pairs[t].0;
                assert(entries@[i] == before[i]);
            }
        }
    }
    proof {
        assert forall|id: u128|
            chat_colors@.contains_key(id) || name_colors@.contains_key(
                id,
            ) implies #[trigger] has_player(entries@, id) by {
            if chat_colors@.contains_key(id) {
                let pair = (&id, &chat_colors@[id]);
                assert(chat_pairs.contains(pair));
                let t = choose|t: int| 0 <= t < chat_pairs.len() && chat_pairs[t] == pair;
                assert(entries@[t] == shared[t]);
                assert(entries@[t].id == id);
            } else {
                let pair = (&id, &name_colors@[id]);
                assert(name_pairs.contains(pair));
                let t = choose|t: int| 0 <= t < name_pairs.len() && name_pairs[t] == pair;
                assert(*name_pairs[t].0 == id);
            }
        }
    }
    entries
}

/// The player that `entry` is about: the identifier that its text reads as.
pub open spec fn player_id(entry: PlayerData) -> Option<u128> {
    uuid_of_text(entry.uuid@)
}

/// Whether `stored` is what is stored of `entry`: the identifier as text,
/// which reads as the identifier again, and the two styles.
pub open spec fn stores(stored: PlayerData, entry: PlayerStyles) -> bool {
    &&& stored.uuid@ == uuid_text(entry.id)
    &&& player_id(stored) == Some(entry.id)
    &&& stored.chat_color == entry.chat_color
    &&& stored.name_color == entry.name_color
}

/// Whether `players` is what is stored of `entries`, entry by entry.
pub open spec fn stores_each(players: Seq<PlayerData>, entries: Seq<PlayerStyles>) -> bool {
    &&& players.len() == entries.len()
    &&& forall|i: int| 0 <= i < players.len() ==> stores(#[trigger] players[i], entries[i])
}

/// What is stored of `entries`: for each the identifier as text and the two
/// styles, in the same order.
pub fn store_player_styles(entries: &Vec<PlayerStyles>) -> (data: PluginData)
    ensures
        stores_each(data.players@, entries@),
{
    let mut players: Vec<PlayerData> = Vec::new();
    let mut i: usize = 0;
    while i < entries.len()
        invariant
            i <= entries.len(),
            stores_each(players@, entries@.take(i as int)),
        decreases entries.len() - i,
    {
        let entry = &entries[i];
        players.push(
            PlayerData {
                uuid: uuid_to_string(entry.id),
                chat_color: copy_of(entry.chat_color.as_ref()),
                name_color: copy_of(entry.name_color.as_ref()),
            },
        );
        i += 1;
    }
    assert(entries@.take(i as int) =~= entries@);
    PluginData { players }
}

/// Whether `players` is what is stored of exactly the players who have a
/// style for the chat or for the name, one entry for each.
pub open spec fn stores_all(
    players: Seq<PlayerData>,
    chat_colors: Map<u128, ChatColorStyle>,
    name_colors: Map<u128, ChatColorStyle>,
) -> bool {
    exists|entries: Seq<PlayerStyles>|
        merges(entries, chat_colors, name_colors) && #[trigger] stores_each(players, entries)
}

/// What is stored of the players who have a style: one entry for each, in
/// no particular order.
pub fn collect_player_data(
    chat_colors: &HashMap<u128, ChatColorStyle>,
    name_colors: &HashMap<u128, ChatColorStyle>,
) -> (data: PluginData)
    ensures
        stores_all(data.players@, chat_colors@, name_colors@),
{
    let entries = merge_player_styles(chat_colors, name_colors);
    store_player_styles(&entries)
}

/// `styles` with `style`, if there is one, as the style of the player `id`.
pub open spec fn with_style(
    styles: Map<u128, ChatColorStyle>,
    id: u128,
    style: Option<ChatColorStyle>,
) -> Map<u128, ChatColorStyle> {
    match style {
        Some(s) => styles.insert(id, s),
        None => styles,
    }
}

/// Gives the player `id` the styles that `entry` holds.
pub fn restore_player_styles(
    id: u128,
    entry: &PlayerData,
    chat_colors: &mut HashMap<u128, ChatColorStyle>,
    name_colors: &mut HashMap<u128, ChatColorStyle>,
)
    ensures
        final(chat_colors)@ == with_style(old(chat_colors)@, id, entry.chat_color),
        final(name_colors)@ == with_style(old(name_colors)@, id, entry.name_color),
{
    if let Some(style) = &entry.chat_color {
        chat_colors.insert(id, style.duplicate());
    }
    if let Some(style) = &entry.name_color {
        name_colors.insert(id, style.duplicate());
    }
}

/// The style of an entry for the chat, or for the name.
pub open spec fn entry_style(entry: PlayerData, for_chat: bool) -> Option<ChatColorStyle> {
    if for_chat {
        entry.chat_color
    } else {
        entry.name_color
    }
}

/// The styles after the entries of `players` have been put back, one after
/// the other, on top of `start`: an entry whose identifier reads as one
/// gives its player the style that it holds; another is passed over.
pub open spec fn restored(
    players: Seq<PlayerData>,
    start: Map<u128, ChatColorStyle>,
    for_chat: bool,
) -> Map<u128, ChatColorStyle>
    decreases players.len(),
{
    if players.len() == 0 {
        start
    } else {
        let before = restored(players.drop_last(), start, for_chat);
        match player_id(players.last()) {
            Some(id) => with_style(before, id, entry_style(players.last(), for_chat)),
            None => before,
        }
    }
}

/// Puts the stored styles back on top of those that are there.
pub fn restore_player_data(
    data: &PluginData,
    chat_colors: &mut HashMap<u128, ChatColorStyle>,
    name_colors: &mut HashMap<u128, ChatColorStyle>,
)
    ensures
        final(chat_colors)@ == restored(data.players@, old(chat_colors)@, true),
        final(name_colors)@ == restored(data.players@, old(name_colors)@, false),
{
    let mut i: usize = 0;
    while i < data.players.len()
        invariant
            i <= data.players.len(),
            chat_colors@ == restored(data.players@.take(i as int), old(chat_colors)@, true),
            name_colors@ == restored(data.players@.take(i as int), old(name_colors)@, false),
        decreases data.players.len() - i,
    {
        let entry = &data.players[i];
        assert(data.players@.take(i + 1).drop_last() =~= data.players@.take(i as int));
        assert(data.players@.take(i + 1).last() == *entry);
        if let Some(id) = parse_uuid(entry.uuid.as_str()) {
            restore_player_styles(id, entry, chat_colors, name_colors);
        }
        i += 1;
    }
    assert(data.players@.take(i as int) =~= data.players@);
}

/// What the first entries of a complete store put back: the styles of the
/// players that they are about.
proof fn lemma_restored_prefix(
    players: Seq<PlayerData>,
    entries: Seq<PlayerStyles>,
    chat_colors: Map<u128, ChatColorStyle>,
    name_colors: Map<u128, ChatColorStyle>,
    for_chat: bool,
    n: int,
)
    requires
        merges(entries, chat_colors, name_colors),
        stores_each(players, entries),
        0 <= n <= players.len(),
    ensures
        ({
            let styles = if for_chat {
                chat_colors
            } else {
                name_colors
            };
            let back = restored(players.take(n), Map::empty(), for_chat);
            forall|id: u128|
                (#[trigger] back.contains_key(id) <==> styles.contains_key(id) && has_player(
                    entries.take(n),
                    id,
                )) && (back.contains_key(id) ==> back[id] == styles[id])
        }),
    decreases n,
{
    let styles = if for_chat {
        chat_colors
    } else {
        name_colors
    };
    let first = entries.take(n);
    let back = restored(players.take(n), Map::empty(), for_chat);
    if n == 0 {
        assert forall|id: u128| !has_player(first, id) by {}
    } else {
        let earlier = entries.take(n - 1);
        let last = entries[n - 1];
        assert(players.take(n).drop_last() =~= players.take(n - 1));
        assert(players.take(n).last() == players[n - 1]);
        assert(stores(players[n - 1], last));
        assert(entry_style(players[n - 1], for_chat) == style_of(styles, last.id));
        lemma_restored_prefix(players, entries, chat_colors, name_colors, for_chat, n - 1);
        let before = restored(players.take(n - 1), Map::empty(), for_chat);
        assert(back == with_style(before, last.id, style_of(styles, last.id)));
        assert forall|id: u128|
            (#[trigger] back.contains_key(id) <==> styles.contains_key(id) && has_player(first, id))
                && (back.contains_key(id) ==> back[id] == styles[id]) by {
            if has_player(earlier, id) {
                let i = choose|i: int| 0 <= i < earlier.len() && (#[trigger] earlier[i]).id == id;
                assert(first[i] == earlier[i]);
                assert(has_player(first, id));
            }
            if id == last.id {
                assert(first[n - 1].id == id);
                assert(has_player(first, id));
            }
            if has_player(first, id) && !has_player(earlier, id) {
                let i = choose|i: int| 0 <= i < first.len() && (#[trigger] first[i]).id == id;
                if i < n - 1 {
                    assert(earlier[i] == first[i]);
                }
                assert(id == last.id);
            }
        }
    }
}

/// A complete store puts back exactly the styles that it was made of.
pub proof fn lemma_restore_collected(
    players: Seq<PlayerData>,
    chat_colors: Map<u128, ChatColorStyle>,
    name_colors: Map<u128, ChatColorStyle>,
)
    requires
        stores_all(players, chat_colors, name_colors),
    ensures
        restored(players, Map::empty(), true) == chat_colors,
        restored(players, Map::empty(), false) == name_colors,
{
    let entries = choose|entries: Seq<PlayerStyles>|
        merges(entries, chat_colors, name_colors) && #[trigger] stores_each(players, entries);
    let n = players.len() as int;
    assert(players.take(n) =~= players);
    assert(entries.take(n) =~= entries);
    lemma_restored_prefix(players, entries, chat_colors, name_colors, true, n);
    lemma_restored_prefix(players, entries, chat_colors, name_colors, false, n);
    let chat_back = restored(players, Map::empty(), true);
    let name_back = restored(players, Map::empty(), false);
    assert forall|id: u128| chat_back.contains_key(id) <==> chat_colors.contains_key(id) by {
        if chat_colors.contains_key(id) {
            assert(has_player(entries, id));
        }
    }
    assert forall|id: u128| name_back.contains_key(id) <==> name_colors.contains_key(id) by {
        if name_colors.contains_key(id) {
            assert(has_player(entries, id));
        }
    }
    assert(chat_back =~= chat_colors);
    assert(name_back =~= name_colors);
}

} // verus!
