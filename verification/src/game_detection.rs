//! Games: the popular ones that the program offers, and the addresses at
//! which the service answers questions about games.

use vstd::prelude::*;
use vstd::string::StringExecFns;
use std::collections::HashMap;
use crate::profiles::text_view;
use crate::text::{decimal, push_decimal};

verus! {

/// A game as the program shows it.
#[derive(Debug, Clone)]
pub struct GameInfo {
    pub universe_id: u64,
    pub place_id: u64,
    pub name: String,
    pub description: String,
    pub creator_name: String,
    pub playing: u64,
    pub visits: u64,
    pub thumbnail: Option<String>,
}

/// A game of the list of popular games.
#[derive(Debug, Clone)]
pub struct PopularGame {
    pub universe_id: u64,
    pub place_id: u64,
    pub name: String,
    pub player_count: u64,
    pub thumbnail: Option<String>,
}

/// The icon of the game of a universe, as the service reports it.
#[derive(Debug, Clone)]
pub struct GameIcon {
    pub target_id: u64,
    pub image_url: Option<String>,
}

/// The popular games: universe, place, name, and about how many play.
pub const POPULAR_GAMES: [(u64, u64, &'static str, u64); 24] = [
    (2788229376, 8761176980, "Brookhaven \u{f8ff}\u{fc}\u{e8}\u{b0}RP", 500000),
    (65241, 286090429, "Adopt Me!", 400000),
    (13058, 150387031, "Bloxburg", 75000),
    (2897587123, 9295537553, "Livetopia", 35000),
    (4577884168, 13772394625, "Berry Avenue", 80000),
    (3318029993, 2753915549, "Blox Fruits", 550000),
    (1224212277, 3260590327, "Tower of Hell", 60000),
    (220552094, 606849621, "Jailbreak", 40000),
    (189707, 292439477, "Murder Mystery 2", 180000),
    (2534724415, 6516141723, "DOORS \u{f8ff}\u{fc}\u{eb}\u{c5}\u{d4}\u{220f}\u{e8}", 50000),
    (4717143960, 15561560493, "Blade Ball", 120000),
    (1973634035, 6872265039, "BedWars", 85000),
    (2377868063, 8560631822, "Anime Adventures", 40000),
    (1537156947, 537413528, "Build A Boat", 35000),
    (746820961, 8737602449, "Pet Simulator 99", 150000),
    (1606394348, 5952327072, "Strongman Sim", 25000),
    (63830488, 286090429, "Arsenal", 15000),
    (4252370517, 14704022432, "Dress To Impress", 250000),
    (5167733276, 17265328292, "The Strongest Battlegrounds", 90000),
    (1165192137, 2753915549, "Royale High", 45000),
    (245662005, 6516141723, "MeepCity", 30000),
    (1720207389, 4872321990, "World // Zero", 10000),
    (3322223393, 9872472334, "Fruit Battlegrounds", 20000),
    (286419782, 1071062235, "Lumber Tycoon 2", 15000),
];

/// The address that answers which universe a place belongs to.
pub open spec fn universe_url_of(place_id: u64) -> Seq<char> {
    "https://apis.roblox.com/universes/v1/places/"@ + decimal(place_id as nat) + "/universe"@
}

/// The address that answers what the game of a universe is.
pub open spec fn game_url_of(universe_id: u64) -> Seq<char> {
    "https://games.roblox.com/v1/games?universeIds="@ + decimal(universe_id as nat)
}

/// The address that answers what the icon of the game of a universe is.
pub open spec fn game_icon_url_of(universe_id: u64) -> Seq<char> {
    "https://thumbnails.roblox.com/v1/games/icons?universeIds="@ + decimal(universe_id as nat)
        + "&size=150x150&format=Png"@
}

/// The numbers of `ids` in decimal, joined by commas.
pub open spec fn comma_separated(ids: Seq<u64>) -> Seq<char>
    decreases ids.len(),
{
    if ids.len() == 0 {
        Seq::empty()
    } else if ids.len() == 1 {
        decimal(ids[0] as nat)
    } else {
        comma_separated(ids.drop_last()) + seq![','] + decimal(ids.last() as nat)
    }
}

/// The address that answers what the icons of the games of several
/// universes are.
pub open spec fn game_icons_url_of(universe_ids: Seq<u64>) -> Seq<char> {
    "https://thumbnails.roblox.com/v1/games/icons?universeIds="@ + comma_separated(universe_ids)
        + "&size=420x420&format=Png"@
}

/// The address that answers which public servers run a place, from the
/// page that `cursor` names on.
pub open spec fn servers_url_of(place_id: u64, cursor: Option<Seq<char>>) -> Seq<char> {
    let first = "https://games.roblox.com/v1/games/"@ + decimal(place_id as nat)
        + "/servers/Public?sortOrder=Asc&excludeFullGames=false&limit=100"@;
    match cursor {
        Some(c) => first + "&cursor="@ + c,
        None => first,
    }
}

/// The addresses of the icons by universe: of the icons that have an
/// address, the last for each universe.
pub open spec fn icon_table(icons: Seq<GameIcon>) -> Map<u64, Seq<char>>
    decreases icons.len(),
{
    if icons.len() == 0 {
        Map::empty()
    } else {
        let before = icon_table(icons.drop_last());
        match icons.last().image_url {
            Some(url) => before.insert(icons.last().target_id, url@),
            None => before,
        }
    }
}

/// The addresses of a table, each as a sequence of characters.
pub open spec fn address_views(table: Map<u64, String>) -> Map<u64, Seq<char>> {
    table.map_values(|url: String| url@)
}

/// The addresses of the icons by universe.
pub fn icons_by_universe(icons: Vec<GameIcon>) -> (table: HashMap<u64, String>)
    ensures
        address_views(table@) == icon_table(icons@),
{
    broadcast use vstd::std_specs::hash::group_hash_axioms;

    let mut table: HashMap<u64, String> = HashMap::new();
    let mut i: usize = 0;
    proof {
        assert(icons@.take(0) =~= Seq::<GameIcon>::empty());
        assert(address_views(table@) =~= Map::<u64, Seq<char>>::empty());
    }
    while i < icons.len()
        invariant
            i <= icons@.len(),
            address_views(table@) == icon_table(icons@.take(i as int)),
        decreases icons@.len() - i,
    {
        proof {
            assert(icons@.take(i + 1).drop_last() =~= icons@.take(i as int));
            assert(icons@.take(i + 1).last() == icons@[i as int]);
        }
        match &icons[i].image_url {
            Some(url) => {
                let ghost before = table@;
                let copy: String = url.clone();
                table.insert(icons[i].target_id, copy);
                proof {
                    assert(address_views(table@) =~= address_views(before).insert(
                        icons@[i as int].target_id,
                        url@,
                    ));
                }
            },
            None => {},
        }
        i = i + 1;
    }
    proof {
        assert(icons@.take(icons@.len() as int) =~= icons@);
    }
    table
}

/// The address of the first icon of an answer, if the answer has a first
/// icon and that has an address.
pub fn first_icon(icons: &Vec<GameIcon>) -> (url: Option<String>)
    ensures
        text_view(url) == if icons@.len() > 0 {
            text_view(icons@[0].image_url)
        } else {
            None
        },
{
    if icons.len() == 0 {
        None
    } else {
        match &icons[0].image_url {
            Some(url) => Some(url.clone()),
            None => None,
        }
    }
}

/// The address that answers which universe a place belongs to.
pub fn universe_url(place_id: u64) -> (url: String)
    ensures
        url@ == universe_url_of(place_id),
{
    let mut url: String = String::from_str("https://apis.roblox.com/universes/v1/places/");
    push_decimal(&mut url, place_id);
    url.append("/universe");
    url
}

/// The address that answers what the game of a universe is.
pub fn game_url(universe_id: u64) -> (url: String)
    ensures
        url@ == game_url_of(universe_id),
{
    let mut url: String = String::from_str("https://games.roblox.com/v1/games?universeIds=");
    push_decimal(&mut url, universe_id);
    url
}

/// The address that answers what the icon of the game of a universe is.
pub fn game_icon_url(universe_id: u64) -> (url: String)
    ensures
        url@ == game_icon_url_of(universe_id),
{
    let mut url: String = String::from_str(
        "https://thumbnails.roblox.com/v1/games/icons?universeIds=",
    );
    push_decimal(&mut url, universe_id);
    url.append("&size=150x150&format=Png");
    url
}

/// The address that answers what the icons of the games of several
/// universes are.
pub fn game_icons_url(universe_ids: &[u64]) -> (url: String)
    ensures
        url@ == game_icons_url_of(universe_ids@),
{
    let mut url: String = String::from_str(
        "https://thumbnails.roblox.com/v1/games/icons?universeIds=",
    );
    let ghost prefix = url@;
    let mut i: usize = 0;
    proof {
        assert(universe_ids@.take(0) =~= Seq::<u64>::empty());
        assert(prefix + Seq::<char>::empty() =~= prefix);
    }
    while i < universe_ids.len()
        invariant
            i <= universe_ids@.len(),
            url@ == prefix + comma_separated(universe_ids@.take(i as int)),
        decreases universe_ids@.len() - i,
    {
        proof {
            assert(universe_ids@.take(i + 1).drop_last() =~= universe_ids@.take(i as int));
            assert(universe_ids@.take(i + 1).last() == universe_ids@[i as int]);
            assert(universe_ids@.take(i + 1)[0] == universe_ids@[0]);
            assert(comma_separated(universe_ids@.take(0)) =~= Seq::<char>::empty());
        }
        if i > 0 {
            url.push(',');
        }
        push_decimal(&mut url, universe_ids[i]);
        proof {
            let front = comma_separated(universe_ids@.take(i as int));
            let number = decimal(universe_ids@[i as int] as nat);
            if i > 0 {
                assert(prefix + front + seq![','] + number =~= prefix + (front + seq![','] + number));
            } else {
                assert(prefix + front + number =~= prefix + number);
            }
        }
        i = i + 1;
    }
    proof {
        assert(universe_ids@.take(universe_ids@.len() as int) =~= universe_ids@);
    }
    url.append("&size=420x420&format=Png");
    url
}

/// The address that answers which public servers run a place, from the
/// page that `cursor` names on.
pub fn servers_url(place_id: u64, cursor: Option<&str>) -> (url: String)
    ensures
        url@ == servers_url_of(
            place_id,
            match cursor {
                Some(c) => Some(c@),
                None => None,
            },
        ),
{
    let mut url: String = String::from_str("https://games.roblox.com/v1/games/");
    push_decimal(&mut url, place_id);
    url.append("/servers/Public?sortOrder=Asc&excludeFullGames=false&limit=100");
    match cursor {
        Some(c) => {
            url.append("&cursor=");
            url.append(c);
        },
        None => {},
    }
    url
}

/// A game as the program shows it, from what the service said about it. A
/// game without a description gets an empty one.
pub fn game_info(
    universe_id: u64,
    root_place_id: u64,
    name: String,
    description: Option<String>,
    creator_name: String,
    playing: u64,
    visits: u64,
    thumbnail: Option<String>,
) -> (info: GameInfo)
    ensures
        info.universe_id == universe_id,
        info.place_id == root_place_id,
        info.name == name,
        info.description@ == match description {
            Some(d) => d@,
            None => Seq::empty(),
        },
        info.creator_name == creator_name,
        info.playing == playing,
        info.visits == visits,
        info.thumbnail == thumbnail,
{
    GameInfo {
        universe_id,
        place_id: root_place_id,
        name,
        description: match description {
            Some(d) => d,
            None => String::new(),
        },
        creator_name,
        playing,
        visits,
        thumbnail,
    }
}

/// The popular games, in the order of the table, without pictures.
pub fn get_popular_games() -> (games: Vec<PopularGame>)
    ensures
        games@.len() == 24,
        forall|i: int|
            0 <= i < 24 ==> {
                &&& (#[trigger] games@[i]).universe_id == POPULAR_GAMES[i].0
                &&& games@[i].place_id == POPULAR_GAMES[i].1
                &&& games@[i].name@ == POPULAR_GAMES[i].2@
                &&& games@[i].player_count == POPULAR_GAMES[i].3
                &&& games@[i].thumbnail is None
            },
{
    let mut games: Vec<PopularGame> = Vec::new();
    let mut i: usize = 0;
    while i < 24
        invariant
            i <= 24,
            games@.len() == i,
            forall|j: int|
                0 <= j < i ==> {
                    &&& (#[trigger] games@[j]).universe_id == POPULAR_GAMES[j].0
                    &&& games@[j].place_id == POPULAR_GAMES[j].1
                    &&& games@[j].name@ == POPULAR_GAMES[j].2@
                    &&& games@[j].player_count == POPULAR_GAMES[j].3
                    &&& games@[j].thumbnail is None
                },
        decreases 24 - i,
    {
        let entry: (u64, u64, &'static str, u64) = POPULAR_GAMES[i];
        games.push(
            PopularGame {
                universe_id: entry.0,
                place_id: entry.1,
                name: entry.2.to_owned(),
                player_count: entry.3,
                thumbnail: None,
            },
        );
        i = i + 1;
    }
    games
}

} // verus!
