use role_manager::boards::request::Method;
use role_manager::boards::srcom::category::CategoryId;
use role_manager::boards::srcom::game::GameId;
use role_manager::boards::srcom::level::LevelId;
use role_manager::boards::srcom::variable::{VariableId, VariableValueId};
use role_manager::boards::srcom::variable_map::VariableMap;
use role_manager::boards::srcom::{entity_request, leaderboard_request, BoardDefinition};
use role_manager::cache::TtlCache;
use role_manager::key::Key;

fn choice(pairs: &[(&str, &str)]) -> VariableMap {
    let mut map = VariableMap::new();
    for (k, v) in pairs {
        map.insert(VariableId(k.to_string()), VariableValueId(v.to_string()));
    }
    map
}

fn entries(map: &VariableMap) -> Vec<(String, String)> {
    (0..map.len())
        .map(|i| {
            let (k, v) = map.entry_at(i);
            (k.0.clone(), v.0.clone())
        })
        .collect()
}

fn definition(pairs: &[(&str, &str)]) -> BoardDefinition {
    BoardDefinition {
        game: GameId("portal2".to_string()),
        category: CategoryId("coop".to_string()),
        level: None,
        variables: choice(pairs),
    }
}

#[test]
fn the_order_of_insertion_does_not_show() {
    let pairs = [("b", "2"), ("a", "1"), ("d", "4"), ("c", "3")];
    let expected: Vec<(String, String)> = [("a", "1"), ("b", "2"), ("c", "3"), ("d", "4")]
        .iter()
        .map(|(k, v)| (k.to_string(), v.to_string()))
        .collect();
    // every order of the four pairs
    let mut order = [0usize, 1, 2, 3];
    let mut seen = 0;
    loop {
        let shuffled: Vec<(&str, &str)> = order.iter().map(|i| pairs[*i]).collect();
        let map = choice(&shuffled);
        assert_eq!(entries(&map), expected);
        assert!(map.same_choice(&choice(&pairs)));
        assert!(definition(&shuffled).same_key(&definition(&pairs)));
        seen += 1;
        // next permutation
        let mut i = 3;
        while i > 0 && order[i - 1] >= order[i] {
            i -= 1;
        }
        if i == 0 {
            break;
        }
        let mut j = 3;
        while order[j] <= order[i - 1] {
            j -= 1;
        }
        order.swap(i - 1, j);
        order[i..].reverse();
    }
    assert_eq!(seen, 24);
}

#[test]
fn a_later_value_takes_the_place_of_an_earlier_one() {
    let map = choice(&[("a", "1"), ("b", "2"), ("a", "3")]);
    assert_eq!(map.len(), 2);
    assert_eq!(map.get(&VariableId("a".to_string())).unwrap().0, "3");
    assert_eq!(map.get(&VariableId("b".to_string())).unwrap().0, "2");
    assert!(map.get(&VariableId("c".to_string())).is_none());
}

#[test]
fn different_choices_are_different_keys() {
    assert!(!choice(&[("a", "1")]).same_choice(&choice(&[("a", "2")])));
    assert!(!choice(&[("a", "1")]).same_choice(&choice(&[("b", "1")])));
    assert!(!choice(&[("a", "1")]).same_choice(&choice(&[("a", "1"), ("b", "2")])));
    assert!(!choice(&[]).same_choice(&choice(&[("a", "1")])));
    assert!(choice(&[]).same_choice(&VariableMap::new()));
    let mut with_level = definition(&[]);
    with_level.level = Some(LevelId("l1".to_string()));
    assert!(!with_level.same_key(&definition(&[])));
    let mut other_game = definition(&[]);
    other_game.game = GameId("portal".to_string());
    assert!(!other_game.same_key(&definition(&[])));
}

#[test]
fn the_cache_finds_a_board_whatever_the_order_of_its_choice() {
    let mut cache: TtlCache<BoardDefinition, u64> = TtlCache::new(100);
    cache.put(definition(&[("x", "1"), ("y", "2")]), 5, 0);
    assert_eq!(cache.get(&definition(&[("y", "2"), ("x", "1")]), 10), Some(&5));
    assert_eq!(cache.get(&definition(&[("y", "2")]), 10), None);
    cache.put(definition(&[("y", "2"), ("x", "1")]), 6, 20);
    assert_eq!(cache.get(&definition(&[("x", "1"), ("y", "2")]), 110), Some(&6));
}

#[test]
fn the_request_lists_the_chosen_values_in_the_order_of_the_variables() {
    let request = leaderboard_request(&definition(&[("zeta", "v2"), ("alpha", "v1")]));
    assert_eq!(request.method, Method::Get);
    assert_eq!(request.url, "https://www.speedrun.com/api/v1/leaderboards/portal2/category/coop");
    assert_eq!(
        request.query,
        vec![
            ("embed".to_string(), "game,category,players,variables".to_string()),
            ("var-alpha".to_string(), "v1".to_string()),
            ("var-zeta".to_string(), "v2".to_string()),
        ]
    );
    assert!(request.form.is_empty());
    let same = leaderboard_request(&definition(&[("alpha", "v1"), ("zeta", "v2")]));
    assert_eq!(same.url, request.url);
    assert_eq!(same.query, request.query);
}

#[test]
fn the_address_of_a_level_board_names_the_level_before_the_category() {
    let mut def = definition(&[]);
    def.level = Some(LevelId("the level".to_string()));
    let request = leaderboard_request(&def);
    assert_eq!(
        request.url,
        "https://www.speedrun.com/api/v1/leaderboards/portal2/level/the%20level/coop"
    );
    assert_eq!(request.query.len(), 1);
}

#[test]
fn identifiers_are_percent_encoded_in_addresses() {
    let request = entity_request("games", "a b/c?d=\u{e9}~-_.Z9");
    assert_eq!(request.url, "https://www.speedrun.com/api/v1/games/a%20b%2Fc%3Fd%3D%C3%A9~-_.Z9");
    assert_eq!(request.method, Method::Get);
    assert!(request.query.is_empty());
    assert!(request.form.is_empty());
    let plain = entity_request("users", "abcdefgh");
    assert_eq!(plain.url, "https://www.speedrun.com/api/v1/users/abcdefgh");
}

#[test]
fn the_order_of_variables_is_the_order_of_their_bytes() {
    let map = choice(&[("b", "1"), ("B", "2"), ("a", "3"), ("\u{e9}", "4"), ("ab", "5")]);
    let keys: Vec<String> = entries(&map).into_iter().map(|(k, _)| k).collect();
    let mut sorted = keys.clone();
    sorted.sort();
    assert_eq!(keys, sorted);
    assert_eq!(keys, vec!["B", "a", "ab", "b", "\u{e9}"]);
}
